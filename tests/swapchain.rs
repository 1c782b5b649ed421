use ash::vk::{self, Handle};
use bonfire::swapchain::{
    choose_present_mode, plan_swapchain, AcquireOutcome, Extent2D, PresentMode, PresentStatus,
    SurfaceCapabilities, SurfaceFormat, SurfaceSupport, Swapchain, SwapchainDesc, SwapchainError,
    SwapchainPlan, SwapchainSync,
};
use bonfire::RenderBackendConfig;

const SRGB: SurfaceFormat = SurfaceFormat { format: 50, color_space: 0 };
const UNORM: SurfaceFormat = SurfaceFormat { format: 44, color_space: 0 };

fn caps() -> SurfaceCapabilities {
    SurfaceCapabilities {
        min_image_count: 2,
        max_image_count: 8,
        min_image_extent: Extent2D { width: 1, height: 1 },
        max_image_extent: Extent2D { width: 4096, height: 4096 },
    }
}

fn support(capabilities: SurfaceCapabilities, formats: Vec<SurfaceFormat>, present_modes: Vec<PresentMode>) -> SurfaceSupport {
    SurfaceSupport { capabilities, formats, present_modes }
}

fn desc(format: SurfaceFormat, vsync: bool) -> SwapchainDesc {
    SwapchainDesc { old_swapchain: None, format, vsync }
}

fn syncs(from: u64, n: u64) -> Vec<SwapchainSync> {
    (from..from + n)
        .map(|i| SwapchainSync {
            acquire_semaphore: vk::Semaphore::from_raw(400 + i),
            present_semaphore: vk::Semaphore::from_raw(500 + i),
        })
        .collect()
}

fn images(base: u64, n: u64) -> Vec<vk::Image> {
    (0..n).map(|i| vk::Image::from_raw(base + i)).collect()
}

fn size(width: u32, height: u32) -> Extent2D {
    Extent2D { width, height }
}

/// A surface that records how many images it was asked to create.
struct MockSurface {
    support: SurfaceSupport,
    images_created: u64,
}

impl MockSurface {
    fn create(&mut self, d: SwapchainDesc, requested: Extent2D) -> Result<Swapchain, SwapchainError> {
        let plan = plan_swapchain(&self.support, &d, requested)?;
        let n = plan.image_count as u64;
        self.images_created += n;
        Ok(Swapchain::new(d, plan, &self.support, requested, vk::SwapchainKHR::from_raw(9), images(300, n), syncs(0, n)))
    }
}

#[test]
fn unsupported_format_creates_nothing() {
    let mut surface = MockSurface { support: support(caps(), vec![UNORM], vec![PresentMode::Fifo]), images_created: 0 };
    let r = surface.create(desc(SRGB, true), size(800, 600));
    assert!(matches!(r, Err(SwapchainError::FormatUnsupported)));
    assert_eq!(surface.images_created, 0);

    let ok = surface.create(desc(UNORM, true), size(800, 600)).unwrap();
    assert_eq!(surface.images_created, 3);
    assert_eq!(ok.image_count(), 3);
    assert_eq!(ok.images().len(), 3);
    assert_eq!(ok.syncs().len(), 3);
}

#[test]
fn format_is_checked_before_size() {
    let r = plan_swapchain(&support(caps(), vec![UNORM], vec![]), &desc(SRGB, false), size(0, 0));
    assert_eq!(r, Err(SwapchainError::FormatUnsupported));
    let mut zero = caps();
    zero.min_image_extent = size(0, 0);
    let r = plan_swapchain(&support(zero, vec![SRGB], vec![]), &desc(SRGB, false), size(0, 600));
    assert_eq!(r, Err(SwapchainError::ZeroExtent));
    let r = plan_swapchain(&support(zero, vec![SRGB], vec![]), &desc(SRGB, false), size(600, 0));
    assert_eq!(r, Err(SwapchainError::ZeroExtent));
}

#[test]
fn plan_clamps_extent_and_counts_images() {
    let r = plan_swapchain(
        &support(caps(), vec![UNORM, SRGB], vec![PresentMode::Fifo, PresentMode::Mailbox]),
        &desc(SRGB, true),
        size(10000, 0),
    )
    .unwrap();
    assert_eq!(
        r,
        SwapchainPlan { format: SRGB, extent: size(4096, 1), image_count: 3, present_mode: PresentMode::Mailbox }
    );

    let mut bounded = caps();
    bounded.min_image_count = 3;
    bounded.max_image_count = 3;
    let r = plan_swapchain(&support(bounded, vec![SRGB], vec![]), &desc(SRGB, true), size(5, 5)).unwrap();
    assert_eq!(r.image_count, 3);
    assert_eq!(r.present_mode, PresentMode::Fifo);

    let mut unbounded = caps();
    unbounded.min_image_count = 7;
    unbounded.max_image_count = 0;
    let r = plan_swapchain(&support(unbounded, vec![SRGB], vec![]), &desc(SRGB, true), size(5, 5)).unwrap();
    assert_eq!(r.image_count, 8);

    let mut huge = caps();
    huge.min_image_count = u32::MAX;
    huge.max_image_count = 0;
    let r = plan_swapchain(&support(huge, vec![SRGB], vec![]), &desc(SRGB, true), size(5, 5)).unwrap();
    assert_eq!(r.image_count, u32::MAX);
}

#[test]
fn present_mode_preferences() {
    let all = vec![PresentMode::Immediate, PresentMode::Mailbox, PresentMode::Fifo, PresentMode::FifoRelaxed];
    assert_eq!(choose_present_mode(&all, true), PresentMode::Mailbox);
    assert_eq!(choose_present_mode(&all, false), PresentMode::FifoRelaxed);
    assert_eq!(choose_present_mode(&vec![PresentMode::Fifo, PresentMode::Immediate], true), PresentMode::Fifo);
    assert_eq!(choose_present_mode(&vec![PresentMode::Fifo, PresentMode::Immediate], false), PresentMode::Immediate);
    assert_eq!(choose_present_mode(&vec![PresentMode::Other(7)], false), PresentMode::Fifo);
    assert_eq!(choose_present_mode(&vec![], true), PresentMode::Fifo);
}

fn fifo_support() -> SurfaceSupport {
    support(caps(), vec![SRGB], vec![PresentMode::Fifo])
}

fn ready_chain() -> Swapchain {
    let d = RenderBackendConfig { validation_layers: false, vsync: true }.swapchain_desc(SRGB);
    let s = fifo_support();
    let plan = plan_swapchain(&s, &d, size(800, 600)).unwrap();
    Swapchain::new(d, plan, &s, size(800, 600), vk::SwapchainKHR::from_raw(9), images(300, 3), syncs(0, 3))
}

#[test]
fn resize_with_unchanged_size_is_a_no_op() {
    let mut chain = ready_chain();
    let before = chain.plan();
    let r = chain.resize(&fifo_support(), size(800, 600));
    assert_eq!(r, Ok(None));
    assert_eq!(chain.plan(), before);
    assert_eq!(chain.raw(), vk::SwapchainKHR::from_raw(9));
    assert!(chain.desc().old_swapchain.is_none());
    assert!(chain.pending_rebuild().is_none());
    assert_eq!(chain.images().len(), 3);
}

#[test]
fn resize_to_new_size_plans_a_rebuild() {
    let mut chain = ready_chain();
    let plan = chain.resize(&fifo_support(), size(1024, 768)).unwrap().unwrap();
    assert_eq!(plan.extent, size(1024, 768));
    assert_eq!(chain.pending_rebuild(), Some(plan));
    assert_eq!(chain.desc().old_swapchain, Some(vk::SwapchainKHR::from_raw(9)));
    assert_eq!(chain.sync_pairs_needed(4), 1);
    assert_eq!(chain.sync_pairs_needed(2), 0);
    let (old, surplus) = chain.complete_rebuild(vk::SwapchainKHR::from_raw(10), images(600, 4), syncs(3, 1));
    assert_eq!(old, vk::SwapchainKHR::from_raw(9));
    assert!(surplus.is_empty());
    assert_eq!(chain.raw(), vk::SwapchainKHR::from_raw(10));
    assert_eq!(chain.plan(), plan);
    assert_eq!(chain.get_extent(), size(1024, 768));
    assert_eq!(chain.images(), images(600, 4));
    assert_eq!(chain.syncs().len(), 4);
    assert_eq!(chain.syncs()[3].acquire_semaphore, vk::Semaphore::from_raw(403));
    assert!(chain.desc().old_swapchain.is_none());
    assert!(chain.pending_rebuild().is_none());
    assert!(!chain.is_stale());
}

#[test]
fn rebuild_to_fewer_images_hands_back_surplus_pairs() {
    let mut chain = ready_chain();
    chain.resize(&fifo_support(), size(640, 480)).unwrap().unwrap();
    assert_eq!(chain.sync_pairs_needed(2), 0);
    let (_, surplus) = chain.complete_rebuild(vk::SwapchainKHR::from_raw(11), images(700, 2), Vec::new());
    assert_eq!(chain.image_count(), 2);
    assert_eq!(chain.syncs().len(), 2);
    assert_eq!(chain.syncs()[1].present_semaphore, vk::Semaphore::from_raw(501));
    assert_eq!(surplus.len(), 1);
    assert_eq!(surplus[0].acquire_semaphore, vk::Semaphore::from_raw(402));
}

#[test]
fn resize_failure_keeps_the_chain() {
    let mut chain = ready_chain();
    let r = chain.resize(&support(caps(), vec![UNORM], vec![PresentMode::Fifo]), size(800, 600));
    assert_eq!(r, Err(SwapchainError::FormatUnsupported));
    assert!(chain.desc().old_swapchain.is_none());
    assert!(chain.pending_rebuild().is_none());
    assert_eq!(chain.raw(), vk::SwapchainKHR::from_raw(9));
}

#[test]
fn stale_chain_rebuilds_even_at_same_size() {
    let mut chain = ready_chain();
    chain.present_image(PresentStatus::OutOfDate);
    assert!(chain.is_stale());
    let r = chain.resize(&fifo_support(), size(800, 600));
    assert_eq!(r, Ok(Some(chain.plan())));
}

#[test]
fn sync_cursor_advances_independently_of_image_index() {
    let mut chain = ready_chain();
    let first = chain.next_sync_pair();
    assert_eq!(first.acquire_semaphore, vk::Semaphore::from_raw(401));
    let img = chain
        .acquire_next_image(first, AcquireOutcome::Acquired { image_index: 0, suboptimal: false })
        .unwrap();
    assert_eq!(img.image, vk::Image::from_raw(300));
    assert_eq!(img.image_index, 0);
    assert_eq!(img.sync.present_semaphore, vk::Semaphore::from_raw(501));
    let second = chain.next_sync_pair();
    assert_eq!(second.acquire_semaphore, vk::Semaphore::from_raw(402));
    let third = chain.next_sync_pair();
    assert_eq!(third.acquire_semaphore, vk::Semaphore::from_raw(400));
    let req = chain.present_request(&img);
    assert_eq!(req.wait_semaphore, vk::Semaphore::from_raw(501));
    assert_eq!(req.swapchain, vk::SwapchainKHR::from_raw(9));
    assert_eq!(req.image_index, 0);
}

#[test]
fn acquire_outcomes() {
    let mut chain = ready_chain();
    let s = chain.next_sync_pair();
    assert!(matches!(
        chain.acquire_next_image(s, AcquireOutcome::Acquired { image_index: 3, suboptimal: false }),
        Err(SwapchainError::InvalidImageIndex)
    ));
    assert!(matches!(chain.acquire_next_image(s, AcquireOutcome::SurfaceLost), Err(SwapchainError::SurfaceLost)));
    assert!(matches!(chain.acquire_next_image(s, AcquireOutcome::Failed(-3)), Err(SwapchainError::Failed(-3))));
    assert!(!chain.is_stale());
    let img = chain.acquire_next_image(s, AcquireOutcome::Acquired { image_index: 2, suboptimal: true }).unwrap();
    assert_eq!(img.image, vk::Image::from_raw(302));
    assert!(chain.is_stale());
    let mut chain = ready_chain();
    assert!(matches!(chain.acquire_next_image(s, AcquireOutcome::OutOfDate), Err(SwapchainError::OutOfDate)));
    assert!(chain.is_stale());
}

#[test]
fn present_statuses() {
    let mut chain = ready_chain();
    chain.present_image(PresentStatus::Success);
    assert!(!chain.is_stale());
    chain.present_image(PresentStatus::Suboptimal);
    assert!(chain.is_stale());
}
