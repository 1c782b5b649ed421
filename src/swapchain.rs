//! Presentable surface: swap images, their semaphore pairs, and the rules for
//! (re)creating the present chain.
use ash::vk;
use vstd::prelude::*;

verus! {

/// The pair of binary semaphores used for one acquire/present cycle.
#[derive(Clone, Copy, Debug)]
pub struct SwapchainSync {
    pub acquire_semaphore: vk::Semaphore,
    pub present_semaphore: vk::Semaphore,
}

/// A pixel format with its color space, as raw Vulkan enum values.
#[derive(Clone, Copy, Debug, PartialEq, Eq, Structural)]
pub struct SurfaceFormat {
    pub format: i32,
    pub color_space: i32,
}

#[derive(Clone, Copy, Debug, PartialEq, Eq, Structural)]
pub struct Extent2D {
    pub width: u32,
    pub height: u32,
}

/// What the platform reports of the surface.
#[derive(Clone, Copy, Debug, PartialEq, Eq, Structural)]
pub struct SurfaceCapabilities {
    pub min_image_count: u32,
    /// 0 means no upper bound.
    pub max_image_count: u32,
    pub min_image_extent: Extent2D,
    pub max_image_extent: Extent2D,
}

#[derive(Clone, Copy, Debug, PartialEq, Eq, Structural)]
pub enum PresentMode {
    /// Always tears.
    Immediate,
    /// Low-latency triple buffering.
    Mailbox,
    /// Vsync; every platform supports it.
    Fifo,
    /// Vsync that tears when a frame is late.
    FifoRelaxed,
    /// Any other mode, by its raw value.
    Other(i32),
}

/// What the caller asks of the present chain.
#[derive(Clone, Copy, Debug)]
pub struct SwapchainDesc {
    /// The chain being replaced, handed to the platform for recycling.
    pub old_swapchain: Option<vk::SwapchainKHR>,
    pub format: SurfaceFormat,
    pub vsync: bool,
}

/// The parameters a present chain is created with.
#[derive(Clone, Copy, Debug, PartialEq, Eq, Structural)]
pub struct SwapchainPlan {
    pub format: SurfaceFormat,
    pub extent: Extent2D,
    pub image_count: u32,
    pub present_mode: PresentMode,
}

#[derive(Clone, Copy, Debug, PartialEq, Eq, Structural)]
pub enum SwapchainError {
    /// The requested format is not among those the surface supports.
    FormatUnsupported,
    /// The output would have no area.
    ZeroExtent,
    /// The chain no longer matches the surface and must be rebuilt.
    OutOfDate,
    SurfaceLost,
    /// The platform named an image the chain does not have.
    InvalidImageIndex,
    /// Any other failure, by its raw result code.
    Failed(i32),
}

pub open spec fn clamp(v: u32, lo: u32, hi: u32) -> u32 {
    if v < lo {
        lo
    } else if v > hi {
        hi
    } else {
        v
    }
}

/// The requested output size, clamped to the platform's limits.
pub open spec fn planned_extent(caps: SurfaceCapabilities, requested: Extent2D) -> Extent2D {
    Extent2D {
        width: clamp(requested.width, caps.min_image_extent.width, caps.max_image_extent.width),
        height: clamp(requested.height, caps.min_image_extent.height, caps.max_image_extent.height),
    }
}

/// One image more than the minimum, bounded by the maximum when there is one
/// (and by the range of `u32`).
pub open spec fn planned_image_count(caps: SurfaceCapabilities) -> u32 {
    let wanted = if caps.min_image_count < u32::MAX {
        (caps.min_image_count + 1) as u32
    } else {
        u32::MAX
    };
    if caps.max_image_count > 0 && wanted > caps.max_image_count {
        caps.max_image_count
    } else {
        wanted
    }
}

/// Present modes in order of preference.
pub open spec fn present_mode_preference(vsync: bool) -> Seq<PresentMode> {
    if vsync {
        seq![PresentMode::Mailbox, PresentMode::Fifo]
    } else {
        seq![PresentMode::FifoRelaxed, PresentMode::Immediate]
    }
}

/// The first preferred mode the surface supports, else FIFO.
pub open spec fn chosen_present_mode(supported: Seq<PresentMode>, vsync: bool) -> PresentMode {
    let pref = present_mode_preference(vsync);
    if supported.contains(pref[0]) {
        pref[0]
    } else if supported.contains(pref[1]) {
        pref[1]
    } else {
        PresentMode::Fifo
    }
}

/// The outcome of planning a present chain: the format is checked first,
/// then the size.
pub open spec fn swapchain_plan(
    caps: SurfaceCapabilities,
    formats: Seq<SurfaceFormat>,
    present_modes: Seq<PresentMode>,
    format: SurfaceFormat,
    vsync: bool,
    requested: Extent2D,
) -> Result<SwapchainPlan, SwapchainError> {
    let extent = planned_extent(caps, requested);
    if !formats.contains(format) {
        Err(SwapchainError::FormatUnsupported)
    } else if extent.width == 0 || extent.height == 0 {
        Err(SwapchainError::ZeroExtent)
    } else {
        Ok(
            SwapchainPlan {
                format,
                extent,
                image_count: planned_image_count(caps),
                present_mode: chosen_present_mode(present_modes, vsync),
            },
        )
    }
}

fn clamp_u32(v: u32, lo: u32, hi: u32) -> (r: u32)
    ensures
        r == clamp(v, lo, hi),
{
    if v < lo {
        lo
    } else if v > hi {
        hi
    } else {
        v
    }
}

fn contains_format(formats: &Vec<SurfaceFormat>, f: SurfaceFormat) -> (r: bool)
    ensures
        r == formats@.contains(f),
{
    let mut i: usize = 0;
    while i < formats.len()
        invariant
            i <= formats@.len(),
            forall|j: int| 0 <= j < i ==> formats@[j] != f,
        decreases formats@.len() - i,
    {
        if formats[i] == f {
            assert(formats@[i as int] == f);
            return true;
        }
        i += 1;
    }
    false
}

fn contains_mode(modes: &Vec<PresentMode>, m: PresentMode) -> (r: bool)
    ensures
        r == modes@.contains(m),
{
    let mut i: usize = 0;
    while i < modes.len()
        invariant
            i <= modes@.len(),
            forall|j: int| 0 <= j < i ==> modes@[j] != m,
        decreases modes@.len() - i,
    {
        if modes[i] == m {
            assert(modes@[i as int] == m);
            return true;
        }
        i += 1;
    }
    false
}

/// The present mode for the vsync preference among the supported ones.
pub fn choose_present_mode(supported: &Vec<PresentMode>, vsync: bool) -> (r: PresentMode)
    ensures
        r == chosen_present_mode(supported@, vsync),
{
    let (first, second) = if vsync {
        (PresentMode::Mailbox, PresentMode::Fifo)
    } else {
        (PresentMode::FifoRelaxed, PresentMode::Immediate)
    };
    if contains_mode(supported, first) {
        first
    } else if contains_mode(supported, second) {
        second
    } else {
        PresentMode::Fifo
    }
}

/// What the platform reports of a surface: its capabilities, formats and
/// present modes.
pub struct SurfaceSupport {
    pub capabilities: SurfaceCapabilities,
    pub formats: Vec<SurfaceFormat>,
    pub present_modes: Vec<PresentMode>,
}

/// The outcome of planning a chain for `desc` on a surface with `support`.
pub open spec fn plan_for(support: SurfaceSupport, desc: SwapchainDesc, requested: Extent2D) -> Result<
    SwapchainPlan,
    SwapchainError,
> {
    swapchain_plan(
        support.capabilities,
        support.formats@,
        support.present_modes@,
        desc.format,
        desc.vsync,
        requested,
    )
}

/// Plans the present chain for `desc` on a surface with this support, at the
/// requested output size. Fails, before anything is created, when the format
/// is unsupported or the clamped size has no area.
pub fn plan_swapchain(support: &SurfaceSupport, desc: &SwapchainDesc, requested: Extent2D) -> (r:
    Result<SwapchainPlan, SwapchainError>)
    ensures
        r == plan_for(*support, *desc, requested),
        !support.formats@.contains(desc.format) ==> r == Err::<SwapchainPlan, SwapchainError>(
            SwapchainError::FormatUnsupported,
        ),
{
    let caps = &support.capabilities;
    let formats = &support.formats;
    let present_modes = &support.present_modes;
    if !contains_format(formats, desc.format) {
        return Err(SwapchainError::FormatUnsupported);
    }
    let extent = Extent2D {
        width: clamp_u32(requested.width, caps.min_image_extent.width, caps.max_image_extent.width),
        height: clamp_u32(
            requested.height,
            caps.min_image_extent.height,
            caps.max_image_extent.height,
        ),
    };
    if extent.width == 0 || extent.height == 0 {
        return Err(SwapchainError::ZeroExtent);
    }
    let mut image_count = if caps.min_image_count < u32::MAX {
        caps.min_image_count + 1
    } else {
        u32::MAX
    };
    if caps.max_image_count > 0 && image_count > caps.max_image_count {
        image_count = caps.max_image_count;
    }
    Ok(
        SwapchainPlan {
            format: desc.format,
            extent,
            image_count,
            present_mode: choose_present_mode(present_modes, desc.vsync),
        },
    )
}

/// An acquired image: valid until the chain is next rebuilt.
#[derive(Clone, Copy, Debug)]
pub struct SwapchainImage {
    pub image: vk::Image,
    pub image_index: u32,
    pub sync: SwapchainSync,
}

/// What the platform answered to a request for the next image.
#[derive(Clone, Copy, Debug, PartialEq, Eq, Structural)]
pub enum AcquireOutcome {
    Acquired { image_index: u32, suboptimal: bool },
    OutOfDate,
    SurfaceLost,
    Failed(i32),
}

/// What the platform answered to a present request.
#[derive(Clone, Copy, Debug, PartialEq, Eq, Structural)]
pub enum PresentStatus {
    Success,
    Suboptimal,
    OutOfDate,
    Failed(i32),
}

/// The handles of one present request.
#[derive(Clone, Copy, Debug)]
pub struct PresentRequest {
    pub wait_semaphore: vk::Semaphore,
    pub swapchain: vk::SwapchainKHR,
    pub image_index: u32,
}

/// The abstract state of a present chain.
pub struct SwapchainView {
    pub desc: SwapchainDesc,
    pub raw: vk::SwapchainKHR,
    pub images: Seq<vk::Image>,
    /// The sync pair of each image, index for index.
    pub syncs: Seq<SwapchainSync>,
    /// The sync-pair cursor; it advances on every acquire, whatever image
    /// the platform returns.
    pub sync_index: nat,
    pub plan: SwapchainPlan,
    /// The formats the surface reported when the current plan was made.
    pub formats: Seq<SurfaceFormat>,
    /// The platform reported that the chain no longer matches the surface.
    pub stale: bool,
    /// The plan of a rebuild that `resize` decided and that is not installed
    /// yet, with the formats the surface reported for it.
    pub pending: Option<SwapchainPlan>,
    pub pending_formats: Seq<SurfaceFormat>,
}

impl SwapchainView {
    /// At least one image, exactly one sync pair per image, the cursor on
    /// one of them, and a plan whose format the surface supports.
    pub open spec fn wf(self) -> bool {
        &&& self.images.len() >= 1
        &&& self.syncs.len() == self.images.len()
        &&& self.sync_index < self.images.len()
        &&& self.plan.format == self.desc.format
        &&& self.formats.contains(self.desc.format)
        &&& self.pending matches Some(p) ==> p.format == self.desc.format
            && self.pending_formats.contains(self.desc.format)
    }

    /// Sync pairs to create before the chain can hold `image_count` images.
    pub open spec fn pairs_needed(self, image_count: nat) -> nat {
        if image_count > self.syncs.len() {
            (image_count - self.syncs.len()) as nat
        } else {
            0
        }
    }
}

/// A swap image with its own sync pair.
#[derive(Clone, Copy, Debug)]
struct SwapSlot {
    image: vk::Image,
    sync: SwapchainSync,
}

/// A present chain: its images, each with its own semaphore pair, and the
/// plan it was created from.
pub struct Swapchain {
    desc: SwapchainDesc,
    raw: vk::SwapchainKHR,
    slots: Vec<SwapSlot>,
    sync_index: usize,
    plan: SwapchainPlan,
    formats: Ghost<Seq<SurfaceFormat>>,
    stale: bool,
    pending: Option<SwapchainPlan>,
    pending_formats: Ghost<Seq<SurfaceFormat>>,
}

impl View for Swapchain {
    type V = SwapchainView;

    closed spec fn view(&self) -> SwapchainView {
        SwapchainView {
            desc: self.desc,
            raw: self.raw,
            images: self.slots@.map_values(|s: SwapSlot| s.image),
            syncs: self.slots@.map_values(|s: SwapSlot| s.sync),
            sync_index: self.sync_index as nat,
            plan: self.plan,
            formats: self.formats@,
            stale: self.stale,
            pending: self.pending,
            pending_formats: self.pending_formats@,
        }
    }
}

/// Pairs image `i` with sync pair `i`.
fn pair_up(images: &Vec<vk::Image>, syncs: &Vec<SwapchainSync>) -> (r: Vec<SwapSlot>)
    requires
        syncs@.len() >= images@.len(),
    ensures
        r@.map_values(|s: SwapSlot| s.image) == images@,
        r@.map_values(|s: SwapSlot| s.sync) == syncs@.subrange(0, images@.len() as int),
{
    let mut r: Vec<SwapSlot> = Vec::new();
    let mut i: usize = 0;
    while i < images.len()
        invariant
            i <= images@.len() <= syncs@.len(),
            r@.len() == i,
            r@.map_values(|s: SwapSlot| s.image) == images@.subrange(0, i as int),
            r@.map_values(|s: SwapSlot| s.sync) == syncs@.subrange(0, i as int),
        decreases images@.len() - i,
    {
        let ghost prev = r@;
        let slot = SwapSlot { image: images[i], sync: syncs[i] };
        r.push(slot);
        assert(r@ == prev.push(slot));
        assert forall|j: int| 0 <= j < i + 1 implies r@[j].image == images@[j] && r@[j].sync
            == syncs@[j] by {
            if j < i {
                assert(r@[j] == prev[j]);
                assert(prev.map_values(|s: SwapSlot| s.image)[j] == images@.subrange(0, i as int)[j]);
                assert(prev.map_values(|s: SwapSlot| s.sync)[j] == syncs@.subrange(0, i as int)[j]);
            }
        }
        i += 1;
        assert(r@.map_values(|s: SwapSlot| s.image) =~= images@.subrange(0, i as int));
        assert(r@.map_values(|s: SwapSlot| s.sync) =~= syncs@.subrange(0, i as int));
    }
    assert(images@.subrange(0, images@.len() as int) =~= images@);
    r
}

impl Swapchain {
    #[verifier::type_invariant]
    spec fn inv(self) -> bool {
        self@.wf()
    }

    /// Assembles a chain created from `plan`, which must be the successful
    /// plan for `desc` on a surface with `support`, with one sync pair per
    /// image.
    pub fn new(
        desc: SwapchainDesc,
        plan: SwapchainPlan,
        support: &SurfaceSupport,
        requested: Extent2D,
        raw: vk::SwapchainKHR,
        images: Vec<vk::Image>,
        syncs: Vec<SwapchainSync>,
    ) -> (r: Swapchain)
        requires
            plan_for(*support, desc, requested) == Ok::<SwapchainPlan, SwapchainError>(plan),
            images@.len() >= 1,
            syncs@.len() == images@.len(),
        ensures
            r@.wf(),
            r@ == (SwapchainView {
                desc,
                raw,
                images: images@,
                syncs: syncs@,
                sync_index: 0,
                plan,
                formats: support.formats@,
                stale: false,
                pending: None,
                pending_formats: Seq::empty(),
            }),
    {
        let slots = pair_up(&images, &syncs);
        assert(syncs@.subrange(0, images@.len() as int) =~= syncs@);
        Swapchain {
            desc,
            raw,
            slots,
            sync_index: 0,
            plan,
            formats: Ghost(support.formats@),
            stale: false,
            pending: None,
            pending_formats: Ghost(Seq::empty()),
        }
    }

    pub fn raw(&self) -> (r: vk::SwapchainKHR)
        ensures
            r == self@.raw,
            self@.wf(),
    {
        proof {
            use_type_invariant(self);
        }
        self.raw
    }

    pub fn desc(&self) -> (r: SwapchainDesc)
        ensures
            r == self@.desc,
            self@.wf(),
    {
        proof {
            use_type_invariant(self);
        }
        self.desc
    }

    pub fn plan(&self) -> (r: SwapchainPlan)
        ensures
            r == self@.plan,
            self@.wf(),
    {
        proof {
            use_type_invariant(self);
        }
        self.plan
    }

    pub fn get_extent(&self) -> (r: Extent2D)
        ensures
            r == self@.plan.extent,
    {
        self.plan.extent
    }

    /// The rebuild that `resize` decided, if it is not installed yet.
    pub fn pending_rebuild(&self) -> (r: Option<SwapchainPlan>)
        ensures
            r == self@.pending,
    {
        self.pending
    }

    pub fn image_count(&self) -> (r: usize)
        ensures
            r == self@.images.len(),
            r >= 1,
    {
        proof {
            use_type_invariant(self);
        }
        self.slots.len()
    }

    pub fn images(&self) -> (r: Vec<vk::Image>)
        ensures
            r@ == self@.images,
    {
        let mut r: Vec<vk::Image> = Vec::new();
        let mut i: usize = 0;
        while i < self.slots.len()
            invariant
                i <= self.slots@.len(),
                r@ == self.slots@.map_values(|s: SwapSlot| s.image).subrange(0, i as int),
            decreases self.slots@.len() - i,
        {
            r.push(self.slots[i].image);
            i += 1;
            assert(r@ =~= self.slots@.map_values(|s: SwapSlot| s.image).subrange(0, i as int));
        }
        assert(self@.images =~= self.slots@.map_values(|s: SwapSlot| s.image).subrange(
            0,
            self.slots@.len() as int,
        ));
        r
    }

    /// Every sync pair, for destruction at shutdown.
    pub fn syncs(&self) -> (r: Vec<SwapchainSync>)
        ensures
            r@ == self@.syncs,
    {
        let mut r: Vec<SwapchainSync> = Vec::new();
        let mut i: usize = 0;
        while i < self.slots.len()
            invariant
                i <= self.slots@.len(),
                r@ == self.slots@.map_values(|s: SwapSlot| s.sync).subrange(0, i as int),
            decreases self.slots@.len() - i,
        {
            r.push(self.slots[i].sync);
            i += 1;
            assert(r@ =~= self.slots@.map_values(|s: SwapSlot| s.sync).subrange(0, i as int));
        }
        assert(self@.syncs =~= self.slots@.map_values(|s: SwapSlot| s.sync).subrange(
            0,
            self.slots@.len() as int,
        ));
        r
    }

    pub fn is_stale(&self) -> (r: bool)
        ensures
            r == self@.stale,
    {
        self.stale
    }

    /// Advances the sync-pair cursor, modulo the image count, and returns
    /// the pair whose acquire semaphore the next acquire signals.
    pub fn next_sync_pair(&mut self) -> (r: SwapchainSync)
        ensures
            final(self)@.wf(),
            final(self)@ == (SwapchainView {
                sync_index: ((old(self)@.sync_index + 1) % old(self)@.images.len()) as nat,
                ..old(self)@
            }),
            r == final(self)@.syncs[final(self)@.sync_index as int],
    {
        proof {
            use_type_invariant(&*self);
        }
        let count = self.slots.len();
        self.sync_index = (self.sync_index + 1) % count;
        proof {
            use_type_invariant(&*self);
        }
        self.slots[self.sync_index].sync
    }

    /// Turns the platform's answer to an acquire that used `sync` into the
    /// image to render to. An out-of-date answer marks the chain stale.
    pub fn acquire_next_image(&mut self, sync: SwapchainSync, outcome: AcquireOutcome) -> (r:
        Result<SwapchainImage, SwapchainError>)
        ensures
            final(self)@.wf(),
            match outcome {
                AcquireOutcome::Acquired { image_index, suboptimal } => {
                    if (image_index as int) < old(self)@.images.len() {
                        &&& r == Ok::<SwapchainImage, SwapchainError>(
                            SwapchainImage {
                                image: old(self)@.images[image_index as int],
                                image_index,
                                sync,
                            },
                        )
                        &&& final(self)@ == (SwapchainView {
                            stale: old(self)@.stale || suboptimal,
                            ..old(self)@
                        })
                    } else {
                        &&& r == Err::<SwapchainImage, SwapchainError>(
                            SwapchainError::InvalidImageIndex,
                        )
                        &&& final(self)@ == old(self)@
                    }
                },
                AcquireOutcome::OutOfDate => {
                    &&& r == Err::<SwapchainImage, SwapchainError>(SwapchainError::OutOfDate)
                    &&& final(self)@ == (SwapchainView { stale: true, ..old(self)@ })
                },
                AcquireOutcome::SurfaceLost => {
                    &&& r == Err::<SwapchainImage, SwapchainError>(SwapchainError::SurfaceLost)
                    &&& final(self)@ == old(self)@
                },
                AcquireOutcome::Failed(code) => {
                    &&& r == Err::<SwapchainImage, SwapchainError>(SwapchainError::Failed(code))
                    &&& final(self)@ == old(self)@
                },
            },
    {
        proof {
            use_type_invariant(&*self);
        }
        match outcome {
            AcquireOutcome::Acquired { image_index, suboptimal } => {
                if (image_index as usize) < self.slots.len() {
                    if suboptimal {
                        self.stale = true;
                    }
                    Ok(
                        SwapchainImage {
                            image: self.slots[image_index as usize].image,
                            image_index,
                            sync,
                        },
                    )
                } else {
                    Err(SwapchainError::InvalidImageIndex)
                }
            },
            AcquireOutcome::OutOfDate => {
                self.stale = true;
                Err(SwapchainError::OutOfDate)
            },
            AcquireOutcome::SurfaceLost => Err(SwapchainError::SurfaceLost),
            AcquireOutcome::Failed(code) => Err(SwapchainError::Failed(code)),
        }
    }

    /// The present request for an acquired image: it waits on the image's
    /// present semaphore.
    pub fn present_request(&self, image: &SwapchainImage) -> (r: PresentRequest)
        ensures
            r.wait_semaphore == image.sync.present_semaphore,
            r.swapchain == self@.raw,
            r.image_index == image.image_index,
    {
        PresentRequest {
            wait_semaphore: image.sync.present_semaphore,
            swapchain: self.raw,
            image_index: image.image_index,
        }
    }

    /// Takes the platform's answer to a present. Out-of-date and suboptimal
    /// are tolerated: the chain is marked stale for the next resize. Any other
    /// failure is fatal, so it is not an answer this accepts.
    pub fn present_image(&mut self, status: PresentStatus)
        requires
            !(status is Failed),
        ensures
            final(self)@.wf(),
            status is Success ==> final(self)@ == old(self)@,
            !(status is Success) ==> final(self)@ == (SwapchainView { stale: true, ..old(self)@ }),
    {
        proof {
            use_type_invariant(&*self);
        }
        match status {
            PresentStatus::Success => {},
            _ => {
                self.stale = true;
            },
        }
    }

    /// Decides what a resize to `requested` needs. Returns `None` when the
    /// chain is current and the new plan equals the one it was built from:
    /// nothing is destroyed or recreated. Otherwise returns the plan to
    /// create the new chain from, records it as pending, and records the
    /// current chain as the one to recycle. A planning failure leaves the
    /// chain as it was.
    pub fn resize(&mut self, support: &SurfaceSupport, requested: Extent2D) -> (r: Result<
        Option<SwapchainPlan>,
        SwapchainError,
    >)
        ensures
            final(self)@.wf(),
            match plan_for(*support, old(self)@.desc, requested) {
                Err(e) => {
                    &&& r == Err::<Option<SwapchainPlan>, SwapchainError>(e)
                    &&& final(self)@ == old(self)@
                },
                Ok(p) => if !old(self)@.stale && p == old(self)@.plan {
                    &&& r == Ok::<Option<SwapchainPlan>, SwapchainError>(None)
                    &&& final(self)@ == old(self)@
                } else {
                    &&& r == Ok::<Option<SwapchainPlan>, SwapchainError>(Some(p))
                    &&& final(self)@ == (SwapchainView {
                        desc: SwapchainDesc {
                            old_swapchain: Some(old(self)@.raw),
                            ..old(self)@.desc
                        },
                        pending: Some(p),
                        pending_formats: support.formats@,
                        ..old(self)@
                    })
                },
            },
            !old(self)@.stale && plan_for(*support, old(self)@.desc, requested) == Ok::<
                SwapchainPlan,
                SwapchainError,
            >(old(self)@.plan) ==> r == Ok::<Option<SwapchainPlan>, SwapchainError>(None)
                && final(self)@ == old(self)@,
    {
        proof {
            use_type_invariant(&*self);
        }
        let plan = match plan_swapchain(support, &self.desc, requested) {
            Ok(p) => p,
            Err(e) => return Err(e),
        };
        if !self.stale && plan == self.plan {
            return Ok(None);
        }
        self.pending_formats = Ghost(support.formats@);
        self.pending = Some(plan);
        self.desc = SwapchainDesc { old_swapchain: Some(self.raw), ..self.desc };
        Ok(Some(plan))
    }

    /// How many sync pairs to create before a rebuild to `image_count`
    /// images.
    pub fn sync_pairs_needed(&self, image_count: usize) -> (r: usize)
        ensures
            r == self@.pairs_needed(image_count as nat),
    {
        proof {
            use_type_invariant(self);
        }
        if image_count > self.slots.len() {
            image_count - self.slots.len()
        } else {
            0
        }
    }

    /// Installs the chain created from the pending plan. Image `i` keeps sync
    /// pair `i`: the existing pairs come first, then `new_syncs`. Returns the
    /// previous chain and the pairs left over when the chain shrank; the
    /// caller destroys both now that the replacement is live.
    pub fn complete_rebuild(
        &mut self,
        raw: vk::SwapchainKHR,
        images: Vec<vk::Image>,
        new_syncs: Vec<SwapchainSync>,
    ) -> (r: (vk::SwapchainKHR, Vec<SwapchainSync>))
        requires
            old(self)@.pending is Some,
            images@.len() >= 1,
            new_syncs@.len() == old(self)@.pairs_needed(images@.len()),
        ensures
            final(self)@.wf(),
            ({
                let pairs = old(self)@.syncs + new_syncs@;
                let n = images@.len() as int;
                &&& r.0 == old(self)@.raw
                &&& r.1@ == pairs.subrange(n, pairs.len() as int)
                &&& final(self)@ == (SwapchainView {
                    desc: SwapchainDesc { old_swapchain: None, ..old(self)@.desc },
                    raw,
                    images: images@,
                    syncs: pairs.subrange(0, n),
                    sync_index: (old(self)@.sync_index % images@.len()) as nat,
                    plan: old(self)@.pending->0,
                    formats: old(self)@.pending_formats,
                    stale: false,
                    pending: None,
                    pending_formats: old(self)@.pending_formats,
                })
            }),
    {
        proof {
            use_type_invariant(&*self);
        }
        let old_raw = self.raw;
        let old_cursor = self.sync_index;
        let mut pairs = self.syncs();
        let mut i: usize = 0;
        while i < new_syncs.len()
            invariant
                i <= new_syncs@.len(),
                pairs@ == old(self)@.syncs + new_syncs@.subrange(0, i as int),
                old(self)@.syncs.len() + new_syncs@.len() >= images@.len(),
            decreases new_syncs@.len() - i,
        {
            pairs.push(new_syncs[i]);
            i += 1;
            assert(pairs@ =~= old(self)@.syncs + new_syncs@.subrange(0, i as int));
        }
        assert(new_syncs@.subrange(0, new_syncs@.len() as int) =~= new_syncs@);
        let count = images.len();
        let slots = pair_up(&images, &pairs);
        let surplus = pairs.split_off(count);
        let plan = match self.pending {
            Some(p) => p,
            None => self.plan,
        };
        self.sync_index = 0;
        self.slots = slots;
        self.sync_index = old_cursor % count;
        self.plan = plan;
        self.formats = Ghost(self.pending_formats@);
        self.pending = None;
        self.desc = SwapchainDesc { old_swapchain: None, ..self.desc };
        self.raw = raw;
        self.stale = false;
        (old_raw, surplus)
    }
}

} // verus!
