use ash::vk::{self, Handle};
use bonfire::command_ring_buffer::{CommandRingBuffer, CommandRingError};
use bonfire::device::{required_extensions, Device, DevicePlan, DeviceQueue, QueueFamilies};
use bonfire::swapchain::{
    plan_swapchain, AcquireOutcome, Extent2D, PresentMode, PresentStatus, SurfaceCapabilities,
    SurfaceFormat, SurfaceSupport, Swapchain, SwapchainDesc, SwapchainSync,
};
use bonfire::FRAMES_IN_FLIGHT;

fn queue(family: u32) -> DeviceQueue {
    DeviceQueue { raw: vk::Queue::from_raw(100 + family as u64), family }
}

fn device() -> Device {
    let plan = DevicePlan {
        families: QueueFamilies { graphics: 0, compute: 1, transfer: 2 },
        unique_families: vec![0, 1, 2],
        extensions: required_extensions(),
    };
    Device::new(
        &plan,
        queue(0),
        queue(1),
        queue(2),
        vk::Semaphore::from_raw(7),
        vec![vk::CommandPool::from_raw(11), vk::CommandPool::from_raw(12)],
        vec![vk::CommandBuffer::from_raw(21), vk::CommandBuffer::from_raw(22)],
    )
}

fn ring(device: &Device, primary: usize) -> CommandRingBuffer {
    let builder = CommandRingBuffer::builder(device).primary_buffers_per_pool(primary);
    let layout = builder.layout().unwrap();
    let pools = (0..layout.num_pools).map(|p| vk::CommandPool::from_raw(1000 + p as u64)).collect();
    let buffers = (0..layout.num_pools * primary)
        .map(|b| vk::CommandBuffer::from_raw(2000 + b as u64))
        .collect();
    builder.build(pools, buffers, Vec::new()).unwrap()
}

fn swapchain(images: u64) -> Swapchain {
    let format = SurfaceFormat { format: 50, color_space: 0 };
    let desc = SwapchainDesc { old_swapchain: None, format, vsync: true };
    let support = SurfaceSupport {
        capabilities: SurfaceCapabilities {
            min_image_count: images as u32 - 1,
            max_image_count: 0,
            min_image_extent: Extent2D { width: 1, height: 1 },
            max_image_extent: Extent2D { width: 4096, height: 4096 },
        },
        formats: vec![format],
        present_modes: vec![PresentMode::Fifo],
    };
    let requested = Extent2D { width: 640, height: 480 };
    let plan = plan_swapchain(&support, &desc, requested).unwrap();
    let imgs = (0..images).map(|i| vk::Image::from_raw(300 + i)).collect();
    let syncs = (0..images)
        .map(|i| SwapchainSync {
            acquire_semaphore: vk::Semaphore::from_raw(400 + i),
            present_semaphore: vk::Semaphore::from_raw(500 + i),
        })
        .collect();
    Swapchain::new(desc, plan, &support, requested, vk::SwapchainKHR::from_raw(9), imgs, syncs)
}

/// A GPU timeline that completes submissions only when told to.
struct MockTimeline {
    completed: u64,
    submitted: Vec<u64>,
}

impl MockTimeline {
    fn new() -> Self {
        MockTimeline { completed: 0, submitted: Vec::new() }
    }

    fn submit(&mut self, signal: u64) {
        self.submitted.push(signal);
    }

    fn complete_through(&mut self, value: u64) {
        assert!(self.submitted.iter().any(|&s| s >= value));
        if value > self.completed {
            self.completed = value;
        }
    }

    fn complete_all(&mut self) {
        if let Some(&last) = self.submitted.last() {
            self.complete_through(last);
        }
    }
}

#[test]
fn first_frames_do_not_wait() {
    let mut device = device();
    assert_eq!(FRAMES_IN_FLIGHT, 2);
    assert_eq!(device.begin_frame(0), None);
    assert_eq!(device.begin_frame(1), None);
    assert_eq!(device.begin_frame(2), Some(1));

    // Frame 2 may not reuse slot 0 until the GPU has signalled 1.
    let mut gpu = MockTimeline::new();
    let mut ring = ring(&device, 1);
    for _ in 0..2 {
        assert!(ring.reset_pool(&device, 0).is_ok());
        let sync = SwapchainSync {
            acquire_semaphore: vk::Semaphore::from_raw(1),
            present_semaphore: vk::Semaphore::from_raw(2),
        };
        gpu.submit(device.frame_submission(&sync).timeline_signal_value);
        device.finish_frame();
    }
    assert_eq!(device.absolute_frame_index(), 2);
    assert!(!device.pool_reuse_safe());
    assert_eq!(ring.reset_pool(&device, 0), Err(CommandRingError::PoolInFlight));
    gpu.complete_through(1);
    device.observe_pacing_value(gpu.completed);
    assert!(device.pool_reuse_safe());
    assert_eq!(ring.reset_pool(&device, 0), Ok(vk::CommandPool::from_raw(1000)));
}

#[test]
fn reset_refused_until_prior_occupant_retired() {
    let mut device = device();
    let mut ring = ring(&device, 1);
    let mut gpu = MockTimeline::new();
    let sync = SwapchainSync {
        acquire_semaphore: vk::Semaphore::from_raw(1),
        present_semaphore: vk::Semaphore::from_raw(2),
    };
    for frame in 0..8u64 {
        let f = device.absolute_frame_index();
        assert_eq!(f as u64, frame);
        if let Some(wait) = device.begin_frame(f) {
            // Nothing has completed for this frame's wait yet.
            if gpu.completed < wait {
                assert_eq!(ring.reset_pool(&device, 0), Err(CommandRingError::PoolInFlight));
                // the refused reset left the pool's used buffer counted
                assert!(!ring.primary_available(&device, 0));
            }
            gpu.complete_through(wait);
            device.observe_pacing_value(gpu.completed);
        }
        let pool = ring.reset_pool(&device, 0).unwrap();
        assert_eq!(pool, vk::CommandPool::from_raw(1000 + frame % 2));
        assert!(ring.primary_available(&device, 0));
        ring.get_next_primary_buffer(&device, 0);
        let submission = device.frame_submission(&sync);
        assert_eq!(submission.timeline_signal_value, frame + 1);
        gpu.submit(submission.timeline_signal_value);
        device.finish_frame();
    }
}

#[test]
fn five_frames_through_the_protocol() {
    let mut device = device();
    let mut ring = ring(&device, 1);
    let mut chain = swapchain(3);
    let mut gpu = MockTimeline::new();
    let mut finish_calls = 0;
    let mut violations = 0;
    for _ in 0..5 {
        let f = device.absolute_frame_index();
        if let Some(wait) = device.begin_frame(f) {
            assert!(gpu.completed >= wait);
            device.observe_pacing_value(gpu.completed);
        }
        if ring.reset_pool(&device, 0).is_err() {
            violations += 1;
        }
        assert!(ring.primary_available(&device, 0));
        let cmd = ring.get_next_primary_buffer(&device, 0);
        assert_eq!(cmd, vk::CommandBuffer::from_raw(2000 + (f % 2) as u64));
        let sync = chain.next_sync_pair();
        let image = chain
            .acquire_next_image(sync, AcquireOutcome::Acquired { image_index: (f % 3) as u32, suboptimal: false })
            .unwrap();
        let submission = device.frame_submission(&image.sync);
        assert_eq!(submission.wait_semaphore, image.sync.acquire_semaphore);
        assert_eq!(submission.signal_semaphore, image.sync.present_semaphore);
        assert_eq!(submission.timeline_semaphore, vk::Semaphore::from_raw(7));
        let expected_wait = if f >= 2 { Some(f as u64 - 1) } else { None };
        assert_eq!(submission.timeline_wait_value, expected_wait);
        gpu.submit(submission.timeline_signal_value);
        gpu.complete_all();
        chain.present_image(PresentStatus::Success);
        assert!(!chain.is_stale());
        device.finish_frame();
        finish_calls += 1;
    }
    assert_eq!(finish_calls, 5);
    assert_eq!(device.absolute_frame_index(), 5);
    assert_eq!(violations, 0);
}

#[test]
fn frame_counter_advances_by_one_per_finish() {
    let mut device = device();
    let start = device.absolute_frame_index();
    assert_eq!(start, 0);
    for n in 1..=10 {
        device.observe_pacing_value(n as u64);
        assert_eq!(device.absolute_frame_index(), start + n - 1);
        device.finish_frame();
        assert_eq!(device.absolute_frame_index(), start + n);
    }
}

#[test]
fn observing_a_lower_value_keeps_the_higher_one() {
    let mut device = device();
    device.finish_frame();
    device.finish_frame();
    device.finish_frame();
    device.observe_pacing_value(2);
    device.observe_pacing_value(1);
    assert!(device.pool_reuse_safe());
    device.finish_frame();
    assert!(!device.pool_reuse_safe());
}

#[test]
fn per_frame_command_buffer_follows_slot() {
    let device = device();
    assert_eq!(device.get_command_buffer(0), vk::CommandBuffer::from_raw(21));
    assert_eq!(device.get_command_buffer(1), vk::CommandBuffer::from_raw(22));
    assert_eq!(device.get_command_buffer(6), vk::CommandBuffer::from_raw(21));
    assert_eq!(device.get_command_buffer(7), vk::CommandBuffer::from_raw(22));
    assert_eq!(device.graphics_queue().family, 0);
    assert_eq!(device.compute_queue().family, 1);
    assert_eq!(device.transfer_queue().family, 2);
    assert_eq!(device.command_pools().len(), 2);
}

#[test]
fn begin_frame_wait_values() {
    let device = device();
    assert_eq!(device.begin_frame(3), Some(2));
    assert_eq!(device.begin_frame(100), Some(99));
    assert_eq!(device.begin_frame(usize::MAX), Some(usize::MAX as u64 - 1));
}
