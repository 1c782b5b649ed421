//! A Vulkan rendering backend core: device context, command ring allocator,
//! presentable surface, and the frame pacing protocol that ties them together.
//!
//! The library decides; the caller talks to the GPU. Every function here is a
//! pure state transition over plain values and carried handles, so the rules of
//! the pacing protocol are checked by the verifier rather than by convention.
use crate::device::Device;
use crate::instance::InstanceBuilder;
use crate::swapchain::{SurfaceFormat, Swapchain, SwapchainDesc};
use ash::vk;
use vstd::prelude::*;

pub mod command_ring_buffer;
pub mod device;
pub mod frame;
pub mod handles;
pub mod instance;
pub mod physical_device;
pub mod pipeline;
pub mod swapchain;

verus! {

/// Number of frames whose GPU work may overlap: the CPU records frame `n`
/// while the GPU may still be executing frame `n - 1`.
pub const FRAMES_IN_FLIGHT: usize = 2;

/// The frame slot that an absolute frame index occupies.
pub open spec fn slot_of(frame_index: int) -> int {
    frame_index % (FRAMES_IN_FLIGHT as int)
}

/// Choices the embedding application makes when starting the backend.
#[derive(Clone, Copy, Debug, PartialEq, Eq, Structural)]
pub struct RenderBackendConfig {
    pub validation_layers: bool,
    pub vsync: bool,
}

impl RenderBackendConfig {
    /// The instance configuration: the windowing system's extensions, and
    /// validation as configured.
    pub fn instance_builder(&self, window_extensions: Vec<String>) -> (r: InstanceBuilder)
        ensures
            r.required_extensions == window_extensions,
            r.validation_layers == self.validation_layers,
    {
        InstanceBuilder::default().required_extensions(window_extensions).enable_validation_layers(
            self.validation_layers,
        )
    }

    /// The description of the first present chain, which has no predecessor.
    pub fn swapchain_desc(&self, format: SurfaceFormat) -> (r: SwapchainDesc)
        ensures
            r.old_swapchain is None,
            r.format == format,
            r.vsync == self.vsync,
    {
        SwapchainDesc { old_swapchain: None, format, vsync: self.vsync }
    }
}

/// The device context, the window's surface and its present chain. The
/// chain is destroyed before the surface, and both before the device.
pub struct RenderBackend {
    pub swapchain: Swapchain,
    pub surface: vk::SurfaceKHR,
    pub device: Device,
}

impl RenderBackend {
    /// Assembles the backend started with `config`: its present chain is the
    /// first one (no predecessor), uses the configured vsync preference, and
    /// was planned with a format the surface supports.
    pub fn new(
        config: &RenderBackendConfig,
        device: Device,
        surface: vk::SurfaceKHR,
        swapchain: Swapchain,
    ) -> (r: RenderBackend)
        requires
            swapchain@.desc.old_swapchain is None,
            swapchain@.desc.vsync == config.vsync,
        ensures
            r.device == device,
            r.surface == surface,
            r.swapchain == swapchain,
            r.swapchain@.wf(),
            r.swapchain@.formats.contains(r.swapchain@.plan.format),
    {
        let format = swapchain.plan().format;
        assert(swapchain@.formats.contains(format));
        RenderBackend { swapchain, surface, device }
    }
}

} // verus!
