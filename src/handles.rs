//! Vulkan handle types, carried through the library as opaque values.
use vstd::prelude::*;

verus! {

/// A Vulkan queue handle; the library only carries it.
#[verifier::external_type_specification]
#[verifier::external_body]
pub struct ExQueue(ash::vk::Queue);

/// A Vulkan semaphore handle; the library only carries it.
#[verifier::external_type_specification]
#[verifier::external_body]
pub struct ExSemaphore(ash::vk::Semaphore);

/// A Vulkan command pool handle; the library only carries it.
#[verifier::external_type_specification]
#[verifier::external_body]
pub struct ExCommandPool(ash::vk::CommandPool);

/// A Vulkan command buffer handle; the library only carries it.
#[verifier::external_type_specification]
#[verifier::external_body]
pub struct ExCommandBuffer(ash::vk::CommandBuffer);

/// A Vulkan image handle; the library only carries it.
#[verifier::external_type_specification]
#[verifier::external_body]
pub struct ExImage(ash::vk::Image);

/// A Vulkan swapchain handle; the library only carries it.
#[verifier::external_type_specification]
#[verifier::external_body]
pub struct ExSwapchainKHR(ash::vk::SwapchainKHR);

/// A Vulkan surface handle; the library only carries it.
#[verifier::external_type_specification]
#[verifier::external_body]
pub struct ExSurfaceKHR(ash::vk::SurfaceKHR);

} // verus!
