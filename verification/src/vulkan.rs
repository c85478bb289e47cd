//! The few facts about Vulkan that the negotiation rests on, taken from `ash`.

use vstd::prelude::*;

verus! {

/// The queue flag bit of a family that takes graphics work.
pub const GRAPHICS_BIT: u32 = 1;

/// The raw device type of a discrete GPU.
pub const DISCRETE_GPU: i32 = 2;

/// Whether raw queue flags include the graphics bit.
pub open spec fn supports_graphics(queue_flags: u32) -> bool {
    queue_flags & GRAPHICS_BIT == GRAPHICS_BIT
}

/// Whether a raw device type is that of a discrete GPU.
pub open spec fn is_discrete(device_type: i32) -> bool {
    device_type == DISCRETE_GPU
}

/// The name of the device extension that provides swapchains.
pub open spec fn swapchain_name() -> Seq<char> {
    "VK_KHR_swapchain"@
}

/// Calls `ash::vk::QueueFlags::contains` on the given raw flags, asking for
/// `QueueFlags::GRAPHICS`.
///
/// Trusted: `contains` tests that every bit of its argument is set in the
/// receiver, and `GRAPHICS` is the lowest bit.
#[verifier::external_body]
pub(crate) fn flags_support_graphics(queue_flags: u32) -> (r: bool)
    ensures
        r == supports_graphics(queue_flags),
{
    ash::vk::QueueFlags::from_raw(queue_flags).contains(ash::vk::QueueFlags::GRAPHICS)
}

/// Compares a raw device type with `ash::vk::PhysicalDeviceType::DISCRETE_GPU`.
///
/// Trusted: `PhysicalDeviceType` wraps the raw value, its equality is that
/// of the raw values, and `DISCRETE_GPU` wraps 2.
#[verifier::external_body]
pub(crate) fn device_type_is_discrete(device_type: i32) -> (r: bool)
    ensures
        r == is_discrete(device_type),
{
    ash::vk::PhysicalDeviceType::from_raw(device_type) == ash::vk::PhysicalDeviceType::DISCRETE_GPU
}

/// Reads `ash::khr::swapchain::NAME` as a string.
///
/// Trusted: the constant holds the text `VK_KHR_swapchain`.
#[verifier::external_body]
pub(crate) fn swapchain_extension_name() -> (r: String)
    ensures
        r@ == swapchain_name(),
{
    ash::khr::swapchain::NAME.to_string_lossy().into_owned()
}

} // verus!
