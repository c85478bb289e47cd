//! Negotiation of a graphics device at start-up: which physical device to
//! render with, which of its queue families serve graphics and presentation,
//! which queues to ask for, and which queue each role gets once the logical
//! device exists.
//!
//! The library works on plain descriptions of the devices. Asking the driver
//! for them, and creating the device, is left to the caller.

pub mod device;
pub mod extensions;
pub mod plan;
pub mod provision;
pub mod queues;
pub mod select;
pub mod vulkan;

pub use device::{probe, score, CandidateDevice, CapabilityReport};
pub use extensions::{is_supported, missing_extensions, required_device_extensions};
pub use plan::{build_plan, request_family, QueueRequest};
pub use provision::{
    find_request, provision, request_device, DeviceCreationError, DeviceRequest,
    ProvisionedDevice, Role, RoleQueue,
};
pub use queues::{QueueFamilies, QueueFamilyInfo};
pub use select::{select, NoSuitableDeviceError};
