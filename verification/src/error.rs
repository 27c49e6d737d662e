//! The failures that the backend reports, and how the codes of failed native
//! calls map to them.

use crate::native::{raw_code, result_code};
use ash::vk;
use vstd::prelude::*;

verus! {

/// `VK_ERROR_OUT_OF_HOST_MEMORY`.
pub const ERROR_OUT_OF_HOST_MEMORY: i32 = -1;

/// `VK_ERROR_OUT_OF_DEVICE_MEMORY`.
pub const ERROR_OUT_OF_DEVICE_MEMORY: i32 = -2;

/// `VK_ERROR_DEVICE_LOST`.
pub const ERROR_DEVICE_LOST: i32 = -4;

/// `VK_ERROR_SURFACE_LOST_KHR`.
pub const ERROR_SURFACE_LOST_KHR: i32 = -1_000_000_000;

/// `VK_ERROR_OUT_OF_DATE_KHR`.
pub const ERROR_OUT_OF_DATE_KHR: i32 = -1_000_001_004;

/// A failure of the device.
#[derive(Clone, Copy, Debug, PartialEq, Eq, Structural)]
pub enum DeviceError {
    /// An allocation failed; the device remains usable otherwise.
    OutOfMemory,
    /// The device is unusable and has to be created anew.
    Lost,
}

/// A failure of a surface.
#[derive(Clone, Copy, Debug, PartialEq, Eq, Structural)]
pub enum SurfaceError {
    /// The surface is unusable for good.
    Lost,
    /// The surface has to be configured anew.
    Outdated,
    /// The device failed.
    Device(DeviceError),
}

/// Whether a code is one of those that have a device error of their own.
pub open spec fn classified(code: i32) -> bool {
    code == ERROR_OUT_OF_HOST_MEMORY || code == ERROR_OUT_OF_DEVICE_MEMORY || code
        == ERROR_DEVICE_LOST
}

/// The device error for the code of a failed native call: a failed
/// allocation on host or device is `OutOfMemory`, every other code `Lost`.
pub open spec fn device_error_of(code: i32) -> DeviceError {
    if code == ERROR_OUT_OF_HOST_MEMORY || code == ERROR_OUT_OF_DEVICE_MEMORY {
        DeviceError::OutOfMemory
    } else {
        DeviceError::Lost
    }
}

/// The surface error for the code of a failed present call.
pub open spec fn surface_error_of(code: i32) -> SurfaceError {
    if code == ERROR_OUT_OF_DATE_KHR {
        SurfaceError::Outdated
    } else if code == ERROR_SURFACE_LOST_KHR {
        SurfaceError::Lost
    } else {
        SurfaceError::Device(device_error_of(code))
    }
}

impl DeviceError {
    /// Classifies the code of a failed native call.
    pub fn from_code(code: i32) -> (error: DeviceError)
        ensures
            error == device_error_of(code),
    {
        if code == ERROR_OUT_OF_HOST_MEMORY || code == ERROR_OUT_OF_DEVICE_MEMORY {
            DeviceError::OutOfMemory
        } else if code == ERROR_DEVICE_LOST {
            DeviceError::Lost
        } else {
            DeviceError::Lost
        }
    }

    /// Whether the code has a device error of its own. A code that has none
    /// counts as `Lost`, and is worth a line in the log.
    pub fn recognizes(code: i32) -> (known: bool)
        ensures
            known == classified(code),
    {
        code == ERROR_OUT_OF_HOST_MEMORY || code == ERROR_OUT_OF_DEVICE_MEMORY || code
            == ERROR_DEVICE_LOST
    }
}

impl From<vk::Result> for DeviceError {
    fn from(result: vk::Result) -> (error: DeviceError) {
        DeviceError::from_code(raw_code(result))
    }
}

impl vstd::std_specs::convert::FromSpecImpl<vk::Result> for DeviceError {
    open spec fn obeys_from_spec() -> bool {
        true
    }

    open spec fn from_spec(result: vk::Result) -> DeviceError {
        device_error_of(result_code(result))
    }
}

impl From<DeviceError> for SurfaceError {
    fn from(error: DeviceError) -> (surface: SurfaceError) {
        SurfaceError::Device(error)
    }
}

impl vstd::std_specs::convert::FromSpecImpl<DeviceError> for SurfaceError {
    open spec fn obeys_from_spec() -> bool {
        true
    }

    open spec fn from_spec(error: DeviceError) -> SurfaceError {
        SurfaceError::Device(error)
    }
}

impl SurfaceError {
    /// Classifies the code of a failed present call: a surface that is out
    /// of date is `Outdated`, one that is lost is `Lost`, and every other
    /// code is the device error that it stands for.
    pub fn from_code(code: i32) -> (error: SurfaceError)
        ensures
            error == surface_error_of(code),
    {
        if code == ERROR_OUT_OF_DATE_KHR {
            SurfaceError::Outdated
        } else if code == ERROR_SURFACE_LOST_KHR {
            SurfaceError::Lost
        } else {
            SurfaceError::from(DeviceError::from_code(code))
        }
    }

    /// Classifies the result of a failed present call.
    pub fn from_present(result: vk::Result) -> (error: SurfaceError)
        ensures
            error == surface_error_of(result_code(result)),
    {
        SurfaceError::from_code(raw_code(result))
    }
}

} // verus!
