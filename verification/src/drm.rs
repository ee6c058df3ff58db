pub mod amdgpu;
pub mod auth;
pub mod driver_capabilities;
pub mod gem;
pub mod ioctl;
pub mod lease;
pub mod set_client_name;
pub mod sysfs;

pub use set_client_name::{ClientName, ClientNameError};

use vstd::prelude::*;
use vstd::string::StringSliceAdditionalSpecFns;

use crate::text::bytes_eq;

verus! {

pub type GemHandle = u32;

pub type SyncobjHandle = u32;

pub type FlinkName = u32;

/// A DRM device.
pub struct DrmDevice {}

/// Why a DRM file that opened is not one this library drives.
#[derive(Debug, PartialEq, Eq, Structural)]
pub enum DriverCheckError {
    DriverVersionTooOld,
    DifferentDriverFromAmdgpu,
}

/// The verdict on a DRM file from what DRM_IOCTL_VERSION reported: too old
/// when both its major and its minor number are below the required ones,
/// else of another driver unless the driver's name (the bytes that the
/// ioctl wrote) is `amdgpu`.
pub fn check_driver(
    found_major: i32,
    found_minor: i32,
    required_major: i32,
    required_minor: i32,
    driver_name: &[u8],
) -> (r: Result<(), DriverCheckError>)
    ensures
        r == (if found_major < required_major && found_minor < required_minor {
            Err::<(), DriverCheckError>(DriverCheckError::DriverVersionTooOld)
        } else if driver_name@ != "amdgpu".spec_bytes() {
            Err(DriverCheckError::DifferentDriverFromAmdgpu)
        } else {
            Ok(())
        }),
{
    if found_major < required_major && found_minor < required_minor {
        return Err(DriverCheckError::DriverVersionTooOld);
    }
    if !bytes_eq(driver_name, "amdgpu".as_bytes()) {
        return Err(DriverCheckError::DifferentDriverFromAmdgpu);
    }
    Ok(())
}

} // verus!
