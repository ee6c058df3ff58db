//! Arguments of the DRM ioctls, common and amdgpu specific.
/// Amdgpu specific
pub mod amd;

/// Common for all vendors
pub mod drm;

use vstd::prelude::*;

verus! {

/// The ioctl type of DRM ioctls, `'d'`.
pub const DRM_IOCTL_BASE: u32 = 0x64;

/// The first number of driver-specific DRM ioctls.
pub const DRM_COMMAND_BASE: u32 = 0x40;

} // verus!
