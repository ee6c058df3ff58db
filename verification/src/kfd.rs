pub mod apertures;
pub mod gpu_id;
pub mod ioctl;
pub mod mmap;
pub mod queue;

use vstd::prelude::*;

use crate::errno;
use ioctl::Errno;

verus! {

pub const KFD_FILE_PATH: &'static str = "/dev/kfd";

/// Lexicographic order of versions: `found` comes before `required`.
pub open spec fn version_before(found_major: u32, found_minor: u32, required_major: u32, required_minor: u32) -> bool {
    found_major < required_major || (found_major == required_major && found_minor < required_minor)
}

/// Whether a driver of version `found_major.found_minor` is older than the
/// version `required_major.required_minor` that a versioned handle asks for.
pub fn version_below_requested(found_major: u32, found_minor: u32, required_major: u32, required_minor: u32) -> (r: bool)
    ensures
        r == version_before(found_major, found_minor, required_major, required_minor),
{
    found_major < required_major || (found_major == required_major && found_minor < required_minor)
}

#[derive(Debug, PartialEq, Eq, Structural)]
pub enum AvailableMemoryError {
    GpuNotFound,
    Unexpected(Errno),
}

/// The error of AMDKFD_IOC_AVAILABLE_MEMORY for an error number.
pub fn available_memory_error(e: Errno) -> (r: AvailableMemoryError)
    ensures
        r == (if e == errno::EINVAL {
            AvailableMemoryError::GpuNotFound
        } else {
            AvailableMemoryError::Unexpected(e)
        }),
{
    if e == errno::EINVAL {
        AvailableMemoryError::GpuNotFound
    } else {
        AvailableMemoryError::Unexpected(e)
    }
}

/// Why AMDKFD_IOC_ACQUIRE_VM did not acquire the VM.
#[derive(Debug, PartialEq, Eq, Structural)]
pub enum AcquireVmFailure {
    /// You should probably check if gpu has been removed
    GpuNotFound,
    /// The kfd object already acquired a VM from a different drm_file
    MemoryAlreadyAcquiredWithDifferentDrmFile,
    Unexpected(Errno),
}

/// The failure of AMDKFD_IOC_ACQUIRE_VM for an error number. `EINVAL` cannot
/// come from the DRM file, which is known to be valid, so it means the GPU.
pub fn acquire_vm_failure(e: Errno) -> (r: AcquireVmFailure)
    ensures
        r == (if e == errno::EINVAL {
            AcquireVmFailure::GpuNotFound
        } else if e == errno::EBUSY {
            AcquireVmFailure::MemoryAlreadyAcquiredWithDifferentDrmFile
        } else {
            AcquireVmFailure::Unexpected(e)
        }),
{
    if e == errno::EINVAL {
        AcquireVmFailure::GpuNotFound
    } else if e == errno::EBUSY {
        AcquireVmFailure::MemoryAlreadyAcquiredWithDifferentDrmFile
    } else {
        AcquireVmFailure::Unexpected(e)
    }
}

} // verus!
