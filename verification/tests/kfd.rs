use amdgpu_linux::errno;
use amdgpu_linux::kfd::apertures::{
    apertures_error, apertures_error_limited, apertures_request_len, AperturesError,
    AperturesErrorLimited,
};
use amdgpu_linux::kfd::gpu_id::{AsGpuId, ManualGpuId};
use amdgpu_linux::kfd::ioctl::structs::kfd_smi_event::{msk, THERMAL_THROTTLE, VMFAULT};
use amdgpu_linux::kfd::mmap::{gpu_id, mmio_remap_offset};
use amdgpu_linux::kfd::{
    acquire_vm_failure, available_memory_error, version_below_requested, AcquireVmFailure,
    AvailableMemoryError,
};

#[test]
fn versions_compare_major_first() {
    assert!(version_below_requested(1, 13, 1, 14));
    assert!(version_below_requested(0, 99, 1, 0));
    assert!(!version_below_requested(1, 14, 1, 14));
    assert!(!version_below_requested(2, 0, 1, 14));
    assert!(!version_below_requested(1, 15, 1, 14));
}

#[test]
fn kfd_errors_by_number() {
    assert_eq!(available_memory_error(errno::EINVAL), AvailableMemoryError::GpuNotFound);
    assert_eq!(available_memory_error(errno::EFAULT), AvailableMemoryError::Unexpected(14));
    assert_eq!(acquire_vm_failure(errno::EINVAL), AcquireVmFailure::GpuNotFound);
    assert_eq!(
        acquire_vm_failure(errno::EBUSY),
        AcquireVmFailure::MemoryAlreadyAcquiredWithDifferentDrmFile
    );
    assert_eq!(acquire_vm_failure(errno::ENOMEM), AcquireVmFailure::Unexpected(12));
    assert_eq!(apertures_error(errno::ENOMEM), AperturesError::NoMem);
    assert_eq!(apertures_error(errno::EFAULT), AperturesError::CopyingBackToUser);
    assert_eq!(apertures_error(errno::EINVAL), AperturesError::Unexpected(22));
    assert_eq!(apertures_error_limited(errno::ENOMEM), AperturesErrorLimited::NoMem);
    assert_eq!(apertures_error_limited(errno::EFAULT), AperturesErrorLimited::CopyingBackToUser);
}

#[test]
fn aperture_buffers_must_fit_the_request() {
    assert_eq!(apertures_request_len(8), Ok(8));
    assert_eq!(apertures_request_len(u32::MAX as usize), Ok(u32::MAX));
    assert_eq!(
        apertures_request_len(u32::MAX as usize + 1),
        Err(AperturesErrorLimited::BufferTooLarge)
    );
}

#[test]
fn mmap_offsets_hold_the_gpu_id() {
    assert_eq!(gpu_id(0x1234), 0x1234 << 46);
    assert_eq!(gpu_id(0x1_2345), 0x2345 << 46);
    assert_eq!(mmio_remap_offset(0xffff), 0xffff << 46);
    assert_eq!(mmio_remap_offset(0), 0);
}

#[test]
fn event_masks() {
    assert_eq!(msk(VMFAULT), 1);
    assert_eq!(msk(THERMAL_THROTTLE), 2);
    assert_eq!(msk(64), 1 << 63);
}

#[test]
fn manual_gpu_ids_are_given_back() {
    assert_eq!(ManualGpuId::from(0xbeef).gpu_id(), 0xbeef);
}
