use amdgpu_linux::drm::amdgpu::{
    has_all_ids_flag, has_conformant_truncation_mode, has_gang_submit, has_large_bar, has_mcbp,
    has_tmz, is_apu, open_error, virtualization_mode, OpenError, VirtualizationMode,
};
use amdgpu_linux::drm::auth::{
    auth_magic_rejected, drop_master_error, drop_master_outcome, regular_set_master_error, set_master_error,
    DropMasterOutcome, Leased,
};
use amdgpu_linux::drm::auth::errors::{DropMasterError, RegularSetMasterError, SetMasterError};
use amdgpu_linux::drm::gem::{
    gem_close_error, gem_flink_error, gem_open_error, GemCloseError, GemFlinkError, GemOpenError,
};
use amdgpu_linux::drm::ioctl::amd::{ids_flags, InfoDevice, InfoMemory};
use amdgpu_linux::drm::set_client_name::{ClientName, ClientNameError};
use amdgpu_linux::drm::sysfs::{device_link_path, linux_dev_major, linux_dev_minor, DrmDeviceIdentity};
use amdgpu_linux::drm::lease::{get_lease_error, GetLeaseError};
use amdgpu_linux::drm::{check_driver, DriverCheckError};
use amdgpu_linux::errno;

#[test]
fn device_flags_are_read_from_ids_flags() {
    let info = InfoDevice { ids_flags: ids_flags::FUSION | ids_flags::TMZ | ids_flags::GAMG_SUBMIT };
    assert!(is_apu(&info));
    assert!(!has_mcbp(&info));
    assert!(has_tmz(&info));
    assert!(!has_conformant_truncation_mode(&info));
    assert!(has_gang_submit(&info));
    assert!(has_all_ids_flag(&info, ids_flags::FUSION | ids_flags::TMZ));
    assert!(!has_all_ids_flag(&info, ids_flags::FUSION | ids_flags::PREEMPTION));
}

#[test]
fn virtualization_mode_is_bits_eight_and_nine() {
    let mode = |f| virtualization_mode(&InfoDevice { ids_flags: f });
    assert_eq!(mode(0), VirtualizationMode::SriovPhysicalFunction);
    assert_eq!(mode(0x100 | ids_flags::FUSION), VirtualizationMode::SriovVirtualFunction);
    assert_eq!(mode(0x200), VirtualizationMode::PciPassthrough);
    assert_eq!(mode(0x300), VirtualizationMode::Unknown(3));
    assert_eq!(mode(0x400), VirtualizationMode::SriovPhysicalFunction);
}

#[test]
fn large_bar_means_all_vram_visible() {
    let mut info = InfoMemory::default();
    info.vram.total_heap_size = 16 << 30;
    info.cpu_accessible_vram.total_heap_size = 256 << 20;
    assert!(!has_large_bar(&info));
    info.cpu_accessible_vram.total_heap_size = 16 << 30;
    assert!(has_large_bar(&info));
}

#[test]
fn open_errors_by_number() {
    assert_eq!(open_error(errno::ENODEV), OpenError::DeviceRemoved);
    assert_eq!(open_error(errno::EINVAL), OpenError::DevicePoweredOff);
    assert_eq!(open_error(errno::ENOMEM), OpenError::OutOfMemory);
    assert_eq!(open_error(errno::EHWPOISON), OpenError::DeviceDisabledDueToRAS);
    assert_eq!(open_error(errno::ENOENT), OpenError::InvalidPartition);
    assert_eq!(open_error(errno::EACCES), OpenError::Other(13));
}

#[test]
fn gem_errors_by_number() {
    assert_eq!(gem_flink_error(errno::EACCES), Some(GemFlinkError::ClientNotAuthenticated));
    assert_eq!(gem_flink_error(errno::EOPNOTSUPP), Some(GemFlinkError::DriverWithoutGem));
    assert_eq!(gem_flink_error(errno::EINVAL), Some(GemFlinkError::InvalidHandle));
    assert_eq!(gem_flink_error(errno::ENOSPC), Some(GemFlinkError::NoFreeName));
    assert_eq!(gem_flink_error(errno::EBUSY), None);
    assert_eq!(gem_close_error(errno::EOPNOTSUPP), Some(GemCloseError::DriverWithoutGem));
    assert_eq!(gem_close_error(errno::EINVAL), Some(GemCloseError::InvalidHandle));
    assert_eq!(gem_close_error(errno::ENOENT), None);
    assert_eq!(gem_open_error(errno::EACCES), Some(GemOpenError::ClientNotAuthenticated));
    assert_eq!(gem_open_error(errno::EOPNOTSUPP), Some(GemOpenError::DriverWithoutGem));
    assert_eq!(gem_open_error(errno::ENOENT), Some(GemOpenError::InvalidHandle));
    assert_eq!(gem_open_error(errno::ENOSPC), Some(GemOpenError::NoFreeHandle));
    assert_eq!(gem_open_error(errno::ENOMEM), None);
}

#[test]
fn master_errors_by_number() {
    assert_eq!(set_master_error(errno::EACCES), Some(SetMasterError::RequiresRootPermissions));
    assert_eq!(set_master_error(errno::EBUSY), Some(SetMasterError::OtherMasterAlreadySet));
    assert_eq!(set_master_error(errno::EINVAL), Some(SetMasterError::LeassedClientNotAllowed));
    assert_eq!(set_master_error(errno::ENOMEM), Some(SetMasterError::RunOutOfMemory));
    assert_eq!(set_master_error(errno::EPERM), None);
    assert_eq!(
        regular_set_master_error(SetMasterError::OtherMasterAlreadySet),
        Some(RegularSetMasterError::OtherMasterAlreadySet)
    );
    assert_eq!(
        regular_set_master_error(SetMasterError::RequiresRootPermissions),
        Some(RegularSetMasterError::RootPermissionsRequired)
    );
    assert_eq!(regular_set_master_error(SetMasterError::RunOutOfMemory), None);
    assert_eq!(drop_master_error(errno::EACCES), Some(DropMasterError::RootAccessRequired));
    assert_eq!(
        drop_master_error(errno::EINVAL),
        Some(DropMasterError::NotCurrentMasterOrThereIsNoMasterOrItIsALeassedClient)
    );
    assert_eq!(drop_master_error(errno::EBUSY), None);
    assert!(auth_magic_rejected(errno::EINVAL));
    assert!(!auth_magic_rejected(errno::EACCES));
}

#[test]
fn lease_keeps_its_objects() {
    let objects = [31u32, 42];
    let lease = Leased::new(&objects);
    assert_eq!(lease.permitted_objects(), &[31, 42]);
}

#[test]
fn client_names_are_visible_ascii_of_limited_length() {
    let name = ClientName::try_from("my-compositor").expect("valid name");
    assert_eq!(name.as_bytes(), b"my-compositor");
    assert_eq!(ClientName::new("ok").as_bytes(), b"ok");
    assert_eq!(ClientName::try_from("has space").err(), Some(ClientNameError::InvalidCharacterAt(3)));
    assert_eq!(ClientName::try_from("tab\there").err(), Some(ClientNameError::InvalidCharacterAt(3)));
    let long = "x".repeat(65);
    assert_eq!(ClientName::try_from(long.as_str()).err(), Some(ClientNameError::TooLong(65)));
    let longest = "x".repeat(64);
    assert!(ClientName::try_from(longest.as_str()).is_ok());
    assert!(ClientName::try_from("").is_ok());
}

#[test]
fn device_numbers_split_like_the_kernel() {
    assert_eq!(linux_dev_major(0xe280), 226);
    assert_eq!(linux_dev_minor(0xe280), 128);
    assert_eq!(linux_dev_major(0x1000_5672_3489), 0x1234);
    assert_eq!(linux_dev_minor(0x1000_5672_3489), 0x5_6789);
}

#[test]
fn identities_compare_by_sysfs_path() {
    let a = DrmDeviceIdentity::new(b"/sys/devices/pci0000:00/0000:03:00.0".to_vec());
    let b = DrmDeviceIdentity::new(b"/sys/devices/pci0000:00/0000:03:00.0".to_vec());
    let c = DrmDeviceIdentity::new(b"/sys/devices/pci0000:00/0000:04:00.0".to_vec());
    assert!(a.same_device(&b));
    assert!(!a.same_device(&c));
    assert_eq!(a.sysfs_device(), b"/sys/devices/pci0000:00/0000:03:00.0");
}

#[test]
fn driver_check_wants_amdgpu_and_a_recent_enough_version() {
    assert_eq!(check_driver(3, 57, 3, 40, b"amdgpu"), Ok(()));
    assert_eq!(check_driver(2, 10, 3, 40, b"amdgpu"), Err(DriverCheckError::DriverVersionTooOld));
    // Only both numbers below the required ones count as too old.
    assert_eq!(check_driver(2, 50, 3, 40, b"amdgpu"), Ok(()));
    assert_eq!(check_driver(3, 57, 3, 40, b"i915"), Err(DriverCheckError::DifferentDriverFromAmdgpu));
    assert_eq!(check_driver(3, 57, 3, 40, b"amdgpu2"), Err(DriverCheckError::DifferentDriverFromAmdgpu));
    assert_eq!(check_driver(2, 10, 3, 40, &[0xff, 0xfe]), Err(DriverCheckError::DriverVersionTooOld));
}

#[test]
fn lease_errors_by_number() {
    assert_eq!(get_lease_error(errno::EACCES), Some(GetLeaseError::LostMasterStatus));
    assert_eq!(get_lease_error(errno::EOPNOTSUPP), Some(GetLeaseError::DriverDoesntSupport));
    assert_eq!(get_lease_error(errno::EINVAL), None);
}

#[test]
fn device_link_is_major_colon_minor_below_sys_dev_char() {
    assert_eq!(device_link_path(b"/sys/dev/char", 0xe280), b"/sys/dev/char/226:128/device".to_vec());
    assert_eq!(device_link_path(b"/tmp/chars/", 0xe200), b"/tmp/chars/226:0/device".to_vec());
    assert_eq!(device_link_path(b"", 0x1000_5672_3489), b"4660:354185/device".to_vec());
}

#[test]
fn errno_numbers_are_the_targets() {
    assert_eq!(errno::EPERM, libc::EPERM);
    assert_eq!(errno::ENOENT, libc::ENOENT);
    assert_eq!(errno::ENOMEM, libc::ENOMEM);
    assert_eq!(errno::EACCES, libc::EACCES);
    assert_eq!(errno::EFAULT, libc::EFAULT);
    assert_eq!(errno::EBUSY, libc::EBUSY);
    assert_eq!(errno::ENODEV, libc::ENODEV);
    assert_eq!(errno::EINVAL, libc::EINVAL);
    assert_eq!(errno::ENOSPC, libc::ENOSPC);
    assert_eq!(errno::EOPNOTSUPP, libc::EOPNOTSUPP);
    assert_eq!(errno::EHWPOISON, libc::EHWPOISON);
}

#[test]
fn dropping_master_leaves_the_client_was_master_unless_root_is_needed() {
    assert_eq!(drop_master_outcome(Ok(())), DropMasterOutcome::WasMaster);
    assert_eq!(drop_master_outcome(Err(errno::EINVAL)), DropMasterOutcome::WasMaster);
    assert_eq!(drop_master_outcome(Err(errno::EACCES)), DropMasterOutcome::RootAccessRequired);
    assert_eq!(drop_master_outcome(Err(errno::ENOMEM)), DropMasterOutcome::Unexpected(errno::ENOMEM));
}
