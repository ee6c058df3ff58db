use std::marker::PhantomData;
use vstd::prelude::*;

use crate::drm::ioctl::amd::ids_flags;
use crate::drm::ioctl::amd::{InfoDevice, InfoMemory};
use crate::errno;

verus! {

/// AMD's linux driver, from the point of view of its DRM part.
///
/// It implements the DRM driver features ATOMIC, GEM, RENDER, MODESET,
/// SYNCOBJ and SYNCOBJ_TIMELINE, and has FOP_UNSIGNED_OFFSET.
#[derive(Default)]
pub struct Amdgpu {}

/// An actual device handled by the amdgpu driver, from the driver's point of view
pub struct Gpu<ReBAR, Apu, Mcbp, Tmz, CoordTruncMode, Virtualization, GangSubmission> {
    _has_large_bar: PhantomData<ReBAR>,
    _is_apu: PhantomData<Apu>,
    _mcbp_on: PhantomData<Mcbp>,
    _tmz_on: PhantomData<Tmz>,
    _coord_trunc_mode: PhantomData<CoordTruncMode>,
    _virt_mode: PhantomData<Virtualization>,
    _allow_gang_submission: PhantomData<GangSubmission>,
}

#[derive(Debug, Clone, Copy, PartialEq, Eq, Structural)]
pub enum VirtualizationMode {
    SriovPhysicalFunction,
    SriovVirtualFunction,
    PciPassthrough,
    Unknown(u64),
}

pub struct LargeBar;

pub struct Apu;

pub struct Mcbp;

pub struct Tmz;

pub struct ConformantTruncCoord;

pub struct GangSubmit;

pub struct SriovPhysicalFunction;

pub struct SriovVirtualFunction;

pub struct PciPassthrough;

/// The CPU can reach the whole VRAM (resizable BAR).
pub fn has_large_bar(info: &InfoMemory) -> (r: bool)
    ensures
        r == (info.cpu_accessible_vram.total_heap_size == info.vram.total_heap_size),
{
    info.cpu_accessible_vram.total_heap_size == info.vram.total_heap_size
}

pub fn is_apu(info: &InfoDevice) -> (r: bool)
    ensures
        r == (info.ids_flags & ids_flags::FUSION != 0),
{
    info.ids_flags & ids_flags::FUSION != 0
}

pub fn has_mcbp(info: &InfoDevice) -> (r: bool)
    ensures
        r == (info.ids_flags & ids_flags::PREEMPTION != 0),
{
    info.ids_flags & ids_flags::PREEMPTION != 0
}

pub fn has_tmz(info: &InfoDevice) -> (r: bool)
    ensures
        r == (info.ids_flags & ids_flags::TMZ != 0),
{
    info.ids_flags & ids_flags::TMZ != 0
}

pub fn has_conformant_truncation_mode(info: &InfoDevice) -> (r: bool)
    ensures
        r == (info.ids_flags & ids_flags::CONFORMANT_TRUNC_COORD != 0),
{
    info.ids_flags & ids_flags::CONFORMANT_TRUNC_COORD != 0
}

pub fn has_gang_submit(info: &InfoDevice) -> (r: bool)
    ensures
        r == (info.ids_flags & ids_flags::GAMG_SUBMIT != 0),
{
    info.ids_flags & ids_flags::GAMG_SUBMIT != 0
}

/// The device has every flag of `flags`.
pub fn has_all_ids_flag(info: &InfoDevice, flags: ids_flags::IdsFlags) -> (r: bool)
    ensures
        r == (info.ids_flags & flags == flags),
{
    info.ids_flags & flags == flags
}

/// The virtualization mode that the flags announce.
pub open spec fn spec_virtualization_mode(flags: ids_flags::IdsFlags) -> VirtualizationMode {
    let mode = (flags & ids_flags::MODE_MASK) >> ids_flags::MODE_SHIFT;
    if mode == 0 {
        VirtualizationMode::SriovPhysicalFunction
    } else if mode == 1 {
        VirtualizationMode::SriovVirtualFunction
    } else if mode == 2 {
        VirtualizationMode::PciPassthrough
    } else {
        VirtualizationMode::Unknown(mode)
    }
}

pub fn virtualization_mode(info: &InfoDevice) -> (r: VirtualizationMode)
    ensures
        r == spec_virtualization_mode(info.ids_flags),
        r matches VirtualizationMode::Unknown(m) ==> m == 3,
{
    let mode = (info.ids_flags & ids_flags::MODE_MASK) >> ids_flags::MODE_SHIFT;
    proof {
        let f = info.ids_flags;
        assert((f & 0x300u64) >> 8u64 <= 3) by (bit_vector);
    }
    match mode {
        0 => VirtualizationMode::SriovPhysicalFunction,
        1 => VirtualizationMode::SriovVirtualFunction,
        2 => VirtualizationMode::PciPassthrough,
        mode => VirtualizationMode::Unknown(mode),
    }
}

/// Why opening a primary node failed.
#[derive(Debug, PartialEq, Eq, Structural)]
pub enum OpenError {
    /// The device is being removed
    DeviceRemoved,
    /// Probably the device is powered off
    DevicePoweredOff,
    /// Out of memory, in DRM or in the amdgpu part
    OutOfMemory,
    /// Amdgpu specific: a RAS interrupt fired and the device was disabled
    DeviceDisabledDueToRAS,
    /// Amdgpu specific: the GPU is partitioned and this partition is not valid
    InvalidPartition,
    /// An error that is not specific to DRM or the driver, with its number
    Other(i32),
}

/// The error that opening a primary node reports for an error number.
pub fn open_error(errno: i32) -> (r: OpenError)
    ensures
        r == (if errno == errno::ENODEV {
            OpenError::DeviceRemoved
        } else if errno == errno::EINVAL {
            OpenError::DevicePoweredOff
        } else if errno == errno::ENOMEM {
            OpenError::OutOfMemory
        } else if errno == errno::EHWPOISON {
            OpenError::DeviceDisabledDueToRAS
        } else if errno == errno::ENOENT {
            OpenError::InvalidPartition
        } else {
            OpenError::Other(errno)
        }),
{
    if errno == errno::ENODEV {
        OpenError::DeviceRemoved
    } else if errno == errno::EINVAL {
        OpenError::DevicePoweredOff
    } else if errno == errno::ENOMEM {
        OpenError::OutOfMemory
    } else if errno == errno::EHWPOISON {
        OpenError::DeviceDisabledDueToRAS
    } else if errno == errno::ENOENT {
        OpenError::InvalidPartition
    } else {
        OpenError::Other(errno)
    }
}

} // verus!
