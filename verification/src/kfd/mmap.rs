use vstd::prelude::*;

use super::ioctl::GpuId;

verus! {

pub type Offset = i64;

pub const MMAP_TYPE_SHIFT: Offset = 62;

pub const MMAP_GPUID_SHIFT: Offset = 46;

pub const MMAP_GPUID_MASK: GpuId = 0xffff;

/// `3 << MMAP_TYPE_SHIFT`
pub const DOORBELL: Offset = -0x4000_0000_0000_0000;

/// `2 << MMAP_TYPE_SHIFT`
pub const EVENTS: Offset = -0x8000_0000_0000_0000;

/// `0 << MMAP_TYPE_SHIFT`
pub const MMIO_REMAP: Offset = 0;

/// The part of an mmap offset that names a GPU: the low 16 bits of its id,
/// from bit 46 on.
pub fn gpu_id(x: GpuId) -> (r: Offset)
    ensures
        r == (x & MMAP_GPUID_MASK) as int * 0x4000_0000_0000,
{
    let id = x & MMAP_GPUID_MASK;
    proof {
        assert(x & 0xffffu32 <= 0xffff) by (bit_vector);
    }
    let r = (id as Offset) << (MMAP_GPUID_SHIFT as u32);
    proof {
        let v = id as i64;
        assert(0 <= v <= 0xffff ==> v << 46u32 == v * 0x4000_0000_0000) by (bit_vector);
    }
    r
}

/// The mmap offset of the MMIO remap page of a GPU.
pub fn mmio_remap_offset(x: GpuId) -> (r: Offset)
    ensures
        r == (x & MMAP_GPUID_MASK) as int * 0x4000_0000_0000,
{
    let g = gpu_id(x);
    proof {
        assert(0i64 | g == g) by (bit_vector);
    }
    MMIO_REMAP | g
}

} // verus!
