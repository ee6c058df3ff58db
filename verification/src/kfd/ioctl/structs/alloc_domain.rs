use vstd::prelude::*;
use super::super::AllocMemFlag;

verus! {

pub const VRAM: AllocMemFlag = 1 << 0;

pub const GTT: AllocMemFlag = 1 << 1;

pub const USERPTR: AllocMemFlag = 1 << 2;

pub const DOORBELL: AllocMemFlag = 1 << 3;

pub const MMIO_REMAP: AllocMemFlag = 1 << 4;

} // verus!
