use vstd::prelude::*;

verus! {

pub type Type = u64;
pub const CPU: Type = 1 << 0;
pub const GTT: Type = 1 << 1;
pub const VRAM: Type = 1 << 2;
pub const GDS: Type = 1 << 3;
pub const GWS: Type = 1 << 4;
pub const OA: Type = 1 << 5;
pub const DOORBELL: Type = 1 << 6;
pub const MMIO_REMAP: Type = 1 << 7;

} // verus!
