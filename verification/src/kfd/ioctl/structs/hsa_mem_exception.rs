use vstd::prelude::*;

verus! {

pub type FailureType = u32;
pub const NO_RAS: FailureType = 0;
pub const ECC_SRAM: FailureType = 1;
pub const POISON_CONSUMED: FailureType = 2;
pub const GPU_HANG: FailureType = 3;

} // verus!
