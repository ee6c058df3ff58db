use vstd::prelude::*;

verus! {

pub type ResetCause = u32;
pub const GPU_HANG: ResetCause = 0;
pub const ECC: ResetCause = 1;

} // verus!
