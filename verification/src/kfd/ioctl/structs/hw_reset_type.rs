use vstd::prelude::*;

verus! {

pub type ResetType = u32;
pub const WHOLE_GPU_RESET: ResetType = 0;
pub const PER_ENGINE_RESET: ResetType = 1;

} // verus!
