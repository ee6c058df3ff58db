use vstd::prelude::*;

verus! {

pub type WaitResult = u32;
pub const COMPLETE: WaitResult = 0;
pub const TIMEOUT: WaitResult = 1;
pub const FAIL: WaitResult = 2;

} // verus!
