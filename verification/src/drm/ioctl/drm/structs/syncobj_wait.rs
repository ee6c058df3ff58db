use vstd::prelude::*;

verus! {

pub const WAIT_ALL: u32 = 1 << 0;
pub const WAIT_FOR_SUBMIT: u32 = 1 << 1;
pub const WAIT_AVAILABLE: u32 = 1 << 2;
pub const WAIT_DEADLINE: u32 = 1 << 3;

} // verus!
