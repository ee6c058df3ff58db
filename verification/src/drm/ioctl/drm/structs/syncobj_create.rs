use vstd::prelude::*;

verus! {

pub const SIGNALED: u32 = 1 << 0;

} // verus!
