use vstd::prelude::*;

verus! {

pub const LAST_SUBMITTED: u32 = 1 << 0;

} // verus!
