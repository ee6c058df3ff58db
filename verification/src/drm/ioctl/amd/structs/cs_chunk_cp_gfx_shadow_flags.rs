use vstd::prelude::*;

verus! {

pub type Type = u64;
pub const INIT_SHADOW: Type = 0x1;

} // verus!
