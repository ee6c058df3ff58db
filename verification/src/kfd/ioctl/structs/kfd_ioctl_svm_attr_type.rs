use vstd::prelude::*;

verus! {

pub type Type = u32;
pub const PREFERRED_LOC: Type = 0;
pub const PREFETCH_LOC: Type = 1;
pub const ACCESS: Type = 2;
pub const ACCESS_IN_PLACE: Type = 3;
pub const NO_ACCESS: Type = 4;
pub const SET_FLAGS: Type = 5;
pub const CLR_FLAGS: Type = 6;
pub const GRANULARITY: Type = 7;

} // verus!
