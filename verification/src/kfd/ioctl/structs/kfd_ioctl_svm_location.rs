use vstd::prelude::*;

verus! {

pub type Type = u32;
pub const SYSMEM: Type = 0;
pub const UNDEFINED: Type = 0xffffffff;

} // verus!
