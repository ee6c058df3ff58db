use vstd::prelude::*;

verus! {

pub type CachePolicy = u32;
pub const COHERENT: CachePolicy = 0;
pub const NON_COHERENT: CachePolicy = 1;

} // verus!
