use vstd::prelude::*;

verus! {

pub type CrtcSequenceFlags = u32;
pub const RELATIVE: CrtcSequenceFlags = 0x0000_0001;
pub const NEXT_ON_MISS: CrtcSequenceFlags = 0x0000_0002;

} // verus!
