use vstd::prelude::*;

verus! {

pub type VblankSeqType = u32;

pub const ABSOLUTE: VblankSeqType = 0x0;
pub const RELATIVE: VblankSeqType = 0x1;
pub const HIGH_CRTC_MASK: VblankSeqType = 0x0000_003e;
pub const EVENT: VblankSeqType = 0x0400_0000;
pub const FLIP: VblankSeqType = 0x0800_0000;
pub const NEXTONMISS: VblankSeqType = 0x1000_0000;
pub const SECONDARY: VblankSeqType = 0x2000_0000;
pub const SIGNAL: VblankSeqType = 0x4000_0000;

pub const HIGH_CRTC_SHIFT: VblankSeqType = 1;
pub const TYPES_MASK: VblankSeqType = ABSOLUTE | RELATIVE;
pub const FLAGS_MASK: VblankSeqType = EVENT | SIGNAL | SECONDARY | NEXTONMISS;

} // verus!
