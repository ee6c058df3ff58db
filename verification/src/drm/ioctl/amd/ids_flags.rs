use vstd::prelude::*;

verus! {

pub type IdsFlags = u64;

/// The device is an APU: its GPU shares the CPU's memory.
pub const FUSION: IdsFlags = 0x1;

/// Mid command buffer preemption is enabled.
pub const PREEMPTION: IdsFlags = 0x2;

/// Trusted memory zone is enabled.
pub const TMZ: IdsFlags = 0x4;

/// The device truncates texture coordinates conformantly.
pub const CONFORMANT_TRUNC_COORD: IdsFlags = 0x8;

/// Gang submission is allowed.
pub const GAMG_SUBMIT: IdsFlags = 0x10;

/// The bits of the virtualization mode.
pub const MODE_MASK: IdsFlags = 0x300;

pub const MODE_SHIFT: IdsFlags = 8;

} // verus!
