use vstd::prelude::*;

verus! {

pub type Type = u32;
/// This IB should be submitted to Constant Engine
/// otherwise to drawing engine
pub const CE: Type = 1 << 0;
/// Preamble flag, IB could be dropped if no context switch
pub const PREAMBLE: Type = 1 << 1;
/// IB should set Pre_enb bit if PREEMPT flag detected
///
/// For ID_GFX only one IB can have this flag
pub const PREEMPT: Type = 1 << 2;
/// IB fence should do L2 writeback but not invalidate any shader caches
pub const TC_WB_NOT_INVALIDATE: Type = 1 << 3;
/// Set GDS_COMPUTE_MAX_WAVE_ID = DEFAULT before PACKET3_INDIRECT_BUFFER,
/// resetting wave ID counters for the IB
pub const RESET_GDS_MAX_WAVE_ID: Type = 1 << 4;
/// Flag the IB as secure (TMZ)
pub const SECURE: Type = 1 << 5;
/// Tell KMD to flush and invalidate caches
pub const EMIT_MEM_SYNC: Type = 1 << 6;

} // verus!
