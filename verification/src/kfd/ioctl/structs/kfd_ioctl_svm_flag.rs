use vstd::prelude::*;

verus! {

pub type Type = u32;
pub const HOST_ACCESS: Type = 0x00000001;
pub const FLAG_COHERENT: Type = 0x00000002;
pub const HIVE_LOCAL: Type = 0x00000004;
pub const GPU_RO: Type = 0x00000008;
pub const GPU_EXEC: Type = 0x00000010;
pub const GPU_READ_MOSTLY: Type = 0x00000020;
pub const GPU_ALWAYS_MAPPED: Type = 0x00000040;
pub const EXT_COHERENT: Type = 0x00000080;

} // verus!
