use vstd::prelude::*;

verus! {

pub const IMPORT_SYNC_FILE: u32 = 1 << 0;
pub const EXPORT_SYNC_FILE: u32 = 1 << 0;
pub const TIMELINE: u32 = 1 << 1;

} // verus!
