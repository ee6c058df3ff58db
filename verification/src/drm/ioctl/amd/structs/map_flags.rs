use vstd::prelude::*;

verus! {

pub type VaFlags = u32;
/// Delay the page table update till the next CS
pub const DELAY_UPDATE: VaFlags = 1 << 0;

/// Readable mapping
pub const PAGE_READABLE: VaFlags = 1 << 1;
/// Writable mapping
pub const PAGE_WRITEABLE: VaFlags = 1 << 2;
/// Executable mapping, new for VI
pub const PAGE_EXECUTABLE: VaFlags = 1 << 3;
/// Partially resident texture
pub const PAGE_PRT: VaFlags = 1 << 4;
/// MTYPE flags mask (bits 5 to 8)
pub const MTYPE_MASK: VaFlags = 0xf << 5;
/// Default MTYPE. Pre-AI must use this. Recommended for newer ASICs.
pub const MTYPE_DEFAULT: VaFlags = 0 << 5;
/// Use Non Coherent MTYPE instead of default MTYPE
pub const MTYPE_NC: VaFlags = 1 << 5;
/// Use Write Combine MTYPE instead of default MTYPE
pub const MTYPE_WC: VaFlags = 2 << 5;
/// Use Cache Coherent MTYPE instead of default MTYPE
pub const MTYPE_CC: VaFlags = 3 << 5;
/// Use UnCached MTYPE instead of default MTYPE
pub const MTYPE_UC: VaFlags = 4 << 5;
/// Use Read Write MTYPE instead of default MTYPE
pub const MTYPE_RW: VaFlags = 5 << 5;
/// Don't allocate MALL
pub const PAGE_NOALLOC: VaFlags = 1 << 9;

} // verus!
