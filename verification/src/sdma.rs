//! The SDMA packets of the GPU generations, as they sit in a ring buffer or
//! an indirect buffer: one header dword (operation, sub-operation, and for
//! some packets an extra discriminating bit), then the packet's fields.
pub mod layout;
pub mod v2_4;
pub mod v3_0;
pub mod v4_0;
pub mod v4_4;
pub mod v5_0;
pub mod v5_2;

use vstd::prelude::*;

verus! {

/// The bits of the header dword that hold the operation and the
/// sub-operation.
pub const HEADER_MASK: u32 = 0xffff;

} // verus!
