//! Reads the C header that describes the SDMA packets of a GPU generation
//! (`#define` triples of dword offset, mask and shift per field) and writes
//! the packet descriptions in the notation of the `sdma` modules.
//!
//! The header is read as UTF-8 text, as `str` reads it: white space is
//! Unicode's, and the case of letters is tested and changed by `char`'s and
//! `str`'s Unicode functions.

pub mod names;
pub mod fields;
pub mod packets;
pub mod emit;
