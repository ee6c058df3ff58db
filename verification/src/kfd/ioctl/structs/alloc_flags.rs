use vstd::prelude::*;
use super::super::AllocMemFlag;

verus! {

pub const WRITABLE: AllocMemFlag = 1 << 31;

pub const EXECUTABLE: AllocMemFlag = 1 << 30;

pub const PUBLIC: AllocMemFlag = 1 << 29;

pub const NO_SUBSTITUTE: AllocMemFlag = 1 << 28;

pub const AQL_QUEUE_MEM: AllocMemFlag = 1 << 27;

pub const COHERENT: AllocMemFlag = 1 << 26;

pub const UNCACHED: AllocMemFlag = 1 << 25;

pub const EXT_COHERENT: AllocMemFlag = 1 << 24;

pub const CONTIGUOUS: AllocMemFlag = 1 << 23;

} // verus!
