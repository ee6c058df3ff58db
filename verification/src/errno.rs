//! Linux error numbers that the kernel interfaces of this crate report.
//!
//! These are the numbers of Linux's generic table, which x86, arm and
//! riscv use; alpha, mips, parisc and sparc number some of these errors
//! otherwise.
use vstd::prelude::*;

verus! {

/// Operation not permitted.
pub const EPERM: i32 = 1;

/// No such file or directory.
pub const ENOENT: i32 = 2;

/// Out of memory.
pub const ENOMEM: i32 = 12;

/// Permission denied.
pub const EACCES: i32 = 13;

/// Bad address.
pub const EFAULT: i32 = 14;

/// Device or resource busy.
pub const EBUSY: i32 = 16;

/// No such device.
pub const ENODEV: i32 = 19;

/// Invalid argument.
pub const EINVAL: i32 = 22;

/// No space left on device.
pub const ENOSPC: i32 = 28;

/// Operation not supported.
pub const EOPNOTSUPP: i32 = 95;

/// Memory page has hardware error.
pub const EHWPOISON: i32 = 133;

} // verus!
