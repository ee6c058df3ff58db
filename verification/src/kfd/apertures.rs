use vstd::prelude::*;

use super::ioctl::Errno;
use crate::errno;

verus! {

#[derive(Debug, PartialEq, Eq, Structural)]
pub enum AperturesError {
    /// Internal kcalloc() failed
    NoMem,
    CopyingBackToUser,
    Unexpected(Errno),
}

#[derive(Debug, PartialEq, Eq, Structural)]
pub enum AperturesErrorLimited {
    BufferTooLarge,
    /// Internal kcalloc() failed
    NoMem,
    CopyingBackToUser,
    Unexpected(Errno),
}

/// The error of AMDKFD_IOC_GET_PROCESS_APERTURES_NEW for an error number.
pub fn apertures_error(e: Errno) -> (r: AperturesError)
    ensures
        r == (if e == errno::ENOMEM {
            AperturesError::NoMem
        } else if e == errno::EFAULT {
            AperturesError::CopyingBackToUser
        } else {
            AperturesError::Unexpected(e)
        }),
{
    if e == errno::ENOMEM {
        AperturesError::NoMem
    } else if e == errno::EFAULT {
        AperturesError::CopyingBackToUser
    } else {
        AperturesError::Unexpected(e)
    }
}

/// The same, when the caller gave its own buffer.
pub fn apertures_error_limited(e: Errno) -> (r: AperturesErrorLimited)
    ensures
        r == (if e == errno::ENOMEM {
            AperturesErrorLimited::NoMem
        } else if e == errno::EFAULT {
            AperturesErrorLimited::CopyingBackToUser
        } else {
            AperturesErrorLimited::Unexpected(e)
        }),
{
    if e == errno::ENOMEM {
        AperturesErrorLimited::NoMem
    } else if e == errno::EFAULT {
        AperturesErrorLimited::CopyingBackToUser
    } else {
        AperturesErrorLimited::Unexpected(e)
    }
}

/// The number of entries to announce for a caller's buffer of `len`
/// entries: the count must fit the 32-bit field of the request.
pub fn apertures_request_len(len: usize) -> (r: Result<u32, AperturesErrorLimited>)
    ensures
        len <= u32::MAX ==> r == Ok::<u32, AperturesErrorLimited>(len as u32),
        len > u32::MAX ==> r == Err::<u32, AperturesErrorLimited>(AperturesErrorLimited::BufferTooLarge),
{
    if len <= u32::MAX as usize {
        Ok(len as u32)
    } else {
        Err(AperturesErrorLimited::BufferTooLarge)
    }
}

} // verus!
