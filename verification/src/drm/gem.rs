use vstd::prelude::*;

use crate::errno;

verus! {

#[derive(Debug, PartialEq, Eq, Structural)]
pub enum GemCloseError {
    DriverWithoutGem,
    InvalidHandle,
}

#[derive(Debug, PartialEq, Eq, Structural)]
pub enum GemFlinkError {
    ClientNotAuthenticated,
    DriverWithoutGem,
    InvalidHandle,
    NoFreeName,
}

#[derive(Debug, PartialEq, Eq, Structural)]
pub enum GemOpenError {
    ClientNotAuthenticated,
    DriverWithoutGem,
    InvalidHandle,
    NoFreeHandle,
}

/// The error that DRM_IOCTL_GEM_FLINK reports for an error number, or
/// `None` for one that it is not known to report.
pub fn gem_flink_error(e: i32) -> (r: Option<GemFlinkError>)
    ensures
        r == (if e == errno::EACCES {
            Some(GemFlinkError::ClientNotAuthenticated)
        } else if e == errno::EOPNOTSUPP {
            Some(GemFlinkError::DriverWithoutGem)
        } else if e == errno::EINVAL {
            Some(GemFlinkError::InvalidHandle)
        } else if e == errno::ENOSPC {
            Some(GemFlinkError::NoFreeName)
        } else {
            None
        }),
{
    if e == errno::EACCES {
        Some(GemFlinkError::ClientNotAuthenticated)
    } else if e == errno::EOPNOTSUPP {
        Some(GemFlinkError::DriverWithoutGem)
    } else if e == errno::EINVAL {
        Some(GemFlinkError::InvalidHandle)
    } else if e == errno::ENOSPC {
        Some(GemFlinkError::NoFreeName)
    } else {
        None
    }
}

/// The error that DRM_IOCTL_GEM_CLOSE reports for an error number, or
/// `None` for one that it is not known to report.
pub fn gem_close_error(e: i32) -> (r: Option<GemCloseError>)
    ensures
        r == (if e == errno::EOPNOTSUPP {
            Some(GemCloseError::DriverWithoutGem)
        } else if e == errno::EINVAL {
            Some(GemCloseError::InvalidHandle)
        } else {
            None
        }),
{
    if e == errno::EOPNOTSUPP {
        Some(GemCloseError::DriverWithoutGem)
    } else if e == errno::EINVAL {
        Some(GemCloseError::InvalidHandle)
    } else {
        None
    }
}

/// The error that DRM_IOCTL_GEM_OPEN reports for an error number, or
/// `None` for one that it is not known to report (out of memory among
/// them).
pub fn gem_open_error(e: i32) -> (r: Option<GemOpenError>)
    ensures
        r == (if e == errno::EACCES {
            Some(GemOpenError::ClientNotAuthenticated)
        } else if e == errno::EOPNOTSUPP {
            Some(GemOpenError::DriverWithoutGem)
        } else if e == errno::ENOENT {
            Some(GemOpenError::InvalidHandle)
        } else if e == errno::ENOSPC {
            Some(GemOpenError::NoFreeHandle)
        } else {
            None
        }),
{
    if e == errno::EACCES {
        Some(GemOpenError::ClientNotAuthenticated)
    } else if e == errno::EOPNOTSUPP {
        Some(GemOpenError::DriverWithoutGem)
    } else if e == errno::ENOENT {
        Some(GemOpenError::InvalidHandle)
    } else if e == errno::ENOSPC {
        Some(GemOpenError::NoFreeHandle)
    } else {
        None
    }
}

pub trait GemObject {
    /// A gem object has a fixed size, set during creation
    fn size(&self);
}

pub trait DrmDevice {}

} // verus!
