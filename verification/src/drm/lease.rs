use vstd::prelude::*;

use crate::errno;

verus! {

/// Why the objects of a lease could not be listed.
#[derive(Debug, PartialEq, Eq, Structural)]
pub enum GetLeaseError {
    /// The lessor is no longer master, but it could become master again and the lease would be
    /// valid again
    LostMasterStatus,
    DriverDoesntSupport,
}

/// The error that DRM_IOCTL_MODE_GET_LEASE reports for an error number, or
/// `None` for one that it is not known to report.
pub fn get_lease_error(e: i32) -> (r: Option<GetLeaseError>)
    ensures
        r == (if e == errno::EACCES {
            Some(GetLeaseError::LostMasterStatus)
        } else if e == errno::EOPNOTSUPP {
            Some(GetLeaseError::DriverDoesntSupport)
        } else {
            None
        }),
{
    if e == errno::EACCES {
        Some(GetLeaseError::LostMasterStatus)
    } else if e == errno::EOPNOTSUPP {
        Some(GetLeaseError::DriverDoesntSupport)
    } else {
        None
    }
}

} // verus!
