pub mod errors;

use vstd::prelude::*;

use crate::errno;
use errors::{DropMasterError, RegularSetMasterError, SetMasterError};

verus! {

/// Created by this thread group
pub struct Local;

/// Created outside current thread group, but we have sole ownership of it now
pub struct Foreign;

/// Sole access to underlying drm object, no dupplicates exist
pub struct Exclusive;

/// The underlying object has multiple linked file descriptors
/// so the program needs to be careful around modifying state
pub struct Shared;

/// There can be only one at a time, but it can leasse access to some objects to other primary
/// clients
pub struct Master;

/// A master which created leasses
///
/// Closing it or dropping master status is dangerous because it affects the leassed clients
pub struct MasterWithLeasses {
    _leasses: Vec<()>,
}

/// Authenticated probably by a master via a magic value (DRM_IOCTL_AUTH_MAGIC)
///
/// If has CAP_SYS_ADMIN at creation, it is automatically set
pub struct Authenticated;

/// Authenticated definitely because this client droped master status
pub struct WasMaster;

/// A starting auth state, it can be anything
pub struct Unknown;

/// No additional permissions
pub struct Regular;

/// Master like status, but restricted to specific objects
/// Created via DRM_IOCTL_MODE_CREATE_LEASE
///
/// Leased objects can be revoked but the leased client doesn't get invalidated
///
/// But it looses master like status
/// Also closing or droping master status by the lessor revokes master like status
/// and revokes_leases
pub struct Leased<'master> {
    _permitted_objects: &'master [u32],
}

impl<'master> View for Leased<'master> {
    type V = Seq<u32>;

    closed spec fn view(&self) -> Seq<u32> {
        self._permitted_objects@
    }
}

impl<'master> Leased<'master> {
    pub fn new(permitted_objects: &'master [u32]) -> (r: Self)
        ensures
            r@ == permitted_objects@,
    {
        Leased { _permitted_objects: permitted_objects }
    }

    /// The objects leased to the client.
    pub fn permitted_objects(&self) -> (r: &'master [u32])
        ensures
            r@ == self@,
    {
        self._permitted_objects
    }
}

/// Once obtained, authenticated status cannot be removed
pub trait AtLeastAuthenticated {}

impl AtLeastAuthenticated for Master {}

impl AtLeastAuthenticated for MasterWithLeasses {}

impl AtLeastAuthenticated for Authenticated {}

impl<'a> AtLeastAuthenticated for Leased<'a> {}

impl AtLeastAuthenticated for WasMaster {}

pub trait ProbablyNotAuthenticated {}

impl ProbablyNotAuthenticated for Regular {}

impl ProbablyNotAuthenticated for Unknown {}

pub trait PrimaryMaster {}

impl PrimaryMaster for Master {}

impl PrimaryMaster for MasterWithLeasses {}

pub trait MasterLike {}

impl MasterLike for Master {}

impl MasterLike for MasterWithLeasses {}

impl<'a> MasterLike for Leased<'a> {}

/// The error that DRM_IOCTL_SET_MASTER reports for an error number, or
/// `None` for one that it is not known to report.
pub fn set_master_error(e: i32) -> (r: Option<SetMasterError>)
    ensures
        r == (if e == errno::EACCES {
            Some(SetMasterError::RequiresRootPermissions)
        } else if e == errno::EBUSY {
            Some(SetMasterError::OtherMasterAlreadySet)
        } else if e == errno::EINVAL {
            Some(SetMasterError::LeassedClientNotAllowed)
        } else if e == errno::ENOMEM {
            Some(SetMasterError::RunOutOfMemory)
        } else {
            None
        }),
{
    if e == errno::EACCES {
        Some(SetMasterError::RequiresRootPermissions)
    } else if e == errno::EBUSY {
        Some(SetMasterError::OtherMasterAlreadySet)
    } else if e == errno::EINVAL {
        Some(SetMasterError::LeassedClientNotAllowed)
    } else if e == errno::ENOMEM {
        Some(SetMasterError::RunOutOfMemory)
    } else {
        None
    }
}

/// What a client of unknown status gets back from a refused set-master:
/// `None` for the errors that such a client cannot meet (a lease, or no
/// memory), which are logic errors.
pub fn regular_set_master_error(e: SetMasterError) -> (r: Option<RegularSetMasterError>)
    ensures
        r == (match e {
            SetMasterError::OtherMasterAlreadySet => Some(RegularSetMasterError::OtherMasterAlreadySet),
            SetMasterError::RequiresRootPermissions => Some(RegularSetMasterError::RootPermissionsRequired),
            _ => None,
        }),
{
    match e {
        SetMasterError::OtherMasterAlreadySet => Some(RegularSetMasterError::OtherMasterAlreadySet),
        SetMasterError::RequiresRootPermissions => Some(RegularSetMasterError::RootPermissionsRequired),
        _ => None,
    }
}

/// The error that DRM_IOCTL_DROP_MASTER reports for an error number, or
/// `None` for one that it is not known to report.
pub fn drop_master_error(e: i32) -> (r: Option<DropMasterError>)
    ensures
        r == (if e == errno::EACCES {
            Some(DropMasterError::RootAccessRequired)
        } else if e == errno::EINVAL {
            Some(DropMasterError::NotCurrentMasterOrThereIsNoMasterOrItIsALeassedClient)
        } else {
            None
        }),
{
    if e == errno::EACCES {
        Some(DropMasterError::RootAccessRequired)
    } else if e == errno::EINVAL {
        Some(DropMasterError::NotCurrentMasterOrThereIsNoMasterOrItIsALeassedClient)
    } else {
        None
    }
}

/// Where dropping master leaves a client.
#[derive(Debug, PartialEq, Eq, Structural)]
pub enum DropMasterOutcome {
    /// The client is no longer master: the ioctl succeeded, or the kernel
    /// says that it is not the current master (or there is none, or it is
    /// a leased client).
    WasMaster,
    /// Dropping master takes root access that the client lacks.
    RootAccessRequired,
    /// The ioctl failed with an error that it is not known to report.
    Unexpected(i32),
}

/// Where DRM_IOCTL_DROP_MASTER, with result `res`, leaves a master client.
pub fn drop_master_outcome(res: Result<(), i32>) -> (r: DropMasterOutcome)
    ensures
        r == (match res {
            Ok(()) => DropMasterOutcome::WasMaster,
            Err(e) => if e == errno::EACCES {
                DropMasterOutcome::RootAccessRequired
            } else if e == errno::EINVAL {
                DropMasterOutcome::WasMaster
            } else {
                DropMasterOutcome::Unexpected(e)
            },
        }),
{
    match res {
        Ok(()) => DropMasterOutcome::WasMaster,
        Err(e) => match drop_master_error(e) {
            Some(DropMasterError::RootAccessRequired) => DropMasterOutcome::RootAccessRequired,
            Some(DropMasterError::NotCurrentMasterOrThereIsNoMasterOrItIsALeassedClient) => {
                DropMasterOutcome::WasMaster
            },
            None => DropMasterOutcome::Unexpected(e),
        },
    }
}

/// Whether DRM_IOCTL_AUTH_MAGIC reports with this error number that the
/// client does not exist or is authenticated already.
pub fn auth_magic_rejected(e: i32) -> (r: bool)
    ensures
        r == (e == errno::EINVAL),
{
    e == errno::EINVAL
}

} // verus!
