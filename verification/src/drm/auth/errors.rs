use vstd::prelude::*;

verus! {

#[derive(Debug, PartialEq, Eq, Structural)]
#[non_exhaustive]
pub enum SetMasterError {
    /// This client was never a master or is foreign so it requires root permissions
    RequiresRootPermissions,
    OtherMasterAlreadySet,
    /// Modyfing master state not allowed for leassed clients
    ///
    /// This only makes sense to come from attempting to overwrite a
    /// drm_lease, becaues the other check is not possible because this ioctl is not
    /// available to Render clients
    LeassedClientNotAllowed,
    RunOutOfMemory,
}

#[derive(Debug, PartialEq, Eq, Structural)]
#[non_exhaustive]
pub enum RegularSetMasterError {
    /// Either:
    /// - this client was never a master therefore it would require root permissions
    ///   so it is either a regular client or authenticated via magic value
    /// - or it is a foreign client and would require master regardless
    RootPermissionsRequired,
    OtherMasterAlreadySet,
}

#[derive(Debug, PartialEq, Eq, Structural)]
pub enum DropMasterError {
    /// This client was never a master or is foreign so it requires root permissions
    RootAccessRequired,
    NotCurrentMasterOrThereIsNoMasterOrItIsALeassedClient,
}

pub struct OtherMasterAlreadySet;

pub struct RootAccessRequired;

pub struct ClientDoesntExistOrAlreadyAuthenticated;

} // verus!
