//! In KFD commands use gpu_id to signal which device they should impact or use
//!
//! But gpu_id doesn't hold any lock on devices, which means they can be removed
//! or changed.
use vstd::prelude::*;

use super::ioctl::{GpuId, KfdProcessDeviceApertures};

verus! {

pub trait AsGpuId {
    /// This gpu_id is hopefully still valid
    fn gpu_id(&self) -> GpuId;
}

/// A shortcut to provide a hopefully valid gpu_id by yourself
pub struct ManualGpuId(GpuId);

impl View for ManualGpuId {
    type V = GpuId;

    closed spec fn view(&self) -> GpuId {
        self.0
    }
}

impl ManualGpuId {
    pub fn from(gpu_id: GpuId) -> (r: Self)
        ensures
            r@ == gpu_id,
    {
        Self(gpu_id)
    }
}

impl AsGpuId for ManualGpuId {
    fn gpu_id(&self) -> (r: GpuId)
        ensures
            r == self@,
    {
        self.0
    }
}

impl AsGpuId for KfdProcessDeviceApertures {
    fn gpu_id(&self) -> (r: GpuId)
        ensures
            r == self.gpu_id,
    {
        self.gpu_id
    }
}

} // verus!
