use vstd::prelude::*;

verus! {

pub type Type = u64;
pub const NONE: Type = 0; // not used
pub const VMFAULT: Type = 1; // event start counting at 1
pub const THERMAL_THROTTLE: Type = 2;
pub const GPU_PRE_RESET: Type = 3;
pub const GPU_POST_RESET: Type = 4;
pub const MIGRATE_START: Type = 5;
pub const MIGRATE_END: Type = 6;
pub const PAGE_FAULT_START: Type = 7;
pub const PAGE_FAULT_END: Type = 8;
pub const QUEUE_EVICTION: Type = 9;
pub const QUEUE_RESTORE: Type = 10;
pub const UNMAP_FROM_GPU: Type = 11;
pub const PROCESS_START: Type = 12;
pub const PROCESS_END: Type = 13;
/// Max event number, as filteing mask is 64bits wide.
///
/// Requires super user permission, otherwise will not be able to
/// receive event from any process.
///
/// Without this flag, receives events from same process only.
pub const ALL_PROCESS: Type = 64;

/// The mask bit of event `ev`, for event filters.
pub fn msk(ev: Type) -> (r: Type)
    requires
        1 <= ev <= 64,
    ensures
        r == 1u64 << ((ev - 1) as u64),
{
    1 << (ev - 1)
}

} // verus!
