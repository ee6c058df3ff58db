use vstd::prelude::*;

verus! {

pub type EventType = u32;
pub const SIGNAL: EventType = 0;
pub const NODE_CHANGE: EventType = 1;
pub const DEVICE_STATE_CHANGE: EventType = 2;
pub const HW_EXCEPTION: EventType = 3;
pub const SYSTEM_EVENT: EventType = 4;
pub const DEBUG_EVENT: EventType = 5;
pub const PROFILE_EVENT: EventType = 6;
pub const QUEUE_EVENT: EventType = 7;
pub const MEMORY: EventType = 8;

} // verus!
