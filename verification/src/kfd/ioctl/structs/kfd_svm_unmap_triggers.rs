use vstd::prelude::*;

verus! {

pub type Type = u32;
pub const MMU_NOTIFY: Type = 0; // MMU notifier CPU buffer movement
pub const MMU_NOTIFY_MIGRATE: Type = 1; // MMU notifier page migration
pub const UNMAP_FROM_CPU: Type = 2; // Unmap to free the buffer

} // verus!
