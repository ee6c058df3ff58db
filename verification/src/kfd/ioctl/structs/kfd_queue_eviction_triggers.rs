use vstd::prelude::*;

verus! {

pub type Type = u32;
pub const SVM: Type = 0; // SVM buffer migration
pub const USERPTR: Type = 1; // userptr movement
pub const TTM: Type = 2; // TTM move buffer
pub const SUSPEND: Type = 3; // GPU suspend
pub const CRIU_CHECKPOINT: Type = 4; // CRIU checkpoint
pub const CRIU_RESTORE: Type = 5; // CRIU restore

} // verus!
