use vstd::prelude::*;

verus! {

pub type Type = u32;
pub const PREFETCH: Type = 0; // Prefetch to GPU VRAM or system memory
pub const PAGEFAULT_GPU: Type = 1; // GPU page fault recover
pub const PAGEFAULT_CPU: Type = 2; // CPU page fault recover
pub const TTM_EVICTION: Type = 3; // TTM eviction

} // verus!
