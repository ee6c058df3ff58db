pub mod ids_flags;
pub mod structs;

pub use structs::{gem_domain, gem_flags, amdgpu_ib_flag, cs_chunk_cp_gfx_shadow_flags, map_flags, GemCreateIn, GemCreateOut, GemMmapIn, GemMmapOut, CtxOp, AMDGPU_CTX_NO_RESET, AMDGPU_CTX_GUILTY_RESET, AMDGPU_CTX_INNOCENT_RESET, AMDGPU_CTX_UNKNOWN_RESET, AMDGPU_CTX_QUERY2_FLAGS_RESET, AMDGPU_CTX_QUERY2_FLAGS_VRAMLOST, AMDGPU_CTX_QUERY2_FLAGS_GUILTY, AMDGPU_CTX_QUERY2_FLAGS_RAS_CE, AMDGPU_CTX_QUERY2_FLAGS_RAS_UE, AMDGPU_CTX_QUERY2_FLAGS_RESET_IN_PROGRESS, CtxPriority, AMDGPU_CTX_STABLE_PSTATE_FLAGS_MASK, AMDGPU_CTX_STABLE_PSTATE_NONE, AMDGPU_CTX_STABLE_PSTATE_STANDARD, AMDGPU_CTX_STABLE_PSTATE_MIN_SCLK, AMDGPU_CTX_STABLE_PSTATE_MIN_MCLK, AMDGPU_CTX_STABLE_PSTATE_PEAK, CtxIn, CtxOutAlloc, CtxOutState, CtxOutPstate, BoListOp, BoListIn, BoListEntry, BoListOut, ChunkId, HwIp, CsChunkIb, CsChunkDep, CsChunkFence, CsChunkSem, CsChunkSyncobj, CsChunkCpGfxShadow, CsChunk, CsIn, CsOut, ModeCrtc, QueryHwIp, ReadMMReag, QueryFw, VbiosInfo, SensorInfo, VideoCap, Info, GemMetadataData, MetadataOp, GemMetadata, VaOp, GemVa, CsWaitIn, CsWaitOut};

use vstd::prelude::*;

verus! {

pub type CtxId = u32;

pub type BoListHandle = u32;

pub type CsHandle = u64;

pub type FenceHandle = u64;

pub type SyncObjHandle = u32;

pub type SyncobjSeqNo = u64;

/// Index for instance of HW IP
/// You should most likely use 0
pub type IpInstance = u32;

/// Index for ring of an instance of HW IP
pub type IpRing = u32;

/// Fence / handle for the submission
/// Fence number is incremented on each submission
/// and it can repeat after a long while
pub type CsFence = u64;

/// Sizes of one memory heap, as the device information query reports them.
#[derive(Debug, Default, Clone, Copy)]
pub struct HeapInfo {
    /// max. physical memory
    pub total_heap_size: u64,
    /// Theoretical max. available memory in the given heap
    pub usable_heap_size: u64,
    /// Number of bytes allocated in the heap. This includes all processes
    /// and private allocations in the kernel. It changes when new buffers
    /// are allocated, freed, and moved. It cannot be larger than
    /// heap_size.
    pub heap_usage: u64,
    /// Theoretical possible max. size of buffer which
    /// could be allocated in the given heap
    pub max_allocation: u64,
}

/// The memory heaps of a device.
#[derive(Debug, Default, Clone, Copy)]
pub struct InfoMemory {
    pub vram: HeapInfo,
    pub cpu_accessible_vram: HeapInfo,
    pub gtt: HeapInfo,
}

/// The part of the device information that this crate reads.
#[derive(Debug, Default, Clone, Copy)]
pub struct InfoDevice {
    /// Flags of the module `ids_flags`
    pub ids_flags: ids_flags::IdsFlags,
}

} // verus!
