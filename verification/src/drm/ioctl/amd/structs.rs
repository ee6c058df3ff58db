use vstd::prelude::*;
use crate::drm::{GemHandle, SyncobjHandle};
use crate::drm::ioctl::amd::{BoListHandle, CsFence, CtxId, FenceHandle, IpInstance, IpRing, SyncobjSeqNo};
use crate::kfd::ioctl::VirtualAddress;

pub mod gem_domain;
pub mod gem_flags;
pub mod amdgpu_ib_flag;
pub mod cs_chunk_cp_gfx_shadow_flags;
pub mod map_flags;

verus! {

#[derive(Debug, Clone, Copy)]
pub struct GemCreateIn {
    /// the requested memory size
    pub bo_size: usize,
    /// physical start_addr alignment in bytes for some HW requirements
    pub alignment: usize,
    /// the requested memory domains
    pub domains: gem_domain::Type,
    /// allocation flags
    pub domain_flags: gem_flags::Type,
}



#[derive(Debug, Clone, Copy)]
pub struct GemCreateOut {
    /// returned GEM object handle
    pub handle: u32,
    pub _pad: u32,
}

#[derive(Debug, Clone, Copy)]
pub struct GemMmapIn {
    /// the GEM object handle
    pub handle: GemHandle,
    pub _pad: u32,
}

#[derive(Debug, Clone, Copy)]
pub struct GemMmapOut {
    /// mmap offset from the vma offset manager
    pub addr_ptr: u64,
}

#[derive(Debug, Clone, Copy)]
pub enum CtxOp {
    AllocCtx,
    FreeCtx,
    QueryState,
    QueryState2,
    GetStablePstate,
    SetStablePstate,
}

// GPU reset status
pub const AMDGPU_CTX_NO_RESET: u32 = 0;
pub const AMDGPU_CTX_GUILTY_RESET: u32 = 1;
pub const AMDGPU_CTX_INNOCENT_RESET: u32 = 2;
pub const AMDGPU_CTX_UNKNOWN_RESET: u32 = 3;

// QUERY2 flags
pub const AMDGPU_CTX_QUERY2_FLAGS_RESET: u32 = 1 << 0;
pub const AMDGPU_CTX_QUERY2_FLAGS_VRAMLOST: u32 = 1 << 1;
pub const AMDGPU_CTX_QUERY2_FLAGS_GUILTY: u32 = 1 << 2;
pub const AMDGPU_CTX_QUERY2_FLAGS_RAS_CE: u32 = 1 << 3;
pub const AMDGPU_CTX_QUERY2_FLAGS_RAS_UE: u32 = 1 << 4;
pub const AMDGPU_CTX_QUERY2_FLAGS_RESET_IN_PROGRESS: u32 = 1 << 5;

/// Context priority levels
///
/// Any other value is treated as Unset, which defaults to Normal
/// Priority > Normal requires CAP_SYS_NICE or drm master
#[derive(Debug, Clone, Copy)]
pub enum CtxPriority {
    Unset,
    VeryLow,
    Low,
    Normal,
    High,
    VeryHigh,
}

// Stable pstate
pub const AMDGPU_CTX_STABLE_PSTATE_FLAGS_MASK: u32 = 0xf;
pub const AMDGPU_CTX_STABLE_PSTATE_NONE: u32 = 0;
pub const AMDGPU_CTX_STABLE_PSTATE_STANDARD: u32 = 1;
pub const AMDGPU_CTX_STABLE_PSTATE_MIN_SCLK: u32 = 2;
pub const AMDGPU_CTX_STABLE_PSTATE_MIN_MCLK: u32 = 3;
pub const AMDGPU_CTX_STABLE_PSTATE_PEAK: u32 = 4;

#[derive(Debug, Clone, Copy)]
pub struct CtxIn {
    pub op: CtxOp,
    /// Set to 0 except for SET_PSTATE op
    pub flags: u32,
    pub ctx_id: CtxId,
    /// Only used for ALLOC_CTX
    pub priority: CtxPriority,
}

#[derive(Debug, Clone, Copy)]
pub struct CtxOutAlloc {
    pub ctx_id: CtxId,
    pub _pad: u32,
}

#[derive(Debug, Clone, Copy)]
pub struct CtxOutState {
    /// For future use, no flags defined so far
    pub flags: u64,
    /// Number of resets caused by this context so far
    pub hangs: u32,
    /// Reset status since the last call of the ioctl
    pub reset_status: u32,
}

#[derive(Debug, Clone, Copy)]
pub struct CtxOutPstate {
    pub flags: u32,
    pub _pad: u32,
}

#[derive(Clone, Copy, Debug)]
pub enum BoListOp {
    Create,
    Destroy,
    Update,
}

#[derive(Clone, Copy, Debug)]
pub struct BoListIn {
    /// Type of operation
    pub operation: BoListOp,
    /// Handle of list or 0 if we want to create one
    pub list_handle: BoListHandle,
    /// Number of BOs in bo_info_ptr
    pub bo_number: u32,
    /// Size of each element describing BO
    /// size_of::<BoListEntry>()
    pub bo_info_size: u32,
    /// Pointer to array describing BOs
    ///
    /// It teoretically accept any type which is no larger than BoListEntry
    /// but internally it allocates space as if for BoListEntry and simply casts provided data
    ///
    /// It allows for extending BoListEntry in the future
    /// User-space address (*const BoListEntry).
    pub bo_info_ptr: u64,
}

#[derive(Clone, Copy, Debug)]
pub struct BoListEntry {
    /// Handle of BO
    pub bo_handle: u32,
    /// New (if specified) BO priority to be used during migration
    pub bo_priority: u32,
}

#[derive(Clone, Copy, Debug)]
pub struct BoListOut {
    /// Handle of resource list
    pub list_handle: BoListHandle,
    pub _pad: u32,
}

#[derive(Debug, Clone, Copy)]
#[allow(non_camel_case_types)]
pub enum ChunkId {
    /// CsChunkIb
    /// You can have multiple of these in a submission
    ///
    /// There is a limit of at most 4 IBs (jobs) in a gang (submission)
    ///
    /// For some rings the content might be validated (parse_cs) or changed (patch_cs_in_place)
    /// by ring driver
    IB,
    /// CsChunkFence
    /// You only want one of these in a submission
    ///
    /// Some rings may not support user fences
    FENCE,
    /// CsChunkDep
    /// You can have multiple of these in a submission
    /// Accepts an array, just set length_in_dw to array len * sizeof(ChunkDep) / 4
    DEPENDENCIES,
    /// CsChunkSem
    /// You can have multiple of these in a submission
    /// Accepts an array, just set length_in_dw to array len * sizeof(ChunkSem) / 4
    SYNCOBJ_IN,
    /// CsChunkSem
    /// You can have only one of these in a submission and you have to choose between
    /// this and SYNCOBJ_TIMELINE_SIGNAL
    /// Accepts an array, just set length_in_dw to array len * sizeof(ChunkSem) / 4
    SYNCOBJ_OUT,
    /// BoListIn
    /// You can have only one of these in a submission
    BO_HANDLES,
    /// CsChunkDep
    /// You can have multiple of these in a submission
    /// Accepts an array, just set length_in_dw to array len * sizeof(ChunkDep) / 4
    SCHEDULED_DEPENDENCIES,
    /// CsChunkSyncobj
    /// You can have multiple of these in a submission
    /// Accepts an array, just set length_in_dw to array len * sizeof(ChunkSyncobj) / 4
    SYNCOBJ_TIMELINE_WAIT,
    /// CsChunkSyncobj
    /// You only want one of these in a submission and you have to choose between
    /// this and SYNCOBJ_OUT
    /// Accepts an array, just set length_in_dw to array len * sizeof(ChunkSyncobj) / 4
    SYNCOBJ_TIMELINE_SIGNAL,
    /// CsChunkCpGfxShadow
    /// You only want one of these in a submission
    /// Used by gfx11
    CP_GFX_SHADOW,
}


#[derive(Debug, Clone, Copy)]
#[allow(non_camel_case_types)]
pub enum HwIp {
    GFX,
    COMPUTE,
    DMA,
    UVD,
    VCE,
    UVD_ENC,
    VCN_DEC,
    /// From VCN4, AMDGPU_HW_IP_VCN_ENC is re-used to support
    /// both encoding and decoding jobs.
    VCN_ENC,
    VCN_JPEG,
    VPE,
    NUM,
}

#[derive(Debug, Clone, Copy)]
pub struct CsChunkIb {
    pub _pad: u32,
    pub flags: amdgpu_ib_flag::Type,
    /// Virtual address to memory with hw_ip specific instructions to begin execution
    /// It must be already mapped
    pub va_start: u64,
    /// Size of submission in bytes, must be 4 bytes aligned
    pub ib_bytes: u32,
    /// There is a limit of using at most 4 different rings (entities) in a submission
    pub ip_type: HwIp,
    pub ip_instance: IpInstance,
    pub ring: IpRing,
}

#[derive(Debug, Clone, Copy)]
pub struct CsChunkDep {
    pub ip_type: HwIp,
    pub ip_instance: IpInstance,
    pub ring: IpRing,
    pub ctx_id: CtxId,
    pub handle: FenceHandle,
}

#[derive(Debug, Clone, Copy)]
pub struct CsChunkFence {
    /// GEM must have PAGE_SIZE size
    /// It cannot be a userptr GEM
    pub handle: GemHandle,
    /// Must be a valid offset (in bytes) to a u64 in provided GEM
    ///
    /// It best if you align it too, as it's hw_ip and generation
    /// dependant if you get undefined behaviour
    pub offset: u32,
}

#[derive(Debug, Clone, Copy)]
pub struct CsChunkSem {
    pub handle: SyncobjHandle,
}

#[derive(Debug, Clone, Copy)]
pub struct CsChunkSyncobj {
    pub handle: SyncobjHandle,
    /// DRM_SYNCOBJ_WAIT_FLAGS_ for SyncoobjWait
    /// Unused for SyncobjSignal
    pub flags: u32,
    pub point: SyncobjSeqNo,
}


#[derive(Debug, Clone, Copy)]
pub struct CsChunkCpGfxShadow {
    pub shadow_va: VirtualAddress,
    pub csa_va: VirtualAddress,
    pub gds_va: VirtualAddress,
    pub flags: cs_chunk_cp_gfx_shadow_flags::Type,
}

#[derive(Debug, Clone, Copy)]
pub struct CsChunk {
    pub chunk_id: ChunkId,
    /// Size of the struct chunk_data points to
    /// Unit: dword (4bytes)
    pub length_dw: u32,
    /// Ptr to struct depending on chunk_id
    pub chunk_data: u64,
}

#[derive(Debug, Clone, Copy)]
pub struct CsIn {
    pub ctx_id: CtxId,
    pub bo_list_handle: BoListHandle,
    pub num_chunks: u32,
    pub flags: u32,
    /// Array of pointers to CsChunk
    /// The order of most chunks matters
    /// User-space address (*const *const CsChunk).
    pub chunks: u64,
}

#[derive(Debug, Clone, Copy)]
pub struct CsOut {
    pub handle: CsFence,
}

#[derive(Debug, Clone, Copy)]
pub struct ModeCrtc {
    pub id: u32,
    pub _pad: u32,
}

#[derive(Clone, Copy)]
pub struct QueryHwIp {
    pub type_: u32,

    /// Index of the IP if there are more IPs of the same
    /// type. Ignored by AMDGPU_INFO_HW_IP_COUNT.
    pub ip_instance: u32,
}

#[derive(Clone, Copy)]
pub struct ReadMMReag {
    pub dword_offset: u32,
    /// number of registers to read
    pub count: u32,
    pub instance: u32,
    /// For future use, no flags defined so far
    pub flags: u32,
}

#[derive(Clone, Copy)]
pub struct QueryFw {
    /// AMDGPU_INFO_FW_*
    pub fw_type: u32,

    /// Index of the IP if there are more IPs of
    /// the same type.
    pub ip_instance: u32,
    /// Index of the engine. Whether this is used depends
    /// on the firmware type. (e.g. MEC, SDMA)
    pub index: u32,
    pub _pad: u32,
}

#[derive(Clone, Copy)]
pub struct VbiosInfo {
    pub type_: u32,
    pub offset: u32,
}

#[derive(Clone, Copy)]
pub struct SensorInfo {
    pub type_: u32,
}

#[derive(Clone, Copy)]
pub struct VideoCap {
    pub type_: u32,
}

/// The query-specific input of an information query; exactly one of the
/// inputs is present, so the library holds it as an enum.
#[derive(Clone, Copy)]
pub enum InfoUnion {
    ModeCrtc(ModeCrtc),
    QueryHwIp(QueryHwIp),
    ReadMmrReg(ReadMMReag),
    QueryFw(QueryFw),
    VbiosInfo(VbiosInfo),
    SensorInfo(SensorInfo),
    VideoCap(VideoCap),
}

#[derive(Clone, Copy)]
pub struct Info {
    // Where the return value will be stored
    /// User-space address (*mut ()).
    return_pointer: u64,
    // The size of the return value. Just like "size" in "snprintf",      * it limits how many bytes the kernel can write.
    return_size: u32,
    // The query request id.
    query: u32,
    quick_info: InfoUnion,
}

#[derive(Debug, Clone, Copy)]
pub struct GemMetadataData {
    /// For future use, no flags defined so far
    pub flags: u64,
    /// Family specific tiling info
    pub tiling_info: u64,
    pub data_size_bytes: u32,
    pub data: [u32; 64],
}

#[derive(Debug, Clone, Copy)]
pub enum MetadataOp {
    SetData,
    Get,
}

#[derive(Debug, Clone, Copy)]
pub struct GemMetadata {
    pub handle: GemHandle,
    pub op: MetadataOp,
    pub data: GemMetadataData,
}

#[derive(Debug, Clone, Copy)]
pub enum VaOp {
    MapRange,
    Unmap,
    Clear,
    Replace,
}

#[derive(Debug, Clone, Copy)]
pub struct GemVa {
    /// GEM object handle
    pub handle: GemHandle,
    pub _pad: u32,
    pub operation: VaOp,
    /// AMDGPU_VM_PAGE_*
    pub flags: map_flags::VaFlags,
    /// VA address to assign. Must be correctly aligned.
    pub va_address: usize,
    /// Specify offset inside of BO to assign. Must be correctly aligned.
    pub offset_in_bo: usize,
    /// Specify mapping size. Must be correctly aligned.
    pub map_size: usize,
    /// Sequence number used to add new timeline point.
    pub vm_timeline_point: u64,
    /// The vm page table update fence is installed in given
    /// vm_timeline_syncobj_out at vm_timeline_point.
    pub vm_timeline_syncobj_out: u32,
    /// The number of syncobj handles in input_fence_syncobj_handles
    pub num_syncobj_handles: u32,
    /// Array of sync object handles to wait for given input fences
    /// User-space address (*const SyncobjHandle).
    pub input_fence_syncobj_handles: u64,
}

#[derive(Debug, Copy, Clone)]
pub struct CsWaitIn {
    /// Command submission handle.
    /// - `0` means none to wait for
    /// - `!0u64` means wait for the latest sequence number
    pub handle: CsFence,
    /// Absolute timeout in nanoseconds to wait
    pub timeout: u64,
    pub ip_type: HwIp,
    pub ip_instance: IpInstance,
    pub ring: IpRing,
    pub ctx_id: CtxId,
}

#[derive(Debug, Copy, Clone)]
pub struct CsWaitOut {
    /// CS status: `0` = CS completed, `1` = timeout (as the kernel header
    /// documents it)
    pub status: u64,
}

impl CtxOp {
    /// The value the kernel interface gives this variant.
    pub open spec fn spec_value(self) -> u32 {
        match self {
            CtxOp::AllocCtx => 1u32,
            CtxOp::FreeCtx => 2u32,
            CtxOp::QueryState => 3u32,
            CtxOp::QueryState2 => 4u32,
            CtxOp::GetStablePstate => 5u32,
            CtxOp::SetStablePstate => 6u32,
        }
    }

    pub fn value(&self) -> (r: u32)
        ensures
            r == self.spec_value(),
    {
        match self {
            CtxOp::AllocCtx => 1,
            CtxOp::FreeCtx => 2,
            CtxOp::QueryState => 3,
            CtxOp::QueryState2 => 4,
            CtxOp::GetStablePstate => 5,
            CtxOp::SetStablePstate => 6,
        }
    }
}

impl CtxPriority {
    /// The value the kernel interface gives this variant.
    pub open spec fn spec_value(self) -> i32 {
        match self {
            CtxPriority::Unset => -2048i32,
            CtxPriority::VeryLow => -1023i32,
            CtxPriority::Low => -512i32,
            CtxPriority::Normal => 0i32,
            CtxPriority::High => 512i32,
            CtxPriority::VeryHigh => 1023i32,
        }
    }

    pub fn value(&self) -> (r: i32)
        ensures
            r == self.spec_value(),
    {
        match self {
            CtxPriority::Unset => -2048,
            CtxPriority::VeryLow => -1023,
            CtxPriority::Low => -512,
            CtxPriority::Normal => 0,
            CtxPriority::High => 512,
            CtxPriority::VeryHigh => 1023,
        }
    }
}

impl BoListOp {
    /// The value the kernel interface gives this variant.
    pub open spec fn spec_value(self) -> u32 {
        match self {
            BoListOp::Create => 0u32,
            BoListOp::Destroy => 1u32,
            BoListOp::Update => 2u32,
        }
    }

    pub fn value(&self) -> (r: u32)
        ensures
            r == self.spec_value(),
    {
        match self {
            BoListOp::Create => 0,
            BoListOp::Destroy => 1,
            BoListOp::Update => 2,
        }
    }
}

impl ChunkId {
    /// The value the kernel interface gives this variant.
    pub open spec fn spec_value(self) -> u32 {
        match self {
            ChunkId::IB => 0x01,
            ChunkId::FENCE => 0x02,
            ChunkId::DEPENDENCIES => 0x03,
            ChunkId::SYNCOBJ_IN => 0x04,
            ChunkId::SYNCOBJ_OUT => 0x05,
            ChunkId::BO_HANDLES => 0x06,
            ChunkId::SCHEDULED_DEPENDENCIES => 0x07,
            ChunkId::SYNCOBJ_TIMELINE_WAIT => 0x08,
            ChunkId::SYNCOBJ_TIMELINE_SIGNAL => 0x09,
            ChunkId::CP_GFX_SHADOW => 0x0a,
        }
    }

    pub fn value(&self) -> (r: u32)
        ensures
            r == self.spec_value(),
    {
        match self {
            ChunkId::IB => 0x01,
            ChunkId::FENCE => 0x02,
            ChunkId::DEPENDENCIES => 0x03,
            ChunkId::SYNCOBJ_IN => 0x04,
            ChunkId::SYNCOBJ_OUT => 0x05,
            ChunkId::BO_HANDLES => 0x06,
            ChunkId::SCHEDULED_DEPENDENCIES => 0x07,
            ChunkId::SYNCOBJ_TIMELINE_WAIT => 0x08,
            ChunkId::SYNCOBJ_TIMELINE_SIGNAL => 0x09,
            ChunkId::CP_GFX_SHADOW => 0x0a,
        }
    }
}

impl HwIp {
    /// The value the kernel interface gives this variant.
    pub open spec fn spec_value(self) -> u32 {
        match self {
            HwIp::GFX => 0u32,
            HwIp::COMPUTE => 1u32,
            HwIp::DMA => 2u32,
            HwIp::UVD => 3u32,
            HwIp::VCE => 4u32,
            HwIp::UVD_ENC => 5u32,
            HwIp::VCN_DEC => 6u32,
            HwIp::VCN_ENC => 7u32,
            HwIp::VCN_JPEG => 8u32,
            HwIp::VPE => 9u32,
            HwIp::NUM => 10u32,
        }
    }

    pub fn value(&self) -> (r: u32)
        ensures
            r == self.spec_value(),
    {
        match self {
            HwIp::GFX => 0,
            HwIp::COMPUTE => 1,
            HwIp::DMA => 2,
            HwIp::UVD => 3,
            HwIp::VCE => 4,
            HwIp::UVD_ENC => 5,
            HwIp::VCN_DEC => 6,
            HwIp::VCN_ENC => 7,
            HwIp::VCN_JPEG => 8,
            HwIp::VPE => 9,
            HwIp::NUM => 10,
        }
    }
}

impl MetadataOp {
    /// The value the kernel interface gives this variant.
    pub open spec fn spec_value(self) -> u32 {
        match self {
            MetadataOp::SetData => 1u32,
            MetadataOp::Get => 2u32,
        }
    }

    pub fn value(&self) -> (r: u32)
        ensures
            r == self.spec_value(),
    {
        match self {
            MetadataOp::SetData => 1,
            MetadataOp::Get => 2,
        }
    }
}

impl VaOp {
    /// The value the kernel interface gives this variant.
    pub open spec fn spec_value(self) -> u32 {
        match self {
            VaOp::MapRange => 1u32,
            VaOp::Unmap => 2u32,
            VaOp::Clear => 3u32,
            VaOp::Replace => 4u32,
        }
    }

    pub fn value(&self) -> (r: u32)
        ensures
            r == self.spec_value(),
    {
        match self {
            VaOp::MapRange => 1,
            VaOp::Unmap => 2,
            VaOp::Clear => 3,
            VaOp::Replace => 4,
        }
    }
}

/// The kernel header's numbers for the `AMDGPU_CTX_OP_*` context operations, one for each variant, and
/// no two variants with one number.
pub proof fn lemma_ctx_op_numbers()
    ensures
        CtxOp::AllocCtx.spec_value() == 1u32,
        CtxOp::FreeCtx.spec_value() == 2u32,
        CtxOp::QueryState.spec_value() == 3u32,
        CtxOp::QueryState2.spec_value() == 4u32,
        CtxOp::GetStablePstate.spec_value() == 5u32,
        CtxOp::SetStablePstate.spec_value() == 6u32,
        forall|a: CtxOp, b: CtxOp| #[trigger] a.spec_value() == #[trigger] b.spec_value() ==> a == b,
{
}

/// The kernel header's numbers for the `AMDGPU_CTX_PRIORITY_*` context priorities, one for each variant, and
/// no two variants with one number.
pub proof fn lemma_ctx_priority_numbers()
    ensures
        CtxPriority::Unset.spec_value() == -2048i32,
        CtxPriority::VeryLow.spec_value() == -1023i32,
        CtxPriority::Low.spec_value() == -512i32,
        CtxPriority::Normal.spec_value() == 0i32,
        CtxPriority::High.spec_value() == 512i32,
        CtxPriority::VeryHigh.spec_value() == 1023i32,
        forall|a: CtxPriority, b: CtxPriority| #[trigger] a.spec_value() == #[trigger] b.spec_value() ==> a == b,
{
}

/// The kernel header's numbers for the `AMDGPU_BO_LIST_OP_*` buffer-list operations, one for each variant, and
/// no two variants with one number.
pub proof fn lemma_bo_list_op_numbers()
    ensures
        BoListOp::Create.spec_value() == 0u32,
        BoListOp::Destroy.spec_value() == 1u32,
        BoListOp::Update.spec_value() == 2u32,
        forall|a: BoListOp, b: BoListOp| #[trigger] a.spec_value() == #[trigger] b.spec_value() ==> a == b,
{
}

/// The kernel header's numbers for the `AMDGPU_CHUNK_ID_*` command-submission chunks, one for each variant, and
/// no two variants with one number.
pub proof fn lemma_chunk_id_numbers()
    ensures
        ChunkId::IB.spec_value() == 0x01u32,
        ChunkId::FENCE.spec_value() == 0x02u32,
        ChunkId::DEPENDENCIES.spec_value() == 0x03u32,
        ChunkId::SYNCOBJ_IN.spec_value() == 0x04u32,
        ChunkId::SYNCOBJ_OUT.spec_value() == 0x05u32,
        ChunkId::BO_HANDLES.spec_value() == 0x06u32,
        ChunkId::SCHEDULED_DEPENDENCIES.spec_value() == 0x07u32,
        ChunkId::SYNCOBJ_TIMELINE_WAIT.spec_value() == 0x08u32,
        ChunkId::SYNCOBJ_TIMELINE_SIGNAL.spec_value() == 0x09u32,
        ChunkId::CP_GFX_SHADOW.spec_value() == 0x0au32,
        forall|a: ChunkId, b: ChunkId| #[trigger] a.spec_value() == #[trigger] b.spec_value() ==> a == b,
{
}

/// The kernel header's numbers for the `AMDGPU_HW_IP_*` engines, one for each variant, and
/// no two variants with one number.
pub proof fn lemma_hw_ip_numbers()
    ensures
        HwIp::GFX.spec_value() == 0u32,
        HwIp::COMPUTE.spec_value() == 1u32,
        HwIp::DMA.spec_value() == 2u32,
        HwIp::UVD.spec_value() == 3u32,
        HwIp::VCE.spec_value() == 4u32,
        HwIp::UVD_ENC.spec_value() == 5u32,
        HwIp::VCN_DEC.spec_value() == 6u32,
        HwIp::VCN_ENC.spec_value() == 7u32,
        HwIp::VCN_JPEG.spec_value() == 8u32,
        HwIp::VPE.spec_value() == 9u32,
        HwIp::NUM.spec_value() == 10u32,
        forall|a: HwIp, b: HwIp| #[trigger] a.spec_value() == #[trigger] b.spec_value() ==> a == b,
{
}

/// The kernel header's numbers for the `AMDGPU_GEM_METADATA_OP_*` operations, one for each variant, and
/// no two variants with one number.
pub proof fn lemma_metadata_op_numbers()
    ensures
        MetadataOp::SetData.spec_value() == 1u32,
        MetadataOp::Get.spec_value() == 2u32,
        forall|a: MetadataOp, b: MetadataOp| #[trigger] a.spec_value() == #[trigger] b.spec_value() ==> a == b,
{
}

/// The kernel header's numbers for the `AMDGPU_VA_OP_*` operations, one for each variant, and
/// no two variants with one number.
pub proof fn lemma_va_op_numbers()
    ensures
        VaOp::MapRange.spec_value() == 1u32,
        VaOp::Unmap.spec_value() == 2u32,
        VaOp::Clear.spec_value() == 3u32,
        VaOp::Replace.spec_value() == 4u32,
        forall|a: VaOp, b: VaOp| #[trigger] a.spec_value() == #[trigger] b.spec_value() ==> a == b,
{
}

} // verus!
