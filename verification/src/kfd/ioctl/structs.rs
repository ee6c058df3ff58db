use vstd::prelude::*;

pub mod queue_limits;
pub mod cache_policy;
pub mod event_type;
pub mod hsa_mem_exception;
pub mod hw_reset_type;
pub mod hw_reset_cause;
pub mod wait_result;
/// Allocation flags: memory types, pick only one
pub mod alloc_domain;
/// Allocation flags: attributes/access options
pub mod alloc_flags;
pub mod kfd_smi_event;
/// The reason of the page migration event
pub mod kfd_migrate_triggers;
/// The reason of user queue eviction event
pub mod kfd_queue_eviction_triggers;
/// The reason of unmap buffer from GPU event
pub mod kfd_svm_unmap_triggers;
pub mod kfd_ioctl_svm_flag;
pub mod kfd_ioctl_svm_location;
pub mod kfd_ioctl_svm_attr_type;

verus! {

pub type QueueId = u32;

/// An error number, as the kernel reports it.
pub type Errno = i32;
pub type GpuId = u32;
pub type MemoryHandle = u64;
pub type AllocMemFlag = u32;
pub type VirtualAddress = u64;

#[derive(Debug, Default)]
pub struct KfdVersion {
    pub major: u32,
    pub minor: u32,
}

pub type QueueType = u32;
pub const COMPUTE: QueueType = 0;
pub const SDMA: QueueType = 1;
pub const COMPUTE_AQL: QueueType = 2;
pub const SDMA_XGMI: QueueType = 3;
pub const SDMA_BY_ENG_ID: QueueType = 4;


#[derive(Debug, Default)]
pub struct KfdIoctlCreateQueueArgs {
    pub ring_base_address: u64,     // to KFD
    pub write_pointer_address: u64, // to KFD
    pub read_pointer_address: u64,  // to KFD
    pub doorbell_offset: u64,       // from KFD

    pub ring_size: u32,        // to KFD
    pub gpu_id: GpuId,         // to KFD
    pub queue_type: QueueType, // to KFD
    pub queue_percentage: u32, // to KFD
    pub queue_priority: u32,   // to KFD
    pub queue_id: QueueId,     // from KFD

    pub eop_buffer_address: u64,       // to KFD
    pub eop_buffer_size: u64,          // to KFD
    pub ctx_save_restore_address: u64, // to KFD
    pub ctx_save_restore_size: u32,    // to KFD
    pub ctl_stack_size: u32,           // to KFD
    pub sdma_engine_id: u32,           // to KFD
    pub pad: u32,
}

#[derive(Debug, Default)]
pub struct KfdIoctlDestroyQueueArgs {
    pub queue_id: QueueId, // to KFD
    pub pad: u32,
}

pub type MiscProcessFlags = u32;
pub const KFD_PROC_FLAG_MFMA_HIGH_PRECISION: MiscProcessFlags = 1 << 0;

pub struct KfdIoctlSetMemoryPolicyArgs {
    pub alternate_aperture_base: usize,
    pub alternate_aperture_size: usize,
    pub gpu_id: GpuId,
    pub default_policy: cache_policy::CachePolicy,
    pub alternate_policy: cache_policy::CachePolicy,
    pub misc_process_flag: MiscProcessFlags,
}

pub struct KfdIoctlGetClockCountersArgs {
    pub gpu_clock_counter: u64,
    pub cpu_clock_counter: u64,
    pub system_clock_counter: u64,
    pub system_clock_freq: u64,
    pub gpu_id: GpuId,
    pub _pad: u32,
}

#[derive(Debug, Default, Clone, Copy)]
pub struct KfdProcessDeviceApertures {
    pub lds_base: u64,      // from KFD
    pub lds_limit: u64,     // from KFD
    pub scratch_base: u64,  // from KFD
    pub scratch_limit: u64, // from KFD
    pub gpuvm_base: u64,    // from KFD
    pub gpuvm_limit: u64,   // from KFD
    pub gpu_id: GpuId,      // from KFD
    pub _pad: u32,
}

#[derive(Debug, Default)]
pub struct KfdIoctlGetProcessAperturesArgs {
    pub process_apertures: [KfdProcessDeviceApertures; 7],
    pub num_of_nodes: u32,
    pub _pad: u32,
}

pub struct KfdIoctlUpdateQueueArgs {
    /// Ring base address (to KFD)
    pub ring_base_address: u64,
    /// Queue ID (to KFD)
    pub queue_id: QueueId,
    /// Ring size (to KFD)
    pub ring_size: u32,
    /// Queue percentage (to KFD)
    pub queue_percentage: u32,
    /// Queue priority (to KFD)
    pub queue_priority: u32,
}

pub type EventId = u32;
pub struct KfdIoctlCreateEventArgs {
    pub event_page_offset: u64,
    pub event_trigger_data: u32,
    pub event_type: event_type::EventType,
    pub auto_reset: u32,
    pub node_id: u32,
    pub event_id: EventId,
    pub event_slot_index: u32,
}

pub struct KfdIoctlDestroyEventArgs {
    pub event_id: EventId,
    pub _pad: u32,
}

pub struct KfdIoctlSetEventArgs {
    pub event_id: EventId,
    pub _pad: u32,
}

#[derive(Debug, Clone, Copy)]
pub struct KfdMemoryExceptionFailure {
    /// Page not present or supervisor privilege
    pub not_present: u32,
    /// Write access to a read-only page
    pub read_only: u32,
    /// Execute access to a page marked NX
    pub no_execute: u32,
    /// Can't determine the exact fault address
    pub imprecise: u32,
}


#[derive(Debug, Clone, Copy)]
pub struct KfdHsaMemoryExceptionData {
    pub failure: KfdMemoryExceptionFailure,
    pub va: VirtualAddress,
    pub gpu_id: GpuId,
    /// 0 = no RAS error, 1 = ECC_SRAM, 2 = Link_SYNFLOOD (poison),
    /// 3 = GPU hang (not attributable to a specific cause), other values reserved
    pub error_type: hsa_mem_exception::FailureType,
}


#[derive(Debug, Clone, Copy)]
pub struct KfdHsaHwExceptionData {
    pub reset_type: hw_reset_type::ResetType,
    pub reset_cause: hw_reset_cause::ResetCause,
    pub memory_lost: u32,
    pub gpu_id: GpuId,
}

#[derive(Debug, Clone, Copy)]
pub struct KfdHsaSignalEventData {
    pub last_event_age: u64,
}


pub struct KfdIoctlWaitEventsArgs {
    /// User-space address (*mut KfdEventData).
    pub events_ptr: u64,
    pub num_events: u32,
    pub wait_for_all: u32,
    /// In milicesonds
    pub timeout: u32,
    pub wait_result: wait_result::WaitResult,
}

pub struct KfdIoctlResetEventArgs {
    pub event_id: EventId,
    pub _pad: u32,
}

pub struct KfdIoctlDbgRegisterArgs {
    pub gpu_id: GpuId,
    pub _pad: u32,
}

pub struct KfdIoctlDbgUnregisterArgs {
    pub gpu_id: GpuId,
    pub _pad: u32,
}

pub struct KfdIoctlDbgAddressWatchArgs {
    /// User-space address (*const c_void).
    pub content_ptr: u64, // a pointer to the actual content
    pub gpu_id: GpuId,
    pub buf_size_in_bytes: u32,
}

pub struct KfdIoctlDbgWaveControlArgs {
    /// User-space address (*const c_void).
    pub content_ptr: u64,
    pub gpu_id: GpuId,
    pub buf_size_in_bytes: u32,
}

pub struct KfdIoctlSetScratchBackingVaArgs {
    pub va_addr: VirtualAddress, // to KFD
    pub gpu_id: GpuId,           // to KFD
    pub _pad: u32,
}

pub struct KfdIoctlGetTileConfigArgs {
    /// to KFD: pointer to tile array
    /// User-space address (*const c_void).
    pub tile_config_ptr: u64,
    /// to KFD: pointer to macro tile array
    /// User-space address (*const c_void).
    pub macro_tile_config_ptr: u64,
    /// to KFD: array size allocated by user mode
    /// from KFD: array size filled by kernel
    pub num_tile_configs: u32,
    /// to KFD: array size allocated by user mode
    /// from KFD: array size filled by kernel
    pub num_macro_tile_configs: u32,
    pub gpu_id: GpuId,       // to KFD
    pub gb_addr_config: u32, // from KFD
    pub num_banks: u32,      // from KFD
    pub num_ranks: u32,      // from KFD
}

pub struct KfdIoctlSetTrapHandlerArgs {
    pub tba_addr: VirtualAddress, // to KFD
    pub tma_addr: VirtualAddress, // to KFD
    pub gpu_id: GpuId,            // to KFD
    pub _pad: u32,
}

#[derive(Debug, Default)]
pub struct KfdIoctlGetProcessAperturesNewArgs {
    // User allocated. Pointer to struct kfd_process_device_apertures      * filled in by Kernel
    /// User-space address (*mut KfdProcessDeviceApertures).
    pub kfd_process_device_apertures_ptr: u64,
    // to KFD - indicates amount of memory present in      *  kfd_process_device_apertures_ptr      * from KFD - Number of entries filled by KFD.
    pub num_of_nodes: u32,
    pub _pad: u32,
}

#[derive(Debug, Default)]
pub struct KfdIoctlAcquireVmArgs {
    pub drm_fd: i32,
    pub gpu_id: GpuId,
}

#[derive(Debug, Default)]
pub struct KfdIoctlAllocMemoryOfGpuArgs {
    pub va_addr: VirtualAddress, // to KFD
    pub size: usize,             // to KFD
    pub handle: MemoryHandle,    // from KFD
    pub mmap_offset: u64,        // to KFD (userptr), from KFD (mmap offset)
    pub gpu_id: u32,             // to KFD
    pub flags: AllocMemFlag,
}


#[derive(Debug, Default)]
pub struct KfdIoctlFreeMemoryOfGpuArgs {
    pub handle: MemoryHandle, // to KFD
}

#[derive(Debug, Default)]
pub struct KfdIoctlMapMemoryToGpuArgs {
    pub handle: MemoryHandle,      // to KFD
    pub device_ids_array_ptr: u64, // to KFD
    pub n_devices: u32,            // to KFD
    pub n_success: u32,            // to/from KFD
}

#[derive(Debug, Default)]
pub struct KfdIoctlUnmapMemoryFromGpuArgs {
    pub handle: MemoryHandle,      // to KFD
    pub device_ids_array_ptr: u64, // to KFD
    pub n_devices: u32,            // to KFD
    pub n_success: u32,            // to/from KFD
}

pub struct KfdIoctlSetCuMaskArgs {
    pub queue_id: QueueId, // to KFD
    /// Bit count (len() * 32)
    pub num_cu_mask: u32, // to KFD
    /// User-space address (*const u32).
    pub cu_mask_ptr: u64, // to KFD
}

pub struct KfdIoctlGetQueueWaveStateArgs {
    pub ctl_stack_address: u64,   // to KFD
    pub ctl_stack_used_size: u32, // from KFD
    pub save_area_used_size: u32, // from KFD
    pub queue_id: QueueId,        // to KFD
    pub _pad: u32,
}

#[derive(Debug, Default)]
pub struct KfdIoctlGetDmabufInfoArgs {
    /// Underlying buffer size in bytes
    pub size: u64, // from KFD
    /// Ptr to user allocated memory, where the currntly set metadata
    /// will be copied to,
    pub metadata_ptr: u64, // to KFD
    pub metadata_size: u32, // to KFD (space allocated by user)                              * from KFD (actual metadata size)
    pub gpu_id: GpuId,    // from KFD
    pub flags: u32,       // from KFD (KFD_IOC_ALLOC_MEM_FLAGS)
    pub dmabuf_fd: i32, // to KFD
}

#[derive(Debug, Default)]
pub struct KfdIoctlImportDmabufArgs {
    pub va_addr: VirtualAddress, // to KFD
    pub handle: MemoryHandle,    // from KFD
    pub gpu_id: GpuId,           // to KFD
    pub dmabuf_fd: i32,        // to KFD
}

pub struct KfdIoctlAllocQueueGwsArgs {
    pub queue_id: QueueId, // to KFD
    pub num_gws: u32,      // to KFD
    pub first_gws: u32,    // from KFD
    pub _pad: u32,
}





pub const KFD_SMI_EVENT_MSG_SIZE: usize = 96;

pub struct KfdIoctlSmiEventsArgs {
    pub gpuid: GpuId,   // to KFD
    pub anon_fd: i32, // from KFD
}


/// Must be used **only** for input to amdgpu
pub enum KfdIoctlSvmOp {
    SetAttr,
    Get,
}



pub struct KfdIoctlSvmAttribute {
    pub type_: kfd_ioctl_svm_attr_type::Type,
    pub value: u32,
}

pub struct KfdIoctlSvmArgs {
    pub start_addr: u64,
    pub size: usize,
    pub op: KfdIoctlSvmOp,
    pub nattr: u32,
    pub attrs: [KfdIoctlSvmAttribute; 0],
}

#[derive(Debug, Default)]
pub struct KfdIoctlGetAvailableMemoryArgs {
    pub available: usize, // from KFD
    pub gpu_id: GpuId,    // to KFD
    pub _pad: u32,
}

#[derive(Debug, Default)]
pub struct KfdIoctlExportDmabufArgs {
    pub handle: MemoryHandle, // to KFD
    pub flags: u32,           // to KFD
    pub dmabuf_fd: i32,     // from KFD
}

#[derive(Debug, Default)]
pub struct KfdIoctlRuntimeEnableArgs {
    pub r_debug: u64,
    pub mode_mask: u32,
    pub capabilities_mask: u32,
}

impl KfdIoctlSvmOp {
    /// The value the kernel interface gives this variant.
    pub open spec fn spec_value(self) -> u32 {
        match self {
            KfdIoctlSvmOp::SetAttr => 0u32,
            KfdIoctlSvmOp::Get => 1u32,
        }
    }

    pub fn value(&self) -> (r: u32)
        ensures
            r == self.spec_value(),
    {
        match self {
            KfdIoctlSvmOp::SetAttr => 0,
            KfdIoctlSvmOp::Get => 1,
        }
    }
}

/// The kernel header's numbers for the `KFD_IOCTL_SVM_OP_*` operations, one for each variant, and
/// no two variants with one number.
pub proof fn lemma_kfd_ioctl_svm_op_numbers()
    ensures
        KfdIoctlSvmOp::SetAttr.spec_value() == 0u32,
        KfdIoctlSvmOp::Get.spec_value() == 1u32,
        forall|a: KfdIoctlSvmOp, b: KfdIoctlSvmOp| #[trigger] a.spec_value() == #[trigger] b.spec_value() ==> a == b,
{
}

} // verus!
