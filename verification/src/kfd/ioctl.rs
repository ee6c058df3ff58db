pub mod structs;

pub use structs::{queue_limits, cache_policy, event_type, hsa_mem_exception, hw_reset_type, hw_reset_cause, wait_result, alloc_domain, alloc_flags, kfd_smi_event, kfd_migrate_triggers, kfd_queue_eviction_triggers, kfd_svm_unmap_triggers, kfd_ioctl_svm_flag, kfd_ioctl_svm_location, kfd_ioctl_svm_attr_type, QueueId, Errno, GpuId, MemoryHandle, AllocMemFlag, VirtualAddress, KfdVersion, QueueType, COMPUTE, SDMA, COMPUTE_AQL, SDMA_XGMI, SDMA_BY_ENG_ID, KfdIoctlCreateQueueArgs, KfdIoctlDestroyQueueArgs, MiscProcessFlags, KFD_PROC_FLAG_MFMA_HIGH_PRECISION, KfdIoctlSetMemoryPolicyArgs, KfdIoctlGetClockCountersArgs, KfdProcessDeviceApertures, KfdIoctlGetProcessAperturesArgs, KfdIoctlUpdateQueueArgs, EventId, KfdIoctlCreateEventArgs, KfdIoctlDestroyEventArgs, KfdIoctlSetEventArgs, KfdMemoryExceptionFailure, KfdHsaMemoryExceptionData, KfdHsaHwExceptionData, KfdHsaSignalEventData, KfdIoctlWaitEventsArgs, KfdIoctlResetEventArgs, KfdIoctlDbgRegisterArgs, KfdIoctlDbgUnregisterArgs, KfdIoctlDbgAddressWatchArgs, KfdIoctlDbgWaveControlArgs, KfdIoctlSetScratchBackingVaArgs, KfdIoctlGetTileConfigArgs, KfdIoctlSetTrapHandlerArgs, KfdIoctlGetProcessAperturesNewArgs, KfdIoctlAcquireVmArgs, KfdIoctlAllocMemoryOfGpuArgs, KfdIoctlFreeMemoryOfGpuArgs, KfdIoctlMapMemoryToGpuArgs, KfdIoctlUnmapMemoryFromGpuArgs, KfdIoctlSetCuMaskArgs, KfdIoctlGetQueueWaveStateArgs, KfdIoctlGetDmabufInfoArgs, KfdIoctlImportDmabufArgs, KfdIoctlAllocQueueGwsArgs, KFD_SMI_EVENT_MSG_SIZE, KfdIoctlSmiEventsArgs, KfdIoctlSvmOp, KfdIoctlSvmAttribute, KfdIoctlSvmArgs, KfdIoctlGetAvailableMemoryArgs, KfdIoctlExportDmabufArgs, KfdIoctlRuntimeEnableArgs};

use vstd::prelude::*;

verus! {

/// The ioctl type of KFD ioctls, `'K'`.
pub const AMDKFD_IOCTL_BASE: u32 = 0x4b;

} // verus!
