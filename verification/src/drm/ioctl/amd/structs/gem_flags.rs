use vstd::prelude::*;

verus! {

pub type Type = u64;
/// Flag that CPU access will be required for the case of VRAM domain
pub const CPU_ACCESS_REQUIRED: Type = 1 << 0;
/// Flag that CPU access will not work, this VRAM domain is invisible
pub const NO_CPU_ACCESS: Type = 1 << 1;
/// Flag that USWC attributes should be used for GTT
pub const CPU_GTT_USWC: Type = 1 << 2;
/// Flag that the memory should be in VRAM and cleared
pub const VRAM_CLEARED: Type = 1 << 3;
/// Flag that allocating the BO should use linear VRAM
pub const VRAM_CONTIGUOUS: Type = 1 << 5;
/// Flag that BO is always valid in this VM
pub const VM_ALWAYS_VALID: Type = 1 << 6;
/// Flag that BO sharing will be explicitly synchronized
pub const EXPLICIT_SYNC: Type = 1 << 7;
/// Flag that indicates allocating MQD gart on GFX9, where the mtype
/// for the second page onward should be set to NC. It should never
/// be used by user space applications.
pub const CP_MQD_GFX9: Type = 1 << 8;
/// Flag that BO may contain sensitive data that must be wiped before
/// releasing the memory
pub const VRAM_WIPE_ON_RELEASE: Type = 1 << 9;
/// Flag that BO will be encrypted and that the TMZ bit should be
/// set in the PTEs when mapping this buffer via GPUVM or
/// accessing it with various hw blocks
pub const ENCRYPTED: Type = 1 << 10;
/// Flag that BO will be used only in preemptible context, which does
/// not require GTT memory accounting
pub const PREEMPTIBLE: Type = 1 << 11;
/// Flag that BO can be discarded under memory pressure without keeping the
/// content.
pub const DISCARDABLE: Type = 1 << 12;
/// Flag that BO is shared coherently between multiple devices or CPU threads.
/// May depend on GPU instructions to flush caches to system scope explicitly.
///
/// This influences the choice of MTYPE in the PTEs on GFXv9 and later GPUs and
/// may override the MTYPE selected in AMDGPU_VA_OP_MAP.
pub const COHERENT: Type = 1 << 13;
/// Flag that BO should not be cached by GPU. Coherent without having to flush
/// GPU caches explicitly.
///
/// This influences the choice of MTYPE in the PTEs on GFXv9 and later GPUs and
/// may override the MTYPE selected in AMDGPU_VA_OP_MAP.
pub const UNCACHED: Type = 1 << 14;
/// Flag that BO should be coherent across devices when using device-level
/// atomics. May depend on GPU instructions to flush caches to device scope
/// explicitly, promoting them to system scope automatically.
///
/// This influences the choice of MTYPE in the PTEs on GFXv9 and later GPUs and
/// may override the MTYPE selected in AMDGPU_VA_OP_MAP.
pub const EXT_COHERENT: Type = 1 << 15;
/// Set PTE.D and recompress during GTT->VRAM moves according to TILING flags.
pub const GFX12_DCC: Type = 1 << 16;

} // verus!
