use vstd::prelude::*;
use crate::drm::{FlinkName, GemHandle, SyncobjHandle as SyncobjHandleId};

pub mod vblank;
pub mod crtc_sequence;
pub mod syncobj_create;
pub mod syncobj_handle_flags;
pub mod syncobj_wait;
pub mod syncobj_query;

verus! {

/// Id of a CRTC, connector or plane
pub type ObjectId = u32;

pub type LeaseId = u32;
pub type Magic = u32;

/// Legacy unique bus/device string buffer.
///
/// For GET_UNIQUE, `unique_len` is the caller-provided byte capacity of
/// `unique`. On return it is the kernel unique string length. The kernel only
/// copies bytes when the provided capacity is large enough.
#[derive(Debug, Default, Clone, Copy)]
pub struct Unique {
    pub unique_len: usize,
    /// User-space address (*mut u8).
    pub unique: u64,
}

#[derive(Debug, Clone, Copy)]
pub struct Version {
    pub major: i32,
    pub minor: i32,
    pub patchlevel: i32,
    pub name_len: usize,
    /// User-space address (*mut u8).
    pub name: u64,
    pub date_len: usize,
    /// User-space address (*mut u8).
    pub date: u64,
    pub desc_len: usize,
    /// User-space address (*mut u8).
    pub desc: u64,
}

#[derive(Debug, Default, Clone, Copy)]
pub struct Auth {
    pub magic: Magic,
}

#[derive(Debug, Default, Clone, Copy)]
pub struct Client {
    /// Set this to 0
    pub idx: i32,
    /// Is authenticated
    pub auth: i32,
    pub pid: u64,
    pub uid: u64,
    pub magic: u64,
    pub iocs: u64,
}

/// Requested DRM interface and driver versions.
///
/// Set either major field to `-1` to leave that side unchanged. On return,
/// all fields are overwritten with the supported DRM interface and driver
/// versions.
#[derive(Debug, Default, Clone, Copy)]
pub struct SetVersion {
    pub drm_major: i32,
    pub drm_minor: i32,
    pub device_major: i32,
    pub device_minor: i32,
}

/// Request to enable or disable a DRM client capability for this file.
#[derive(Debug, Default, Clone, Copy)]
pub struct SetClientCap {
    pub capability: u64,
    pub value: u64,
}

#[derive(Debug, Default, Clone, Copy)]
pub struct GemClose {
    pub handle: GemHandle,
    pub pad: u32,
}

#[derive(Debug, Default, Clone, Copy)]
pub struct GemFlink {
    pub handle: GemHandle,
    pub name: FlinkName,
}

#[derive(Debug, Default, Clone, Copy)]
pub struct GemOpen {
    pub name: FlinkName,
    pub handle: GemHandle,
    pub size: usize,
}

/// Move a GEM object to a different handle number.
///
/// `new_handle` must be unused. On success `handle` is closed, and future
/// ioctls must use `new_handle`.
#[derive(Debug, Default, Clone, Copy)]
pub struct GemChangeHandle {
    pub handle: GemHandle,
    pub new_handle: GemHandle,
}

#[derive(Debug, Default, Clone, Copy)]
pub struct GetCap {
    pub capability: u64,
    pub value: u64,
}

#[derive(Debug, Default, Clone, Copy)]
pub struct PrimeHandle {
    pub handle: GemHandle,
    /// open() flags for dmabuf fd
    pub flags: u32,
    /// Returned dmabuf file descriptor
    pub fd: i32,
}


#[derive(Debug, Copy, Clone)]
pub struct WaitVblankRequest {
    pub type_: vblank::VblankSeqType,
    pub sequence: u32,
    pub signal: u64,
}

#[derive(Debug, Copy, Clone)]
pub struct WaitVblankReply {
    pub type_: vblank::VblankSeqType,
    pub sequence: u32,
    pub tval_sec: u64,
    pub tval_usec: u64,
}

/// Query the current scanout sequence number for a CRTC.
#[derive(Debug, Default, Clone, Copy)]
pub struct CrtcGetSequence {
    pub crtc_id: ObjectId,
    /// Non-zero if the CRTC output is active.
    pub active: u32,
    /// Returned most recent vblank sequence.
    pub sequence: u64,
    /// Returned timestamp of the most recent first-pixel-out event, in ns.
    pub sequence_ns: i64,
}


/// Queue a CRTC sequence event.
#[derive(Debug, Default, Clone, Copy)]
pub struct CrtcQueueSequence {
    pub crtc_id: ObjectId,
    pub flags: crtc_sequence::CrtcSequenceFlags,
    /// Input target sequence; output actual queued sequence.
    pub sequence: u64,
    /// User data copied into the delivered event.
    pub user_data: u64,
}


/// Create a DRM sync object.
#[derive(Debug, Default, Clone, Copy)]
pub struct SyncobjCreate {
    /// Returned syncobj handle.
    pub handle: SyncobjHandleId,
    pub flags: u32,
}

/// Destroy a DRM sync object handle.
#[derive(Debug, Default, Clone, Copy)]
pub struct SyncobjDestroy {
    pub handle: SyncobjHandleId,
    pub pad: u32,
}


/// Import or export a syncobj as an fd.
#[derive(Debug, Default, Clone, Copy)]
pub struct SyncobjHandle {
    pub handle: SyncobjHandleId,
    pub flags: u32,
    pub fd: i32,
    pub pad: u32,
    pub point: u64,
}

/// Transfer a fence from one sync object point to another.
#[derive(Debug, Default, Clone, Copy)]
pub struct SyncobjTransfer {
    pub src_handle: SyncobjHandleId,
    pub dst_handle: SyncobjHandleId,
    pub src_point: u64,
    pub dst_point: u64,
    pub flags: u32,
    pub pad: u32,
}


/// Wait for one or more binary sync objects.
#[derive(Debug, Default, Clone, Copy)]
pub struct SyncobjWait {
    /// Pointer to an array of syncobj handles.
    /// User-space address (*mut SyncobjHandleId).
    pub handles: u64,
    /// Absolute timeout in ns.
    pub timeout_nsec: i64,
    pub count_handles: u32,
    pub flags: u32,
    /// First signaled index; only valid without WAIT_ALL.
    pub first_signaled: u32,
    pub pad: u32,
    /// Absolute CLOCK_MONOTONIC deadline hint when WAIT_DEADLINE is set.
    pub deadline_nsec: u64,
}

/// Wait for one or more timeline sync object points.
#[derive(Debug, Default, Clone, Copy)]
pub struct SyncobjTimelineWait {
    /// Pointer to an array of syncobj handles.
    /// User-space address (*mut SyncobjHandleId).
    pub handles: u64,
    /// Pointer to an array of timeline points.
    /// User-space address (*mut u64).
    pub points: u64,
    /// Absolute timeout in ns.
    pub timeout_nsec: i64,
    pub count_handles: u32,
    pub flags: u32,
    /// First signaled index; only valid without WAIT_ALL.
    pub first_signaled: u32,
    pub pad: u32,
    /// Absolute CLOCK_MONOTONIC deadline hint when WAIT_DEADLINE is set.
    pub deadline_nsec: u64,
}

/// Register an eventfd to be signalled by a syncobj.
#[derive(Debug, Default, Clone, Copy)]
pub struct SyncobjEventfd {
    pub handle: SyncobjHandleId,
    pub flags: u32,
    pub point: u64,
    pub fd: i32,
    /// Must be zero.
    pub pad: u32,
}

/// Array of binary sync object handles.
#[derive(Debug, Default, Clone, Copy)]
pub struct SyncobjArray {
    /// Pointer to an array of syncobj handles.
    /// User-space address (*mut SyncobjHandleId).
    pub handles: u64,
    pub count_handles: u32,
    pub pad: u32,
}


/// Array of timeline sync object handles and points.
#[derive(Debug, Default, Clone, Copy)]
pub struct SyncobjTimelineArray {
    /// Pointer to an array of syncobj handles.
    /// User-space address (*mut SyncobjHandleId).
    pub handles: u64,
    /// Pointer to an array of timeline points. For query this is output.
    /// User-space address (*mut u64).
    pub points: u64,
    pub count_handles: u32,
    pub flags: u32,
}

pub const DISPLAY_MODE_LEN: usize = 32;
pub const PROP_NAME_LEN: usize = 32;

/// Display mode information used by KMS mode ioctls.
#[derive(Debug, Default, Clone, Copy)]
pub struct ModeInfo {
    pub clock: u32,
    pub hdisplay: u16,
    pub hsync_start: u16,
    pub hsync_end: u16,
    pub htotal: u16,
    pub hskew: u16,
    pub vdisplay: u16,
    pub vsync_start: u16,
    pub vsync_end: u16,
    pub vtotal: u16,
    pub vscan: u16,
    pub vrefresh: u32,
    pub flags: u32,
    pub type_: u32,
    pub name: [u8; DISPLAY_MODE_LEN],
}

/// KMS object ID lists and global min/max framebuffer dimensions.
#[derive(Debug, Default, Clone, Copy)]
pub struct ModeCardRes {
    /// User-space address (*mut ObjectId).
    pub fb_id_ptr: u64,
    /// User-space address (*mut ObjectId).
    pub crtc_id_ptr: u64,
    /// User-space address (*mut ObjectId).
    pub connector_id_ptr: u64,
    /// User-space address (*mut ObjectId).
    pub encoder_id_ptr: u64,
    pub count_fbs: u32,
    pub count_crtcs: u32,
    pub count_connectors: u32,
    pub count_encoders: u32,
    pub min_width: u32,
    pub max_width: u32,
    pub min_height: u32,
    pub max_height: u32,
}

/// Get or set CRTC state.
#[derive(Debug, Default, Clone, Copy)]
pub struct ModeCrtc {
    /// User-space address (*mut ObjectId).
    pub set_connectors_ptr: u64,
    pub count_connectors: u32,
    pub crtc_id: ObjectId,
    pub fb_id: ObjectId,
    pub x: u32,
    pub y: u32,
    pub gamma_size: u32,
    pub mode_valid: u32,
    pub mode: ModeInfo,
}

/// Legacy cursor update.
#[derive(Debug, Default, Clone, Copy)]
pub struct ModeCursor {
    pub flags: u32,
    pub crtc_id: ObjectId,
    pub x: i32,
    pub y: i32,
    pub width: u32,
    pub height: u32,
    pub handle: GemHandle,
}

/// CRTC gamma lookup table pointers.
#[derive(Debug, Default, Clone, Copy)]
pub struct ModeCrtcLut {
    pub crtc_id: ObjectId,
    pub gamma_size: u32,
    /// User-space address (*mut u16).
    pub red: u64,
    /// User-space address (*mut u16).
    pub green: u64,
    /// User-space address (*mut u16).
    pub blue: u64,
}

/// KMS encoder metadata.
#[derive(Debug, Default, Clone, Copy)]
pub struct ModeGetEncoder {
    pub encoder_id: ObjectId,
    pub encoder_type: u32,
    pub crtc_id: ObjectId,
    pub possible_crtcs: u32,
    pub possible_clones: u32,
}

/// KMS connector metadata and array query.
#[derive(Debug, Default, Clone, Copy)]
pub struct ModeGetConnector {
    /// User-space address (*mut ObjectId).
    pub encoders_ptr: u64,
    /// User-space address (*mut ModeInfo).
    pub modes_ptr: u64,
    /// User-space address (*mut ObjectId).
    pub props_ptr: u64,
    /// User-space address (*mut u64).
    pub prop_values_ptr: u64,
    pub count_modes: u32,
    pub count_props: u32,
    pub count_encoders: u32,
    pub encoder_id: ObjectId,
    pub connector_id: ObjectId,
    pub connector_type: u32,
    pub connector_type_id: u32,
    pub connection: u32,
    pub mm_width: u32,
    pub mm_height: u32,
    pub subpixel: u32,
    /// Must be zero.
    pub pad: u32,
}

/// One enum or bitmask entry for a property.
#[derive(Debug, Default, Clone, Copy)]
pub struct ModePropertyEnum {
    pub value: u64,
    pub name: [u8; PROP_NAME_LEN],
}

/// KMS property metadata and array query.
#[derive(Debug, Default, Clone, Copy)]
pub struct ModeGetProperty {
    /// User-space address (*mut u64).
    pub values_ptr: u64,
    /// User-space address (*mut ModePropertyEnum).
    pub enum_blob_ptr: u64,
    pub prop_id: ObjectId,
    pub flags: u32,
    pub name: [u8; PROP_NAME_LEN],
    pub count_values: u32,
    pub count_enum_blobs: u32,
}

/// Legacy connector property set request.
#[derive(Debug, Default, Clone, Copy)]
pub struct ModeConnectorSetProperty {
    pub value: u64,
    pub prop_id: ObjectId,
    pub connector_id: ObjectId,
}

/// Get properties attached to any KMS object.
#[derive(Debug, Default, Clone, Copy)]
pub struct ModeObjGetProperties {
    /// User-space address (*mut ObjectId).
    pub props_ptr: u64,
    /// User-space address (*mut u64).
    pub prop_values_ptr: u64,
    pub count_props: u32,
    pub obj_id: ObjectId,
    pub obj_type: u32,
}

/// Set a property on any KMS object.
#[derive(Debug, Default, Clone, Copy)]
pub struct ModeObjSetProperty {
    pub value: u64,
    pub prop_id: ObjectId,
    pub obj_id: ObjectId,
    pub obj_type: u32,
}

/// Read a KMS property blob.
#[derive(Debug, Default, Clone, Copy)]
pub struct ModeGetBlob {
    pub blob_id: ObjectId,
    pub length: u32,
    /// User-space address (*mut u8).
    pub data: u64,
}

/// Legacy single-plane framebuffer command.
#[derive(Debug, Default, Clone, Copy)]
pub struct ModeFbCmd {
    pub fb_id: ObjectId,
    pub width: u32,
    pub height: u32,
    pub pitch: u32,
    pub bpp: u32,
    pub depth: u32,
    pub handle: GemHandle,
}

/// Framebuffer object ID argument used by RMFB.
pub type ModeRmfb = u32;

/// Legacy page flip request.
#[derive(Debug, Default, Clone, Copy)]
pub struct ModeCrtcPageFlip {
    pub crtc_id: ObjectId,
    pub fb_id: ObjectId,
    pub flags: u32,
    /// Must be zero unless using page-flip target flags on newer kernels.
    pub reserved: u32,
    pub user_data: u64,
}

/// Dirty framebuffer update region request.
#[derive(Debug, Default, Clone, Copy)]
pub struct ModeFbDirtyCmd {
    pub fb_id: ObjectId,
    pub flags: u32,
    pub color: u32,
    pub num_clips: u32,
    /// User-space address (*mut u8).
    pub clips_ptr: u64,
}

/// Create a KMS dumb buffer object.
#[derive(Debug, Default, Clone, Copy)]
pub struct ModeCreateDumb {
    pub height: u32,
    pub width: u32,
    pub bpp: u32,
    /// Must be zero.
    pub flags: u32,
    /// Returned GEM handle.
    pub handle: GemHandle,
    /// Returned pitch in bytes.
    pub pitch: u32,
    /// Returned allocation size in bytes.
    pub size: u64,
}

/// Get the mmap offset for a dumb buffer.
#[derive(Debug, Default, Clone, Copy)]
pub struct ModeMapDumb {
    pub handle: GemHandle,
    pub pad: u32,
    /// Returned fake mmap offset.
    pub offset: u64,
}

/// Destroy a dumb buffer.
#[derive(Debug, Default, Clone, Copy)]
pub struct ModeDestroyDumb {
    pub handle: GemHandle,
}

/// Plane object ID list query.
#[derive(Debug, Default, Clone, Copy)]
pub struct ModeGetPlaneRes {
    /// User-space address (*mut ObjectId).
    pub plane_id_ptr: u64,
    pub count_planes: u32,
}

/// KMS plane metadata and format list query.
#[derive(Debug, Default, Clone, Copy)]
pub struct ModeGetPlane {
    pub plane_id: ObjectId,
    pub crtc_id: ObjectId,
    pub fb_id: ObjectId,
    pub possible_crtcs: u32,
    pub gamma_size: u32,
    pub count_format_types: u32,
    /// User-space address (*mut u32).
    pub format_type_ptr: u64,
}

/// Set a plane's framebuffer and source/destination rectangles.
#[derive(Debug, Default, Clone, Copy)]
pub struct ModeSetPlane {
    pub plane_id: ObjectId,
    pub crtc_id: ObjectId,
    pub fb_id: ObjectId,
    pub flags: u32,
    pub crtc_x: i32,
    pub crtc_y: i32,
    pub crtc_w: u32,
    pub crtc_h: u32,
    pub src_x: u32,
    pub src_y: u32,
    pub src_h: u32,
    pub src_w: u32,
}

/// Multi-plane framebuffer command used by ADDFB2 and GETFB2.
#[derive(Debug, Default, Clone, Copy)]
pub struct ModeFbCmd2 {
    pub fb_id: ObjectId,
    pub width: u32,
    pub height: u32,
    pub pixel_format: u32,
    pub flags: u32,
    pub handles: [GemHandle; 4],
    pub pitches: [u32; 4],
    pub offsets: [u32; 4],
    pub modifier: [u64; 4],
}

/// Cursor update with hotspot coordinates.
#[derive(Debug, Default, Clone, Copy)]
pub struct ModeCursor2 {
    pub flags: u32,
    pub crtc_id: ObjectId,
    pub x: i32,
    pub y: i32,
    pub width: u32,
    pub height: u32,
    pub handle: GemHandle,
    pub hot_x: i32,
    pub hot_y: i32,
}

/// Atomic KMS commit request.
#[derive(Debug, Default, Clone, Copy)]
pub struct ModeAtomic {
    pub flags: u32,
    pub count_objs: u32,
    /// User-space address (*mut ObjectId).
    pub objs_ptr: u64,
    /// User-space address (*mut u32).
    pub count_props_ptr: u64,
    /// User-space address (*mut ObjectId).
    pub props_ptr: u64,
    /// User-space address (*mut u64).
    pub prop_values_ptr: u64,
    /// Must be zero.
    pub reserved: u64,
    pub user_data: u64,
}

/// Create a user property blob.
#[derive(Debug, Default, Clone, Copy)]
pub struct ModeCreateBlob {
    /// User-space address (*const u8).
    pub data: u64,
    pub length: u32,
    /// Returned blob object ID.
    pub blob_id: ObjectId,
}

/// Destroy a user property blob.
#[derive(Debug, Default, Clone, Copy)]
pub struct ModeDestroyBlob {
    pub blob_id: ObjectId,
}

/// Close a framebuffer object without disabling active planes.
#[derive(Debug, Default, Clone, Copy)]
pub struct ModeCloseFb {
    pub fb_id: ObjectId,
    pub pad: u32,
}

/// struct drm_mode_create_lease - Create lease
///
/// Lease mode resources, creating another drm_master.
///
/// The @object_ids array must reference at least one CRTC, one connector and
/// one plane if &DRM_CLIENT_CAP_UNIVERSAL_PLANES is enabled. Alternatively,
/// the lease can be completely empty.
#[derive(Debug, Default, Clone, Copy)]
pub struct CreateLease {
    /// @object_ids: Pointer to array of object ids (__u32)
    /// User-space address (*const ObjectId).
    pub object_ids: u64,
    /// @object_count: Number of object ids
    pub object_count: u32,
    /// @flags: flags for new FD (O_CLOEXEC, etc)
    pub flags: i32,

    /// @lessee_id: Return: unique identifier for lessee.
    pub lessee_id: LeaseId,
    /// @fd: Return: file descriptor to new drm_master file
    pub fd: i32,
}

#[derive(Debug, Default, Clone, Copy)]
pub struct ListLessees {
    /// * @count_lessees: Number of lessees.      *      * On input, provides length of the array.      * On output, provides total number. No      * more than the input number will be written      * back, so two calls can be used to get      * the size and then the data.
    pub count_lessees: u32,
    /// @pad: Padding.
    pub pad: u32,

    /// * @lessees_ptr: Pointer to lessees.      *      * Pointer to __u64 array of lessee ids
    /// User-space address (*mut LeaseId).
    pub lessees_ptr: u64,
}

#[derive(Debug, Default, Clone, Copy)]
pub struct GetLease {
    /// * @count_objects: Number of leased objects.      *      * On input, provides length of the array.      * On output, provides total number. No      * more than the input number will be written      * back, so two calls can be used to get      * the size and then the data.
    pub count_objects: u32,
    /// @pad: Padding.
    pub pad: u32,

    /// * @objects_ptr: Pointer to objects.      *      * Pointer to __u32 array of object ids.
    /// User-space address (*mut ObjectId).
    pub objects_ptr: u64,
}

#[derive(Debug, Default, Clone, Copy)]
pub struct RevokeLease {
    /// @lessee_id: Unique ID of lessee
    pub lessee_id: LeaseId,
}

pub const CLIENT_NAME_MAX_LEN: usize = 64;
#[derive(Debug, Default, Clone, Copy)]
pub struct SetClientName {
    pub name_len: usize,
    /// User-space address (*const u8).
    pub name: u64,
}


} // verus!
