pub mod structs;

pub use structs::{vblank, crtc_sequence, syncobj_create, syncobj_handle_flags, syncobj_wait, syncobj_query, ObjectId, LeaseId, Magic, Unique, Version, Auth, Client, SetVersion, SetClientCap, GemClose, GemFlink, GemOpen, GemChangeHandle, GetCap, PrimeHandle, WaitVblankRequest, WaitVblankReply, CrtcGetSequence, CrtcQueueSequence, SyncobjCreate, SyncobjDestroy, SyncobjHandle, SyncobjTransfer, SyncobjWait, SyncobjTimelineWait, SyncobjEventfd, SyncobjArray, SyncobjTimelineArray, DISPLAY_MODE_LEN, PROP_NAME_LEN, ModeInfo, ModeCardRes, ModeCrtc, ModeCursor, ModeCrtcLut, ModeGetEncoder, ModeGetConnector, ModePropertyEnum, ModeGetProperty, ModeConnectorSetProperty, ModeObjGetProperties, ModeObjSetProperty, ModeGetBlob, ModeFbCmd, ModeRmfb, ModeCrtcPageFlip, ModeFbDirtyCmd, ModeCreateDumb, ModeMapDumb, ModeDestroyDumb, ModeGetPlaneRes, ModeGetPlane, ModeSetPlane, ModeFbCmd2, ModeCursor2, ModeAtomic, ModeCreateBlob, ModeDestroyBlob, ModeCloseFb, CreateLease, ListLessees, GetLease, RevokeLease, CLIENT_NAME_MAX_LEN, SetClientName};
