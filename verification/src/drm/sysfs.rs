use vstd::prelude::*;
use vstd::string::StringSliceAdditionalSpecFns;

use crate::text::{dec, fmt_dec, push_all};

verus! {

pub const DRM_CLASS: &'static str = "/sys/class/drm";

pub const DEV_DRI: &'static str = "/dev/dri";

pub const DEBUGFS_DRI: &'static str = "/sys/kernel/debug/dri";

pub const SYS_DEV_CHAR: &'static str = "/sys/dev/char";

/// A DRM device, known by the canonical path of its device in sysfs.
#[derive(Debug, Clone, PartialEq, Eq, PartialOrd, Ord, Hash)]
pub struct DrmDeviceIdentity {
    sysfs_device: Vec<u8>,
}

impl View for DrmDeviceIdentity {
    type V = Seq<u8>;

    closed spec fn view(&self) -> Seq<u8> {
        self.sysfs_device@
    }
}

impl DrmDeviceIdentity {
    /// The device whose canonical sysfs path is `sysfs_device`.
    pub fn new(sysfs_device: Vec<u8>) -> (r: Self)
        ensures
            r@ == sysfs_device@,
    {
        DrmDeviceIdentity { sysfs_device }
    }

    pub fn same_device(&self, other: &Self) -> (r: bool)
        ensures
            r == (self@ == other@),
    {
        let a = &self.sysfs_device;
        let b = &other.sysfs_device;
        if a.len() != b.len() {
            assert(a@.len() != b@.len());
            return false;
        }
        let mut i: usize = 0;
        while i < a.len()
            invariant
                a@ == self@,
                b@ == other@,
                a@.len() == b@.len(),
                i <= a@.len(),
                forall|j: int| 0 <= j < i ==> a@[j] == b@[j],
            decreases a@.len() - i,
        {
            if a[i] != b[i] {
                assert(a@[i as int] != b@[i as int]);
                assert(a@ != b@);
                return false;
            }
            i += 1;
        }
        assert(a@ =~= b@);
        true
    }

    /// The canonical sysfs path of the device.
    pub fn sysfs_device(&self) -> (r: &[u8])
        ensures
            r@ == self@,
    {
        self.sysfs_device.as_slice()
    }
}

/// The major number of a Linux device number.
pub fn linux_dev_major(dev_t: u64) -> (r: u32)
    ensures
        r == ((((dev_t >> 8u64) & 0xfff) | ((dev_t >> 32u64) & !0xfffu64)) as u32),
{
    (((dev_t >> 8) & 0xfff) | ((dev_t >> 32) & !0xfff)) as u32
}

/// The minor number of a Linux device number.
pub fn linux_dev_minor(dev_t: u64) -> (r: u32)
    ensures
        r == (((dev_t & 0xff) | ((dev_t >> 12u64) & !0xffu64)) as u32),
{
    ((dev_t & 0xff) | ((dev_t >> 12) & !0xff)) as u32
}

/// Splitting a device number made by the kernel's `makedev` gives back its
/// major and minor numbers.
pub proof fn lemma_dev_numbers(major: u32, minor: u32)
    ensures
        ({
            let dev = (((major as u64) & 0xfffu64) << 8u64) | (((major as u64) & !0xfffu64) << 32u64) | ((
            minor as u64) & 0xffu64) | (((minor as u64) & !0xffu64) << 12u64);
            &&& ((((dev >> 8u64) & 0xfff) | ((dev >> 32u64) & !0xfffu64)) as u32) == major
            &&& (((dev & 0xff) | ((dev >> 12u64) & !0xffu64)) as u32) == minor
        }),
{
    let ma = major as u64;
    let mi = minor as u64;
    assert({
        let dev = ((ma & 0xfffu64) << 8u64) | ((ma & !0xfffu64) << 32u64) | (mi & 0xffu64) | ((mi & !0xffu64)
            << 12u64);
        &&& ((((dev >> 8u64) & 0xfff) | ((dev >> 32u64) & !0xfffu64)) as u32) == major
        &&& (((dev & 0xff) | ((dev >> 12u64) & !0xffu64)) as u32) == minor
    }) by (bit_vector)
        requires
            ma == major as u64,
            mi == minor as u64,
    ;
}

/// `base` with `name` appended as `PathBuf::push` does it: with a `/`
/// between them unless `base` is empty or ends in one.
pub open spec fn path_join(base: Seq<u8>, name: Seq<u8>) -> Seq<u8> {
    if base.len() == 0 || base.last() == 0x2fu8 {
        base + name
    } else {
        base.push(0x2fu8) + name
    }
}

/// The sysfs link to the device of a character device number, below the
/// directory `sys_dev_char`: `<sys_dev_char>/<major>:<minor>/device`.
pub open spec fn device_link(sys_dev_char: Seq<u8>, dev_t: u64) -> Seq<u8> {
    let major = ((((dev_t >> 8u64) & 0xfff) | ((dev_t >> 32u64) & !0xfffu64)) as u32);
    let minor = (((dev_t & 0xff) | ((dev_t >> 12u64) & !0xffu64)) as u32);
    path_join(
        path_join(sys_dev_char, dec(major as nat) + ":".spec_bytes() + dec(minor as nat)),
        "device".spec_bytes(),
    )
}

fn path_join_exec(base: &mut Vec<u8>, name: &[u8])
    ensures
        final(base)@ == path_join(old(base)@, name@),
{
    let n = base.len();
    if !(n == 0 || base[n - 1] == 0x2f) {
        base.push(0x2f);
    }
    push_all(base, name);
}

/// The sysfs link to the device of the character device `dev_t`.
pub fn device_link_path(sys_dev_char: &[u8], dev_t: u64) -> (r: Vec<u8>)
    ensures
        r@ == device_link(sys_dev_char@, dev_t),
{
    let mut node: Vec<u8> = Vec::new();
    let major = fmt_dec(linux_dev_major(dev_t));
    push_all(&mut node, major.as_slice());
    push_all(&mut node, ":".as_bytes());
    let minor = fmt_dec(linux_dev_minor(dev_t));
    push_all(&mut node, minor.as_slice());
    let mut path: Vec<u8> = Vec::new();
    push_all(&mut path, sys_dev_char);
    path_join_exec(&mut path, node.as_slice());
    path_join_exec(&mut path, "device".as_bytes());
    path
}

} // verus!
