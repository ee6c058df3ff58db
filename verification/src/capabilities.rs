use vstd::prelude::*;
use std::marker::PhantomData;
use std::rc::Rc;

verus! {

/// A set of Linux capabilities, one bit per capability.
pub type CapSet = u64;

/// The value of `CAP_*` constants: bit `index`.
pub open spec fn cap_bit(index: u64) -> CapSet {
    1u64 << index
}

/// The capability sets of a thread as the kernel's version 3 `capget`
/// layout has them: each 64-bit set split into its low half (`_s0`) and
/// its high half (`_s1`).
#[derive(Clone, Copy, Default)]
pub struct CapUserData {
    pub effective_s0: u32,
    pub permitted_s0: u32,
    pub inheritable_s0: u32,
    pub effective_s1: u32,
    pub permitted_s1: u32,
    pub inheritable_s1: u32,
}

/// The 64-bit set made of two 32-bit halves.
pub open spec fn join_halves(hi: u32, lo: u32) -> u64 {
    ((hi as u64) << 32u64) | (lo as u64)
}

impl CapUserData {
    pub open spec fn effective_set(self) -> CapSet {
        join_halves(self.effective_s1, self.effective_s0)
    }

    pub open spec fn permitted_set(self) -> CapSet {
        join_halves(self.permitted_s1, self.permitted_s0)
    }

    pub open spec fn inheritable_set(self) -> CapSet {
        join_halves(self.inheritable_s1, self.inheritable_s0)
    }
}

pub fn two_u32_to_u64_little_endian(hi: u32, lo: u32) -> (r: u64)
    ensures
        r == join_halves(hi, lo),
{
    (hi as u64) << 32 | (lo as u64)
}

/// `current_caps` holds every capability of `desired_caps`.
pub open spec fn spec_has_all_caps(current_caps: CapSet, desired_caps: CapSet) -> bool {
    desired_caps == (desired_caps & current_caps)
}

pub fn has_all_caps(current_caps: CapSet, desired_caps: CapSet) -> (r: bool)
    ensures
        r == spec_has_all_caps(current_caps, desired_caps),
{
    desired_caps == (desired_caps & current_caps)
}

/// A set has all of `desired_caps` exactly when no capability of
/// `desired_caps` is missing from it, over all 64 capability bits; in
/// particular it has capability number `k` exactly when its bit `k` is set.
pub proof fn lemma_has_all_caps_bitwise(current_caps: CapSet, desired_caps: CapSet)
    ensures
        spec_has_all_caps(current_caps, desired_caps) <==> desired_caps & !current_caps == 0,
        forall|k: u64|
            k < 64 ==> (spec_has_all_caps(current_caps, #[trigger] (1u64 << k)) <==> (current_caps >> k)
                & 1 == 1),
{
    assert(desired_caps == (desired_caps & current_caps) <==> desired_caps & !current_caps == 0)
        by (bit_vector);
    assert forall|k: u64| k < 64 implies (spec_has_all_caps(current_caps, #[trigger] (1u64 << k)) <==> (
    current_caps >> k) & 1 == 1) by {
        assert((1u64 << k) == ((1u64 << k) & current_caps) <==> (current_caps >> k) & 1 == 1)
            by (bit_vector)
            requires
                k < 64,
        ;
    }
}

/// Having all of `b`, and `b` having all of `c`, is having all of `c`.
pub proof fn lemma_has_all_caps_transitive(a: CapSet, b: CapSet, c: CapSet)
    requires
        spec_has_all_caps(a, b),
        spec_has_all_caps(b, c),
    ensures
        spec_has_all_caps(a, c),
{
    assert(b == (b & a) && c == (c & b) ==> c == (c & a)) by (bit_vector);
}

/// A set has all of its own capabilities and all of the empty set.
pub proof fn lemma_has_all_caps_reflexive(a: CapSet)
    ensures
        spec_has_all_caps(a, a),
        spec_has_all_caps(a, 0),
{
    assert(a == (a & a) && 0u64 == (0u64 & a)) by (bit_vector);
}

/// Token standing for the fact that the **current** thread has the
/// capabilities `CAPS` in its effective set. It is only issued from the
/// thread's capability sets while they hold `CAPS`, borrows them for as long
/// as it lives, and cannot leave the thread.
pub struct ActiveCaps<'a, const CAPS: u64> {
    _sets: PhantomData<(&'a (), Rc<()>)>,
}

/// Token standing for the fact that the **current** thread does not have
/// the capabilities `CAPS` in its effective set; issued and bound like
/// `ActiveCaps`.
pub struct DisabledCaps<'a, const CAPS: u64> {
    _sets: PhantomData<(&'a (), Rc<()>)>,
}

impl<'a, const CAPS: u64> ActiveCaps<'a, CAPS> {
    /// A token for `CAPS`, if the effective set of `caps` holds all of them.
    pub fn issue(caps: &'a ThreadCapabilities) -> (r: Option<ActiveCaps<'a, CAPS>>)
        ensures
            r is Some <==> spec_has_all_caps(caps@.effective_set(), CAPS),
    {
        if caps.has_all_effective(CAPS) {
            Some(ActiveCaps { _sets: PhantomData })
        } else {
            None
        }
    }

    /// The same token for a subset of the active capabilities, borrowed from
    /// this one, so that callers get several narrower tokens from one wider
    /// token without another `capget`/`capset` sequence.
    pub fn subset<const SUBSET: u64>(&self) -> (r: ActiveCaps<'_, SUBSET>)
        requires
            spec_has_all_caps(CAPS, SUBSET),
    {
        ActiveCaps { _sets: PhantomData }
    }
}

impl<'a, const CAPS: u64> DisabledCaps<'a, CAPS> {
    /// A token for `CAPS`, if the effective set of `caps` holds none of them.
    pub fn issue(caps: &'a ThreadCapabilities) -> (r: Option<DisabledCaps<'a, CAPS>>)
        ensures
            r is Some <==> caps@.effective_set() & CAPS == 0,
    {
        if caps.effective() & CAPS == 0 {
            Some(DisabledCaps { _sets: PhantomData })
        } else {
            None
        }
    }

    /// The same token for a subset of the disabled capabilities, borrowed
    /// from this one.
    pub fn subset<const SUBSET: u64>(&self) -> (r: DisabledCaps<'_, SUBSET>)
        requires
            spec_has_all_caps(CAPS, SUBSET),
    {
        DisabledCaps { _sets: PhantomData }
    }
}

/// The version of the `capget`/`capset` layout this module speaks.
pub const CAPS_V3: u32 = 0x20080522;

/// Another `ThreadCapabilities` is alive on this thread.
#[derive(Debug)]
pub struct ThreadCapabilitiesAlreadyAcquired;

/// Why `capset` refused a change.
#[derive(Debug, PartialEq, Eq, Structural)]
pub enum CapsetError {
    InvalidArguments,
    PermissionDenied,
}

/// The capability sets of the current thread, as last read or written.
pub struct ThreadCapabilities {
    data: CapUserData,
}

/// `d` with `m` added to the effective set.
pub open spec fn raised(d: CapUserData, m: CapSet) -> CapUserData {
    CapUserData {
        effective_s0: d.effective_s0 | (m as u32),
        effective_s1: d.effective_s1 | ((m >> 32u64) as u32),
        ..d
    }
}

/// `d` with `m` taken out of the effective set.
pub open spec fn lowered(d: CapUserData, m: CapSet) -> CapUserData {
    CapUserData {
        effective_s0: d.effective_s0 & (!m as u32),
        effective_s1: d.effective_s1 & ((!m >> 32u64) as u32),
        ..d
    }
}

pub proof fn lemma_raised_set(d: CapUserData, m: CapSet)
    ensures
        raised(d, m).effective_set() == d.effective_set() | m,
        raised(d, m).permitted_set() == d.permitted_set(),
        raised(d, m).inheritable_set() == d.inheritable_set(),
{
    let hi = d.effective_s1;
    let lo = d.effective_s0;
    assert((((hi | ((m >> 32u64) as u32)) as u64) << 32u64) | ((lo | (m as u32)) as u64) == ((((hi as u64)
        << 32u64) | (lo as u64)) | m)) by (bit_vector);
}

pub proof fn lemma_lowered_set(d: CapUserData, m: CapSet)
    ensures
        lowered(d, m).effective_set() == d.effective_set() & !m,
        lowered(d, m).permitted_set() == d.permitted_set(),
        lowered(d, m).inheritable_set() == d.inheritable_set(),
{
    let hi = d.effective_s1;
    let lo = d.effective_s0;
    assert((((hi & ((!m >> 32u64) as u32)) as u64) << 32u64) | ((lo & (!m as u32)) as u64) == ((((hi
        as u64) << 32u64) | (lo as u64)) & !m)) by (bit_vector);
}

impl View for ThreadCapabilities {
    type V = CapUserData;

    closed spec fn view(&self) -> CapUserData {
        self.data
    }
}

impl ThreadCapabilities {
    /// Capability sets as `capget` reported them for the current thread.
    pub fn from_data(data: CapUserData) -> (r: Self)
        ensures
            r@ == data,
    {
        ThreadCapabilities { data }
    }

    pub fn data(&self) -> (r: CapUserData)
        ensures
            r == self@,
    {
        self.data
    }

    /// Records the sets after `capset` accepted them.
    pub fn set_data(&mut self, data: CapUserData)
        ensures
            final(self)@ == data,
    {
        self.data = data;
    }

    pub fn effective(&self) -> (r: CapSet)
        ensures
            r == self@.effective_set(),
    {
        two_u32_to_u64_little_endian(self.data.effective_s1, self.data.effective_s0)
    }

    pub fn permitted(&self) -> (r: CapSet)
        ensures
            r == self@.permitted_set(),
    {
        two_u32_to_u64_little_endian(self.data.permitted_s1, self.data.permitted_s0)
    }

    pub fn inheritable(&self) -> (r: CapSet)
        ensures
            r == self@.inheritable_set(),
    {
        two_u32_to_u64_little_endian(self.data.inheritable_s1, self.data.inheritable_s0)
    }

    pub fn has_all_effective(&self, caps: CapSet) -> (r: bool)
        ensures
            r == spec_has_all_caps(self@.effective_set(), caps),
    {
        has_all_caps(self.effective(), caps)
    }

    pub fn has_all_permitted(&self, caps: CapSet) -> (r: bool)
        ensures
            r == spec_has_all_caps(self@.permitted_set(), caps),
    {
        has_all_caps(self.permitted(), caps)
    }

    pub fn has_all_inherited(&self, caps: CapSet) -> (r: bool)
        ensures
            r == spec_has_all_caps(self@.inheritable_set(), caps),
    {
        has_all_caps(self.inheritable(), caps)
    }

    /// The first step of running with `caps` in the effective set: the
    /// capabilities that are missing from it, and the sets to hand to
    /// `capset` to raise them. `Ok(None)` when none is missing; refused when a
    /// missing one is not permitted either.
    pub fn raise_effective_request(&self, caps: CapSet) -> (r: Result<Option<(CapUserData, CapSet)>, CapsetError>)
        ensures
            ({
                let missing = !self@.effective_set() & caps;
                &&& missing == 0 ==> r == Ok::<Option<(CapUserData, CapSet)>, CapsetError>(None)
                &&& missing != 0 && !self@.permitted_set() & missing != 0 ==> r == Err::<
                    Option<(CapUserData, CapSet)>,
                    CapsetError,
                >(CapsetError::PermissionDenied)
                &&& missing != 0 && !self@.permitted_set() & missing == 0 ==> r == Ok::<
                    Option<(CapUserData, CapSet)>,
                    CapsetError,
                >(Some((raised(self@, missing), missing)))
            }),
    {
        let current_ef: u64 = self.effective();
        let current_pm: u64 = self.permitted();
        let missing_ef = !current_ef & caps;
        let missing_pm = !current_pm & missing_ef;
        if missing_ef != 0 {
            if missing_pm != 0 {
                return Err(CapsetError::PermissionDenied);
            }
            let mut raised = self.data;
            raised.effective_s0 |= missing_ef as u32;
            raised.effective_s1 |= (missing_ef >> 32) as u32;
            return Ok(Some((raised, missing_ef)));
        }
        Ok(None)
    }

    /// The sets to hand to `capset` to lower again the capabilities
    /// `missing` that `raise_effective_request` raised.
    pub fn restore_after_raise(&self, missing: CapSet) -> (r: CapUserData)
        ensures
            r == lowered(self@, missing),
    {
        let mut restored = self.data;
        restored.effective_s0 &= !missing as u32;
        restored.effective_s1 &= (!missing >> 32) as u32;
        restored
    }

    /// The first step of running without `caps` in the effective set: those
    /// of them that are effective now, and the sets to hand to `capset` to
    /// lower them. `None` when none of them is effective.
    pub fn lower_effective_request(&self, caps: CapSet) -> (r: Option<(CapUserData, CapSet)>)
        ensures
            ({
                let present = self@.effective_set() & caps;
                &&& present == 0 ==> r == None::<(CapUserData, CapSet)>
                &&& present != 0 ==> r == Some((lowered(self@, present), present))
            }),
    {
        let current_ef: u64 = self.effective();
        let present_ef = current_ef & caps;
        if present_ef != 0 {
            let mut lowered = self.data;
            lowered.effective_s0 &= !(present_ef as u32);
            lowered.effective_s1 &= !((present_ef >> 32) as u32);
            proof {
                assert(!(present_ef as u32) == (!present_ef as u32)) by (bit_vector);
                assert(!((present_ef >> 32u64) as u32) == ((!present_ef >> 32u64) as u32)) by (bit_vector);
            }
            return Some((lowered, present_ef));
        }
        None
    }

    /// The sets to hand to `capset` to raise again the capabilities `present`
    /// that `lower_effective_request` lowered.
    pub fn restore_after_lower(&self, present: CapSet) -> (r: CapUserData)
        ensures
            r == raised(self@, present),
    {
        let mut restored = self.data;
        restored.effective_s0 |= present as u32;
        restored.effective_s1 |= (present >> 32) as u32;
        restored
    }

    /// The sets that clear the effective set, or `None` when it is clear
    /// already.
    pub fn clear_effective_request(&self) -> (r: Option<CapUserData>)
        ensures
            self@.effective_set() == 0 ==> r is None,
            self@.effective_set() != 0 ==> r == Some(CapUserData { effective_s0: 0, effective_s1: 0, ..self@ }),
    {
        proof {
            lemma_join_zero(self@.effective_s1, self@.effective_s0);
        }
        if self.data.effective_s1 == 0 && self.data.effective_s0 == 0 {
            return None;
        }
        let mut cleared = self.data;
        cleared.effective_s0 = 0;
        cleared.effective_s1 = 0;
        Some(cleared)
    }

    /// The sets that clear the permitted set, or `None` when it is clear
    /// already. Once out of the permitted set, capabilities do not come back
    /// but in special circumstances.
    pub fn clear_permitted_request(&self) -> (r: Option<CapUserData>)
        ensures
            self@.permitted_set() == 0 ==> r is None,
            self@.permitted_set() != 0 ==> r == Some(CapUserData { permitted_s0: 0, permitted_s1: 0, ..self@ }),
    {
        proof {
            lemma_join_zero(self@.permitted_s1, self@.permitted_s0);
        }
        if self.data.permitted_s1 == 0 && self.data.permitted_s0 == 0 {
            return None;
        }
        let mut cleared = self.data;
        cleared.permitted_s1 = 0;
        cleared.permitted_s0 = 0;
        Some(cleared)
    }

    /// The sets that clear the inheritable set, or `None` when it is clear
    /// already.
    pub fn clear_inheritable_request(&self) -> (r: Option<CapUserData>)
        ensures
            self@.inheritable_set() == 0 ==> r is None,
            self@.inheritable_set() != 0 ==> r == Some(CapUserData { inheritable_s0: 0, inheritable_s1: 0, ..self@ }),
    {
        proof {
            lemma_join_zero(self@.inheritable_s1, self@.inheritable_s0);
        }
        if self.data.inheritable_s1 == 0 && self.data.inheritable_s0 == 0 {
            return None;
        }
        let mut cleared = self.data;
        cleared.inheritable_s1 = 0;
        cleared.inheritable_s0 = 0;
        Some(cleared)
    }
}

pub proof fn lemma_join_zero(hi: u32, lo: u32)
    ensures
        join_halves(hi, lo) == 0 <==> (hi == 0 && lo == 0),
{
    assert((((hi as u64) << 32u64) | (lo as u64)) == 0 <==> (hi == 0 && lo == 0)) by (bit_vector);
}

/// Running with capabilities raised: after the raise every requested
/// capability is effective, and lowering again what was missing gives back
/// the effective set the thread started with.
pub proof fn lemma_raise_then_restore(d: CapUserData, caps: CapSet)
    ensures
        ({
            let missing = !d.effective_set() & caps;
            &&& spec_has_all_caps(raised(d, missing).effective_set(), caps)
            &&& lowered(raised(d, missing), missing).effective_set() == d.effective_set()
            &&& lowered(raised(d, missing), missing).permitted_set() == d.permitted_set()
            &&& lowered(raised(d, missing), missing).inheritable_set() == d.inheritable_set()
        }),
{
    let e = d.effective_set();
    let missing = !e & caps;
    lemma_raised_set(d, missing);
    lemma_lowered_set(raised(d, missing), missing);
    assert(caps == (caps & (e | (!e & caps)))) by (bit_vector);
    assert(((e | (!e & caps)) & !(!e & caps)) == e) by (bit_vector);
}

/// Running with capabilities lowered: after the lowering none of them is
/// effective, and raising again what was present gives back the effective
/// set the thread started with.
pub proof fn lemma_lower_then_restore(d: CapUserData, caps: CapSet)
    ensures
        ({
            let present = d.effective_set() & caps;
            &&& lowered(d, present).effective_set() & caps == 0
            &&& raised(lowered(d, present), present).effective_set() == d.effective_set()
            &&& raised(lowered(d, present), present).permitted_set() == d.permitted_set()
            &&& raised(lowered(d, present), present).inheritable_set() == d.inheritable_set()
        }),
{
    let e = d.effective_set();
    let present = e & caps;
    lemma_lowered_set(d, present);
    lemma_raised_set(lowered(d, present), present);
    assert((e & !(e & caps)) & caps == 0) by (bit_vector);
    assert(((e & !(e & caps)) | (e & caps)) == e) by (bit_vector);
}

/// Make arbitrary changes to file UIDs and GIDs.
pub const CAP_CHOWN: CapSet = 1u64 << 0u64;

/// Bypass file read, write, and execute permission checks.
pub const CAP_DAC_OVERRIDE: CapSet = 1u64 << 1u64;

/// Bypass file read permission checks and directory read/execute checks.
pub const CAP_DAC_READ_SEARCH: CapSet = 1u64 << 2u64;

/// Bypass permission checks on operations that normally require the file UID to match.
pub const CAP_FOWNER: CapSet = 1u64 << 3u64;

/// Don't clear set-user-ID and set-group-ID permission bits when a file is modified.
pub const CAP_FSETID: CapSet = 1u64 << 4u64;

/// Bypass permission checks for sending signals.
pub const CAP_KILL: CapSet = 1u64 << 5u64;

/// Make arbitrary manipulations of process GIDs and supplementary GID list.
pub const CAP_SETGID: CapSet = 1u64 << 6u64;

/// Make arbitrary manipulations of process UIDs.
pub const CAP_SETUID: CapSet = 1u64 << 7u64;

/// Modify process capabilities.
pub const CAP_SETPCAP: CapSet = 1u64 << 8u64;

/// Modify file attributes on ext2/ext3/ext4 filesystems.
pub const CAP_LINUX_IMMUTABLE: CapSet = 1u64 << 9u64;

/// Bind a socket to Internet domain privileged ports (port numbers < 1024).
pub const CAP_NET_BIND_SERVICE: CapSet = 1u64 << 10u64;

/// Make network broadcasting and listen to multicasts.
pub const CAP_NET_BROADCAST: CapSet = 1u64 << 11u64;

/// Perform various network-related operations.
pub const CAP_NET_ADMIN: CapSet = 1u64 << 12u64;

/// Use RAW and PACKET sockets.
pub const CAP_NET_RAW: CapSet = 1u64 << 13u64;

/// Lock memory (mlock, mlockall, mmap, shmctl).
pub const CAP_IPC_LOCK: CapSet = 1u64 << 14u64;

/// Bypass permission checks for operations on System V IPC objects.
pub const CAP_IPC_OWNER: CapSet = 1u64 << 15u64;

/// Load and unload kernel modules.
pub const CAP_SYS_MODULE: CapSet = 1u64 << 16u64;

/// Perform I/O port operations (iopl and ioperm).
pub const CAP_SYS_RAWIO: CapSet = 1u64 << 17u64;

/// Use chroot.
pub const CAP_SYS_CHROOT: CapSet = 1u64 << 18u64;

/// Trace arbitrary processes using ptrace.
pub const CAP_SYS_PTRACE: CapSet = 1u64 << 19u64;

/// Configure process accounting.
pub const CAP_SYS_PACCT: CapSet = 1u64 << 20u64;

/// Perform a range of system administration operations.
pub const CAP_SYS_ADMIN: CapSet = 1u64 << 21u64;

/// Use reboot and kexec_load.
pub const CAP_SYS_BOOT: CapSet = 1u64 << 22u64;

/// Raise process nice value and change scheduling priority.
pub const CAP_SYS_NICE: CapSet = 1u64 << 23u64;

/// Override various system resource limits.
pub const CAP_SYS_RESOURCE: CapSet = 1u64 << 24u64;

/// Set system clock and real-time clock.
pub const CAP_SYS_TIME: CapSet = 1u64 << 25u64;

/// Configure TTY devices.
pub const CAP_SYS_TTY_CONFIG: CapSet = 1u64 << 26u64;

/// Create special files using mknod.
pub const CAP_MKNOD: CapSet = 1u64 << 27u64;

/// Establish leases on arbitrary files.
pub const CAP_LEASE: CapSet = 1u64 << 28u64;

/// Write records to kernel auditing log.
pub const CAP_AUDIT_WRITE: CapSet = 1u64 << 29u64;

/// Enable and disable kernel auditing.
pub const CAP_AUDIT_CONTROL: CapSet = 1u64 << 30u64;

/// Set file capabilities.
pub const CAP_SETFCAP: CapSet = 1u64 << 31u64;

/// Allow MAC configuration or state changes.
pub const CAP_MAC_OVERRIDE: CapSet = 1u64 << 32u64;

/// Override Mandatory Access Control (MAC).
pub const CAP_MAC_ADMIN: CapSet = 1u64 << 33u64;

/// Perform privileged syslog operations.
pub const CAP_SYSLOG: CapSet = 1u64 << 34u64;

/// Trigger something that will wake up the system.
pub const CAP_WAKE_ALARM: CapSet = 1u64 << 35u64;

/// Employ features that can block system suspend.
pub const CAP_BLOCK_SUSPEND: CapSet = 1u64 << 36u64;

/// Allow reading the audit log via multicast netlink socket.
pub const CAP_AUDIT_READ: CapSet = 1u64 << 37u64;

/// Allow system performance monitoring.
pub const CAP_PERFMON: CapSet = 1u64 << 38u64;

/// Allow extended BPF operations.
pub const CAP_BPF: CapSet = 1u64 << 39u64;

/// Allow checkpoint/restore operations.
pub const CAP_CHECKPOINT_RESTORE: CapSet = 1u64 << 40u64;

/// The capability numbers of Linux's `capability.h`: each capability is
/// the bit of its number in a capability set.
pub proof fn lemma_capability_numbers()
    ensures
        CAP_CHOWN == 1u64 << 0u64,
        CAP_DAC_OVERRIDE == 1u64 << 1u64,
        CAP_DAC_READ_SEARCH == 1u64 << 2u64,
        CAP_FOWNER == 1u64 << 3u64,
        CAP_FSETID == 1u64 << 4u64,
        CAP_KILL == 1u64 << 5u64,
        CAP_SETGID == 1u64 << 6u64,
        CAP_SETUID == 1u64 << 7u64,
        CAP_SETPCAP == 1u64 << 8u64,
        CAP_LINUX_IMMUTABLE == 1u64 << 9u64,
        CAP_NET_BIND_SERVICE == 1u64 << 10u64,
        CAP_NET_BROADCAST == 1u64 << 11u64,
        CAP_NET_ADMIN == 1u64 << 12u64,
        CAP_NET_RAW == 1u64 << 13u64,
        CAP_IPC_LOCK == 1u64 << 14u64,
        CAP_IPC_OWNER == 1u64 << 15u64,
        CAP_SYS_MODULE == 1u64 << 16u64,
        CAP_SYS_RAWIO == 1u64 << 17u64,
        CAP_SYS_CHROOT == 1u64 << 18u64,
        CAP_SYS_PTRACE == 1u64 << 19u64,
        CAP_SYS_PACCT == 1u64 << 20u64,
        CAP_SYS_ADMIN == 1u64 << 21u64,
        CAP_SYS_BOOT == 1u64 << 22u64,
        CAP_SYS_NICE == 1u64 << 23u64,
        CAP_SYS_RESOURCE == 1u64 << 24u64,
        CAP_SYS_TIME == 1u64 << 25u64,
        CAP_SYS_TTY_CONFIG == 1u64 << 26u64,
        CAP_MKNOD == 1u64 << 27u64,
        CAP_LEASE == 1u64 << 28u64,
        CAP_AUDIT_WRITE == 1u64 << 29u64,
        CAP_AUDIT_CONTROL == 1u64 << 30u64,
        CAP_SETFCAP == 1u64 << 31u64,
        CAP_MAC_OVERRIDE == 1u64 << 32u64,
        CAP_MAC_ADMIN == 1u64 << 33u64,
        CAP_SYSLOG == 1u64 << 34u64,
        CAP_WAKE_ALARM == 1u64 << 35u64,
        CAP_BLOCK_SUSPEND == 1u64 << 36u64,
        CAP_AUDIT_READ == 1u64 << 37u64,
        CAP_PERFMON == 1u64 << 38u64,
        CAP_BPF == 1u64 << 39u64,
        CAP_CHECKPOINT_RESTORE == 1u64 << 40u64,
{
}

} // verus!
