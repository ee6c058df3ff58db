use amdgpu_linux::capabilities::{
    has_all_caps, two_u32_to_u64_little_endian, ActiveCaps, CapSet, CapUserData, CapsetError,
    DisabledCaps, ThreadCapabilities, CAP_CHOWN, CAP_NET_ADMIN, CAP_SYS_ADMIN, CAP_SYS_NICE,
};

const TWO_CAPS: CapSet = CAP_SYS_ADMIN | CAP_NET_ADMIN;

fn needs_active_sys_admin(_: &ActiveCaps<CAP_SYS_ADMIN>) {}
fn needs_disabled_sys_admin(_: &DisabledCaps<CAP_SYS_ADMIN>) {}

#[test]
fn active_caps_can_be_reborrowed_as_subset() {
    let sets = ThreadCapabilities::from_data(data(TWO_CAPS, TWO_CAPS, 0));
    let caps = ActiveCaps::<'_, TWO_CAPS>::issue(&sets).expect("both are effective");

    needs_active_sys_admin(&caps.subset::<CAP_SYS_ADMIN>());
}

#[test]
fn disabled_caps_can_be_reborrowed_as_subset() {
    let sets = ThreadCapabilities::from_data(data(CAP_CHOWN, TWO_CAPS, 0));
    let caps = DisabledCaps::<'_, TWO_CAPS>::issue(&sets).expect("neither is effective");

    needs_disabled_sys_admin(&caps.subset::<CAP_SYS_ADMIN>());
}

#[test]
fn tokens_are_issued_only_for_what_the_sets_hold() {
    let sets = ThreadCapabilities::from_data(data(CAP_SYS_ADMIN, TWO_CAPS, 0));
    assert!(ActiveCaps::<'_, CAP_SYS_ADMIN>::issue(&sets).is_some());
    assert!(ActiveCaps::<'_, TWO_CAPS>::issue(&sets).is_none());
    assert!(DisabledCaps::<'_, CAP_NET_ADMIN>::issue(&sets).is_some());
    assert!(DisabledCaps::<'_, TWO_CAPS>::issue(&sets).is_none());
}

fn data(effective: u64, permitted: u64, inheritable: u64) -> CapUserData {
    CapUserData {
        effective_s0: effective as u32,
        permitted_s0: permitted as u32,
        inheritable_s0: inheritable as u32,
        effective_s1: (effective >> 32) as u32,
        permitted_s1: (permitted >> 32) as u32,
        inheritable_s1: (inheritable >> 32) as u32,
    }
}

#[test]
fn halves_join_little_endian() {
    assert_eq!(two_u32_to_u64_little_endian(0x1, 0x2), 0x1_0000_0002);
    assert_eq!(two_u32_to_u64_little_endian(0, 0xffff_ffff), 0xffff_ffff);
}

#[test]
fn has_all_caps_is_a_subset_test() {
    assert!(has_all_caps(TWO_CAPS, CAP_SYS_ADMIN));
    assert!(has_all_caps(TWO_CAPS, TWO_CAPS));
    assert!(has_all_caps(CAP_CHOWN, 0));
    assert!(!has_all_caps(CAP_SYS_ADMIN, TWO_CAPS));
}

#[test]
fn sets_are_read_from_both_halves() {
    let caps = ThreadCapabilities::from_data(data(1 << 40 | CAP_SYS_ADMIN, 1 << 33, CAP_CHOWN));
    assert_eq!(caps.effective(), 1 << 40 | CAP_SYS_ADMIN);
    assert_eq!(caps.permitted(), 1 << 33);
    assert_eq!(caps.inheritable(), CAP_CHOWN);
    assert!(caps.has_all_effective(CAP_SYS_ADMIN));
    assert!(!caps.has_all_effective(CAP_NET_ADMIN));
    assert!(caps.has_all_permitted(1 << 33));
    assert!(caps.has_all_inherited(CAP_CHOWN));
}

#[test]
fn raising_asks_only_for_missing_permitted_caps() {
    let caps = ThreadCapabilities::from_data(data(CAP_SYS_ADMIN, TWO_CAPS | 1 << 35, 0));
    // Nothing is missing: nothing to do.
    assert!(matches!(caps.raise_effective_request(CAP_SYS_ADMIN), Ok(None)));
    // One is missing and permitted.
    match caps.raise_effective_request(TWO_CAPS | 1 << 35) {
        Ok(Some((raised, missing))) => {
            assert_eq!(missing, CAP_NET_ADMIN | 1 << 35);
            assert_eq!(raised.effective_s0 as u64, TWO_CAPS);
            assert_eq!(raised.effective_s1, 1 << 3);
            assert_eq!(raised.permitted_s0 as u64, TWO_CAPS);
            // Lowering again gives back the thread's sets.
            let restored = caps.restore_after_raise(missing);
            assert_eq!(restored.effective_s0 as u64, CAP_SYS_ADMIN);
            assert_eq!(restored.effective_s1, 0);
        }
        _ => panic!("expected a request"),
    }
    // Missing and not permitted: refused.
    assert!(matches!(caps.raise_effective_request(CAP_SYS_NICE), Err(CapsetError::PermissionDenied)));
}

#[test]
fn lowering_asks_only_for_present_caps() {
    let caps = ThreadCapabilities::from_data(data(TWO_CAPS, TWO_CAPS, 0));
    assert!(caps.lower_effective_request(CAP_SYS_NICE).is_none());
    match caps.lower_effective_request(CAP_SYS_ADMIN | CAP_SYS_NICE) {
        Some((lowered, present)) => {
            assert_eq!(present, CAP_SYS_ADMIN);
            assert_eq!(lowered.effective_s0 as u64, CAP_NET_ADMIN);
            let restored = caps.restore_after_lower(present);
            assert_eq!(restored.effective_s0 as u64, TWO_CAPS);
        }
        None => panic!("expected a request"),
    }
}

#[test]
fn clearing_skips_empty_sets() {
    let caps = ThreadCapabilities::from_data(data(0, 1 << 32, CAP_CHOWN));
    assert!(caps.clear_effective_request().is_none());
    let p = caps.clear_permitted_request().expect("permitted set is not empty");
    assert_eq!((p.permitted_s0, p.permitted_s1), (0, 0));
    assert_eq!(p.inheritable_s0, 1);
    let i = caps.clear_inheritable_request().expect("inheritable set is not empty");
    assert_eq!((i.inheritable_s0, i.inheritable_s1), (0, 0));
    assert_eq!(i.permitted_s1, 1);
}
