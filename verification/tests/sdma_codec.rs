use amdgpu_linux::sdma::{v2_4, v4_0, v5_2};

#[test]
fn v4_0_copy_linear_encodes_its_fields_and_header() {
    let pkt = v4_0::Pkt::CopyLinear(v4_0::CopyLinear {
        encrypt: false,
        tmz: true,
        broadcast: false,
        count: 0x100,
        dst_sw: 1,
        src_sw: 2,
        src_addr: 0x1122_3344_5566_7788,
        dst_addr: 0xaabb_ccdd_0011_2233,
    });
    let mut buff = [0u32; 7];
    let n = pkt.encode_linear(&mut buff);
    assert_eq!(n, 7);
    assert_eq!(
        buff,
        [0x0004_0001, 0x100, 0x0201_0000, 0x5566_7788, 0x1122_3344, 0x0011_2233, 0xaabb_ccdd]
    );

    match v4_0::Pkt::decode_linear(&buff) {
        Some((n, v4_0::Pkt::CopyLinear(p))) => {
            assert_eq!(n, 7);
            assert!(!p.encrypt);
            assert!(p.tmz);
            assert!(!p.broadcast);
            assert_eq!(p.count, 0x100);
            assert_eq!(p.dst_sw, 1);
            assert_eq!(p.src_sw, 2);
            assert_eq!(p.src_addr, 0x1122_3344_5566_7788);
            assert_eq!(p.dst_addr, 0xaabb_ccdd_0011_2233);
        }
        _ => panic!("not decoded as a linear copy"),
    }
}

#[test]
fn v4_0_encoding_keeps_bits_outside_the_fields() {
    let pkt = v4_0::Pkt::CopyLinear(v4_0::CopyLinear {
        encrypt: false,
        tmz: false,
        broadcast: false,
        count: 1,
        dst_sw: 0,
        src_sw: 0,
        src_addr: 0,
        dst_addr: 0,
    });
    let mut buff = [0xffff_ffffu32; 8];
    let n = pkt.encode_linear(&mut buff);
    assert_eq!(n, 7);
    // Header: op 1, sub-op 0, the broadcast bit cleared, encrypt and tmz cleared.
    assert_eq!(buff[0], 0xf7fa_0001);
    assert_eq!(buff[1], 0xffc0_0001);
    assert_eq!(buff[2], 0xfcfc_ffff);
    assert_eq!(&buff[3..7], &[0, 0, 0, 0]);
    assert_eq!(buff[7], 0xffff_ffff);
}

#[test]
fn v2_4_nop_carries_its_payload() {
    let data = [1u32, 2, 3];
    let pkt = v2_4::Pkt::Nop(v2_4::Nop { data: &data });
    let mut buff = [0u32; 4];
    let n = pkt.encode_linear(&mut buff);
    assert_eq!(n, 4);
    assert_eq!(buff, [0x0003_0000, 1, 2, 3]);

    match v2_4::Pkt::decode_linear(&buff) {
        Some((n, v2_4::Pkt::Nop(p))) => {
            assert_eq!(n, 4);
            assert_eq!(p.data, &[1, 2, 3]);
        }
        _ => panic!("not decoded as a nop"),
    }
}

#[test]
fn v2_4_fence_splits_its_address() {
    let pkt = v2_4::Pkt::Fence(v2_4::Fence { data: 0xdead_beef, addr: 0x1_0000_2000 });
    let mut buff = [0u32; 4];
    let n = pkt.encode_linear(&mut buff);
    assert_eq!(n, 4);
    assert_eq!(buff, [5, 0x2000, 1, 0xdead_beef]);

    match v2_4::Pkt::decode_linear(&buff) {
        Some((4, v2_4::Pkt::Fence(f))) => {
            assert_eq!(f.data, 0xdead_beef);
            assert_eq!(f.addr, 0x1_0000_2000);
        }
        _ => panic!("not decoded as a fence"),
    }
}

#[test]
fn v5_2_copy_linear_carries_cache_policies() {
    let pkt = v5_2::Pkt::CopyLinear(v5_2::CopyLinear {
        encrypt: false,
        tmz: false,
        cache_policy_valid: true,
        backwards: true,
        broadcast: false,
        count: 0x1000_0000,
        dst_sw: 1,
        dst_cache_policy: 5,
        src_sw: 2,
        src_cache_policy: 3,
        src_addr: 0x1_2345_6789,
        dst_addr: 0xabcd,
    });
    let mut buff = [0u32; 7];
    assert_eq!(pkt.encode_linear(&mut buff), 7);
    assert_eq!(buff, [0x0210_0001, 0x1000_0000, 0x0e15_0000, 0x2345_6789, 1, 0xabcd, 0]);
    match v5_2::Pkt::decode_linear(&buff) {
        Some((7, v5_2::Pkt::CopyLinear(p))) => {
            assert!(p.cache_policy_valid && p.backwards && !p.broadcast);
            assert_eq!(p.count, 0x1000_0000);
            assert_eq!((p.dst_cache_policy, p.src_cache_policy), (5, 3));
            assert_eq!((p.src_addr, p.dst_addr), (0x1_2345_6789, 0xabcd));
        }
        _ => panic!("not decoded as a linear copy"),
    }
}

#[test]
fn v5_2_fence_carries_its_policies() {
    let pkt = v5_2::Pkt::Fence(v5_2::Fence {
        mtype: 3,
        gcc: true,
        sys: false,
        snp: false,
        gpa: false,
        l2_policy: 2,
        llc_policy: true,
        cache_policy_valid: true,
        data: 7,
        addr: 0x10_0000_0040,
    });
    let mut buff = [0u32; 4];
    assert_eq!(pkt.encode_linear(&mut buff), 4);
    assert_eq!(buff, [0x160b_0005, 0x40, 0x10, 7]);
    match v5_2::Pkt::decode_linear(&buff) {
        Some((4, v5_2::Pkt::Fence(f))) => {
            assert_eq!((f.mtype, f.l2_policy), (3, 2));
            assert!(f.gcc && f.llc_policy && f.cache_policy_valid && !f.sys);
            assert_eq!((f.data, f.addr), (7, 0x10_0000_0040));
        }
        _ => panic!("not decoded as a fence"),
    }
}
