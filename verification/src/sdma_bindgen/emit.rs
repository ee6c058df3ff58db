//! The packet descriptions written out: `@bits`, `@full`, `@join` (pairs of
//! `_31_0` and `_63_32` dwords that hold one 64-bit value) and `@dyn` (the
//! start of a payload of variable length).
use vstd::prelude::*;
use vstd::string::StringSliceAdditionalSpecFns;

use super::fields::{all_digits, digit_value, digits_value, hex_or_dec, parse_raw_fields, raw_fields};
use super::names::{collect_packet_names, packet_names};
use super::packets::{build_packets, packets_of, seq_view, BitSpec, BitsWord, FullWord, Packet, PacketSpec};
use crate::text::{
    bytes_eq, copy_range, dec, ends_with, fmt_dec, fmt_hex, hex, is_digit, push_all, strip_suffix, trim,
    trim_start, ws_prefix, ws_suffix,
};

verus! {

// ── joins ────────────────────────────────────────────────────────────────────

/// A 64-bit value held by two dwords: the low dword, the high dword, the
/// name of the value.
pub type JoinSpec = (u32, u32, Seq<u8>);

/// The first whole-dword field at or after `k` that is not used yet and is
/// named `target`, or -1.
pub open spec fn find_high(full: Seq<(u32, Seq<u8>, Seq<u8>)>, k: int, target: Seq<u8>, used: Set<u32>) -> int
    decreases full.len() - k,
{
    if k < 0 || k >= full.len() {
        -1
    } else if !used.contains(full[k].0) && full[k].2 == target {
        k
    } else {
        find_high(full, k + 1, target, used)
    }
}

/// The joins found from entry `i` on, after those in `acc`, with the dwords
/// of `used` taken: each `<name>_31_0` dword pairs with the first free
/// `<name>_63_32` dword after it.
pub open spec fn joins_from(
    full: Seq<(u32, Seq<u8>, Seq<u8>)>,
    i: int,
    used: Set<u32>,
    acc: Seq<JoinSpec>,
) -> Seq<JoinSpec>
    decreases full.len() - i,
{
    if i < 0 || i >= full.len() {
        acc
    } else {
        let lo = full[i].0;
        let lo_name = full[i].2;
        let suffix = "_31_0".spec_bytes();
        if used.contains(lo) || !ends_with(lo_name, suffix) {
            joins_from(full, i + 1, used, acc)
        } else {
            let base = lo_name.subrange(0, lo_name.len() - suffix.len());
            let k = find_high(full, i + 1, base + "_63_32".spec_bytes(), used);
            if k < 0 {
                joins_from(full, i + 1, used, acc)
            } else {
                joins_from(full, i + 1, used.insert(lo).insert(full[k].0), acc.push((lo, full[k].0, base)))
            }
        }
    }
}

/// The 64-bit values of the packet.
pub open spec fn joins_of(p: PacketSpec) -> Seq<JoinSpec> {
    joins_from(p.full, 0, Set::empty(), Seq::empty())
}

/// The dwords that the joins hold.
pub open spec fn join_dws(joins: Seq<JoinSpec>) -> Set<u32>
    decreases joins.len(),
{
    if joins.len() == 0 {
        Set::empty()
    } else {
        join_dws(joins.drop_last()).insert(joins.last().0).insert(joins.last().1)
    }
}

/// No dword is in two joins, and each join's high dword comes after its low
/// dword.
pub open spec fn joins_wf(joins: Seq<JoinSpec>) -> bool {
    &&& forall|i: int| 0 <= i < joins.len() ==> (#[trigger] joins[i]).0 < joins[i].1
    &&& forall|i: int, j: int|
        0 <= i < joins.len() && 0 <= j < joins.len() && i != j ==> {
            let a = #[trigger] joins[i];
            let b = #[trigger] joins[j];
            a.0 != b.0 && a.0 != b.1 && a.1 != b.0 && a.1 != b.1
        }
}

proof fn lemma_find_high(full: Seq<(u32, Seq<u8>, Seq<u8>)>, k: int, target: Seq<u8>, used: Set<u32>)
    ensures
        find_high(full, k, target, used) >= 0 ==> {
            let h = find_high(full, k, target, used);
            &&& k <= h < full.len()
            &&& !used.contains(full[h].0)
        },
    decreases full.len() - k,
{
    if 0 <= k < full.len() && !(!used.contains(full[k].0) && full[k].2 == target) {
        lemma_find_high(full, k + 1, target, used);
    }
}

proof fn lemma_joins_from_wf(full: Seq<(u32, Seq<u8>, Seq<u8>)>, i: int, used: Set<u32>, acc: Seq<JoinSpec>)
    requires
        crate::sdma_bindgen::packets::full_sorted(full),
        joins_wf(acc),
        forall|k: int| 0 <= k < acc.len() ==> used.contains((#[trigger] acc[k]).0) && used.contains(acc[k].1),
    ensures
        joins_wf(joins_from(full, i, used, acc)),
    decreases full.len() - i,
{
    if 0 <= i < full.len() {
        let lo = full[i].0;
        let lo_name = full[i].2;
        let suffix = "_31_0".spec_bytes();
        if used.contains(lo) || !ends_with(lo_name, suffix) {
            lemma_joins_from_wf(full, i + 1, used, acc);
        } else {
            let base = lo_name.subrange(0, lo_name.len() - suffix.len());
            let k = find_high(full, i + 1, base + "_63_32".spec_bytes(), used);
            if k < 0 {
                lemma_joins_from_wf(full, i + 1, used, acc);
            } else {
                lemma_find_high(full, i + 1, base + "_63_32".spec_bytes(), used);
                let hi = full[k].0;
                assert(lo < hi);
                let u2 = used.insert(lo).insert(hi);
                let a2 = acc.push((lo, hi, base));
                assert forall|x: int, y: int|
                    0 <= x < a2.len() && 0 <= y < a2.len() && x != y implies {
                    let a = #[trigger] a2[x];
                    let b = #[trigger] a2[y];
                    a.0 != b.0 && a.0 != b.1 && a.1 != b.0 && a.1 != b.1
                } by {
                    if x < acc.len() && y < acc.len() {
                        assert(a2[x] == acc[x] && a2[y] == acc[y]);
                    } else if x < acc.len() {
                        assert(a2[x] == acc[x]);
                        assert(used.contains(acc[x].0) && used.contains(acc[x].1));
                    } else {
                        assert(a2[y] == acc[y]);
                        assert(used.contains(acc[y].0) && used.contains(acc[y].1));
                    }
                }
                assert forall|x: int| 0 <= x < a2.len() implies (#[trigger] a2[x]).0 < a2[x].1 by {
                    if x < acc.len() {
                        assert(a2[x] == acc[x]);
                    }
                }
                assert forall|x: int| 0 <= x < a2.len() implies u2.contains((#[trigger] a2[x]).0) && u2.contains(
                    a2[x].1,
                ) by {
                    if x < acc.len() {
                        assert(a2[x] == acc[x]);
                    }
                }
                lemma_joins_from_wf(full, i + 1, u2, a2);
            }
        }
    }
}

/// In a packet whose whole-dword fields are in dword order, no dword is in
/// two joins and each join's high dword comes after its low dword.
pub proof fn lemma_joins_wf(p: PacketSpec)
    requires
        crate::sdma_bindgen::packets::full_sorted(p.full),
    ensures
        joins_wf(joins_of(p)),
{
    lemma_joins_from_wf(p.full, 0, Set::empty(), Seq::empty());
}

pub struct Join {
    pub lo: u32,
    pub hi: u32,
    pub name: Vec<u8>,
}

impl View for Join {
    type V = JoinSpec;

    open spec fn view(&self) -> JoinSpec {
        (self.lo, self.hi, self.name@)
    }
}

fn contains_u32(v: &Vec<u32>, x: u32) -> (r: bool)
    ensures
        r == v@.contains(x),
{
    let mut i: usize = 0;
    while i < v.len()
        invariant
            i <= v@.len(),
            forall|k: int| 0 <= k < i ==> v@[k] != x,
        decreases v@.len() - i,
    {
        if v[i] == x {
            assert(v@[i as int] == x);
            return true;
        }
        i += 1;
    }
    false
}

pub proof fn lemma_push_to_set(s: Seq<u32>, a: u32)
    ensures
        s.push(a).to_set() == s.to_set().insert(a),
{
    let t = s.push(a);
    assert forall|x: u32| t.to_set().contains(x) <==> s.to_set().insert(a).contains(x) by {
        if t.contains(x) {
            let k = choose|k: int| 0 <= k < t.len() && t[k] == x;
            if k < s.len() {
                assert(s[k] == x);
                assert(s.contains(x));
            }
        }
        if s.contains(x) {
            let k = choose|k: int| 0 <= k < s.len() && s[k] == x;
            assert(t[k] == x);
        }
        if x == a {
            assert(t[s.len() as int] == a);
        }
    }
    assert(t.to_set() =~= s.to_set().insert(a));
}

fn find_high_exec(entries: &Vec<FullWord>, start: usize, target: &[u8], used: &Vec<u32>) -> (r: Option<usize>)
    ensures
        r is Some <==> find_high(seq_view(entries@), start as int, target@, used@.to_set()) >= 0,
        r is Some ==> r->0 == find_high(seq_view(entries@), start as int, target@, used@.to_set())
            && r->0 < entries@.len(),
{
    let ghost full = seq_view(entries@);
    let ghost u = used@.to_set();
    let mut j: usize = start;
    while j < entries.len()
        invariant
            start <= j,
            full == seq_view(entries@),
            u == used@.to_set(),
            find_high(full, start as int, target@, u) == find_high(full, j as int, target@, u),
        decreases entries@.len() - j,
    {
        assert(full[j as int] == entries@[j as int]@);
        if !contains_u32(used, entries[j].dw) && bytes_eq(entries[j].field_name.as_slice(), target) {
            return Some(j);
        }
        j += 1;
    }
    None
}

/// The 64-bit values that pairs of whole-dword fields of `pkt` hold.
pub fn detect_joins(pkt: &Packet) -> (r: Vec<Join>)
    ensures
        seq_view(r@) == joins_of(pkt@),
        joins_wf(seq_view(r@)),
{
    proof {
        use_type_invariant(pkt);
        lemma_joins_wf(pkt@);
    }
    let ghost full = pkt@.full;
    let entries = pkt.full();
    let mut joins: Vec<Join> = Vec::new();
    let mut used: Vec<u32> = Vec::new();
    assert(used@.to_set() =~= Set::<u32>::empty());
    assert(seq_view(joins@) =~= Seq::<JoinSpec>::empty());
    let mut i: usize = 0;
    while i < entries.len()
        invariant
            i <= entries@.len(),
            full == seq_view(entries@),
            joins_of(pkt@) == joins_from(full, i as int, used@.to_set(), seq_view(joins@)),
        decreases entries@.len() - i,
    {
        let ghost u = used@.to_set();
        let lo_dw = entries[i].dw;
        assert(full[i as int] == entries@[i as int]@);
        if contains_u32(&used, lo_dw) {
            i += 1;
            continue;
        }
        let base = match strip_suffix(entries[i].field_name.as_slice(), "_31_0".as_bytes()) {
            Some(b) => b,
            None => {
                i += 1;
                continue;
            },
        };
        let mut target: Vec<u8> = Vec::new();
        push_all(&mut target, base.as_slice());
        push_all(&mut target, "_63_32".as_bytes());
        match find_high_exec(entries, i + 1, target.as_slice(), &used) {
            Some(j) => {
                let hi_dw = entries[j].dw;
                assert(full[j as int] == entries@[j as int]@);
                let ghost jv = seq_view(joins@);
                joins.push(Join { lo: lo_dw, hi: hi_dw, name: base });
                proof {
                    lemma_push_to_set(used@, lo_dw);
                    lemma_push_to_set(used@.push(lo_dw), hi_dw);
                }
                used.push(lo_dw);
                used.push(hi_dw);
                assert(seq_view(joins@) =~= jv.push((lo_dw, hi_dw, base@)));
            },
            None => {},
        }
        i += 1;
    }
    joins
}

// ── the variable-length payload ──────────────────────────────────────────────

/// The first whole-dword field from entry `i` on that no join holds and
/// whose word name ends in a digit (`DATA0`): the start of a payload.
pub open spec fn dyn_from(full: Seq<(u32, Seq<u8>, Seq<u8>)>, i: int, jd: Set<u32>) -> Option<(u32, Seq<u8>)>
    decreases full.len() - i,
{
    if i < 0 || i >= full.len() {
        None
    } else if !jd.contains(full[i].0) && full[i].1.len() > 0 && is_digit(full[i].1.last()) {
        Some((full[i].0, full[i].2))
    } else {
        dyn_from(full, i + 1, jd)
    }
}

/// The dword where the packet's payload of variable length starts, and the
/// name of the payload.
pub fn detect_dyn(pkt: &Packet, join_dw: &Vec<u32>) -> (r: Option<(u32, Vec<u8>)>)
    ensures
        r is Some <==> dyn_from(pkt@.full, 0, join_dw@.to_set()) is Some,
        r matches Some((dw, name)) ==> dyn_from(pkt@.full, 0, join_dw@.to_set()) == Some((dw, name@)),
{
    let ghost full = pkt@.full;
    let ghost jd = join_dw@.to_set();
    let entries = pkt.full();
    let mut i: usize = 0;
    while i < entries.len()
        invariant
            i <= pkt@.full.len(),
            full == seq_view(entries@),
            full == pkt@.full,
            jd == join_dw@.to_set(),
            dyn_from(full, 0, jd) == dyn_from(full, i as int, jd),
        decreases entries@.len() - i,
    {
        let e = &entries[i];
        assert(full[i as int] == e@);
        if !contains_u32(join_dw, e.dw) {
            let wl = e.word_name.len();
            if wl > 0 && 0x30 <= e.word_name[wl - 1] && e.word_name[wl - 1] <= 0x39 {
                let name = copy_range(e.field_name.as_slice(), 0, e.field_name.len());
                assert(e.field_name@.subrange(0, e.field_name@.len() as int) == e.field_name@);
                return Some((e.dw, name));
            }
        }
        i += 1;
    }
    None
}

// ── types and masks ──────────────────────────────────────────────────────────

/// The number of ones in the binary digits of `x`.
pub open spec fn popcount(x: nat) -> nat
    decreases x,
{
    if x == 0 {
        0
    } else {
        x % 2 + popcount(x / 2)
    }
}

/// The type of a bit field with `n` bits.
pub open spec fn type_for_width(n: nat) -> Seq<u8> {
    if n == 1 {
        "bool".spec_bytes()
    } else if 2 <= n <= 8 {
        "u8".spec_bytes()
    } else if 9 <= n <= 16 {
        "u16".spec_bytes()
    } else {
        "u32".spec_bytes()
    }
}

/// The smallest type that holds the bits of `mask`.
pub fn infer_type(mask: u32) -> (r: &'static str)
    ensures
        r.spec_bytes() == type_for_width(popcount(mask as nat)),
{
    let mut ones: u32 = 0;
    let mut v: u32 = mask;
    while v > 0
        invariant
            popcount(mask as nat) == ones + popcount(v as nat),
            ones + v <= u32::MAX,
        decreases v,
    {
        ones = ones + v % 2;
        v = v / 2;
    }
    if ones == 1 {
        "bool"
    } else if 2 <= ones && ones <= 8 {
        "u8"
    } else if 9 <= ones && ones <= 16 {
        "u16"
    } else {
        "u32"
    }
}

/// `mask` as `0x` and lower-case hexadecimal digits.
pub open spec fn mask_text(mask: u32) -> Seq<u8> {
    "0x".spec_bytes() + hex(mask as nat)
}

/// The hexadecimal digits of `n` are lower-case digits, with no leading
/// zero, and read back in base 16 as `n`.
pub proof fn lemma_hex_reads_back(n: nat)
    ensures
        hex(n).len() > 0,
        forall|i: int|
            0 <= i < hex(n).len() ==> (0x30 <= #[trigger] hex(n)[i] <= 0x39 || 0x61 <= hex(n)[i] <= 0x66),
        n > 0 ==> hex(n)[0] != 0x30,
        all_digits(hex(n), 16),
        digits_value(hex(n), 16) == n,
    decreases n,
{
    if n >= 16 {
        lemma_hex_reads_back(n / 16);
        let s = hex(n / 16);
        let t = hex(n);
        assert(t.drop_last() == s);
        assert forall|i: int| 0 <= i < t.len() implies (0x30 <= #[trigger] t[i] <= 0x39 || 0x61 <= t[i]
            <= 0x66) by {
            if i < s.len() {
                assert(t[i] == s[i]);
            }
        }
        assert forall|i: int| 0 <= i < t.len() implies digit_value(#[trigger] t[i], 16) >= 0 by {
            if i < s.len() {
                assert(t[i] == s[i]);
            }
        }
        assert(t[0] == s[0]);
        assert(digit_value(t.last(), 16) == n % 16);
        assert(digits_value(t, 16) == (digits_value(s, 16) * 16 + digit_value(t.last(), 16)) as nat);
        assert(n == (n / 16) * 16 + n % 16) by (nonlinear_arith);
    } else {
        let t = hex(n);
        assert(t.drop_last() =~= Seq::<u8>::empty());
        assert(digit_value(t.last(), 16) == n);
        assert(digits_value(t.drop_last(), 16) == 0);
        assert(digits_value(t, 16) == (digits_value(t.drop_last(), 16) * 16 + digit_value(t.last(), 16)) as nat);
    }
}

/// The decimal digits of `n` are digits, with no leading zero, and read
/// back in base 10 as `n`.
pub proof fn lemma_dec_reads_back(n: nat)
    ensures
        dec(n).len() > 0,
        forall|i: int| 0 <= i < dec(n).len() ==> 0x30 <= #[trigger] dec(n)[i] <= 0x39,
        n > 0 ==> dec(n)[0] != 0x30,
        all_digits(dec(n), 10),
        digits_value(dec(n), 10) == n,
    decreases n,
{
    if n >= 10 {
        lemma_dec_reads_back(n / 10);
        let s = dec(n / 10);
        let t = dec(n);
        assert(t.drop_last() == s);
        assert forall|i: int| 0 <= i < t.len() implies 0x30 <= #[trigger] t[i] <= 0x39 by {
            if i < s.len() {
                assert(t[i] == s[i]);
            }
        }
        assert forall|i: int| 0 <= i < t.len() implies digit_value(#[trigger] t[i], 10) >= 0 by {
            if i < s.len() {
                assert(t[i] == s[i]);
            }
        }
        assert(t[0] == s[0]);
        assert(digit_value(t.last(), 10) == n % 10);
        assert(digits_value(t, 10) == (digits_value(s, 10) * 10 + digit_value(t.last(), 10)) as nat);
        assert(n == (n / 10) * 10 + n % 10) by (nonlinear_arith);
    } else {
        let t = dec(n);
        assert(t.drop_last() =~= Seq::<u8>::empty());
        assert(digit_value(t.last(), 10) == n);
        assert(digits_value(t.drop_last(), 10) == 0);
        assert(digits_value(t, 10) == (digits_value(t.drop_last(), 10) * 10 + digit_value(t.last(), 10)) as nat);
    }
}

/// A mask as the generator writes it reads back, as the header's numbers
/// are read, as the same mask.
pub proof fn lemma_mask_text_reads_back(mask: u32)
    ensures
        hex_or_dec(mask_text(mask)) == Some(mask),
{
    let h = hex(mask as nat);
    let t = mask_text(mask);
    lemma_hex_reads_back(mask as nat);
    reveal_strlit("0x");
    broadcast use vstd::string::is_ascii_spec_bytes;
    assert(vstd::string::is_ascii("0x"));
    assert("0x".spec_bytes() =~= seq![0x30u8, 0x78u8]);
    assert(t.len() == h.len() + 2);
    assert(t[0] == 0x30u8 && t[1] == 0x78u8);
    assert(ws_prefix(t) == 0);
    assert(trim_start(t) == t);
    assert(t[t.len() - 1] == h[h.len() - 1]);
    assert(ws_suffix(t) == 0);
    assert(trim(t) == t);
    assert(t.subrange(0, 2) == "0x".spec_bytes());
    assert(t.subrange(2, t.len() as int) == h);
    assert(h[0] != 0x2bu8);
}

pub fn fmt_mask(mask: u32) -> (r: Vec<u8>)
    ensures
        r@ == mask_text(mask),
{
    let mut r: Vec<u8> = Vec::new();
    push_all(&mut r, "0x".as_bytes());
    let h = fmt_hex(mask);
    push_all(&mut r, h.as_slice());
    r
}

// ── the text ─────────────────────────────────────────────────────────────────

/// `\t\t& <mask> << <shift> = <name>: <type>;`
pub open spec fn bit_line(b: BitSpec) -> Seq<u8> {
    "\t\t& ".spec_bytes() + mask_text(b.1) + " << ".spec_bytes() + dec(b.2 as nat) + " = ".spec_bytes()
        + b.0 + ": ".spec_bytes() + type_for_width(popcount(b.1 as nat)) + ";\n".spec_bytes()
}

pub open spec fn bit_lines(fs: Seq<BitSpec>) -> Seq<u8>
    decreases fs.len(),
{
    if fs.len() == 0 {
        Seq::empty()
    } else {
        bit_lines(fs.drop_last()) + bit_line(fs.last())
    }
}

/// `\tdw[<dw>] = {`, the bit fields, `\t}`.
pub open spec fn bits_word_text(w: (u32, Seq<BitSpec>)) -> Seq<u8> {
    "\tdw[".spec_bytes() + dec(w.0 as nat) + "] = {\n".spec_bytes() + bit_lines(w.1) + "\t}\n".spec_bytes()
}

/// A dword that neither a join nor the payload holds.
pub open spec fn outside(dw: u32, jd: Set<u32>, dyn_dw: Option<u32>) -> bool {
    !jd.contains(dw) && dyn_dw != Some(dw)
}

pub open spec fn bits_text(bits: Seq<(u32, Seq<BitSpec>)>, jd: Set<u32>, dd: Option<u32>) -> Seq<u8>
    decreases bits.len(),
{
    if bits.len() == 0 {
        Seq::empty()
    } else if outside(bits.last().0, jd, dd) {
        bits_text(bits.drop_last(), jd, dd) + bits_word_text(bits.last())
    } else {
        bits_text(bits.drop_last(), jd, dd)
    }
}

/// `\tdw[<dw>] = <name>: u32;`
pub open spec fn full_line(e: (u32, Seq<u8>, Seq<u8>)) -> Seq<u8> {
    "\tdw[".spec_bytes() + dec(e.0 as nat) + "] = ".spec_bytes() + e.2 + ": u32;\n".spec_bytes()
}

pub open spec fn full_text(full: Seq<(u32, Seq<u8>, Seq<u8>)>, jd: Set<u32>, dd: Option<u32>) -> Seq<u8>
    decreases full.len(),
{
    if full.len() == 0 {
        Seq::empty()
    } else if outside(full.last().0, jd, dd) {
        full_text(full.drop_last(), jd, dd) + full_line(full.last())
    } else {
        full_text(full.drop_last(), jd, dd)
    }
}

/// `\tdw[<lo>], dw[<hi>] = <name>: u64;`
pub open spec fn join_line(j: JoinSpec) -> Seq<u8> {
    "\tdw[".spec_bytes() + dec(j.0 as nat) + "], dw[".spec_bytes() + dec(j.1 as nat) + "] = ".spec_bytes() + j.2
        + ": u64;\n".spec_bytes()
}

pub open spec fn join_text(joins: Seq<JoinSpec>) -> Seq<u8>
    decreases joins.len(),
{
    if joins.len() == 0 {
        Seq::empty()
    } else {
        join_text(joins.drop_last()) + join_line(joins.last())
    }
}

pub open spec fn dyn_text(dw: u32, name: Seq<u8>) -> Seq<u8> {
    "\t@dyn\n\t// TODO: identify the length field index\n\tdw[".spec_bytes() + dec(dw as nat) + "..] = ".spec_bytes()
        + name + ": &'a [u32],\n\tdw[???] = len\n".spec_bytes()
}

/// `@bits` and the dwords of bit fields, where there are any.
pub open spec fn bits_section(bits: Seq<(u32, Seq<BitSpec>)>, jd: Set<u32>, dd: Option<u32>) -> Seq<u8> {
    if exists|i: int| 0 <= i < bits.len() && outside(#[trigger] bits[i].0, jd, dd) {
        "\t@bits\n".spec_bytes() + bits_text(bits, jd, dd)
    } else {
        Seq::empty()
    }
}

/// `@full` and the whole-dword fields, where there are any.
pub open spec fn full_section(full: Seq<(u32, Seq<u8>, Seq<u8>)>, jd: Set<u32>, dd: Option<u32>) -> Seq<u8> {
    if exists|i: int| 0 <= i < full.len() && outside(#[trigger] full[i].0, jd, dd) {
        "\t@full\n".spec_bytes() + full_text(full, jd, dd)
    } else {
        Seq::empty()
    }
}

/// `@join` and the 64-bit values, where there are any.
pub open spec fn join_section(joins: Seq<JoinSpec>) -> Seq<u8> {
    if joins.len() > 0 {
        "\t@join\n".spec_bytes() + join_text(joins)
    } else {
        Seq::empty()
    }
}

/// The description of one packet.
pub open spec fn packet_text(p: PacketSpec) -> Seq<u8> {
    let joins = joins_of(p);
    let jd = join_dws(joins);
    let dy = dyn_from(p.full, 0, jd);
    let dd = match dy {
        Some((dw, _)) => Some(dw),
        None => None,
    };
    let head = p.name + (if dy is Some {
        "<'a> {\n".spec_bytes()
    } else {
        " {\n".spec_bytes()
    });
    let bits = bits_section(p.bits, jd, dd);
    let full = full_section(p.full, jd, dd);
    let join = join_section(joins);
    let dyn_part = match dy {
        Some((dw, name)) => dyn_text(dw, name),
        None => Seq::empty(),
    };
    head + bits + full + join + dyn_part + "}\n".spec_bytes()
}

fn outside_exec(dw: u32, jd: &Vec<u32>, dd: Option<u32>) -> (r: bool)
    ensures
        r == outside(dw, jd@.to_set(), dd),
{
    let in_join = contains_u32(jd, dw);
    match dd {
        Some(d) => !in_join && d != dw,
        None => !in_join,
    }
}

fn bit_lines_exec(out: &mut Vec<u8>, fs: &Vec<super::packets::BitField>)
    ensures
        final(out)@ == old(out)@ + bit_lines(seq_view(fs@)),
{
    let ghost v = seq_view(fs@);
    let ghost start = out@;
    let mut i: usize = 0;
    assert(v.subrange(0, 0) =~= Seq::<BitSpec>::empty());
    assert(start + bit_lines(Seq::<BitSpec>::empty()) =~= start);
    while i < fs.len()
        invariant
            i <= fs@.len(),
            v == seq_view(fs@),
            out@ == start + bit_lines(v.subrange(0, i as int)),
        decreases fs@.len() - i,
    {
        let ghost pre1 = v.subrange(0, i + 1);
        assert(pre1.drop_last() == v.subrange(0, i as int));
        assert(pre1.last() == fs@[i as int]@);
        let b = &fs[i];
        let ghost before = out@;
        push_all(out, "\t\t& ".as_bytes());
        let m = fmt_mask(b.mask);
        push_all(out, m.as_slice());
        push_all(out, " << ".as_bytes());
        let sh = fmt_dec(b.shift);
        push_all(out, sh.as_slice());
        push_all(out, " = ".as_bytes());
        push_all(out, b.name.as_slice());
        push_all(out, ": ".as_bytes());
        let t = infer_type(b.mask);
        push_all(out, t.as_bytes());
        push_all(out, ";\n".as_bytes());
        assert(out@ =~= before + bit_line(b@));
        i += 1;
    }
    assert(v.subrange(0, fs@.len() as int) == v);
}

fn bits_text_exec(out: &mut Vec<u8>, bits: &Vec<BitsWord>, jd: &Vec<u32>, dd: Option<u32>) -> (any: bool)
    ensures
        final(out)@ == old(out)@ + bits_text(seq_view(bits@), jd@.to_set(), dd),
        any == exists|i: int|
            0 <= i < bits@.len() && outside(#[trigger] seq_view(bits@)[i].0, jd@.to_set(), dd),
{
    let ghost v = seq_view(bits@);
    let ghost s = jd@.to_set();
    let ghost start = out@;
    let mut any = false;
    let mut i: usize = 0;
    assert(start + bits_text(v.subrange(0, 0), s, dd) =~= start);
    while i < bits.len()
        invariant
            i <= bits@.len(),
            v == seq_view(bits@),
            s == jd@.to_set(),
            out@ == start + bits_text(v.subrange(0, i as int), s, dd),
            any == exists|k: int| 0 <= k < i && outside(#[trigger] v[k].0, s, dd),
        decreases bits@.len() - i,
    {
        let ghost pre1 = v.subrange(0, i + 1);
        assert(pre1.drop_last() == v.subrange(0, i as int));
        assert(pre1.last() == bits@[i as int]@);
        let w = &bits[i];
        if outside_exec(w.dw, jd, dd) {
            let ghost before = out@;
            push_all(out, "\tdw[".as_bytes());
            let d = fmt_dec(w.dw);
            push_all(out, d.as_slice());
            push_all(out, "] = {\n".as_bytes());
            let ghost mid = out@;
            bit_lines_exec(out, &w.fields);
            push_all(out, "\t}\n".as_bytes());
            assert(out@ =~= before + bits_word_text(w@));
            any = true;
        }
        i += 1;
    }
    assert(v.subrange(0, bits@.len() as int) == v);
    any
}

fn full_text_exec(out: &mut Vec<u8>, full: &Vec<FullWord>, jd: &Vec<u32>, dd: Option<u32>) -> (any: bool)
    ensures
        final(out)@ == old(out)@ + full_text(seq_view(full@), jd@.to_set(), dd),
        any == exists|i: int|
            0 <= i < full@.len() && outside(#[trigger] seq_view(full@)[i].0, jd@.to_set(), dd),
{
    let ghost v = seq_view(full@);
    let ghost s = jd@.to_set();
    let ghost start = out@;
    let mut any = false;
    let mut i: usize = 0;
    assert(start + full_text(v.subrange(0, 0), s, dd) =~= start);
    while i < full.len()
        invariant
            i <= full@.len(),
            v == seq_view(full@),
            s == jd@.to_set(),
            out@ == start + full_text(v.subrange(0, i as int), s, dd),
            any == exists|k: int| 0 <= k < i && outside(#[trigger] v[k].0, s, dd),
        decreases full@.len() - i,
    {
        let ghost pre1 = v.subrange(0, i + 1);
        assert(pre1.drop_last() == v.subrange(0, i as int));
        assert(pre1.last() == full@[i as int]@);
        let e = &full[i];
        if outside_exec(e.dw, jd, dd) {
            let ghost before = out@;
            push_all(out, "\tdw[".as_bytes());
            let d = fmt_dec(e.dw);
            push_all(out, d.as_slice());
            push_all(out, "] = ".as_bytes());
            push_all(out, e.field_name.as_slice());
            push_all(out, ": u32;\n".as_bytes());
            assert(out@ =~= before + full_line(e@));
            any = true;
        }
        i += 1;
    }
    assert(v.subrange(0, full@.len() as int) == v);
    any
}

fn join_text_exec(out: &mut Vec<u8>, joins: &Vec<Join>)
    ensures
        final(out)@ == old(out)@ + join_text(seq_view(joins@)),
{
    let ghost v = seq_view(joins@);
    let ghost start = out@;
    let mut i: usize = 0;
    assert(start + join_text(v.subrange(0, 0)) =~= start);
    while i < joins.len()
        invariant
            i <= joins@.len(),
            v == seq_view(joins@),
            out@ == start + join_text(v.subrange(0, i as int)),
        decreases joins@.len() - i,
    {
        let ghost pre1 = v.subrange(0, i + 1);
        assert(pre1.drop_last() == v.subrange(0, i as int));
        assert(pre1.last() == joins@[i as int]@);
        let j = &joins[i];
        let ghost before = out@;
        push_all(out, "\tdw[".as_bytes());
        let lo = fmt_dec(j.lo);
        push_all(out, lo.as_slice());
        push_all(out, "], dw[".as_bytes());
        let hi = fmt_dec(j.hi);
        push_all(out, hi.as_slice());
        push_all(out, "] = ".as_bytes());
        push_all(out, j.name.as_slice());
        push_all(out, ": u64;\n".as_bytes());
        assert(out@ =~= before + join_line(j@));
        i += 1;
    }
    assert(v.subrange(0, joins@.len() as int) == v);
}

fn bits_section_exec(out: &mut Vec<u8>, bits: &Vec<BitsWord>, jd: &Vec<u32>, dd: Option<u32>)
    ensures
        final(out)@ == old(out)@ + bits_section(seq_view(bits@), jd@.to_set(), dd),
{
    let mut body: Vec<u8> = Vec::new();
    let any = bits_text_exec(&mut body, bits, jd, dd);
    if any {
        push_all(out, "\t@bits\n".as_bytes());
        push_all(out, body.as_slice());
        assert(out@ =~= old(out)@ + bits_section(seq_view(bits@), jd@.to_set(), dd));
    } else {
        assert(out@ =~= old(out)@ + bits_section(seq_view(bits@), jd@.to_set(), dd));
    }
}

fn full_section_exec(out: &mut Vec<u8>, full: &Vec<FullWord>, jd: &Vec<u32>, dd: Option<u32>)
    ensures
        final(out)@ == old(out)@ + full_section(seq_view(full@), jd@.to_set(), dd),
{
    let mut body: Vec<u8> = Vec::new();
    let any = full_text_exec(&mut body, full, jd, dd);
    if any {
        push_all(out, "\t@full\n".as_bytes());
        push_all(out, body.as_slice());
        assert(out@ =~= old(out)@ + full_section(seq_view(full@), jd@.to_set(), dd));
    } else {
        assert(out@ =~= old(out)@ + full_section(seq_view(full@), jd@.to_set(), dd));
    }
}

fn join_section_exec(out: &mut Vec<u8>, joins: &Vec<Join>)
    ensures
        final(out)@ == old(out)@ + join_section(seq_view(joins@)),
{
    if joins.len() > 0 {
        push_all(out, "\t@join\n".as_bytes());
        join_text_exec(out, joins);
        assert(out@ =~= old(out)@ + join_section(seq_view(joins@)));
    } else {
        assert(out@ =~= old(out)@ + join_section(seq_view(joins@)));
    }
}

fn dyn_section_exec(out: &mut Vec<u8>, dyn_field: Option<(u32, Vec<u8>)>)
    ensures
        final(out)@ == old(out)@ + match dyn_field {
            Some((dw, name)) => dyn_text(dw, name@),
            None => Seq::empty(),
        },
{
    if let Some((dw, name)) = dyn_field {
        push_all(out, "\t@dyn\n\t// TODO: identify the length field index\n\tdw[".as_bytes());
        let d = fmt_dec(dw);
        push_all(out, d.as_slice());
        push_all(out, "..] = ".as_bytes());
        push_all(out, name.as_slice());
        push_all(out, ": &'a [u32],\n\tdw[???] = len\n".as_bytes());
        assert(out@ =~= old(out)@ + dyn_text(dw, name@));
    } else {
        assert(out@ =~= old(out)@ + Seq::<u8>::empty());
    }
}

/// The dwords that the joins hold, as a vector.
fn join_dw_list(joins: &Vec<Join>) -> (r: Vec<u32>)
    ensures
        r@.to_set() == join_dws(seq_view(joins@)),
{
    let ghost v = seq_view(joins@);
    let mut r: Vec<u32> = Vec::new();
    let mut i: usize = 0;
    assert(r@.to_set() =~= Set::<u32>::empty());
    while i < joins.len()
        invariant
            i <= joins@.len(),
            v == seq_view(joins@),
            r@.to_set() == join_dws(v.subrange(0, i as int)),
        decreases joins@.len() - i,
    {
        let ghost pre1 = v.subrange(0, i + 1);
        assert(pre1.drop_last() == v.subrange(0, i as int));
        assert(pre1.last() == joins@[i as int]@);
        proof {
            lemma_push_to_set(r@, joins@[i as int].lo);
            lemma_push_to_set(r@.push(joins@[i as int].lo), joins@[i as int].hi);
        }
        r.push(joins[i].lo);
        r.push(joins[i].hi);
        i += 1;
    }
    assert(v.subrange(0, joins@.len() as int) == v);
    r
}

/// The description of one packet.
pub fn emit_packet(pkt: &Packet) -> (r: Vec<u8>)
    ensures
        r@ == packet_text(pkt@),
{
    let ghost p = pkt@;
    let ghost sj = joins_of(p);
    let ghost sjd = join_dws(sj);
    let ghost sdy = dyn_from(p.full, 0, sjd);
    let ghost sdd = match sdy {
        Some((dw, _)) => Some(dw),
        None => None,
    };
    let joins = detect_joins(pkt);
    let jd = join_dw_list(&joins);
    let dyn_field = detect_dyn(pkt, &jd);
    let dd: Option<u32> = match &dyn_field {
        Some((dw, _)) => Some(*dw),
        None => None,
    };
    assert(dd == sdd);
    let ghost dyn_part = match sdy {
        Some((dw, name)) => dyn_text(dw, name),
        None => Seq::empty(),
    };
    let mut out: Vec<u8> = Vec::new();
    push_all(&mut out, pkt.name().as_slice());
    if dyn_field.is_some() {
        push_all(&mut out, "<'a> {\n".as_bytes());
    } else {
        push_all(&mut out, " {\n".as_bytes());
    }
    let ghost head = out@;
    assert(head =~= p.name + (if sdy is Some {
        "<'a> {\n".spec_bytes()
    } else {
        " {\n".spec_bytes()
    }));
    bits_section_exec(&mut out, pkt.bits(), &jd, dd);
    full_section_exec(&mut out, pkt.full(), &jd, dd);
    join_section_exec(&mut out, &joins);
    dyn_section_exec(&mut out, dyn_field);
    push_all(&mut out, "}\n".as_bytes());
    assert(out@ =~= head + bits_section(p.bits, sjd, sdd) + full_section(p.full, sjd, sdd) + join_section(sj)
        + dyn_part + "}\n".spec_bytes());
    out
}

/// The descriptions of the packets that have fields, each followed by an
/// empty line.
pub open spec fn packets_text(pkts: Seq<PacketSpec>) -> Seq<u8>
    decreases pkts.len(),
{
    if pkts.len() == 0 {
        Seq::empty()
    } else if pkts.last().bits.len() == 0 && pkts.last().full.len() == 0 {
        packets_text(pkts.drop_last())
    } else {
        packets_text(pkts.drop_last()) + packet_text(pkts.last()) + "\n".spec_bytes()
    }
}

/// What the generator writes for the header `src`.
pub open spec fn generated(src: Seq<u8>) -> Seq<u8> {
    let names = packet_names(src);
    packets_text(packets_of(raw_fields(src, names), names))
}

/// The packet descriptions for the SDMA header `src`.
pub fn generate(src: &[u8]) -> (r: Vec<u8>)
    ensures
        r@ == generated(src@),
{
    let names = collect_packet_names(src);
    let raw = parse_raw_fields(src, names.as_slice());
    let packets = build_packets(raw, names.as_slice());
    let ghost pv = seq_view(packets@);
    let mut out: Vec<u8> = Vec::new();
    let mut i: usize = 0;
    while i < packets.len()
        invariant
            i <= packets@.len(),
            pv == seq_view(packets@),
            pv == packets_of(raw_fields(src@, packet_names(src@)), packet_names(src@)),
            out@ == packets_text(pv.subrange(0, i as int)),
        decreases packets@.len() - i,
    {
        let ghost pre1 = pv.subrange(0, i + 1);
        assert(pre1.drop_last() == pv.subrange(0, i as int));
        assert(pre1.last() == packets@[i as int]@);
        let p = &packets[i];
        if !(p.bits().len() == 0 && p.full().len() == 0) {
            let text = emit_packet(p);
            push_all(&mut out, text.as_slice());
            push_all(&mut out, "\n".as_bytes());
        }
        i += 1;
    }
    assert(pv.subrange(0, packets@.len() as int) == pv);
    out
}

} // verus!
