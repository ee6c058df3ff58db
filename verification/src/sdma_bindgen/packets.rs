//! The fields grouped into packets: per dword, either bit fields or one
//! field that takes the whole dword.
use vstd::prelude::*;

use super::fields::{RawField, RawFieldSpec, raw_views};
use crate::text::{
    bytes_eq, copy_all, copy_range, push_all, split_byte, split_byte_exec, to_lowercase_utf8,
    to_uppercase_utf8, utf8_lowercase, utf8_uppercase, utf8_width, utf8_width_exec, views,
};

verus! {

pub open spec fn seq_view<T: View>(s: Seq<T>) -> Seq<T::V> {
    s.map_values(|x: T| x@)
}

// ── names ────────────────────────────────────────────────────────────────────

/// The length of the first character of the UTF-8 text `p` (all of `p`
/// where it is cut short).
pub open spec fn first_char_len(p: Seq<u8>) -> int {
    if utf8_width(p[0]) <= p.len() {
        utf8_width(p[0])
    } else {
        p.len() as int
    }
}

/// One piece of a name with its first character in upper case and the
/// rest in lower case, as `char::to_uppercase` and `str::to_lowercase`
/// map them.
pub open spec fn capitalized(p: Seq<u8>) -> Seq<u8> {
    if p.len() == 0 {
        Seq::empty()
    } else {
        let w = first_char_len(p);
        utf8_uppercase(p.subrange(0, w)) + utf8_lowercase(p.subrange(w, p.len() as int))
    }
}

pub open spec fn capitalized_all(parts: Seq<Seq<u8>>) -> Seq<u8>
    decreases parts.len(),
{
    if parts.len() == 0 {
        Seq::empty()
    } else {
        capitalized_all(parts.drop_last()) + capitalized(parts.last())
    }
}

/// `COPY_LINEAR` as `CopyLinear`: the pieces between underscores,
/// capitalized and run together.
pub open spec fn pascal(s: Seq<u8>) -> Seq<u8> {
    capitalized_all(split_byte(s, 0x5fu8))
}

fn capitalized_exec(out: &mut Vec<u8>, p: &[u8])
    ensures
        final(out)@ == old(out)@ + capitalized(p@),
{
    if p.len() == 0 {
        assert(old(out)@ + capitalized(p@) == old(out)@);
        return;
    }
    let n = p.len();
    let mut w = utf8_width_exec(p[0]);
    if w > n {
        w = n;
    }
    let first = to_uppercase_utf8(copy_range(p, 0, w).as_slice());
    let rest = to_lowercase_utf8(copy_range(p, w, n).as_slice());
    push_all(out, first.as_slice());
    push_all(out, rest.as_slice());
    assert(out@ =~= old(out)@ + capitalized(p@));
}

/// `COPY_LINEAR` as `CopyLinear`.
pub fn to_pascal(s: &[u8]) -> (r: Vec<u8>)
    ensures
        r@ == pascal(s@),
{
    let parts = split_byte_exec(s, 0x5f);
    let ghost pv = views(parts@);
    let mut r: Vec<u8> = Vec::new();
    let mut i: usize = 0;
    while i < parts.len()
        invariant
            i <= parts@.len(),
            pv == views(parts@),
            pv == split_byte(s@, 0x5fu8),
            r@ == capitalized_all(pv.subrange(0, i as int)),
        decreases parts@.len() - i,
    {
        let ghost pre1 = pv.subrange(0, i + 1);
        assert(pre1.drop_last() == pv.subrange(0, i as int));
        assert(pre1.last() == parts@[i as int]@);
        capitalized_exec(&mut r, parts[i].as_slice());
        i += 1;
    }
    assert(pv.subrange(0, parts@.len() as int) == pv);
    r
}

// ── the model ────────────────────────────────────────────────────────────────

/// A bit field of a dword: its name, mask and shift.
pub type BitSpec = (Seq<u8>, u32, u32);

/// A packet: its name, its dwords of bit fields in the order of the dword
/// index, each with its fields in the order of their shifts, and its
/// whole-dword fields (dword index, word name, field name) in the order of
/// the dword index.
pub struct PacketSpec {
    pub name: Seq<u8>,
    pub bits: Seq<(u32, Seq<BitSpec>)>,
    pub full: Seq<(u32, Seq<u8>, Seq<u8>)>,
}

/// `full` with the whole-dword field of dword `dw`, unless `dw` has one.
pub open spec fn full_insert(full: Seq<(u32, Seq<u8>, Seq<u8>)>, dw: u32, word: Seq<u8>, field: Seq<u8>) -> Seq<
    (u32, Seq<u8>, Seq<u8>),
>
    decreases full.len(),
{
    if full.len() == 0 {
        seq![(dw, word, field)]
    } else if full.last().0 < dw {
        full.push((dw, word, field))
    } else if full.last().0 == dw {
        full
    } else {
        full_insert(full.drop_last(), dw, word, field).push(full.last())
    }
}

/// `list` with `b` after every field whose shift is not greater.
pub open spec fn shift_insert(list: Seq<BitSpec>, b: BitSpec) -> Seq<BitSpec>
    decreases list.len(),
{
    if list.len() == 0 {
        seq![b]
    } else if list.last().2 <= b.2 {
        list.push(b)
    } else {
        shift_insert(list.drop_last(), b).push(list.last())
    }
}

pub open spec fn has_name(list: Seq<BitSpec>, name: Seq<u8>) -> bool {
    exists|i: int| 0 <= i < list.len() && (#[trigger] list[i]).0 == name
}

/// `list` with `b`, unless a field of that name is there.
pub open spec fn add_bit(list: Seq<BitSpec>, b: BitSpec) -> Seq<BitSpec> {
    if has_name(list, b.0) {
        list
    } else {
        shift_insert(list, b)
    }
}

/// `bits` with the bit field `b` of dword `dw`.
pub open spec fn bits_update(bits: Seq<(u32, Seq<BitSpec>)>, dw: u32, b: BitSpec) -> Seq<
    (u32, Seq<BitSpec>),
>
    decreases bits.len(),
{
    if bits.len() == 0 {
        seq![(dw, seq![b])]
    } else if bits.last().0 < dw {
        bits.push((dw, seq![b]))
    } else if bits.last().0 == dw {
        bits.drop_last().push((dw, add_bit(bits.last().1, b)))
    } else {
        bits_update(bits.drop_last(), dw, b).push(bits.last())
    }
}

/// The packet with one more field: a mask of all ones at shift 0 is a
/// whole-dword field, anything else a bit field.
pub open spec fn add_field(p: PacketSpec, rf: RawFieldSpec) -> PacketSpec {
    if rf.mask == 0xffff_ffff && rf.shift == 0 {
        PacketSpec { full: full_insert(p.full, rf.dw, rf.word_name, rf.field_name), ..p }
    } else {
        PacketSpec { bits: bits_update(p.bits, rf.dw, (rf.field_name, rf.mask, rf.shift)), ..p }
    }
}

/// The first packet at or after `i` named `name`, or -1.
pub open spec fn packet_index(pkts: Seq<PacketSpec>, name: Seq<u8>, i: nat) -> int
    decreases pkts.len() - i,
{
    if i >= pkts.len() {
        -1
    } else if pkts[i as int].name == name {
        i as int
    } else {
        packet_index(pkts, name, i + 1)
    }
}

pub open spec fn add_raw(pkts: Seq<PacketSpec>, rf: RawFieldSpec) -> Seq<PacketSpec> {
    let key = pascal(rf.pkt_name);
    let i = packet_index(pkts, key, 0);
    if i < 0 {
        pkts.push(add_field(PacketSpec { name: key, bits: Seq::empty(), full: Seq::empty() }, rf))
    } else {
        pkts.update(i, add_field(pkts[i], rf))
    }
}

/// The packets that the fields make up, in the order of first appearance.
pub open spec fn packet_table(raws: Seq<RawFieldSpec>) -> Seq<PacketSpec>
    decreases raws.len(),
{
    if raws.len() == 0 {
        Seq::empty()
    } else {
        add_raw(packet_table(raws.drop_last()), raws.last())
    }
}

/// The packets of `table` taken out in the order of `names` (what is left,
/// what was taken); a name whose packet is gone or missing takes nothing.
pub open spec fn take_packets(table: Seq<PacketSpec>, names: Seq<Seq<u8>>) -> (
    Seq<PacketSpec>,
    Seq<PacketSpec>,
)
    decreases names.len(),
{
    if names.len() == 0 {
        (table, Seq::empty())
    } else {
        let (rem, out) = take_packets(table, names.drop_last());
        let i = packet_index(rem, pascal(names.last()), 0);
        if i < 0 {
            (rem, out)
        } else {
            (rem.remove(i), out.push(rem[i]))
        }
    }
}

/// The packets that the fields make up, in the order of `names`.
pub open spec fn packets_of(raws: Seq<RawFieldSpec>, names: Seq<Seq<u8>>) -> Seq<PacketSpec> {
    take_packets(packet_table(raws), names).1
}

// ── the executable model ─────────────────────────────────────────────────────

pub struct BitField {
    pub name: Vec<u8>,
    pub mask: u32,
    pub shift: u32,
}

impl View for BitField {
    type V = BitSpec;

    open spec fn view(&self) -> BitSpec {
        (self.name@, self.mask, self.shift)
    }
}

/// The bit fields of one dword.
pub struct BitsWord {
    pub dw: u32,
    pub fields: Vec<BitField>,
}

impl View for BitsWord {
    type V = (u32, Seq<BitSpec>);

    open spec fn view(&self) -> (u32, Seq<BitSpec>) {
        (self.dw, seq_view(self.fields@))
    }
}

/// A field that takes the whole dword.
pub struct FullWord {
    pub dw: u32,
    pub word_name: Vec<u8>,
    pub field_name: Vec<u8>,
}

impl View for FullWord {
    type V = (u32, Seq<u8>, Seq<u8>);

    open spec fn view(&self) -> (u32, Seq<u8>, Seq<u8>) {
        (self.dw, self.word_name@, self.field_name@)
    }
}

/// A packet: its Pascal-case name, its dwords of bit fields and its
/// whole-dword fields. Every packet is well formed (`packet_wf`): the
/// dwords are strictly increasing, and each dword's bit fields are ordered
/// by shift and named once.
pub struct Packet {
    pub(crate) name: Vec<u8>,
    pub(crate) bits: Vec<BitsWord>,
    pub(crate) full: Vec<FullWord>,
}

impl View for Packet {
    type V = PacketSpec;

    closed spec fn view(&self) -> PacketSpec {
        PacketSpec { name: self.name@, bits: seq_view(self.bits@), full: seq_view(self.full@) }
    }
}

impl Packet {
    /// What every packet keeps, from its construction on.
    #[verifier::type_invariant]
    pub(crate) open spec fn well_formed(self) -> bool {
        packet_wf(self@)
    }

    /// The packet's name.
    pub fn name(&self) -> (r: &Vec<u8>)
        ensures
            r@ == self@.name,
    {
        &self.name
    }

    /// The dwords of bit fields, in dword order.
    pub fn bits(&self) -> (r: &Vec<BitsWord>)
        ensures
            seq_view(r@) == self@.bits,
    {
        &self.bits
    }

    /// The whole-dword fields, in dword order.
    pub fn full(&self) -> (r: &Vec<FullWord>)
        ensures
            seq_view(r@) == self@.full,
    {
        &self.full
    }

}

proof fn lemma_full_insert_at(
    full: Seq<(u32, Seq<u8>, Seq<u8>)>,
    dw: u32,
    word: Seq<u8>,
    field: Seq<u8>,
    j: int,
)
    requires
        0 <= j <= full.len(),
        forall|k: int| j <= k < full.len() ==> full[k].0 > dw,
        j > 0 ==> full[j - 1].0 <= dw,
    ensures
        full_insert(full, dw, word, field) == (if j > 0 && full[j - 1].0 == dw {
            full
        } else {
            full.insert(j, (dw, word, field))
        }),
    decreases full.len(),
{
    if full.len() == 0 {
        assert(full.insert(0, (dw, word, field)) =~= seq![(dw, word, field)]);
    } else if j == full.len() {
        if full.last().0 < dw {
            assert(full.insert(j, (dw, word, field)) =~= full.push((dw, word, field)));
        }
    } else {
        let d = full.drop_last();
        lemma_full_insert_at(d, dw, word, field, j);
        if j > 0 && full[j - 1].0 == dw {
            assert(d.push(full.last()) =~= full);
        } else {
            assert(d.insert(j, (dw, word, field)).push(full.last()) =~= full.insert(j, (dw, word, field)));
        }
    }
}

proof fn lemma_shift_insert_at(list: Seq<BitSpec>, b: BitSpec, j: int)
    requires
        0 <= j <= list.len(),
        forall|k: int| j <= k < list.len() ==> list[k].2 > b.2,
        j > 0 ==> list[j - 1].2 <= b.2,
    ensures
        shift_insert(list, b) == list.insert(j, b),
    decreases list.len(),
{
    if list.len() == 0 {
        assert(list.insert(0, b) =~= seq![b]);
    } else if j == list.len() {
        assert(list.insert(j, b) =~= list.push(b));
    } else {
        let d = list.drop_last();
        lemma_shift_insert_at(d, b, j);
        assert(d.insert(j, b).push(list.last()) =~= list.insert(j, b));
    }
}

proof fn lemma_bits_update_at(bits: Seq<(u32, Seq<BitSpec>)>, dw: u32, b: BitSpec, j: int)
    requires
        0 <= j <= bits.len(),
        forall|k: int| j <= k < bits.len() ==> bits[k].0 > dw,
        j > 0 ==> bits[j - 1].0 <= dw,
    ensures
        bits_update(bits, dw, b) == (if j > 0 && bits[j - 1].0 == dw {
            bits.update(j - 1, (dw, add_bit(bits[j - 1].1, b)))
        } else {
            bits.insert(j, (dw, seq![b]))
        }),
    decreases bits.len(),
{
    if bits.len() == 0 {
        assert(bits.insert(0, (dw, seq![b])) =~= seq![(dw, seq![b])]);
    } else if j == bits.len() {
        if bits.last().0 < dw {
            assert(bits.insert(j, (dw, seq![b])) =~= bits.push((dw, seq![b])));
        } else {
            assert(bits.drop_last().push((dw, add_bit(bits.last().1, b))) =~= bits.update(
                j - 1,
                (dw, add_bit(bits[j - 1].1, b)),
            ));
        }
    } else {
        let d = bits.drop_last();
        lemma_bits_update_at(d, dw, b, j);
        if j > 0 && bits[j - 1].0 == dw {
            assert(d.update(j - 1, (dw, add_bit(bits[j - 1].1, b))).push(bits.last()) =~= bits.update(
                j - 1,
                (dw, add_bit(bits[j - 1].1, b)),
            ));
        } else {
            assert(d.insert(j, (dw, seq![b])).push(bits.last()) =~= bits.insert(j, (dw, seq![b])));
        }
    }
}

fn full_insert_exec(full: &mut Vec<FullWord>, dw: u32, word: Vec<u8>, field: Vec<u8>)
    ensures
        seq_view(final(full)@) == full_insert(seq_view(old(full)@), dw, word@, field@),
{
    let ghost v = seq_view(full@);
    let mut j: usize = full.len();
    while j > 0 && full[j - 1].dw > dw
        invariant
            j <= full@.len(),
            v == seq_view(full@),
            forall|k: int| j <= k < v.len() ==> v[k].0 > dw,
        decreases j,
    {
        j -= 1;
    }
    proof {
        lemma_full_insert_at(v, dw, word@, field@, j as int);
    }
    if j > 0 && full[j - 1].dw == dw {
        return;
    }
    full.insert(j, FullWord { dw, word_name: word, field_name: field });
    assert(seq_view(full@) =~= v.insert(j as int, (dw, word@, field@)));
}

fn has_name_exec(list: &Vec<BitField>, name: &[u8]) -> (r: bool)
    ensures
        r == has_name(seq_view(list@), name@),
{
    let ghost v = seq_view(list@);
    let mut i: usize = 0;
    while i < list.len()
        invariant
            i <= list@.len(),
            v == seq_view(list@),
            forall|k: int| 0 <= k < i ==> v[k].0 != name@,
        decreases list@.len() - i,
    {
        if bytes_eq(list[i].name.as_slice(), name) {
            assert(v[i as int].0 == name@);
            return true;
        }
        i += 1;
    }
    false
}

fn add_bit_exec(list: &mut Vec<BitField>, b: BitField)
    ensures
        seq_view(final(list)@) == add_bit(seq_view(old(list)@), b@),
{
    if has_name_exec(list, b.name.as_slice()) {
        return;
    }
    let ghost v = seq_view(list@);
    let mut j: usize = list.len();
    while j > 0 && list[j - 1].shift > b.shift
        invariant
            j <= list@.len(),
            v == seq_view(list@),
            forall|k: int| j <= k < v.len() ==> v[k].2 > b.shift,
        decreases j,
    {
        j -= 1;
    }
    proof {
        lemma_shift_insert_at(v, b@, j as int);
    }
    let ghost bv = b@;
    list.insert(j, b);
    assert(seq_view(list@) =~= v.insert(j as int, bv));
}

fn bits_update_exec(bits: &mut Vec<BitsWord>, dw: u32, b: BitField)
    ensures
        seq_view(final(bits)@) == bits_update(seq_view(old(bits)@), dw, b@),
{
    let ghost v = seq_view(bits@);
    let mut j: usize = bits.len();
    while j > 0 && bits[j - 1].dw > dw
        invariant
            j <= bits@.len(),
            v == seq_view(bits@),
            forall|k: int| j <= k < v.len() ==> v[k].0 > dw,
        decreases j,
    {
        j -= 1;
    }
    proof {
        lemma_bits_update_at(v, dw, b@, j as int);
    }
    let ghost bv = b@;
    if j > 0 && bits[j - 1].dw == dw {
        let mut word = bits.remove(j - 1);
        assert(word@ == v[j - 1]);
        add_bit_exec(&mut word.fields, b);
        bits.insert(j - 1, word);
        assert(seq_view(bits@) =~= v.update(j - 1, (dw, add_bit(v[j - 1].1, bv))));
    } else {
        let mut fields: Vec<BitField> = Vec::new();
        fields.push(b);
        assert(seq_view(fields@) =~= seq![bv]);
        bits.insert(j, BitsWord { dw, fields });
        assert(seq_view(bits@) =~= v.insert(j as int, (dw, seq![bv])));
    }
}

fn add_field_exec(p: Packet, rf: RawField) -> (r: Packet)
    ensures
        r@ == add_field(p@, rf@),
{
    proof {
        use_type_invariant(&p);
        lemma_add_field_wf(p@, rf@);
    }
    let ghost pv = p@;
    let ghost rv = rf@;
    let Packet { name, mut bits, mut full } = p;
    if rf.mask == 0xffff_ffff && rf.shift == 0 {
        full_insert_exec(&mut full, rf.dw, rf.word_name, rf.field_name);
    } else {
        let b = BitField { name: rf.field_name, mask: rf.mask, shift: rf.shift };
        bits_update_exec(&mut bits, rf.dw, b);
    }
    assert(PacketSpec { name: name@, bits: seq_view(bits@), full: seq_view(full@) } == add_field(pv, rv));
    Packet { name, bits, full }
}

fn packet_index_exec(pkts: &Vec<Packet>, name: &[u8]) -> (r: Option<usize>)
    ensures
        r is Some <==> packet_index(seq_view(pkts@), name@, 0) >= 0,
        r is Some ==> r->0 == packet_index(seq_view(pkts@), name@, 0) && r->0 < pkts@.len(),
{
    let ghost v = seq_view(pkts@);
    let mut i: usize = 0;
    while i < pkts.len()
        invariant
            i <= pkts@.len(),
            v == seq_view(pkts@),
            packet_index(v, name@, 0) == packet_index(v, name@, i as nat),
        decreases pkts@.len() - i,
    {
        assert(v[i as int].name == pkts@[i as int].name@);
        if bytes_eq(pkts[i].name.as_slice(), name) {
            return Some(i);
        }
        i += 1;
    }
    None
}

/// The fields grouped into packets named in Pascal case, in the order of
/// `pkt_names_ordered`; a packet appears once, at the first of its names.
/// Every packet comes out well formed: its dwords strictly increasing and
/// each dword's bit fields ordered by shift, with distinct names.
pub fn build_packets(raw_fields: Vec<RawField>, pkt_names_ordered: &[Vec<u8>]) -> (r: Vec<Packet>)
    ensures
        seq_view(r@) == packets_of(raw_views(raw_fields@), views(pkt_names_ordered@)),
        forall|i: int| 0 <= i < r@.len() ==> packet_wf(#[trigger] r@[i]@),
{
    let ghost rv = raw_views(raw_fields@);
    let mut table: Vec<Packet> = Vec::new();
    let mut raws = raw_fields;
    let ghost all = raws@;
    let mut i: usize = 0;
    let n = raws.len();
    while raws.len() > 0
        invariant
            rv == raw_views(all),
            i + raws@.len() == n == all.len(),
            raws@ == all.subrange(i as int, n as int),
            seq_view(table@) == packet_table(rv.subrange(0, i as int)),
        decreases raws@.len(),
    {
        let rf = raws.remove(0);
        assert(rf == all[i as int]);
        let ghost pre1 = rv.subrange(0, i + 1);
        assert(pre1.drop_last() == rv.subrange(0, i as int));
        assert(pre1.last() == rf@);
        let ghost tv = seq_view(table@);
        let key = to_pascal(rf.pkt_name.as_slice());
        match packet_index_exec(&table, key.as_slice()) {
            Some(k) => {
                let p = table.remove(k);
                assert(p@ == tv[k as int]);
                let p = add_field_exec(p, rf);
                table.insert(k, p);
                assert(seq_view(table@) =~= tv.update(k as int, add_field(tv[k as int], pre1.last())));
            },
            None => {
                let bits: Vec<BitsWord> = Vec::new();
                let full: Vec<FullWord> = Vec::new();
                assert(seq_view(bits@) =~= Seq::<(u32, Seq<BitSpec>)>::empty());
                assert(seq_view(full@) =~= Seq::<(u32, Seq<u8>, Seq<u8>)>::empty());
                let p = Packet { name: key, bits, full };
                assert(p@ == PacketSpec { name: pascal(pre1.last().pkt_name), bits: Seq::empty(), full: Seq::empty() });
                let p = add_field_exec(p, rf);
                table.push(p);
                assert(seq_view(table@) =~= tv.push(add_field(PacketSpec { name: pascal(pre1.last().pkt_name), bits: Seq::empty(), full: Seq::empty() }, pre1.last())));
            },
        }
        i += 1;
        assert(raws@ =~= all.subrange(i as int, n as int));
    }
    assert(rv.subrange(0, n as int) == rv);
    let ghost nv = views(pkt_names_ordered@);
    let mut out: Vec<Packet> = Vec::new();
    let mut j: usize = 0;
    while j < pkt_names_ordered.len()
        invariant
            j <= pkt_names_ordered@.len(),
            nv == views(pkt_names_ordered@),
            (seq_view(table@), seq_view(out@)) == take_packets(packet_table(rv), nv.subrange(0, j as int)),
        decreases pkt_names_ordered@.len() - j,
    {
        let ghost pre1 = nv.subrange(0, j + 1);
        assert(pre1.drop_last() == nv.subrange(0, j as int));
        assert(pre1.last() == pkt_names_ordered@[j as int]@);
        let ghost tv = seq_view(table@);
        let ghost ov = seq_view(out@);
        let key = to_pascal(pkt_names_ordered[j].as_slice());
        if let Some(k) = packet_index_exec(&table, key.as_slice()) {
            let p = table.remove(k);
            assert(p@ == tv[k as int]);
            out.push(p);
            assert(seq_view(table@) =~= tv.remove(k as int));
            assert(seq_view(out@) =~= ov.push(tv[k as int]));
        }
        j += 1;
    }
    assert(nv.subrange(0, pkt_names_ordered@.len() as int) == nv);
    proof {
        lemma_packets_wf(rv, nv);
        assert(seq_view(out@) == packets_of(rv, nv));
        assert forall|i: int| 0 <= i < out@.len() implies packet_wf(#[trigger] out@[i]@) by {
            assert(seq_view(out@)[i] == out@[i]@);
            assert(packets_of(rv, nv)[i] == out@[i]@);
        }
    }
    out
}

// ── what every packet keeps ──────────────────────────────────────────────────

/// Whole-dword fields in strictly increasing dword order.
pub open spec fn full_sorted(full: Seq<(u32, Seq<u8>, Seq<u8>)>) -> bool {
    forall|i: int, j: int| 0 <= i < j < full.len() ==> full[i].0 < full[j].0
}

/// Bit fields in the order of their shifts.
pub open spec fn shift_sorted(list: Seq<BitSpec>) -> bool {
    forall|i: int, j: int| 0 <= i < j < list.len() ==> list[i].2 <= list[j].2
}

/// No two bit fields of a dword share a name.
pub open spec fn names_distinct(list: Seq<BitSpec>) -> bool {
    forall|i: int, j: int| 0 <= i < list.len() && 0 <= j < list.len() && i != j ==> list[i].0 != list[j].0
}

pub open spec fn bit_list_wf(list: Seq<BitSpec>) -> bool {
    list.len() > 0 && shift_sorted(list) && names_distinct(list)
}

/// Dwords of bit fields in strictly increasing dword order, each with a
/// well-formed list of fields.
pub open spec fn bits_wf(bits: Seq<(u32, Seq<BitSpec>)>) -> bool {
    &&& forall|i: int, j: int| 0 <= i < j < bits.len() ==> bits[i].0 < bits[j].0
    &&& forall|i: int| 0 <= i < bits.len() ==> bit_list_wf(#[trigger] bits[i].1)
}

pub open spec fn packet_wf(p: PacketSpec) -> bool {
    full_sorted(p.full) && bits_wf(p.bits)
}

spec fn full_pos(full: Seq<(u32, Seq<u8>, Seq<u8>)>, dw: u32) -> int
    decreases full.len(),
{
    if full.len() == 0 {
        0
    } else if full.last().0 > dw {
        full_pos(full.drop_last(), dw)
    } else {
        full.len() as int
    }
}

proof fn lemma_full_pos(full: Seq<(u32, Seq<u8>, Seq<u8>)>, dw: u32)
    requires
        full_sorted(full),
    ensures
        0 <= full_pos(full, dw) <= full.len(),
        forall|k: int| full_pos(full, dw) <= k < full.len() ==> full[k].0 > dw,
        full_pos(full, dw) > 0 ==> full[full_pos(full, dw) - 1].0 <= dw,
    decreases full.len(),
{
    if full.len() > 0 && full.last().0 > dw {
        let d = full.drop_last();
        lemma_full_pos(d, dw);
        assert forall|k: int| full_pos(full, dw) <= k < full.len() implies full[k].0 > dw by {
            if k < d.len() {
                assert(d[k] == full[k]);
            }
        }
    }
}

proof fn lemma_full_insert_wf(full: Seq<(u32, Seq<u8>, Seq<u8>)>, dw: u32, word: Seq<u8>, field: Seq<u8>)
    requires
        full_sorted(full),
    ensures
        full_sorted(full_insert(full, dw, word, field)),
{
    lemma_full_pos(full, dw);
    let j = full_pos(full, dw);
    lemma_full_insert_at(full, dw, word, field, j);
    if !(j > 0 && full[j - 1].0 == dw) {
        let r = full.insert(j, (dw, word, field));
        assert forall|a: int, b: int| 0 <= a < b < r.len() implies r[a].0 < r[b].0 by {
            if b < j {
            } else if b == j {
                assert(full[a].0 <= full[j - 1].0);
            } else if a < j {
                if a < j - 1 {
                    assert(full[a].0 < full[j - 1].0);
                }
            } else if a == j {
            } else {
            }
        }
    }
}

spec fn shift_pos(list: Seq<BitSpec>, b: BitSpec) -> int
    decreases list.len(),
{
    if list.len() == 0 {
        0
    } else if list.last().2 > b.2 {
        shift_pos(list.drop_last(), b)
    } else {
        list.len() as int
    }
}

proof fn lemma_shift_pos(list: Seq<BitSpec>, b: BitSpec)
    requires
        shift_sorted(list),
    ensures
        0 <= shift_pos(list, b) <= list.len(),
        forall|k: int| shift_pos(list, b) <= k < list.len() ==> list[k].2 > b.2,
        forall|k: int| 0 <= k < shift_pos(list, b) ==> list[k].2 <= b.2,
    decreases list.len(),
{
    if list.len() > 0 && list.last().2 > b.2 {
        let d = list.drop_last();
        lemma_shift_pos(d, b);
        assert forall|k: int| shift_pos(list, b) <= k < list.len() implies list[k].2 > b.2 by {
            if k < d.len() {
                assert(d[k] == list[k]);
            }
        }
        assert forall|k: int| 0 <= k < shift_pos(list, b) implies list[k].2 <= b.2 by {
            assert(d[k] == list[k]);
        }
    } else if list.len() > 0 {
        assert forall|k: int| 0 <= k < list.len() implies list[k].2 <= b.2 by {
            if k < list.len() - 1 {
                assert(list[k].2 <= list[list.len() - 1].2);
            }
        }
    }
}

proof fn lemma_add_bit_wf(list: Seq<BitSpec>, b: BitSpec)
    requires
        shift_sorted(list),
        names_distinct(list),
    ensures
        bit_list_wf(add_bit(list, b)),
        add_bit(list, b).len() >= list.len(),
{
    if !has_name(list, b.0) {
        lemma_shift_pos(list, b);
        let j = shift_pos(list, b);
        lemma_shift_insert_at(list, b, j);
        let r = list.insert(j, b);
        assert(r.len() > 0);
        assert forall|x: int, y: int| 0 <= x < y < r.len() implies r[x].2 <= r[y].2 by {
            if y < j {
            } else if y == j {
            } else if x < j {
            } else if x == j {
            } else {
            }
        }
        assert forall|x: int, y: int| 0 <= x < r.len() && 0 <= y < r.len() && x != y implies r[x].0
            != r[y].0 by {
            if x == j {
                if y < j {
                    assert(list[y] == r[y]);
                } else {
                    assert(list[y - 1] == r[y]);
                }
            } else if y == j {
                if x < j {
                    assert(list[x] == r[x]);
                } else {
                    assert(list[x - 1] == r[x]);
                }
            }
        }
    } else {
        let k = choose|k: int| 0 <= k < list.len() && (#[trigger] list[k]).0 == b.0;
        assert(list.len() > 0);
    }
}

spec fn bits_pos(bits: Seq<(u32, Seq<BitSpec>)>, dw: u32) -> int
    decreases bits.len(),
{
    if bits.len() == 0 {
        0
    } else if bits.last().0 > dw {
        bits_pos(bits.drop_last(), dw)
    } else {
        bits.len() as int
    }
}

proof fn lemma_bits_pos(bits: Seq<(u32, Seq<BitSpec>)>, dw: u32)
    requires
        forall|i: int, j: int| 0 <= i < j < bits.len() ==> bits[i].0 < bits[j].0,
    ensures
        0 <= bits_pos(bits, dw) <= bits.len(),
        forall|k: int| bits_pos(bits, dw) <= k < bits.len() ==> bits[k].0 > dw,
        bits_pos(bits, dw) > 0 ==> bits[bits_pos(bits, dw) - 1].0 <= dw,
    decreases bits.len(),
{
    if bits.len() > 0 && bits.last().0 > dw {
        let d = bits.drop_last();
        lemma_bits_pos(d, dw);
        assert forall|k: int| bits_pos(bits, dw) <= k < bits.len() implies bits[k].0 > dw by {
            if k < d.len() {
                assert(d[k] == bits[k]);
            }
        }
    }
}

proof fn lemma_bits_update_wf(bits: Seq<(u32, Seq<BitSpec>)>, dw: u32, b: BitSpec)
    requires
        bits_wf(bits),
    ensures
        bits_wf(bits_update(bits, dw, b)),
{
    lemma_bits_pos(bits, dw);
    let j = bits_pos(bits, dw);
    lemma_bits_update_at(bits, dw, b, j);
    if j > 0 && bits[j - 1].0 == dw {
        lemma_add_bit_wf(bits[j - 1].1, b);
        let r = bits.update(j - 1, (dw, add_bit(bits[j - 1].1, b)));
        assert forall|i: int| 0 <= i < r.len() implies bit_list_wf(#[trigger] r[i].1) by {
            if i != j - 1 {
                assert(r[i] == bits[i]);
            }
        }
    } else {
        let r = bits.insert(j, (dw, seq![b]));
        assert(bit_list_wf(seq![b]));
        assert forall|x: int, y: int| 0 <= x < y < r.len() implies r[x].0 < r[y].0 by {
            if y < j {
            } else if y == j {
                assert(bits[x].0 <= bits[j - 1].0);
            } else if x < j {
                if x < j - 1 {
                    assert(bits[x].0 < bits[j - 1].0);
                }
            } else if x == j {
            } else {
            }
        }
        assert forall|i: int| 0 <= i < r.len() implies bit_list_wf(#[trigger] r[i].1) by {
            if i < j {
                assert(r[i] == bits[i]);
            } else if i > j {
                assert(r[i] == bits[i - 1]);
            }
        }
    }
}

proof fn lemma_add_field_wf(p: PacketSpec, rf: RawFieldSpec)
    requires
        packet_wf(p),
    ensures
        packet_wf(add_field(p, rf)),
{
    if rf.mask == 0xffff_ffff && rf.shift == 0 {
        lemma_full_insert_wf(p.full, rf.dw, rf.word_name, rf.field_name);
    } else {
        lemma_bits_update_wf(p.bits, rf.dw, (rf.field_name, rf.mask, rf.shift));
    }
}

proof fn lemma_packet_table_wf(raws: Seq<RawFieldSpec>)
    ensures
        forall|i: int| 0 <= i < packet_table(raws).len() ==> packet_wf(#[trigger] packet_table(raws)[i]),
    decreases raws.len(),
{
    if raws.len() > 0 {
        lemma_packet_table_wf(raws.drop_last());
        let pkts = packet_table(raws.drop_last());
        let rf = raws.last();
        let key = pascal(rf.pkt_name);
        let i = packet_index(pkts, key, 0);
        lemma_packet_index_range(pkts, key, 0);
        if i < 0 {
            let e = PacketSpec { name: key, bits: Seq::empty(), full: Seq::empty() };
            assert(packet_wf(e));
            lemma_add_field_wf(e, rf);
        } else {
            assert(packet_wf(pkts[i]));
            lemma_add_field_wf(pkts[i], rf);
        }
        let r = packet_table(raws);
        assert forall|k: int| 0 <= k < r.len() implies packet_wf(#[trigger] r[k]) by {
            if i < 0 {
                if k < pkts.len() {
                    assert(r[k] == pkts[k]);
                }
            } else if k != i {
                assert(r[k] == pkts[k]);
            }
        }
    }
}

proof fn lemma_packet_index_range(pkts: Seq<PacketSpec>, name: Seq<u8>, i: nat)
    ensures
        packet_index(pkts, name, i) < pkts.len(),
        packet_index(pkts, name, i) >= 0 ==> pkts[packet_index(pkts, name, i)].name == name,
    decreases pkts.len() - i,
{
    if i < pkts.len() && pkts[i as int].name != name {
        lemma_packet_index_range(pkts, name, i + 1);
    }
}

proof fn lemma_take_packets_wf(table: Seq<PacketSpec>, names: Seq<Seq<u8>>)
    requires
        forall|i: int| 0 <= i < table.len() ==> packet_wf(#[trigger] table[i]),
    ensures
        forall|i: int| 0 <= i < take_packets(table, names).0.len() ==> packet_wf(
            #[trigger] take_packets(table, names).0[i],
        ),
        forall|i: int| 0 <= i < take_packets(table, names).1.len() ==> packet_wf(
            #[trigger] take_packets(table, names).1[i],
        ),
    decreases names.len(),
{
    if names.len() > 0 {
        lemma_take_packets_wf(table, names.drop_last());
        let (rem, out) = take_packets(table, names.drop_last());
        let k = packet_index(rem, pascal(names.last()), 0);
        lemma_packet_index_range(rem, pascal(names.last()), 0);
        if k >= 0 {
            assert(packet_wf(rem[k]));
            let r2 = rem.remove(k);
            assert forall|i: int| 0 <= i < r2.len() implies packet_wf(#[trigger] r2[i]) by {
                if i < k {
                    assert(r2[i] == rem[i]);
                } else {
                    assert(r2[i] == rem[i + 1]);
                }
            }
            let o2 = out.push(rem[k]);
            assert forall|i: int| 0 <= i < o2.len() implies packet_wf(#[trigger] o2[i]) by {
                if i < out.len() {
                    assert(o2[i] == out[i]);
                }
            }
        }
    }
}

/// Every packet the generator builds lists its whole-dword fields and its
/// dwords of bit fields in increasing dword order, and the bit fields of a
/// dword in the order of their shifts, each name once.
pub proof fn lemma_packets_wf(raws: Seq<RawFieldSpec>, names: Seq<Seq<u8>>)
    ensures
        forall|i: int| 0 <= i < packets_of(raws, names).len() ==> packet_wf(#[trigger] packets_of(raws, names)[i]),
{
    lemma_packet_table_wf(raws);
    lemma_take_packets_wf(packet_table(raws), names);
}

} // verus!
