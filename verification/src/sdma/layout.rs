use vstd::prelude::*;

verus! {

/// The value of the bit field `mask << shift` of `x`, shifted down.
pub open spec fn get_bits(x: u32, mask: u32, shift: u32) -> u32 {
    (x >> shift) & mask
}

/// `x` with the bit field `mask << shift` replaced by `v`.
pub open spec fn set_bits(x: u32, mask: u32, shift: u32, v: u32) -> u32 {
    (x & !(mask << shift)) | (v << shift)
}

/// `mask` is of the form `2^k - 1`: its set bits are the `k` lowest ones.
pub open spec fn is_low_mask(mask: u32) -> bool {
    mask & (mask >> 1) == mask >> 1
}

/// A mask that is placed at `shift` without losing bits.
pub open spec fn placed_mask_wf(mask: u32, shift: u32) -> bool {
    &&& shift < 32
    &&& is_low_mask(mask)
    &&& (mask << shift) >> shift == mask
}

pub proof fn lemma_get_set_same(x: u32, mask: u32, shift: u32, v: u32)
    requires
        placed_mask_wf(mask, shift),
        v <= mask,
    ensures
        get_bits(set_bits(x, mask, shift, v), mask, shift) == v,
{
    assert(((x & !(mask << shift)) | (v << shift)) >> shift & mask == v) by (bit_vector)
        requires
            shift < 32,
            mask & (mask >> 1) == mask >> 1,
            (mask << shift) >> shift == mask,
            v <= mask,
    ;
}

pub proof fn lemma_get_set_other(x: u32, m1: u32, s1: u32, m2: u32, s2: u32, v: u32)
    requires
        placed_mask_wf(m1, s1),
        placed_mask_wf(m2, s2),
        (m1 << s1) & (m2 << s2) == 0,
        v <= m2,
    ensures
        get_bits(set_bits(x, m2, s2, v), m1, s1) == get_bits(x, m1, s1),
{
    assert(((x & !(m2 << s2)) | (v << s2)) >> s1 & m1 == (x >> s1) & m1) by (bit_vector)
        requires
            s1 < 32,
            s2 < 32,
            m1 & (m1 >> 1) == m1 >> 1,
            m2 & (m2 >> 1) == m2 >> 1,
            (m1 << s1) >> s1 == m1,
            (m2 << s2) >> s2 == m2,
            (m1 << s1) & (m2 << s2) == 0,
            v <= m2,
    ;
}


pub proof fn lemma_get_bits_bound(x: u32, mask: u32, shift: u32)
    ensures
        get_bits(x, mask, shift) <= mask,
{
    assert((x >> shift) & mask <= mask) by (bit_vector);
}

/// A field of at most 32 bits inside dword `dw` of a packet, occupying the
/// bits `mask << shift`.
#[derive(Clone, Copy)]
pub struct BitField {
    pub dw: usize,
    pub mask: u32,
    pub shift: u32,
}

/// A 64-bit field split over two dwords: the low half in dword `lo`, the
/// high half in dword `hi`.
#[derive(Clone, Copy)]
pub struct JoinField {
    pub lo: usize,
    pub hi: usize,
}

/// The variable-length tail of a packet. Its dwords start at `start`; their
/// count is kept in the bit field `mask << shift` of dword `len_dw`.
#[derive(Clone, Copy)]
pub struct DynField {
    pub start: usize,
    pub len_dw: usize,
    pub mask: u32,
    pub shift: u32,
}

impl DynField {
    pub open spec fn len_field(self) -> BitField {
        BitField { dw: self.len_dw, mask: self.mask, shift: self.shift }
    }
}

pub open spec fn write_bits(buf: Seq<u32>, f: BitField, v: u32) -> Seq<u32> {
    buf.update(f.dw as int, set_bits(buf[f.dw as int], f.mask, f.shift, v))
}

pub open spec fn read_bits(buf: Seq<u32>, f: BitField) -> u32 {
    get_bits(buf[f.dw as int], f.mask, f.shift)
}

/// The first `n` bit fields written, in order, over `buf`.
pub open spec fn encode_bits(buf: Seq<u32>, fields: Seq<BitField>, vals: Seq<u32>, n: nat) -> Seq<u32>
    decreases n,
{
    if n == 0 {
        buf
    } else {
        write_bits(encode_bits(buf, fields, vals, (n - 1) as nat), fields[n - 1], vals[n - 1])
    }
}

pub open spec fn decode_bits(buf: Seq<u32>, fields: Seq<BitField>) -> Seq<u32> {
    Seq::new(fields.len(), |i: int| read_bits(buf, fields[i]))
}

pub open spec fn write_join(buf: Seq<u32>, j: JoinField, v: u64) -> Seq<u32> {
    buf.update(j.lo as int, v as u32).update(j.hi as int, (v >> 32u64) as u32)
}

pub open spec fn read_join(buf: Seq<u32>, j: JoinField) -> u64 {
    ((buf[j.hi as int] as u64) << 32u64) | (buf[j.lo as int] as u64)
}

/// The 64-bit value whose low half is `lo` and whose high half is `hi`.
pub open spec fn dword_pair(lo: u32, hi: u32) -> u64 {
    ((hi as u64) << 32u64) | (lo as u64)
}

/// The first `n` 64-bit fields written, in order, over `buf`.
pub open spec fn encode_joins(buf: Seq<u32>, joins: Seq<JoinField>, vals: Seq<u64>, n: nat) -> Seq<u32>
    decreases n,
{
    if n == 0 {
        buf
    } else {
        write_join(encode_joins(buf, joins, vals, (n - 1) as nat), joins[n - 1], vals[n - 1])
    }
}

pub open spec fn decode_joins(buf: Seq<u32>, joins: Seq<JoinField>) -> Seq<u64> {
    Seq::new(joins.len(), |i: int| read_join(buf, joins[i]))
}

/// Stores the length of `data` in the length field, then copies `data` to
/// the dwords from `d.start` on.
pub open spec fn write_dyn(buf: Seq<u32>, d: DynField, data: Seq<u32>) -> Seq<u32> {
    let b = write_bits(buf, d.len_field(), data.len() as u32);
    b.take(d.start as int) + data + b.skip(d.start + data.len())
}

pub open spec fn read_dyn_len(buf: Seq<u32>, d: DynField) -> u32 {
    read_bits(buf, d.len_field())
}

pub open spec fn read_dyn(buf: Seq<u32>, d: DynField) -> Seq<u32> {
    buf.subrange(d.start as int, d.start + read_dyn_len(buf, d))
}

/// All bit fields, then all 64-bit fields, written over `buf`.
pub open spec fn encode_fields(
    buf: Seq<u32>,
    bits: Seq<BitField>,
    bvals: Seq<u32>,
    joins: Seq<JoinField>,
    jvals: Seq<u64>,
) -> Seq<u32> {
    encode_joins(encode_bits(buf, bits, bvals, bits.len()), joins, jvals, joins.len())
}

/// Header write: clears `hmask` in dword 0 and sets `hval`.
pub open spec fn write_header(buf: Seq<u32>, hmask: u32, hval: u32) -> Seq<u32> {
    buf.update(0, (buf[0] & !hmask) | hval)
}

// ---------------------------------------------------------------------------
// Well-formedness of a packet layout.

pub open spec fn region(f: BitField) -> u32 {
    f.mask << f.shift
}

pub open spec fn bit_field_wf(f: BitField, size: nat) -> bool {
    &&& f.dw < size
    &&& placed_mask_wf(f.mask, f.shift)
}

pub open spec fn regions_disjoint(a: BitField, b: BitField) -> bool {
    a.dw != b.dw || region(a) & region(b) == 0
}

pub open spec fn bit_fields_wf(fields: Seq<BitField>, size: nat) -> bool {
    &&& forall|i: int| 0 <= i < fields.len() ==> bit_field_wf(#[trigger] fields[i], size)
    &&& forall|i: int, j: int|
        0 <= i < j < fields.len() ==> regions_disjoint(#[trigger] fields[i], #[trigger] fields[j])
}

pub open spec fn join_uses(j: JoinField, dw: usize) -> bool {
    j.lo == dw || j.hi == dw
}

/// 64-bit fields own their two dwords: none of them is dword 0 (the
/// header), and no other field of the packet touches them.
pub open spec fn joins_wf(joins: Seq<JoinField>, bits: Seq<BitField>, size: nat) -> bool {
    &&& forall|i: int|
        0 <= i < joins.len() ==> {
            let j = #[trigger] joins[i];
            0 < j.lo < size && 0 < j.hi < size && j.lo != j.hi
        }
    &&& forall|i: int, k: int|
        0 <= i < k < joins.len() ==> !join_uses(#[trigger] joins[i], (#[trigger] joins[k]).lo)
            && !join_uses(joins[i], joins[k].hi)
    &&& forall|i: int, k: int|
        0 <= i < joins.len() && 0 <= k < bits.len() ==> !join_uses(
            #[trigger] joins[i],
            (#[trigger] bits[k]).dw,
        )
}

/// The tail follows the static dwords, and its length field is a bit field
/// that shares no bits with any other field.
pub open spec fn dyn_wf(d: DynField, bits: Seq<BitField>, joins: Seq<JoinField>, size: nat) -> bool {
    &&& d.start == size
    &&& bit_field_wf(d.len_field(), size)
    &&& forall|k: int| 0 <= k < bits.len() ==> regions_disjoint(#[trigger] bits[k], d.len_field())
    &&& forall|i: int| 0 <= i < joins.len() ==> !join_uses(#[trigger] joins[i], d.len_dw)
}

pub open spec fn layout_wf(
    bits: Seq<BitField>,
    joins: Seq<JoinField>,
    dynamic: Option<DynField>,
    size: nat,
) -> bool {
    &&& 0 < size
    &&& bit_fields_wf(bits, size)
    &&& joins_wf(joins, bits, size)
    &&& dynamic matches Some(d) ==> dyn_wf(d, bits, joins, size)
}

/// Every value fits the mask of its field (the packet encoders refuse
/// values that do not).
pub open spec fn fields_fit(fields: Seq<BitField>, vals: Seq<u32>) -> bool {
    &&& fields.len() == vals.len()
    &&& forall|i: int| 0 <= i < fields.len() ==> vals[i] <= (#[trigger] fields[i]).mask
}

// ---------------------------------------------------------------------------
// Laws of the encoding.

pub proof fn lemma_encode_bits_len(buf: Seq<u32>, fields: Seq<BitField>, vals: Seq<u32>, n: nat)
    requires
        n <= fields.len(),
        forall|i: int| 0 <= i < fields.len() ==> (#[trigger] fields[i]).dw < buf.len(),
    ensures
        encode_bits(buf, fields, vals, n).len() == buf.len(),
    decreases n,
{
    if n > 0 {
        lemma_encode_bits_len(buf, fields, vals, (n - 1) as nat);
    }
}

/// Writing bit fields leaves every dword that none of them lies in untouched.
pub proof fn lemma_encode_bits_frame(buf: Seq<u32>, fields: Seq<BitField>, vals: Seq<u32>, n: nat, dw: int)
    requires
        n <= fields.len(),
        forall|i: int| 0 <= i < fields.len() ==> (#[trigger] fields[i]).dw < buf.len(),
        forall|i: int| 0 <= i < n ==> (#[trigger] fields[i]).dw != dw,
        0 <= dw < buf.len(),
    ensures
        encode_bits(buf, fields, vals, n)[dw] == buf[dw],
    decreases n,
{
    if n > 0 {
        lemma_encode_bits_frame(buf, fields, vals, (n - 1) as nat, dw);
        lemma_encode_bits_len(buf, fields, vals, (n - 1) as nat);
    }
}

proof fn lemma_encode_bits_reads(
    buf: Seq<u32>,
    fields: Seq<BitField>,
    vals: Seq<u32>,
    size: nat,
    n: nat,
)
    requires
        n <= fields.len(),
        buf.len() >= size,
        bit_fields_wf(fields, size),
        fields_fit(fields, vals),
    ensures
        forall|i: int| 0 <= i < n ==> read_bits(encode_bits(buf, fields, vals, n), #[trigger] fields[i]) == vals[i],
    decreases n,
{
    if n > 0 {
        let m = (n - 1) as nat;
        lemma_encode_bits_reads(buf, fields, vals, size, m);
        lemma_encode_bits_len(buf, fields, vals, m);
        let prev = encode_bits(buf, fields, vals, m);
        let f = fields[m as int];
        assert(bit_field_wf(f, size));
        assert forall|i: int| 0 <= i < n implies read_bits(encode_bits(buf, fields, vals, n), #[trigger] fields[i]) == vals[i] by {
            let g = fields[i];
            assert(bit_field_wf(g, size));
            if i == m {
                lemma_get_set_same(prev[f.dw as int], f.mask, f.shift, vals[m as int]);
            } else if g.dw == f.dw {
                assert(regions_disjoint(fields[i], fields[m as int]));
                lemma_get_set_other(prev[f.dw as int], g.mask, g.shift, f.mask, f.shift, vals[m as int]);
            }
        }
    }
}

/// A read of a bit field gives back what was written to it, when the fields
/// are disjoint and every value fits its field.
pub proof fn lemma_bits_roundtrip(buf: Seq<u32>, fields: Seq<BitField>, vals: Seq<u32>, size: nat)
    requires
        buf.len() >= size,
        bit_fields_wf(fields, size),
        fields_fit(fields, vals),
    ensures
        decode_bits(encode_bits(buf, fields, vals, fields.len()), fields) == vals,
        encode_bits(buf, fields, vals, fields.len()).len() == buf.len(),
{
    lemma_encode_bits_reads(buf, fields, vals, size, fields.len());
    lemma_encode_bits_len(buf, fields, vals, fields.len());
    assert(decode_bits(encode_bits(buf, fields, vals, fields.len()), fields) =~= vals);
}

pub proof fn lemma_join_split(v: u64)
    ensures
        (((v >> 32u64) as u32 as u64) << 32u64) | (v as u32 as u64) == v,
{
    assert((((v >> 32u64) as u32 as u64) << 32u64) | (v as u32 as u64) == v) by (bit_vector);
}

proof fn lemma_encode_joins_props(
    buf: Seq<u32>,
    joins: Seq<JoinField>,
    bits: Seq<BitField>,
    vals: Seq<u64>,
    size: nat,
    n: nat,
)
    requires
        n <= joins.len(),
        joins.len() == vals.len(),
        buf.len() >= size,
        joins_wf(joins, bits, size),
    ensures
        encode_joins(buf, joins, vals, n).len() == buf.len(),
        forall|i: int| 0 <= i < n ==> read_join(encode_joins(buf, joins, vals, n), #[trigger] joins[i]) == vals[i],
        forall|dw: int|
            0 <= dw < buf.len() && (forall|i: int| 0 <= i < n ==> !join_uses(#[trigger] joins[i], dw as usize))
                ==> encode_joins(buf, joins, vals, n)[dw] == buf[dw],
    decreases n,
{
    if n > 0 {
        let m = (n - 1) as nat;
        lemma_encode_joins_props(buf, joins, bits, vals, size, m);
        let prev = encode_joins(buf, joins, vals, m);
        let j = joins[m as int];
        let cur = encode_joins(buf, joins, vals, n);
        assert(cur == write_join(prev, j, vals[m as int]));
        assert forall|i: int| 0 <= i < n implies read_join(cur, #[trigger] joins[i]) == vals[i] by {
            if i == m {
                lemma_join_split(vals[m as int]);
            } else {
                let k = joins[i];
                assert(!join_uses(joins[i], joins[m as int].lo) && !join_uses(joins[i], joins[m as int].hi));
                assert(cur[k.lo as int] == prev[k.lo as int]);
                assert(cur[k.hi as int] == prev[k.hi as int]);
            }
        }
        assert forall|dw: int|
            0 <= dw < buf.len() && (forall|i: int| 0 <= i < n ==> !join_uses(#[trigger] joins[i], dw as usize))
            implies cur[dw] == buf[dw] by {
            assert(!join_uses(joins[m as int], dw as usize));
            assert forall|i: int| 0 <= i < m implies !join_uses(#[trigger] joins[i], dw as usize) by {
                assert(0 <= i < n);
            }
        }
    }
}


/// The whole packet body: bit fields, 64-bit fields, then the tail if the
/// packet has one.
pub open spec fn encode_packet(
    buf: Seq<u32>,
    bits: Seq<BitField>,
    bvals: Seq<u32>,
    joins: Seq<JoinField>,
    jvals: Seq<u64>,
    dynamic: Option<DynField>,
    data: Seq<u32>,
) -> Seq<u32> {
    let b = encode_fields(buf, bits, bvals, joins, jvals);
    match dynamic {
        Some(d) => write_dyn(b, d, data),
        None => b,
    }
}

/// Encoding a packet leaves the dwords after it untouched: the static
/// dwords and the tail are all that it writes.
pub proof fn lemma_packet_frame(
    buf: Seq<u32>,
    bits: Seq<BitField>,
    bvals: Seq<u32>,
    joins: Seq<JoinField>,
    jvals: Seq<u64>,
    dynamic: Option<DynField>,
    data: Seq<u32>,
    size: nat,
)
    requires
        layout_wf(bits, joins, dynamic, size),
        fields_fit(bits, bvals),
        joins.len() == jvals.len(),
        buf.len() >= size + data.len(),
        buf.len() <= usize::MAX,
    ensures
        encode_packet(buf, bits, bvals, joins, jvals, dynamic, data).len() == buf.len(),
        forall|k: int|
            size + (if dynamic is Some { data.len() as int } else { 0 }) <= k < buf.len() ==> #[trigger] encode_packet(
                buf,
                bits,
                bvals,
                joins,
                jvals,
                dynamic,
                data,
            )[k] == buf[k],
{
    let b1 = encode_bits(buf, bits, bvals, bits.len());
    lemma_encode_bits_len(buf, bits, bvals, bits.len());
    let b2 = encode_joins(b1, joins, jvals, joins.len());
    lemma_encode_joins_props(b1, joins, bits, jvals, size, joins.len());
    assert forall|k: int| size <= k < buf.len() implies b2[k] == buf[k] by {
        assert forall|i: int| 0 <= i < bits.len() implies (#[trigger] bits[i]).dw != k by {
            assert(bit_field_wf(bits[i], size));
        }
        lemma_encode_bits_frame(buf, bits, bvals, bits.len(), k);
        assert forall|i: int| 0 <= i < joins.len() implies !join_uses(#[trigger] joins[i], k as usize) by {
            assert(k as usize == k);
        }
    }
    if let Some(d) = dynamic {
        let b3 = write_bits(b2, d.len_field(), data.len() as u32);
        let r = b3.take(d.start as int) + data + b3.skip(d.start + data.len());
        assert(r.len() == buf.len());
        assert forall|k: int| size + data.len() <= k < buf.len() implies r[k] == buf[k] by {
            assert(r[k] == b3[k]);
        }
    }
}

/// `buf` holds the packet with the given field values and tail.
pub open spec fn packet_reads(
    buf: Seq<u32>,
    bits: Seq<BitField>,
    bvals: Seq<u32>,
    joins: Seq<JoinField>,
    jvals: Seq<u64>,
    dynamic: Option<DynField>,
    data: Seq<u32>,
) -> bool {
    &&& decode_bits(buf, bits) == bvals
    &&& decode_joins(buf, joins) == jvals
    &&& dynamic matches Some(d) ==> d.start + read_dyn_len(buf, d) <= buf.len() && read_dyn(buf, d) == data
}

/// A buffer reads as one set of values of a layout: the bit-field values,
/// the 64-bit values and the tail are all determined by the buffer.
pub proof fn lemma_reads_determine(
    buf: Seq<u32>,
    bits: Seq<BitField>,
    bv1: Seq<u32>,
    bv2: Seq<u32>,
    joins: Seq<JoinField>,
    jv1: Seq<u64>,
    jv2: Seq<u64>,
    dynamic: Option<DynField>,
    d1: Seq<u32>,
    d2: Seq<u32>,
)
    requires
        packet_reads(buf, bits, bv1, joins, jv1, dynamic, d1),
        packet_reads(buf, bits, bv2, joins, jv2, dynamic, d2),
    ensures
        bv1 == bv2,
        jv1 == jv2,
        dynamic is Some ==> d1 == d2,
{
}

/// The tail fits its length field; a packet without a tail has none.
pub open spec fn tail_fits(dynamic: Option<DynField>, data: Seq<u32>) -> bool {
    match dynamic {
        Some(d) => data.len() <= d.mask,
        None => data.len() == 0,
    }
}

/// Whatever the header write does to dword 0 leaves the packet readable:
/// a field of dword 0 either lies outside the header bits, or lies inside
/// them and holds what the header puts there.
pub open spec fn header_compatible(
    bits: Seq<BitField>,
    bvals: Seq<u32>,
    dynamic: Option<DynField>,
    hmask: u32,
    hval: u32,
) -> bool {
    &&& hval & !hmask == 0
    &&& forall|i: int|
        0 <= i < bits.len() && (#[trigger] bits[i]).dw == 0 ==> region(bits[i]) & hmask == 0 || (
        region(bits[i]) & hmask == region(bits[i]) && bvals[i] == get_bits(
            hval,
            bits[i].mask,
            bits[i].shift,
        ))
    &&& dynamic matches Some(d) ==> (d.len_dw == 0 ==> region(d.len_field()) & hmask == 0)
}

proof fn lemma_decode_bits_same_dwords(a: Seq<u32>, b: Seq<u32>, bits: Seq<BitField>)
    requires
        forall|k: int| 0 <= k < bits.len() ==> a[(#[trigger] bits[k]).dw as int] == b[bits[k].dw as int],
    ensures
        decode_bits(a, bits) == decode_bits(b, bits),
{
    assert(decode_bits(a, bits) =~= decode_bits(b, bits));
}

proof fn lemma_decode_joins_same_dwords(a: Seq<u32>, b: Seq<u32>, joins: Seq<JoinField>)
    requires
        forall|k: int|
            0 <= k < joins.len() ==> a[(#[trigger] joins[k]).lo as int] == b[joins[k].lo as int] && a[joins[k].hi as int]
                == b[joins[k].hi as int],
    ensures
        decode_joins(a, joins) == decode_joins(b, joins),
{
    assert(decode_joins(a, joins) =~= decode_joins(b, joins));
}

/// The central law of the packet encoding: whatever the buffer held before,
/// reading a packet back gives the field values and the tail that were
/// written, when the layout is well formed and every value fits its field.
pub proof fn lemma_packet_roundtrip(
    buf: Seq<u32>,
    bits: Seq<BitField>,
    bvals: Seq<u32>,
    joins: Seq<JoinField>,
    jvals: Seq<u64>,
    dynamic: Option<DynField>,
    data: Seq<u32>,
    size: nat,
)
    requires
        layout_wf(bits, joins, dynamic, size),
        fields_fit(bits, bvals),
        joins.len() == jvals.len(),
        tail_fits(dynamic, data),
        buf.len() >= size + data.len(),
    ensures
        packet_reads(encode_packet(buf, bits, bvals, joins, jvals, dynamic, data), bits, bvals, joins, jvals, dynamic, data),
        encode_packet(buf, bits, bvals, joins, jvals, dynamic, data).len() == buf.len(),
{
    let b1 = encode_bits(buf, bits, bvals, bits.len());
    lemma_bits_roundtrip(buf, bits, bvals, size);
    let b2 = encode_joins(b1, joins, jvals, joins.len());
    lemma_encode_joins_props(b1, joins, bits, jvals, size, joins.len());
    assert forall|k: int| 0 <= k < bits.len() implies b2[(#[trigger] bits[k]).dw as int] == b1[bits[k].dw as int] by {
        assert(bit_field_wf(bits[k], size));
        assert forall|i: int| 0 <= i < joins.len() implies !join_uses(#[trigger] joins[i], bits[k].dw) by {}
    }
    lemma_decode_bits_same_dwords(b2, b1, bits);
    assert(decode_joins(b2, joins) =~= jvals);
    if let Some(d) = dynamic {
        let lf = d.len_field();
        let w = write_bits(b2, lf, data.len() as u32);
        let b3 = write_dyn(b2, d, data);
        assert(b3.len() == b2.len());
        assert forall|i: int| 0 <= i < d.start implies b3[i] == w[i] by {}
        // the length field reads back the length
        lemma_get_set_same(b2[d.len_dw as int], d.mask, d.shift, data.len() as u32);
        assert(read_dyn_len(b3, d) == data.len());
        assert(read_dyn(b3, d) =~= data);
        // bit fields keep their values
        assert forall|k: int| 0 <= k < bits.len() implies read_bits(b3, #[trigger] bits[k]) == read_bits(b2, bits[k]) by {
            let f = bits[k];
            assert(bit_field_wf(f, size));
            if f.dw == d.len_dw {
                assert(regions_disjoint(bits[k], lf));
                lemma_get_set_other(b2[f.dw as int], f.mask, f.shift, d.mask, d.shift, data.len() as u32);
            }
        }
        assert(decode_bits(b3, bits) =~= decode_bits(b2, bits));
        // 64-bit fields keep their values
        assert forall|k: int|
            0 <= k < joins.len() implies b3[(#[trigger] joins[k]).lo as int] == b2[joins[k].lo as int] && b3[joins[k].hi as int]
                == b2[joins[k].hi as int] by {
            assert(!join_uses(joins[k], d.len_dw));
        }
        lemma_decode_joins_same_dwords(b3, b2, joins);
    }
}

pub proof fn lemma_header_field(x: u32, hmask: u32, hval: u32, mask: u32, shift: u32)
    requires
        placed_mask_wf(mask, shift),
        hval & !hmask == 0,
    ensures
        (mask << shift) & hmask == 0 ==> get_bits((x & !hmask) | hval, mask, shift) == get_bits(x, mask, shift),
        (mask << shift) & hmask == mask << shift ==> get_bits((x & !hmask) | hval, mask, shift) == get_bits(hval, mask, shift),
{
    assert((mask << shift) & hmask == 0 ==> ((x & !hmask) | hval) >> shift & mask == (x >> shift) & mask) by (bit_vector)
        requires
            shift < 32,
            mask & (mask >> 1) == mask >> 1,
            (mask << shift) >> shift == mask,
            hval & !hmask == 0,
    ;
    assert((mask << shift) & hmask == mask << shift ==> ((x & !hmask) | hval) >> shift & mask == (hval >> shift) & mask) by (bit_vector)
        requires
            shift < 32,
            mask & (mask >> 1) == mask >> 1,
            (mask << shift) >> shift == mask,
    ;
}

/// Writing the header into dword 0 keeps a packet readable when the packet
/// is compatible with that header.
pub proof fn lemma_header_keeps_packet(
    buf: Seq<u32>,
    bits: Seq<BitField>,
    bvals: Seq<u32>,
    joins: Seq<JoinField>,
    jvals: Seq<u64>,
    dynamic: Option<DynField>,
    data: Seq<u32>,
    size: nat,
    hmask: u32,
    hval: u32,
)
    requires
        layout_wf(bits, joins, dynamic, size),
        fields_fit(bits, bvals),
        buf.len() >= size,
        packet_reads(buf, bits, bvals, joins, jvals, dynamic, data),
        header_compatible(bits, bvals, dynamic, hmask, hval),
    ensures
        packet_reads(write_header(buf, hmask, hval), bits, bvals, joins, jvals, dynamic, data),
{
    let h = write_header(buf, hmask, hval);
    assert forall|k: int| 0 <= k < bits.len() implies read_bits(h, #[trigger] bits[k]) == bvals[k] by {
        let f = bits[k];
        assert(bit_field_wf(f, size));
        assert(read_bits(buf, f) == decode_bits(buf, bits)[k]);
        if f.dw == 0 {
            lemma_header_field(buf[0], hmask, hval, f.mask, f.shift);
        }
    }
    assert(decode_bits(h, bits) =~= bvals);
    assert forall|k: int|
        0 <= k < joins.len() implies h[(#[trigger] joins[k]).lo as int] == buf[joins[k].lo as int] && h[joins[k].hi as int]
            == buf[joins[k].hi as int] by {}
    lemma_decode_joins_same_dwords(h, buf, joins);
    if let Some(d) = dynamic {
        if d.len_dw == 0 {
            lemma_header_field(buf[0], hmask, hval, d.mask, d.shift);
        }
        assert(read_dyn_len(h, d) == read_dyn_len(buf, d));
        assert(read_dyn(h, d) =~= read_dyn(buf, d));
    }
}


// ---------------------------------------------------------------------------
// Executable encoding and decoding.

/// Reads bit field `f` of the buffer.
pub fn read_field(buff: &[u32], f: BitField) -> (r: u32)
    requires
        f.dw < buff@.len(),
        f.shift < 32,
    ensures
        r == read_bits(buff@, f),
        r <= f.mask,
{
    proof {
        lemma_get_bits_bound(buff@[f.dw as int], f.mask, f.shift);
    }
    (buff[f.dw] >> f.shift) & f.mask
}

/// Replaces bit field `f` of the buffer by `v`.
pub fn write_field(buff: &mut [u32], f: BitField, v: u32)
    requires
        f.dw < old(buff)@.len(),
        f.shift < 32,
    ensures
        final(buff)@ == write_bits(old(buff)@, f, v),
{
    let x = buff[f.dw];
    buff[f.dw] = (x & !(f.mask << f.shift)) | (v << f.shift);
}

pub open spec fn fields_in(fields: Seq<BitField>, len: int) -> bool {
    forall|i: int| 0 <= i < fields.len() ==> (#[trigger] fields[i]).dw < len && fields[i].shift < 32
}

pub open spec fn joins_in(joins: Seq<JoinField>, len: int) -> bool {
    forall|i: int| 0 <= i < joins.len() ==> (#[trigger] joins[i]).lo < len && joins[i].hi < len
}

/// Writes the bit fields, in order.
pub fn encode_bit_fields(fields: &Vec<BitField>, vals: &Vec<u32>, buff: &mut [u32])
    requires
        fields@.len() == vals@.len(),
        fields_in(fields@, old(buff)@.len() as int),
    ensures
        final(buff)@ == encode_bits(old(buff)@, fields@, vals@, fields@.len()),
        final(buff)@.len() == old(buff)@.len(),
{
    let mut i: usize = 0;
    while i < fields.len()
        invariant
            i <= fields@.len(),
            fields@.len() == vals@.len(),
            fields_in(fields@, old(buff)@.len() as int),
            buff@ == encode_bits(old(buff)@, fields@, vals@, i as nat),
        decreases fields@.len() - i,
    {
        proof {
            lemma_encode_bits_len(old(buff)@, fields@, vals@, i as nat);
        }
        write_field(buff, fields[i], vals[i]);
        i += 1;
    }
    proof {
        lemma_encode_bits_len(old(buff)@, fields@, vals@, fields@.len());
    }
}

/// Reads the bit fields.
pub fn decode_bit_fields(fields: &Vec<BitField>, buff: &[u32]) -> (r: Vec<u32>)
    requires
        fields_in(fields@, buff@.len() as int),
    ensures
        r@ == decode_bits(buff@, fields@),
        forall|i: int| 0 <= i < fields@.len() ==> r@[i] <= (#[trigger] fields@[i]).mask,
{
    let mut r: Vec<u32> = Vec::new();
    let mut i: usize = 0;
    while i < fields.len()
        invariant
            i <= fields@.len(),
            fields_in(fields@, buff@.len() as int),
            r@ =~= decode_bits(buff@, fields@).take(i as int),
            forall|k: int| 0 <= k < i ==> r@[k] <= (#[trigger] fields@[k]).mask,
        decreases fields@.len() - i,
    {
        let v = read_field(buff, fields[i]);
        r.push(v);
        i += 1;
    }
    assert(r@ =~= decode_bits(buff@, fields@));
    r
}

/// Writes the 64-bit fields, in order: the low half, then the high half.
pub fn encode_join_fields(joins: &Vec<JoinField>, vals: &Vec<u64>, buff: &mut [u32])
    requires
        joins@.len() == vals@.len(),
        joins_in(joins@, old(buff)@.len() as int),
    ensures
        final(buff)@ == encode_joins(old(buff)@, joins@, vals@, joins@.len()),
        final(buff)@.len() == old(buff)@.len(),
{
    let mut i: usize = 0;
    while i < joins.len()
        invariant
            i <= joins@.len(),
            joins@.len() == vals@.len(),
            joins_in(joins@, old(buff)@.len() as int),
            buff@ == encode_joins(old(buff)@, joins@, vals@, i as nat),
            buff@.len() == old(buff)@.len(),
        decreases joins@.len() - i,
    {
        let j = joins[i];
        let v = vals[i];
        buff[j.lo] = v as u32;
        buff[j.hi] = (v >> 32) as u32;
        i += 1;
    }
}

/// Reads the 64-bit fields.
pub fn decode_join_fields(joins: &Vec<JoinField>, buff: &[u32]) -> (r: Vec<u64>)
    requires
        joins_in(joins@, buff@.len() as int),
    ensures
        r@ == decode_joins(buff@, joins@),
{
    let mut r: Vec<u64> = Vec::new();
    let mut i: usize = 0;
    while i < joins.len()
        invariant
            i <= joins@.len(),
            joins_in(joins@, buff@.len() as int),
            r@ =~= decode_joins(buff@, joins@).take(i as int),
        decreases joins@.len() - i,
    {
        let j = joins[i];
        r.push(((buff[j.hi] as u64) << 32) | (buff[j.lo] as u64));
        i += 1;
    }
    assert(r@ =~= decode_joins(buff@, joins@));
    r
}

/// Stores the length of `data` in the length field, then copies `data` in.
pub fn encode_tail(d: DynField, data: &[u32], buff: &mut [u32])
    requires
        d.len_dw < old(buff)@.len(),
        d.shift < 32,
        d.start + data@.len() <= old(buff)@.len(),
        data@.len() <= d.mask,
    ensures
        final(buff)@ == write_dyn(old(buff)@, d, data@),
        final(buff)@.len() == old(buff)@.len(),
{
    write_field(buff, BitField { dw: d.len_dw, mask: d.mask, shift: d.shift }, data.len() as u32);
    let ghost w = buff@;
    let total = buff.len();
    let mut i: usize = 0;
    while i < data.len()
        invariant
            i <= data@.len(),
            w.len() == total,
            d.start + data@.len() <= w.len(),
            buff@.len() == w.len(),
            forall|k: int| 0 <= k < d.start ==> buff@[k] == w[k],
            forall|k: int| d.start + i <= k < w.len() ==> buff@[k] == w[k],
            forall|k: int| 0 <= k < i ==> buff@[d.start + k] == data@[k],
        decreases data@.len() - i,
    {
        buff[d.start + i] = data[i];
        i += 1;
    }
    assert(buff@ =~= write_dyn(old(buff)@, d, data@));
}

/// The tail of the packet in the buffer.
pub fn decode_tail<'a>(d: DynField, buff: &'a [u32]) -> (r: &'a [u32])
    requires
        d.len_dw < buff@.len(),
        d.shift < 32,
        d.start + read_dyn_len(buff@, d) <= buff@.len(),
    ensures
        r@ == read_dyn(buff@, d),
        r@.len() == read_dyn_len(buff@, d),
        d.start + r@.len() <= usize::MAX,
{
    let len = read_field(buff, BitField { dw: d.len_dw, mask: d.mask, shift: d.shift });
    let total = buff.len();
    assert(d.start + len <= total);
    vstd::slice::slice_subrange(buff, d.start, d.start + len as usize)
}

/// Clears `hmask` in dword 0 and sets `hval`.
pub fn put_header(buff: &mut [u32], hmask: u32, hval: u32)
    requires
        old(buff)@.len() > 0,
    ensures
        final(buff)@ == write_header(old(buff)@, hmask, hval),
        final(buff)@.len() == old(buff)@.len(),
{
    let x = buff[0];
    buff[0] = (x & !hmask) | hval;
}


// ---------------------------------------------------------------------------
// Checking a layout.

pub fn bit_field_is_wf(f: BitField, size: usize) -> (r: bool)
    ensures
        r == bit_field_wf(f, size as nat),
{
    f.dw < size && f.shift < 32 && (f.mask & (f.mask >> 1)) == (f.mask >> 1) && ((f.mask << f.shift)
        >> f.shift) == f.mask
}

pub fn regions_are_disjoint(a: BitField, b: BitField) -> (r: bool)
    requires
        a.shift < 32,
        b.shift < 32,
    ensures
        r == regions_disjoint(a, b),
{
    a.dw != b.dw || ((a.mask << a.shift) & (b.mask << b.shift)) == 0
}

fn join_uses_dw(j: JoinField, dw: usize) -> (r: bool)
    ensures
        r == join_uses(j, dw),
{
    j.lo == dw || j.hi == dw
}

fn bit_fields_are_wf(bits: &Vec<BitField>, size: usize) -> (r: bool)
    ensures
        r == bit_fields_wf(bits@, size as nat),
{
    let n = bits.len();
    let mut i: usize = 0;
    while i < n
        invariant
            n == bits@.len(),
            i <= n,
            forall|k: int| 0 <= k < i ==> bit_field_wf(#[trigger] bits@[k], size as nat),
        decreases n - i,
    {
        if !bit_field_is_wf(bits[i], size) {
            return false;
        }
        i += 1;
    }
    let mut i: usize = 0;
    while i < n
        invariant
            n == bits@.len(),
            i <= n,
            forall|k: int| 0 <= k < n ==> bit_field_wf(#[trigger] bits@[k], size as nat),
            forall|a: int, b: int| 0 <= a < i && a < b < n ==> regions_disjoint(#[trigger] bits@[a], #[trigger] bits@[b]),
        decreases n - i,
    {
        let mut j: usize = i + 1;
        while j < n
            invariant
                n == bits@.len(),
                i < n,
                i + 1 <= j <= n,
                forall|k: int| 0 <= k < n ==> bit_field_wf(#[trigger] bits@[k], size as nat),
                forall|a: int, b: int| 0 <= a < i && a < b < n ==> regions_disjoint(#[trigger] bits@[a], #[trigger] bits@[b]),
                forall|b: int| i < b < j ==> regions_disjoint(bits@[i as int], #[trigger] bits@[b]),
            decreases n - j,
        {
            assert(bit_field_wf(bits@[i as int], size as nat));
            assert(bit_field_wf(bits@[j as int], size as nat));
            if !regions_are_disjoint(bits[i], bits[j]) {
                return false;
            }
            j += 1;
        }
        i += 1;
    }
    true
}

fn joins_are_wf(joins: &Vec<JoinField>, bits: &Vec<BitField>, size: usize) -> (r: bool)
    ensures
        r == joins_wf(joins@, bits@, size as nat),
{
    let n = joins.len();
    let mut i: usize = 0;
    while i < n
        invariant
            n == joins@.len(),
            i <= n,
            forall|k: int| 0 <= k < i ==> {
                let j = #[trigger] joins@[k];
                0 < j.lo < size && 0 < j.hi < size && j.lo != j.hi
            },
            forall|a: int, b: int|
                0 <= a < i && a < b < n ==> !join_uses(#[trigger] joins@[a], (#[trigger] joins@[b]).lo) && !join_uses(joins@[a], joins@[b].hi),
            forall|a: int, k: int|
                0 <= a < i && 0 <= k < bits@.len() ==> !join_uses(#[trigger] joins@[a], (#[trigger] bits@[k]).dw),
        decreases n - i,
    {
        let j = joins[i];
        if !(0 < j.lo && j.lo < size && 0 < j.hi && j.hi < size && j.lo != j.hi) {
            return false;
        }
        let mut b: usize = i + 1;
        while b < n
            invariant
                n == joins@.len(),
                i < n,
                j == joins@[i as int],
                i + 1 <= b <= n,
                forall|c: int| i < c < b ==> !join_uses(j, (#[trigger] joins@[c]).lo) && !join_uses(j, joins@[c].hi),
            decreases n - b,
        {
            if join_uses_dw(j, joins[b].lo) || join_uses_dw(j, joins[b].hi) {
                return false;
            }
            b += 1;
        }
        let mut k: usize = 0;
        while k < bits.len()
            invariant
                n == joins@.len(),
                i < n,
                j == joins@[i as int],
                k <= bits@.len(),
                forall|c: int| 0 <= c < k ==> !join_uses(j, (#[trigger] bits@[c]).dw),
            decreases bits@.len() - k,
        {
            if join_uses_dw(j, bits[k].dw) {
                return false;
            }
            k += 1;
        }
        i += 1;
    }
    true
}

fn dyn_is_wf(d: DynField, bits: &Vec<BitField>, joins: &Vec<JoinField>, size: usize) -> (r: bool)
    requires
        bit_fields_wf(bits@, size as nat),
    ensures
        r == dyn_wf(d, bits@, joins@, size as nat),
{
    let lf = BitField { dw: d.len_dw, mask: d.mask, shift: d.shift };
    if d.start != size || !bit_field_is_wf(lf, size) {
        return false;
    }
    let mut k: usize = 0;
    while k < bits.len()
        invariant
            lf == d.len_field(),
            lf.shift < 32,
            bit_fields_wf(bits@, size as nat),
            k <= bits@.len(),
            forall|c: int| 0 <= c < k ==> regions_disjoint(#[trigger] bits@[c], lf),
        decreases bits@.len() - k,
    {
        assert(bit_field_wf(bits@[k as int], size as nat));
        if !regions_are_disjoint(bits[k], lf) {
            return false;
        }
        k += 1;
    }
    let mut i: usize = 0;
    while i < joins.len()
        invariant
            i <= joins@.len(),
            forall|c: int| 0 <= c < i ==> !join_uses(#[trigger] joins@[c], d.len_dw),
        decreases joins@.len() - i,
    {
        if join_uses_dw(joins[i], d.len_dw) {
            return false;
        }
        i += 1;
    }
    true
}

/// Decides whether a packet layout is well formed.
pub fn layout_is_wf(bits: &Vec<BitField>, joins: &Vec<JoinField>, dynamic: Option<DynField>, size: usize) -> (r: bool)
    ensures
        r == layout_wf(bits@, joins@, dynamic, size as nat),
{
    if size == 0 || !bit_fields_are_wf(bits, size) || !joins_are_wf(joins, bits, size) {
        return false;
    }
    match dynamic {
        Some(d) => dyn_is_wf(d, bits, joins, size),
        None => true,
    }
}


/// Decides `header_compatible`.
pub fn header_is_compatible(
    bits: &Vec<BitField>,
    vals: &Vec<u32>,
    dynamic: Option<DynField>,
    hmask: u32,
    hval: u32,
) -> (r: bool)
    requires
        bits@.len() == vals@.len(),
        forall|i: int| 0 <= i < bits@.len() ==> (#[trigger] bits@[i]).shift < 32,
        dynamic matches Some(d) ==> d.shift < 32,
    ensures
        r == header_compatible(bits@, vals@, dynamic, hmask, hval),
{
    if hval & !hmask != 0 {
        return false;
    }
    let mut i: usize = 0;
    while i < bits.len()
        invariant
            bits@.len() == vals@.len(),
            forall|k: int| 0 <= k < bits@.len() ==> (#[trigger] bits@[k]).shift < 32,
            i <= bits@.len(),
            forall|k: int|
                0 <= k < i && (#[trigger] bits@[k]).dw == 0 ==> region(bits@[k]) & hmask == 0 || (
                region(bits@[k]) & hmask == region(bits@[k]) && vals@[k] == get_bits(
                    hval,
                    bits@[k].mask,
                    bits@[k].shift,
                )),
        decreases bits@.len() - i,
    {
        let f = bits[i];
        if f.dw == 0 {
            let reg = f.mask << f.shift;
            let ok = (reg & hmask) == 0 || ((reg & hmask) == reg && vals[i] == (hval >> f.shift) & f.mask);
            if !ok {
                return false;
            }
        }
        i += 1;
    }
    match dynamic {
        Some(d) => d.len_dw != 0 || ((d.mask << d.shift) & hmask) == 0,
        None => true,
    }
}

// ---------------------------------------------------------------------------
// Packet headers: `op` in bits 0..8 and `subop` in bits 8..16 of dword 0,
// and for some packets one more bit, bit 27, to tell them apart.

pub open spec fn bool_bit(b: bool) -> u32 {
    if b {
        1
    } else {
        0
    }
}

pub fn to_bit(b: bool) -> (r: u32)
    ensures
        r == bool_bit(b),
{
    if b {
        1
    } else {
        0
    }
}

pub open spec fn header_op(h: u32) -> u32 {
    h & 0xff
}

pub open spec fn header_subop(h: u32) -> u32 {
    (h >> 8u32) & 0xff
}

pub open spec fn header_extra(h: u32) -> u32 {
    (h >> 27u32) & 1
}

pub proof fn lemma_plain_header(x: u32, op: u32, subop: u32)
    requires
        op < 256,
        subop < 256,
    ensures
        header_op((x & !0xffffu32) | (op | (subop << 8u32))) == op,
        header_subop((x & !0xffffu32) | (op | (subop << 8u32))) == subop,
        (op | (subop << 8u32)) & !0xffffu32 == 0,
{
    assert(((x & !0xffffu32) | (op | (subop << 8u32))) & 0xff == op) by (bit_vector)
        requires
            op < 256,
            subop < 256,
    ;
    assert((((x & !0xffffu32) | (op | (subop << 8u32))) >> 8u32) & 0xff == subop) by (bit_vector)
        requires
            op < 256,
            subop < 256,
    ;
    assert((op | (subop << 8u32)) & !0xffffu32 == 0) by (bit_vector)
        requires
            op < 256,
            subop < 256,
    ;
}

pub proof fn lemma_extra_header(x: u32, op: u32, subop: u32, extra: u32)
    requires
        op < 256,
        subop < 256,
        extra <= 1,
    ensures
        header_op((x & !(0xffffu32 | (1u32 << 27u32))) | (op | (subop << 8u32) | (extra << 27u32))) == op,
        header_subop((x & !(0xffffu32 | (1u32 << 27u32))) | (op | (subop << 8u32) | (extra << 27u32)))
            == subop,
        header_extra((x & !(0xffffu32 | (1u32 << 27u32))) | (op | (subop << 8u32) | (extra << 27u32)))
            == extra,
        (op | (subop << 8u32) | (extra << 27u32)) & !(0xffffu32 | (1u32 << 27u32)) == 0,
{
    assert(((x & !(0xffffu32 | (1u32 << 27u32))) | (op | (subop << 8u32) | (extra << 27u32))) & 0xff
        == op) by (bit_vector)
        requires
            op < 256,
            subop < 256,
            extra <= 1,
    ;
    assert((((x & !(0xffffu32 | (1u32 << 27u32))) | (op | (subop << 8u32) | (extra << 27u32)))
        >> 8u32) & 0xff == subop) by (bit_vector)
        requires
            op < 256,
            subop < 256,
            extra <= 1,
    ;
    assert((((x & !(0xffffu32 | (1u32 << 27u32))) | (op | (subop << 8u32) | (extra << 27u32)))
        >> 27u32) & 1 == extra) by (bit_vector)
        requires
            op < 256,
            subop < 256,
            extra <= 1,
    ;
    assert((op | (subop << 8u32) | (extra << 27u32)) & !(0xffffu32 | (1u32 << 27u32)) == 0) by (bit_vector)
        requires
            op < 256,
            subop < 256,
            extra <= 1,
    ;
}

/// A byte field's value as a dword value.
pub open spec fn u8_value(x: u8) -> u32 {
    x as u32
}

/// A 16-bit field's value as a dword value.
pub open spec fn u16_value(x: u16) -> u32 {
    x as u32
}

/// The value of a byte field as a dword value.
pub fn widen_u8(x: u8) -> (r: u32)
    ensures
        r == x as u32,
{
    x as u32
}

/// The value of a 16-bit field as a dword value.
pub fn widen_u16(x: u16) -> (r: u32)
    ensures
        r == x as u32,
{
    x as u32
}

/// The low byte of a field value read from a dword.
pub fn narrow_u8(x: u32) -> (r: u8)
    ensures
        r == x as u8,
{
    x as u8
}

/// The low 16 bits of a field value read from a dword.
pub fn narrow_u16(x: u32) -> (r: u16)
    ensures
        r == x as u16,
{
    x as u16
}

} // verus!
