use vstd::prelude::*;

use super::layout;
use super::layout::{BitField, JoinField, DynField, layout_is_wf, encode_bit_fields, decode_bit_fields, encode_join_fields, decode_join_fields, encode_tail, decode_tail, to_bit, put_header};

verus! {

/// The `CopyLinear` packet.
#[derive(Clone, Copy, Default)]
pub struct CopyLinear {
    pub count: u32,
    pub dst_sw: u8,
    pub dst_ha: bool,
    pub src_sw: u8,
    pub src_ha: bool,
    pub src_addr: u64,
    pub dst_addr: u64,
}

impl CopyLinear {
    /// Dwords of the packet before its variable-length tail.
    pub const STATIC_DWORDS: usize = 7;

    pub open spec fn bit_fields() -> Seq<BitField> {
        seq![BitField { dw: 1, mask: 0x3fffff, shift: 0 }, BitField { dw: 2, mask: 0x3, shift: 16 }, BitField { dw: 2, mask: 0x1, shift: 22 }, BitField { dw: 2, mask: 0x3, shift: 24 }, BitField { dw: 2, mask: 0x1, shift: 30 }]
    }

    pub open spec fn join_fields() -> Seq<JoinField> {
        seq![JoinField { lo: 3, hi: 4 }, JoinField { lo: 5, hi: 6 }]
    }

    pub open spec fn tail() -> Option<DynField> {
        None
    }

    pub open spec fn bit_values(self) -> Seq<u32> {
        seq![self.count, self.dst_sw as u32, layout::bool_bit(self.dst_ha), self.src_sw as u32, layout::bool_bit(self.src_ha)]
    }

    pub open spec fn join_values(self) -> Seq<u64> {
        seq![self.src_addr, self.dst_addr]
    }

    pub open spec fn tail_data(self) -> Seq<u32> {
        Seq::<u32>::empty()
    }

    /// Every field value fits its field.
    pub open spec fn fits(self) -> bool {
        layout::fields_fit(Self::bit_fields(), self.bit_values()) && layout::tail_fits(Self::tail(), self.tail_data())
    }

    pub open spec fn layout_wf() -> bool {
        layout::layout_wf(Self::bit_fields(), Self::join_fields(), Self::tail(), Self::STATIC_DWORDS as nat)
    }

    /// Dwords that the packet takes.
    pub open spec fn size(self) -> nat {
        (Self::STATIC_DWORDS + self.tail_data().len()) as nat
    }

    /// The buffer holds the whole packet.
    pub open spec fn decodable(buf: Seq<u32>) -> bool {
        buf.len() >= Self::STATIC_DWORDS
    }

    pub open spec fn spec_encode(self, buf: Seq<u32>) -> Seq<u32> {
        layout::encode_packet(
            buf,
            Self::bit_fields(),
            self.bit_values(),
            Self::join_fields(),
            self.join_values(),
            Self::tail(),
            self.tail_data(),
        )
    }

    /// `buf` holds this packet.
    pub open spec fn read_from(self, buf: Seq<u32>) -> bool {
        layout::packet_reads(
            buf,
            Self::bit_fields(),
            self.bit_values(),
            Self::join_fields(),
            self.join_values(),
            Self::tail(),
            self.tail_data(),
        )
    }

    fn exec_bit_fields() -> (r: Vec<BitField>)
        ensures
            r@ == Self::bit_fields(),
    {
        vec![BitField { dw: 1, mask: 0x3fffff, shift: 0 }, BitField { dw: 2, mask: 0x3, shift: 16 }, BitField { dw: 2, mask: 0x1, shift: 22 }, BitField { dw: 2, mask: 0x3, shift: 24 }, BitField { dw: 2, mask: 0x1, shift: 30 }]
    }

    fn exec_join_fields() -> (r: Vec<JoinField>)
        ensures
            r@ == Self::join_fields(),
    {
        vec![JoinField { lo: 3, hi: 4 }, JoinField { lo: 5, hi: 6 }]
    }

    /// Whether the field layout of this packet is well formed.
    pub fn layout_ok() -> (r: bool)
        ensures
            r == Self::layout_wf(),
    {
        layout_is_wf(&Self::exec_bit_fields(), &Self::exec_join_fields(), None, Self::STATIC_DWORDS)
    }

    /// Writes the packet to the start of `buff`, without its header, and
    /// returns how many dwords it took.
    pub fn partial_encode_linear(&self, buff: &mut [u32]) -> (n: usize)
        requires
            old(buff)@.len() >= self.size(),
            self.fits(),
        ensures
            n == self.size(),
            final(buff)@ == self.spec_encode(old(buff)@),
            final(buff)@.len() == old(buff)@.len(),
    {
        let bits = Self::exec_bit_fields();
        let vals: Vec<u32> = vec![self.count, layout::widen_u8(self.dst_sw), to_bit(self.dst_ha), layout::widen_u8(self.src_sw), to_bit(self.src_ha)];
        let joins = Self::exec_join_fields();
        let jvals: Vec<u64> = vec![self.src_addr, self.dst_addr];
        proof {
            assert(vals@ =~= self.bit_values());
            assert(jvals@ =~= self.join_values());
        }
        encode_bit_fields(&bits, &vals, buff);
        encode_join_fields(&joins, &jvals, buff);
        Self::STATIC_DWORDS
    }

    /// Reads the packet at the start of `buff` and returns how many dwords it
    /// took.
    pub fn partial_decode_linear(buff: &[u32]) -> (r: (usize, Self))
        requires
            Self::decodable(buff@),
        ensures
            r.0 == r.1.size(),
            r.1.read_from(buff@),
    {
        let bits = Self::exec_bit_fields();
        let v = decode_bit_fields(&bits, buff);
        let joins = Self::exec_join_fields();
        let j = decode_join_fields(&joins, buff);
        let p = Self { count: v[0], dst_sw: layout::narrow_u8(v[1]), dst_ha: v[2] != 0, src_sw: layout::narrow_u8(v[3]), src_ha: v[4] != 0, src_addr: j[0], dst_addr: j[1] };
        proof {
            assert(p.bit_values() =~= v@);
            assert(p.join_values() =~= j@);
        }
        (Self::STATIC_DWORDS, p)
    }

    /// Where each field stands in a buffer that the packet is read from, as
    /// the packet header lays it out: a bit field under its mask and shift
    /// in its dword, a 64-bit field in two dwords, low half first. By
    /// `lemma_roundtrip`, encoding a packet puts its fields there.
    pub proof fn lemma_field_positions(self, buf: Seq<u32>)
        requires
            self.read_from(buf),
        ensures
            self.count == layout::get_bits(buf[1], 0x3fffff, 0),
            layout::u8_value(self.dst_sw) == layout::get_bits(buf[2], 0x3, 16),
            layout::bool_bit(self.dst_ha) == layout::get_bits(buf[2], 0x1, 22),
            layout::u8_value(self.src_sw) == layout::get_bits(buf[2], 0x3, 24),
            layout::bool_bit(self.src_ha) == layout::get_bits(buf[2], 0x1, 30),
            self.src_addr == layout::dword_pair(buf[3], buf[4]),
            self.dst_addr == layout::dword_pair(buf[5], buf[6]),
    {
        assert(self.bit_values()[0] == self.count);
        assert(layout::decode_bits(buf, Self::bit_fields())[0] == self.bit_values()[0]);
        assert(self.bit_values()[1] == layout::u8_value(self.dst_sw));
        assert(layout::decode_bits(buf, Self::bit_fields())[1] == self.bit_values()[1]);
        assert(self.bit_values()[2] == layout::bool_bit(self.dst_ha));
        assert(layout::decode_bits(buf, Self::bit_fields())[2] == self.bit_values()[2]);
        assert(self.bit_values()[3] == layout::u8_value(self.src_sw));
        assert(layout::decode_bits(buf, Self::bit_fields())[3] == self.bit_values()[3]);
        assert(self.bit_values()[4] == layout::bool_bit(self.src_ha));
        assert(layout::decode_bits(buf, Self::bit_fields())[4] == self.bit_values()[4]);
        assert(layout::decode_joins(buf, Self::join_fields())[0] == self.join_values()[0]);
        assert(layout::decode_joins(buf, Self::join_fields())[1] == self.join_values()[1]);
    }

    /// The field values name the packet: two packets with the same values are
    /// equal.
    pub proof fn lemma_values_determine(a: Self, b: Self)
        requires
            a.bit_values() == b.bit_values(),
            a.join_values() == b.join_values(),
            a.tail_data() == b.tail_data(),
        ensures
            a == b,
    {
        assert(a.bit_values()[0] == a.count && b.bit_values()[0] == b.count);
        assert(a.bit_values()[1] == layout::u8_value(a.dst_sw) && b.bit_values()[1] == layout::u8_value(b.dst_sw));
        assert(a.bit_values()[2] == layout::bool_bit(a.dst_ha) && b.bit_values()[2] == layout::bool_bit(b.dst_ha));
        assert(a.bit_values()[3] == layout::u8_value(a.src_sw) && b.bit_values()[3] == layout::u8_value(b.src_sw));
        assert(a.bit_values()[4] == layout::bool_bit(a.src_ha) && b.bit_values()[4] == layout::bool_bit(b.src_ha));
        assert(a.join_values()[0] == a.src_addr && b.join_values()[0] == b.src_addr);
        assert(a.join_values()[1] == a.dst_addr && b.join_values()[1] == b.dst_addr);
    }

    /// Reading a packet is exact: two packets read from one buffer are equal.
    pub proof fn lemma_read_unique(a: Self, b: Self, buf: Seq<u32>)
        requires
            a.read_from(buf),
            b.read_from(buf),
        ensures
            a == b,
    {
        layout::lemma_reads_determine(
            buf,
            Self::bit_fields(),
            a.bit_values(),
            b.bit_values(),
            Self::join_fields(),
            a.join_values(),
            b.join_values(),
            Self::tail(),
            a.tail_data(),
            b.tail_data(),
        );
        Self::lemma_values_determine(a, b);
    }

    /// A packet reads back from what it was encoded to.
    pub proof fn lemma_roundtrip(self, buf: Seq<u32>)
        requires
            Self::layout_wf(),
            self.fits(),
            buf.len() >= self.size(),
        ensures
            self.read_from(self.spec_encode(buf)),
            Self::decodable(self.spec_encode(buf)),
            self.spec_encode(buf).len() == buf.len(),
    {
        layout::lemma_packet_roundtrip(
            buf,
            Self::bit_fields(),
            self.bit_values(),
            Self::join_fields(),
            self.join_values(),
            Self::tail(),
            self.tail_data(),
            Self::STATIC_DWORDS as nat,
        );
    }
}

/// The `CopyLinearBroadcast` packet.
#[derive(Clone, Copy, Default)]
pub struct CopyLinearBroadcast {
    pub count: u32,
    pub dst2_sw: u8,
    pub dst2_ha: u8,
    pub dst1_sw: u8,
    pub dst1_ha: u8,
    pub src_sw: u8,
    pub src_ha: u8,
    pub src_addr: u64,
    pub dst1_addr: u64,
    pub dst2_addr: u64,
}

impl CopyLinearBroadcast {
    /// Dwords of the packet before its variable-length tail.
    pub const STATIC_DWORDS: usize = 9;

    pub open spec fn bit_fields() -> Seq<BitField> {
        seq![BitField { dw: 1, mask: 0x3fffff, shift: 0 }, BitField { dw: 2, mask: 0x3, shift: 8 }, BitField { dw: 2, mask: 0x1, shift: 14 }, BitField { dw: 2, mask: 0x3, shift: 16 }, BitField { dw: 2, mask: 0x1, shift: 22 }, BitField { dw: 2, mask: 0x3, shift: 24 }, BitField { dw: 2, mask: 0x1, shift: 30 }]
    }

    pub open spec fn join_fields() -> Seq<JoinField> {
        seq![JoinField { lo: 3, hi: 4 }, JoinField { lo: 5, hi: 6 }, JoinField { lo: 7, hi: 8 }]
    }

    pub open spec fn tail() -> Option<DynField> {
        None
    }

    pub open spec fn bit_values(self) -> Seq<u32> {
        seq![self.count, self.dst2_sw as u32, self.dst2_ha as u32, self.dst1_sw as u32, self.dst1_ha as u32, self.src_sw as u32, self.src_ha as u32]
    }

    pub open spec fn join_values(self) -> Seq<u64> {
        seq![self.src_addr, self.dst1_addr, self.dst2_addr]
    }

    pub open spec fn tail_data(self) -> Seq<u32> {
        Seq::<u32>::empty()
    }

    /// Every field value fits its field.
    pub open spec fn fits(self) -> bool {
        layout::fields_fit(Self::bit_fields(), self.bit_values()) && layout::tail_fits(Self::tail(), self.tail_data())
    }

    pub open spec fn layout_wf() -> bool {
        layout::layout_wf(Self::bit_fields(), Self::join_fields(), Self::tail(), Self::STATIC_DWORDS as nat)
    }

    /// Dwords that the packet takes.
    pub open spec fn size(self) -> nat {
        (Self::STATIC_DWORDS + self.tail_data().len()) as nat
    }

    /// The buffer holds the whole packet.
    pub open spec fn decodable(buf: Seq<u32>) -> bool {
        buf.len() >= Self::STATIC_DWORDS
    }

    pub open spec fn spec_encode(self, buf: Seq<u32>) -> Seq<u32> {
        layout::encode_packet(
            buf,
            Self::bit_fields(),
            self.bit_values(),
            Self::join_fields(),
            self.join_values(),
            Self::tail(),
            self.tail_data(),
        )
    }

    /// `buf` holds this packet.
    pub open spec fn read_from(self, buf: Seq<u32>) -> bool {
        layout::packet_reads(
            buf,
            Self::bit_fields(),
            self.bit_values(),
            Self::join_fields(),
            self.join_values(),
            Self::tail(),
            self.tail_data(),
        )
    }

    fn exec_bit_fields() -> (r: Vec<BitField>)
        ensures
            r@ == Self::bit_fields(),
    {
        vec![BitField { dw: 1, mask: 0x3fffff, shift: 0 }, BitField { dw: 2, mask: 0x3, shift: 8 }, BitField { dw: 2, mask: 0x1, shift: 14 }, BitField { dw: 2, mask: 0x3, shift: 16 }, BitField { dw: 2, mask: 0x1, shift: 22 }, BitField { dw: 2, mask: 0x3, shift: 24 }, BitField { dw: 2, mask: 0x1, shift: 30 }]
    }

    fn exec_join_fields() -> (r: Vec<JoinField>)
        ensures
            r@ == Self::join_fields(),
    {
        vec![JoinField { lo: 3, hi: 4 }, JoinField { lo: 5, hi: 6 }, JoinField { lo: 7, hi: 8 }]
    }

    /// Whether the field layout of this packet is well formed.
    pub fn layout_ok() -> (r: bool)
        ensures
            r == Self::layout_wf(),
    {
        layout_is_wf(&Self::exec_bit_fields(), &Self::exec_join_fields(), None, Self::STATIC_DWORDS)
    }

    /// Writes the packet to the start of `buff`, without its header, and
    /// returns how many dwords it took.
    pub fn partial_encode_linear(&self, buff: &mut [u32]) -> (n: usize)
        requires
            old(buff)@.len() >= self.size(),
            self.fits(),
        ensures
            n == self.size(),
            final(buff)@ == self.spec_encode(old(buff)@),
            final(buff)@.len() == old(buff)@.len(),
    {
        let bits = Self::exec_bit_fields();
        let vals: Vec<u32> = vec![self.count, layout::widen_u8(self.dst2_sw), layout::widen_u8(self.dst2_ha), layout::widen_u8(self.dst1_sw), layout::widen_u8(self.dst1_ha), layout::widen_u8(self.src_sw), layout::widen_u8(self.src_ha)];
        let joins = Self::exec_join_fields();
        let jvals: Vec<u64> = vec![self.src_addr, self.dst1_addr, self.dst2_addr];
        proof {
            assert(vals@ =~= self.bit_values());
            assert(jvals@ =~= self.join_values());
        }
        encode_bit_fields(&bits, &vals, buff);
        encode_join_fields(&joins, &jvals, buff);
        Self::STATIC_DWORDS
    }

    /// Reads the packet at the start of `buff` and returns how many dwords it
    /// took.
    pub fn partial_decode_linear(buff: &[u32]) -> (r: (usize, Self))
        requires
            Self::decodable(buff@),
        ensures
            r.0 == r.1.size(),
            r.1.read_from(buff@),
    {
        let bits = Self::exec_bit_fields();
        let v = decode_bit_fields(&bits, buff);
        let joins = Self::exec_join_fields();
        let j = decode_join_fields(&joins, buff);
        let p = Self { count: v[0], dst2_sw: layout::narrow_u8(v[1]), dst2_ha: layout::narrow_u8(v[2]), dst1_sw: layout::narrow_u8(v[3]), dst1_ha: layout::narrow_u8(v[4]), src_sw: layout::narrow_u8(v[5]), src_ha: layout::narrow_u8(v[6]), src_addr: j[0], dst1_addr: j[1], dst2_addr: j[2] };
        proof {
            assert(p.bit_values() =~= v@);
            assert(p.join_values() =~= j@);
        }
        (Self::STATIC_DWORDS, p)
    }

    /// Where each field stands in a buffer that the packet is read from, as
    /// the packet header lays it out: a bit field under its mask and shift
    /// in its dword, a 64-bit field in two dwords, low half first. By
    /// `lemma_roundtrip`, encoding a packet puts its fields there.
    pub proof fn lemma_field_positions(self, buf: Seq<u32>)
        requires
            self.read_from(buf),
        ensures
            self.count == layout::get_bits(buf[1], 0x3fffff, 0),
            layout::u8_value(self.dst2_sw) == layout::get_bits(buf[2], 0x3, 8),
            layout::u8_value(self.dst2_ha) == layout::get_bits(buf[2], 0x1, 14),
            layout::u8_value(self.dst1_sw) == layout::get_bits(buf[2], 0x3, 16),
            layout::u8_value(self.dst1_ha) == layout::get_bits(buf[2], 0x1, 22),
            layout::u8_value(self.src_sw) == layout::get_bits(buf[2], 0x3, 24),
            layout::u8_value(self.src_ha) == layout::get_bits(buf[2], 0x1, 30),
            self.src_addr == layout::dword_pair(buf[3], buf[4]),
            self.dst1_addr == layout::dword_pair(buf[5], buf[6]),
            self.dst2_addr == layout::dword_pair(buf[7], buf[8]),
    {
        assert(self.bit_values()[0] == self.count);
        assert(layout::decode_bits(buf, Self::bit_fields())[0] == self.bit_values()[0]);
        assert(self.bit_values()[1] == layout::u8_value(self.dst2_sw));
        assert(layout::decode_bits(buf, Self::bit_fields())[1] == self.bit_values()[1]);
        assert(self.bit_values()[2] == layout::u8_value(self.dst2_ha));
        assert(layout::decode_bits(buf, Self::bit_fields())[2] == self.bit_values()[2]);
        assert(self.bit_values()[3] == layout::u8_value(self.dst1_sw));
        assert(layout::decode_bits(buf, Self::bit_fields())[3] == self.bit_values()[3]);
        assert(self.bit_values()[4] == layout::u8_value(self.dst1_ha));
        assert(layout::decode_bits(buf, Self::bit_fields())[4] == self.bit_values()[4]);
        assert(self.bit_values()[5] == layout::u8_value(self.src_sw));
        assert(layout::decode_bits(buf, Self::bit_fields())[5] == self.bit_values()[5]);
        assert(self.bit_values()[6] == layout::u8_value(self.src_ha));
        assert(layout::decode_bits(buf, Self::bit_fields())[6] == self.bit_values()[6]);
        assert(layout::decode_joins(buf, Self::join_fields())[0] == self.join_values()[0]);
        assert(layout::decode_joins(buf, Self::join_fields())[1] == self.join_values()[1]);
        assert(layout::decode_joins(buf, Self::join_fields())[2] == self.join_values()[2]);
    }

    /// The field values name the packet: two packets with the same values are
    /// equal.
    pub proof fn lemma_values_determine(a: Self, b: Self)
        requires
            a.bit_values() == b.bit_values(),
            a.join_values() == b.join_values(),
            a.tail_data() == b.tail_data(),
        ensures
            a == b,
    {
        assert(a.bit_values()[0] == a.count && b.bit_values()[0] == b.count);
        assert(a.bit_values()[1] == layout::u8_value(a.dst2_sw) && b.bit_values()[1] == layout::u8_value(b.dst2_sw));
        assert(a.bit_values()[2] == layout::u8_value(a.dst2_ha) && b.bit_values()[2] == layout::u8_value(b.dst2_ha));
        assert(a.bit_values()[3] == layout::u8_value(a.dst1_sw) && b.bit_values()[3] == layout::u8_value(b.dst1_sw));
        assert(a.bit_values()[4] == layout::u8_value(a.dst1_ha) && b.bit_values()[4] == layout::u8_value(b.dst1_ha));
        assert(a.bit_values()[5] == layout::u8_value(a.src_sw) && b.bit_values()[5] == layout::u8_value(b.src_sw));
        assert(a.bit_values()[6] == layout::u8_value(a.src_ha) && b.bit_values()[6] == layout::u8_value(b.src_ha));
        assert(a.join_values()[0] == a.src_addr && b.join_values()[0] == b.src_addr);
        assert(a.join_values()[1] == a.dst1_addr && b.join_values()[1] == b.dst1_addr);
        assert(a.join_values()[2] == a.dst2_addr && b.join_values()[2] == b.dst2_addr);
    }

    /// Reading a packet is exact: two packets read from one buffer are equal.
    pub proof fn lemma_read_unique(a: Self, b: Self, buf: Seq<u32>)
        requires
            a.read_from(buf),
            b.read_from(buf),
        ensures
            a == b,
    {
        layout::lemma_reads_determine(
            buf,
            Self::bit_fields(),
            a.bit_values(),
            b.bit_values(),
            Self::join_fields(),
            a.join_values(),
            b.join_values(),
            Self::tail(),
            a.tail_data(),
            b.tail_data(),
        );
        Self::lemma_values_determine(a, b);
    }

    /// A packet reads back from what it was encoded to.
    pub proof fn lemma_roundtrip(self, buf: Seq<u32>)
        requires
            Self::layout_wf(),
            self.fits(),
            buf.len() >= self.size(),
        ensures
            self.read_from(self.spec_encode(buf)),
            Self::decodable(self.spec_encode(buf)),
            self.spec_encode(buf).len() == buf.len(),
    {
        layout::lemma_packet_roundtrip(
            buf,
            Self::bit_fields(),
            self.bit_values(),
            Self::join_fields(),
            self.join_values(),
            Self::tail(),
            self.tail_data(),
            Self::STATIC_DWORDS as nat,
        );
    }
}

/// The `CopyTiled` packet.
#[derive(Clone, Copy, Default)]
pub struct CopyTiled {
    pub detile: bool,
    pub pitch_in_tile: u16,
    pub height: u16,
    pub slice_pitch: u32,
    pub element_size: u8,
    pub array_mode: u8,
    pub mit_mode: u8,
    pub tilesplit_size: u8,
    pub bank_w: u8,
    pub bank_h: u8,
    pub num_bank: u8,
    pub mat_aspt: u8,
    pub pipe_config: u8,
    pub x: u16,
    pub y: u16,
    pub z: u16,
    pub linear_sw: u8,
    pub tile_sw: u8,
    pub linear_pitch: u32,
    pub count: u32,
    pub tiled_addr: u64,
    pub linear_addr: u64,
}

impl CopyTiled {
    /// Dwords of the packet before its variable-length tail.
    pub const STATIC_DWORDS: usize = 12;

    pub open spec fn bit_fields() -> Seq<BitField> {
        seq![BitField { dw: 0, mask: 0x1, shift: 31 }, BitField { dw: 3, mask: 0x7ff, shift: 0 }, BitField { dw: 3, mask: 0x3fff, shift: 16 }, BitField { dw: 4, mask: 0x3fffff, shift: 0 }, BitField { dw: 5, mask: 0x7, shift: 0 }, BitField { dw: 5, mask: 0xf, shift: 3 }, BitField { dw: 5, mask: 0x7, shift: 8 }, BitField { dw: 5, mask: 0x7, shift: 11 }, BitField { dw: 5, mask: 0x3, shift: 15 }, BitField { dw: 5, mask: 0x3, shift: 18 }, BitField { dw: 5, mask: 0x3, shift: 21 }, BitField { dw: 5, mask: 0x3, shift: 24 }, BitField { dw: 5, mask: 0x1f, shift: 26 }, BitField { dw: 6, mask: 0x3fff, shift: 0 }, BitField { dw: 6, mask: 0x3fff, shift: 16 }, BitField { dw: 7, mask: 0xfff, shift: 0 }, BitField { dw: 7, mask: 0x3, shift: 16 }, BitField { dw: 7, mask: 0x3, shift: 24 }, BitField { dw: 10, mask: 0x7ffff, shift: 0 }, BitField { dw: 11, mask: 0xfffff, shift: 0 }]
    }

    pub open spec fn join_fields() -> Seq<JoinField> {
        seq![JoinField { lo: 1, hi: 2 }, JoinField { lo: 8, hi: 9 }]
    }

    pub open spec fn tail() -> Option<DynField> {
        None
    }

    pub open spec fn bit_values(self) -> Seq<u32> {
        seq![layout::bool_bit(self.detile), self.pitch_in_tile as u32, self.height as u32, self.slice_pitch, self.element_size as u32, self.array_mode as u32, self.mit_mode as u32, self.tilesplit_size as u32, self.bank_w as u32, self.bank_h as u32, self.num_bank as u32, self.mat_aspt as u32, self.pipe_config as u32, self.x as u32, self.y as u32, self.z as u32, self.linear_sw as u32, self.tile_sw as u32, self.linear_pitch, self.count]
    }

    pub open spec fn join_values(self) -> Seq<u64> {
        seq![self.tiled_addr, self.linear_addr]
    }

    pub open spec fn tail_data(self) -> Seq<u32> {
        Seq::<u32>::empty()
    }

    /// Every field value fits its field.
    pub open spec fn fits(self) -> bool {
        layout::fields_fit(Self::bit_fields(), self.bit_values()) && layout::tail_fits(Self::tail(), self.tail_data())
    }

    pub open spec fn layout_wf() -> bool {
        layout::layout_wf(Self::bit_fields(), Self::join_fields(), Self::tail(), Self::STATIC_DWORDS as nat)
    }

    /// Dwords that the packet takes.
    pub open spec fn size(self) -> nat {
        (Self::STATIC_DWORDS + self.tail_data().len()) as nat
    }

    /// The buffer holds the whole packet.
    pub open spec fn decodable(buf: Seq<u32>) -> bool {
        buf.len() >= Self::STATIC_DWORDS
    }

    pub open spec fn spec_encode(self, buf: Seq<u32>) -> Seq<u32> {
        layout::encode_packet(
            buf,
            Self::bit_fields(),
            self.bit_values(),
            Self::join_fields(),
            self.join_values(),
            Self::tail(),
            self.tail_data(),
        )
    }

    /// `buf` holds this packet.
    pub open spec fn read_from(self, buf: Seq<u32>) -> bool {
        layout::packet_reads(
            buf,
            Self::bit_fields(),
            self.bit_values(),
            Self::join_fields(),
            self.join_values(),
            Self::tail(),
            self.tail_data(),
        )
    }

    fn exec_bit_fields() -> (r: Vec<BitField>)
        ensures
            r@ == Self::bit_fields(),
    {
        vec![BitField { dw: 0, mask: 0x1, shift: 31 }, BitField { dw: 3, mask: 0x7ff, shift: 0 }, BitField { dw: 3, mask: 0x3fff, shift: 16 }, BitField { dw: 4, mask: 0x3fffff, shift: 0 }, BitField { dw: 5, mask: 0x7, shift: 0 }, BitField { dw: 5, mask: 0xf, shift: 3 }, BitField { dw: 5, mask: 0x7, shift: 8 }, BitField { dw: 5, mask: 0x7, shift: 11 }, BitField { dw: 5, mask: 0x3, shift: 15 }, BitField { dw: 5, mask: 0x3, shift: 18 }, BitField { dw: 5, mask: 0x3, shift: 21 }, BitField { dw: 5, mask: 0x3, shift: 24 }, BitField { dw: 5, mask: 0x1f, shift: 26 }, BitField { dw: 6, mask: 0x3fff, shift: 0 }, BitField { dw: 6, mask: 0x3fff, shift: 16 }, BitField { dw: 7, mask: 0xfff, shift: 0 }, BitField { dw: 7, mask: 0x3, shift: 16 }, BitField { dw: 7, mask: 0x3, shift: 24 }, BitField { dw: 10, mask: 0x7ffff, shift: 0 }, BitField { dw: 11, mask: 0xfffff, shift: 0 }]
    }

    fn exec_join_fields() -> (r: Vec<JoinField>)
        ensures
            r@ == Self::join_fields(),
    {
        vec![JoinField { lo: 1, hi: 2 }, JoinField { lo: 8, hi: 9 }]
    }

    /// Whether the field layout of this packet is well formed.
    pub fn layout_ok() -> (r: bool)
        ensures
            r == Self::layout_wf(),
    {
        layout_is_wf(&Self::exec_bit_fields(), &Self::exec_join_fields(), None, Self::STATIC_DWORDS)
    }

    /// Writes the packet to the start of `buff`, without its header, and
    /// returns how many dwords it took.
    pub fn partial_encode_linear(&self, buff: &mut [u32]) -> (n: usize)
        requires
            old(buff)@.len() >= self.size(),
            self.fits(),
        ensures
            n == self.size(),
            final(buff)@ == self.spec_encode(old(buff)@),
            final(buff)@.len() == old(buff)@.len(),
    {
        let bits = Self::exec_bit_fields();
        let vals: Vec<u32> = vec![to_bit(self.detile), layout::widen_u16(self.pitch_in_tile), layout::widen_u16(self.height), self.slice_pitch, layout::widen_u8(self.element_size), layout::widen_u8(self.array_mode), layout::widen_u8(self.mit_mode), layout::widen_u8(self.tilesplit_size), layout::widen_u8(self.bank_w), layout::widen_u8(self.bank_h), layout::widen_u8(self.num_bank), layout::widen_u8(self.mat_aspt), layout::widen_u8(self.pipe_config), layout::widen_u16(self.x), layout::widen_u16(self.y), layout::widen_u16(self.z), layout::widen_u8(self.linear_sw), layout::widen_u8(self.tile_sw), self.linear_pitch, self.count];
        let joins = Self::exec_join_fields();
        let jvals: Vec<u64> = vec![self.tiled_addr, self.linear_addr];
        proof {
            assert(vals@ =~= self.bit_values());
            assert(jvals@ =~= self.join_values());
        }
        encode_bit_fields(&bits, &vals, buff);
        encode_join_fields(&joins, &jvals, buff);
        Self::STATIC_DWORDS
    }

    /// Reads the packet at the start of `buff` and returns how many dwords it
    /// took.
    #[verifier::rlimit(40)]
    pub fn partial_decode_linear(buff: &[u32]) -> (r: (usize, Self))
        requires
            Self::decodable(buff@),
        ensures
            r.0 == r.1.size(),
            r.1.read_from(buff@),
    {
        let bits = Self::exec_bit_fields();
        let v = decode_bit_fields(&bits, buff);
        let joins = Self::exec_join_fields();
        let j = decode_join_fields(&joins, buff);
        let p = Self { detile: v[0] != 0, pitch_in_tile: layout::narrow_u16(v[1]), height: layout::narrow_u16(v[2]), slice_pitch: v[3], element_size: layout::narrow_u8(v[4]), array_mode: layout::narrow_u8(v[5]), mit_mode: layout::narrow_u8(v[6]), tilesplit_size: layout::narrow_u8(v[7]), bank_w: layout::narrow_u8(v[8]), bank_h: layout::narrow_u8(v[9]), num_bank: layout::narrow_u8(v[10]), mat_aspt: layout::narrow_u8(v[11]), pipe_config: layout::narrow_u8(v[12]), x: layout::narrow_u16(v[13]), y: layout::narrow_u16(v[14]), z: layout::narrow_u16(v[15]), linear_sw: layout::narrow_u8(v[16]), tile_sw: layout::narrow_u8(v[17]), linear_pitch: v[18], count: v[19], tiled_addr: j[0], linear_addr: j[1] };
        proof {
            assert(p.bit_values() =~= v@);
            assert(p.join_values() =~= j@);
        }
        (Self::STATIC_DWORDS, p)
    }

    /// Where each field stands in a buffer that the packet is read from, as
    /// the packet header lays it out: a bit field under its mask and shift
    /// in its dword, a 64-bit field in two dwords, low half first. By
    /// `lemma_roundtrip`, encoding a packet puts its fields there.
    #[verifier::rlimit(40)]
    pub proof fn lemma_field_positions(self, buf: Seq<u32>)
        requires
            self.read_from(buf),
        ensures
            layout::bool_bit(self.detile) == layout::get_bits(buf[0], 0x1, 31),
            layout::u16_value(self.pitch_in_tile) == layout::get_bits(buf[3], 0x7ff, 0),
            layout::u16_value(self.height) == layout::get_bits(buf[3], 0x3fff, 16),
            self.slice_pitch == layout::get_bits(buf[4], 0x3fffff, 0),
            layout::u8_value(self.element_size) == layout::get_bits(buf[5], 0x7, 0),
            layout::u8_value(self.array_mode) == layout::get_bits(buf[5], 0xf, 3),
            layout::u8_value(self.mit_mode) == layout::get_bits(buf[5], 0x7, 8),
            layout::u8_value(self.tilesplit_size) == layout::get_bits(buf[5], 0x7, 11),
            layout::u8_value(self.bank_w) == layout::get_bits(buf[5], 0x3, 15),
            layout::u8_value(self.bank_h) == layout::get_bits(buf[5], 0x3, 18),
            layout::u8_value(self.num_bank) == layout::get_bits(buf[5], 0x3, 21),
            layout::u8_value(self.mat_aspt) == layout::get_bits(buf[5], 0x3, 24),
            layout::u8_value(self.pipe_config) == layout::get_bits(buf[5], 0x1f, 26),
            layout::u16_value(self.x) == layout::get_bits(buf[6], 0x3fff, 0),
            layout::u16_value(self.y) == layout::get_bits(buf[6], 0x3fff, 16),
            layout::u16_value(self.z) == layout::get_bits(buf[7], 0xfff, 0),
            layout::u8_value(self.linear_sw) == layout::get_bits(buf[7], 0x3, 16),
            layout::u8_value(self.tile_sw) == layout::get_bits(buf[7], 0x3, 24),
            self.linear_pitch == layout::get_bits(buf[10], 0x7ffff, 0),
            self.count == layout::get_bits(buf[11], 0xfffff, 0),
            self.tiled_addr == layout::dword_pair(buf[1], buf[2]),
            self.linear_addr == layout::dword_pair(buf[8], buf[9]),
    {
        assert(self.bit_values()[0] == layout::bool_bit(self.detile));
        assert(layout::decode_bits(buf, Self::bit_fields())[0] == self.bit_values()[0]);
        assert(self.bit_values()[1] == layout::u16_value(self.pitch_in_tile));
        assert(layout::decode_bits(buf, Self::bit_fields())[1] == self.bit_values()[1]);
        assert(self.bit_values()[2] == layout::u16_value(self.height));
        assert(layout::decode_bits(buf, Self::bit_fields())[2] == self.bit_values()[2]);
        assert(self.bit_values()[3] == self.slice_pitch);
        assert(layout::decode_bits(buf, Self::bit_fields())[3] == self.bit_values()[3]);
        assert(self.bit_values()[4] == layout::u8_value(self.element_size));
        assert(layout::decode_bits(buf, Self::bit_fields())[4] == self.bit_values()[4]);
        assert(self.bit_values()[5] == layout::u8_value(self.array_mode));
        assert(layout::decode_bits(buf, Self::bit_fields())[5] == self.bit_values()[5]);
        assert(self.bit_values()[6] == layout::u8_value(self.mit_mode));
        assert(layout::decode_bits(buf, Self::bit_fields())[6] == self.bit_values()[6]);
        assert(self.bit_values()[7] == layout::u8_value(self.tilesplit_size));
        assert(layout::decode_bits(buf, Self::bit_fields())[7] == self.bit_values()[7]);
        assert(self.bit_values()[8] == layout::u8_value(self.bank_w));
        assert(layout::decode_bits(buf, Self::bit_fields())[8] == self.bit_values()[8]);
        assert(self.bit_values()[9] == layout::u8_value(self.bank_h));
        assert(layout::decode_bits(buf, Self::bit_fields())[9] == self.bit_values()[9]);
        assert(self.bit_values()[10] == layout::u8_value(self.num_bank));
        assert(layout::decode_bits(buf, Self::bit_fields())[10] == self.bit_values()[10]);
        assert(self.bit_values()[11] == layout::u8_value(self.mat_aspt));
        assert(layout::decode_bits(buf, Self::bit_fields())[11] == self.bit_values()[11]);
        assert(self.bit_values()[12] == layout::u8_value(self.pipe_config));
        assert(layout::decode_bits(buf, Self::bit_fields())[12] == self.bit_values()[12]);
        assert(self.bit_values()[13] == layout::u16_value(self.x));
        assert(layout::decode_bits(buf, Self::bit_fields())[13] == self.bit_values()[13]);
        assert(self.bit_values()[14] == layout::u16_value(self.y));
        assert(layout::decode_bits(buf, Self::bit_fields())[14] == self.bit_values()[14]);
        assert(self.bit_values()[15] == layout::u16_value(self.z));
        assert(layout::decode_bits(buf, Self::bit_fields())[15] == self.bit_values()[15]);
        assert(self.bit_values()[16] == layout::u8_value(self.linear_sw));
        assert(layout::decode_bits(buf, Self::bit_fields())[16] == self.bit_values()[16]);
        assert(self.bit_values()[17] == layout::u8_value(self.tile_sw));
        assert(layout::decode_bits(buf, Self::bit_fields())[17] == self.bit_values()[17]);
        assert(self.bit_values()[18] == self.linear_pitch);
        assert(layout::decode_bits(buf, Self::bit_fields())[18] == self.bit_values()[18]);
        assert(self.bit_values()[19] == self.count);
        assert(layout::decode_bits(buf, Self::bit_fields())[19] == self.bit_values()[19]);
        assert(layout::decode_joins(buf, Self::join_fields())[0] == self.join_values()[0]);
        assert(layout::decode_joins(buf, Self::join_fields())[1] == self.join_values()[1]);
    }

    /// The field values name the packet: two packets with the same values are
    /// equal.
    #[verifier::rlimit(40)]
    pub proof fn lemma_values_determine(a: Self, b: Self)
        requires
            a.bit_values() == b.bit_values(),
            a.join_values() == b.join_values(),
            a.tail_data() == b.tail_data(),
        ensures
            a == b,
    {
        assert(a.bit_values()[0] == layout::bool_bit(a.detile) && b.bit_values()[0] == layout::bool_bit(b.detile));
        assert(a.bit_values()[1] == layout::u16_value(a.pitch_in_tile) && b.bit_values()[1] == layout::u16_value(b.pitch_in_tile));
        assert(a.bit_values()[2] == layout::u16_value(a.height) && b.bit_values()[2] == layout::u16_value(b.height));
        assert(a.bit_values()[3] == a.slice_pitch && b.bit_values()[3] == b.slice_pitch);
        assert(a.bit_values()[4] == layout::u8_value(a.element_size) && b.bit_values()[4] == layout::u8_value(b.element_size));
        assert(a.bit_values()[5] == layout::u8_value(a.array_mode) && b.bit_values()[5] == layout::u8_value(b.array_mode));
        assert(a.bit_values()[6] == layout::u8_value(a.mit_mode) && b.bit_values()[6] == layout::u8_value(b.mit_mode));
        assert(a.bit_values()[7] == layout::u8_value(a.tilesplit_size) && b.bit_values()[7] == layout::u8_value(b.tilesplit_size));
        assert(a.bit_values()[8] == layout::u8_value(a.bank_w) && b.bit_values()[8] == layout::u8_value(b.bank_w));
        assert(a.bit_values()[9] == layout::u8_value(a.bank_h) && b.bit_values()[9] == layout::u8_value(b.bank_h));
        assert(a.bit_values()[10] == layout::u8_value(a.num_bank) && b.bit_values()[10] == layout::u8_value(b.num_bank));
        assert(a.bit_values()[11] == layout::u8_value(a.mat_aspt) && b.bit_values()[11] == layout::u8_value(b.mat_aspt));
        assert(a.bit_values()[12] == layout::u8_value(a.pipe_config) && b.bit_values()[12] == layout::u8_value(b.pipe_config));
        assert(a.bit_values()[13] == layout::u16_value(a.x) && b.bit_values()[13] == layout::u16_value(b.x));
        assert(a.bit_values()[14] == layout::u16_value(a.y) && b.bit_values()[14] == layout::u16_value(b.y));
        assert(a.bit_values()[15] == layout::u16_value(a.z) && b.bit_values()[15] == layout::u16_value(b.z));
        assert(a.bit_values()[16] == layout::u8_value(a.linear_sw) && b.bit_values()[16] == layout::u8_value(b.linear_sw));
        assert(a.bit_values()[17] == layout::u8_value(a.tile_sw) && b.bit_values()[17] == layout::u8_value(b.tile_sw));
        assert(a.bit_values()[18] == a.linear_pitch && b.bit_values()[18] == b.linear_pitch);
        assert(a.bit_values()[19] == a.count && b.bit_values()[19] == b.count);
        assert(a.join_values()[0] == a.tiled_addr && b.join_values()[0] == b.tiled_addr);
        assert(a.join_values()[1] == a.linear_addr && b.join_values()[1] == b.linear_addr);
    }

    /// Reading a packet is exact: two packets read from one buffer are equal.
    pub proof fn lemma_read_unique(a: Self, b: Self, buf: Seq<u32>)
        requires
            a.read_from(buf),
            b.read_from(buf),
        ensures
            a == b,
    {
        layout::lemma_reads_determine(
            buf,
            Self::bit_fields(),
            a.bit_values(),
            b.bit_values(),
            Self::join_fields(),
            a.join_values(),
            b.join_values(),
            Self::tail(),
            a.tail_data(),
            b.tail_data(),
        );
        Self::lemma_values_determine(a, b);
    }

    /// A packet reads back from what it was encoded to.
    pub proof fn lemma_roundtrip(self, buf: Seq<u32>)
        requires
            Self::layout_wf(),
            self.fits(),
            buf.len() >= self.size(),
        ensures
            self.read_from(self.spec_encode(buf)),
            Self::decodable(self.spec_encode(buf)),
            self.spec_encode(buf).len() == buf.len(),
    {
        layout::lemma_packet_roundtrip(
            buf,
            Self::bit_fields(),
            self.bit_values(),
            Self::join_fields(),
            self.join_values(),
            Self::tail(),
            self.tail_data(),
            Self::STATIC_DWORDS as nat,
        );
    }
}

/// The `CopyLinearToTiledBroadcast` packet.
#[derive(Clone, Copy, Default)]
pub struct CopyLinearToTiledBroadcast {
    pub videocopy: bool,
    pub pitch_in_tile: u16,
    pub height: u16,
    pub slice_pitch: u32,
    pub element_size: u8,
    pub array_mode: u8,
    pub mit_mode: u8,
    pub tilesplit_size: u8,
    pub bank_w: u8,
    pub bank_h: u8,
    pub num_bank: u8,
    pub mat_aspt: u8,
    pub pipe_config: u8,
    pub x: u16,
    pub y: u16,
    pub z: u16,
    pub dst2_sw: u8,
    pub dst2_ha: bool,
    pub linear_sw: u8,
    pub tile_sw: u8,
    pub linear_pitch: u32,
    pub count: u32,
    pub tiled_addr0: u64,
    pub tiled_addr1: u64,
    pub linear_addr: u64,
}

impl CopyLinearToTiledBroadcast {
    /// Dwords of the packet before its variable-length tail.
    pub const STATIC_DWORDS: usize = 15;

    pub open spec fn bit_fields() -> Seq<BitField> {
        seq![BitField { dw: 0, mask: 0x1, shift: 26 }, BitField { dw: 5, mask: 0x7ff, shift: 0 }, BitField { dw: 5, mask: 0x3fff, shift: 16 }, BitField { dw: 6, mask: 0x3fffff, shift: 0 }, BitField { dw: 7, mask: 0x7, shift: 0 }, BitField { dw: 7, mask: 0xf, shift: 3 }, BitField { dw: 7, mask: 0x7, shift: 8 }, BitField { dw: 7, mask: 0x7, shift: 11 }, BitField { dw: 7, mask: 0x3, shift: 15 }, BitField { dw: 7, mask: 0x3, shift: 18 }, BitField { dw: 7, mask: 0x3, shift: 21 }, BitField { dw: 7, mask: 0x3, shift: 24 }, BitField { dw: 7, mask: 0x1f, shift: 26 }, BitField { dw: 8, mask: 0x3fff, shift: 0 }, BitField { dw: 8, mask: 0x3fff, shift: 16 }, BitField { dw: 9, mask: 0xfff, shift: 0 }, BitField { dw: 10, mask: 0x3, shift: 8 }, BitField { dw: 10, mask: 0x1, shift: 14 }, BitField { dw: 10, mask: 0x3, shift: 16 }, BitField { dw: 10, mask: 0x3, shift: 24 }, BitField { dw: 13, mask: 0x7ffff, shift: 0 }, BitField { dw: 14, mask: 0xfffff, shift: 0 }]
    }

    pub open spec fn join_fields() -> Seq<JoinField> {
        seq![JoinField { lo: 1, hi: 2 }, JoinField { lo: 3, hi: 4 }, JoinField { lo: 11, hi: 12 }]
    }

    pub open spec fn tail() -> Option<DynField> {
        None
    }

    pub open spec fn bit_values(self) -> Seq<u32> {
        seq![layout::bool_bit(self.videocopy), self.pitch_in_tile as u32, self.height as u32, self.slice_pitch, self.element_size as u32, self.array_mode as u32, self.mit_mode as u32, self.tilesplit_size as u32, self.bank_w as u32, self.bank_h as u32, self.num_bank as u32, self.mat_aspt as u32, self.pipe_config as u32, self.x as u32, self.y as u32, self.z as u32, self.dst2_sw as u32, layout::bool_bit(self.dst2_ha), self.linear_sw as u32, self.tile_sw as u32, self.linear_pitch, self.count]
    }

    pub open spec fn join_values(self) -> Seq<u64> {
        seq![self.tiled_addr0, self.tiled_addr1, self.linear_addr]
    }

    pub open spec fn tail_data(self) -> Seq<u32> {
        Seq::<u32>::empty()
    }

    /// Every field value fits its field.
    pub open spec fn fits(self) -> bool {
        layout::fields_fit(Self::bit_fields(), self.bit_values()) && layout::tail_fits(Self::tail(), self.tail_data())
    }

    pub open spec fn layout_wf() -> bool {
        layout::layout_wf(Self::bit_fields(), Self::join_fields(), Self::tail(), Self::STATIC_DWORDS as nat)
    }

    /// Dwords that the packet takes.
    pub open spec fn size(self) -> nat {
        (Self::STATIC_DWORDS + self.tail_data().len()) as nat
    }

    /// The buffer holds the whole packet.
    pub open spec fn decodable(buf: Seq<u32>) -> bool {
        buf.len() >= Self::STATIC_DWORDS
    }

    pub open spec fn spec_encode(self, buf: Seq<u32>) -> Seq<u32> {
        layout::encode_packet(
            buf,
            Self::bit_fields(),
            self.bit_values(),
            Self::join_fields(),
            self.join_values(),
            Self::tail(),
            self.tail_data(),
        )
    }

    /// `buf` holds this packet.
    pub open spec fn read_from(self, buf: Seq<u32>) -> bool {
        layout::packet_reads(
            buf,
            Self::bit_fields(),
            self.bit_values(),
            Self::join_fields(),
            self.join_values(),
            Self::tail(),
            self.tail_data(),
        )
    }

    fn exec_bit_fields() -> (r: Vec<BitField>)
        ensures
            r@ == Self::bit_fields(),
    {
        vec![BitField { dw: 0, mask: 0x1, shift: 26 }, BitField { dw: 5, mask: 0x7ff, shift: 0 }, BitField { dw: 5, mask: 0x3fff, shift: 16 }, BitField { dw: 6, mask: 0x3fffff, shift: 0 }, BitField { dw: 7, mask: 0x7, shift: 0 }, BitField { dw: 7, mask: 0xf, shift: 3 }, BitField { dw: 7, mask: 0x7, shift: 8 }, BitField { dw: 7, mask: 0x7, shift: 11 }, BitField { dw: 7, mask: 0x3, shift: 15 }, BitField { dw: 7, mask: 0x3, shift: 18 }, BitField { dw: 7, mask: 0x3, shift: 21 }, BitField { dw: 7, mask: 0x3, shift: 24 }, BitField { dw: 7, mask: 0x1f, shift: 26 }, BitField { dw: 8, mask: 0x3fff, shift: 0 }, BitField { dw: 8, mask: 0x3fff, shift: 16 }, BitField { dw: 9, mask: 0xfff, shift: 0 }, BitField { dw: 10, mask: 0x3, shift: 8 }, BitField { dw: 10, mask: 0x1, shift: 14 }, BitField { dw: 10, mask: 0x3, shift: 16 }, BitField { dw: 10, mask: 0x3, shift: 24 }, BitField { dw: 13, mask: 0x7ffff, shift: 0 }, BitField { dw: 14, mask: 0xfffff, shift: 0 }]
    }

    fn exec_join_fields() -> (r: Vec<JoinField>)
        ensures
            r@ == Self::join_fields(),
    {
        vec![JoinField { lo: 1, hi: 2 }, JoinField { lo: 3, hi: 4 }, JoinField { lo: 11, hi: 12 }]
    }

    /// Whether the field layout of this packet is well formed.
    pub fn layout_ok() -> (r: bool)
        ensures
            r == Self::layout_wf(),
    {
        layout_is_wf(&Self::exec_bit_fields(), &Self::exec_join_fields(), None, Self::STATIC_DWORDS)
    }

    /// Writes the packet to the start of `buff`, without its header, and
    /// returns how many dwords it took.
    pub fn partial_encode_linear(&self, buff: &mut [u32]) -> (n: usize)
        requires
            old(buff)@.len() >= self.size(),
            self.fits(),
        ensures
            n == self.size(),
            final(buff)@ == self.spec_encode(old(buff)@),
            final(buff)@.len() == old(buff)@.len(),
    {
        let bits = Self::exec_bit_fields();
        let vals: Vec<u32> = vec![to_bit(self.videocopy), layout::widen_u16(self.pitch_in_tile), layout::widen_u16(self.height), self.slice_pitch, layout::widen_u8(self.element_size), layout::widen_u8(self.array_mode), layout::widen_u8(self.mit_mode), layout::widen_u8(self.tilesplit_size), layout::widen_u8(self.bank_w), layout::widen_u8(self.bank_h), layout::widen_u8(self.num_bank), layout::widen_u8(self.mat_aspt), layout::widen_u8(self.pipe_config), layout::widen_u16(self.x), layout::widen_u16(self.y), layout::widen_u16(self.z), layout::widen_u8(self.dst2_sw), to_bit(self.dst2_ha), layout::widen_u8(self.linear_sw), layout::widen_u8(self.tile_sw), self.linear_pitch, self.count];
        let joins = Self::exec_join_fields();
        let jvals: Vec<u64> = vec![self.tiled_addr0, self.tiled_addr1, self.linear_addr];
        proof {
            assert(vals@ =~= self.bit_values());
            assert(jvals@ =~= self.join_values());
        }
        encode_bit_fields(&bits, &vals, buff);
        encode_join_fields(&joins, &jvals, buff);
        Self::STATIC_DWORDS
    }

    /// Reads the packet at the start of `buff` and returns how many dwords it
    /// took.
    #[verifier::rlimit(40)]
    pub fn partial_decode_linear(buff: &[u32]) -> (r: (usize, Self))
        requires
            Self::decodable(buff@),
        ensures
            r.0 == r.1.size(),
            r.1.read_from(buff@),
    {
        let bits = Self::exec_bit_fields();
        let v = decode_bit_fields(&bits, buff);
        let joins = Self::exec_join_fields();
        let j = decode_join_fields(&joins, buff);
        let p = Self { videocopy: v[0] != 0, pitch_in_tile: layout::narrow_u16(v[1]), height: layout::narrow_u16(v[2]), slice_pitch: v[3], element_size: layout::narrow_u8(v[4]), array_mode: layout::narrow_u8(v[5]), mit_mode: layout::narrow_u8(v[6]), tilesplit_size: layout::narrow_u8(v[7]), bank_w: layout::narrow_u8(v[8]), bank_h: layout::narrow_u8(v[9]), num_bank: layout::narrow_u8(v[10]), mat_aspt: layout::narrow_u8(v[11]), pipe_config: layout::narrow_u8(v[12]), x: layout::narrow_u16(v[13]), y: layout::narrow_u16(v[14]), z: layout::narrow_u16(v[15]), dst2_sw: layout::narrow_u8(v[16]), dst2_ha: v[17] != 0, linear_sw: layout::narrow_u8(v[18]), tile_sw: layout::narrow_u8(v[19]), linear_pitch: v[20], count: v[21], tiled_addr0: j[0], tiled_addr1: j[1], linear_addr: j[2] };
        proof {
            assert(p.bit_values() =~= v@);
            assert(p.join_values() =~= j@);
        }
        (Self::STATIC_DWORDS, p)
    }

    /// Where each field stands in a buffer that the packet is read from, as
    /// the packet header lays it out: a bit field under its mask and shift
    /// in its dword, a 64-bit field in two dwords, low half first. By
    /// `lemma_roundtrip`, encoding a packet puts its fields there.
    #[verifier::rlimit(40)]
    pub proof fn lemma_field_positions(self, buf: Seq<u32>)
        requires
            self.read_from(buf),
        ensures
            layout::bool_bit(self.videocopy) == layout::get_bits(buf[0], 0x1, 26),
            layout::u16_value(self.pitch_in_tile) == layout::get_bits(buf[5], 0x7ff, 0),
            layout::u16_value(self.height) == layout::get_bits(buf[5], 0x3fff, 16),
            self.slice_pitch == layout::get_bits(buf[6], 0x3fffff, 0),
            layout::u8_value(self.element_size) == layout::get_bits(buf[7], 0x7, 0),
            layout::u8_value(self.array_mode) == layout::get_bits(buf[7], 0xf, 3),
            layout::u8_value(self.mit_mode) == layout::get_bits(buf[7], 0x7, 8),
            layout::u8_value(self.tilesplit_size) == layout::get_bits(buf[7], 0x7, 11),
            layout::u8_value(self.bank_w) == layout::get_bits(buf[7], 0x3, 15),
            layout::u8_value(self.bank_h) == layout::get_bits(buf[7], 0x3, 18),
            layout::u8_value(self.num_bank) == layout::get_bits(buf[7], 0x3, 21),
            layout::u8_value(self.mat_aspt) == layout::get_bits(buf[7], 0x3, 24),
            layout::u8_value(self.pipe_config) == layout::get_bits(buf[7], 0x1f, 26),
            layout::u16_value(self.x) == layout::get_bits(buf[8], 0x3fff, 0),
            layout::u16_value(self.y) == layout::get_bits(buf[8], 0x3fff, 16),
            layout::u16_value(self.z) == layout::get_bits(buf[9], 0xfff, 0),
            layout::u8_value(self.dst2_sw) == layout::get_bits(buf[10], 0x3, 8),
            layout::bool_bit(self.dst2_ha) == layout::get_bits(buf[10], 0x1, 14),
            layout::u8_value(self.linear_sw) == layout::get_bits(buf[10], 0x3, 16),
            layout::u8_value(self.tile_sw) == layout::get_bits(buf[10], 0x3, 24),
            self.linear_pitch == layout::get_bits(buf[13], 0x7ffff, 0),
            self.count == layout::get_bits(buf[14], 0xfffff, 0),
            self.tiled_addr0 == layout::dword_pair(buf[1], buf[2]),
            self.tiled_addr1 == layout::dword_pair(buf[3], buf[4]),
            self.linear_addr == layout::dword_pair(buf[11], buf[12]),
    {
        assert(self.bit_values()[0] == layout::bool_bit(self.videocopy));
        assert(layout::decode_bits(buf, Self::bit_fields())[0] == self.bit_values()[0]);
        assert(self.bit_values()[1] == layout::u16_value(self.pitch_in_tile));
        assert(layout::decode_bits(buf, Self::bit_fields())[1] == self.bit_values()[1]);
        assert(self.bit_values()[2] == layout::u16_value(self.height));
        assert(layout::decode_bits(buf, Self::bit_fields())[2] == self.bit_values()[2]);
        assert(self.bit_values()[3] == self.slice_pitch);
        assert(layout::decode_bits(buf, Self::bit_fields())[3] == self.bit_values()[3]);
        assert(self.bit_values()[4] == layout::u8_value(self.element_size));
        assert(layout::decode_bits(buf, Self::bit_fields())[4] == self.bit_values()[4]);
        assert(self.bit_values()[5] == layout::u8_value(self.array_mode));
        assert(layout::decode_bits(buf, Self::bit_fields())[5] == self.bit_values()[5]);
        assert(self.bit_values()[6] == layout::u8_value(self.mit_mode));
        assert(layout::decode_bits(buf, Self::bit_fields())[6] == self.bit_values()[6]);
        assert(self.bit_values()[7] == layout::u8_value(self.tilesplit_size));
        assert(layout::decode_bits(buf, Self::bit_fields())[7] == self.bit_values()[7]);
        assert(self.bit_values()[8] == layout::u8_value(self.bank_w));
        assert(layout::decode_bits(buf, Self::bit_fields())[8] == self.bit_values()[8]);
        assert(self.bit_values()[9] == layout::u8_value(self.bank_h));
        assert(layout::decode_bits(buf, Self::bit_fields())[9] == self.bit_values()[9]);
        assert(self.bit_values()[10] == layout::u8_value(self.num_bank));
        assert(layout::decode_bits(buf, Self::bit_fields())[10] == self.bit_values()[10]);
        assert(self.bit_values()[11] == layout::u8_value(self.mat_aspt));
        assert(layout::decode_bits(buf, Self::bit_fields())[11] == self.bit_values()[11]);
        assert(self.bit_values()[12] == layout::u8_value(self.pipe_config));
        assert(layout::decode_bits(buf, Self::bit_fields())[12] == self.bit_values()[12]);
        assert(self.bit_values()[13] == layout::u16_value(self.x));
        assert(layout::decode_bits(buf, Self::bit_fields())[13] == self.bit_values()[13]);
        assert(self.bit_values()[14] == layout::u16_value(self.y));
        assert(layout::decode_bits(buf, Self::bit_fields())[14] == self.bit_values()[14]);
        assert(self.bit_values()[15] == layout::u16_value(self.z));
        assert(layout::decode_bits(buf, Self::bit_fields())[15] == self.bit_values()[15]);
        assert(self.bit_values()[16] == layout::u8_value(self.dst2_sw));
        assert(layout::decode_bits(buf, Self::bit_fields())[16] == self.bit_values()[16]);
        assert(self.bit_values()[17] == layout::bool_bit(self.dst2_ha));
        assert(layout::decode_bits(buf, Self::bit_fields())[17] == self.bit_values()[17]);
        assert(self.bit_values()[18] == layout::u8_value(self.linear_sw));
        assert(layout::decode_bits(buf, Self::bit_fields())[18] == self.bit_values()[18]);
        assert(self.bit_values()[19] == layout::u8_value(self.tile_sw));
        assert(layout::decode_bits(buf, Self::bit_fields())[19] == self.bit_values()[19]);
        assert(self.bit_values()[20] == self.linear_pitch);
        assert(layout::decode_bits(buf, Self::bit_fields())[20] == self.bit_values()[20]);
        assert(self.bit_values()[21] == self.count);
        assert(layout::decode_bits(buf, Self::bit_fields())[21] == self.bit_values()[21]);
        assert(layout::decode_joins(buf, Self::join_fields())[0] == self.join_values()[0]);
        assert(layout::decode_joins(buf, Self::join_fields())[1] == self.join_values()[1]);
        assert(layout::decode_joins(buf, Self::join_fields())[2] == self.join_values()[2]);
    }

    /// The field values name the packet: two packets with the same values are
    /// equal.
    #[verifier::rlimit(40)]
    pub proof fn lemma_values_determine(a: Self, b: Self)
        requires
            a.bit_values() == b.bit_values(),
            a.join_values() == b.join_values(),
            a.tail_data() == b.tail_data(),
        ensures
            a == b,
    {
        assert(a.bit_values()[0] == layout::bool_bit(a.videocopy) && b.bit_values()[0] == layout::bool_bit(b.videocopy));
        assert(a.bit_values()[1] == layout::u16_value(a.pitch_in_tile) && b.bit_values()[1] == layout::u16_value(b.pitch_in_tile));
        assert(a.bit_values()[2] == layout::u16_value(a.height) && b.bit_values()[2] == layout::u16_value(b.height));
        assert(a.bit_values()[3] == a.slice_pitch && b.bit_values()[3] == b.slice_pitch);
        assert(a.bit_values()[4] == layout::u8_value(a.element_size) && b.bit_values()[4] == layout::u8_value(b.element_size));
        assert(a.bit_values()[5] == layout::u8_value(a.array_mode) && b.bit_values()[5] == layout::u8_value(b.array_mode));
        assert(a.bit_values()[6] == layout::u8_value(a.mit_mode) && b.bit_values()[6] == layout::u8_value(b.mit_mode));
        assert(a.bit_values()[7] == layout::u8_value(a.tilesplit_size) && b.bit_values()[7] == layout::u8_value(b.tilesplit_size));
        assert(a.bit_values()[8] == layout::u8_value(a.bank_w) && b.bit_values()[8] == layout::u8_value(b.bank_w));
        assert(a.bit_values()[9] == layout::u8_value(a.bank_h) && b.bit_values()[9] == layout::u8_value(b.bank_h));
        assert(a.bit_values()[10] == layout::u8_value(a.num_bank) && b.bit_values()[10] == layout::u8_value(b.num_bank));
        assert(a.bit_values()[11] == layout::u8_value(a.mat_aspt) && b.bit_values()[11] == layout::u8_value(b.mat_aspt));
        assert(a.bit_values()[12] == layout::u8_value(a.pipe_config) && b.bit_values()[12] == layout::u8_value(b.pipe_config));
        assert(a.bit_values()[13] == layout::u16_value(a.x) && b.bit_values()[13] == layout::u16_value(b.x));
        assert(a.bit_values()[14] == layout::u16_value(a.y) && b.bit_values()[14] == layout::u16_value(b.y));
        assert(a.bit_values()[15] == layout::u16_value(a.z) && b.bit_values()[15] == layout::u16_value(b.z));
        assert(a.bit_values()[16] == layout::u8_value(a.dst2_sw) && b.bit_values()[16] == layout::u8_value(b.dst2_sw));
        assert(a.bit_values()[17] == layout::bool_bit(a.dst2_ha) && b.bit_values()[17] == layout::bool_bit(b.dst2_ha));
        assert(a.bit_values()[18] == layout::u8_value(a.linear_sw) && b.bit_values()[18] == layout::u8_value(b.linear_sw));
        assert(a.bit_values()[19] == layout::u8_value(a.tile_sw) && b.bit_values()[19] == layout::u8_value(b.tile_sw));
        assert(a.bit_values()[20] == a.linear_pitch && b.bit_values()[20] == b.linear_pitch);
        assert(a.bit_values()[21] == a.count && b.bit_values()[21] == b.count);
        assert(a.join_values()[0] == a.tiled_addr0 && b.join_values()[0] == b.tiled_addr0);
        assert(a.join_values()[1] == a.tiled_addr1 && b.join_values()[1] == b.tiled_addr1);
        assert(a.join_values()[2] == a.linear_addr && b.join_values()[2] == b.linear_addr);
    }

    /// Reading a packet is exact: two packets read from one buffer are equal.
    pub proof fn lemma_read_unique(a: Self, b: Self, buf: Seq<u32>)
        requires
            a.read_from(buf),
            b.read_from(buf),
        ensures
            a == b,
    {
        layout::lemma_reads_determine(
            buf,
            Self::bit_fields(),
            a.bit_values(),
            b.bit_values(),
            Self::join_fields(),
            a.join_values(),
            b.join_values(),
            Self::tail(),
            a.tail_data(),
            b.tail_data(),
        );
        Self::lemma_values_determine(a, b);
    }

    /// A packet reads back from what it was encoded to.
    pub proof fn lemma_roundtrip(self, buf: Seq<u32>)
        requires
            Self::layout_wf(),
            self.fits(),
            buf.len() >= self.size(),
        ensures
            self.read_from(self.spec_encode(buf)),
            Self::decodable(self.spec_encode(buf)),
            self.spec_encode(buf).len() == buf.len(),
    {
        layout::lemma_packet_roundtrip(
            buf,
            Self::bit_fields(),
            self.bit_values(),
            Self::join_fields(),
            self.join_values(),
            Self::tail(),
            self.tail_data(),
            Self::STATIC_DWORDS as nat,
        );
    }
}

/// The `Nop` packet.
#[derive(Clone, Copy, Default)]
pub struct Nop<'a> {
    pub data: &'a [u32],
}

impl<'a> Nop<'a> {
    /// Dwords of the packet before its variable-length tail.
    pub const STATIC_DWORDS: usize = 1;

    pub open spec fn bit_fields() -> Seq<BitField> {
        Seq::<BitField>::empty()
    }

    pub open spec fn join_fields() -> Seq<JoinField> {
        Seq::<JoinField>::empty()
    }

    pub open spec fn tail() -> Option<DynField> {
        Some(DynField { start: 1, len_dw: 0, mask: 0x3fff, shift: 16 })
    }

    pub open spec fn bit_values(self) -> Seq<u32> {
        Seq::<u32>::empty()
    }

    pub open spec fn join_values(self) -> Seq<u64> {
        Seq::<u64>::empty()
    }

    pub open spec fn tail_data(self) -> Seq<u32> {
        self.data@
    }

    /// Every field value fits its field.
    pub open spec fn fits(self) -> bool {
        layout::fields_fit(Self::bit_fields(), self.bit_values()) && layout::tail_fits(Self::tail(), self.tail_data())
    }

    pub open spec fn layout_wf() -> bool {
        layout::layout_wf(Self::bit_fields(), Self::join_fields(), Self::tail(), Self::STATIC_DWORDS as nat)
    }

    /// Dwords that the packet takes.
    pub open spec fn size(self) -> nat {
        (Self::STATIC_DWORDS + self.tail_data().len()) as nat
    }

    /// The buffer holds the whole packet, tail included.
    pub open spec fn decodable(buf: Seq<u32>) -> bool {
        buf.len() >= Self::STATIC_DWORDS && Self::STATIC_DWORDS + layout::read_dyn_len(buf, Self::tail().unwrap()) <= buf.len()
    }

    pub open spec fn spec_encode(self, buf: Seq<u32>) -> Seq<u32> {
        layout::encode_packet(
            buf,
            Self::bit_fields(),
            self.bit_values(),
            Self::join_fields(),
            self.join_values(),
            Self::tail(),
            self.tail_data(),
        )
    }

    /// `buf` holds this packet.
    pub open spec fn read_from(self, buf: Seq<u32>) -> bool {
        layout::packet_reads(
            buf,
            Self::bit_fields(),
            self.bit_values(),
            Self::join_fields(),
            self.join_values(),
            Self::tail(),
            self.tail_data(),
        )
    }

    fn exec_bit_fields() -> (r: Vec<BitField>)
        ensures
            r@ == Self::bit_fields(),
    {
        Vec::<BitField>::new()
    }

    fn exec_join_fields() -> (r: Vec<JoinField>)
        ensures
            r@ == Self::join_fields(),
    {
        Vec::<JoinField>::new()
    }

    /// Whether the field layout of this packet is well formed.
    pub fn layout_ok() -> (r: bool)
        ensures
            r == Self::layout_wf(),
    {
        layout_is_wf(&Self::exec_bit_fields(), &Self::exec_join_fields(), Some(DynField { start: 1, len_dw: 0, mask: 0x3fff, shift: 16 }), Self::STATIC_DWORDS)
    }

    /// Writes the packet to the start of `buff`, without its header, and
    /// returns how many dwords it took.
    pub fn partial_encode_linear(&self, buff: &mut [u32]) -> (n: usize)
        requires
            old(buff)@.len() >= self.size(),
            self.fits(),
        ensures
            n == self.size(),
            final(buff)@ == self.spec_encode(old(buff)@),
            final(buff)@.len() == old(buff)@.len(),
    {
        let bits = Self::exec_bit_fields();
        let vals: Vec<u32> = Vec::<u32>::new();
        let joins = Self::exec_join_fields();
        let jvals: Vec<u64> = Vec::<u64>::new();
        proof {
            assert(vals@ =~= self.bit_values());
            assert(jvals@ =~= self.join_values());
        }
        encode_bit_fields(&bits, &vals, buff);
        encode_join_fields(&joins, &jvals, buff);
        encode_tail(DynField { start: 1, len_dw: 0, mask: 0x3fff, shift: 16 }, self.data, buff);
        Self::STATIC_DWORDS + self.data.len()
    }

    /// Reads the packet at the start of `buff` and returns how many dwords it
    /// took.
    pub fn partial_decode_linear(buff: &'a [u32]) -> (r: (usize, Self))
        requires
            Self::decodable(buff@),
        ensures
            r.0 == r.1.size(),
            r.1.read_from(buff@),
    {
        let bits = Self::exec_bit_fields();
        let v = decode_bit_fields(&bits, buff);
        let joins = Self::exec_join_fields();
        let j = decode_join_fields(&joins, buff);
        let data = decode_tail(DynField { start: 1, len_dw: 0, mask: 0x3fff, shift: 16 }, buff);
        let p = Self { data };
        proof {
            assert(p.bit_values() =~= v@);
            assert(p.join_values() =~= j@);
        }
        (Self::STATIC_DWORDS + p.data.len(), p)
    }

    /// Where each field stands in a buffer that the packet is read from, as
    /// the packet header lays it out: a bit field under its mask and shift
    /// in its dword, a 64-bit field in two dwords, low half first. By
    /// `lemma_roundtrip`, encoding a packet puts its fields there.
    pub proof fn lemma_field_positions(self, buf: Seq<u32>)
        requires
            self.read_from(buf),
        ensures
            self.data@ == buf.subrange(1, 1 + layout::get_bits(buf[0], 0x3fff, 16)),
    {

    }

    /// The field values name the packet: two packets with the same values are
    /// equal.
    pub proof fn lemma_values_determine(a: Self, b: Self)
        requires
            a.bit_values() == b.bit_values(),
            a.join_values() == b.join_values(),
            a.tail_data() == b.tail_data(),
        ensures
            a == b,
    {
        assert(a.data@ =~= b.data@);
        assert(a.data =~= b.data);
    }

    /// Reading a packet is exact: two packets read from one buffer are equal.
    pub proof fn lemma_read_unique(a: Self, b: Self, buf: Seq<u32>)
        requires
            a.read_from(buf),
            b.read_from(buf),
        ensures
            a == b,
    {
        layout::lemma_reads_determine(
            buf,
            Self::bit_fields(),
            a.bit_values(),
            b.bit_values(),
            Self::join_fields(),
            a.join_values(),
            b.join_values(),
            Self::tail(),
            a.tail_data(),
            b.tail_data(),
        );
        Self::lemma_values_determine(a, b);
    }

    /// A packet reads back from what it was encoded to.
    pub proof fn lemma_roundtrip(self, buf: Seq<u32>)
        requires
            Self::layout_wf(),
            self.fits(),
            buf.len() >= self.size(),
        ensures
            self.read_from(self.spec_encode(buf)),
            Self::decodable(self.spec_encode(buf)),
            self.spec_encode(buf).len() == buf.len(),
    {
        layout::lemma_packet_roundtrip(
            buf,
            Self::bit_fields(),
            self.bit_values(),
            Self::join_fields(),
            self.join_values(),
            Self::tail(),
            self.tail_data(),
            Self::STATIC_DWORDS as nat,
        );
    }
}

/// The `CopyStruct` packet.
#[derive(Clone, Copy, Default)]
pub struct CopyStruct {
    pub detile: bool,
    pub stride: u16,
    pub struct_sw: u8,
    pub struct_ha: bool,
    pub linear_sw: u8,
    pub linear_ha: bool,
    pub start_index: u32,
    pub count: u32,
    pub sb_addr: u64,
    pub linear_addr: u64,
}

impl CopyStruct {
    /// Dwords of the packet before its variable-length tail.
    pub const STATIC_DWORDS: usize = 8;

    pub open spec fn bit_fields() -> Seq<BitField> {
        seq![BitField { dw: 0, mask: 0x1, shift: 31 }, BitField { dw: 5, mask: 0x7ff, shift: 0 }, BitField { dw: 5, mask: 0x3, shift: 16 }, BitField { dw: 5, mask: 0x1, shift: 22 }, BitField { dw: 5, mask: 0x3, shift: 24 }, BitField { dw: 5, mask: 0x1, shift: 30 }, BitField { dw: 3, mask: 0xffffffff, shift: 0 }, BitField { dw: 4, mask: 0xffffffff, shift: 0 }]
    }

    pub open spec fn join_fields() -> Seq<JoinField> {
        seq![JoinField { lo: 1, hi: 2 }, JoinField { lo: 6, hi: 7 }]
    }

    pub open spec fn tail() -> Option<DynField> {
        None
    }

    pub open spec fn bit_values(self) -> Seq<u32> {
        seq![layout::bool_bit(self.detile), self.stride as u32, self.struct_sw as u32, layout::bool_bit(self.struct_ha), self.linear_sw as u32, layout::bool_bit(self.linear_ha), self.start_index, self.count]
    }

    pub open spec fn join_values(self) -> Seq<u64> {
        seq![self.sb_addr, self.linear_addr]
    }

    pub open spec fn tail_data(self) -> Seq<u32> {
        Seq::<u32>::empty()
    }

    /// Every field value fits its field.
    pub open spec fn fits(self) -> bool {
        layout::fields_fit(Self::bit_fields(), self.bit_values()) && layout::tail_fits(Self::tail(), self.tail_data())
    }

    pub open spec fn layout_wf() -> bool {
        layout::layout_wf(Self::bit_fields(), Self::join_fields(), Self::tail(), Self::STATIC_DWORDS as nat)
    }

    /// Dwords that the packet takes.
    pub open spec fn size(self) -> nat {
        (Self::STATIC_DWORDS + self.tail_data().len()) as nat
    }

    /// The buffer holds the whole packet.
    pub open spec fn decodable(buf: Seq<u32>) -> bool {
        buf.len() >= Self::STATIC_DWORDS
    }

    pub open spec fn spec_encode(self, buf: Seq<u32>) -> Seq<u32> {
        layout::encode_packet(
            buf,
            Self::bit_fields(),
            self.bit_values(),
            Self::join_fields(),
            self.join_values(),
            Self::tail(),
            self.tail_data(),
        )
    }

    /// `buf` holds this packet.
    pub open spec fn read_from(self, buf: Seq<u32>) -> bool {
        layout::packet_reads(
            buf,
            Self::bit_fields(),
            self.bit_values(),
            Self::join_fields(),
            self.join_values(),
            Self::tail(),
            self.tail_data(),
        )
    }

    fn exec_bit_fields() -> (r: Vec<BitField>)
        ensures
            r@ == Self::bit_fields(),
    {
        vec![BitField { dw: 0, mask: 0x1, shift: 31 }, BitField { dw: 5, mask: 0x7ff, shift: 0 }, BitField { dw: 5, mask: 0x3, shift: 16 }, BitField { dw: 5, mask: 0x1, shift: 22 }, BitField { dw: 5, mask: 0x3, shift: 24 }, BitField { dw: 5, mask: 0x1, shift: 30 }, BitField { dw: 3, mask: 0xffffffff, shift: 0 }, BitField { dw: 4, mask: 0xffffffff, shift: 0 }]
    }

    fn exec_join_fields() -> (r: Vec<JoinField>)
        ensures
            r@ == Self::join_fields(),
    {
        vec![JoinField { lo: 1, hi: 2 }, JoinField { lo: 6, hi: 7 }]
    }

    /// Whether the field layout of this packet is well formed.
    pub fn layout_ok() -> (r: bool)
        ensures
            r == Self::layout_wf(),
    {
        layout_is_wf(&Self::exec_bit_fields(), &Self::exec_join_fields(), None, Self::STATIC_DWORDS)
    }

    /// Writes the packet to the start of `buff`, without its header, and
    /// returns how many dwords it took.
    pub fn partial_encode_linear(&self, buff: &mut [u32]) -> (n: usize)
        requires
            old(buff)@.len() >= self.size(),
            self.fits(),
        ensures
            n == self.size(),
            final(buff)@ == self.spec_encode(old(buff)@),
            final(buff)@.len() == old(buff)@.len(),
    {
        let bits = Self::exec_bit_fields();
        let vals: Vec<u32> = vec![to_bit(self.detile), layout::widen_u16(self.stride), layout::widen_u8(self.struct_sw), to_bit(self.struct_ha), layout::widen_u8(self.linear_sw), to_bit(self.linear_ha), self.start_index, self.count];
        let joins = Self::exec_join_fields();
        let jvals: Vec<u64> = vec![self.sb_addr, self.linear_addr];
        proof {
            assert(vals@ =~= self.bit_values());
            assert(jvals@ =~= self.join_values());
        }
        encode_bit_fields(&bits, &vals, buff);
        encode_join_fields(&joins, &jvals, buff);
        Self::STATIC_DWORDS
    }

    /// Reads the packet at the start of `buff` and returns how many dwords it
    /// took.
    pub fn partial_decode_linear(buff: &[u32]) -> (r: (usize, Self))
        requires
            Self::decodable(buff@),
        ensures
            r.0 == r.1.size(),
            r.1.read_from(buff@),
    {
        let bits = Self::exec_bit_fields();
        let v = decode_bit_fields(&bits, buff);
        let joins = Self::exec_join_fields();
        let j = decode_join_fields(&joins, buff);
        let p = Self { detile: v[0] != 0, stride: layout::narrow_u16(v[1]), struct_sw: layout::narrow_u8(v[2]), struct_ha: v[3] != 0, linear_sw: layout::narrow_u8(v[4]), linear_ha: v[5] != 0, start_index: v[6], count: v[7], sb_addr: j[0], linear_addr: j[1] };
        proof {
            assert(p.bit_values() =~= v@);
            assert(p.join_values() =~= j@);
        }
        (Self::STATIC_DWORDS, p)
    }

    /// Where each field stands in a buffer that the packet is read from, as
    /// the packet header lays it out: a bit field under its mask and shift
    /// in its dword, a 64-bit field in two dwords, low half first. By
    /// `lemma_roundtrip`, encoding a packet puts its fields there.
    pub proof fn lemma_field_positions(self, buf: Seq<u32>)
        requires
            self.read_from(buf),
        ensures
            layout::bool_bit(self.detile) == layout::get_bits(buf[0], 0x1, 31),
            layout::u16_value(self.stride) == layout::get_bits(buf[5], 0x7ff, 0),
            layout::u8_value(self.struct_sw) == layout::get_bits(buf[5], 0x3, 16),
            layout::bool_bit(self.struct_ha) == layout::get_bits(buf[5], 0x1, 22),
            layout::u8_value(self.linear_sw) == layout::get_bits(buf[5], 0x3, 24),
            layout::bool_bit(self.linear_ha) == layout::get_bits(buf[5], 0x1, 30),
            self.start_index == layout::get_bits(buf[3], 0xffffffff, 0),
            self.count == layout::get_bits(buf[4], 0xffffffff, 0),
            self.sb_addr == layout::dword_pair(buf[1], buf[2]),
            self.linear_addr == layout::dword_pair(buf[6], buf[7]),
    {
        assert(self.bit_values()[0] == layout::bool_bit(self.detile));
        assert(layout::decode_bits(buf, Self::bit_fields())[0] == self.bit_values()[0]);
        assert(self.bit_values()[1] == layout::u16_value(self.stride));
        assert(layout::decode_bits(buf, Self::bit_fields())[1] == self.bit_values()[1]);
        assert(self.bit_values()[2] == layout::u8_value(self.struct_sw));
        assert(layout::decode_bits(buf, Self::bit_fields())[2] == self.bit_values()[2]);
        assert(self.bit_values()[3] == layout::bool_bit(self.struct_ha));
        assert(layout::decode_bits(buf, Self::bit_fields())[3] == self.bit_values()[3]);
        assert(self.bit_values()[4] == layout::u8_value(self.linear_sw));
        assert(layout::decode_bits(buf, Self::bit_fields())[4] == self.bit_values()[4]);
        assert(self.bit_values()[5] == layout::bool_bit(self.linear_ha));
        assert(layout::decode_bits(buf, Self::bit_fields())[5] == self.bit_values()[5]);
        assert(self.bit_values()[6] == self.start_index);
        assert(layout::decode_bits(buf, Self::bit_fields())[6] == self.bit_values()[6]);
        assert(self.bit_values()[7] == self.count);
        assert(layout::decode_bits(buf, Self::bit_fields())[7] == self.bit_values()[7]);
        assert(layout::decode_joins(buf, Self::join_fields())[0] == self.join_values()[0]);
        assert(layout::decode_joins(buf, Self::join_fields())[1] == self.join_values()[1]);
    }

    /// The field values name the packet: two packets with the same values are
    /// equal.
    pub proof fn lemma_values_determine(a: Self, b: Self)
        requires
            a.bit_values() == b.bit_values(),
            a.join_values() == b.join_values(),
            a.tail_data() == b.tail_data(),
        ensures
            a == b,
    {
        assert(a.bit_values()[0] == layout::bool_bit(a.detile) && b.bit_values()[0] == layout::bool_bit(b.detile));
        assert(a.bit_values()[1] == layout::u16_value(a.stride) && b.bit_values()[1] == layout::u16_value(b.stride));
        assert(a.bit_values()[2] == layout::u8_value(a.struct_sw) && b.bit_values()[2] == layout::u8_value(b.struct_sw));
        assert(a.bit_values()[3] == layout::bool_bit(a.struct_ha) && b.bit_values()[3] == layout::bool_bit(b.struct_ha));
        assert(a.bit_values()[4] == layout::u8_value(a.linear_sw) && b.bit_values()[4] == layout::u8_value(b.linear_sw));
        assert(a.bit_values()[5] == layout::bool_bit(a.linear_ha) && b.bit_values()[5] == layout::bool_bit(b.linear_ha));
        assert(a.bit_values()[6] == a.start_index && b.bit_values()[6] == b.start_index);
        assert(a.bit_values()[7] == a.count && b.bit_values()[7] == b.count);
        assert(a.join_values()[0] == a.sb_addr && b.join_values()[0] == b.sb_addr);
        assert(a.join_values()[1] == a.linear_addr && b.join_values()[1] == b.linear_addr);
    }

    /// Reading a packet is exact: two packets read from one buffer are equal.
    pub proof fn lemma_read_unique(a: Self, b: Self, buf: Seq<u32>)
        requires
            a.read_from(buf),
            b.read_from(buf),
        ensures
            a == b,
    {
        layout::lemma_reads_determine(
            buf,
            Self::bit_fields(),
            a.bit_values(),
            b.bit_values(),
            Self::join_fields(),
            a.join_values(),
            b.join_values(),
            Self::tail(),
            a.tail_data(),
            b.tail_data(),
        );
        Self::lemma_values_determine(a, b);
    }

    /// A packet reads back from what it was encoded to.
    pub proof fn lemma_roundtrip(self, buf: Seq<u32>)
        requires
            Self::layout_wf(),
            self.fits(),
            buf.len() >= self.size(),
        ensures
            self.read_from(self.spec_encode(buf)),
            Self::decodable(self.spec_encode(buf)),
            self.spec_encode(buf).len() == buf.len(),
    {
        layout::lemma_packet_roundtrip(
            buf,
            Self::bit_fields(),
            self.bit_values(),
            Self::join_fields(),
            self.join_values(),
            Self::tail(),
            self.tail_data(),
            Self::STATIC_DWORDS as nat,
        );
    }
}

/// The `CopyLinearSubWindow` packet.
#[derive(Clone, Copy, Default)]
pub struct CopyLinearSubWindow {
    pub elementsize: u8,
    pub src_x: u16,
    pub src_y: u16,
    pub src_z: u16,
    pub src_pitch: u16,
    pub src_slice_pitch: u32,
    pub dst_x: u16,
    pub dst_y: u16,
    pub dst_z: u16,
    pub dst_pitch: u16,
    pub dst_slice_pitch: u32,
    pub rect_x: u16,
    pub rect_y: u16,
    pub rect_z: u16,
    pub dst_sw: u8,
    pub dst_ha: bool,
    pub src_sw: u8,
    pub src_ha: bool,
    pub src_addr: u64,
    pub dst_addr: u64,
}

impl CopyLinearSubWindow {
    /// Dwords of the packet before its variable-length tail.
    pub const STATIC_DWORDS: usize = 13;

    pub open spec fn bit_fields() -> Seq<BitField> {
        seq![BitField { dw: 0, mask: 0x7, shift: 29 }, BitField { dw: 3, mask: 0x3fff, shift: 0 }, BitField { dw: 3, mask: 0x3fff, shift: 16 }, BitField { dw: 4, mask: 0x7ff, shift: 0 }, BitField { dw: 4, mask: 0x3fff, shift: 16 }, BitField { dw: 5, mask: 0xfffffff, shift: 0 }, BitField { dw: 8, mask: 0x3fff, shift: 0 }, BitField { dw: 8, mask: 0x3fff, shift: 16 }, BitField { dw: 9, mask: 0x7ff, shift: 0 }, BitField { dw: 9, mask: 0x3fff, shift: 16 }, BitField { dw: 10, mask: 0xfffffff, shift: 0 }, BitField { dw: 11, mask: 0x3fff, shift: 0 }, BitField { dw: 11, mask: 0x3fff, shift: 16 }, BitField { dw: 12, mask: 0x7ff, shift: 0 }, BitField { dw: 12, mask: 0x3, shift: 16 }, BitField { dw: 12, mask: 0x1, shift: 22 }, BitField { dw: 12, mask: 0x3, shift: 24 }, BitField { dw: 12, mask: 0x1, shift: 30 }]
    }

    pub open spec fn join_fields() -> Seq<JoinField> {
        seq![JoinField { lo: 1, hi: 2 }, JoinField { lo: 6, hi: 7 }]
    }

    pub open spec fn tail() -> Option<DynField> {
        None
    }

    pub open spec fn bit_values(self) -> Seq<u32> {
        seq![self.elementsize as u32, self.src_x as u32, self.src_y as u32, self.src_z as u32, self.src_pitch as u32, self.src_slice_pitch, self.dst_x as u32, self.dst_y as u32, self.dst_z as u32, self.dst_pitch as u32, self.dst_slice_pitch, self.rect_x as u32, self.rect_y as u32, self.rect_z as u32, self.dst_sw as u32, layout::bool_bit(self.dst_ha), self.src_sw as u32, layout::bool_bit(self.src_ha)]
    }

    pub open spec fn join_values(self) -> Seq<u64> {
        seq![self.src_addr, self.dst_addr]
    }

    pub open spec fn tail_data(self) -> Seq<u32> {
        Seq::<u32>::empty()
    }

    /// Every field value fits its field.
    pub open spec fn fits(self) -> bool {
        layout::fields_fit(Self::bit_fields(), self.bit_values()) && layout::tail_fits(Self::tail(), self.tail_data())
    }

    pub open spec fn layout_wf() -> bool {
        layout::layout_wf(Self::bit_fields(), Self::join_fields(), Self::tail(), Self::STATIC_DWORDS as nat)
    }

    /// Dwords that the packet takes.
    pub open spec fn size(self) -> nat {
        (Self::STATIC_DWORDS + self.tail_data().len()) as nat
    }

    /// The buffer holds the whole packet.
    pub open spec fn decodable(buf: Seq<u32>) -> bool {
        buf.len() >= Self::STATIC_DWORDS
    }

    pub open spec fn spec_encode(self, buf: Seq<u32>) -> Seq<u32> {
        layout::encode_packet(
            buf,
            Self::bit_fields(),
            self.bit_values(),
            Self::join_fields(),
            self.join_values(),
            Self::tail(),
            self.tail_data(),
        )
    }

    /// `buf` holds this packet.
    pub open spec fn read_from(self, buf: Seq<u32>) -> bool {
        layout::packet_reads(
            buf,
            Self::bit_fields(),
            self.bit_values(),
            Self::join_fields(),
            self.join_values(),
            Self::tail(),
            self.tail_data(),
        )
    }

    fn exec_bit_fields() -> (r: Vec<BitField>)
        ensures
            r@ == Self::bit_fields(),
    {
        vec![BitField { dw: 0, mask: 0x7, shift: 29 }, BitField { dw: 3, mask: 0x3fff, shift: 0 }, BitField { dw: 3, mask: 0x3fff, shift: 16 }, BitField { dw: 4, mask: 0x7ff, shift: 0 }, BitField { dw: 4, mask: 0x3fff, shift: 16 }, BitField { dw: 5, mask: 0xfffffff, shift: 0 }, BitField { dw: 8, mask: 0x3fff, shift: 0 }, BitField { dw: 8, mask: 0x3fff, shift: 16 }, BitField { dw: 9, mask: 0x7ff, shift: 0 }, BitField { dw: 9, mask: 0x3fff, shift: 16 }, BitField { dw: 10, mask: 0xfffffff, shift: 0 }, BitField { dw: 11, mask: 0x3fff, shift: 0 }, BitField { dw: 11, mask: 0x3fff, shift: 16 }, BitField { dw: 12, mask: 0x7ff, shift: 0 }, BitField { dw: 12, mask: 0x3, shift: 16 }, BitField { dw: 12, mask: 0x1, shift: 22 }, BitField { dw: 12, mask: 0x3, shift: 24 }, BitField { dw: 12, mask: 0x1, shift: 30 }]
    }

    fn exec_join_fields() -> (r: Vec<JoinField>)
        ensures
            r@ == Self::join_fields(),
    {
        vec![JoinField { lo: 1, hi: 2 }, JoinField { lo: 6, hi: 7 }]
    }

    /// Whether the field layout of this packet is well formed.
    pub fn layout_ok() -> (r: bool)
        ensures
            r == Self::layout_wf(),
    {
        layout_is_wf(&Self::exec_bit_fields(), &Self::exec_join_fields(), None, Self::STATIC_DWORDS)
    }

    /// Writes the packet to the start of `buff`, without its header, and
    /// returns how many dwords it took.
    pub fn partial_encode_linear(&self, buff: &mut [u32]) -> (n: usize)
        requires
            old(buff)@.len() >= self.size(),
            self.fits(),
        ensures
            n == self.size(),
            final(buff)@ == self.spec_encode(old(buff)@),
            final(buff)@.len() == old(buff)@.len(),
    {
        let bits = Self::exec_bit_fields();
        let vals: Vec<u32> = vec![layout::widen_u8(self.elementsize), layout::widen_u16(self.src_x), layout::widen_u16(self.src_y), layout::widen_u16(self.src_z), layout::widen_u16(self.src_pitch), self.src_slice_pitch, layout::widen_u16(self.dst_x), layout::widen_u16(self.dst_y), layout::widen_u16(self.dst_z), layout::widen_u16(self.dst_pitch), self.dst_slice_pitch, layout::widen_u16(self.rect_x), layout::widen_u16(self.rect_y), layout::widen_u16(self.rect_z), layout::widen_u8(self.dst_sw), to_bit(self.dst_ha), layout::widen_u8(self.src_sw), to_bit(self.src_ha)];
        let joins = Self::exec_join_fields();
        let jvals: Vec<u64> = vec![self.src_addr, self.dst_addr];
        proof {
            assert(vals@ =~= self.bit_values());
            assert(jvals@ =~= self.join_values());
        }
        encode_bit_fields(&bits, &vals, buff);
        encode_join_fields(&joins, &jvals, buff);
        Self::STATIC_DWORDS
    }

    /// Reads the packet at the start of `buff` and returns how many dwords it
    /// took.
    #[verifier::rlimit(40)]
    pub fn partial_decode_linear(buff: &[u32]) -> (r: (usize, Self))
        requires
            Self::decodable(buff@),
        ensures
            r.0 == r.1.size(),
            r.1.read_from(buff@),
    {
        let bits = Self::exec_bit_fields();
        let v = decode_bit_fields(&bits, buff);
        let joins = Self::exec_join_fields();
        let j = decode_join_fields(&joins, buff);
        let p = Self { elementsize: layout::narrow_u8(v[0]), src_x: layout::narrow_u16(v[1]), src_y: layout::narrow_u16(v[2]), src_z: layout::narrow_u16(v[3]), src_pitch: layout::narrow_u16(v[4]), src_slice_pitch: v[5], dst_x: layout::narrow_u16(v[6]), dst_y: layout::narrow_u16(v[7]), dst_z: layout::narrow_u16(v[8]), dst_pitch: layout::narrow_u16(v[9]), dst_slice_pitch: v[10], rect_x: layout::narrow_u16(v[11]), rect_y: layout::narrow_u16(v[12]), rect_z: layout::narrow_u16(v[13]), dst_sw: layout::narrow_u8(v[14]), dst_ha: v[15] != 0, src_sw: layout::narrow_u8(v[16]), src_ha: v[17] != 0, src_addr: j[0], dst_addr: j[1] };
        proof {
            assert(p.bit_values() =~= v@);
            assert(p.join_values() =~= j@);
        }
        (Self::STATIC_DWORDS, p)
    }

    /// Where each field stands in a buffer that the packet is read from, as
    /// the packet header lays it out: a bit field under its mask and shift
    /// in its dword, a 64-bit field in two dwords, low half first. By
    /// `lemma_roundtrip`, encoding a packet puts its fields there.
    #[verifier::rlimit(40)]
    pub proof fn lemma_field_positions(self, buf: Seq<u32>)
        requires
            self.read_from(buf),
        ensures
            layout::u8_value(self.elementsize) == layout::get_bits(buf[0], 0x7, 29),
            layout::u16_value(self.src_x) == layout::get_bits(buf[3], 0x3fff, 0),
            layout::u16_value(self.src_y) == layout::get_bits(buf[3], 0x3fff, 16),
            layout::u16_value(self.src_z) == layout::get_bits(buf[4], 0x7ff, 0),
            layout::u16_value(self.src_pitch) == layout::get_bits(buf[4], 0x3fff, 16),
            self.src_slice_pitch == layout::get_bits(buf[5], 0xfffffff, 0),
            layout::u16_value(self.dst_x) == layout::get_bits(buf[8], 0x3fff, 0),
            layout::u16_value(self.dst_y) == layout::get_bits(buf[8], 0x3fff, 16),
            layout::u16_value(self.dst_z) == layout::get_bits(buf[9], 0x7ff, 0),
            layout::u16_value(self.dst_pitch) == layout::get_bits(buf[9], 0x3fff, 16),
            self.dst_slice_pitch == layout::get_bits(buf[10], 0xfffffff, 0),
            layout::u16_value(self.rect_x) == layout::get_bits(buf[11], 0x3fff, 0),
            layout::u16_value(self.rect_y) == layout::get_bits(buf[11], 0x3fff, 16),
            layout::u16_value(self.rect_z) == layout::get_bits(buf[12], 0x7ff, 0),
            layout::u8_value(self.dst_sw) == layout::get_bits(buf[12], 0x3, 16),
            layout::bool_bit(self.dst_ha) == layout::get_bits(buf[12], 0x1, 22),
            layout::u8_value(self.src_sw) == layout::get_bits(buf[12], 0x3, 24),
            layout::bool_bit(self.src_ha) == layout::get_bits(buf[12], 0x1, 30),
            self.src_addr == layout::dword_pair(buf[1], buf[2]),
            self.dst_addr == layout::dword_pair(buf[6], buf[7]),
    {
        assert(self.bit_values()[0] == layout::u8_value(self.elementsize));
        assert(layout::decode_bits(buf, Self::bit_fields())[0] == self.bit_values()[0]);
        assert(self.bit_values()[1] == layout::u16_value(self.src_x));
        assert(layout::decode_bits(buf, Self::bit_fields())[1] == self.bit_values()[1]);
        assert(self.bit_values()[2] == layout::u16_value(self.src_y));
        assert(layout::decode_bits(buf, Self::bit_fields())[2] == self.bit_values()[2]);
        assert(self.bit_values()[3] == layout::u16_value(self.src_z));
        assert(layout::decode_bits(buf, Self::bit_fields())[3] == self.bit_values()[3]);
        assert(self.bit_values()[4] == layout::u16_value(self.src_pitch));
        assert(layout::decode_bits(buf, Self::bit_fields())[4] == self.bit_values()[4]);
        assert(self.bit_values()[5] == self.src_slice_pitch);
        assert(layout::decode_bits(buf, Self::bit_fields())[5] == self.bit_values()[5]);
        assert(self.bit_values()[6] == layout::u16_value(self.dst_x));
        assert(layout::decode_bits(buf, Self::bit_fields())[6] == self.bit_values()[6]);
        assert(self.bit_values()[7] == layout::u16_value(self.dst_y));
        assert(layout::decode_bits(buf, Self::bit_fields())[7] == self.bit_values()[7]);
        assert(self.bit_values()[8] == layout::u16_value(self.dst_z));
        assert(layout::decode_bits(buf, Self::bit_fields())[8] == self.bit_values()[8]);
        assert(self.bit_values()[9] == layout::u16_value(self.dst_pitch));
        assert(layout::decode_bits(buf, Self::bit_fields())[9] == self.bit_values()[9]);
        assert(self.bit_values()[10] == self.dst_slice_pitch);
        assert(layout::decode_bits(buf, Self::bit_fields())[10] == self.bit_values()[10]);
        assert(self.bit_values()[11] == layout::u16_value(self.rect_x));
        assert(layout::decode_bits(buf, Self::bit_fields())[11] == self.bit_values()[11]);
        assert(self.bit_values()[12] == layout::u16_value(self.rect_y));
        assert(layout::decode_bits(buf, Self::bit_fields())[12] == self.bit_values()[12]);
        assert(self.bit_values()[13] == layout::u16_value(self.rect_z));
        assert(layout::decode_bits(buf, Self::bit_fields())[13] == self.bit_values()[13]);
        assert(self.bit_values()[14] == layout::u8_value(self.dst_sw));
        assert(layout::decode_bits(buf, Self::bit_fields())[14] == self.bit_values()[14]);
        assert(self.bit_values()[15] == layout::bool_bit(self.dst_ha));
        assert(layout::decode_bits(buf, Self::bit_fields())[15] == self.bit_values()[15]);
        assert(self.bit_values()[16] == layout::u8_value(self.src_sw));
        assert(layout::decode_bits(buf, Self::bit_fields())[16] == self.bit_values()[16]);
        assert(self.bit_values()[17] == layout::bool_bit(self.src_ha));
        assert(layout::decode_bits(buf, Self::bit_fields())[17] == self.bit_values()[17]);
        assert(layout::decode_joins(buf, Self::join_fields())[0] == self.join_values()[0]);
        assert(layout::decode_joins(buf, Self::join_fields())[1] == self.join_values()[1]);
    }

    /// The field values name the packet: two packets with the same values are
    /// equal.
    #[verifier::rlimit(40)]
    pub proof fn lemma_values_determine(a: Self, b: Self)
        requires
            a.bit_values() == b.bit_values(),
            a.join_values() == b.join_values(),
            a.tail_data() == b.tail_data(),
        ensures
            a == b,
    {
        assert(a.bit_values()[0] == layout::u8_value(a.elementsize) && b.bit_values()[0] == layout::u8_value(b.elementsize));
        assert(a.bit_values()[1] == layout::u16_value(a.src_x) && b.bit_values()[1] == layout::u16_value(b.src_x));
        assert(a.bit_values()[2] == layout::u16_value(a.src_y) && b.bit_values()[2] == layout::u16_value(b.src_y));
        assert(a.bit_values()[3] == layout::u16_value(a.src_z) && b.bit_values()[3] == layout::u16_value(b.src_z));
        assert(a.bit_values()[4] == layout::u16_value(a.src_pitch) && b.bit_values()[4] == layout::u16_value(b.src_pitch));
        assert(a.bit_values()[5] == a.src_slice_pitch && b.bit_values()[5] == b.src_slice_pitch);
        assert(a.bit_values()[6] == layout::u16_value(a.dst_x) && b.bit_values()[6] == layout::u16_value(b.dst_x));
        assert(a.bit_values()[7] == layout::u16_value(a.dst_y) && b.bit_values()[7] == layout::u16_value(b.dst_y));
        assert(a.bit_values()[8] == layout::u16_value(a.dst_z) && b.bit_values()[8] == layout::u16_value(b.dst_z));
        assert(a.bit_values()[9] == layout::u16_value(a.dst_pitch) && b.bit_values()[9] == layout::u16_value(b.dst_pitch));
        assert(a.bit_values()[10] == a.dst_slice_pitch && b.bit_values()[10] == b.dst_slice_pitch);
        assert(a.bit_values()[11] == layout::u16_value(a.rect_x) && b.bit_values()[11] == layout::u16_value(b.rect_x));
        assert(a.bit_values()[12] == layout::u16_value(a.rect_y) && b.bit_values()[12] == layout::u16_value(b.rect_y));
        assert(a.bit_values()[13] == layout::u16_value(a.rect_z) && b.bit_values()[13] == layout::u16_value(b.rect_z));
        assert(a.bit_values()[14] == layout::u8_value(a.dst_sw) && b.bit_values()[14] == layout::u8_value(b.dst_sw));
        assert(a.bit_values()[15] == layout::bool_bit(a.dst_ha) && b.bit_values()[15] == layout::bool_bit(b.dst_ha));
        assert(a.bit_values()[16] == layout::u8_value(a.src_sw) && b.bit_values()[16] == layout::u8_value(b.src_sw));
        assert(a.bit_values()[17] == layout::bool_bit(a.src_ha) && b.bit_values()[17] == layout::bool_bit(b.src_ha));
        assert(a.join_values()[0] == a.src_addr && b.join_values()[0] == b.src_addr);
        assert(a.join_values()[1] == a.dst_addr && b.join_values()[1] == b.dst_addr);
    }

    /// Reading a packet is exact: two packets read from one buffer are equal.
    pub proof fn lemma_read_unique(a: Self, b: Self, buf: Seq<u32>)
        requires
            a.read_from(buf),
            b.read_from(buf),
        ensures
            a == b,
    {
        layout::lemma_reads_determine(
            buf,
            Self::bit_fields(),
            a.bit_values(),
            b.bit_values(),
            Self::join_fields(),
            a.join_values(),
            b.join_values(),
            Self::tail(),
            a.tail_data(),
            b.tail_data(),
        );
        Self::lemma_values_determine(a, b);
    }

    /// A packet reads back from what it was encoded to.
    pub proof fn lemma_roundtrip(self, buf: Seq<u32>)
        requires
            Self::layout_wf(),
            self.fits(),
            buf.len() >= self.size(),
        ensures
            self.read_from(self.spec_encode(buf)),
            Self::decodable(self.spec_encode(buf)),
            self.spec_encode(buf).len() == buf.len(),
    {
        layout::lemma_packet_roundtrip(
            buf,
            Self::bit_fields(),
            self.bit_values(),
            Self::join_fields(),
            self.join_values(),
            Self::tail(),
            self.tail_data(),
            Self::STATIC_DWORDS as nat,
        );
    }
}

/// The `CopyTiledSubWindow` packet.
#[derive(Clone, Copy, Default)]
pub struct CopyTiledSubWindow {
    pub detile: bool,
    pub tiled_x: u16,
    pub tiled_y: u16,
    pub tiled_z: u16,
    pub pitch_in_tile: u16,
    pub slice_pitch: u32,
    pub element_size: u8,
    pub array_mode: u8,
    pub mit_mode: u8,
    pub tilesplit_size: u8,
    pub bank_w: u8,
    pub bank_h: u8,
    pub num_bank: u8,
    pub mat_aspt: u8,
    pub pipe_config: u8,
    pub linear_x: u16,
    pub linear_y: u16,
    pub linear_z: u16,
    pub linear_pitch: u16,
    pub linear_slice_pitch: u32,
    pub rect_x: u16,
    pub rect_y: u16,
    pub rect_z: u16,
    pub linear_sw: u8,
    pub tile_sw: u8,
    pub tiled_addr: u64,
    pub linear_addr: u64,
}

impl CopyTiledSubWindow {
    /// Dwords of the packet before its variable-length tail.
    pub const STATIC_DWORDS: usize = 14;

    pub open spec fn bit_fields() -> Seq<BitField> {
        seq![BitField { dw: 0, mask: 0x1, shift: 31 }, BitField { dw: 3, mask: 0x3fff, shift: 0 }, BitField { dw: 3, mask: 0x3fff, shift: 16 }, BitField { dw: 4, mask: 0x7ff, shift: 0 }, BitField { dw: 4, mask: 0xfff, shift: 16 }, BitField { dw: 5, mask: 0xfffffff, shift: 0 }, BitField { dw: 6, mask: 0x7, shift: 0 }, BitField { dw: 6, mask: 0xf, shift: 3 }, BitField { dw: 6, mask: 0x7, shift: 8 }, BitField { dw: 6, mask: 0x7, shift: 11 }, BitField { dw: 6, mask: 0x3, shift: 15 }, BitField { dw: 6, mask: 0x3, shift: 18 }, BitField { dw: 6, mask: 0x3, shift: 21 }, BitField { dw: 6, mask: 0x3, shift: 24 }, BitField { dw: 6, mask: 0x1f, shift: 26 }, BitField { dw: 9, mask: 0x3fff, shift: 0 }, BitField { dw: 9, mask: 0x3fff, shift: 16 }, BitField { dw: 10, mask: 0x7ff, shift: 0 }, BitField { dw: 10, mask: 0x3fff, shift: 16 }, BitField { dw: 11, mask: 0xfffffff, shift: 0 }, BitField { dw: 12, mask: 0x3fff, shift: 0 }, BitField { dw: 12, mask: 0x3fff, shift: 16 }, BitField { dw: 13, mask: 0x7ff, shift: 0 }, BitField { dw: 13, mask: 0x3, shift: 16 }, BitField { dw: 13, mask: 0x3, shift: 22 }]
    }

    pub open spec fn join_fields() -> Seq<JoinField> {
        seq![JoinField { lo: 1, hi: 2 }, JoinField { lo: 7, hi: 8 }]
    }

    pub open spec fn tail() -> Option<DynField> {
        None
    }

    pub open spec fn bit_values(self) -> Seq<u32> {
        seq![layout::bool_bit(self.detile), self.tiled_x as u32, self.tiled_y as u32, self.tiled_z as u32, self.pitch_in_tile as u32, self.slice_pitch, self.element_size as u32, self.array_mode as u32, self.mit_mode as u32, self.tilesplit_size as u32, self.bank_w as u32, self.bank_h as u32, self.num_bank as u32, self.mat_aspt as u32, self.pipe_config as u32, self.linear_x as u32, self.linear_y as u32, self.linear_z as u32, self.linear_pitch as u32, self.linear_slice_pitch, self.rect_x as u32, self.rect_y as u32, self.rect_z as u32, self.linear_sw as u32, self.tile_sw as u32]
    }

    pub open spec fn join_values(self) -> Seq<u64> {
        seq![self.tiled_addr, self.linear_addr]
    }

    pub open spec fn tail_data(self) -> Seq<u32> {
        Seq::<u32>::empty()
    }

    /// Every field value fits its field.
    pub open spec fn fits(self) -> bool {
        layout::fields_fit(Self::bit_fields(), self.bit_values()) && layout::tail_fits(Self::tail(), self.tail_data())
    }

    pub open spec fn layout_wf() -> bool {
        layout::layout_wf(Self::bit_fields(), Self::join_fields(), Self::tail(), Self::STATIC_DWORDS as nat)
    }

    /// Dwords that the packet takes.
    pub open spec fn size(self) -> nat {
        (Self::STATIC_DWORDS + self.tail_data().len()) as nat
    }

    /// The buffer holds the whole packet.
    pub open spec fn decodable(buf: Seq<u32>) -> bool {
        buf.len() >= Self::STATIC_DWORDS
    }

    pub open spec fn spec_encode(self, buf: Seq<u32>) -> Seq<u32> {
        layout::encode_packet(
            buf,
            Self::bit_fields(),
            self.bit_values(),
            Self::join_fields(),
            self.join_values(),
            Self::tail(),
            self.tail_data(),
        )
    }

    /// `buf` holds this packet.
    pub open spec fn read_from(self, buf: Seq<u32>) -> bool {
        layout::packet_reads(
            buf,
            Self::bit_fields(),
            self.bit_values(),
            Self::join_fields(),
            self.join_values(),
            Self::tail(),
            self.tail_data(),
        )
    }

    fn exec_bit_fields() -> (r: Vec<BitField>)
        ensures
            r@ == Self::bit_fields(),
    {
        vec![BitField { dw: 0, mask: 0x1, shift: 31 }, BitField { dw: 3, mask: 0x3fff, shift: 0 }, BitField { dw: 3, mask: 0x3fff, shift: 16 }, BitField { dw: 4, mask: 0x7ff, shift: 0 }, BitField { dw: 4, mask: 0xfff, shift: 16 }, BitField { dw: 5, mask: 0xfffffff, shift: 0 }, BitField { dw: 6, mask: 0x7, shift: 0 }, BitField { dw: 6, mask: 0xf, shift: 3 }, BitField { dw: 6, mask: 0x7, shift: 8 }, BitField { dw: 6, mask: 0x7, shift: 11 }, BitField { dw: 6, mask: 0x3, shift: 15 }, BitField { dw: 6, mask: 0x3, shift: 18 }, BitField { dw: 6, mask: 0x3, shift: 21 }, BitField { dw: 6, mask: 0x3, shift: 24 }, BitField { dw: 6, mask: 0x1f, shift: 26 }, BitField { dw: 9, mask: 0x3fff, shift: 0 }, BitField { dw: 9, mask: 0x3fff, shift: 16 }, BitField { dw: 10, mask: 0x7ff, shift: 0 }, BitField { dw: 10, mask: 0x3fff, shift: 16 }, BitField { dw: 11, mask: 0xfffffff, shift: 0 }, BitField { dw: 12, mask: 0x3fff, shift: 0 }, BitField { dw: 12, mask: 0x3fff, shift: 16 }, BitField { dw: 13, mask: 0x7ff, shift: 0 }, BitField { dw: 13, mask: 0x3, shift: 16 }, BitField { dw: 13, mask: 0x3, shift: 22 }]
    }

    fn exec_join_fields() -> (r: Vec<JoinField>)
        ensures
            r@ == Self::join_fields(),
    {
        vec![JoinField { lo: 1, hi: 2 }, JoinField { lo: 7, hi: 8 }]
    }

    /// Whether the field layout of this packet is well formed.
    pub fn layout_ok() -> (r: bool)
        ensures
            r == Self::layout_wf(),
    {
        layout_is_wf(&Self::exec_bit_fields(), &Self::exec_join_fields(), None, Self::STATIC_DWORDS)
    }

    /// Writes the packet to the start of `buff`, without its header, and
    /// returns how many dwords it took.
    pub fn partial_encode_linear(&self, buff: &mut [u32]) -> (n: usize)
        requires
            old(buff)@.len() >= self.size(),
            self.fits(),
        ensures
            n == self.size(),
            final(buff)@ == self.spec_encode(old(buff)@),
            final(buff)@.len() == old(buff)@.len(),
    {
        let bits = Self::exec_bit_fields();
        let vals: Vec<u32> = vec![to_bit(self.detile), layout::widen_u16(self.tiled_x), layout::widen_u16(self.tiled_y), layout::widen_u16(self.tiled_z), layout::widen_u16(self.pitch_in_tile), self.slice_pitch, layout::widen_u8(self.element_size), layout::widen_u8(self.array_mode), layout::widen_u8(self.mit_mode), layout::widen_u8(self.tilesplit_size), layout::widen_u8(self.bank_w), layout::widen_u8(self.bank_h), layout::widen_u8(self.num_bank), layout::widen_u8(self.mat_aspt), layout::widen_u8(self.pipe_config), layout::widen_u16(self.linear_x), layout::widen_u16(self.linear_y), layout::widen_u16(self.linear_z), layout::widen_u16(self.linear_pitch), self.linear_slice_pitch, layout::widen_u16(self.rect_x), layout::widen_u16(self.rect_y), layout::widen_u16(self.rect_z), layout::widen_u8(self.linear_sw), layout::widen_u8(self.tile_sw)];
        let joins = Self::exec_join_fields();
        let jvals: Vec<u64> = vec![self.tiled_addr, self.linear_addr];
        proof {
            assert(vals@ =~= self.bit_values());
            assert(jvals@ =~= self.join_values());
        }
        encode_bit_fields(&bits, &vals, buff);
        encode_join_fields(&joins, &jvals, buff);
        Self::STATIC_DWORDS
    }

    /// Reads the packet at the start of `buff` and returns how many dwords it
    /// took.
    #[verifier::rlimit(40)]
    pub fn partial_decode_linear(buff: &[u32]) -> (r: (usize, Self))
        requires
            Self::decodable(buff@),
        ensures
            r.0 == r.1.size(),
            r.1.read_from(buff@),
    {
        let bits = Self::exec_bit_fields();
        let v = decode_bit_fields(&bits, buff);
        let joins = Self::exec_join_fields();
        let j = decode_join_fields(&joins, buff);
        let p = Self { detile: v[0] != 0, tiled_x: layout::narrow_u16(v[1]), tiled_y: layout::narrow_u16(v[2]), tiled_z: layout::narrow_u16(v[3]), pitch_in_tile: layout::narrow_u16(v[4]), slice_pitch: v[5], element_size: layout::narrow_u8(v[6]), array_mode: layout::narrow_u8(v[7]), mit_mode: layout::narrow_u8(v[8]), tilesplit_size: layout::narrow_u8(v[9]), bank_w: layout::narrow_u8(v[10]), bank_h: layout::narrow_u8(v[11]), num_bank: layout::narrow_u8(v[12]), mat_aspt: layout::narrow_u8(v[13]), pipe_config: layout::narrow_u8(v[14]), linear_x: layout::narrow_u16(v[15]), linear_y: layout::narrow_u16(v[16]), linear_z: layout::narrow_u16(v[17]), linear_pitch: layout::narrow_u16(v[18]), linear_slice_pitch: v[19], rect_x: layout::narrow_u16(v[20]), rect_y: layout::narrow_u16(v[21]), rect_z: layout::narrow_u16(v[22]), linear_sw: layout::narrow_u8(v[23]), tile_sw: layout::narrow_u8(v[24]), tiled_addr: j[0], linear_addr: j[1] };
        proof {
            assert(p.bit_values() =~= v@);
            assert(p.join_values() =~= j@);
        }
        (Self::STATIC_DWORDS, p)
    }

    /// Where each field stands in a buffer that the packet is read from, as
    /// the packet header lays it out: a bit field under its mask and shift
    /// in its dword, a 64-bit field in two dwords, low half first. By
    /// `lemma_roundtrip`, encoding a packet puts its fields there.
    #[verifier::rlimit(40)]
    pub proof fn lemma_field_positions(self, buf: Seq<u32>)
        requires
            self.read_from(buf),
        ensures
            layout::bool_bit(self.detile) == layout::get_bits(buf[0], 0x1, 31),
            layout::u16_value(self.tiled_x) == layout::get_bits(buf[3], 0x3fff, 0),
            layout::u16_value(self.tiled_y) == layout::get_bits(buf[3], 0x3fff, 16),
            layout::u16_value(self.tiled_z) == layout::get_bits(buf[4], 0x7ff, 0),
            layout::u16_value(self.pitch_in_tile) == layout::get_bits(buf[4], 0xfff, 16),
            self.slice_pitch == layout::get_bits(buf[5], 0xfffffff, 0),
            layout::u8_value(self.element_size) == layout::get_bits(buf[6], 0x7, 0),
            layout::u8_value(self.array_mode) == layout::get_bits(buf[6], 0xf, 3),
            layout::u8_value(self.mit_mode) == layout::get_bits(buf[6], 0x7, 8),
            layout::u8_value(self.tilesplit_size) == layout::get_bits(buf[6], 0x7, 11),
            layout::u8_value(self.bank_w) == layout::get_bits(buf[6], 0x3, 15),
            layout::u8_value(self.bank_h) == layout::get_bits(buf[6], 0x3, 18),
            layout::u8_value(self.num_bank) == layout::get_bits(buf[6], 0x3, 21),
            layout::u8_value(self.mat_aspt) == layout::get_bits(buf[6], 0x3, 24),
            layout::u8_value(self.pipe_config) == layout::get_bits(buf[6], 0x1f, 26),
            layout::u16_value(self.linear_x) == layout::get_bits(buf[9], 0x3fff, 0),
            layout::u16_value(self.linear_y) == layout::get_bits(buf[9], 0x3fff, 16),
            layout::u16_value(self.linear_z) == layout::get_bits(buf[10], 0x7ff, 0),
            layout::u16_value(self.linear_pitch) == layout::get_bits(buf[10], 0x3fff, 16),
            self.linear_slice_pitch == layout::get_bits(buf[11], 0xfffffff, 0),
            layout::u16_value(self.rect_x) == layout::get_bits(buf[12], 0x3fff, 0),
            layout::u16_value(self.rect_y) == layout::get_bits(buf[12], 0x3fff, 16),
            layout::u16_value(self.rect_z) == layout::get_bits(buf[13], 0x7ff, 0),
            layout::u8_value(self.linear_sw) == layout::get_bits(buf[13], 0x3, 16),
            layout::u8_value(self.tile_sw) == layout::get_bits(buf[13], 0x3, 22),
            self.tiled_addr == layout::dword_pair(buf[1], buf[2]),
            self.linear_addr == layout::dword_pair(buf[7], buf[8]),
    {
        assert(self.bit_values()[0] == layout::bool_bit(self.detile));
        assert(layout::decode_bits(buf, Self::bit_fields())[0] == self.bit_values()[0]);
        assert(self.bit_values()[1] == layout::u16_value(self.tiled_x));
        assert(layout::decode_bits(buf, Self::bit_fields())[1] == self.bit_values()[1]);
        assert(self.bit_values()[2] == layout::u16_value(self.tiled_y));
        assert(layout::decode_bits(buf, Self::bit_fields())[2] == self.bit_values()[2]);
        assert(self.bit_values()[3] == layout::u16_value(self.tiled_z));
        assert(layout::decode_bits(buf, Self::bit_fields())[3] == self.bit_values()[3]);
        assert(self.bit_values()[4] == layout::u16_value(self.pitch_in_tile));
        assert(layout::decode_bits(buf, Self::bit_fields())[4] == self.bit_values()[4]);
        assert(self.bit_values()[5] == self.slice_pitch);
        assert(layout::decode_bits(buf, Self::bit_fields())[5] == self.bit_values()[5]);
        assert(self.bit_values()[6] == layout::u8_value(self.element_size));
        assert(layout::decode_bits(buf, Self::bit_fields())[6] == self.bit_values()[6]);
        assert(self.bit_values()[7] == layout::u8_value(self.array_mode));
        assert(layout::decode_bits(buf, Self::bit_fields())[7] == self.bit_values()[7]);
        assert(self.bit_values()[8] == layout::u8_value(self.mit_mode));
        assert(layout::decode_bits(buf, Self::bit_fields())[8] == self.bit_values()[8]);
        assert(self.bit_values()[9] == layout::u8_value(self.tilesplit_size));
        assert(layout::decode_bits(buf, Self::bit_fields())[9] == self.bit_values()[9]);
        assert(self.bit_values()[10] == layout::u8_value(self.bank_w));
        assert(layout::decode_bits(buf, Self::bit_fields())[10] == self.bit_values()[10]);
        assert(self.bit_values()[11] == layout::u8_value(self.bank_h));
        assert(layout::decode_bits(buf, Self::bit_fields())[11] == self.bit_values()[11]);
        assert(self.bit_values()[12] == layout::u8_value(self.num_bank));
        assert(layout::decode_bits(buf, Self::bit_fields())[12] == self.bit_values()[12]);
        assert(self.bit_values()[13] == layout::u8_value(self.mat_aspt));
        assert(layout::decode_bits(buf, Self::bit_fields())[13] == self.bit_values()[13]);
        assert(self.bit_values()[14] == layout::u8_value(self.pipe_config));
        assert(layout::decode_bits(buf, Self::bit_fields())[14] == self.bit_values()[14]);
        assert(self.bit_values()[15] == layout::u16_value(self.linear_x));
        assert(layout::decode_bits(buf, Self::bit_fields())[15] == self.bit_values()[15]);
        assert(self.bit_values()[16] == layout::u16_value(self.linear_y));
        assert(layout::decode_bits(buf, Self::bit_fields())[16] == self.bit_values()[16]);
        assert(self.bit_values()[17] == layout::u16_value(self.linear_z));
        assert(layout::decode_bits(buf, Self::bit_fields())[17] == self.bit_values()[17]);
        assert(self.bit_values()[18] == layout::u16_value(self.linear_pitch));
        assert(layout::decode_bits(buf, Self::bit_fields())[18] == self.bit_values()[18]);
        assert(self.bit_values()[19] == self.linear_slice_pitch);
        assert(layout::decode_bits(buf, Self::bit_fields())[19] == self.bit_values()[19]);
        assert(self.bit_values()[20] == layout::u16_value(self.rect_x));
        assert(layout::decode_bits(buf, Self::bit_fields())[20] == self.bit_values()[20]);
        assert(self.bit_values()[21] == layout::u16_value(self.rect_y));
        assert(layout::decode_bits(buf, Self::bit_fields())[21] == self.bit_values()[21]);
        assert(self.bit_values()[22] == layout::u16_value(self.rect_z));
        assert(layout::decode_bits(buf, Self::bit_fields())[22] == self.bit_values()[22]);
        assert(self.bit_values()[23] == layout::u8_value(self.linear_sw));
        assert(layout::decode_bits(buf, Self::bit_fields())[23] == self.bit_values()[23]);
        assert(self.bit_values()[24] == layout::u8_value(self.tile_sw));
        assert(layout::decode_bits(buf, Self::bit_fields())[24] == self.bit_values()[24]);
        assert(layout::decode_joins(buf, Self::join_fields())[0] == self.join_values()[0]);
        assert(layout::decode_joins(buf, Self::join_fields())[1] == self.join_values()[1]);
    }

    /// The field values name the packet: two packets with the same values are
    /// equal.
    #[verifier::rlimit(40)]
    pub proof fn lemma_values_determine(a: Self, b: Self)
        requires
            a.bit_values() == b.bit_values(),
            a.join_values() == b.join_values(),
            a.tail_data() == b.tail_data(),
        ensures
            a == b,
    {
        assert(a.bit_values()[0] == layout::bool_bit(a.detile) && b.bit_values()[0] == layout::bool_bit(b.detile));
        assert(a.bit_values()[1] == layout::u16_value(a.tiled_x) && b.bit_values()[1] == layout::u16_value(b.tiled_x));
        assert(a.bit_values()[2] == layout::u16_value(a.tiled_y) && b.bit_values()[2] == layout::u16_value(b.tiled_y));
        assert(a.bit_values()[3] == layout::u16_value(a.tiled_z) && b.bit_values()[3] == layout::u16_value(b.tiled_z));
        assert(a.bit_values()[4] == layout::u16_value(a.pitch_in_tile) && b.bit_values()[4] == layout::u16_value(b.pitch_in_tile));
        assert(a.bit_values()[5] == a.slice_pitch && b.bit_values()[5] == b.slice_pitch);
        assert(a.bit_values()[6] == layout::u8_value(a.element_size) && b.bit_values()[6] == layout::u8_value(b.element_size));
        assert(a.bit_values()[7] == layout::u8_value(a.array_mode) && b.bit_values()[7] == layout::u8_value(b.array_mode));
        assert(a.bit_values()[8] == layout::u8_value(a.mit_mode) && b.bit_values()[8] == layout::u8_value(b.mit_mode));
        assert(a.bit_values()[9] == layout::u8_value(a.tilesplit_size) && b.bit_values()[9] == layout::u8_value(b.tilesplit_size));
        assert(a.bit_values()[10] == layout::u8_value(a.bank_w) && b.bit_values()[10] == layout::u8_value(b.bank_w));
        assert(a.bit_values()[11] == layout::u8_value(a.bank_h) && b.bit_values()[11] == layout::u8_value(b.bank_h));
        assert(a.bit_values()[12] == layout::u8_value(a.num_bank) && b.bit_values()[12] == layout::u8_value(b.num_bank));
        assert(a.bit_values()[13] == layout::u8_value(a.mat_aspt) && b.bit_values()[13] == layout::u8_value(b.mat_aspt));
        assert(a.bit_values()[14] == layout::u8_value(a.pipe_config) && b.bit_values()[14] == layout::u8_value(b.pipe_config));
        assert(a.bit_values()[15] == layout::u16_value(a.linear_x) && b.bit_values()[15] == layout::u16_value(b.linear_x));
        assert(a.bit_values()[16] == layout::u16_value(a.linear_y) && b.bit_values()[16] == layout::u16_value(b.linear_y));
        assert(a.bit_values()[17] == layout::u16_value(a.linear_z) && b.bit_values()[17] == layout::u16_value(b.linear_z));
        assert(a.bit_values()[18] == layout::u16_value(a.linear_pitch) && b.bit_values()[18] == layout::u16_value(b.linear_pitch));
        assert(a.bit_values()[19] == a.linear_slice_pitch && b.bit_values()[19] == b.linear_slice_pitch);
        assert(a.bit_values()[20] == layout::u16_value(a.rect_x) && b.bit_values()[20] == layout::u16_value(b.rect_x));
        assert(a.bit_values()[21] == layout::u16_value(a.rect_y) && b.bit_values()[21] == layout::u16_value(b.rect_y));
        assert(a.bit_values()[22] == layout::u16_value(a.rect_z) && b.bit_values()[22] == layout::u16_value(b.rect_z));
        assert(a.bit_values()[23] == layout::u8_value(a.linear_sw) && b.bit_values()[23] == layout::u8_value(b.linear_sw));
        assert(a.bit_values()[24] == layout::u8_value(a.tile_sw) && b.bit_values()[24] == layout::u8_value(b.tile_sw));
        assert(a.join_values()[0] == a.tiled_addr && b.join_values()[0] == b.tiled_addr);
        assert(a.join_values()[1] == a.linear_addr && b.join_values()[1] == b.linear_addr);
    }

    /// Reading a packet is exact: two packets read from one buffer are equal.
    pub proof fn lemma_read_unique(a: Self, b: Self, buf: Seq<u32>)
        requires
            a.read_from(buf),
            b.read_from(buf),
        ensures
            a == b,
    {
        layout::lemma_reads_determine(
            buf,
            Self::bit_fields(),
            a.bit_values(),
            b.bit_values(),
            Self::join_fields(),
            a.join_values(),
            b.join_values(),
            Self::tail(),
            a.tail_data(),
            b.tail_data(),
        );
        Self::lemma_values_determine(a, b);
    }

    /// A packet reads back from what it was encoded to.
    pub proof fn lemma_roundtrip(self, buf: Seq<u32>)
        requires
            Self::layout_wf(),
            self.fits(),
            buf.len() >= self.size(),
        ensures
            self.read_from(self.spec_encode(buf)),
            Self::decodable(self.spec_encode(buf)),
            self.spec_encode(buf).len() == buf.len(),
    {
        layout::lemma_packet_roundtrip(
            buf,
            Self::bit_fields(),
            self.bit_values(),
            Self::join_fields(),
            self.join_values(),
            Self::tail(),
            self.tail_data(),
            Self::STATIC_DWORDS as nat,
        );
    }
}

/// The `CopyTiledToTiled` packet.
#[derive(Clone, Copy, Default)]
pub struct CopyTiledToTiled {
    pub src_x: u16,
    pub src_y: u16,
    pub src_z: u16,
    pub src_pitch_in_tile: u16,
    pub src_slice_pitch: u32,
    pub src_element_size: u8,
    pub src_array_mode: u8,
    pub src_mit_mode: u8,
    pub src_tilesplit_size: u8,
    pub src_bank_w: u8,
    pub src_bank_h: u8,
    pub src_num_bank: u8,
    pub src_mat_aspt: u8,
    pub src_pipe_config: u8,
    pub dst_x: u16,
    pub dst_y: u16,
    pub dst_z: u16,
    pub dst_pitch_in_tile: u16,
    pub dst_slice_pitch: u32,
    pub dst_element_size: u8,
    pub dst_array_mode: u8,
    pub dst_mit_mode: u8,
    pub dst_tilesplit_size: u8,
    pub dst_bank_w: u8,
    pub dst_bank_h: u8,
    pub dst_num_bank: u8,
    pub dst_mat_aspt: u8,
    pub dst_pipe_config: u8,
    pub rect_x: u16,
    pub rect_y: u16,
    pub rect_z: u16,
    pub dst_sw: u8,
    pub src_sw: u8,
    pub src_addr: u64,
    pub dst_addr: u64,
}

impl CopyTiledToTiled {
    /// Dwords of the packet before its variable-length tail.
    pub const STATIC_DWORDS: usize = 15;

    pub open spec fn bit_fields() -> Seq<BitField> {
        seq![BitField { dw: 3, mask: 0x3fff, shift: 0 }, BitField { dw: 3, mask: 0x3fff, shift: 16 }, BitField { dw: 4, mask: 0x7ff, shift: 0 }, BitField { dw: 4, mask: 0xfff, shift: 16 }, BitField { dw: 5, mask: 0x3fffff, shift: 0 }, BitField { dw: 6, mask: 0x7, shift: 0 }, BitField { dw: 6, mask: 0xf, shift: 3 }, BitField { dw: 6, mask: 0x7, shift: 8 }, BitField { dw: 6, mask: 0x7, shift: 11 }, BitField { dw: 6, mask: 0x3, shift: 15 }, BitField { dw: 6, mask: 0x3, shift: 18 }, BitField { dw: 6, mask: 0x3, shift: 21 }, BitField { dw: 6, mask: 0x3, shift: 24 }, BitField { dw: 6, mask: 0x1f, shift: 26 }, BitField { dw: 9, mask: 0x3fff, shift: 0 }, BitField { dw: 9, mask: 0x3fff, shift: 16 }, BitField { dw: 10, mask: 0x7ff, shift: 0 }, BitField { dw: 10, mask: 0xfff, shift: 16 }, BitField { dw: 11, mask: 0x3fffff, shift: 0 }, BitField { dw: 12, mask: 0x7, shift: 0 }, BitField { dw: 12, mask: 0xf, shift: 3 }, BitField { dw: 12, mask: 0x7, shift: 8 }, BitField { dw: 12, mask: 0x7, shift: 11 }, BitField { dw: 12, mask: 0x3, shift: 15 }, BitField { dw: 12, mask: 0x3, shift: 18 }, BitField { dw: 12, mask: 0x3, shift: 21 }, BitField { dw: 12, mask: 0x3, shift: 24 }, BitField { dw: 12, mask: 0x1f, shift: 26 }, BitField { dw: 13, mask: 0x3fff, shift: 0 }, BitField { dw: 13, mask: 0x3fff, shift: 16 }, BitField { dw: 14, mask: 0x7ff, shift: 0 }, BitField { dw: 14, mask: 0x3, shift: 16 }, BitField { dw: 14, mask: 0x3, shift: 24 }]
    }

    pub open spec fn join_fields() -> Seq<JoinField> {
        seq![JoinField { lo: 1, hi: 2 }, JoinField { lo: 7, hi: 8 }]
    }

    pub open spec fn tail() -> Option<DynField> {
        None
    }

    pub open spec fn bit_values(self) -> Seq<u32> {
        seq![self.src_x as u32, self.src_y as u32, self.src_z as u32, self.src_pitch_in_tile as u32, self.src_slice_pitch, self.src_element_size as u32, self.src_array_mode as u32, self.src_mit_mode as u32, self.src_tilesplit_size as u32, self.src_bank_w as u32, self.src_bank_h as u32, self.src_num_bank as u32, self.src_mat_aspt as u32, self.src_pipe_config as u32, self.dst_x as u32, self.dst_y as u32, self.dst_z as u32, self.dst_pitch_in_tile as u32, self.dst_slice_pitch, self.dst_element_size as u32, self.dst_array_mode as u32, self.dst_mit_mode as u32, self.dst_tilesplit_size as u32, self.dst_bank_w as u32, self.dst_bank_h as u32, self.dst_num_bank as u32, self.dst_mat_aspt as u32, self.dst_pipe_config as u32, self.rect_x as u32, self.rect_y as u32, self.rect_z as u32, self.dst_sw as u32, self.src_sw as u32]
    }

    pub open spec fn join_values(self) -> Seq<u64> {
        seq![self.src_addr, self.dst_addr]
    }

    pub open spec fn tail_data(self) -> Seq<u32> {
        Seq::<u32>::empty()
    }

    /// Every field value fits its field.
    pub open spec fn fits(self) -> bool {
        layout::fields_fit(Self::bit_fields(), self.bit_values()) && layout::tail_fits(Self::tail(), self.tail_data())
    }

    pub open spec fn layout_wf() -> bool {
        layout::layout_wf(Self::bit_fields(), Self::join_fields(), Self::tail(), Self::STATIC_DWORDS as nat)
    }

    /// Dwords that the packet takes.
    pub open spec fn size(self) -> nat {
        (Self::STATIC_DWORDS + self.tail_data().len()) as nat
    }

    /// The buffer holds the whole packet.
    pub open spec fn decodable(buf: Seq<u32>) -> bool {
        buf.len() >= Self::STATIC_DWORDS
    }

    pub open spec fn spec_encode(self, buf: Seq<u32>) -> Seq<u32> {
        layout::encode_packet(
            buf,
            Self::bit_fields(),
            self.bit_values(),
            Self::join_fields(),
            self.join_values(),
            Self::tail(),
            self.tail_data(),
        )
    }

    /// `buf` holds this packet.
    pub open spec fn read_from(self, buf: Seq<u32>) -> bool {
        layout::packet_reads(
            buf,
            Self::bit_fields(),
            self.bit_values(),
            Self::join_fields(),
            self.join_values(),
            Self::tail(),
            self.tail_data(),
        )
    }

    fn exec_bit_fields() -> (r: Vec<BitField>)
        ensures
            r@ == Self::bit_fields(),
    {
        vec![BitField { dw: 3, mask: 0x3fff, shift: 0 }, BitField { dw: 3, mask: 0x3fff, shift: 16 }, BitField { dw: 4, mask: 0x7ff, shift: 0 }, BitField { dw: 4, mask: 0xfff, shift: 16 }, BitField { dw: 5, mask: 0x3fffff, shift: 0 }, BitField { dw: 6, mask: 0x7, shift: 0 }, BitField { dw: 6, mask: 0xf, shift: 3 }, BitField { dw: 6, mask: 0x7, shift: 8 }, BitField { dw: 6, mask: 0x7, shift: 11 }, BitField { dw: 6, mask: 0x3, shift: 15 }, BitField { dw: 6, mask: 0x3, shift: 18 }, BitField { dw: 6, mask: 0x3, shift: 21 }, BitField { dw: 6, mask: 0x3, shift: 24 }, BitField { dw: 6, mask: 0x1f, shift: 26 }, BitField { dw: 9, mask: 0x3fff, shift: 0 }, BitField { dw: 9, mask: 0x3fff, shift: 16 }, BitField { dw: 10, mask: 0x7ff, shift: 0 }, BitField { dw: 10, mask: 0xfff, shift: 16 }, BitField { dw: 11, mask: 0x3fffff, shift: 0 }, BitField { dw: 12, mask: 0x7, shift: 0 }, BitField { dw: 12, mask: 0xf, shift: 3 }, BitField { dw: 12, mask: 0x7, shift: 8 }, BitField { dw: 12, mask: 0x7, shift: 11 }, BitField { dw: 12, mask: 0x3, shift: 15 }, BitField { dw: 12, mask: 0x3, shift: 18 }, BitField { dw: 12, mask: 0x3, shift: 21 }, BitField { dw: 12, mask: 0x3, shift: 24 }, BitField { dw: 12, mask: 0x1f, shift: 26 }, BitField { dw: 13, mask: 0x3fff, shift: 0 }, BitField { dw: 13, mask: 0x3fff, shift: 16 }, BitField { dw: 14, mask: 0x7ff, shift: 0 }, BitField { dw: 14, mask: 0x3, shift: 16 }, BitField { dw: 14, mask: 0x3, shift: 24 }]
    }

    fn exec_join_fields() -> (r: Vec<JoinField>)
        ensures
            r@ == Self::join_fields(),
    {
        vec![JoinField { lo: 1, hi: 2 }, JoinField { lo: 7, hi: 8 }]
    }

    /// Whether the field layout of this packet is well formed.
    pub fn layout_ok() -> (r: bool)
        ensures
            r == Self::layout_wf(),
    {
        layout_is_wf(&Self::exec_bit_fields(), &Self::exec_join_fields(), None, Self::STATIC_DWORDS)
    }

    /// Writes the packet to the start of `buff`, without its header, and
    /// returns how many dwords it took.
    pub fn partial_encode_linear(&self, buff: &mut [u32]) -> (n: usize)
        requires
            old(buff)@.len() >= self.size(),
            self.fits(),
        ensures
            n == self.size(),
            final(buff)@ == self.spec_encode(old(buff)@),
            final(buff)@.len() == old(buff)@.len(),
    {
        let bits = Self::exec_bit_fields();
        let vals: Vec<u32> = vec![layout::widen_u16(self.src_x), layout::widen_u16(self.src_y), layout::widen_u16(self.src_z), layout::widen_u16(self.src_pitch_in_tile), self.src_slice_pitch, layout::widen_u8(self.src_element_size), layout::widen_u8(self.src_array_mode), layout::widen_u8(self.src_mit_mode), layout::widen_u8(self.src_tilesplit_size), layout::widen_u8(self.src_bank_w), layout::widen_u8(self.src_bank_h), layout::widen_u8(self.src_num_bank), layout::widen_u8(self.src_mat_aspt), layout::widen_u8(self.src_pipe_config), layout::widen_u16(self.dst_x), layout::widen_u16(self.dst_y), layout::widen_u16(self.dst_z), layout::widen_u16(self.dst_pitch_in_tile), self.dst_slice_pitch, layout::widen_u8(self.dst_element_size), layout::widen_u8(self.dst_array_mode), layout::widen_u8(self.dst_mit_mode), layout::widen_u8(self.dst_tilesplit_size), layout::widen_u8(self.dst_bank_w), layout::widen_u8(self.dst_bank_h), layout::widen_u8(self.dst_num_bank), layout::widen_u8(self.dst_mat_aspt), layout::widen_u8(self.dst_pipe_config), layout::widen_u16(self.rect_x), layout::widen_u16(self.rect_y), layout::widen_u16(self.rect_z), layout::widen_u8(self.dst_sw), layout::widen_u8(self.src_sw)];
        let joins = Self::exec_join_fields();
        let jvals: Vec<u64> = vec![self.src_addr, self.dst_addr];
        proof {
            assert(vals@ =~= self.bit_values());
            assert(jvals@ =~= self.join_values());
        }
        encode_bit_fields(&bits, &vals, buff);
        encode_join_fields(&joins, &jvals, buff);
        Self::STATIC_DWORDS
    }

    /// Reads the packet at the start of `buff` and returns how many dwords it
    /// took.
    #[verifier::rlimit(40)]
    pub fn partial_decode_linear(buff: &[u32]) -> (r: (usize, Self))
        requires
            Self::decodable(buff@),
        ensures
            r.0 == r.1.size(),
            r.1.read_from(buff@),
    {
        let bits = Self::exec_bit_fields();
        let v = decode_bit_fields(&bits, buff);
        let joins = Self::exec_join_fields();
        let j = decode_join_fields(&joins, buff);
        let p = Self { src_x: layout::narrow_u16(v[0]), src_y: layout::narrow_u16(v[1]), src_z: layout::narrow_u16(v[2]), src_pitch_in_tile: layout::narrow_u16(v[3]), src_slice_pitch: v[4], src_element_size: layout::narrow_u8(v[5]), src_array_mode: layout::narrow_u8(v[6]), src_mit_mode: layout::narrow_u8(v[7]), src_tilesplit_size: layout::narrow_u8(v[8]), src_bank_w: layout::narrow_u8(v[9]), src_bank_h: layout::narrow_u8(v[10]), src_num_bank: layout::narrow_u8(v[11]), src_mat_aspt: layout::narrow_u8(v[12]), src_pipe_config: layout::narrow_u8(v[13]), dst_x: layout::narrow_u16(v[14]), dst_y: layout::narrow_u16(v[15]), dst_z: layout::narrow_u16(v[16]), dst_pitch_in_tile: layout::narrow_u16(v[17]), dst_slice_pitch: v[18], dst_element_size: layout::narrow_u8(v[19]), dst_array_mode: layout::narrow_u8(v[20]), dst_mit_mode: layout::narrow_u8(v[21]), dst_tilesplit_size: layout::narrow_u8(v[22]), dst_bank_w: layout::narrow_u8(v[23]), dst_bank_h: layout::narrow_u8(v[24]), dst_num_bank: layout::narrow_u8(v[25]), dst_mat_aspt: layout::narrow_u8(v[26]), dst_pipe_config: layout::narrow_u8(v[27]), rect_x: layout::narrow_u16(v[28]), rect_y: layout::narrow_u16(v[29]), rect_z: layout::narrow_u16(v[30]), dst_sw: layout::narrow_u8(v[31]), src_sw: layout::narrow_u8(v[32]), src_addr: j[0], dst_addr: j[1] };
        proof {
            assert(p.bit_values() =~= v@);
            assert(p.join_values() =~= j@);
        }
        (Self::STATIC_DWORDS, p)
    }

    /// Where each field stands in a buffer that the packet is read from, as
    /// the packet header lays it out: a bit field under its mask and shift
    /// in its dword, a 64-bit field in two dwords, low half first. By
    /// `lemma_roundtrip`, encoding a packet puts its fields there.
    #[verifier::rlimit(40)]
    pub proof fn lemma_field_positions(self, buf: Seq<u32>)
        requires
            self.read_from(buf),
        ensures
            layout::u16_value(self.src_x) == layout::get_bits(buf[3], 0x3fff, 0),
            layout::u16_value(self.src_y) == layout::get_bits(buf[3], 0x3fff, 16),
            layout::u16_value(self.src_z) == layout::get_bits(buf[4], 0x7ff, 0),
            layout::u16_value(self.src_pitch_in_tile) == layout::get_bits(buf[4], 0xfff, 16),
            self.src_slice_pitch == layout::get_bits(buf[5], 0x3fffff, 0),
            layout::u8_value(self.src_element_size) == layout::get_bits(buf[6], 0x7, 0),
            layout::u8_value(self.src_array_mode) == layout::get_bits(buf[6], 0xf, 3),
            layout::u8_value(self.src_mit_mode) == layout::get_bits(buf[6], 0x7, 8),
            layout::u8_value(self.src_tilesplit_size) == layout::get_bits(buf[6], 0x7, 11),
            layout::u8_value(self.src_bank_w) == layout::get_bits(buf[6], 0x3, 15),
            layout::u8_value(self.src_bank_h) == layout::get_bits(buf[6], 0x3, 18),
            layout::u8_value(self.src_num_bank) == layout::get_bits(buf[6], 0x3, 21),
            layout::u8_value(self.src_mat_aspt) == layout::get_bits(buf[6], 0x3, 24),
            layout::u8_value(self.src_pipe_config) == layout::get_bits(buf[6], 0x1f, 26),
            layout::u16_value(self.dst_x) == layout::get_bits(buf[9], 0x3fff, 0),
            layout::u16_value(self.dst_y) == layout::get_bits(buf[9], 0x3fff, 16),
            layout::u16_value(self.dst_z) == layout::get_bits(buf[10], 0x7ff, 0),
            layout::u16_value(self.dst_pitch_in_tile) == layout::get_bits(buf[10], 0xfff, 16),
            self.dst_slice_pitch == layout::get_bits(buf[11], 0x3fffff, 0),
            layout::u8_value(self.dst_element_size) == layout::get_bits(buf[12], 0x7, 0),
            layout::u8_value(self.dst_array_mode) == layout::get_bits(buf[12], 0xf, 3),
            layout::u8_value(self.dst_mit_mode) == layout::get_bits(buf[12], 0x7, 8),
            layout::u8_value(self.dst_tilesplit_size) == layout::get_bits(buf[12], 0x7, 11),
            layout::u8_value(self.dst_bank_w) == layout::get_bits(buf[12], 0x3, 15),
            layout::u8_value(self.dst_bank_h) == layout::get_bits(buf[12], 0x3, 18),
            layout::u8_value(self.dst_num_bank) == layout::get_bits(buf[12], 0x3, 21),
            layout::u8_value(self.dst_mat_aspt) == layout::get_bits(buf[12], 0x3, 24),
            layout::u8_value(self.dst_pipe_config) == layout::get_bits(buf[12], 0x1f, 26),
            layout::u16_value(self.rect_x) == layout::get_bits(buf[13], 0x3fff, 0),
            layout::u16_value(self.rect_y) == layout::get_bits(buf[13], 0x3fff, 16),
            layout::u16_value(self.rect_z) == layout::get_bits(buf[14], 0x7ff, 0),
            layout::u8_value(self.dst_sw) == layout::get_bits(buf[14], 0x3, 16),
            layout::u8_value(self.src_sw) == layout::get_bits(buf[14], 0x3, 24),
            self.src_addr == layout::dword_pair(buf[1], buf[2]),
            self.dst_addr == layout::dword_pair(buf[7], buf[8]),
    {
        assert(self.bit_values()[0] == layout::u16_value(self.src_x));
        assert(layout::decode_bits(buf, Self::bit_fields())[0] == self.bit_values()[0]);
        assert(self.bit_values()[1] == layout::u16_value(self.src_y));
        assert(layout::decode_bits(buf, Self::bit_fields())[1] == self.bit_values()[1]);
        assert(self.bit_values()[2] == layout::u16_value(self.src_z));
        assert(layout::decode_bits(buf, Self::bit_fields())[2] == self.bit_values()[2]);
        assert(self.bit_values()[3] == layout::u16_value(self.src_pitch_in_tile));
        assert(layout::decode_bits(buf, Self::bit_fields())[3] == self.bit_values()[3]);
        assert(self.bit_values()[4] == self.src_slice_pitch);
        assert(layout::decode_bits(buf, Self::bit_fields())[4] == self.bit_values()[4]);
        assert(self.bit_values()[5] == layout::u8_value(self.src_element_size));
        assert(layout::decode_bits(buf, Self::bit_fields())[5] == self.bit_values()[5]);
        assert(self.bit_values()[6] == layout::u8_value(self.src_array_mode));
        assert(layout::decode_bits(buf, Self::bit_fields())[6] == self.bit_values()[6]);
        assert(self.bit_values()[7] == layout::u8_value(self.src_mit_mode));
        assert(layout::decode_bits(buf, Self::bit_fields())[7] == self.bit_values()[7]);
        assert(self.bit_values()[8] == layout::u8_value(self.src_tilesplit_size));
        assert(layout::decode_bits(buf, Self::bit_fields())[8] == self.bit_values()[8]);
        assert(self.bit_values()[9] == layout::u8_value(self.src_bank_w));
        assert(layout::decode_bits(buf, Self::bit_fields())[9] == self.bit_values()[9]);
        assert(self.bit_values()[10] == layout::u8_value(self.src_bank_h));
        assert(layout::decode_bits(buf, Self::bit_fields())[10] == self.bit_values()[10]);
        assert(self.bit_values()[11] == layout::u8_value(self.src_num_bank));
        assert(layout::decode_bits(buf, Self::bit_fields())[11] == self.bit_values()[11]);
        assert(self.bit_values()[12] == layout::u8_value(self.src_mat_aspt));
        assert(layout::decode_bits(buf, Self::bit_fields())[12] == self.bit_values()[12]);
        assert(self.bit_values()[13] == layout::u8_value(self.src_pipe_config));
        assert(layout::decode_bits(buf, Self::bit_fields())[13] == self.bit_values()[13]);
        assert(self.bit_values()[14] == layout::u16_value(self.dst_x));
        assert(layout::decode_bits(buf, Self::bit_fields())[14] == self.bit_values()[14]);
        assert(self.bit_values()[15] == layout::u16_value(self.dst_y));
        assert(layout::decode_bits(buf, Self::bit_fields())[15] == self.bit_values()[15]);
        assert(self.bit_values()[16] == layout::u16_value(self.dst_z));
        assert(layout::decode_bits(buf, Self::bit_fields())[16] == self.bit_values()[16]);
        assert(self.bit_values()[17] == layout::u16_value(self.dst_pitch_in_tile));
        assert(layout::decode_bits(buf, Self::bit_fields())[17] == self.bit_values()[17]);
        assert(self.bit_values()[18] == self.dst_slice_pitch);
        assert(layout::decode_bits(buf, Self::bit_fields())[18] == self.bit_values()[18]);
        assert(self.bit_values()[19] == layout::u8_value(self.dst_element_size));
        assert(layout::decode_bits(buf, Self::bit_fields())[19] == self.bit_values()[19]);
        assert(self.bit_values()[20] == layout::u8_value(self.dst_array_mode));
        assert(layout::decode_bits(buf, Self::bit_fields())[20] == self.bit_values()[20]);
        assert(self.bit_values()[21] == layout::u8_value(self.dst_mit_mode));
        assert(layout::decode_bits(buf, Self::bit_fields())[21] == self.bit_values()[21]);
        assert(self.bit_values()[22] == layout::u8_value(self.dst_tilesplit_size));
        assert(layout::decode_bits(buf, Self::bit_fields())[22] == self.bit_values()[22]);
        assert(self.bit_values()[23] == layout::u8_value(self.dst_bank_w));
        assert(layout::decode_bits(buf, Self::bit_fields())[23] == self.bit_values()[23]);
        assert(self.bit_values()[24] == layout::u8_value(self.dst_bank_h));
        assert(layout::decode_bits(buf, Self::bit_fields())[24] == self.bit_values()[24]);
        assert(self.bit_values()[25] == layout::u8_value(self.dst_num_bank));
        assert(layout::decode_bits(buf, Self::bit_fields())[25] == self.bit_values()[25]);
        assert(self.bit_values()[26] == layout::u8_value(self.dst_mat_aspt));
        assert(layout::decode_bits(buf, Self::bit_fields())[26] == self.bit_values()[26]);
        assert(self.bit_values()[27] == layout::u8_value(self.dst_pipe_config));
        assert(layout::decode_bits(buf, Self::bit_fields())[27] == self.bit_values()[27]);
        assert(self.bit_values()[28] == layout::u16_value(self.rect_x));
        assert(layout::decode_bits(buf, Self::bit_fields())[28] == self.bit_values()[28]);
        assert(self.bit_values()[29] == layout::u16_value(self.rect_y));
        assert(layout::decode_bits(buf, Self::bit_fields())[29] == self.bit_values()[29]);
        assert(self.bit_values()[30] == layout::u16_value(self.rect_z));
        assert(layout::decode_bits(buf, Self::bit_fields())[30] == self.bit_values()[30]);
        assert(self.bit_values()[31] == layout::u8_value(self.dst_sw));
        assert(layout::decode_bits(buf, Self::bit_fields())[31] == self.bit_values()[31]);
        assert(self.bit_values()[32] == layout::u8_value(self.src_sw));
        assert(layout::decode_bits(buf, Self::bit_fields())[32] == self.bit_values()[32]);
        assert(layout::decode_joins(buf, Self::join_fields())[0] == self.join_values()[0]);
        assert(layout::decode_joins(buf, Self::join_fields())[1] == self.join_values()[1]);
    }

    /// The field values name the packet: two packets with the same values are
    /// equal.
    #[verifier::rlimit(40)]
    pub proof fn lemma_values_determine(a: Self, b: Self)
        requires
            a.bit_values() == b.bit_values(),
            a.join_values() == b.join_values(),
            a.tail_data() == b.tail_data(),
        ensures
            a == b,
    {
        assert(a.bit_values()[0] == layout::u16_value(a.src_x) && b.bit_values()[0] == layout::u16_value(b.src_x));
        assert(a.bit_values()[1] == layout::u16_value(a.src_y) && b.bit_values()[1] == layout::u16_value(b.src_y));
        assert(a.bit_values()[2] == layout::u16_value(a.src_z) && b.bit_values()[2] == layout::u16_value(b.src_z));
        assert(a.bit_values()[3] == layout::u16_value(a.src_pitch_in_tile) && b.bit_values()[3] == layout::u16_value(b.src_pitch_in_tile));
        assert(a.bit_values()[4] == a.src_slice_pitch && b.bit_values()[4] == b.src_slice_pitch);
        assert(a.bit_values()[5] == layout::u8_value(a.src_element_size) && b.bit_values()[5] == layout::u8_value(b.src_element_size));
        assert(a.bit_values()[6] == layout::u8_value(a.src_array_mode) && b.bit_values()[6] == layout::u8_value(b.src_array_mode));
        assert(a.bit_values()[7] == layout::u8_value(a.src_mit_mode) && b.bit_values()[7] == layout::u8_value(b.src_mit_mode));
        assert(a.bit_values()[8] == layout::u8_value(a.src_tilesplit_size) && b.bit_values()[8] == layout::u8_value(b.src_tilesplit_size));
        assert(a.bit_values()[9] == layout::u8_value(a.src_bank_w) && b.bit_values()[9] == layout::u8_value(b.src_bank_w));
        assert(a.bit_values()[10] == layout::u8_value(a.src_bank_h) && b.bit_values()[10] == layout::u8_value(b.src_bank_h));
        assert(a.bit_values()[11] == layout::u8_value(a.src_num_bank) && b.bit_values()[11] == layout::u8_value(b.src_num_bank));
        assert(a.bit_values()[12] == layout::u8_value(a.src_mat_aspt) && b.bit_values()[12] == layout::u8_value(b.src_mat_aspt));
        assert(a.bit_values()[13] == layout::u8_value(a.src_pipe_config) && b.bit_values()[13] == layout::u8_value(b.src_pipe_config));
        assert(a.bit_values()[14] == layout::u16_value(a.dst_x) && b.bit_values()[14] == layout::u16_value(b.dst_x));
        assert(a.bit_values()[15] == layout::u16_value(a.dst_y) && b.bit_values()[15] == layout::u16_value(b.dst_y));
        assert(a.bit_values()[16] == layout::u16_value(a.dst_z) && b.bit_values()[16] == layout::u16_value(b.dst_z));
        assert(a.bit_values()[17] == layout::u16_value(a.dst_pitch_in_tile) && b.bit_values()[17] == layout::u16_value(b.dst_pitch_in_tile));
        assert(a.bit_values()[18] == a.dst_slice_pitch && b.bit_values()[18] == b.dst_slice_pitch);
        assert(a.bit_values()[19] == layout::u8_value(a.dst_element_size) && b.bit_values()[19] == layout::u8_value(b.dst_element_size));
        assert(a.bit_values()[20] == layout::u8_value(a.dst_array_mode) && b.bit_values()[20] == layout::u8_value(b.dst_array_mode));
        assert(a.bit_values()[21] == layout::u8_value(a.dst_mit_mode) && b.bit_values()[21] == layout::u8_value(b.dst_mit_mode));
        assert(a.bit_values()[22] == layout::u8_value(a.dst_tilesplit_size) && b.bit_values()[22] == layout::u8_value(b.dst_tilesplit_size));
        assert(a.bit_values()[23] == layout::u8_value(a.dst_bank_w) && b.bit_values()[23] == layout::u8_value(b.dst_bank_w));
        assert(a.bit_values()[24] == layout::u8_value(a.dst_bank_h) && b.bit_values()[24] == layout::u8_value(b.dst_bank_h));
        assert(a.bit_values()[25] == layout::u8_value(a.dst_num_bank) && b.bit_values()[25] == layout::u8_value(b.dst_num_bank));
        assert(a.bit_values()[26] == layout::u8_value(a.dst_mat_aspt) && b.bit_values()[26] == layout::u8_value(b.dst_mat_aspt));
        assert(a.bit_values()[27] == layout::u8_value(a.dst_pipe_config) && b.bit_values()[27] == layout::u8_value(b.dst_pipe_config));
        assert(a.bit_values()[28] == layout::u16_value(a.rect_x) && b.bit_values()[28] == layout::u16_value(b.rect_x));
        assert(a.bit_values()[29] == layout::u16_value(a.rect_y) && b.bit_values()[29] == layout::u16_value(b.rect_y));
        assert(a.bit_values()[30] == layout::u16_value(a.rect_z) && b.bit_values()[30] == layout::u16_value(b.rect_z));
        assert(a.bit_values()[31] == layout::u8_value(a.dst_sw) && b.bit_values()[31] == layout::u8_value(b.dst_sw));
        assert(a.bit_values()[32] == layout::u8_value(a.src_sw) && b.bit_values()[32] == layout::u8_value(b.src_sw));
        assert(a.join_values()[0] == a.src_addr && b.join_values()[0] == b.src_addr);
        assert(a.join_values()[1] == a.dst_addr && b.join_values()[1] == b.dst_addr);
    }

    /// Reading a packet is exact: two packets read from one buffer are equal.
    pub proof fn lemma_read_unique(a: Self, b: Self, buf: Seq<u32>)
        requires
            a.read_from(buf),
            b.read_from(buf),
        ensures
            a == b,
    {
        layout::lemma_reads_determine(
            buf,
            Self::bit_fields(),
            a.bit_values(),
            b.bit_values(),
            Self::join_fields(),
            a.join_values(),
            b.join_values(),
            Self::tail(),
            a.tail_data(),
            b.tail_data(),
        );
        Self::lemma_values_determine(a, b);
    }

    /// A packet reads back from what it was encoded to.
    pub proof fn lemma_roundtrip(self, buf: Seq<u32>)
        requires
            Self::layout_wf(),
            self.fits(),
            buf.len() >= self.size(),
        ensures
            self.read_from(self.spec_encode(buf)),
            Self::decodable(self.spec_encode(buf)),
            self.spec_encode(buf).len() == buf.len(),
    {
        layout::lemma_packet_roundtrip(
            buf,
            Self::bit_fields(),
            self.bit_values(),
            Self::join_fields(),
            self.join_values(),
            Self::tail(),
            self.tail_data(),
            Self::STATIC_DWORDS as nat,
        );
    }
}

/// The `WriteUntiled` packet.
#[derive(Clone, Copy, Default)]
pub struct WriteUntiled<'a> {
    pub encrypt: bool,
    pub tmz: bool,
    pub sw: u8,
    pub dst_addr: u64,
    pub data: &'a [u32],
}

impl<'a> WriteUntiled<'a> {
    /// Dwords of the packet before its variable-length tail.
    pub const STATIC_DWORDS: usize = 4;

    pub open spec fn bit_fields() -> Seq<BitField> {
        seq![BitField { dw: 0, mask: 0x1, shift: 16 }, BitField { dw: 0, mask: 0x1, shift: 18 }, BitField { dw: 3, mask: 0x3, shift: 24 }]
    }

    pub open spec fn join_fields() -> Seq<JoinField> {
        seq![JoinField { lo: 1, hi: 2 }]
    }

    pub open spec fn tail() -> Option<DynField> {
        Some(DynField { start: 4, len_dw: 3, mask: 0x3fffff, shift: 0 })
    }

    pub open spec fn bit_values(self) -> Seq<u32> {
        seq![layout::bool_bit(self.encrypt), layout::bool_bit(self.tmz), self.sw as u32]
    }

    pub open spec fn join_values(self) -> Seq<u64> {
        seq![self.dst_addr]
    }

    pub open spec fn tail_data(self) -> Seq<u32> {
        self.data@
    }

    /// Every field value fits its field.
    pub open spec fn fits(self) -> bool {
        layout::fields_fit(Self::bit_fields(), self.bit_values()) && layout::tail_fits(Self::tail(), self.tail_data())
    }

    pub open spec fn layout_wf() -> bool {
        layout::layout_wf(Self::bit_fields(), Self::join_fields(), Self::tail(), Self::STATIC_DWORDS as nat)
    }

    /// Dwords that the packet takes.
    pub open spec fn size(self) -> nat {
        (Self::STATIC_DWORDS + self.tail_data().len()) as nat
    }

    /// The buffer holds the whole packet, tail included.
    pub open spec fn decodable(buf: Seq<u32>) -> bool {
        buf.len() >= Self::STATIC_DWORDS && Self::STATIC_DWORDS + layout::read_dyn_len(buf, Self::tail().unwrap()) <= buf.len()
    }

    pub open spec fn spec_encode(self, buf: Seq<u32>) -> Seq<u32> {
        layout::encode_packet(
            buf,
            Self::bit_fields(),
            self.bit_values(),
            Self::join_fields(),
            self.join_values(),
            Self::tail(),
            self.tail_data(),
        )
    }

    /// `buf` holds this packet.
    pub open spec fn read_from(self, buf: Seq<u32>) -> bool {
        layout::packet_reads(
            buf,
            Self::bit_fields(),
            self.bit_values(),
            Self::join_fields(),
            self.join_values(),
            Self::tail(),
            self.tail_data(),
        )
    }

    fn exec_bit_fields() -> (r: Vec<BitField>)
        ensures
            r@ == Self::bit_fields(),
    {
        vec![BitField { dw: 0, mask: 0x1, shift: 16 }, BitField { dw: 0, mask: 0x1, shift: 18 }, BitField { dw: 3, mask: 0x3, shift: 24 }]
    }

    fn exec_join_fields() -> (r: Vec<JoinField>)
        ensures
            r@ == Self::join_fields(),
    {
        vec![JoinField { lo: 1, hi: 2 }]
    }

    /// Whether the field layout of this packet is well formed.
    pub fn layout_ok() -> (r: bool)
        ensures
            r == Self::layout_wf(),
    {
        layout_is_wf(&Self::exec_bit_fields(), &Self::exec_join_fields(), Some(DynField { start: 4, len_dw: 3, mask: 0x3fffff, shift: 0 }), Self::STATIC_DWORDS)
    }

    /// Writes the packet to the start of `buff`, without its header, and
    /// returns how many dwords it took.
    pub fn partial_encode_linear(&self, buff: &mut [u32]) -> (n: usize)
        requires
            old(buff)@.len() >= self.size(),
            self.fits(),
        ensures
            n == self.size(),
            final(buff)@ == self.spec_encode(old(buff)@),
            final(buff)@.len() == old(buff)@.len(),
    {
        let bits = Self::exec_bit_fields();
        let vals: Vec<u32> = vec![to_bit(self.encrypt), to_bit(self.tmz), layout::widen_u8(self.sw)];
        let joins = Self::exec_join_fields();
        let jvals: Vec<u64> = vec![self.dst_addr];
        proof {
            assert(vals@ =~= self.bit_values());
            assert(jvals@ =~= self.join_values());
        }
        encode_bit_fields(&bits, &vals, buff);
        encode_join_fields(&joins, &jvals, buff);
        encode_tail(DynField { start: 4, len_dw: 3, mask: 0x3fffff, shift: 0 }, self.data, buff);
        Self::STATIC_DWORDS + self.data.len()
    }

    /// Reads the packet at the start of `buff` and returns how many dwords it
    /// took.
    pub fn partial_decode_linear(buff: &'a [u32]) -> (r: (usize, Self))
        requires
            Self::decodable(buff@),
        ensures
            r.0 == r.1.size(),
            r.1.read_from(buff@),
    {
        let bits = Self::exec_bit_fields();
        let v = decode_bit_fields(&bits, buff);
        let joins = Self::exec_join_fields();
        let j = decode_join_fields(&joins, buff);
        let data = decode_tail(DynField { start: 4, len_dw: 3, mask: 0x3fffff, shift: 0 }, buff);
        let p = Self { encrypt: v[0] != 0, tmz: v[1] != 0, sw: layout::narrow_u8(v[2]), dst_addr: j[0], data };
        proof {
            assert(p.bit_values() =~= v@);
            assert(p.join_values() =~= j@);
        }
        (Self::STATIC_DWORDS + p.data.len(), p)
    }

    /// Where each field stands in a buffer that the packet is read from, as
    /// the packet header lays it out: a bit field under its mask and shift
    /// in its dword, a 64-bit field in two dwords, low half first. By
    /// `lemma_roundtrip`, encoding a packet puts its fields there.
    pub proof fn lemma_field_positions(self, buf: Seq<u32>)
        requires
            self.read_from(buf),
        ensures
            layout::bool_bit(self.encrypt) == layout::get_bits(buf[0], 0x1, 16),
            layout::bool_bit(self.tmz) == layout::get_bits(buf[0], 0x1, 18),
            layout::u8_value(self.sw) == layout::get_bits(buf[3], 0x3, 24),
            self.dst_addr == layout::dword_pair(buf[1], buf[2]),
            self.data@ == buf.subrange(4, 4 + layout::get_bits(buf[3], 0x3fffff, 0)),
    {
        assert(self.bit_values()[0] == layout::bool_bit(self.encrypt));
        assert(layout::decode_bits(buf, Self::bit_fields())[0] == self.bit_values()[0]);
        assert(self.bit_values()[1] == layout::bool_bit(self.tmz));
        assert(layout::decode_bits(buf, Self::bit_fields())[1] == self.bit_values()[1]);
        assert(self.bit_values()[2] == layout::u8_value(self.sw));
        assert(layout::decode_bits(buf, Self::bit_fields())[2] == self.bit_values()[2]);
        assert(layout::decode_joins(buf, Self::join_fields())[0] == self.join_values()[0]);
    }

    /// The field values name the packet: two packets with the same values are
    /// equal.
    pub proof fn lemma_values_determine(a: Self, b: Self)
        requires
            a.bit_values() == b.bit_values(),
            a.join_values() == b.join_values(),
            a.tail_data() == b.tail_data(),
        ensures
            a == b,
    {
        assert(a.bit_values()[0] == layout::bool_bit(a.encrypt) && b.bit_values()[0] == layout::bool_bit(b.encrypt));
        assert(a.bit_values()[1] == layout::bool_bit(a.tmz) && b.bit_values()[1] == layout::bool_bit(b.tmz));
        assert(a.bit_values()[2] == layout::u8_value(a.sw) && b.bit_values()[2] == layout::u8_value(b.sw));
        assert(a.join_values()[0] == a.dst_addr && b.join_values()[0] == b.dst_addr);
        assert(a.data@ =~= b.data@);
        assert(a.data =~= b.data);
    }

    /// Reading a packet is exact: two packets read from one buffer are equal.
    pub proof fn lemma_read_unique(a: Self, b: Self, buf: Seq<u32>)
        requires
            a.read_from(buf),
            b.read_from(buf),
        ensures
            a == b,
    {
        layout::lemma_reads_determine(
            buf,
            Self::bit_fields(),
            a.bit_values(),
            b.bit_values(),
            Self::join_fields(),
            a.join_values(),
            b.join_values(),
            Self::tail(),
            a.tail_data(),
            b.tail_data(),
        );
        Self::lemma_values_determine(a, b);
    }

    /// A packet reads back from what it was encoded to.
    pub proof fn lemma_roundtrip(self, buf: Seq<u32>)
        requires
            Self::layout_wf(),
            self.fits(),
            buf.len() >= self.size(),
        ensures
            self.read_from(self.spec_encode(buf)),
            Self::decodable(self.spec_encode(buf)),
            self.spec_encode(buf).len() == buf.len(),
    {
        layout::lemma_packet_roundtrip(
            buf,
            Self::bit_fields(),
            self.bit_values(),
            Self::join_fields(),
            self.join_values(),
            Self::tail(),
            self.tail_data(),
            Self::STATIC_DWORDS as nat,
        );
    }
}

/// The `WriteTiled` packet.
#[derive(Clone, Copy, Default)]
pub struct WriteTiled<'a> {
    pub pitch_in_tile: u16,
    pub height: u16,
    pub slice_pitch: u32,
    pub element_size: u8,
    pub array_mode: u8,
    pub mit_mode: u8,
    pub tilesplit_size: u8,
    pub bank_w: u8,
    pub bank_h: u8,
    pub num_bank: u8,
    pub mat_aspt: u8,
    pub pipe_config: u8,
    pub x: u16,
    pub y: u16,
    pub z: u16,
    pub sw: u8,
    pub dst_addr: u64,
    pub data: &'a [u32],
}

impl<'a> WriteTiled<'a> {
    /// Dwords of the packet before its variable-length tail.
    pub const STATIC_DWORDS: usize = 9;

    pub open spec fn bit_fields() -> Seq<BitField> {
        seq![BitField { dw: 3, mask: 0x7ff, shift: 0 }, BitField { dw: 3, mask: 0x3fff, shift: 16 }, BitField { dw: 4, mask: 0x3fffff, shift: 0 }, BitField { dw: 5, mask: 0x7, shift: 0 }, BitField { dw: 5, mask: 0xf, shift: 3 }, BitField { dw: 5, mask: 0x7, shift: 8 }, BitField { dw: 5, mask: 0x7, shift: 11 }, BitField { dw: 5, mask: 0x3, shift: 15 }, BitField { dw: 5, mask: 0x3, shift: 18 }, BitField { dw: 5, mask: 0x3, shift: 21 }, BitField { dw: 5, mask: 0x3, shift: 24 }, BitField { dw: 5, mask: 0x1f, shift: 26 }, BitField { dw: 6, mask: 0x3fff, shift: 0 }, BitField { dw: 6, mask: 0x3fff, shift: 16 }, BitField { dw: 7, mask: 0xfff, shift: 0 }, BitField { dw: 7, mask: 0x3, shift: 24 }]
    }

    pub open spec fn join_fields() -> Seq<JoinField> {
        seq![JoinField { lo: 1, hi: 2 }]
    }

    pub open spec fn tail() -> Option<DynField> {
        Some(DynField { start: 9, len_dw: 8, mask: 0x3fffff, shift: 0 })
    }

    pub open spec fn bit_values(self) -> Seq<u32> {
        seq![self.pitch_in_tile as u32, self.height as u32, self.slice_pitch, self.element_size as u32, self.array_mode as u32, self.mit_mode as u32, self.tilesplit_size as u32, self.bank_w as u32, self.bank_h as u32, self.num_bank as u32, self.mat_aspt as u32, self.pipe_config as u32, self.x as u32, self.y as u32, self.z as u32, self.sw as u32]
    }

    pub open spec fn join_values(self) -> Seq<u64> {
        seq![self.dst_addr]
    }

    pub open spec fn tail_data(self) -> Seq<u32> {
        self.data@
    }

    /// Every field value fits its field.
    pub open spec fn fits(self) -> bool {
        layout::fields_fit(Self::bit_fields(), self.bit_values()) && layout::tail_fits(Self::tail(), self.tail_data())
    }

    pub open spec fn layout_wf() -> bool {
        layout::layout_wf(Self::bit_fields(), Self::join_fields(), Self::tail(), Self::STATIC_DWORDS as nat)
    }

    /// Dwords that the packet takes.
    pub open spec fn size(self) -> nat {
        (Self::STATIC_DWORDS + self.tail_data().len()) as nat
    }

    /// The buffer holds the whole packet, tail included.
    pub open spec fn decodable(buf: Seq<u32>) -> bool {
        buf.len() >= Self::STATIC_DWORDS && Self::STATIC_DWORDS + layout::read_dyn_len(buf, Self::tail().unwrap()) <= buf.len()
    }

    pub open spec fn spec_encode(self, buf: Seq<u32>) -> Seq<u32> {
        layout::encode_packet(
            buf,
            Self::bit_fields(),
            self.bit_values(),
            Self::join_fields(),
            self.join_values(),
            Self::tail(),
            self.tail_data(),
        )
    }

    /// `buf` holds this packet.
    pub open spec fn read_from(self, buf: Seq<u32>) -> bool {
        layout::packet_reads(
            buf,
            Self::bit_fields(),
            self.bit_values(),
            Self::join_fields(),
            self.join_values(),
            Self::tail(),
            self.tail_data(),
        )
    }

    fn exec_bit_fields() -> (r: Vec<BitField>)
        ensures
            r@ == Self::bit_fields(),
    {
        vec![BitField { dw: 3, mask: 0x7ff, shift: 0 }, BitField { dw: 3, mask: 0x3fff, shift: 16 }, BitField { dw: 4, mask: 0x3fffff, shift: 0 }, BitField { dw: 5, mask: 0x7, shift: 0 }, BitField { dw: 5, mask: 0xf, shift: 3 }, BitField { dw: 5, mask: 0x7, shift: 8 }, BitField { dw: 5, mask: 0x7, shift: 11 }, BitField { dw: 5, mask: 0x3, shift: 15 }, BitField { dw: 5, mask: 0x3, shift: 18 }, BitField { dw: 5, mask: 0x3, shift: 21 }, BitField { dw: 5, mask: 0x3, shift: 24 }, BitField { dw: 5, mask: 0x1f, shift: 26 }, BitField { dw: 6, mask: 0x3fff, shift: 0 }, BitField { dw: 6, mask: 0x3fff, shift: 16 }, BitField { dw: 7, mask: 0xfff, shift: 0 }, BitField { dw: 7, mask: 0x3, shift: 24 }]
    }

    fn exec_join_fields() -> (r: Vec<JoinField>)
        ensures
            r@ == Self::join_fields(),
    {
        vec![JoinField { lo: 1, hi: 2 }]
    }

    /// Whether the field layout of this packet is well formed.
    pub fn layout_ok() -> (r: bool)
        ensures
            r == Self::layout_wf(),
    {
        layout_is_wf(&Self::exec_bit_fields(), &Self::exec_join_fields(), Some(DynField { start: 9, len_dw: 8, mask: 0x3fffff, shift: 0 }), Self::STATIC_DWORDS)
    }

    /// Writes the packet to the start of `buff`, without its header, and
    /// returns how many dwords it took.
    pub fn partial_encode_linear(&self, buff: &mut [u32]) -> (n: usize)
        requires
            old(buff)@.len() >= self.size(),
            self.fits(),
        ensures
            n == self.size(),
            final(buff)@ == self.spec_encode(old(buff)@),
            final(buff)@.len() == old(buff)@.len(),
    {
        let bits = Self::exec_bit_fields();
        let vals: Vec<u32> = vec![layout::widen_u16(self.pitch_in_tile), layout::widen_u16(self.height), self.slice_pitch, layout::widen_u8(self.element_size), layout::widen_u8(self.array_mode), layout::widen_u8(self.mit_mode), layout::widen_u8(self.tilesplit_size), layout::widen_u8(self.bank_w), layout::widen_u8(self.bank_h), layout::widen_u8(self.num_bank), layout::widen_u8(self.mat_aspt), layout::widen_u8(self.pipe_config), layout::widen_u16(self.x), layout::widen_u16(self.y), layout::widen_u16(self.z), layout::widen_u8(self.sw)];
        let joins = Self::exec_join_fields();
        let jvals: Vec<u64> = vec![self.dst_addr];
        proof {
            assert(vals@ =~= self.bit_values());
            assert(jvals@ =~= self.join_values());
        }
        encode_bit_fields(&bits, &vals, buff);
        encode_join_fields(&joins, &jvals, buff);
        encode_tail(DynField { start: 9, len_dw: 8, mask: 0x3fffff, shift: 0 }, self.data, buff);
        Self::STATIC_DWORDS + self.data.len()
    }

    /// Reads the packet at the start of `buff` and returns how many dwords it
    /// took.
    pub fn partial_decode_linear(buff: &'a [u32]) -> (r: (usize, Self))
        requires
            Self::decodable(buff@),
        ensures
            r.0 == r.1.size(),
            r.1.read_from(buff@),
    {
        let bits = Self::exec_bit_fields();
        let v = decode_bit_fields(&bits, buff);
        let joins = Self::exec_join_fields();
        let j = decode_join_fields(&joins, buff);
        let data = decode_tail(DynField { start: 9, len_dw: 8, mask: 0x3fffff, shift: 0 }, buff);
        let p = Self { pitch_in_tile: layout::narrow_u16(v[0]), height: layout::narrow_u16(v[1]), slice_pitch: v[2], element_size: layout::narrow_u8(v[3]), array_mode: layout::narrow_u8(v[4]), mit_mode: layout::narrow_u8(v[5]), tilesplit_size: layout::narrow_u8(v[6]), bank_w: layout::narrow_u8(v[7]), bank_h: layout::narrow_u8(v[8]), num_bank: layout::narrow_u8(v[9]), mat_aspt: layout::narrow_u8(v[10]), pipe_config: layout::narrow_u8(v[11]), x: layout::narrow_u16(v[12]), y: layout::narrow_u16(v[13]), z: layout::narrow_u16(v[14]), sw: layout::narrow_u8(v[15]), dst_addr: j[0], data };
        proof {
            assert(p.bit_values() =~= v@);
            assert(p.join_values() =~= j@);
        }
        (Self::STATIC_DWORDS + p.data.len(), p)
    }

    /// Where each field stands in a buffer that the packet is read from, as
    /// the packet header lays it out: a bit field under its mask and shift
    /// in its dword, a 64-bit field in two dwords, low half first. By
    /// `lemma_roundtrip`, encoding a packet puts its fields there.
    pub proof fn lemma_field_positions(self, buf: Seq<u32>)
        requires
            self.read_from(buf),
        ensures
            layout::u16_value(self.pitch_in_tile) == layout::get_bits(buf[3], 0x7ff, 0),
            layout::u16_value(self.height) == layout::get_bits(buf[3], 0x3fff, 16),
            self.slice_pitch == layout::get_bits(buf[4], 0x3fffff, 0),
            layout::u8_value(self.element_size) == layout::get_bits(buf[5], 0x7, 0),
            layout::u8_value(self.array_mode) == layout::get_bits(buf[5], 0xf, 3),
            layout::u8_value(self.mit_mode) == layout::get_bits(buf[5], 0x7, 8),
            layout::u8_value(self.tilesplit_size) == layout::get_bits(buf[5], 0x7, 11),
            layout::u8_value(self.bank_w) == layout::get_bits(buf[5], 0x3, 15),
            layout::u8_value(self.bank_h) == layout::get_bits(buf[5], 0x3, 18),
            layout::u8_value(self.num_bank) == layout::get_bits(buf[5], 0x3, 21),
            layout::u8_value(self.mat_aspt) == layout::get_bits(buf[5], 0x3, 24),
            layout::u8_value(self.pipe_config) == layout::get_bits(buf[5], 0x1f, 26),
            layout::u16_value(self.x) == layout::get_bits(buf[6], 0x3fff, 0),
            layout::u16_value(self.y) == layout::get_bits(buf[6], 0x3fff, 16),
            layout::u16_value(self.z) == layout::get_bits(buf[7], 0xfff, 0),
            layout::u8_value(self.sw) == layout::get_bits(buf[7], 0x3, 24),
            self.dst_addr == layout::dword_pair(buf[1], buf[2]),
            self.data@ == buf.subrange(9, 9 + layout::get_bits(buf[8], 0x3fffff, 0)),
    {
        assert(self.bit_values()[0] == layout::u16_value(self.pitch_in_tile));
        assert(layout::decode_bits(buf, Self::bit_fields())[0] == self.bit_values()[0]);
        assert(self.bit_values()[1] == layout::u16_value(self.height));
        assert(layout::decode_bits(buf, Self::bit_fields())[1] == self.bit_values()[1]);
        assert(self.bit_values()[2] == self.slice_pitch);
        assert(layout::decode_bits(buf, Self::bit_fields())[2] == self.bit_values()[2]);
        assert(self.bit_values()[3] == layout::u8_value(self.element_size));
        assert(layout::decode_bits(buf, Self::bit_fields())[3] == self.bit_values()[3]);
        assert(self.bit_values()[4] == layout::u8_value(self.array_mode));
        assert(layout::decode_bits(buf, Self::bit_fields())[4] == self.bit_values()[4]);
        assert(self.bit_values()[5] == layout::u8_value(self.mit_mode));
        assert(layout::decode_bits(buf, Self::bit_fields())[5] == self.bit_values()[5]);
        assert(self.bit_values()[6] == layout::u8_value(self.tilesplit_size));
        assert(layout::decode_bits(buf, Self::bit_fields())[6] == self.bit_values()[6]);
        assert(self.bit_values()[7] == layout::u8_value(self.bank_w));
        assert(layout::decode_bits(buf, Self::bit_fields())[7] == self.bit_values()[7]);
        assert(self.bit_values()[8] == layout::u8_value(self.bank_h));
        assert(layout::decode_bits(buf, Self::bit_fields())[8] == self.bit_values()[8]);
        assert(self.bit_values()[9] == layout::u8_value(self.num_bank));
        assert(layout::decode_bits(buf, Self::bit_fields())[9] == self.bit_values()[9]);
        assert(self.bit_values()[10] == layout::u8_value(self.mat_aspt));
        assert(layout::decode_bits(buf, Self::bit_fields())[10] == self.bit_values()[10]);
        assert(self.bit_values()[11] == layout::u8_value(self.pipe_config));
        assert(layout::decode_bits(buf, Self::bit_fields())[11] == self.bit_values()[11]);
        assert(self.bit_values()[12] == layout::u16_value(self.x));
        assert(layout::decode_bits(buf, Self::bit_fields())[12] == self.bit_values()[12]);
        assert(self.bit_values()[13] == layout::u16_value(self.y));
        assert(layout::decode_bits(buf, Self::bit_fields())[13] == self.bit_values()[13]);
        assert(self.bit_values()[14] == layout::u16_value(self.z));
        assert(layout::decode_bits(buf, Self::bit_fields())[14] == self.bit_values()[14]);
        assert(self.bit_values()[15] == layout::u8_value(self.sw));
        assert(layout::decode_bits(buf, Self::bit_fields())[15] == self.bit_values()[15]);
        assert(layout::decode_joins(buf, Self::join_fields())[0] == self.join_values()[0]);
    }

    /// The field values name the packet: two packets with the same values are
    /// equal.
    pub proof fn lemma_values_determine(a: Self, b: Self)
        requires
            a.bit_values() == b.bit_values(),
            a.join_values() == b.join_values(),
            a.tail_data() == b.tail_data(),
        ensures
            a == b,
    {
        assert(a.bit_values()[0] == layout::u16_value(a.pitch_in_tile) && b.bit_values()[0] == layout::u16_value(b.pitch_in_tile));
        assert(a.bit_values()[1] == layout::u16_value(a.height) && b.bit_values()[1] == layout::u16_value(b.height));
        assert(a.bit_values()[2] == a.slice_pitch && b.bit_values()[2] == b.slice_pitch);
        assert(a.bit_values()[3] == layout::u8_value(a.element_size) && b.bit_values()[3] == layout::u8_value(b.element_size));
        assert(a.bit_values()[4] == layout::u8_value(a.array_mode) && b.bit_values()[4] == layout::u8_value(b.array_mode));
        assert(a.bit_values()[5] == layout::u8_value(a.mit_mode) && b.bit_values()[5] == layout::u8_value(b.mit_mode));
        assert(a.bit_values()[6] == layout::u8_value(a.tilesplit_size) && b.bit_values()[6] == layout::u8_value(b.tilesplit_size));
        assert(a.bit_values()[7] == layout::u8_value(a.bank_w) && b.bit_values()[7] == layout::u8_value(b.bank_w));
        assert(a.bit_values()[8] == layout::u8_value(a.bank_h) && b.bit_values()[8] == layout::u8_value(b.bank_h));
        assert(a.bit_values()[9] == layout::u8_value(a.num_bank) && b.bit_values()[9] == layout::u8_value(b.num_bank));
        assert(a.bit_values()[10] == layout::u8_value(a.mat_aspt) && b.bit_values()[10] == layout::u8_value(b.mat_aspt));
        assert(a.bit_values()[11] == layout::u8_value(a.pipe_config) && b.bit_values()[11] == layout::u8_value(b.pipe_config));
        assert(a.bit_values()[12] == layout::u16_value(a.x) && b.bit_values()[12] == layout::u16_value(b.x));
        assert(a.bit_values()[13] == layout::u16_value(a.y) && b.bit_values()[13] == layout::u16_value(b.y));
        assert(a.bit_values()[14] == layout::u16_value(a.z) && b.bit_values()[14] == layout::u16_value(b.z));
        assert(a.bit_values()[15] == layout::u8_value(a.sw) && b.bit_values()[15] == layout::u8_value(b.sw));
        assert(a.join_values()[0] == a.dst_addr && b.join_values()[0] == b.dst_addr);
        assert(a.data@ =~= b.data@);
        assert(a.data =~= b.data);
    }

    /// Reading a packet is exact: two packets read from one buffer are equal.
    pub proof fn lemma_read_unique(a: Self, b: Self, buf: Seq<u32>)
        requires
            a.read_from(buf),
            b.read_from(buf),
        ensures
            a == b,
    {
        layout::lemma_reads_determine(
            buf,
            Self::bit_fields(),
            a.bit_values(),
            b.bit_values(),
            Self::join_fields(),
            a.join_values(),
            b.join_values(),
            Self::tail(),
            a.tail_data(),
            b.tail_data(),
        );
        Self::lemma_values_determine(a, b);
    }

    /// A packet reads back from what it was encoded to.
    pub proof fn lemma_roundtrip(self, buf: Seq<u32>)
        requires
            Self::layout_wf(),
            self.fits(),
            buf.len() >= self.size(),
        ensures
            self.read_from(self.spec_encode(buf)),
            Self::decodable(self.spec_encode(buf)),
            self.spec_encode(buf).len() == buf.len(),
    {
        layout::lemma_packet_roundtrip(
            buf,
            Self::bit_fields(),
            self.bit_values(),
            Self::join_fields(),
            self.join_values(),
            Self::tail(),
            self.tail_data(),
            Self::STATIC_DWORDS as nat,
        );
    }
}

/// The `IndirectBuffer` packet.
#[derive(Clone, Copy, Default)]
pub struct IndirectBuffer {
    pub vmid: u8,
    pub ib_size: u32,
    pub ib_base: u64,
    pub csa_addr: u64,
}

impl IndirectBuffer {
    /// Dwords of the packet before its variable-length tail.
    pub const STATIC_DWORDS: usize = 6;

    pub open spec fn bit_fields() -> Seq<BitField> {
        seq![BitField { dw: 0, mask: 0xf, shift: 16 }, BitField { dw: 3, mask: 0xfffff, shift: 0 }]
    }

    pub open spec fn join_fields() -> Seq<JoinField> {
        seq![JoinField { lo: 1, hi: 2 }, JoinField { lo: 4, hi: 5 }]
    }

    pub open spec fn tail() -> Option<DynField> {
        None
    }

    pub open spec fn bit_values(self) -> Seq<u32> {
        seq![self.vmid as u32, self.ib_size]
    }

    pub open spec fn join_values(self) -> Seq<u64> {
        seq![self.ib_base, self.csa_addr]
    }

    pub open spec fn tail_data(self) -> Seq<u32> {
        Seq::<u32>::empty()
    }

    /// Every field value fits its field.
    pub open spec fn fits(self) -> bool {
        layout::fields_fit(Self::bit_fields(), self.bit_values()) && layout::tail_fits(Self::tail(), self.tail_data())
    }

    pub open spec fn layout_wf() -> bool {
        layout::layout_wf(Self::bit_fields(), Self::join_fields(), Self::tail(), Self::STATIC_DWORDS as nat)
    }

    /// Dwords that the packet takes.
    pub open spec fn size(self) -> nat {
        (Self::STATIC_DWORDS + self.tail_data().len()) as nat
    }

    /// The buffer holds the whole packet.
    pub open spec fn decodable(buf: Seq<u32>) -> bool {
        buf.len() >= Self::STATIC_DWORDS
    }

    pub open spec fn spec_encode(self, buf: Seq<u32>) -> Seq<u32> {
        layout::encode_packet(
            buf,
            Self::bit_fields(),
            self.bit_values(),
            Self::join_fields(),
            self.join_values(),
            Self::tail(),
            self.tail_data(),
        )
    }

    /// `buf` holds this packet.
    pub open spec fn read_from(self, buf: Seq<u32>) -> bool {
        layout::packet_reads(
            buf,
            Self::bit_fields(),
            self.bit_values(),
            Self::join_fields(),
            self.join_values(),
            Self::tail(),
            self.tail_data(),
        )
    }

    fn exec_bit_fields() -> (r: Vec<BitField>)
        ensures
            r@ == Self::bit_fields(),
    {
        vec![BitField { dw: 0, mask: 0xf, shift: 16 }, BitField { dw: 3, mask: 0xfffff, shift: 0 }]
    }

    fn exec_join_fields() -> (r: Vec<JoinField>)
        ensures
            r@ == Self::join_fields(),
    {
        vec![JoinField { lo: 1, hi: 2 }, JoinField { lo: 4, hi: 5 }]
    }

    /// Whether the field layout of this packet is well formed.
    pub fn layout_ok() -> (r: bool)
        ensures
            r == Self::layout_wf(),
    {
        layout_is_wf(&Self::exec_bit_fields(), &Self::exec_join_fields(), None, Self::STATIC_DWORDS)
    }

    /// Writes the packet to the start of `buff`, without its header, and
    /// returns how many dwords it took.
    pub fn partial_encode_linear(&self, buff: &mut [u32]) -> (n: usize)
        requires
            old(buff)@.len() >= self.size(),
            self.fits(),
        ensures
            n == self.size(),
            final(buff)@ == self.spec_encode(old(buff)@),
            final(buff)@.len() == old(buff)@.len(),
    {
        let bits = Self::exec_bit_fields();
        let vals: Vec<u32> = vec![layout::widen_u8(self.vmid), self.ib_size];
        let joins = Self::exec_join_fields();
        let jvals: Vec<u64> = vec![self.ib_base, self.csa_addr];
        proof {
            assert(vals@ =~= self.bit_values());
            assert(jvals@ =~= self.join_values());
        }
        encode_bit_fields(&bits, &vals, buff);
        encode_join_fields(&joins, &jvals, buff);
        Self::STATIC_DWORDS
    }

    /// Reads the packet at the start of `buff` and returns how many dwords it
    /// took.
    pub fn partial_decode_linear(buff: &[u32]) -> (r: (usize, Self))
        requires
            Self::decodable(buff@),
        ensures
            r.0 == r.1.size(),
            r.1.read_from(buff@),
    {
        let bits = Self::exec_bit_fields();
        let v = decode_bit_fields(&bits, buff);
        let joins = Self::exec_join_fields();
        let j = decode_join_fields(&joins, buff);
        let p = Self { vmid: layout::narrow_u8(v[0]), ib_size: v[1], ib_base: j[0], csa_addr: j[1] };
        proof {
            assert(p.bit_values() =~= v@);
            assert(p.join_values() =~= j@);
        }
        (Self::STATIC_DWORDS, p)
    }

    /// Where each field stands in a buffer that the packet is read from, as
    /// the packet header lays it out: a bit field under its mask and shift
    /// in its dword, a 64-bit field in two dwords, low half first. By
    /// `lemma_roundtrip`, encoding a packet puts its fields there.
    pub proof fn lemma_field_positions(self, buf: Seq<u32>)
        requires
            self.read_from(buf),
        ensures
            layout::u8_value(self.vmid) == layout::get_bits(buf[0], 0xf, 16),
            self.ib_size == layout::get_bits(buf[3], 0xfffff, 0),
            self.ib_base == layout::dword_pair(buf[1], buf[2]),
            self.csa_addr == layout::dword_pair(buf[4], buf[5]),
    {
        assert(self.bit_values()[0] == layout::u8_value(self.vmid));
        assert(layout::decode_bits(buf, Self::bit_fields())[0] == self.bit_values()[0]);
        assert(self.bit_values()[1] == self.ib_size);
        assert(layout::decode_bits(buf, Self::bit_fields())[1] == self.bit_values()[1]);
        assert(layout::decode_joins(buf, Self::join_fields())[0] == self.join_values()[0]);
        assert(layout::decode_joins(buf, Self::join_fields())[1] == self.join_values()[1]);
    }

    /// The field values name the packet: two packets with the same values are
    /// equal.
    pub proof fn lemma_values_determine(a: Self, b: Self)
        requires
            a.bit_values() == b.bit_values(),
            a.join_values() == b.join_values(),
            a.tail_data() == b.tail_data(),
        ensures
            a == b,
    {
        assert(a.bit_values()[0] == layout::u8_value(a.vmid) && b.bit_values()[0] == layout::u8_value(b.vmid));
        assert(a.bit_values()[1] == a.ib_size && b.bit_values()[1] == b.ib_size);
        assert(a.join_values()[0] == a.ib_base && b.join_values()[0] == b.ib_base);
        assert(a.join_values()[1] == a.csa_addr && b.join_values()[1] == b.csa_addr);
    }

    /// Reading a packet is exact: two packets read from one buffer are equal.
    pub proof fn lemma_read_unique(a: Self, b: Self, buf: Seq<u32>)
        requires
            a.read_from(buf),
            b.read_from(buf),
        ensures
            a == b,
    {
        layout::lemma_reads_determine(
            buf,
            Self::bit_fields(),
            a.bit_values(),
            b.bit_values(),
            Self::join_fields(),
            a.join_values(),
            b.join_values(),
            Self::tail(),
            a.tail_data(),
            b.tail_data(),
        );
        Self::lemma_values_determine(a, b);
    }

    /// A packet reads back from what it was encoded to.
    pub proof fn lemma_roundtrip(self, buf: Seq<u32>)
        requires
            Self::layout_wf(),
            self.fits(),
            buf.len() >= self.size(),
        ensures
            self.read_from(self.spec_encode(buf)),
            Self::decodable(self.spec_encode(buf)),
            self.spec_encode(buf).len() == buf.len(),
    {
        layout::lemma_packet_roundtrip(
            buf,
            Self::bit_fields(),
            self.bit_values(),
            Self::join_fields(),
            self.join_values(),
            Self::tail(),
            self.tail_data(),
            Self::STATIC_DWORDS as nat,
        );
    }
}

/// The `Fence` packet.
#[derive(Clone, Copy, Default)]
pub struct Fence {
    pub data: u32,
    pub addr: u64,
}

impl Fence {
    /// Dwords of the packet before its variable-length tail.
    pub const STATIC_DWORDS: usize = 4;

    pub open spec fn bit_fields() -> Seq<BitField> {
        seq![BitField { dw: 3, mask: 0xffffffff, shift: 0 }]
    }

    pub open spec fn join_fields() -> Seq<JoinField> {
        seq![JoinField { lo: 1, hi: 2 }]
    }

    pub open spec fn tail() -> Option<DynField> {
        None
    }

    pub open spec fn bit_values(self) -> Seq<u32> {
        seq![self.data]
    }

    pub open spec fn join_values(self) -> Seq<u64> {
        seq![self.addr]
    }

    pub open spec fn tail_data(self) -> Seq<u32> {
        Seq::<u32>::empty()
    }

    /// Every field value fits its field.
    pub open spec fn fits(self) -> bool {
        layout::fields_fit(Self::bit_fields(), self.bit_values()) && layout::tail_fits(Self::tail(), self.tail_data())
    }

    pub open spec fn layout_wf() -> bool {
        layout::layout_wf(Self::bit_fields(), Self::join_fields(), Self::tail(), Self::STATIC_DWORDS as nat)
    }

    /// Dwords that the packet takes.
    pub open spec fn size(self) -> nat {
        (Self::STATIC_DWORDS + self.tail_data().len()) as nat
    }

    /// The buffer holds the whole packet.
    pub open spec fn decodable(buf: Seq<u32>) -> bool {
        buf.len() >= Self::STATIC_DWORDS
    }

    pub open spec fn spec_encode(self, buf: Seq<u32>) -> Seq<u32> {
        layout::encode_packet(
            buf,
            Self::bit_fields(),
            self.bit_values(),
            Self::join_fields(),
            self.join_values(),
            Self::tail(),
            self.tail_data(),
        )
    }

    /// `buf` holds this packet.
    pub open spec fn read_from(self, buf: Seq<u32>) -> bool {
        layout::packet_reads(
            buf,
            Self::bit_fields(),
            self.bit_values(),
            Self::join_fields(),
            self.join_values(),
            Self::tail(),
            self.tail_data(),
        )
    }

    fn exec_bit_fields() -> (r: Vec<BitField>)
        ensures
            r@ == Self::bit_fields(),
    {
        vec![BitField { dw: 3, mask: 0xffffffff, shift: 0 }]
    }

    fn exec_join_fields() -> (r: Vec<JoinField>)
        ensures
            r@ == Self::join_fields(),
    {
        vec![JoinField { lo: 1, hi: 2 }]
    }

    /// Whether the field layout of this packet is well formed.
    pub fn layout_ok() -> (r: bool)
        ensures
            r == Self::layout_wf(),
    {
        layout_is_wf(&Self::exec_bit_fields(), &Self::exec_join_fields(), None, Self::STATIC_DWORDS)
    }

    /// Writes the packet to the start of `buff`, without its header, and
    /// returns how many dwords it took.
    pub fn partial_encode_linear(&self, buff: &mut [u32]) -> (n: usize)
        requires
            old(buff)@.len() >= self.size(),
            self.fits(),
        ensures
            n == self.size(),
            final(buff)@ == self.spec_encode(old(buff)@),
            final(buff)@.len() == old(buff)@.len(),
    {
        let bits = Self::exec_bit_fields();
        let vals: Vec<u32> = vec![self.data];
        let joins = Self::exec_join_fields();
        let jvals: Vec<u64> = vec![self.addr];
        proof {
            assert(vals@ =~= self.bit_values());
            assert(jvals@ =~= self.join_values());
        }
        encode_bit_fields(&bits, &vals, buff);
        encode_join_fields(&joins, &jvals, buff);
        Self::STATIC_DWORDS
    }

    /// Reads the packet at the start of `buff` and returns how many dwords it
    /// took.
    pub fn partial_decode_linear(buff: &[u32]) -> (r: (usize, Self))
        requires
            Self::decodable(buff@),
        ensures
            r.0 == r.1.size(),
            r.1.read_from(buff@),
    {
        let bits = Self::exec_bit_fields();
        let v = decode_bit_fields(&bits, buff);
        let joins = Self::exec_join_fields();
        let j = decode_join_fields(&joins, buff);
        let p = Self { data: v[0], addr: j[0] };
        proof {
            assert(p.bit_values() =~= v@);
            assert(p.join_values() =~= j@);
        }
        (Self::STATIC_DWORDS, p)
    }

    /// Where each field stands in a buffer that the packet is read from, as
    /// the packet header lays it out: a bit field under its mask and shift
    /// in its dword, a 64-bit field in two dwords, low half first. By
    /// `lemma_roundtrip`, encoding a packet puts its fields there.
    pub proof fn lemma_field_positions(self, buf: Seq<u32>)
        requires
            self.read_from(buf),
        ensures
            self.data == layout::get_bits(buf[3], 0xffffffff, 0),
            self.addr == layout::dword_pair(buf[1], buf[2]),
    {
        assert(self.bit_values()[0] == self.data);
        assert(layout::decode_bits(buf, Self::bit_fields())[0] == self.bit_values()[0]);
        assert(layout::decode_joins(buf, Self::join_fields())[0] == self.join_values()[0]);
    }

    /// The field values name the packet: two packets with the same values are
    /// equal.
    pub proof fn lemma_values_determine(a: Self, b: Self)
        requires
            a.bit_values() == b.bit_values(),
            a.join_values() == b.join_values(),
            a.tail_data() == b.tail_data(),
        ensures
            a == b,
    {
        assert(a.bit_values()[0] == a.data && b.bit_values()[0] == b.data);
        assert(a.join_values()[0] == a.addr && b.join_values()[0] == b.addr);
    }

    /// Reading a packet is exact: two packets read from one buffer are equal.
    pub proof fn lemma_read_unique(a: Self, b: Self, buf: Seq<u32>)
        requires
            a.read_from(buf),
            b.read_from(buf),
        ensures
            a == b,
    {
        layout::lemma_reads_determine(
            buf,
            Self::bit_fields(),
            a.bit_values(),
            b.bit_values(),
            Self::join_fields(),
            a.join_values(),
            b.join_values(),
            Self::tail(),
            a.tail_data(),
            b.tail_data(),
        );
        Self::lemma_values_determine(a, b);
    }

    /// A packet reads back from what it was encoded to.
    pub proof fn lemma_roundtrip(self, buf: Seq<u32>)
        requires
            Self::layout_wf(),
            self.fits(),
            buf.len() >= self.size(),
        ensures
            self.read_from(self.spec_encode(buf)),
            Self::decodable(self.spec_encode(buf)),
            self.spec_encode(buf).len() == buf.len(),
    {
        layout::lemma_packet_roundtrip(
            buf,
            Self::bit_fields(),
            self.bit_values(),
            Self::join_fields(),
            self.join_values(),
            Self::tail(),
            self.tail_data(),
            Self::STATIC_DWORDS as nat,
        );
    }
}

/// The `Trap` packet.
#[derive(Clone, Copy, Default)]
pub struct Trap {
    pub int_context: u32,
}

impl Trap {
    /// Dwords of the packet before its variable-length tail.
    pub const STATIC_DWORDS: usize = 2;

    pub open spec fn bit_fields() -> Seq<BitField> {
        seq![BitField { dw: 1, mask: 0xfffffff, shift: 0 }]
    }

    pub open spec fn join_fields() -> Seq<JoinField> {
        Seq::<JoinField>::empty()
    }

    pub open spec fn tail() -> Option<DynField> {
        None
    }

    pub open spec fn bit_values(self) -> Seq<u32> {
        seq![self.int_context]
    }

    pub open spec fn join_values(self) -> Seq<u64> {
        Seq::<u64>::empty()
    }

    pub open spec fn tail_data(self) -> Seq<u32> {
        Seq::<u32>::empty()
    }

    /// Every field value fits its field.
    pub open spec fn fits(self) -> bool {
        layout::fields_fit(Self::bit_fields(), self.bit_values()) && layout::tail_fits(Self::tail(), self.tail_data())
    }

    pub open spec fn layout_wf() -> bool {
        layout::layout_wf(Self::bit_fields(), Self::join_fields(), Self::tail(), Self::STATIC_DWORDS as nat)
    }

    /// Dwords that the packet takes.
    pub open spec fn size(self) -> nat {
        (Self::STATIC_DWORDS + self.tail_data().len()) as nat
    }

    /// The buffer holds the whole packet.
    pub open spec fn decodable(buf: Seq<u32>) -> bool {
        buf.len() >= Self::STATIC_DWORDS
    }

    pub open spec fn spec_encode(self, buf: Seq<u32>) -> Seq<u32> {
        layout::encode_packet(
            buf,
            Self::bit_fields(),
            self.bit_values(),
            Self::join_fields(),
            self.join_values(),
            Self::tail(),
            self.tail_data(),
        )
    }

    /// `buf` holds this packet.
    pub open spec fn read_from(self, buf: Seq<u32>) -> bool {
        layout::packet_reads(
            buf,
            Self::bit_fields(),
            self.bit_values(),
            Self::join_fields(),
            self.join_values(),
            Self::tail(),
            self.tail_data(),
        )
    }

    fn exec_bit_fields() -> (r: Vec<BitField>)
        ensures
            r@ == Self::bit_fields(),
    {
        vec![BitField { dw: 1, mask: 0xfffffff, shift: 0 }]
    }

    fn exec_join_fields() -> (r: Vec<JoinField>)
        ensures
            r@ == Self::join_fields(),
    {
        Vec::<JoinField>::new()
    }

    /// Whether the field layout of this packet is well formed.
    pub fn layout_ok() -> (r: bool)
        ensures
            r == Self::layout_wf(),
    {
        layout_is_wf(&Self::exec_bit_fields(), &Self::exec_join_fields(), None, Self::STATIC_DWORDS)
    }

    /// Writes the packet to the start of `buff`, without its header, and
    /// returns how many dwords it took.
    pub fn partial_encode_linear(&self, buff: &mut [u32]) -> (n: usize)
        requires
            old(buff)@.len() >= self.size(),
            self.fits(),
        ensures
            n == self.size(),
            final(buff)@ == self.spec_encode(old(buff)@),
            final(buff)@.len() == old(buff)@.len(),
    {
        let bits = Self::exec_bit_fields();
        let vals: Vec<u32> = vec![self.int_context];
        let joins = Self::exec_join_fields();
        let jvals: Vec<u64> = Vec::<u64>::new();
        proof {
            assert(vals@ =~= self.bit_values());
            assert(jvals@ =~= self.join_values());
        }
        encode_bit_fields(&bits, &vals, buff);
        encode_join_fields(&joins, &jvals, buff);
        Self::STATIC_DWORDS
    }

    /// Reads the packet at the start of `buff` and returns how many dwords it
    /// took.
    pub fn partial_decode_linear(buff: &[u32]) -> (r: (usize, Self))
        requires
            Self::decodable(buff@),
        ensures
            r.0 == r.1.size(),
            r.1.read_from(buff@),
    {
        let bits = Self::exec_bit_fields();
        let v = decode_bit_fields(&bits, buff);
        let joins = Self::exec_join_fields();
        let j = decode_join_fields(&joins, buff);
        let p = Self { int_context: v[0] };
        proof {
            assert(p.bit_values() =~= v@);
            assert(p.join_values() =~= j@);
        }
        (Self::STATIC_DWORDS, p)
    }

    /// Where each field stands in a buffer that the packet is read from, as
    /// the packet header lays it out: a bit field under its mask and shift
    /// in its dword, a 64-bit field in two dwords, low half first. By
    /// `lemma_roundtrip`, encoding a packet puts its fields there.
    pub proof fn lemma_field_positions(self, buf: Seq<u32>)
        requires
            self.read_from(buf),
        ensures
            self.int_context == layout::get_bits(buf[1], 0xfffffff, 0),
    {
        assert(self.bit_values()[0] == self.int_context);
        assert(layout::decode_bits(buf, Self::bit_fields())[0] == self.bit_values()[0]);
    }

    /// The field values name the packet: two packets with the same values are
    /// equal.
    pub proof fn lemma_values_determine(a: Self, b: Self)
        requires
            a.bit_values() == b.bit_values(),
            a.join_values() == b.join_values(),
            a.tail_data() == b.tail_data(),
        ensures
            a == b,
    {
        assert(a.bit_values()[0] == a.int_context && b.bit_values()[0] == b.int_context);
    }

    /// Reading a packet is exact: two packets read from one buffer are equal.
    pub proof fn lemma_read_unique(a: Self, b: Self, buf: Seq<u32>)
        requires
            a.read_from(buf),
            b.read_from(buf),
        ensures
            a == b,
    {
        layout::lemma_reads_determine(
            buf,
            Self::bit_fields(),
            a.bit_values(),
            b.bit_values(),
            Self::join_fields(),
            a.join_values(),
            b.join_values(),
            Self::tail(),
            a.tail_data(),
            b.tail_data(),
        );
        Self::lemma_values_determine(a, b);
    }

    /// A packet reads back from what it was encoded to.
    pub proof fn lemma_roundtrip(self, buf: Seq<u32>)
        requires
            Self::layout_wf(),
            self.fits(),
            buf.len() >= self.size(),
        ensures
            self.read_from(self.spec_encode(buf)),
            Self::decodable(self.spec_encode(buf)),
            self.spec_encode(buf).len() == buf.len(),
    {
        layout::lemma_packet_roundtrip(
            buf,
            Self::bit_fields(),
            self.bit_values(),
            Self::join_fields(),
            self.join_values(),
            Self::tail(),
            self.tail_data(),
            Self::STATIC_DWORDS as nat,
        );
    }
}

/// The `Semaphore` packet.
#[derive(Clone, Copy, Default)]
pub struct Semaphore {
    pub write_one: bool,
    pub signal: bool,
    pub mailbox: bool,
    pub addr: u64,
}

impl Semaphore {
    /// Dwords of the packet before its variable-length tail.
    pub const STATIC_DWORDS: usize = 3;

    pub open spec fn bit_fields() -> Seq<BitField> {
        seq![BitField { dw: 0, mask: 0x1, shift: 29 }, BitField { dw: 0, mask: 0x1, shift: 30 }, BitField { dw: 0, mask: 0x1, shift: 31 }]
    }

    pub open spec fn join_fields() -> Seq<JoinField> {
        seq![JoinField { lo: 1, hi: 2 }]
    }

    pub open spec fn tail() -> Option<DynField> {
        None
    }

    pub open spec fn bit_values(self) -> Seq<u32> {
        seq![layout::bool_bit(self.write_one), layout::bool_bit(self.signal), layout::bool_bit(self.mailbox)]
    }

    pub open spec fn join_values(self) -> Seq<u64> {
        seq![self.addr]
    }

    pub open spec fn tail_data(self) -> Seq<u32> {
        Seq::<u32>::empty()
    }

    /// Every field value fits its field.
    pub open spec fn fits(self) -> bool {
        layout::fields_fit(Self::bit_fields(), self.bit_values()) && layout::tail_fits(Self::tail(), self.tail_data())
    }

    pub open spec fn layout_wf() -> bool {
        layout::layout_wf(Self::bit_fields(), Self::join_fields(), Self::tail(), Self::STATIC_DWORDS as nat)
    }

    /// Dwords that the packet takes.
    pub open spec fn size(self) -> nat {
        (Self::STATIC_DWORDS + self.tail_data().len()) as nat
    }

    /// The buffer holds the whole packet.
    pub open spec fn decodable(buf: Seq<u32>) -> bool {
        buf.len() >= Self::STATIC_DWORDS
    }

    pub open spec fn spec_encode(self, buf: Seq<u32>) -> Seq<u32> {
        layout::encode_packet(
            buf,
            Self::bit_fields(),
            self.bit_values(),
            Self::join_fields(),
            self.join_values(),
            Self::tail(),
            self.tail_data(),
        )
    }

    /// `buf` holds this packet.
    pub open spec fn read_from(self, buf: Seq<u32>) -> bool {
        layout::packet_reads(
            buf,
            Self::bit_fields(),
            self.bit_values(),
            Self::join_fields(),
            self.join_values(),
            Self::tail(),
            self.tail_data(),
        )
    }

    fn exec_bit_fields() -> (r: Vec<BitField>)
        ensures
            r@ == Self::bit_fields(),
    {
        vec![BitField { dw: 0, mask: 0x1, shift: 29 }, BitField { dw: 0, mask: 0x1, shift: 30 }, BitField { dw: 0, mask: 0x1, shift: 31 }]
    }

    fn exec_join_fields() -> (r: Vec<JoinField>)
        ensures
            r@ == Self::join_fields(),
    {
        vec![JoinField { lo: 1, hi: 2 }]
    }

    /// Whether the field layout of this packet is well formed.
    pub fn layout_ok() -> (r: bool)
        ensures
            r == Self::layout_wf(),
    {
        layout_is_wf(&Self::exec_bit_fields(), &Self::exec_join_fields(), None, Self::STATIC_DWORDS)
    }

    /// Writes the packet to the start of `buff`, without its header, and
    /// returns how many dwords it took.
    pub fn partial_encode_linear(&self, buff: &mut [u32]) -> (n: usize)
        requires
            old(buff)@.len() >= self.size(),
            self.fits(),
        ensures
            n == self.size(),
            final(buff)@ == self.spec_encode(old(buff)@),
            final(buff)@.len() == old(buff)@.len(),
    {
        let bits = Self::exec_bit_fields();
        let vals: Vec<u32> = vec![to_bit(self.write_one), to_bit(self.signal), to_bit(self.mailbox)];
        let joins = Self::exec_join_fields();
        let jvals: Vec<u64> = vec![self.addr];
        proof {
            assert(vals@ =~= self.bit_values());
            assert(jvals@ =~= self.join_values());
        }
        encode_bit_fields(&bits, &vals, buff);
        encode_join_fields(&joins, &jvals, buff);
        Self::STATIC_DWORDS
    }

    /// Reads the packet at the start of `buff` and returns how many dwords it
    /// took.
    pub fn partial_decode_linear(buff: &[u32]) -> (r: (usize, Self))
        requires
            Self::decodable(buff@),
        ensures
            r.0 == r.1.size(),
            r.1.read_from(buff@),
    {
        let bits = Self::exec_bit_fields();
        let v = decode_bit_fields(&bits, buff);
        let joins = Self::exec_join_fields();
        let j = decode_join_fields(&joins, buff);
        let p = Self { write_one: v[0] != 0, signal: v[1] != 0, mailbox: v[2] != 0, addr: j[0] };
        proof {
            assert(p.bit_values() =~= v@);
            assert(p.join_values() =~= j@);
        }
        (Self::STATIC_DWORDS, p)
    }

    /// Where each field stands in a buffer that the packet is read from, as
    /// the packet header lays it out: a bit field under its mask and shift
    /// in its dword, a 64-bit field in two dwords, low half first. By
    /// `lemma_roundtrip`, encoding a packet puts its fields there.
    pub proof fn lemma_field_positions(self, buf: Seq<u32>)
        requires
            self.read_from(buf),
        ensures
            layout::bool_bit(self.write_one) == layout::get_bits(buf[0], 0x1, 29),
            layout::bool_bit(self.signal) == layout::get_bits(buf[0], 0x1, 30),
            layout::bool_bit(self.mailbox) == layout::get_bits(buf[0], 0x1, 31),
            self.addr == layout::dword_pair(buf[1], buf[2]),
    {
        assert(self.bit_values()[0] == layout::bool_bit(self.write_one));
        assert(layout::decode_bits(buf, Self::bit_fields())[0] == self.bit_values()[0]);
        assert(self.bit_values()[1] == layout::bool_bit(self.signal));
        assert(layout::decode_bits(buf, Self::bit_fields())[1] == self.bit_values()[1]);
        assert(self.bit_values()[2] == layout::bool_bit(self.mailbox));
        assert(layout::decode_bits(buf, Self::bit_fields())[2] == self.bit_values()[2]);
        assert(layout::decode_joins(buf, Self::join_fields())[0] == self.join_values()[0]);
    }

    /// The field values name the packet: two packets with the same values are
    /// equal.
    pub proof fn lemma_values_determine(a: Self, b: Self)
        requires
            a.bit_values() == b.bit_values(),
            a.join_values() == b.join_values(),
            a.tail_data() == b.tail_data(),
        ensures
            a == b,
    {
        assert(a.bit_values()[0] == layout::bool_bit(a.write_one) && b.bit_values()[0] == layout::bool_bit(b.write_one));
        assert(a.bit_values()[1] == layout::bool_bit(a.signal) && b.bit_values()[1] == layout::bool_bit(b.signal));
        assert(a.bit_values()[2] == layout::bool_bit(a.mailbox) && b.bit_values()[2] == layout::bool_bit(b.mailbox));
        assert(a.join_values()[0] == a.addr && b.join_values()[0] == b.addr);
    }

    /// Reading a packet is exact: two packets read from one buffer are equal.
    pub proof fn lemma_read_unique(a: Self, b: Self, buf: Seq<u32>)
        requires
            a.read_from(buf),
            b.read_from(buf),
        ensures
            a == b,
    {
        layout::lemma_reads_determine(
            buf,
            Self::bit_fields(),
            a.bit_values(),
            b.bit_values(),
            Self::join_fields(),
            a.join_values(),
            b.join_values(),
            Self::tail(),
            a.tail_data(),
            b.tail_data(),
        );
        Self::lemma_values_determine(a, b);
    }

    /// A packet reads back from what it was encoded to.
    pub proof fn lemma_roundtrip(self, buf: Seq<u32>)
        requires
            Self::layout_wf(),
            self.fits(),
            buf.len() >= self.size(),
        ensures
            self.read_from(self.spec_encode(buf)),
            Self::decodable(self.spec_encode(buf)),
            self.spec_encode(buf).len() == buf.len(),
    {
        layout::lemma_packet_roundtrip(
            buf,
            Self::bit_fields(),
            self.bit_values(),
            Self::join_fields(),
            self.join_values(),
            Self::tail(),
            self.tail_data(),
            Self::STATIC_DWORDS as nat,
        );
    }
}

/// The `PollRegmem` packet.
#[derive(Clone, Copy, Default)]
pub struct PollRegmem {
    pub hdp_flush: bool,
    pub function: u8,
    pub mem_poll: bool,
    pub interval: u16,
    pub retry_count: u16,
    pub value: u32,
    pub mask: u32,
    pub addr_or_reg: u64,
}

impl PollRegmem {
    /// Dwords of the packet before its variable-length tail.
    pub const STATIC_DWORDS: usize = 6;

    pub open spec fn bit_fields() -> Seq<BitField> {
        seq![BitField { dw: 0, mask: 0x1, shift: 26 }, BitField { dw: 0, mask: 0x7, shift: 28 }, BitField { dw: 0, mask: 0x1, shift: 31 }, BitField { dw: 5, mask: 0xffff, shift: 0 }, BitField { dw: 5, mask: 0xfff, shift: 16 }, BitField { dw: 3, mask: 0xffffffff, shift: 0 }, BitField { dw: 4, mask: 0xffffffff, shift: 0 }]
    }

    pub open spec fn join_fields() -> Seq<JoinField> {
        seq![JoinField { lo: 1, hi: 2 }]
    }

    pub open spec fn tail() -> Option<DynField> {
        None
    }

    pub open spec fn bit_values(self) -> Seq<u32> {
        seq![layout::bool_bit(self.hdp_flush), self.function as u32, layout::bool_bit(self.mem_poll), self.interval as u32, self.retry_count as u32, self.value, self.mask]
    }

    pub open spec fn join_values(self) -> Seq<u64> {
        seq![self.addr_or_reg]
    }

    pub open spec fn tail_data(self) -> Seq<u32> {
        Seq::<u32>::empty()
    }

    /// Every field value fits its field.
    pub open spec fn fits(self) -> bool {
        layout::fields_fit(Self::bit_fields(), self.bit_values()) && layout::tail_fits(Self::tail(), self.tail_data())
    }

    pub open spec fn layout_wf() -> bool {
        layout::layout_wf(Self::bit_fields(), Self::join_fields(), Self::tail(), Self::STATIC_DWORDS as nat)
    }

    /// Dwords that the packet takes.
    pub open spec fn size(self) -> nat {
        (Self::STATIC_DWORDS + self.tail_data().len()) as nat
    }

    /// The buffer holds the whole packet.
    pub open spec fn decodable(buf: Seq<u32>) -> bool {
        buf.len() >= Self::STATIC_DWORDS
    }

    pub open spec fn spec_encode(self, buf: Seq<u32>) -> Seq<u32> {
        layout::encode_packet(
            buf,
            Self::bit_fields(),
            self.bit_values(),
            Self::join_fields(),
            self.join_values(),
            Self::tail(),
            self.tail_data(),
        )
    }

    /// `buf` holds this packet.
    pub open spec fn read_from(self, buf: Seq<u32>) -> bool {
        layout::packet_reads(
            buf,
            Self::bit_fields(),
            self.bit_values(),
            Self::join_fields(),
            self.join_values(),
            Self::tail(),
            self.tail_data(),
        )
    }

    fn exec_bit_fields() -> (r: Vec<BitField>)
        ensures
            r@ == Self::bit_fields(),
    {
        vec![BitField { dw: 0, mask: 0x1, shift: 26 }, BitField { dw: 0, mask: 0x7, shift: 28 }, BitField { dw: 0, mask: 0x1, shift: 31 }, BitField { dw: 5, mask: 0xffff, shift: 0 }, BitField { dw: 5, mask: 0xfff, shift: 16 }, BitField { dw: 3, mask: 0xffffffff, shift: 0 }, BitField { dw: 4, mask: 0xffffffff, shift: 0 }]
    }

    fn exec_join_fields() -> (r: Vec<JoinField>)
        ensures
            r@ == Self::join_fields(),
    {
        vec![JoinField { lo: 1, hi: 2 }]
    }

    /// Whether the field layout of this packet is well formed.
    pub fn layout_ok() -> (r: bool)
        ensures
            r == Self::layout_wf(),
    {
        layout_is_wf(&Self::exec_bit_fields(), &Self::exec_join_fields(), None, Self::STATIC_DWORDS)
    }

    /// Writes the packet to the start of `buff`, without its header, and
    /// returns how many dwords it took.
    pub fn partial_encode_linear(&self, buff: &mut [u32]) -> (n: usize)
        requires
            old(buff)@.len() >= self.size(),
            self.fits(),
        ensures
            n == self.size(),
            final(buff)@ == self.spec_encode(old(buff)@),
            final(buff)@.len() == old(buff)@.len(),
    {
        let bits = Self::exec_bit_fields();
        let vals: Vec<u32> = vec![to_bit(self.hdp_flush), layout::widen_u8(self.function), to_bit(self.mem_poll), layout::widen_u16(self.interval), layout::widen_u16(self.retry_count), self.value, self.mask];
        let joins = Self::exec_join_fields();
        let jvals: Vec<u64> = vec![self.addr_or_reg];
        proof {
            assert(vals@ =~= self.bit_values());
            assert(jvals@ =~= self.join_values());
        }
        encode_bit_fields(&bits, &vals, buff);
        encode_join_fields(&joins, &jvals, buff);
        Self::STATIC_DWORDS
    }

    /// Reads the packet at the start of `buff` and returns how many dwords it
    /// took.
    pub fn partial_decode_linear(buff: &[u32]) -> (r: (usize, Self))
        requires
            Self::decodable(buff@),
        ensures
            r.0 == r.1.size(),
            r.1.read_from(buff@),
    {
        let bits = Self::exec_bit_fields();
        let v = decode_bit_fields(&bits, buff);
        let joins = Self::exec_join_fields();
        let j = decode_join_fields(&joins, buff);
        let p = Self { hdp_flush: v[0] != 0, function: layout::narrow_u8(v[1]), mem_poll: v[2] != 0, interval: layout::narrow_u16(v[3]), retry_count: layout::narrow_u16(v[4]), value: v[5], mask: v[6], addr_or_reg: j[0] };
        proof {
            assert(p.bit_values() =~= v@);
            assert(p.join_values() =~= j@);
        }
        (Self::STATIC_DWORDS, p)
    }

    /// Where each field stands in a buffer that the packet is read from, as
    /// the packet header lays it out: a bit field under its mask and shift
    /// in its dword, a 64-bit field in two dwords, low half first. By
    /// `lemma_roundtrip`, encoding a packet puts its fields there.
    pub proof fn lemma_field_positions(self, buf: Seq<u32>)
        requires
            self.read_from(buf),
        ensures
            layout::bool_bit(self.hdp_flush) == layout::get_bits(buf[0], 0x1, 26),
            layout::u8_value(self.function) == layout::get_bits(buf[0], 0x7, 28),
            layout::bool_bit(self.mem_poll) == layout::get_bits(buf[0], 0x1, 31),
            layout::u16_value(self.interval) == layout::get_bits(buf[5], 0xffff, 0),
            layout::u16_value(self.retry_count) == layout::get_bits(buf[5], 0xfff, 16),
            self.value == layout::get_bits(buf[3], 0xffffffff, 0),
            self.mask == layout::get_bits(buf[4], 0xffffffff, 0),
            self.addr_or_reg == layout::dword_pair(buf[1], buf[2]),
    {
        assert(self.bit_values()[0] == layout::bool_bit(self.hdp_flush));
        assert(layout::decode_bits(buf, Self::bit_fields())[0] == self.bit_values()[0]);
        assert(self.bit_values()[1] == layout::u8_value(self.function));
        assert(layout::decode_bits(buf, Self::bit_fields())[1] == self.bit_values()[1]);
        assert(self.bit_values()[2] == layout::bool_bit(self.mem_poll));
        assert(layout::decode_bits(buf, Self::bit_fields())[2] == self.bit_values()[2]);
        assert(self.bit_values()[3] == layout::u16_value(self.interval));
        assert(layout::decode_bits(buf, Self::bit_fields())[3] == self.bit_values()[3]);
        assert(self.bit_values()[4] == layout::u16_value(self.retry_count));
        assert(layout::decode_bits(buf, Self::bit_fields())[4] == self.bit_values()[4]);
        assert(self.bit_values()[5] == self.value);
        assert(layout::decode_bits(buf, Self::bit_fields())[5] == self.bit_values()[5]);
        assert(self.bit_values()[6] == self.mask);
        assert(layout::decode_bits(buf, Self::bit_fields())[6] == self.bit_values()[6]);
        assert(layout::decode_joins(buf, Self::join_fields())[0] == self.join_values()[0]);
    }

    /// The field values name the packet: two packets with the same values are
    /// equal.
    pub proof fn lemma_values_determine(a: Self, b: Self)
        requires
            a.bit_values() == b.bit_values(),
            a.join_values() == b.join_values(),
            a.tail_data() == b.tail_data(),
        ensures
            a == b,
    {
        assert(a.bit_values()[0] == layout::bool_bit(a.hdp_flush) && b.bit_values()[0] == layout::bool_bit(b.hdp_flush));
        assert(a.bit_values()[1] == layout::u8_value(a.function) && b.bit_values()[1] == layout::u8_value(b.function));
        assert(a.bit_values()[2] == layout::bool_bit(a.mem_poll) && b.bit_values()[2] == layout::bool_bit(b.mem_poll));
        assert(a.bit_values()[3] == layout::u16_value(a.interval) && b.bit_values()[3] == layout::u16_value(b.interval));
        assert(a.bit_values()[4] == layout::u16_value(a.retry_count) && b.bit_values()[4] == layout::u16_value(b.retry_count));
        assert(a.bit_values()[5] == a.value && b.bit_values()[5] == b.value);
        assert(a.bit_values()[6] == a.mask && b.bit_values()[6] == b.mask);
        assert(a.join_values()[0] == a.addr_or_reg && b.join_values()[0] == b.addr_or_reg);
    }

    /// Reading a packet is exact: two packets read from one buffer are equal.
    pub proof fn lemma_read_unique(a: Self, b: Self, buf: Seq<u32>)
        requires
            a.read_from(buf),
            b.read_from(buf),
        ensures
            a == b,
    {
        layout::lemma_reads_determine(
            buf,
            Self::bit_fields(),
            a.bit_values(),
            b.bit_values(),
            Self::join_fields(),
            a.join_values(),
            b.join_values(),
            Self::tail(),
            a.tail_data(),
            b.tail_data(),
        );
        Self::lemma_values_determine(a, b);
    }

    /// A packet reads back from what it was encoded to.
    pub proof fn lemma_roundtrip(self, buf: Seq<u32>)
        requires
            Self::layout_wf(),
            self.fits(),
            buf.len() >= self.size(),
        ensures
            self.read_from(self.spec_encode(buf)),
            Self::decodable(self.spec_encode(buf)),
            self.spec_encode(buf).len() == buf.len(),
    {
        layout::lemma_packet_roundtrip(
            buf,
            Self::bit_fields(),
            self.bit_values(),
            Self::join_fields(),
            self.join_values(),
            Self::tail(),
            self.tail_data(),
            Self::STATIC_DWORDS as nat,
        );
    }
}

/// The `CondExe` packet.
#[derive(Clone, Copy, Default)]
pub struct CondExe {
    pub exec_count: u16,
    pub reference: u32,
    pub addr: u64,
}

impl CondExe {
    /// Dwords of the packet before its variable-length tail.
    pub const STATIC_DWORDS: usize = 5;

    pub open spec fn bit_fields() -> Seq<BitField> {
        seq![BitField { dw: 4, mask: 0x3fff, shift: 0 }, BitField { dw: 3, mask: 0xffffffff, shift: 0 }]
    }

    pub open spec fn join_fields() -> Seq<JoinField> {
        seq![JoinField { lo: 1, hi: 2 }]
    }

    pub open spec fn tail() -> Option<DynField> {
        None
    }

    pub open spec fn bit_values(self) -> Seq<u32> {
        seq![self.exec_count as u32, self.reference]
    }

    pub open spec fn join_values(self) -> Seq<u64> {
        seq![self.addr]
    }

    pub open spec fn tail_data(self) -> Seq<u32> {
        Seq::<u32>::empty()
    }

    /// Every field value fits its field.
    pub open spec fn fits(self) -> bool {
        layout::fields_fit(Self::bit_fields(), self.bit_values()) && layout::tail_fits(Self::tail(), self.tail_data())
    }

    pub open spec fn layout_wf() -> bool {
        layout::layout_wf(Self::bit_fields(), Self::join_fields(), Self::tail(), Self::STATIC_DWORDS as nat)
    }

    /// Dwords that the packet takes.
    pub open spec fn size(self) -> nat {
        (Self::STATIC_DWORDS + self.tail_data().len()) as nat
    }

    /// The buffer holds the whole packet.
    pub open spec fn decodable(buf: Seq<u32>) -> bool {
        buf.len() >= Self::STATIC_DWORDS
    }

    pub open spec fn spec_encode(self, buf: Seq<u32>) -> Seq<u32> {
        layout::encode_packet(
            buf,
            Self::bit_fields(),
            self.bit_values(),
            Self::join_fields(),
            self.join_values(),
            Self::tail(),
            self.tail_data(),
        )
    }

    /// `buf` holds this packet.
    pub open spec fn read_from(self, buf: Seq<u32>) -> bool {
        layout::packet_reads(
            buf,
            Self::bit_fields(),
            self.bit_values(),
            Self::join_fields(),
            self.join_values(),
            Self::tail(),
            self.tail_data(),
        )
    }

    fn exec_bit_fields() -> (r: Vec<BitField>)
        ensures
            r@ == Self::bit_fields(),
    {
        vec![BitField { dw: 4, mask: 0x3fff, shift: 0 }, BitField { dw: 3, mask: 0xffffffff, shift: 0 }]
    }

    fn exec_join_fields() -> (r: Vec<JoinField>)
        ensures
            r@ == Self::join_fields(),
    {
        vec![JoinField { lo: 1, hi: 2 }]
    }

    /// Whether the field layout of this packet is well formed.
    pub fn layout_ok() -> (r: bool)
        ensures
            r == Self::layout_wf(),
    {
        layout_is_wf(&Self::exec_bit_fields(), &Self::exec_join_fields(), None, Self::STATIC_DWORDS)
    }

    /// Writes the packet to the start of `buff`, without its header, and
    /// returns how many dwords it took.
    pub fn partial_encode_linear(&self, buff: &mut [u32]) -> (n: usize)
        requires
            old(buff)@.len() >= self.size(),
            self.fits(),
        ensures
            n == self.size(),
            final(buff)@ == self.spec_encode(old(buff)@),
            final(buff)@.len() == old(buff)@.len(),
    {
        let bits = Self::exec_bit_fields();
        let vals: Vec<u32> = vec![layout::widen_u16(self.exec_count), self.reference];
        let joins = Self::exec_join_fields();
        let jvals: Vec<u64> = vec![self.addr];
        proof {
            assert(vals@ =~= self.bit_values());
            assert(jvals@ =~= self.join_values());
        }
        encode_bit_fields(&bits, &vals, buff);
        encode_join_fields(&joins, &jvals, buff);
        Self::STATIC_DWORDS
    }

    /// Reads the packet at the start of `buff` and returns how many dwords it
    /// took.
    pub fn partial_decode_linear(buff: &[u32]) -> (r: (usize, Self))
        requires
            Self::decodable(buff@),
        ensures
            r.0 == r.1.size(),
            r.1.read_from(buff@),
    {
        let bits = Self::exec_bit_fields();
        let v = decode_bit_fields(&bits, buff);
        let joins = Self::exec_join_fields();
        let j = decode_join_fields(&joins, buff);
        let p = Self { exec_count: layout::narrow_u16(v[0]), reference: v[1], addr: j[0] };
        proof {
            assert(p.bit_values() =~= v@);
            assert(p.join_values() =~= j@);
        }
        (Self::STATIC_DWORDS, p)
    }

    /// Where each field stands in a buffer that the packet is read from, as
    /// the packet header lays it out: a bit field under its mask and shift
    /// in its dword, a 64-bit field in two dwords, low half first. By
    /// `lemma_roundtrip`, encoding a packet puts its fields there.
    pub proof fn lemma_field_positions(self, buf: Seq<u32>)
        requires
            self.read_from(buf),
        ensures
            layout::u16_value(self.exec_count) == layout::get_bits(buf[4], 0x3fff, 0),
            self.reference == layout::get_bits(buf[3], 0xffffffff, 0),
            self.addr == layout::dword_pair(buf[1], buf[2]),
    {
        assert(self.bit_values()[0] == layout::u16_value(self.exec_count));
        assert(layout::decode_bits(buf, Self::bit_fields())[0] == self.bit_values()[0]);
        assert(self.bit_values()[1] == self.reference);
        assert(layout::decode_bits(buf, Self::bit_fields())[1] == self.bit_values()[1]);
        assert(layout::decode_joins(buf, Self::join_fields())[0] == self.join_values()[0]);
    }

    /// The field values name the packet: two packets with the same values are
    /// equal.
    pub proof fn lemma_values_determine(a: Self, b: Self)
        requires
            a.bit_values() == b.bit_values(),
            a.join_values() == b.join_values(),
            a.tail_data() == b.tail_data(),
        ensures
            a == b,
    {
        assert(a.bit_values()[0] == layout::u16_value(a.exec_count) && b.bit_values()[0] == layout::u16_value(b.exec_count));
        assert(a.bit_values()[1] == a.reference && b.bit_values()[1] == b.reference);
        assert(a.join_values()[0] == a.addr && b.join_values()[0] == b.addr);
    }

    /// Reading a packet is exact: two packets read from one buffer are equal.
    pub proof fn lemma_read_unique(a: Self, b: Self, buf: Seq<u32>)
        requires
            a.read_from(buf),
            b.read_from(buf),
        ensures
            a == b,
    {
        layout::lemma_reads_determine(
            buf,
            Self::bit_fields(),
            a.bit_values(),
            b.bit_values(),
            Self::join_fields(),
            a.join_values(),
            b.join_values(),
            Self::tail(),
            a.tail_data(),
            b.tail_data(),
        );
        Self::lemma_values_determine(a, b);
    }

    /// A packet reads back from what it was encoded to.
    pub proof fn lemma_roundtrip(self, buf: Seq<u32>)
        requires
            Self::layout_wf(),
            self.fits(),
            buf.len() >= self.size(),
        ensures
            self.read_from(self.spec_encode(buf)),
            Self::decodable(self.spec_encode(buf)),
            self.spec_encode(buf).len() == buf.len(),
    {
        layout::lemma_packet_roundtrip(
            buf,
            Self::bit_fields(),
            self.bit_values(),
            Self::join_fields(),
            self.join_values(),
            Self::tail(),
            self.tail_data(),
            Self::STATIC_DWORDS as nat,
        );
    }
}

/// The `ConstFill` packet.
#[derive(Clone, Copy, Default)]
pub struct ConstFill {
    pub sw: u8,
    pub fill_size: u8,
    pub byte_count: u32,
    pub data: u32,
    pub dst_addr: u64,
}

impl ConstFill {
    /// Dwords of the packet before its variable-length tail.
    pub const STATIC_DWORDS: usize = 5;

    pub open spec fn bit_fields() -> Seq<BitField> {
        seq![BitField { dw: 0, mask: 0x3, shift: 16 }, BitField { dw: 0, mask: 0x3, shift: 30 }, BitField { dw: 4, mask: 0x3fffff, shift: 0 }, BitField { dw: 3, mask: 0xffffffff, shift: 0 }]
    }

    pub open spec fn join_fields() -> Seq<JoinField> {
        seq![JoinField { lo: 1, hi: 2 }]
    }

    pub open spec fn tail() -> Option<DynField> {
        None
    }

    pub open spec fn bit_values(self) -> Seq<u32> {
        seq![self.sw as u32, self.fill_size as u32, self.byte_count, self.data]
    }

    pub open spec fn join_values(self) -> Seq<u64> {
        seq![self.dst_addr]
    }

    pub open spec fn tail_data(self) -> Seq<u32> {
        Seq::<u32>::empty()
    }

    /// Every field value fits its field.
    pub open spec fn fits(self) -> bool {
        layout::fields_fit(Self::bit_fields(), self.bit_values()) && layout::tail_fits(Self::tail(), self.tail_data())
    }

    pub open spec fn layout_wf() -> bool {
        layout::layout_wf(Self::bit_fields(), Self::join_fields(), Self::tail(), Self::STATIC_DWORDS as nat)
    }

    /// Dwords that the packet takes.
    pub open spec fn size(self) -> nat {
        (Self::STATIC_DWORDS + self.tail_data().len()) as nat
    }

    /// The buffer holds the whole packet.
    pub open spec fn decodable(buf: Seq<u32>) -> bool {
        buf.len() >= Self::STATIC_DWORDS
    }

    pub open spec fn spec_encode(self, buf: Seq<u32>) -> Seq<u32> {
        layout::encode_packet(
            buf,
            Self::bit_fields(),
            self.bit_values(),
            Self::join_fields(),
            self.join_values(),
            Self::tail(),
            self.tail_data(),
        )
    }

    /// `buf` holds this packet.
    pub open spec fn read_from(self, buf: Seq<u32>) -> bool {
        layout::packet_reads(
            buf,
            Self::bit_fields(),
            self.bit_values(),
            Self::join_fields(),
            self.join_values(),
            Self::tail(),
            self.tail_data(),
        )
    }

    fn exec_bit_fields() -> (r: Vec<BitField>)
        ensures
            r@ == Self::bit_fields(),
    {
        vec![BitField { dw: 0, mask: 0x3, shift: 16 }, BitField { dw: 0, mask: 0x3, shift: 30 }, BitField { dw: 4, mask: 0x3fffff, shift: 0 }, BitField { dw: 3, mask: 0xffffffff, shift: 0 }]
    }

    fn exec_join_fields() -> (r: Vec<JoinField>)
        ensures
            r@ == Self::join_fields(),
    {
        vec![JoinField { lo: 1, hi: 2 }]
    }

    /// Whether the field layout of this packet is well formed.
    pub fn layout_ok() -> (r: bool)
        ensures
            r == Self::layout_wf(),
    {
        layout_is_wf(&Self::exec_bit_fields(), &Self::exec_join_fields(), None, Self::STATIC_DWORDS)
    }

    /// Writes the packet to the start of `buff`, without its header, and
    /// returns how many dwords it took.
    pub fn partial_encode_linear(&self, buff: &mut [u32]) -> (n: usize)
        requires
            old(buff)@.len() >= self.size(),
            self.fits(),
        ensures
            n == self.size(),
            final(buff)@ == self.spec_encode(old(buff)@),
            final(buff)@.len() == old(buff)@.len(),
    {
        let bits = Self::exec_bit_fields();
        let vals: Vec<u32> = vec![layout::widen_u8(self.sw), layout::widen_u8(self.fill_size), self.byte_count, self.data];
        let joins = Self::exec_join_fields();
        let jvals: Vec<u64> = vec![self.dst_addr];
        proof {
            assert(vals@ =~= self.bit_values());
            assert(jvals@ =~= self.join_values());
        }
        encode_bit_fields(&bits, &vals, buff);
        encode_join_fields(&joins, &jvals, buff);
        Self::STATIC_DWORDS
    }

    /// Reads the packet at the start of `buff` and returns how many dwords it
    /// took.
    pub fn partial_decode_linear(buff: &[u32]) -> (r: (usize, Self))
        requires
            Self::decodable(buff@),
        ensures
            r.0 == r.1.size(),
            r.1.read_from(buff@),
    {
        let bits = Self::exec_bit_fields();
        let v = decode_bit_fields(&bits, buff);
        let joins = Self::exec_join_fields();
        let j = decode_join_fields(&joins, buff);
        let p = Self { sw: layout::narrow_u8(v[0]), fill_size: layout::narrow_u8(v[1]), byte_count: v[2], data: v[3], dst_addr: j[0] };
        proof {
            assert(p.bit_values() =~= v@);
            assert(p.join_values() =~= j@);
        }
        (Self::STATIC_DWORDS, p)
    }

    /// Where each field stands in a buffer that the packet is read from, as
    /// the packet header lays it out: a bit field under its mask and shift
    /// in its dword, a 64-bit field in two dwords, low half first. By
    /// `lemma_roundtrip`, encoding a packet puts its fields there.
    pub proof fn lemma_field_positions(self, buf: Seq<u32>)
        requires
            self.read_from(buf),
        ensures
            layout::u8_value(self.sw) == layout::get_bits(buf[0], 0x3, 16),
            layout::u8_value(self.fill_size) == layout::get_bits(buf[0], 0x3, 30),
            self.byte_count == layout::get_bits(buf[4], 0x3fffff, 0),
            self.data == layout::get_bits(buf[3], 0xffffffff, 0),
            self.dst_addr == layout::dword_pair(buf[1], buf[2]),
    {
        assert(self.bit_values()[0] == layout::u8_value(self.sw));
        assert(layout::decode_bits(buf, Self::bit_fields())[0] == self.bit_values()[0]);
        assert(self.bit_values()[1] == layout::u8_value(self.fill_size));
        assert(layout::decode_bits(buf, Self::bit_fields())[1] == self.bit_values()[1]);
        assert(self.bit_values()[2] == self.byte_count);
        assert(layout::decode_bits(buf, Self::bit_fields())[2] == self.bit_values()[2]);
        assert(self.bit_values()[3] == self.data);
        assert(layout::decode_bits(buf, Self::bit_fields())[3] == self.bit_values()[3]);
        assert(layout::decode_joins(buf, Self::join_fields())[0] == self.join_values()[0]);
    }

    /// The field values name the packet: two packets with the same values are
    /// equal.
    pub proof fn lemma_values_determine(a: Self, b: Self)
        requires
            a.bit_values() == b.bit_values(),
            a.join_values() == b.join_values(),
            a.tail_data() == b.tail_data(),
        ensures
            a == b,
    {
        assert(a.bit_values()[0] == layout::u8_value(a.sw) && b.bit_values()[0] == layout::u8_value(b.sw));
        assert(a.bit_values()[1] == layout::u8_value(a.fill_size) && b.bit_values()[1] == layout::u8_value(b.fill_size));
        assert(a.bit_values()[2] == a.byte_count && b.bit_values()[2] == b.byte_count);
        assert(a.bit_values()[3] == a.data && b.bit_values()[3] == b.data);
        assert(a.join_values()[0] == a.dst_addr && b.join_values()[0] == b.dst_addr);
    }

    /// Reading a packet is exact: two packets read from one buffer are equal.
    pub proof fn lemma_read_unique(a: Self, b: Self, buf: Seq<u32>)
        requires
            a.read_from(buf),
            b.read_from(buf),
        ensures
            a == b,
    {
        layout::lemma_reads_determine(
            buf,
            Self::bit_fields(),
            a.bit_values(),
            b.bit_values(),
            Self::join_fields(),
            a.join_values(),
            b.join_values(),
            Self::tail(),
            a.tail_data(),
            b.tail_data(),
        );
        Self::lemma_values_determine(a, b);
    }

    /// A packet reads back from what it was encoded to.
    pub proof fn lemma_roundtrip(self, buf: Seq<u32>)
        requires
            Self::layout_wf(),
            self.fits(),
            buf.len() >= self.size(),
        ensures
            self.read_from(self.spec_encode(buf)),
            Self::decodable(self.spec_encode(buf)),
            self.spec_encode(buf).len() == buf.len(),
    {
        layout::lemma_packet_roundtrip(
            buf,
            Self::bit_fields(),
            self.bit_values(),
            Self::join_fields(),
            self.join_values(),
            Self::tail(),
            self.tail_data(),
            Self::STATIC_DWORDS as nat,
        );
    }
}

/// The `GenPtepde` packet.
#[derive(Clone, Copy, Default)]
pub struct GenPtepde {
    pub count: u32,
    pub dst_addr: u64,
    pub mask: u64,
    pub init: u64,
    pub incr: u64,
}

impl GenPtepde {
    /// Dwords of the packet before its variable-length tail.
    pub const STATIC_DWORDS: usize = 10;

    pub open spec fn bit_fields() -> Seq<BitField> {
        seq![BitField { dw: 9, mask: 0x7ffff, shift: 0 }]
    }

    pub open spec fn join_fields() -> Seq<JoinField> {
        seq![JoinField { lo: 1, hi: 2 }, JoinField { lo: 3, hi: 4 }, JoinField { lo: 5, hi: 6 }, JoinField { lo: 7, hi: 8 }]
    }

    pub open spec fn tail() -> Option<DynField> {
        None
    }

    pub open spec fn bit_values(self) -> Seq<u32> {
        seq![self.count]
    }

    pub open spec fn join_values(self) -> Seq<u64> {
        seq![self.dst_addr, self.mask, self.init, self.incr]
    }

    pub open spec fn tail_data(self) -> Seq<u32> {
        Seq::<u32>::empty()
    }

    /// Every field value fits its field.
    pub open spec fn fits(self) -> bool {
        layout::fields_fit(Self::bit_fields(), self.bit_values()) && layout::tail_fits(Self::tail(), self.tail_data())
    }

    pub open spec fn layout_wf() -> bool {
        layout::layout_wf(Self::bit_fields(), Self::join_fields(), Self::tail(), Self::STATIC_DWORDS as nat)
    }

    /// Dwords that the packet takes.
    pub open spec fn size(self) -> nat {
        (Self::STATIC_DWORDS + self.tail_data().len()) as nat
    }

    /// The buffer holds the whole packet.
    pub open spec fn decodable(buf: Seq<u32>) -> bool {
        buf.len() >= Self::STATIC_DWORDS
    }

    pub open spec fn spec_encode(self, buf: Seq<u32>) -> Seq<u32> {
        layout::encode_packet(
            buf,
            Self::bit_fields(),
            self.bit_values(),
            Self::join_fields(),
            self.join_values(),
            Self::tail(),
            self.tail_data(),
        )
    }

    /// `buf` holds this packet.
    pub open spec fn read_from(self, buf: Seq<u32>) -> bool {
        layout::packet_reads(
            buf,
            Self::bit_fields(),
            self.bit_values(),
            Self::join_fields(),
            self.join_values(),
            Self::tail(),
            self.tail_data(),
        )
    }

    fn exec_bit_fields() -> (r: Vec<BitField>)
        ensures
            r@ == Self::bit_fields(),
    {
        vec![BitField { dw: 9, mask: 0x7ffff, shift: 0 }]
    }

    fn exec_join_fields() -> (r: Vec<JoinField>)
        ensures
            r@ == Self::join_fields(),
    {
        vec![JoinField { lo: 1, hi: 2 }, JoinField { lo: 3, hi: 4 }, JoinField { lo: 5, hi: 6 }, JoinField { lo: 7, hi: 8 }]
    }

    /// Whether the field layout of this packet is well formed.
    pub fn layout_ok() -> (r: bool)
        ensures
            r == Self::layout_wf(),
    {
        layout_is_wf(&Self::exec_bit_fields(), &Self::exec_join_fields(), None, Self::STATIC_DWORDS)
    }

    /// Writes the packet to the start of `buff`, without its header, and
    /// returns how many dwords it took.
    pub fn partial_encode_linear(&self, buff: &mut [u32]) -> (n: usize)
        requires
            old(buff)@.len() >= self.size(),
            self.fits(),
        ensures
            n == self.size(),
            final(buff)@ == self.spec_encode(old(buff)@),
            final(buff)@.len() == old(buff)@.len(),
    {
        let bits = Self::exec_bit_fields();
        let vals: Vec<u32> = vec![self.count];
        let joins = Self::exec_join_fields();
        let jvals: Vec<u64> = vec![self.dst_addr, self.mask, self.init, self.incr];
        proof {
            assert(vals@ =~= self.bit_values());
            assert(jvals@ =~= self.join_values());
        }
        encode_bit_fields(&bits, &vals, buff);
        encode_join_fields(&joins, &jvals, buff);
        Self::STATIC_DWORDS
    }

    /// Reads the packet at the start of `buff` and returns how many dwords it
    /// took.
    pub fn partial_decode_linear(buff: &[u32]) -> (r: (usize, Self))
        requires
            Self::decodable(buff@),
        ensures
            r.0 == r.1.size(),
            r.1.read_from(buff@),
    {
        let bits = Self::exec_bit_fields();
        let v = decode_bit_fields(&bits, buff);
        let joins = Self::exec_join_fields();
        let j = decode_join_fields(&joins, buff);
        let p = Self { count: v[0], dst_addr: j[0], mask: j[1], init: j[2], incr: j[3] };
        proof {
            assert(p.bit_values() =~= v@);
            assert(p.join_values() =~= j@);
        }
        (Self::STATIC_DWORDS, p)
    }

    /// Where each field stands in a buffer that the packet is read from, as
    /// the packet header lays it out: a bit field under its mask and shift
    /// in its dword, a 64-bit field in two dwords, low half first. By
    /// `lemma_roundtrip`, encoding a packet puts its fields there.
    pub proof fn lemma_field_positions(self, buf: Seq<u32>)
        requires
            self.read_from(buf),
        ensures
            self.count == layout::get_bits(buf[9], 0x7ffff, 0),
            self.dst_addr == layout::dword_pair(buf[1], buf[2]),
            self.mask == layout::dword_pair(buf[3], buf[4]),
            self.init == layout::dword_pair(buf[5], buf[6]),
            self.incr == layout::dword_pair(buf[7], buf[8]),
    {
        assert(self.bit_values()[0] == self.count);
        assert(layout::decode_bits(buf, Self::bit_fields())[0] == self.bit_values()[0]);
        assert(layout::decode_joins(buf, Self::join_fields())[0] == self.join_values()[0]);
        assert(layout::decode_joins(buf, Self::join_fields())[1] == self.join_values()[1]);
        assert(layout::decode_joins(buf, Self::join_fields())[2] == self.join_values()[2]);
        assert(layout::decode_joins(buf, Self::join_fields())[3] == self.join_values()[3]);
    }

    /// The field values name the packet: two packets with the same values are
    /// equal.
    pub proof fn lemma_values_determine(a: Self, b: Self)
        requires
            a.bit_values() == b.bit_values(),
            a.join_values() == b.join_values(),
            a.tail_data() == b.tail_data(),
        ensures
            a == b,
    {
        assert(a.bit_values()[0] == a.count && b.bit_values()[0] == b.count);
        assert(a.join_values()[0] == a.dst_addr && b.join_values()[0] == b.dst_addr);
        assert(a.join_values()[1] == a.mask && b.join_values()[1] == b.mask);
        assert(a.join_values()[2] == a.init && b.join_values()[2] == b.init);
        assert(a.join_values()[3] == a.incr && b.join_values()[3] == b.incr);
    }

    /// Reading a packet is exact: two packets read from one buffer are equal.
    pub proof fn lemma_read_unique(a: Self, b: Self, buf: Seq<u32>)
        requires
            a.read_from(buf),
            b.read_from(buf),
        ensures
            a == b,
    {
        layout::lemma_reads_determine(
            buf,
            Self::bit_fields(),
            a.bit_values(),
            b.bit_values(),
            Self::join_fields(),
            a.join_values(),
            b.join_values(),
            Self::tail(),
            a.tail_data(),
            b.tail_data(),
        );
        Self::lemma_values_determine(a, b);
    }

    /// A packet reads back from what it was encoded to.
    pub proof fn lemma_roundtrip(self, buf: Seq<u32>)
        requires
            Self::layout_wf(),
            self.fits(),
            buf.len() >= self.size(),
        ensures
            self.read_from(self.spec_encode(buf)),
            Self::decodable(self.spec_encode(buf)),
            self.spec_encode(buf).len() == buf.len(),
    {
        layout::lemma_packet_roundtrip(
            buf,
            Self::bit_fields(),
            self.bit_values(),
            Self::join_fields(),
            self.join_values(),
            Self::tail(),
            self.tail_data(),
            Self::STATIC_DWORDS as nat,
        );
    }
}

/// The `TimestampSet` packet.
#[derive(Clone, Copy, Default)]
pub struct TimestampSet {
    pub init_data: u64,
}

impl TimestampSet {
    /// Dwords of the packet before its variable-length tail.
    pub const STATIC_DWORDS: usize = 3;

    pub open spec fn bit_fields() -> Seq<BitField> {
        Seq::<BitField>::empty()
    }

    pub open spec fn join_fields() -> Seq<JoinField> {
        seq![JoinField { lo: 1, hi: 2 }]
    }

    pub open spec fn tail() -> Option<DynField> {
        None
    }

    pub open spec fn bit_values(self) -> Seq<u32> {
        Seq::<u32>::empty()
    }

    pub open spec fn join_values(self) -> Seq<u64> {
        seq![self.init_data]
    }

    pub open spec fn tail_data(self) -> Seq<u32> {
        Seq::<u32>::empty()
    }

    /// Every field value fits its field.
    pub open spec fn fits(self) -> bool {
        layout::fields_fit(Self::bit_fields(), self.bit_values()) && layout::tail_fits(Self::tail(), self.tail_data())
    }

    pub open spec fn layout_wf() -> bool {
        layout::layout_wf(Self::bit_fields(), Self::join_fields(), Self::tail(), Self::STATIC_DWORDS as nat)
    }

    /// Dwords that the packet takes.
    pub open spec fn size(self) -> nat {
        (Self::STATIC_DWORDS + self.tail_data().len()) as nat
    }

    /// The buffer holds the whole packet.
    pub open spec fn decodable(buf: Seq<u32>) -> bool {
        buf.len() >= Self::STATIC_DWORDS
    }

    pub open spec fn spec_encode(self, buf: Seq<u32>) -> Seq<u32> {
        layout::encode_packet(
            buf,
            Self::bit_fields(),
            self.bit_values(),
            Self::join_fields(),
            self.join_values(),
            Self::tail(),
            self.tail_data(),
        )
    }

    /// `buf` holds this packet.
    pub open spec fn read_from(self, buf: Seq<u32>) -> bool {
        layout::packet_reads(
            buf,
            Self::bit_fields(),
            self.bit_values(),
            Self::join_fields(),
            self.join_values(),
            Self::tail(),
            self.tail_data(),
        )
    }

    fn exec_bit_fields() -> (r: Vec<BitField>)
        ensures
            r@ == Self::bit_fields(),
    {
        Vec::<BitField>::new()
    }

    fn exec_join_fields() -> (r: Vec<JoinField>)
        ensures
            r@ == Self::join_fields(),
    {
        vec![JoinField { lo: 1, hi: 2 }]
    }

    /// Whether the field layout of this packet is well formed.
    pub fn layout_ok() -> (r: bool)
        ensures
            r == Self::layout_wf(),
    {
        layout_is_wf(&Self::exec_bit_fields(), &Self::exec_join_fields(), None, Self::STATIC_DWORDS)
    }

    /// Writes the packet to the start of `buff`, without its header, and
    /// returns how many dwords it took.
    pub fn partial_encode_linear(&self, buff: &mut [u32]) -> (n: usize)
        requires
            old(buff)@.len() >= self.size(),
            self.fits(),
        ensures
            n == self.size(),
            final(buff)@ == self.spec_encode(old(buff)@),
            final(buff)@.len() == old(buff)@.len(),
    {
        let bits = Self::exec_bit_fields();
        let vals: Vec<u32> = Vec::<u32>::new();
        let joins = Self::exec_join_fields();
        let jvals: Vec<u64> = vec![self.init_data];
        proof {
            assert(vals@ =~= self.bit_values());
            assert(jvals@ =~= self.join_values());
        }
        encode_bit_fields(&bits, &vals, buff);
        encode_join_fields(&joins, &jvals, buff);
        Self::STATIC_DWORDS
    }

    /// Reads the packet at the start of `buff` and returns how many dwords it
    /// took.
    pub fn partial_decode_linear(buff: &[u32]) -> (r: (usize, Self))
        requires
            Self::decodable(buff@),
        ensures
            r.0 == r.1.size(),
            r.1.read_from(buff@),
    {
        let bits = Self::exec_bit_fields();
        let v = decode_bit_fields(&bits, buff);
        let joins = Self::exec_join_fields();
        let j = decode_join_fields(&joins, buff);
        let p = Self { init_data: j[0] };
        proof {
            assert(p.bit_values() =~= v@);
            assert(p.join_values() =~= j@);
        }
        (Self::STATIC_DWORDS, p)
    }

    /// Where each field stands in a buffer that the packet is read from, as
    /// the packet header lays it out: a bit field under its mask and shift
    /// in its dword, a 64-bit field in two dwords, low half first. By
    /// `lemma_roundtrip`, encoding a packet puts its fields there.
    pub proof fn lemma_field_positions(self, buf: Seq<u32>)
        requires
            self.read_from(buf),
        ensures
            self.init_data == layout::dword_pair(buf[1], buf[2]),
    {
        assert(layout::decode_joins(buf, Self::join_fields())[0] == self.join_values()[0]);
    }

    /// The field values name the packet: two packets with the same values are
    /// equal.
    pub proof fn lemma_values_determine(a: Self, b: Self)
        requires
            a.bit_values() == b.bit_values(),
            a.join_values() == b.join_values(),
            a.tail_data() == b.tail_data(),
        ensures
            a == b,
    {
        assert(a.join_values()[0] == a.init_data && b.join_values()[0] == b.init_data);
    }

    /// Reading a packet is exact: two packets read from one buffer are equal.
    pub proof fn lemma_read_unique(a: Self, b: Self, buf: Seq<u32>)
        requires
            a.read_from(buf),
            b.read_from(buf),
        ensures
            a == b,
    {
        layout::lemma_reads_determine(
            buf,
            Self::bit_fields(),
            a.bit_values(),
            b.bit_values(),
            Self::join_fields(),
            a.join_values(),
            b.join_values(),
            Self::tail(),
            a.tail_data(),
            b.tail_data(),
        );
        Self::lemma_values_determine(a, b);
    }

    /// A packet reads back from what it was encoded to.
    pub proof fn lemma_roundtrip(self, buf: Seq<u32>)
        requires
            Self::layout_wf(),
            self.fits(),
            buf.len() >= self.size(),
        ensures
            self.read_from(self.spec_encode(buf)),
            Self::decodable(self.spec_encode(buf)),
            self.spec_encode(buf).len() == buf.len(),
    {
        layout::lemma_packet_roundtrip(
            buf,
            Self::bit_fields(),
            self.bit_values(),
            Self::join_fields(),
            self.join_values(),
            Self::tail(),
            self.tail_data(),
            Self::STATIC_DWORDS as nat,
        );
    }
}

/// The `TimestampGet` packet.
#[derive(Clone, Copy, Default)]
pub struct TimestampGet {
    pub write_addr: u64,
}

impl TimestampGet {
    /// Dwords of the packet before its variable-length tail.
    pub const STATIC_DWORDS: usize = 3;

    pub open spec fn bit_fields() -> Seq<BitField> {
        Seq::<BitField>::empty()
    }

    pub open spec fn join_fields() -> Seq<JoinField> {
        seq![JoinField { lo: 1, hi: 2 }]
    }

    pub open spec fn tail() -> Option<DynField> {
        None
    }

    pub open spec fn bit_values(self) -> Seq<u32> {
        Seq::<u32>::empty()
    }

    pub open spec fn join_values(self) -> Seq<u64> {
        seq![self.write_addr]
    }

    pub open spec fn tail_data(self) -> Seq<u32> {
        Seq::<u32>::empty()
    }

    /// Every field value fits its field.
    pub open spec fn fits(self) -> bool {
        layout::fields_fit(Self::bit_fields(), self.bit_values()) && layout::tail_fits(Self::tail(), self.tail_data())
    }

    pub open spec fn layout_wf() -> bool {
        layout::layout_wf(Self::bit_fields(), Self::join_fields(), Self::tail(), Self::STATIC_DWORDS as nat)
    }

    /// Dwords that the packet takes.
    pub open spec fn size(self) -> nat {
        (Self::STATIC_DWORDS + self.tail_data().len()) as nat
    }

    /// The buffer holds the whole packet.
    pub open spec fn decodable(buf: Seq<u32>) -> bool {
        buf.len() >= Self::STATIC_DWORDS
    }

    pub open spec fn spec_encode(self, buf: Seq<u32>) -> Seq<u32> {
        layout::encode_packet(
            buf,
            Self::bit_fields(),
            self.bit_values(),
            Self::join_fields(),
            self.join_values(),
            Self::tail(),
            self.tail_data(),
        )
    }

    /// `buf` holds this packet.
    pub open spec fn read_from(self, buf: Seq<u32>) -> bool {
        layout::packet_reads(
            buf,
            Self::bit_fields(),
            self.bit_values(),
            Self::join_fields(),
            self.join_values(),
            Self::tail(),
            self.tail_data(),
        )
    }

    fn exec_bit_fields() -> (r: Vec<BitField>)
        ensures
            r@ == Self::bit_fields(),
    {
        Vec::<BitField>::new()
    }

    fn exec_join_fields() -> (r: Vec<JoinField>)
        ensures
            r@ == Self::join_fields(),
    {
        vec![JoinField { lo: 1, hi: 2 }]
    }

    /// Whether the field layout of this packet is well formed.
    pub fn layout_ok() -> (r: bool)
        ensures
            r == Self::layout_wf(),
    {
        layout_is_wf(&Self::exec_bit_fields(), &Self::exec_join_fields(), None, Self::STATIC_DWORDS)
    }

    /// Writes the packet to the start of `buff`, without its header, and
    /// returns how many dwords it took.
    pub fn partial_encode_linear(&self, buff: &mut [u32]) -> (n: usize)
        requires
            old(buff)@.len() >= self.size(),
            self.fits(),
        ensures
            n == self.size(),
            final(buff)@ == self.spec_encode(old(buff)@),
            final(buff)@.len() == old(buff)@.len(),
    {
        let bits = Self::exec_bit_fields();
        let vals: Vec<u32> = Vec::<u32>::new();
        let joins = Self::exec_join_fields();
        let jvals: Vec<u64> = vec![self.write_addr];
        proof {
            assert(vals@ =~= self.bit_values());
            assert(jvals@ =~= self.join_values());
        }
        encode_bit_fields(&bits, &vals, buff);
        encode_join_fields(&joins, &jvals, buff);
        Self::STATIC_DWORDS
    }

    /// Reads the packet at the start of `buff` and returns how many dwords it
    /// took.
    pub fn partial_decode_linear(buff: &[u32]) -> (r: (usize, Self))
        requires
            Self::decodable(buff@),
        ensures
            r.0 == r.1.size(),
            r.1.read_from(buff@),
    {
        let bits = Self::exec_bit_fields();
        let v = decode_bit_fields(&bits, buff);
        let joins = Self::exec_join_fields();
        let j = decode_join_fields(&joins, buff);
        let p = Self { write_addr: j[0] };
        proof {
            assert(p.bit_values() =~= v@);
            assert(p.join_values() =~= j@);
        }
        (Self::STATIC_DWORDS, p)
    }

    /// Where each field stands in a buffer that the packet is read from, as
    /// the packet header lays it out: a bit field under its mask and shift
    /// in its dword, a 64-bit field in two dwords, low half first. By
    /// `lemma_roundtrip`, encoding a packet puts its fields there.
    pub proof fn lemma_field_positions(self, buf: Seq<u32>)
        requires
            self.read_from(buf),
        ensures
            self.write_addr == layout::dword_pair(buf[1], buf[2]),
    {
        assert(layout::decode_joins(buf, Self::join_fields())[0] == self.join_values()[0]);
    }

    /// The field values name the packet: two packets with the same values are
    /// equal.
    pub proof fn lemma_values_determine(a: Self, b: Self)
        requires
            a.bit_values() == b.bit_values(),
            a.join_values() == b.join_values(),
            a.tail_data() == b.tail_data(),
        ensures
            a == b,
    {
        assert(a.join_values()[0] == a.write_addr && b.join_values()[0] == b.write_addr);
    }

    /// Reading a packet is exact: two packets read from one buffer are equal.
    pub proof fn lemma_read_unique(a: Self, b: Self, buf: Seq<u32>)
        requires
            a.read_from(buf),
            b.read_from(buf),
        ensures
            a == b,
    {
        layout::lemma_reads_determine(
            buf,
            Self::bit_fields(),
            a.bit_values(),
            b.bit_values(),
            Self::join_fields(),
            a.join_values(),
            b.join_values(),
            Self::tail(),
            a.tail_data(),
            b.tail_data(),
        );
        Self::lemma_values_determine(a, b);
    }

    /// A packet reads back from what it was encoded to.
    pub proof fn lemma_roundtrip(self, buf: Seq<u32>)
        requires
            Self::layout_wf(),
            self.fits(),
            buf.len() >= self.size(),
        ensures
            self.read_from(self.spec_encode(buf)),
            Self::decodable(self.spec_encode(buf)),
            self.spec_encode(buf).len() == buf.len(),
    {
        layout::lemma_packet_roundtrip(
            buf,
            Self::bit_fields(),
            self.bit_values(),
            Self::join_fields(),
            self.join_values(),
            Self::tail(),
            self.tail_data(),
            Self::STATIC_DWORDS as nat,
        );
    }
}

/// The `TimestampGetGlobal` packet.
#[derive(Clone, Copy, Default)]
pub struct TimestampGetGlobal {
    pub write_addr: u64,
}

impl TimestampGetGlobal {
    /// Dwords of the packet before its variable-length tail.
    pub const STATIC_DWORDS: usize = 3;

    pub open spec fn bit_fields() -> Seq<BitField> {
        Seq::<BitField>::empty()
    }

    pub open spec fn join_fields() -> Seq<JoinField> {
        seq![JoinField { lo: 1, hi: 2 }]
    }

    pub open spec fn tail() -> Option<DynField> {
        None
    }

    pub open spec fn bit_values(self) -> Seq<u32> {
        Seq::<u32>::empty()
    }

    pub open spec fn join_values(self) -> Seq<u64> {
        seq![self.write_addr]
    }

    pub open spec fn tail_data(self) -> Seq<u32> {
        Seq::<u32>::empty()
    }

    /// Every field value fits its field.
    pub open spec fn fits(self) -> bool {
        layout::fields_fit(Self::bit_fields(), self.bit_values()) && layout::tail_fits(Self::tail(), self.tail_data())
    }

    pub open spec fn layout_wf() -> bool {
        layout::layout_wf(Self::bit_fields(), Self::join_fields(), Self::tail(), Self::STATIC_DWORDS as nat)
    }

    /// Dwords that the packet takes.
    pub open spec fn size(self) -> nat {
        (Self::STATIC_DWORDS + self.tail_data().len()) as nat
    }

    /// The buffer holds the whole packet.
    pub open spec fn decodable(buf: Seq<u32>) -> bool {
        buf.len() >= Self::STATIC_DWORDS
    }

    pub open spec fn spec_encode(self, buf: Seq<u32>) -> Seq<u32> {
        layout::encode_packet(
            buf,
            Self::bit_fields(),
            self.bit_values(),
            Self::join_fields(),
            self.join_values(),
            Self::tail(),
            self.tail_data(),
        )
    }

    /// `buf` holds this packet.
    pub open spec fn read_from(self, buf: Seq<u32>) -> bool {
        layout::packet_reads(
            buf,
            Self::bit_fields(),
            self.bit_values(),
            Self::join_fields(),
            self.join_values(),
            Self::tail(),
            self.tail_data(),
        )
    }

    fn exec_bit_fields() -> (r: Vec<BitField>)
        ensures
            r@ == Self::bit_fields(),
    {
        Vec::<BitField>::new()
    }

    fn exec_join_fields() -> (r: Vec<JoinField>)
        ensures
            r@ == Self::join_fields(),
    {
        vec![JoinField { lo: 1, hi: 2 }]
    }

    /// Whether the field layout of this packet is well formed.
    pub fn layout_ok() -> (r: bool)
        ensures
            r == Self::layout_wf(),
    {
        layout_is_wf(&Self::exec_bit_fields(), &Self::exec_join_fields(), None, Self::STATIC_DWORDS)
    }

    /// Writes the packet to the start of `buff`, without its header, and
    /// returns how many dwords it took.
    pub fn partial_encode_linear(&self, buff: &mut [u32]) -> (n: usize)
        requires
            old(buff)@.len() >= self.size(),
            self.fits(),
        ensures
            n == self.size(),
            final(buff)@ == self.spec_encode(old(buff)@),
            final(buff)@.len() == old(buff)@.len(),
    {
        let bits = Self::exec_bit_fields();
        let vals: Vec<u32> = Vec::<u32>::new();
        let joins = Self::exec_join_fields();
        let jvals: Vec<u64> = vec![self.write_addr];
        proof {
            assert(vals@ =~= self.bit_values());
            assert(jvals@ =~= self.join_values());
        }
        encode_bit_fields(&bits, &vals, buff);
        encode_join_fields(&joins, &jvals, buff);
        Self::STATIC_DWORDS
    }

    /// Reads the packet at the start of `buff` and returns how many dwords it
    /// took.
    pub fn partial_decode_linear(buff: &[u32]) -> (r: (usize, Self))
        requires
            Self::decodable(buff@),
        ensures
            r.0 == r.1.size(),
            r.1.read_from(buff@),
    {
        let bits = Self::exec_bit_fields();
        let v = decode_bit_fields(&bits, buff);
        let joins = Self::exec_join_fields();
        let j = decode_join_fields(&joins, buff);
        let p = Self { write_addr: j[0] };
        proof {
            assert(p.bit_values() =~= v@);
            assert(p.join_values() =~= j@);
        }
        (Self::STATIC_DWORDS, p)
    }

    /// Where each field stands in a buffer that the packet is read from, as
    /// the packet header lays it out: a bit field under its mask and shift
    /// in its dword, a 64-bit field in two dwords, low half first. By
    /// `lemma_roundtrip`, encoding a packet puts its fields there.
    pub proof fn lemma_field_positions(self, buf: Seq<u32>)
        requires
            self.read_from(buf),
        ensures
            self.write_addr == layout::dword_pair(buf[1], buf[2]),
    {
        assert(layout::decode_joins(buf, Self::join_fields())[0] == self.join_values()[0]);
    }

    /// The field values name the packet: two packets with the same values are
    /// equal.
    pub proof fn lemma_values_determine(a: Self, b: Self)
        requires
            a.bit_values() == b.bit_values(),
            a.join_values() == b.join_values(),
            a.tail_data() == b.tail_data(),
        ensures
            a == b,
    {
        assert(a.join_values()[0] == a.write_addr && b.join_values()[0] == b.write_addr);
    }

    /// Reading a packet is exact: two packets read from one buffer are equal.
    pub proof fn lemma_read_unique(a: Self, b: Self, buf: Seq<u32>)
        requires
            a.read_from(buf),
            b.read_from(buf),
        ensures
            a == b,
    {
        layout::lemma_reads_determine(
            buf,
            Self::bit_fields(),
            a.bit_values(),
            b.bit_values(),
            Self::join_fields(),
            a.join_values(),
            b.join_values(),
            Self::tail(),
            a.tail_data(),
            b.tail_data(),
        );
        Self::lemma_values_determine(a, b);
    }

    /// A packet reads back from what it was encoded to.
    pub proof fn lemma_roundtrip(self, buf: Seq<u32>)
        requires
            Self::layout_wf(),
            self.fits(),
            buf.len() >= self.size(),
        ensures
            self.read_from(self.spec_encode(buf)),
            Self::decodable(self.spec_encode(buf)),
            self.spec_encode(buf).len() == buf.len(),
    {
        layout::lemma_packet_roundtrip(
            buf,
            Self::bit_fields(),
            self.bit_values(),
            Self::join_fields(),
            self.join_values(),
            Self::tail(),
            self.tail_data(),
            Self::STATIC_DWORDS as nat,
        );
    }
}

/// The `SrbmWrite` packet.
#[derive(Clone, Copy, Default)]
pub struct SrbmWrite {
    pub byte_enable: u8,
    pub addr: u16,
    pub data: u32,
}

impl SrbmWrite {
    /// Dwords of the packet before its variable-length tail.
    pub const STATIC_DWORDS: usize = 3;

    pub open spec fn bit_fields() -> Seq<BitField> {
        seq![BitField { dw: 0, mask: 0xf, shift: 28 }, BitField { dw: 1, mask: 0xffff, shift: 0 }, BitField { dw: 2, mask: 0xffffffff, shift: 0 }]
    }

    pub open spec fn join_fields() -> Seq<JoinField> {
        Seq::<JoinField>::empty()
    }

    pub open spec fn tail() -> Option<DynField> {
        None
    }

    pub open spec fn bit_values(self) -> Seq<u32> {
        seq![self.byte_enable as u32, self.addr as u32, self.data]
    }

    pub open spec fn join_values(self) -> Seq<u64> {
        Seq::<u64>::empty()
    }

    pub open spec fn tail_data(self) -> Seq<u32> {
        Seq::<u32>::empty()
    }

    /// Every field value fits its field.
    pub open spec fn fits(self) -> bool {
        layout::fields_fit(Self::bit_fields(), self.bit_values()) && layout::tail_fits(Self::tail(), self.tail_data())
    }

    pub open spec fn layout_wf() -> bool {
        layout::layout_wf(Self::bit_fields(), Self::join_fields(), Self::tail(), Self::STATIC_DWORDS as nat)
    }

    /// Dwords that the packet takes.
    pub open spec fn size(self) -> nat {
        (Self::STATIC_DWORDS + self.tail_data().len()) as nat
    }

    /// The buffer holds the whole packet.
    pub open spec fn decodable(buf: Seq<u32>) -> bool {
        buf.len() >= Self::STATIC_DWORDS
    }

    pub open spec fn spec_encode(self, buf: Seq<u32>) -> Seq<u32> {
        layout::encode_packet(
            buf,
            Self::bit_fields(),
            self.bit_values(),
            Self::join_fields(),
            self.join_values(),
            Self::tail(),
            self.tail_data(),
        )
    }

    /// `buf` holds this packet.
    pub open spec fn read_from(self, buf: Seq<u32>) -> bool {
        layout::packet_reads(
            buf,
            Self::bit_fields(),
            self.bit_values(),
            Self::join_fields(),
            self.join_values(),
            Self::tail(),
            self.tail_data(),
        )
    }

    fn exec_bit_fields() -> (r: Vec<BitField>)
        ensures
            r@ == Self::bit_fields(),
    {
        vec![BitField { dw: 0, mask: 0xf, shift: 28 }, BitField { dw: 1, mask: 0xffff, shift: 0 }, BitField { dw: 2, mask: 0xffffffff, shift: 0 }]
    }

    fn exec_join_fields() -> (r: Vec<JoinField>)
        ensures
            r@ == Self::join_fields(),
    {
        Vec::<JoinField>::new()
    }

    /// Whether the field layout of this packet is well formed.
    pub fn layout_ok() -> (r: bool)
        ensures
            r == Self::layout_wf(),
    {
        layout_is_wf(&Self::exec_bit_fields(), &Self::exec_join_fields(), None, Self::STATIC_DWORDS)
    }

    /// Writes the packet to the start of `buff`, without its header, and
    /// returns how many dwords it took.
    pub fn partial_encode_linear(&self, buff: &mut [u32]) -> (n: usize)
        requires
            old(buff)@.len() >= self.size(),
            self.fits(),
        ensures
            n == self.size(),
            final(buff)@ == self.spec_encode(old(buff)@),
            final(buff)@.len() == old(buff)@.len(),
    {
        let bits = Self::exec_bit_fields();
        let vals: Vec<u32> = vec![layout::widen_u8(self.byte_enable), layout::widen_u16(self.addr), self.data];
        let joins = Self::exec_join_fields();
        let jvals: Vec<u64> = Vec::<u64>::new();
        proof {
            assert(vals@ =~= self.bit_values());
            assert(jvals@ =~= self.join_values());
        }
        encode_bit_fields(&bits, &vals, buff);
        encode_join_fields(&joins, &jvals, buff);
        Self::STATIC_DWORDS
    }

    /// Reads the packet at the start of `buff` and returns how many dwords it
    /// took.
    pub fn partial_decode_linear(buff: &[u32]) -> (r: (usize, Self))
        requires
            Self::decodable(buff@),
        ensures
            r.0 == r.1.size(),
            r.1.read_from(buff@),
    {
        let bits = Self::exec_bit_fields();
        let v = decode_bit_fields(&bits, buff);
        let joins = Self::exec_join_fields();
        let j = decode_join_fields(&joins, buff);
        let p = Self { byte_enable: layout::narrow_u8(v[0]), addr: layout::narrow_u16(v[1]), data: v[2] };
        proof {
            assert(p.bit_values() =~= v@);
            assert(p.join_values() =~= j@);
        }
        (Self::STATIC_DWORDS, p)
    }

    /// Where each field stands in a buffer that the packet is read from, as
    /// the packet header lays it out: a bit field under its mask and shift
    /// in its dword, a 64-bit field in two dwords, low half first. By
    /// `lemma_roundtrip`, encoding a packet puts its fields there.
    pub proof fn lemma_field_positions(self, buf: Seq<u32>)
        requires
            self.read_from(buf),
        ensures
            layout::u8_value(self.byte_enable) == layout::get_bits(buf[0], 0xf, 28),
            layout::u16_value(self.addr) == layout::get_bits(buf[1], 0xffff, 0),
            self.data == layout::get_bits(buf[2], 0xffffffff, 0),
    {
        assert(self.bit_values()[0] == layout::u8_value(self.byte_enable));
        assert(layout::decode_bits(buf, Self::bit_fields())[0] == self.bit_values()[0]);
        assert(self.bit_values()[1] == layout::u16_value(self.addr));
        assert(layout::decode_bits(buf, Self::bit_fields())[1] == self.bit_values()[1]);
        assert(self.bit_values()[2] == self.data);
        assert(layout::decode_bits(buf, Self::bit_fields())[2] == self.bit_values()[2]);
    }

    /// The field values name the packet: two packets with the same values are
    /// equal.
    pub proof fn lemma_values_determine(a: Self, b: Self)
        requires
            a.bit_values() == b.bit_values(),
            a.join_values() == b.join_values(),
            a.tail_data() == b.tail_data(),
        ensures
            a == b,
    {
        assert(a.bit_values()[0] == layout::u8_value(a.byte_enable) && b.bit_values()[0] == layout::u8_value(b.byte_enable));
        assert(a.bit_values()[1] == layout::u16_value(a.addr) && b.bit_values()[1] == layout::u16_value(b.addr));
        assert(a.bit_values()[2] == a.data && b.bit_values()[2] == b.data);
    }

    /// Reading a packet is exact: two packets read from one buffer are equal.
    pub proof fn lemma_read_unique(a: Self, b: Self, buf: Seq<u32>)
        requires
            a.read_from(buf),
            b.read_from(buf),
        ensures
            a == b,
    {
        layout::lemma_reads_determine(
            buf,
            Self::bit_fields(),
            a.bit_values(),
            b.bit_values(),
            Self::join_fields(),
            a.join_values(),
            b.join_values(),
            Self::tail(),
            a.tail_data(),
            b.tail_data(),
        );
        Self::lemma_values_determine(a, b);
    }

    /// A packet reads back from what it was encoded to.
    pub proof fn lemma_roundtrip(self, buf: Seq<u32>)
        requires
            Self::layout_wf(),
            self.fits(),
            buf.len() >= self.size(),
        ensures
            self.read_from(self.spec_encode(buf)),
            Self::decodable(self.spec_encode(buf)),
            self.spec_encode(buf).len() == buf.len(),
    {
        layout::lemma_packet_roundtrip(
            buf,
            Self::bit_fields(),
            self.bit_values(),
            Self::join_fields(),
            self.join_values(),
            Self::tail(),
            self.tail_data(),
            Self::STATIC_DWORDS as nat,
        );
    }
}

/// The `PreExe` packet.
#[derive(Clone, Copy, Default)]
pub struct PreExe {
    pub dev_sel: u8,
    pub exec_count: u16,
}

impl PreExe {
    /// Dwords of the packet before its variable-length tail.
    pub const STATIC_DWORDS: usize = 2;

    pub open spec fn bit_fields() -> Seq<BitField> {
        seq![BitField { dw: 0, mask: 0xff, shift: 16 }, BitField { dw: 1, mask: 0x3fff, shift: 0 }]
    }

    pub open spec fn join_fields() -> Seq<JoinField> {
        Seq::<JoinField>::empty()
    }

    pub open spec fn tail() -> Option<DynField> {
        None
    }

    pub open spec fn bit_values(self) -> Seq<u32> {
        seq![self.dev_sel as u32, self.exec_count as u32]
    }

    pub open spec fn join_values(self) -> Seq<u64> {
        Seq::<u64>::empty()
    }

    pub open spec fn tail_data(self) -> Seq<u32> {
        Seq::<u32>::empty()
    }

    /// Every field value fits its field.
    pub open spec fn fits(self) -> bool {
        layout::fields_fit(Self::bit_fields(), self.bit_values()) && layout::tail_fits(Self::tail(), self.tail_data())
    }

    pub open spec fn layout_wf() -> bool {
        layout::layout_wf(Self::bit_fields(), Self::join_fields(), Self::tail(), Self::STATIC_DWORDS as nat)
    }

    /// Dwords that the packet takes.
    pub open spec fn size(self) -> nat {
        (Self::STATIC_DWORDS + self.tail_data().len()) as nat
    }

    /// The buffer holds the whole packet.
    pub open spec fn decodable(buf: Seq<u32>) -> bool {
        buf.len() >= Self::STATIC_DWORDS
    }

    pub open spec fn spec_encode(self, buf: Seq<u32>) -> Seq<u32> {
        layout::encode_packet(
            buf,
            Self::bit_fields(),
            self.bit_values(),
            Self::join_fields(),
            self.join_values(),
            Self::tail(),
            self.tail_data(),
        )
    }

    /// `buf` holds this packet.
    pub open spec fn read_from(self, buf: Seq<u32>) -> bool {
        layout::packet_reads(
            buf,
            Self::bit_fields(),
            self.bit_values(),
            Self::join_fields(),
            self.join_values(),
            Self::tail(),
            self.tail_data(),
        )
    }

    fn exec_bit_fields() -> (r: Vec<BitField>)
        ensures
            r@ == Self::bit_fields(),
    {
        vec![BitField { dw: 0, mask: 0xff, shift: 16 }, BitField { dw: 1, mask: 0x3fff, shift: 0 }]
    }

    fn exec_join_fields() -> (r: Vec<JoinField>)
        ensures
            r@ == Self::join_fields(),
    {
        Vec::<JoinField>::new()
    }

    /// Whether the field layout of this packet is well formed.
    pub fn layout_ok() -> (r: bool)
        ensures
            r == Self::layout_wf(),
    {
        layout_is_wf(&Self::exec_bit_fields(), &Self::exec_join_fields(), None, Self::STATIC_DWORDS)
    }

    /// Writes the packet to the start of `buff`, without its header, and
    /// returns how many dwords it took.
    pub fn partial_encode_linear(&self, buff: &mut [u32]) -> (n: usize)
        requires
            old(buff)@.len() >= self.size(),
            self.fits(),
        ensures
            n == self.size(),
            final(buff)@ == self.spec_encode(old(buff)@),
            final(buff)@.len() == old(buff)@.len(),
    {
        let bits = Self::exec_bit_fields();
        let vals: Vec<u32> = vec![layout::widen_u8(self.dev_sel), layout::widen_u16(self.exec_count)];
        let joins = Self::exec_join_fields();
        let jvals: Vec<u64> = Vec::<u64>::new();
        proof {
            assert(vals@ =~= self.bit_values());
            assert(jvals@ =~= self.join_values());
        }
        encode_bit_fields(&bits, &vals, buff);
        encode_join_fields(&joins, &jvals, buff);
        Self::STATIC_DWORDS
    }

    /// Reads the packet at the start of `buff` and returns how many dwords it
    /// took.
    pub fn partial_decode_linear(buff: &[u32]) -> (r: (usize, Self))
        requires
            Self::decodable(buff@),
        ensures
            r.0 == r.1.size(),
            r.1.read_from(buff@),
    {
        let bits = Self::exec_bit_fields();
        let v = decode_bit_fields(&bits, buff);
        let joins = Self::exec_join_fields();
        let j = decode_join_fields(&joins, buff);
        let p = Self { dev_sel: layout::narrow_u8(v[0]), exec_count: layout::narrow_u16(v[1]) };
        proof {
            assert(p.bit_values() =~= v@);
            assert(p.join_values() =~= j@);
        }
        (Self::STATIC_DWORDS, p)
    }

    /// Where each field stands in a buffer that the packet is read from, as
    /// the packet header lays it out: a bit field under its mask and shift
    /// in its dword, a 64-bit field in two dwords, low half first. By
    /// `lemma_roundtrip`, encoding a packet puts its fields there.
    pub proof fn lemma_field_positions(self, buf: Seq<u32>)
        requires
            self.read_from(buf),
        ensures
            layout::u8_value(self.dev_sel) == layout::get_bits(buf[0], 0xff, 16),
            layout::u16_value(self.exec_count) == layout::get_bits(buf[1], 0x3fff, 0),
    {
        assert(self.bit_values()[0] == layout::u8_value(self.dev_sel));
        assert(layout::decode_bits(buf, Self::bit_fields())[0] == self.bit_values()[0]);
        assert(self.bit_values()[1] == layout::u16_value(self.exec_count));
        assert(layout::decode_bits(buf, Self::bit_fields())[1] == self.bit_values()[1]);
    }

    /// The field values name the packet: two packets with the same values are
    /// equal.
    pub proof fn lemma_values_determine(a: Self, b: Self)
        requires
            a.bit_values() == b.bit_values(),
            a.join_values() == b.join_values(),
            a.tail_data() == b.tail_data(),
        ensures
            a == b,
    {
        assert(a.bit_values()[0] == layout::u8_value(a.dev_sel) && b.bit_values()[0] == layout::u8_value(b.dev_sel));
        assert(a.bit_values()[1] == layout::u16_value(a.exec_count) && b.bit_values()[1] == layout::u16_value(b.exec_count));
    }

    /// Reading a packet is exact: two packets read from one buffer are equal.
    pub proof fn lemma_read_unique(a: Self, b: Self, buf: Seq<u32>)
        requires
            a.read_from(buf),
            b.read_from(buf),
        ensures
            a == b,
    {
        layout::lemma_reads_determine(
            buf,
            Self::bit_fields(),
            a.bit_values(),
            b.bit_values(),
            Self::join_fields(),
            a.join_values(),
            b.join_values(),
            Self::tail(),
            a.tail_data(),
            b.tail_data(),
        );
        Self::lemma_values_determine(a, b);
    }

    /// A packet reads back from what it was encoded to.
    pub proof fn lemma_roundtrip(self, buf: Seq<u32>)
        requires
            Self::layout_wf(),
            self.fits(),
            buf.len() >= self.size(),
        ensures
            self.read_from(self.spec_encode(buf)),
            Self::decodable(self.spec_encode(buf)),
            self.spec_encode(buf).len() == buf.len(),
    {
        layout::lemma_packet_roundtrip(
            buf,
            Self::bit_fields(),
            self.bit_values(),
            Self::join_fields(),
            self.join_values(),
            Self::tail(),
            self.tail_data(),
            Self::STATIC_DWORDS as nat,
        );
    }
}

/// Any packet of this engine version, told apart by its header.
pub enum Pkt<'pkt> {
    CopyLinear(CopyLinear),
    CopyLinearBroadcast(CopyLinearBroadcast),
    CopyTiled(CopyTiled),
    CopyLinearToTiledBroadcast(CopyLinearToTiledBroadcast),
    Nop(Nop<'pkt>),
    CopyStruct(CopyStruct),
    CopyLinearSubWindow(CopyLinearSubWindow),
    CopyTiledSubWindow(CopyTiledSubWindow),
    CopyTiledToTiled(CopyTiledToTiled),
    WriteUntiled(WriteUntiled<'pkt>),
    WriteTiled(WriteTiled<'pkt>),
    IndirectBuffer(IndirectBuffer),
    Fence(Fence),
    Trap(Trap),
    Semaphore(Semaphore),
    PollRegmem(PollRegmem),
    CondExe(CondExe),
    ConstFill(ConstFill),
    GenPtepde(GenPtepde),
    TimestampSet(TimestampSet),
    TimestampGet(TimestampGet),
    TimestampGetGlobal(TimestampGetGlobal),
    SrbmWrite(SrbmWrite),
    PreExe(PreExe),
}

impl<'pkt> Pkt<'pkt> {
    /// The bits of dword 0 that the header takes, and their value.
    pub open spec fn header(self) -> (u32, u32) {
        match self {
            Pkt::CopyLinear(p) => ((0xffffu32 | (1u32 << 27u32)), (1u32 | (0u32 << 8u32) | (0u32 << 27u32))),
            Pkt::CopyLinearBroadcast(p) => ((0xffffu32 | (1u32 << 27u32)), (1u32 | (0u32 << 8u32) | (1u32 << 27u32))),
            Pkt::CopyTiled(p) => ((0xffffu32 | (1u32 << 27u32)), (1u32 | (1u32 << 8u32) | (0u32 << 27u32))),
            Pkt::CopyLinearToTiledBroadcast(p) => ((0xffffu32 | (1u32 << 27u32)), (1u32 | (1u32 << 8u32) | (1u32 << 27u32))),
            Pkt::Nop(p) => (0xffffu32, (0u32 | (0u32 << 8u32))),
            Pkt::CopyStruct(p) => (0xffffu32, (1u32 | (3u32 << 8u32))),
            Pkt::CopyLinearSubWindow(p) => (0xffffu32, (1u32 | (4u32 << 8u32))),
            Pkt::CopyTiledSubWindow(p) => (0xffffu32, (1u32 | (5u32 << 8u32))),
            Pkt::CopyTiledToTiled(p) => (0xffffu32, (1u32 | (6u32 << 8u32))),
            Pkt::WriteUntiled(p) => (0xffffu32, (2u32 | (0u32 << 8u32))),
            Pkt::WriteTiled(p) => (0xffffu32, (2u32 | (1u32 << 8u32))),
            Pkt::IndirectBuffer(p) => (0xffffu32, (4u32 | (0u32 << 8u32))),
            Pkt::Fence(p) => (0xffffu32, (5u32 | (0u32 << 8u32))),
            Pkt::Trap(p) => (0xffffu32, (6u32 | (0u32 << 8u32))),
            Pkt::Semaphore(p) => (0xffffu32, (7u32 | (0u32 << 8u32))),
            Pkt::PollRegmem(p) => (0xffffu32, (8u32 | (0u32 << 8u32))),
            Pkt::CondExe(p) => (0xffffu32, (9u32 | (0u32 << 8u32))),
            Pkt::ConstFill(p) => (0xffffu32, (11u32 | (0u32 << 8u32))),
            Pkt::GenPtepde(p) => (0xffffu32, (12u32 | (0u32 << 8u32))),
            Pkt::TimestampSet(p) => (0xffffu32, (13u32 | (0u32 << 8u32))),
            Pkt::TimestampGet(p) => (0xffffu32, (13u32 | (1u32 << 8u32))),
            Pkt::TimestampGetGlobal(p) => (0xffffu32, (13u32 | (2u32 << 8u32))),
            Pkt::SrbmWrite(p) => (0xffffu32, (14u32 | (0u32 << 8u32))),
            Pkt::PreExe(p) => (0xffffu32, (15u32 | (0u32 << 8u32))),
        }
    }

    pub open spec fn size(self) -> nat {
        match self {
            Pkt::CopyLinear(p) => p.size(),
            Pkt::CopyLinearBroadcast(p) => p.size(),
            Pkt::CopyTiled(p) => p.size(),
            Pkt::CopyLinearToTiledBroadcast(p) => p.size(),
            Pkt::Nop(p) => p.size(),
            Pkt::CopyStruct(p) => p.size(),
            Pkt::CopyLinearSubWindow(p) => p.size(),
            Pkt::CopyTiledSubWindow(p) => p.size(),
            Pkt::CopyTiledToTiled(p) => p.size(),
            Pkt::WriteUntiled(p) => p.size(),
            Pkt::WriteTiled(p) => p.size(),
            Pkt::IndirectBuffer(p) => p.size(),
            Pkt::Fence(p) => p.size(),
            Pkt::Trap(p) => p.size(),
            Pkt::Semaphore(p) => p.size(),
            Pkt::PollRegmem(p) => p.size(),
            Pkt::CondExe(p) => p.size(),
            Pkt::ConstFill(p) => p.size(),
            Pkt::GenPtepde(p) => p.size(),
            Pkt::TimestampSet(p) => p.size(),
            Pkt::TimestampGet(p) => p.size(),
            Pkt::TimestampGetGlobal(p) => p.size(),
            Pkt::SrbmWrite(p) => p.size(),
            Pkt::PreExe(p) => p.size(),
        }
    }

    pub open spec fn fits(self) -> bool {
        match self {
            Pkt::CopyLinear(p) => p.fits(),
            Pkt::CopyLinearBroadcast(p) => p.fits(),
            Pkt::CopyTiled(p) => p.fits(),
            Pkt::CopyLinearToTiledBroadcast(p) => p.fits(),
            Pkt::Nop(p) => p.fits(),
            Pkt::CopyStruct(p) => p.fits(),
            Pkt::CopyLinearSubWindow(p) => p.fits(),
            Pkt::CopyTiledSubWindow(p) => p.fits(),
            Pkt::CopyTiledToTiled(p) => p.fits(),
            Pkt::WriteUntiled(p) => p.fits(),
            Pkt::WriteTiled(p) => p.fits(),
            Pkt::IndirectBuffer(p) => p.fits(),
            Pkt::Fence(p) => p.fits(),
            Pkt::Trap(p) => p.fits(),
            Pkt::Semaphore(p) => p.fits(),
            Pkt::PollRegmem(p) => p.fits(),
            Pkt::CondExe(p) => p.fits(),
            Pkt::ConstFill(p) => p.fits(),
            Pkt::GenPtepde(p) => p.fits(),
            Pkt::TimestampSet(p) => p.fits(),
            Pkt::TimestampGet(p) => p.fits(),
            Pkt::TimestampGetGlobal(p) => p.fits(),
            Pkt::SrbmWrite(p) => p.fits(),
            Pkt::PreExe(p) => p.fits(),
        }
    }

    pub open spec fn layout_wf(self) -> bool {
        match self {
            Pkt::CopyLinear(p) => CopyLinear::layout_wf(),
            Pkt::CopyLinearBroadcast(p) => CopyLinearBroadcast::layout_wf(),
            Pkt::CopyTiled(p) => CopyTiled::layout_wf(),
            Pkt::CopyLinearToTiledBroadcast(p) => CopyLinearToTiledBroadcast::layout_wf(),
            Pkt::Nop(p) => Nop::layout_wf(),
            Pkt::CopyStruct(p) => CopyStruct::layout_wf(),
            Pkt::CopyLinearSubWindow(p) => CopyLinearSubWindow::layout_wf(),
            Pkt::CopyTiledSubWindow(p) => CopyTiledSubWindow::layout_wf(),
            Pkt::CopyTiledToTiled(p) => CopyTiledToTiled::layout_wf(),
            Pkt::WriteUntiled(p) => WriteUntiled::layout_wf(),
            Pkt::WriteTiled(p) => WriteTiled::layout_wf(),
            Pkt::IndirectBuffer(p) => IndirectBuffer::layout_wf(),
            Pkt::Fence(p) => Fence::layout_wf(),
            Pkt::Trap(p) => Trap::layout_wf(),
            Pkt::Semaphore(p) => Semaphore::layout_wf(),
            Pkt::PollRegmem(p) => PollRegmem::layout_wf(),
            Pkt::CondExe(p) => CondExe::layout_wf(),
            Pkt::ConstFill(p) => ConstFill::layout_wf(),
            Pkt::GenPtepde(p) => GenPtepde::layout_wf(),
            Pkt::TimestampSet(p) => TimestampSet::layout_wf(),
            Pkt::TimestampGet(p) => TimestampGet::layout_wf(),
            Pkt::TimestampGetGlobal(p) => TimestampGetGlobal::layout_wf(),
            Pkt::SrbmWrite(p) => SrbmWrite::layout_wf(),
            Pkt::PreExe(p) => PreExe::layout_wf(),
        }
    }

    /// No field of the packet is spoiled by its header.
    pub open spec fn header_compatible(self) -> bool {
        match self {
            Pkt::CopyLinear(p) => layout::header_compatible(CopyLinear::bit_fields(), p.bit_values(), CopyLinear::tail(), self.header().0, self.header().1),
            Pkt::CopyLinearBroadcast(p) => layout::header_compatible(CopyLinearBroadcast::bit_fields(), p.bit_values(), CopyLinearBroadcast::tail(), self.header().0, self.header().1),
            Pkt::CopyTiled(p) => layout::header_compatible(CopyTiled::bit_fields(), p.bit_values(), CopyTiled::tail(), self.header().0, self.header().1),
            Pkt::CopyLinearToTiledBroadcast(p) => layout::header_compatible(CopyLinearToTiledBroadcast::bit_fields(), p.bit_values(), CopyLinearToTiledBroadcast::tail(), self.header().0, self.header().1),
            Pkt::Nop(p) => layout::header_compatible(Nop::bit_fields(), p.bit_values(), Nop::tail(), self.header().0, self.header().1),
            Pkt::CopyStruct(p) => layout::header_compatible(CopyStruct::bit_fields(), p.bit_values(), CopyStruct::tail(), self.header().0, self.header().1),
            Pkt::CopyLinearSubWindow(p) => layout::header_compatible(CopyLinearSubWindow::bit_fields(), p.bit_values(), CopyLinearSubWindow::tail(), self.header().0, self.header().1),
            Pkt::CopyTiledSubWindow(p) => layout::header_compatible(CopyTiledSubWindow::bit_fields(), p.bit_values(), CopyTiledSubWindow::tail(), self.header().0, self.header().1),
            Pkt::CopyTiledToTiled(p) => layout::header_compatible(CopyTiledToTiled::bit_fields(), p.bit_values(), CopyTiledToTiled::tail(), self.header().0, self.header().1),
            Pkt::WriteUntiled(p) => layout::header_compatible(WriteUntiled::bit_fields(), p.bit_values(), WriteUntiled::tail(), self.header().0, self.header().1),
            Pkt::WriteTiled(p) => layout::header_compatible(WriteTiled::bit_fields(), p.bit_values(), WriteTiled::tail(), self.header().0, self.header().1),
            Pkt::IndirectBuffer(p) => layout::header_compatible(IndirectBuffer::bit_fields(), p.bit_values(), IndirectBuffer::tail(), self.header().0, self.header().1),
            Pkt::Fence(p) => layout::header_compatible(Fence::bit_fields(), p.bit_values(), Fence::tail(), self.header().0, self.header().1),
            Pkt::Trap(p) => layout::header_compatible(Trap::bit_fields(), p.bit_values(), Trap::tail(), self.header().0, self.header().1),
            Pkt::Semaphore(p) => layout::header_compatible(Semaphore::bit_fields(), p.bit_values(), Semaphore::tail(), self.header().0, self.header().1),
            Pkt::PollRegmem(p) => layout::header_compatible(PollRegmem::bit_fields(), p.bit_values(), PollRegmem::tail(), self.header().0, self.header().1),
            Pkt::CondExe(p) => layout::header_compatible(CondExe::bit_fields(), p.bit_values(), CondExe::tail(), self.header().0, self.header().1),
            Pkt::ConstFill(p) => layout::header_compatible(ConstFill::bit_fields(), p.bit_values(), ConstFill::tail(), self.header().0, self.header().1),
            Pkt::GenPtepde(p) => layout::header_compatible(GenPtepde::bit_fields(), p.bit_values(), GenPtepde::tail(), self.header().0, self.header().1),
            Pkt::TimestampSet(p) => layout::header_compatible(TimestampSet::bit_fields(), p.bit_values(), TimestampSet::tail(), self.header().0, self.header().1),
            Pkt::TimestampGet(p) => layout::header_compatible(TimestampGet::bit_fields(), p.bit_values(), TimestampGet::tail(), self.header().0, self.header().1),
            Pkt::TimestampGetGlobal(p) => layout::header_compatible(TimestampGetGlobal::bit_fields(), p.bit_values(), TimestampGetGlobal::tail(), self.header().0, self.header().1),
            Pkt::SrbmWrite(p) => layout::header_compatible(SrbmWrite::bit_fields(), p.bit_values(), SrbmWrite::tail(), self.header().0, self.header().1),
            Pkt::PreExe(p) => layout::header_compatible(PreExe::bit_fields(), p.bit_values(), PreExe::tail(), self.header().0, self.header().1),
        }
    }

    pub open spec fn spec_encode(self, buf: Seq<u32>) -> Seq<u32> {
        match self {
            Pkt::CopyLinear(p) => layout::write_header(p.spec_encode(buf), self.header().0, self.header().1),
            Pkt::CopyLinearBroadcast(p) => layout::write_header(p.spec_encode(buf), self.header().0, self.header().1),
            Pkt::CopyTiled(p) => layout::write_header(p.spec_encode(buf), self.header().0, self.header().1),
            Pkt::CopyLinearToTiledBroadcast(p) => layout::write_header(p.spec_encode(buf), self.header().0, self.header().1),
            Pkt::Nop(p) => layout::write_header(p.spec_encode(buf), self.header().0, self.header().1),
            Pkt::CopyStruct(p) => layout::write_header(p.spec_encode(buf), self.header().0, self.header().1),
            Pkt::CopyLinearSubWindow(p) => layout::write_header(p.spec_encode(buf), self.header().0, self.header().1),
            Pkt::CopyTiledSubWindow(p) => layout::write_header(p.spec_encode(buf), self.header().0, self.header().1),
            Pkt::CopyTiledToTiled(p) => layout::write_header(p.spec_encode(buf), self.header().0, self.header().1),
            Pkt::WriteUntiled(p) => layout::write_header(p.spec_encode(buf), self.header().0, self.header().1),
            Pkt::WriteTiled(p) => layout::write_header(p.spec_encode(buf), self.header().0, self.header().1),
            Pkt::IndirectBuffer(p) => layout::write_header(p.spec_encode(buf), self.header().0, self.header().1),
            Pkt::Fence(p) => layout::write_header(p.spec_encode(buf), self.header().0, self.header().1),
            Pkt::Trap(p) => layout::write_header(p.spec_encode(buf), self.header().0, self.header().1),
            Pkt::Semaphore(p) => layout::write_header(p.spec_encode(buf), self.header().0, self.header().1),
            Pkt::PollRegmem(p) => layout::write_header(p.spec_encode(buf), self.header().0, self.header().1),
            Pkt::CondExe(p) => layout::write_header(p.spec_encode(buf), self.header().0, self.header().1),
            Pkt::ConstFill(p) => layout::write_header(p.spec_encode(buf), self.header().0, self.header().1),
            Pkt::GenPtepde(p) => layout::write_header(p.spec_encode(buf), self.header().0, self.header().1),
            Pkt::TimestampSet(p) => layout::write_header(p.spec_encode(buf), self.header().0, self.header().1),
            Pkt::TimestampGet(p) => layout::write_header(p.spec_encode(buf), self.header().0, self.header().1),
            Pkt::TimestampGetGlobal(p) => layout::write_header(p.spec_encode(buf), self.header().0, self.header().1),
            Pkt::SrbmWrite(p) => layout::write_header(p.spec_encode(buf), self.header().0, self.header().1),
            Pkt::PreExe(p) => layout::write_header(p.spec_encode(buf), self.header().0, self.header().1),
        }
    }

    /// `buf` starts with this packet, header included.
    pub open spec fn read_from(self, buf: Seq<u32>) -> bool {
        buf.len() > 0 && {
            let h = buf[0];
            match self {
                Pkt::CopyLinear(p) => layout::header_op(h) == 1 && layout::header_subop(h) == 0 && layout::header_extra(h) == 0 && p.read_from(buf),
                Pkt::CopyLinearBroadcast(p) => layout::header_op(h) == 1 && layout::header_subop(h) == 0 && layout::header_extra(h) == 1 && p.read_from(buf),
                Pkt::CopyTiled(p) => layout::header_op(h) == 1 && layout::header_subop(h) == 1 && layout::header_extra(h) == 0 && p.read_from(buf),
                Pkt::CopyLinearToTiledBroadcast(p) => layout::header_op(h) == 1 && layout::header_subop(h) == 1 && layout::header_extra(h) == 1 && p.read_from(buf),
                Pkt::Nop(p) => layout::header_op(h) == 0 && layout::header_subop(h) == 0 && p.read_from(buf),
                Pkt::CopyStruct(p) => layout::header_op(h) == 1 && layout::header_subop(h) == 3 && p.read_from(buf),
                Pkt::CopyLinearSubWindow(p) => layout::header_op(h) == 1 && layout::header_subop(h) == 4 && p.read_from(buf),
                Pkt::CopyTiledSubWindow(p) => layout::header_op(h) == 1 && layout::header_subop(h) == 5 && p.read_from(buf),
                Pkt::CopyTiledToTiled(p) => layout::header_op(h) == 1 && layout::header_subop(h) == 6 && p.read_from(buf),
                Pkt::WriteUntiled(p) => layout::header_op(h) == 2 && layout::header_subop(h) == 0 && p.read_from(buf),
                Pkt::WriteTiled(p) => layout::header_op(h) == 2 && layout::header_subop(h) == 1 && p.read_from(buf),
                Pkt::IndirectBuffer(p) => layout::header_op(h) == 4 && layout::header_subop(h) == 0 && p.read_from(buf),
                Pkt::Fence(p) => layout::header_op(h) == 5 && layout::header_subop(h) == 0 && p.read_from(buf),
                Pkt::Trap(p) => layout::header_op(h) == 6 && layout::header_subop(h) == 0 && p.read_from(buf),
                Pkt::Semaphore(p) => layout::header_op(h) == 7 && layout::header_subop(h) == 0 && p.read_from(buf),
                Pkt::PollRegmem(p) => layout::header_op(h) == 8 && layout::header_subop(h) == 0 && p.read_from(buf),
                Pkt::CondExe(p) => layout::header_op(h) == 9 && layout::header_subop(h) == 0 && p.read_from(buf),
                Pkt::ConstFill(p) => layout::header_op(h) == 11 && layout::header_subop(h) == 0 && p.read_from(buf),
                Pkt::GenPtepde(p) => layout::header_op(h) == 12 && layout::header_subop(h) == 0 && p.read_from(buf),
                Pkt::TimestampSet(p) => layout::header_op(h) == 13 && layout::header_subop(h) == 0 && p.read_from(buf),
                Pkt::TimestampGet(p) => layout::header_op(h) == 13 && layout::header_subop(h) == 1 && p.read_from(buf),
                Pkt::TimestampGetGlobal(p) => layout::header_op(h) == 13 && layout::header_subop(h) == 2 && p.read_from(buf),
                Pkt::SrbmWrite(p) => layout::header_op(h) == 14 && layout::header_subop(h) == 0 && p.read_from(buf),
                Pkt::PreExe(p) => layout::header_op(h) == 15 && layout::header_subop(h) == 0 && p.read_from(buf),
            }
        }
    }

    /// The buffer starts with a header this version knows and holds the
    /// whole packet it announces.
    pub open spec fn decodable(buf: Seq<u32>) -> bool {
        buf.len() > 0 && {
            let h = buf[0];
            if layout::header_op(h) == 1 && layout::header_subop(h) == 0 {
                if layout::header_extra(h) == 0 {
                    CopyLinear::decodable(buf)
                } else if layout::header_extra(h) == 1 {
                    CopyLinearBroadcast::decodable(buf)
                } else {
                    false
                }
            } else if layout::header_op(h) == 1 && layout::header_subop(h) == 1 {
                if layout::header_extra(h) == 0 {
                    CopyTiled::decodable(buf)
                } else if layout::header_extra(h) == 1 {
                    CopyLinearToTiledBroadcast::decodable(buf)
                } else {
                    false
                }
            } else if layout::header_op(h) == 0 && layout::header_subop(h) == 0 {
                Nop::decodable(buf)
            } else if layout::header_op(h) == 1 && layout::header_subop(h) == 3 {
                CopyStruct::decodable(buf)
            } else if layout::header_op(h) == 1 && layout::header_subop(h) == 4 {
                CopyLinearSubWindow::decodable(buf)
            } else if layout::header_op(h) == 1 && layout::header_subop(h) == 5 {
                CopyTiledSubWindow::decodable(buf)
            } else if layout::header_op(h) == 1 && layout::header_subop(h) == 6 {
                CopyTiledToTiled::decodable(buf)
            } else if layout::header_op(h) == 2 && layout::header_subop(h) == 0 {
                WriteUntiled::decodable(buf)
            } else if layout::header_op(h) == 2 && layout::header_subop(h) == 1 {
                WriteTiled::decodable(buf)
            } else if layout::header_op(h) == 4 && layout::header_subop(h) == 0 {
                IndirectBuffer::decodable(buf)
            } else if layout::header_op(h) == 5 && layout::header_subop(h) == 0 {
                Fence::decodable(buf)
            } else if layout::header_op(h) == 6 && layout::header_subop(h) == 0 {
                Trap::decodable(buf)
            } else if layout::header_op(h) == 7 && layout::header_subop(h) == 0 {
                Semaphore::decodable(buf)
            } else if layout::header_op(h) == 8 && layout::header_subop(h) == 0 {
                PollRegmem::decodable(buf)
            } else if layout::header_op(h) == 9 && layout::header_subop(h) == 0 {
                CondExe::decodable(buf)
            } else if layout::header_op(h) == 11 && layout::header_subop(h) == 0 {
                ConstFill::decodable(buf)
            } else if layout::header_op(h) == 12 && layout::header_subop(h) == 0 {
                GenPtepde::decodable(buf)
            } else if layout::header_op(h) == 13 && layout::header_subop(h) == 0 {
                TimestampSet::decodable(buf)
            } else if layout::header_op(h) == 13 && layout::header_subop(h) == 1 {
                TimestampGet::decodable(buf)
            } else if layout::header_op(h) == 13 && layout::header_subop(h) == 2 {
                TimestampGetGlobal::decodable(buf)
            } else if layout::header_op(h) == 14 && layout::header_subop(h) == 0 {
                SrbmWrite::decodable(buf)
            } else if layout::header_op(h) == 15 && layout::header_subop(h) == 0 {
                PreExe::decodable(buf)
            } else {
                false
            }
        }
    }

    /// Writes the packet, header included, to the start of `buff` and
    /// returns how many dwords it took.
    pub fn encode_linear(&self, buff: &mut [u32]) -> (n: usize)
        requires
            old(buff)@.len() >= self.size(),
            self.fits(),
        ensures
            n == self.size(),
            final(buff)@ == self.spec_encode(old(buff)@),
    {
        match self {
            Pkt::CopyLinear(p) => {
                let n = p.partial_encode_linear(buff);
                put_header(buff, (0xffffu32 | (1u32 << 27u32)), (1u32 | (0u32 << 8u32) | (0u32 << 27u32)));
                n
            },
            Pkt::CopyLinearBroadcast(p) => {
                let n = p.partial_encode_linear(buff);
                put_header(buff, (0xffffu32 | (1u32 << 27u32)), (1u32 | (0u32 << 8u32) | (1u32 << 27u32)));
                n
            },
            Pkt::CopyTiled(p) => {
                let n = p.partial_encode_linear(buff);
                put_header(buff, (0xffffu32 | (1u32 << 27u32)), (1u32 | (1u32 << 8u32) | (0u32 << 27u32)));
                n
            },
            Pkt::CopyLinearToTiledBroadcast(p) => {
                let n = p.partial_encode_linear(buff);
                put_header(buff, (0xffffu32 | (1u32 << 27u32)), (1u32 | (1u32 << 8u32) | (1u32 << 27u32)));
                n
            },
            Pkt::Nop(p) => {
                let n = p.partial_encode_linear(buff);
                put_header(buff, 0xffffu32, (0u32 | (0u32 << 8u32)));
                n
            },
            Pkt::CopyStruct(p) => {
                let n = p.partial_encode_linear(buff);
                put_header(buff, 0xffffu32, (1u32 | (3u32 << 8u32)));
                n
            },
            Pkt::CopyLinearSubWindow(p) => {
                let n = p.partial_encode_linear(buff);
                put_header(buff, 0xffffu32, (1u32 | (4u32 << 8u32)));
                n
            },
            Pkt::CopyTiledSubWindow(p) => {
                let n = p.partial_encode_linear(buff);
                put_header(buff, 0xffffu32, (1u32 | (5u32 << 8u32)));
                n
            },
            Pkt::CopyTiledToTiled(p) => {
                let n = p.partial_encode_linear(buff);
                put_header(buff, 0xffffu32, (1u32 | (6u32 << 8u32)));
                n
            },
            Pkt::WriteUntiled(p) => {
                let n = p.partial_encode_linear(buff);
                put_header(buff, 0xffffu32, (2u32 | (0u32 << 8u32)));
                n
            },
            Pkt::WriteTiled(p) => {
                let n = p.partial_encode_linear(buff);
                put_header(buff, 0xffffu32, (2u32 | (1u32 << 8u32)));
                n
            },
            Pkt::IndirectBuffer(p) => {
                let n = p.partial_encode_linear(buff);
                put_header(buff, 0xffffu32, (4u32 | (0u32 << 8u32)));
                n
            },
            Pkt::Fence(p) => {
                let n = p.partial_encode_linear(buff);
                put_header(buff, 0xffffu32, (5u32 | (0u32 << 8u32)));
                n
            },
            Pkt::Trap(p) => {
                let n = p.partial_encode_linear(buff);
                put_header(buff, 0xffffu32, (6u32 | (0u32 << 8u32)));
                n
            },
            Pkt::Semaphore(p) => {
                let n = p.partial_encode_linear(buff);
                put_header(buff, 0xffffu32, (7u32 | (0u32 << 8u32)));
                n
            },
            Pkt::PollRegmem(p) => {
                let n = p.partial_encode_linear(buff);
                put_header(buff, 0xffffu32, (8u32 | (0u32 << 8u32)));
                n
            },
            Pkt::CondExe(p) => {
                let n = p.partial_encode_linear(buff);
                put_header(buff, 0xffffu32, (9u32 | (0u32 << 8u32)));
                n
            },
            Pkt::ConstFill(p) => {
                let n = p.partial_encode_linear(buff);
                put_header(buff, 0xffffu32, (11u32 | (0u32 << 8u32)));
                n
            },
            Pkt::GenPtepde(p) => {
                let n = p.partial_encode_linear(buff);
                put_header(buff, 0xffffu32, (12u32 | (0u32 << 8u32)));
                n
            },
            Pkt::TimestampSet(p) => {
                let n = p.partial_encode_linear(buff);
                put_header(buff, 0xffffu32, (13u32 | (0u32 << 8u32)));
                n
            },
            Pkt::TimestampGet(p) => {
                let n = p.partial_encode_linear(buff);
                put_header(buff, 0xffffu32, (13u32 | (1u32 << 8u32)));
                n
            },
            Pkt::TimestampGetGlobal(p) => {
                let n = p.partial_encode_linear(buff);
                put_header(buff, 0xffffu32, (13u32 | (2u32 << 8u32)));
                n
            },
            Pkt::SrbmWrite(p) => {
                let n = p.partial_encode_linear(buff);
                put_header(buff, 0xffffu32, (14u32 | (0u32 << 8u32)));
                n
            },
            Pkt::PreExe(p) => {
                let n = p.partial_encode_linear(buff);
                put_header(buff, 0xffffu32, (15u32 | (0u32 << 8u32)));
                n
            },
        }
    }

    /// Reads the packet at the start of `buff`, whichever it is, and returns
    /// how many dwords it took.
    pub fn decode_linear(buff: &'pkt [u32]) -> (r: Option<(usize, Pkt<'pkt>)>)
        requires
            Self::decodable(buff@),
        ensures
            r matches Some((n, p)) && n == p.size() && p.read_from(buff@),
    {
        let header = buff[0];
        let op = header & 0xff;
        let subop = (header >> 8) & 0xff;
        if op == 1 && subop == 0 {
            let extra = (header >> 27) & 1;
            if extra == 0 {
                let (n, p) = CopyLinear::partial_decode_linear(buff);
                Some((n, Pkt::CopyLinear(p)))
            } else if extra == 1 {
                let (n, p) = CopyLinearBroadcast::partial_decode_linear(buff);
                Some((n, Pkt::CopyLinearBroadcast(p)))
            } else {
                None
            }
        } else if op == 1 && subop == 1 {
            let extra = (header >> 27) & 1;
            if extra == 0 {
                let (n, p) = CopyTiled::partial_decode_linear(buff);
                Some((n, Pkt::CopyTiled(p)))
            } else if extra == 1 {
                let (n, p) = CopyLinearToTiledBroadcast::partial_decode_linear(buff);
                Some((n, Pkt::CopyLinearToTiledBroadcast(p)))
            } else {
                None
            }
        } else if op == 0 && subop == 0 {
            let (n, p) = Nop::partial_decode_linear(buff);
            Some((n, Pkt::Nop(p)))
        } else if op == 1 && subop == 3 {
            let (n, p) = CopyStruct::partial_decode_linear(buff);
            Some((n, Pkt::CopyStruct(p)))
        } else if op == 1 && subop == 4 {
            let (n, p) = CopyLinearSubWindow::partial_decode_linear(buff);
            Some((n, Pkt::CopyLinearSubWindow(p)))
        } else if op == 1 && subop == 5 {
            let (n, p) = CopyTiledSubWindow::partial_decode_linear(buff);
            Some((n, Pkt::CopyTiledSubWindow(p)))
        } else if op == 1 && subop == 6 {
            let (n, p) = CopyTiledToTiled::partial_decode_linear(buff);
            Some((n, Pkt::CopyTiledToTiled(p)))
        } else if op == 2 && subop == 0 {
            let (n, p) = WriteUntiled::partial_decode_linear(buff);
            Some((n, Pkt::WriteUntiled(p)))
        } else if op == 2 && subop == 1 {
            let (n, p) = WriteTiled::partial_decode_linear(buff);
            Some((n, Pkt::WriteTiled(p)))
        } else if op == 4 && subop == 0 {
            let (n, p) = IndirectBuffer::partial_decode_linear(buff);
            Some((n, Pkt::IndirectBuffer(p)))
        } else if op == 5 && subop == 0 {
            let (n, p) = Fence::partial_decode_linear(buff);
            Some((n, Pkt::Fence(p)))
        } else if op == 6 && subop == 0 {
            let (n, p) = Trap::partial_decode_linear(buff);
            Some((n, Pkt::Trap(p)))
        } else if op == 7 && subop == 0 {
            let (n, p) = Semaphore::partial_decode_linear(buff);
            Some((n, Pkt::Semaphore(p)))
        } else if op == 8 && subop == 0 {
            let (n, p) = PollRegmem::partial_decode_linear(buff);
            Some((n, Pkt::PollRegmem(p)))
        } else if op == 9 && subop == 0 {
            let (n, p) = CondExe::partial_decode_linear(buff);
            Some((n, Pkt::CondExe(p)))
        } else if op == 11 && subop == 0 {
            let (n, p) = ConstFill::partial_decode_linear(buff);
            Some((n, Pkt::ConstFill(p)))
        } else if op == 12 && subop == 0 {
            let (n, p) = GenPtepde::partial_decode_linear(buff);
            Some((n, Pkt::GenPtepde(p)))
        } else if op == 13 && subop == 0 {
            let (n, p) = TimestampSet::partial_decode_linear(buff);
            Some((n, Pkt::TimestampSet(p)))
        } else if op == 13 && subop == 1 {
            let (n, p) = TimestampGet::partial_decode_linear(buff);
            Some((n, Pkt::TimestampGet(p)))
        } else if op == 13 && subop == 2 {
            let (n, p) = TimestampGetGlobal::partial_decode_linear(buff);
            Some((n, Pkt::TimestampGetGlobal(p)))
        } else if op == 14 && subop == 0 {
            let (n, p) = SrbmWrite::partial_decode_linear(buff);
            Some((n, Pkt::SrbmWrite(p)))
        } else if op == 15 && subop == 0 {
            let (n, p) = PreExe::partial_decode_linear(buff);
            Some((n, Pkt::PreExe(p)))
        } else {
            None
        }
    }

    /// Decoding gives back what was encoded: the packet that `encode_linear`
    /// writes is one that `decode_linear` accepts and reads back (and, by
    /// `lemma_read_unique`, the only one).
    #[verifier::spinoff_prover]
    #[verifier::rlimit(80)]
    pub proof fn lemma_roundtrip(self, buf: Seq<u32>)
        requires
            self.layout_wf(),
            self.fits(),
            self.header_compatible(),
            buf.len() >= self.size(),
        ensures
            Self::decodable(self.spec_encode(buf)),
            self.read_from(self.spec_encode(buf)),
    {
        match self {
            Pkt::CopyLinear(p) => {
                layout::lemma_packet_roundtrip(buf, CopyLinear::bit_fields(), p.bit_values(), CopyLinear::join_fields(), p.join_values(), CopyLinear::tail(), p.tail_data(), CopyLinear::STATIC_DWORDS as nat);
                let enc = p.spec_encode(buf);
                layout::lemma_header_keeps_packet(enc, CopyLinear::bit_fields(), p.bit_values(), CopyLinear::join_fields(), p.join_values(), CopyLinear::tail(), p.tail_data(), CopyLinear::STATIC_DWORDS as nat, (0xffffu32 | (1u32 << 27u32)), (1u32 | (0u32 << 8u32) | (0u32 << 27u32)));
                layout::lemma_extra_header(enc[0], 1u32, 0u32, 0u32);
            },
            Pkt::CopyLinearBroadcast(p) => {
                layout::lemma_packet_roundtrip(buf, CopyLinearBroadcast::bit_fields(), p.bit_values(), CopyLinearBroadcast::join_fields(), p.join_values(), CopyLinearBroadcast::tail(), p.tail_data(), CopyLinearBroadcast::STATIC_DWORDS as nat);
                let enc = p.spec_encode(buf);
                layout::lemma_header_keeps_packet(enc, CopyLinearBroadcast::bit_fields(), p.bit_values(), CopyLinearBroadcast::join_fields(), p.join_values(), CopyLinearBroadcast::tail(), p.tail_data(), CopyLinearBroadcast::STATIC_DWORDS as nat, (0xffffu32 | (1u32 << 27u32)), (1u32 | (0u32 << 8u32) | (1u32 << 27u32)));
                layout::lemma_extra_header(enc[0], 1u32, 0u32, 1u32);
            },
            Pkt::CopyTiled(p) => {
                layout::lemma_packet_roundtrip(buf, CopyTiled::bit_fields(), p.bit_values(), CopyTiled::join_fields(), p.join_values(), CopyTiled::tail(), p.tail_data(), CopyTiled::STATIC_DWORDS as nat);
                let enc = p.spec_encode(buf);
                layout::lemma_header_keeps_packet(enc, CopyTiled::bit_fields(), p.bit_values(), CopyTiled::join_fields(), p.join_values(), CopyTiled::tail(), p.tail_data(), CopyTiled::STATIC_DWORDS as nat, (0xffffu32 | (1u32 << 27u32)), (1u32 | (1u32 << 8u32) | (0u32 << 27u32)));
                layout::lemma_extra_header(enc[0], 1u32, 1u32, 0u32);
            },
            Pkt::CopyLinearToTiledBroadcast(p) => {
                layout::lemma_packet_roundtrip(buf, CopyLinearToTiledBroadcast::bit_fields(), p.bit_values(), CopyLinearToTiledBroadcast::join_fields(), p.join_values(), CopyLinearToTiledBroadcast::tail(), p.tail_data(), CopyLinearToTiledBroadcast::STATIC_DWORDS as nat);
                let enc = p.spec_encode(buf);
                layout::lemma_header_keeps_packet(enc, CopyLinearToTiledBroadcast::bit_fields(), p.bit_values(), CopyLinearToTiledBroadcast::join_fields(), p.join_values(), CopyLinearToTiledBroadcast::tail(), p.tail_data(), CopyLinearToTiledBroadcast::STATIC_DWORDS as nat, (0xffffu32 | (1u32 << 27u32)), (1u32 | (1u32 << 8u32) | (1u32 << 27u32)));
                layout::lemma_extra_header(enc[0], 1u32, 1u32, 1u32);
            },
            Pkt::Nop(p) => {
                layout::lemma_packet_roundtrip(buf, Nop::bit_fields(), p.bit_values(), Nop::join_fields(), p.join_values(), Nop::tail(), p.tail_data(), Nop::STATIC_DWORDS as nat);
                let enc = p.spec_encode(buf);
                layout::lemma_header_keeps_packet(enc, Nop::bit_fields(), p.bit_values(), Nop::join_fields(), p.join_values(), Nop::tail(), p.tail_data(), Nop::STATIC_DWORDS as nat, 0xffffu32, (0u32 | (0u32 << 8u32)));
                layout::lemma_plain_header(enc[0], 0u32, 0u32);
            },
            Pkt::CopyStruct(p) => {
                layout::lemma_packet_roundtrip(buf, CopyStruct::bit_fields(), p.bit_values(), CopyStruct::join_fields(), p.join_values(), CopyStruct::tail(), p.tail_data(), CopyStruct::STATIC_DWORDS as nat);
                let enc = p.spec_encode(buf);
                layout::lemma_header_keeps_packet(enc, CopyStruct::bit_fields(), p.bit_values(), CopyStruct::join_fields(), p.join_values(), CopyStruct::tail(), p.tail_data(), CopyStruct::STATIC_DWORDS as nat, 0xffffu32, (1u32 | (3u32 << 8u32)));
                layout::lemma_plain_header(enc[0], 1u32, 3u32);
            },
            Pkt::CopyLinearSubWindow(p) => {
                layout::lemma_packet_roundtrip(buf, CopyLinearSubWindow::bit_fields(), p.bit_values(), CopyLinearSubWindow::join_fields(), p.join_values(), CopyLinearSubWindow::tail(), p.tail_data(), CopyLinearSubWindow::STATIC_DWORDS as nat);
                let enc = p.spec_encode(buf);
                layout::lemma_header_keeps_packet(enc, CopyLinearSubWindow::bit_fields(), p.bit_values(), CopyLinearSubWindow::join_fields(), p.join_values(), CopyLinearSubWindow::tail(), p.tail_data(), CopyLinearSubWindow::STATIC_DWORDS as nat, 0xffffu32, (1u32 | (4u32 << 8u32)));
                layout::lemma_plain_header(enc[0], 1u32, 4u32);
            },
            Pkt::CopyTiledSubWindow(p) => {
                layout::lemma_packet_roundtrip(buf, CopyTiledSubWindow::bit_fields(), p.bit_values(), CopyTiledSubWindow::join_fields(), p.join_values(), CopyTiledSubWindow::tail(), p.tail_data(), CopyTiledSubWindow::STATIC_DWORDS as nat);
                let enc = p.spec_encode(buf);
                layout::lemma_header_keeps_packet(enc, CopyTiledSubWindow::bit_fields(), p.bit_values(), CopyTiledSubWindow::join_fields(), p.join_values(), CopyTiledSubWindow::tail(), p.tail_data(), CopyTiledSubWindow::STATIC_DWORDS as nat, 0xffffu32, (1u32 | (5u32 << 8u32)));
                layout::lemma_plain_header(enc[0], 1u32, 5u32);
            },
            Pkt::CopyTiledToTiled(p) => {
                layout::lemma_packet_roundtrip(buf, CopyTiledToTiled::bit_fields(), p.bit_values(), CopyTiledToTiled::join_fields(), p.join_values(), CopyTiledToTiled::tail(), p.tail_data(), CopyTiledToTiled::STATIC_DWORDS as nat);
                let enc = p.spec_encode(buf);
                layout::lemma_header_keeps_packet(enc, CopyTiledToTiled::bit_fields(), p.bit_values(), CopyTiledToTiled::join_fields(), p.join_values(), CopyTiledToTiled::tail(), p.tail_data(), CopyTiledToTiled::STATIC_DWORDS as nat, 0xffffu32, (1u32 | (6u32 << 8u32)));
                layout::lemma_plain_header(enc[0], 1u32, 6u32);
            },
            Pkt::WriteUntiled(p) => {
                layout::lemma_packet_roundtrip(buf, WriteUntiled::bit_fields(), p.bit_values(), WriteUntiled::join_fields(), p.join_values(), WriteUntiled::tail(), p.tail_data(), WriteUntiled::STATIC_DWORDS as nat);
                let enc = p.spec_encode(buf);
                layout::lemma_header_keeps_packet(enc, WriteUntiled::bit_fields(), p.bit_values(), WriteUntiled::join_fields(), p.join_values(), WriteUntiled::tail(), p.tail_data(), WriteUntiled::STATIC_DWORDS as nat, 0xffffu32, (2u32 | (0u32 << 8u32)));
                layout::lemma_plain_header(enc[0], 2u32, 0u32);
            },
            Pkt::WriteTiled(p) => {
                layout::lemma_packet_roundtrip(buf, WriteTiled::bit_fields(), p.bit_values(), WriteTiled::join_fields(), p.join_values(), WriteTiled::tail(), p.tail_data(), WriteTiled::STATIC_DWORDS as nat);
                let enc = p.spec_encode(buf);
                layout::lemma_header_keeps_packet(enc, WriteTiled::bit_fields(), p.bit_values(), WriteTiled::join_fields(), p.join_values(), WriteTiled::tail(), p.tail_data(), WriteTiled::STATIC_DWORDS as nat, 0xffffu32, (2u32 | (1u32 << 8u32)));
                layout::lemma_plain_header(enc[0], 2u32, 1u32);
            },
            Pkt::IndirectBuffer(p) => {
                layout::lemma_packet_roundtrip(buf, IndirectBuffer::bit_fields(), p.bit_values(), IndirectBuffer::join_fields(), p.join_values(), IndirectBuffer::tail(), p.tail_data(), IndirectBuffer::STATIC_DWORDS as nat);
                let enc = p.spec_encode(buf);
                layout::lemma_header_keeps_packet(enc, IndirectBuffer::bit_fields(), p.bit_values(), IndirectBuffer::join_fields(), p.join_values(), IndirectBuffer::tail(), p.tail_data(), IndirectBuffer::STATIC_DWORDS as nat, 0xffffu32, (4u32 | (0u32 << 8u32)));
                layout::lemma_plain_header(enc[0], 4u32, 0u32);
            },
            Pkt::Fence(p) => {
                layout::lemma_packet_roundtrip(buf, Fence::bit_fields(), p.bit_values(), Fence::join_fields(), p.join_values(), Fence::tail(), p.tail_data(), Fence::STATIC_DWORDS as nat);
                let enc = p.spec_encode(buf);
                layout::lemma_header_keeps_packet(enc, Fence::bit_fields(), p.bit_values(), Fence::join_fields(), p.join_values(), Fence::tail(), p.tail_data(), Fence::STATIC_DWORDS as nat, 0xffffu32, (5u32 | (0u32 << 8u32)));
                layout::lemma_plain_header(enc[0], 5u32, 0u32);
            },
            Pkt::Trap(p) => {
                layout::lemma_packet_roundtrip(buf, Trap::bit_fields(), p.bit_values(), Trap::join_fields(), p.join_values(), Trap::tail(), p.tail_data(), Trap::STATIC_DWORDS as nat);
                let enc = p.spec_encode(buf);
                layout::lemma_header_keeps_packet(enc, Trap::bit_fields(), p.bit_values(), Trap::join_fields(), p.join_values(), Trap::tail(), p.tail_data(), Trap::STATIC_DWORDS as nat, 0xffffu32, (6u32 | (0u32 << 8u32)));
                layout::lemma_plain_header(enc[0], 6u32, 0u32);
            },
            Pkt::Semaphore(p) => {
                layout::lemma_packet_roundtrip(buf, Semaphore::bit_fields(), p.bit_values(), Semaphore::join_fields(), p.join_values(), Semaphore::tail(), p.tail_data(), Semaphore::STATIC_DWORDS as nat);
                let enc = p.spec_encode(buf);
                layout::lemma_header_keeps_packet(enc, Semaphore::bit_fields(), p.bit_values(), Semaphore::join_fields(), p.join_values(), Semaphore::tail(), p.tail_data(), Semaphore::STATIC_DWORDS as nat, 0xffffu32, (7u32 | (0u32 << 8u32)));
                layout::lemma_plain_header(enc[0], 7u32, 0u32);
            },
            Pkt::PollRegmem(p) => {
                layout::lemma_packet_roundtrip(buf, PollRegmem::bit_fields(), p.bit_values(), PollRegmem::join_fields(), p.join_values(), PollRegmem::tail(), p.tail_data(), PollRegmem::STATIC_DWORDS as nat);
                let enc = p.spec_encode(buf);
                layout::lemma_header_keeps_packet(enc, PollRegmem::bit_fields(), p.bit_values(), PollRegmem::join_fields(), p.join_values(), PollRegmem::tail(), p.tail_data(), PollRegmem::STATIC_DWORDS as nat, 0xffffu32, (8u32 | (0u32 << 8u32)));
                layout::lemma_plain_header(enc[0], 8u32, 0u32);
            },
            Pkt::CondExe(p) => {
                layout::lemma_packet_roundtrip(buf, CondExe::bit_fields(), p.bit_values(), CondExe::join_fields(), p.join_values(), CondExe::tail(), p.tail_data(), CondExe::STATIC_DWORDS as nat);
                let enc = p.spec_encode(buf);
                layout::lemma_header_keeps_packet(enc, CondExe::bit_fields(), p.bit_values(), CondExe::join_fields(), p.join_values(), CondExe::tail(), p.tail_data(), CondExe::STATIC_DWORDS as nat, 0xffffu32, (9u32 | (0u32 << 8u32)));
                layout::lemma_plain_header(enc[0], 9u32, 0u32);
            },
            Pkt::ConstFill(p) => {
                layout::lemma_packet_roundtrip(buf, ConstFill::bit_fields(), p.bit_values(), ConstFill::join_fields(), p.join_values(), ConstFill::tail(), p.tail_data(), ConstFill::STATIC_DWORDS as nat);
                let enc = p.spec_encode(buf);
                layout::lemma_header_keeps_packet(enc, ConstFill::bit_fields(), p.bit_values(), ConstFill::join_fields(), p.join_values(), ConstFill::tail(), p.tail_data(), ConstFill::STATIC_DWORDS as nat, 0xffffu32, (11u32 | (0u32 << 8u32)));
                layout::lemma_plain_header(enc[0], 11u32, 0u32);
            },
            Pkt::GenPtepde(p) => {
                layout::lemma_packet_roundtrip(buf, GenPtepde::bit_fields(), p.bit_values(), GenPtepde::join_fields(), p.join_values(), GenPtepde::tail(), p.tail_data(), GenPtepde::STATIC_DWORDS as nat);
                let enc = p.spec_encode(buf);
                layout::lemma_header_keeps_packet(enc, GenPtepde::bit_fields(), p.bit_values(), GenPtepde::join_fields(), p.join_values(), GenPtepde::tail(), p.tail_data(), GenPtepde::STATIC_DWORDS as nat, 0xffffu32, (12u32 | (0u32 << 8u32)));
                layout::lemma_plain_header(enc[0], 12u32, 0u32);
            },
            Pkt::TimestampSet(p) => {
                layout::lemma_packet_roundtrip(buf, TimestampSet::bit_fields(), p.bit_values(), TimestampSet::join_fields(), p.join_values(), TimestampSet::tail(), p.tail_data(), TimestampSet::STATIC_DWORDS as nat);
                let enc = p.spec_encode(buf);
                layout::lemma_header_keeps_packet(enc, TimestampSet::bit_fields(), p.bit_values(), TimestampSet::join_fields(), p.join_values(), TimestampSet::tail(), p.tail_data(), TimestampSet::STATIC_DWORDS as nat, 0xffffu32, (13u32 | (0u32 << 8u32)));
                layout::lemma_plain_header(enc[0], 13u32, 0u32);
            },
            Pkt::TimestampGet(p) => {
                layout::lemma_packet_roundtrip(buf, TimestampGet::bit_fields(), p.bit_values(), TimestampGet::join_fields(), p.join_values(), TimestampGet::tail(), p.tail_data(), TimestampGet::STATIC_DWORDS as nat);
                let enc = p.spec_encode(buf);
                layout::lemma_header_keeps_packet(enc, TimestampGet::bit_fields(), p.bit_values(), TimestampGet::join_fields(), p.join_values(), TimestampGet::tail(), p.tail_data(), TimestampGet::STATIC_DWORDS as nat, 0xffffu32, (13u32 | (1u32 << 8u32)));
                layout::lemma_plain_header(enc[0], 13u32, 1u32);
            },
            Pkt::TimestampGetGlobal(p) => {
                layout::lemma_packet_roundtrip(buf, TimestampGetGlobal::bit_fields(), p.bit_values(), TimestampGetGlobal::join_fields(), p.join_values(), TimestampGetGlobal::tail(), p.tail_data(), TimestampGetGlobal::STATIC_DWORDS as nat);
                let enc = p.spec_encode(buf);
                layout::lemma_header_keeps_packet(enc, TimestampGetGlobal::bit_fields(), p.bit_values(), TimestampGetGlobal::join_fields(), p.join_values(), TimestampGetGlobal::tail(), p.tail_data(), TimestampGetGlobal::STATIC_DWORDS as nat, 0xffffu32, (13u32 | (2u32 << 8u32)));
                layout::lemma_plain_header(enc[0], 13u32, 2u32);
            },
            Pkt::SrbmWrite(p) => {
                layout::lemma_packet_roundtrip(buf, SrbmWrite::bit_fields(), p.bit_values(), SrbmWrite::join_fields(), p.join_values(), SrbmWrite::tail(), p.tail_data(), SrbmWrite::STATIC_DWORDS as nat);
                let enc = p.spec_encode(buf);
                layout::lemma_header_keeps_packet(enc, SrbmWrite::bit_fields(), p.bit_values(), SrbmWrite::join_fields(), p.join_values(), SrbmWrite::tail(), p.tail_data(), SrbmWrite::STATIC_DWORDS as nat, 0xffffu32, (14u32 | (0u32 << 8u32)));
                layout::lemma_plain_header(enc[0], 14u32, 0u32);
            },
            Pkt::PreExe(p) => {
                layout::lemma_packet_roundtrip(buf, PreExe::bit_fields(), p.bit_values(), PreExe::join_fields(), p.join_values(), PreExe::tail(), p.tail_data(), PreExe::STATIC_DWORDS as nat);
                let enc = p.spec_encode(buf);
                layout::lemma_header_keeps_packet(enc, PreExe::bit_fields(), p.bit_values(), PreExe::join_fields(), p.join_values(), PreExe::tail(), p.tail_data(), PreExe::STATIC_DWORDS as nat, 0xffffu32, (15u32 | (0u32 << 8u32)));
                layout::lemma_plain_header(enc[0], 15u32, 0u32);
            },
        }
    }

    /// Reading a packet is exact: two packets read from one buffer are equal.
    pub proof fn lemma_read_unique(a: Self, b: Self, buf: Seq<u32>)
        requires
            a.read_from(buf),
            b.read_from(buf),
        ensures
            a == b,
    {
        match a {
            Pkt::CopyLinear(x) => {
                if let Pkt::CopyLinear(y) = b {
                    CopyLinear::lemma_read_unique(x, y, buf);
                }
            },
            Pkt::CopyLinearBroadcast(x) => {
                if let Pkt::CopyLinearBroadcast(y) = b {
                    CopyLinearBroadcast::lemma_read_unique(x, y, buf);
                }
            },
            Pkt::CopyTiled(x) => {
                if let Pkt::CopyTiled(y) = b {
                    CopyTiled::lemma_read_unique(x, y, buf);
                }
            },
            Pkt::CopyLinearToTiledBroadcast(x) => {
                if let Pkt::CopyLinearToTiledBroadcast(y) = b {
                    CopyLinearToTiledBroadcast::lemma_read_unique(x, y, buf);
                }
            },
            Pkt::Nop(x) => {
                if let Pkt::Nop(y) = b {
                    Nop::lemma_read_unique(x, y, buf);
                }
            },
            Pkt::CopyStruct(x) => {
                if let Pkt::CopyStruct(y) = b {
                    CopyStruct::lemma_read_unique(x, y, buf);
                }
            },
            Pkt::CopyLinearSubWindow(x) => {
                if let Pkt::CopyLinearSubWindow(y) = b {
                    CopyLinearSubWindow::lemma_read_unique(x, y, buf);
                }
            },
            Pkt::CopyTiledSubWindow(x) => {
                if let Pkt::CopyTiledSubWindow(y) = b {
                    CopyTiledSubWindow::lemma_read_unique(x, y, buf);
                }
            },
            Pkt::CopyTiledToTiled(x) => {
                if let Pkt::CopyTiledToTiled(y) = b {
                    CopyTiledToTiled::lemma_read_unique(x, y, buf);
                }
            },
            Pkt::WriteUntiled(x) => {
                if let Pkt::WriteUntiled(y) = b {
                    WriteUntiled::lemma_read_unique(x, y, buf);
                }
            },
            Pkt::WriteTiled(x) => {
                if let Pkt::WriteTiled(y) = b {
                    WriteTiled::lemma_read_unique(x, y, buf);
                }
            },
            Pkt::IndirectBuffer(x) => {
                if let Pkt::IndirectBuffer(y) = b {
                    IndirectBuffer::lemma_read_unique(x, y, buf);
                }
            },
            Pkt::Fence(x) => {
                if let Pkt::Fence(y) = b {
                    Fence::lemma_read_unique(x, y, buf);
                }
            },
            Pkt::Trap(x) => {
                if let Pkt::Trap(y) = b {
                    Trap::lemma_read_unique(x, y, buf);
                }
            },
            Pkt::Semaphore(x) => {
                if let Pkt::Semaphore(y) = b {
                    Semaphore::lemma_read_unique(x, y, buf);
                }
            },
            Pkt::PollRegmem(x) => {
                if let Pkt::PollRegmem(y) = b {
                    PollRegmem::lemma_read_unique(x, y, buf);
                }
            },
            Pkt::CondExe(x) => {
                if let Pkt::CondExe(y) = b {
                    CondExe::lemma_read_unique(x, y, buf);
                }
            },
            Pkt::ConstFill(x) => {
                if let Pkt::ConstFill(y) = b {
                    ConstFill::lemma_read_unique(x, y, buf);
                }
            },
            Pkt::GenPtepde(x) => {
                if let Pkt::GenPtepde(y) = b {
                    GenPtepde::lemma_read_unique(x, y, buf);
                }
            },
            Pkt::TimestampSet(x) => {
                if let Pkt::TimestampSet(y) = b {
                    TimestampSet::lemma_read_unique(x, y, buf);
                }
            },
            Pkt::TimestampGet(x) => {
                if let Pkt::TimestampGet(y) = b {
                    TimestampGet::lemma_read_unique(x, y, buf);
                }
            },
            Pkt::TimestampGetGlobal(x) => {
                if let Pkt::TimestampGetGlobal(y) = b {
                    TimestampGetGlobal::lemma_read_unique(x, y, buf);
                }
            },
            Pkt::SrbmWrite(x) => {
                if let Pkt::SrbmWrite(y) = b {
                    SrbmWrite::lemma_read_unique(x, y, buf);
                }
            },
            Pkt::PreExe(x) => {
                if let Pkt::PreExe(y) = b {
                    PreExe::lemma_read_unique(x, y, buf);
                }
            },
        }
    }

    /// Whether this packet's layout is well formed.
    pub fn layout_ok(&self) -> (r: bool)
        ensures
            r == self.layout_wf(),
    {
        match self {
            Pkt::CopyLinear(p) => CopyLinear::layout_ok(),
            Pkt::CopyLinearBroadcast(p) => CopyLinearBroadcast::layout_ok(),
            Pkt::CopyTiled(p) => CopyTiled::layout_ok(),
            Pkt::CopyLinearToTiledBroadcast(p) => CopyLinearToTiledBroadcast::layout_ok(),
            Pkt::Nop(p) => Nop::layout_ok(),
            Pkt::CopyStruct(p) => CopyStruct::layout_ok(),
            Pkt::CopyLinearSubWindow(p) => CopyLinearSubWindow::layout_ok(),
            Pkt::CopyTiledSubWindow(p) => CopyTiledSubWindow::layout_ok(),
            Pkt::CopyTiledToTiled(p) => CopyTiledToTiled::layout_ok(),
            Pkt::WriteUntiled(p) => WriteUntiled::layout_ok(),
            Pkt::WriteTiled(p) => WriteTiled::layout_ok(),
            Pkt::IndirectBuffer(p) => IndirectBuffer::layout_ok(),
            Pkt::Fence(p) => Fence::layout_ok(),
            Pkt::Trap(p) => Trap::layout_ok(),
            Pkt::Semaphore(p) => Semaphore::layout_ok(),
            Pkt::PollRegmem(p) => PollRegmem::layout_ok(),
            Pkt::CondExe(p) => CondExe::layout_ok(),
            Pkt::ConstFill(p) => ConstFill::layout_ok(),
            Pkt::GenPtepde(p) => GenPtepde::layout_ok(),
            Pkt::TimestampSet(p) => TimestampSet::layout_ok(),
            Pkt::TimestampGet(p) => TimestampGet::layout_ok(),
            Pkt::TimestampGetGlobal(p) => TimestampGetGlobal::layout_ok(),
            Pkt::SrbmWrite(p) => SrbmWrite::layout_ok(),
            Pkt::PreExe(p) => PreExe::layout_ok(),
        }
    }

}

} // verus!
