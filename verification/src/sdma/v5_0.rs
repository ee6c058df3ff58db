use vstd::prelude::*;

use super::layout;
use super::layout::{BitField, JoinField, DynField, layout_is_wf, encode_bit_fields, decode_bit_fields, encode_join_fields, decode_join_fields, encode_tail, decode_tail, to_bit, put_header};
pub use super::v4_4::PollRegWriteMem;
pub use super::v4_4::PollDbitWriteMem;
pub use super::v4_4::PollMemVerify;
pub use super::v4_4::Atomic;

verus! {

/// The `CopyLinear` packet.
#[derive(Clone, Copy, Default)]
pub struct CopyLinear {
    pub encrypt: bool,
    pub tmz: bool,
    pub backwards: bool,
    pub broadcast: bool,
    pub count: u32,
    pub dst_sw: u8,
    pub src_sw: u8,
    pub src_addr: u64,
    pub dst_addr: u64,
}

impl CopyLinear {
    /// Dwords of the packet before its variable-length tail.
    pub const STATIC_DWORDS: usize = 7;

    pub open spec fn bit_fields() -> Seq<BitField> {
        seq![BitField { dw: 0, mask: 0x1, shift: 16 }, BitField { dw: 0, mask: 0x1, shift: 18 }, BitField { dw: 0, mask: 0x1, shift: 25 }, BitField { dw: 0, mask: 0x1, shift: 27 }, BitField { dw: 1, mask: 0x3fffff, shift: 0 }, BitField { dw: 2, mask: 0x3, shift: 16 }, BitField { dw: 2, mask: 0x3, shift: 24 }]
    }

    pub open spec fn join_fields() -> Seq<JoinField> {
        seq![JoinField { lo: 3, hi: 4 }, JoinField { lo: 5, hi: 6 }]
    }

    pub open spec fn tail() -> Option<DynField> {
        None
    }

    pub open spec fn bit_values(self) -> Seq<u32> {
        seq![layout::bool_bit(self.encrypt), layout::bool_bit(self.tmz), layout::bool_bit(self.backwards), layout::bool_bit(self.broadcast), self.count, self.dst_sw as u32, self.src_sw as u32]
    }

    pub open spec fn join_values(self) -> Seq<u64> {
        seq![self.src_addr, self.dst_addr]
    }

    pub open spec fn tail_data(self) -> Seq<u32> {
        Seq::<u32>::empty()
    }

    /// Every field value fits its field.
    pub open spec fn fits(self) -> bool {
        layout::fields_fit(Self::bit_fields(), self.bit_values()) && layout::tail_fits(Self::tail(), self.tail_data())
    }

    pub open spec fn layout_wf() -> bool {
        layout::layout_wf(Self::bit_fields(), Self::join_fields(), Self::tail(), Self::STATIC_DWORDS as nat)
    }

    /// Dwords that the packet takes.
    pub open spec fn size(self) -> nat {
        (Self::STATIC_DWORDS + self.tail_data().len()) as nat
    }

    /// The buffer holds the whole packet.
    pub open spec fn decodable(buf: Seq<u32>) -> bool {
        buf.len() >= Self::STATIC_DWORDS
    }

    pub open spec fn spec_encode(self, buf: Seq<u32>) -> Seq<u32> {
        layout::encode_packet(
            buf,
            Self::bit_fields(),
            self.bit_values(),
            Self::join_fields(),
            self.join_values(),
            Self::tail(),
            self.tail_data(),
        )
    }

    /// `buf` holds this packet.
    pub open spec fn read_from(self, buf: Seq<u32>) -> bool {
        layout::packet_reads(
            buf,
            Self::bit_fields(),
            self.bit_values(),
            Self::join_fields(),
            self.join_values(),
            Self::tail(),
            self.tail_data(),
        )
    }

    fn exec_bit_fields() -> (r: Vec<BitField>)
        ensures
            r@ == Self::bit_fields(),
    {
        vec![BitField { dw: 0, mask: 0x1, shift: 16 }, BitField { dw: 0, mask: 0x1, shift: 18 }, BitField { dw: 0, mask: 0x1, shift: 25 }, BitField { dw: 0, mask: 0x1, shift: 27 }, BitField { dw: 1, mask: 0x3fffff, shift: 0 }, BitField { dw: 2, mask: 0x3, shift: 16 }, BitField { dw: 2, mask: 0x3, shift: 24 }]
    }

    fn exec_join_fields() -> (r: Vec<JoinField>)
        ensures
            r@ == Self::join_fields(),
    {
        vec![JoinField { lo: 3, hi: 4 }, JoinField { lo: 5, hi: 6 }]
    }

    /// Whether the field layout of this packet is well formed.
    pub fn layout_ok() -> (r: bool)
        ensures
            r == Self::layout_wf(),
    {
        layout_is_wf(&Self::exec_bit_fields(), &Self::exec_join_fields(), None, Self::STATIC_DWORDS)
    }

    /// Writes the packet to the start of `buff`, without its header, and
    /// returns how many dwords it took.
    pub fn partial_encode_linear(&self, buff: &mut [u32]) -> (n: usize)
        requires
            old(buff)@.len() >= self.size(),
            self.fits(),
        ensures
            n == self.size(),
            final(buff)@ == self.spec_encode(old(buff)@),
            final(buff)@.len() == old(buff)@.len(),
    {
        let bits = Self::exec_bit_fields();
        let vals: Vec<u32> = vec![to_bit(self.encrypt), to_bit(self.tmz), to_bit(self.backwards), to_bit(self.broadcast), self.count, layout::widen_u8(self.dst_sw), layout::widen_u8(self.src_sw)];
        let joins = Self::exec_join_fields();
        let jvals: Vec<u64> = vec![self.src_addr, self.dst_addr];
        proof {
            assert(vals@ =~= self.bit_values());
            assert(jvals@ =~= self.join_values());
        }
        encode_bit_fields(&bits, &vals, buff);
        encode_join_fields(&joins, &jvals, buff);
        Self::STATIC_DWORDS
    }

    /// Reads the packet at the start of `buff` and returns how many dwords it
    /// took.
    pub fn partial_decode_linear(buff: &[u32]) -> (r: (usize, Self))
        requires
            Self::decodable(buff@),
        ensures
            r.0 == r.1.size(),
            r.1.read_from(buff@),
    {
        let bits = Self::exec_bit_fields();
        let v = decode_bit_fields(&bits, buff);
        let joins = Self::exec_join_fields();
        let j = decode_join_fields(&joins, buff);
        let p = Self { encrypt: v[0] != 0, tmz: v[1] != 0, backwards: v[2] != 0, broadcast: v[3] != 0, count: v[4], dst_sw: layout::narrow_u8(v[5]), src_sw: layout::narrow_u8(v[6]), src_addr: j[0], dst_addr: j[1] };
        proof {
            assert(p.bit_values() =~= v@);
            assert(p.join_values() =~= j@);
        }
        (Self::STATIC_DWORDS, p)
    }

    /// Where each field stands in a buffer that the packet is read from, as
    /// the packet header lays it out: a bit field under its mask and shift
    /// in its dword, a 64-bit field in two dwords, low half first. By
    /// `lemma_roundtrip`, encoding a packet puts its fields there.
    pub proof fn lemma_field_positions(self, buf: Seq<u32>)
        requires
            self.read_from(buf),
        ensures
            layout::bool_bit(self.encrypt) == layout::get_bits(buf[0], 0x1, 16),
            layout::bool_bit(self.tmz) == layout::get_bits(buf[0], 0x1, 18),
            layout::bool_bit(self.backwards) == layout::get_bits(buf[0], 0x1, 25),
            layout::bool_bit(self.broadcast) == layout::get_bits(buf[0], 0x1, 27),
            self.count == layout::get_bits(buf[1], 0x3fffff, 0),
            layout::u8_value(self.dst_sw) == layout::get_bits(buf[2], 0x3, 16),
            layout::u8_value(self.src_sw) == layout::get_bits(buf[2], 0x3, 24),
            self.src_addr == layout::dword_pair(buf[3], buf[4]),
            self.dst_addr == layout::dword_pair(buf[5], buf[6]),
    {
        assert(self.bit_values()[0] == layout::bool_bit(self.encrypt));
        assert(layout::decode_bits(buf, Self::bit_fields())[0] == self.bit_values()[0]);
        assert(self.bit_values()[1] == layout::bool_bit(self.tmz));
        assert(layout::decode_bits(buf, Self::bit_fields())[1] == self.bit_values()[1]);
        assert(self.bit_values()[2] == layout::bool_bit(self.backwards));
        assert(layout::decode_bits(buf, Self::bit_fields())[2] == self.bit_values()[2]);
        assert(self.bit_values()[3] == layout::bool_bit(self.broadcast));
        assert(layout::decode_bits(buf, Self::bit_fields())[3] == self.bit_values()[3]);
        assert(self.bit_values()[4] == self.count);
        assert(layout::decode_bits(buf, Self::bit_fields())[4] == self.bit_values()[4]);
        assert(self.bit_values()[5] == layout::u8_value(self.dst_sw));
        assert(layout::decode_bits(buf, Self::bit_fields())[5] == self.bit_values()[5]);
        assert(self.bit_values()[6] == layout::u8_value(self.src_sw));
        assert(layout::decode_bits(buf, Self::bit_fields())[6] == self.bit_values()[6]);
        assert(layout::decode_joins(buf, Self::join_fields())[0] == self.join_values()[0]);
        assert(layout::decode_joins(buf, Self::join_fields())[1] == self.join_values()[1]);
    }

    /// The field values name the packet: two packets with the same values are
    /// equal.
    pub proof fn lemma_values_determine(a: Self, b: Self)
        requires
            a.bit_values() == b.bit_values(),
            a.join_values() == b.join_values(),
            a.tail_data() == b.tail_data(),
        ensures
            a == b,
    {
        assert(a.bit_values()[0] == layout::bool_bit(a.encrypt) && b.bit_values()[0] == layout::bool_bit(b.encrypt));
        assert(a.bit_values()[1] == layout::bool_bit(a.tmz) && b.bit_values()[1] == layout::bool_bit(b.tmz));
        assert(a.bit_values()[2] == layout::bool_bit(a.backwards) && b.bit_values()[2] == layout::bool_bit(b.backwards));
        assert(a.bit_values()[3] == layout::bool_bit(a.broadcast) && b.bit_values()[3] == layout::bool_bit(b.broadcast));
        assert(a.bit_values()[4] == a.count && b.bit_values()[4] == b.count);
        assert(a.bit_values()[5] == layout::u8_value(a.dst_sw) && b.bit_values()[5] == layout::u8_value(b.dst_sw));
        assert(a.bit_values()[6] == layout::u8_value(a.src_sw) && b.bit_values()[6] == layout::u8_value(b.src_sw));
        assert(a.join_values()[0] == a.src_addr && b.join_values()[0] == b.src_addr);
        assert(a.join_values()[1] == a.dst_addr && b.join_values()[1] == b.dst_addr);
    }

    /// Reading a packet is exact: two packets read from one buffer are equal.
    pub proof fn lemma_read_unique(a: Self, b: Self, buf: Seq<u32>)
        requires
            a.read_from(buf),
            b.read_from(buf),
        ensures
            a == b,
    {
        layout::lemma_reads_determine(
            buf,
            Self::bit_fields(),
            a.bit_values(),
            b.bit_values(),
            Self::join_fields(),
            a.join_values(),
            b.join_values(),
            Self::tail(),
            a.tail_data(),
            b.tail_data(),
        );
        Self::lemma_values_determine(a, b);
    }

    /// A packet reads back from what it was encoded to.
    pub proof fn lemma_roundtrip(self, buf: Seq<u32>)
        requires
            Self::layout_wf(),
            self.fits(),
            buf.len() >= self.size(),
        ensures
            self.read_from(self.spec_encode(buf)),
            Self::decodable(self.spec_encode(buf)),
            self.spec_encode(buf).len() == buf.len(),
    {
        layout::lemma_packet_roundtrip(
            buf,
            Self::bit_fields(),
            self.bit_values(),
            Self::join_fields(),
            self.join_values(),
            Self::tail(),
            self.tail_data(),
            Self::STATIC_DWORDS as nat,
        );
    }
}

/// The `CopyLinearBc` packet.
#[derive(Clone, Copy, Default)]
pub struct CopyLinearBc {
    pub count: u32,
    pub dst_sw: u8,
    pub dst_ha: bool,
    pub src_sw: u8,
    pub src_ha: bool,
    pub src_addr: u64,
    pub dst_addr: u64,
}

impl CopyLinearBc {
    /// Dwords of the packet before its variable-length tail.
    pub const STATIC_DWORDS: usize = 7;

    pub open spec fn bit_fields() -> Seq<BitField> {
        seq![BitField { dw: 1, mask: 0x3fffff, shift: 0 }, BitField { dw: 2, mask: 0x3, shift: 16 }, BitField { dw: 2, mask: 0x1, shift: 22 }, BitField { dw: 2, mask: 0x3, shift: 24 }, BitField { dw: 2, mask: 0x1, shift: 30 }]
    }

    pub open spec fn join_fields() -> Seq<JoinField> {
        seq![JoinField { lo: 3, hi: 4 }, JoinField { lo: 5, hi: 6 }]
    }

    pub open spec fn tail() -> Option<DynField> {
        None
    }

    pub open spec fn bit_values(self) -> Seq<u32> {
        seq![self.count, self.dst_sw as u32, layout::bool_bit(self.dst_ha), self.src_sw as u32, layout::bool_bit(self.src_ha)]
    }

    pub open spec fn join_values(self) -> Seq<u64> {
        seq![self.src_addr, self.dst_addr]
    }

    pub open spec fn tail_data(self) -> Seq<u32> {
        Seq::<u32>::empty()
    }

    /// Every field value fits its field.
    pub open spec fn fits(self) -> bool {
        layout::fields_fit(Self::bit_fields(), self.bit_values()) && layout::tail_fits(Self::tail(), self.tail_data())
    }

    pub open spec fn layout_wf() -> bool {
        layout::layout_wf(Self::bit_fields(), Self::join_fields(), Self::tail(), Self::STATIC_DWORDS as nat)
    }

    /// Dwords that the packet takes.
    pub open spec fn size(self) -> nat {
        (Self::STATIC_DWORDS + self.tail_data().len()) as nat
    }

    /// The buffer holds the whole packet.
    pub open spec fn decodable(buf: Seq<u32>) -> bool {
        buf.len() >= Self::STATIC_DWORDS
    }

    pub open spec fn spec_encode(self, buf: Seq<u32>) -> Seq<u32> {
        layout::encode_packet(
            buf,
            Self::bit_fields(),
            self.bit_values(),
            Self::join_fields(),
            self.join_values(),
            Self::tail(),
            self.tail_data(),
        )
    }

    /// `buf` holds this packet.
    pub open spec fn read_from(self, buf: Seq<u32>) -> bool {
        layout::packet_reads(
            buf,
            Self::bit_fields(),
            self.bit_values(),
            Self::join_fields(),
            self.join_values(),
            Self::tail(),
            self.tail_data(),
        )
    }

    fn exec_bit_fields() -> (r: Vec<BitField>)
        ensures
            r@ == Self::bit_fields(),
    {
        vec![BitField { dw: 1, mask: 0x3fffff, shift: 0 }, BitField { dw: 2, mask: 0x3, shift: 16 }, BitField { dw: 2, mask: 0x1, shift: 22 }, BitField { dw: 2, mask: 0x3, shift: 24 }, BitField { dw: 2, mask: 0x1, shift: 30 }]
    }

    fn exec_join_fields() -> (r: Vec<JoinField>)
        ensures
            r@ == Self::join_fields(),
    {
        vec![JoinField { lo: 3, hi: 4 }, JoinField { lo: 5, hi: 6 }]
    }

    /// Whether the field layout of this packet is well formed.
    pub fn layout_ok() -> (r: bool)
        ensures
            r == Self::layout_wf(),
    {
        layout_is_wf(&Self::exec_bit_fields(), &Self::exec_join_fields(), None, Self::STATIC_DWORDS)
    }

    /// Writes the packet to the start of `buff`, without its header, and
    /// returns how many dwords it took.
    pub fn partial_encode_linear(&self, buff: &mut [u32]) -> (n: usize)
        requires
            old(buff)@.len() >= self.size(),
            self.fits(),
        ensures
            n == self.size(),
            final(buff)@ == self.spec_encode(old(buff)@),
            final(buff)@.len() == old(buff)@.len(),
    {
        let bits = Self::exec_bit_fields();
        let vals: Vec<u32> = vec![self.count, layout::widen_u8(self.dst_sw), to_bit(self.dst_ha), layout::widen_u8(self.src_sw), to_bit(self.src_ha)];
        let joins = Self::exec_join_fields();
        let jvals: Vec<u64> = vec![self.src_addr, self.dst_addr];
        proof {
            assert(vals@ =~= self.bit_values());
            assert(jvals@ =~= self.join_values());
        }
        encode_bit_fields(&bits, &vals, buff);
        encode_join_fields(&joins, &jvals, buff);
        Self::STATIC_DWORDS
    }

    /// Reads the packet at the start of `buff` and returns how many dwords it
    /// took.
    pub fn partial_decode_linear(buff: &[u32]) -> (r: (usize, Self))
        requires
            Self::decodable(buff@),
        ensures
            r.0 == r.1.size(),
            r.1.read_from(buff@),
    {
        let bits = Self::exec_bit_fields();
        let v = decode_bit_fields(&bits, buff);
        let joins = Self::exec_join_fields();
        let j = decode_join_fields(&joins, buff);
        let p = Self { count: v[0], dst_sw: layout::narrow_u8(v[1]), dst_ha: v[2] != 0, src_sw: layout::narrow_u8(v[3]), src_ha: v[4] != 0, src_addr: j[0], dst_addr: j[1] };
        proof {
            assert(p.bit_values() =~= v@);
            assert(p.join_values() =~= j@);
        }
        (Self::STATIC_DWORDS, p)
    }

    /// Where each field stands in a buffer that the packet is read from, as
    /// the packet header lays it out: a bit field under its mask and shift
    /// in its dword, a 64-bit field in two dwords, low half first. By
    /// `lemma_roundtrip`, encoding a packet puts its fields there.
    pub proof fn lemma_field_positions(self, buf: Seq<u32>)
        requires
            self.read_from(buf),
        ensures
            self.count == layout::get_bits(buf[1], 0x3fffff, 0),
            layout::u8_value(self.dst_sw) == layout::get_bits(buf[2], 0x3, 16),
            layout::bool_bit(self.dst_ha) == layout::get_bits(buf[2], 0x1, 22),
            layout::u8_value(self.src_sw) == layout::get_bits(buf[2], 0x3, 24),
            layout::bool_bit(self.src_ha) == layout::get_bits(buf[2], 0x1, 30),
            self.src_addr == layout::dword_pair(buf[3], buf[4]),
            self.dst_addr == layout::dword_pair(buf[5], buf[6]),
    {
        assert(self.bit_values()[0] == self.count);
        assert(layout::decode_bits(buf, Self::bit_fields())[0] == self.bit_values()[0]);
        assert(self.bit_values()[1] == layout::u8_value(self.dst_sw));
        assert(layout::decode_bits(buf, Self::bit_fields())[1] == self.bit_values()[1]);
        assert(self.bit_values()[2] == layout::bool_bit(self.dst_ha));
        assert(layout::decode_bits(buf, Self::bit_fields())[2] == self.bit_values()[2]);
        assert(self.bit_values()[3] == layout::u8_value(self.src_sw));
        assert(layout::decode_bits(buf, Self::bit_fields())[3] == self.bit_values()[3]);
        assert(self.bit_values()[4] == layout::bool_bit(self.src_ha));
        assert(layout::decode_bits(buf, Self::bit_fields())[4] == self.bit_values()[4]);
        assert(layout::decode_joins(buf, Self::join_fields())[0] == self.join_values()[0]);
        assert(layout::decode_joins(buf, Self::join_fields())[1] == self.join_values()[1]);
    }

    /// The field values name the packet: two packets with the same values are
    /// equal.
    pub proof fn lemma_values_determine(a: Self, b: Self)
        requires
            a.bit_values() == b.bit_values(),
            a.join_values() == b.join_values(),
            a.tail_data() == b.tail_data(),
        ensures
            a == b,
    {
        assert(a.bit_values()[0] == a.count && b.bit_values()[0] == b.count);
        assert(a.bit_values()[1] == layout::u8_value(a.dst_sw) && b.bit_values()[1] == layout::u8_value(b.dst_sw));
        assert(a.bit_values()[2] == layout::bool_bit(a.dst_ha) && b.bit_values()[2] == layout::bool_bit(b.dst_ha));
        assert(a.bit_values()[3] == layout::u8_value(a.src_sw) && b.bit_values()[3] == layout::u8_value(b.src_sw));
        assert(a.bit_values()[4] == layout::bool_bit(a.src_ha) && b.bit_values()[4] == layout::bool_bit(b.src_ha));
        assert(a.join_values()[0] == a.src_addr && b.join_values()[0] == b.src_addr);
        assert(a.join_values()[1] == a.dst_addr && b.join_values()[1] == b.dst_addr);
    }

    /// Reading a packet is exact: two packets read from one buffer are equal.
    pub proof fn lemma_read_unique(a: Self, b: Self, buf: Seq<u32>)
        requires
            a.read_from(buf),
            b.read_from(buf),
        ensures
            a == b,
    {
        layout::lemma_reads_determine(
            buf,
            Self::bit_fields(),
            a.bit_values(),
            b.bit_values(),
            Self::join_fields(),
            a.join_values(),
            b.join_values(),
            Self::tail(),
            a.tail_data(),
            b.tail_data(),
        );
        Self::lemma_values_determine(a, b);
    }

    /// A packet reads back from what it was encoded to.
    pub proof fn lemma_roundtrip(self, buf: Seq<u32>)
        requires
            Self::layout_wf(),
            self.fits(),
            buf.len() >= self.size(),
        ensures
            self.read_from(self.spec_encode(buf)),
            Self::decodable(self.spec_encode(buf)),
            self.spec_encode(buf).len() == buf.len(),
    {
        layout::lemma_packet_roundtrip(
            buf,
            Self::bit_fields(),
            self.bit_values(),
            Self::join_fields(),
            self.join_values(),
            Self::tail(),
            self.tail_data(),
            Self::STATIC_DWORDS as nat,
        );
    }
}

/// The `CopyDirtyPage` packet.
#[derive(Clone, Copy, Default)]
pub struct CopyDirtyPage {
    pub tmz: bool,
    pub all: bool,
    pub count: u32,
    pub dst_mtype: u8,
    pub dst_l2_policy: u8,
    pub src_mtype: u8,
    pub src_l2_policy: u8,
    pub dst_sw: u8,
    pub dst_gcc: bool,
    pub dst_sys: bool,
    pub dst_snoop: bool,
    pub dst_gpa: bool,
    pub src_sw: u8,
    pub src_sys: bool,
    pub src_snoop: bool,
    pub src_gpa: bool,
    pub src_addr: u64,
    pub dst_addr: u64,
}

impl CopyDirtyPage {
    /// Dwords of the packet before its variable-length tail.
    pub const STATIC_DWORDS: usize = 7;

    pub open spec fn bit_fields() -> Seq<BitField> {
        seq![BitField { dw: 0, mask: 0x1, shift: 18 }, BitField { dw: 0, mask: 0x1, shift: 31 }, BitField { dw: 1, mask: 0x3fffff, shift: 0 }, BitField { dw: 2, mask: 0x7, shift: 3 }, BitField { dw: 2, mask: 0x3, shift: 6 }, BitField { dw: 2, mask: 0x7, shift: 11 }, BitField { dw: 2, mask: 0x3, shift: 14 }, BitField { dw: 2, mask: 0x3, shift: 16 }, BitField { dw: 2, mask: 0x1, shift: 19 }, BitField { dw: 2, mask: 0x1, shift: 20 }, BitField { dw: 2, mask: 0x1, shift: 22 }, BitField { dw: 2, mask: 0x1, shift: 23 }, BitField { dw: 2, mask: 0x3, shift: 24 }, BitField { dw: 2, mask: 0x1, shift: 28 }, BitField { dw: 2, mask: 0x1, shift: 30 }, BitField { dw: 2, mask: 0x1, shift: 31 }]
    }

    pub open spec fn join_fields() -> Seq<JoinField> {
        seq![JoinField { lo: 3, hi: 4 }, JoinField { lo: 5, hi: 6 }]
    }

    pub open spec fn tail() -> Option<DynField> {
        None
    }

    pub open spec fn bit_values(self) -> Seq<u32> {
        seq![layout::bool_bit(self.tmz), layout::bool_bit(self.all), self.count, self.dst_mtype as u32, self.dst_l2_policy as u32, self.src_mtype as u32, self.src_l2_policy as u32, self.dst_sw as u32, layout::bool_bit(self.dst_gcc), layout::bool_bit(self.dst_sys), layout::bool_bit(self.dst_snoop), layout::bool_bit(self.dst_gpa), self.src_sw as u32, layout::bool_bit(self.src_sys), layout::bool_bit(self.src_snoop), layout::bool_bit(self.src_gpa)]
    }

    pub open spec fn join_values(self) -> Seq<u64> {
        seq![self.src_addr, self.dst_addr]
    }

    pub open spec fn tail_data(self) -> Seq<u32> {
        Seq::<u32>::empty()
    }

    /// Every field value fits its field.
    pub open spec fn fits(self) -> bool {
        layout::fields_fit(Self::bit_fields(), self.bit_values()) && layout::tail_fits(Self::tail(), self.tail_data())
    }

    pub open spec fn layout_wf() -> bool {
        layout::layout_wf(Self::bit_fields(), Self::join_fields(), Self::tail(), Self::STATIC_DWORDS as nat)
    }

    /// Dwords that the packet takes.
    pub open spec fn size(self) -> nat {
        (Self::STATIC_DWORDS + self.tail_data().len()) as nat
    }

    /// The buffer holds the whole packet.
    pub open spec fn decodable(buf: Seq<u32>) -> bool {
        buf.len() >= Self::STATIC_DWORDS
    }

    pub open spec fn spec_encode(self, buf: Seq<u32>) -> Seq<u32> {
        layout::encode_packet(
            buf,
            Self::bit_fields(),
            self.bit_values(),
            Self::join_fields(),
            self.join_values(),
            Self::tail(),
            self.tail_data(),
        )
    }

    /// `buf` holds this packet.
    pub open spec fn read_from(self, buf: Seq<u32>) -> bool {
        layout::packet_reads(
            buf,
            Self::bit_fields(),
            self.bit_values(),
            Self::join_fields(),
            self.join_values(),
            Self::tail(),
            self.tail_data(),
        )
    }

    fn exec_bit_fields() -> (r: Vec<BitField>)
        ensures
            r@ == Self::bit_fields(),
    {
        vec![BitField { dw: 0, mask: 0x1, shift: 18 }, BitField { dw: 0, mask: 0x1, shift: 31 }, BitField { dw: 1, mask: 0x3fffff, shift: 0 }, BitField { dw: 2, mask: 0x7, shift: 3 }, BitField { dw: 2, mask: 0x3, shift: 6 }, BitField { dw: 2, mask: 0x7, shift: 11 }, BitField { dw: 2, mask: 0x3, shift: 14 }, BitField { dw: 2, mask: 0x3, shift: 16 }, BitField { dw: 2, mask: 0x1, shift: 19 }, BitField { dw: 2, mask: 0x1, shift: 20 }, BitField { dw: 2, mask: 0x1, shift: 22 }, BitField { dw: 2, mask: 0x1, shift: 23 }, BitField { dw: 2, mask: 0x3, shift: 24 }, BitField { dw: 2, mask: 0x1, shift: 28 }, BitField { dw: 2, mask: 0x1, shift: 30 }, BitField { dw: 2, mask: 0x1, shift: 31 }]
    }

    fn exec_join_fields() -> (r: Vec<JoinField>)
        ensures
            r@ == Self::join_fields(),
    {
        vec![JoinField { lo: 3, hi: 4 }, JoinField { lo: 5, hi: 6 }]
    }

    /// Whether the field layout of this packet is well formed.
    pub fn layout_ok() -> (r: bool)
        ensures
            r == Self::layout_wf(),
    {
        layout_is_wf(&Self::exec_bit_fields(), &Self::exec_join_fields(), None, Self::STATIC_DWORDS)
    }

    /// Writes the packet to the start of `buff`, without its header, and
    /// returns how many dwords it took.
    pub fn partial_encode_linear(&self, buff: &mut [u32]) -> (n: usize)
        requires
            old(buff)@.len() >= self.size(),
            self.fits(),
        ensures
            n == self.size(),
            final(buff)@ == self.spec_encode(old(buff)@),
            final(buff)@.len() == old(buff)@.len(),
    {
        let bits = Self::exec_bit_fields();
        let vals: Vec<u32> = vec![to_bit(self.tmz), to_bit(self.all), self.count, layout::widen_u8(self.dst_mtype), layout::widen_u8(self.dst_l2_policy), layout::widen_u8(self.src_mtype), layout::widen_u8(self.src_l2_policy), layout::widen_u8(self.dst_sw), to_bit(self.dst_gcc), to_bit(self.dst_sys), to_bit(self.dst_snoop), to_bit(self.dst_gpa), layout::widen_u8(self.src_sw), to_bit(self.src_sys), to_bit(self.src_snoop), to_bit(self.src_gpa)];
        let joins = Self::exec_join_fields();
        let jvals: Vec<u64> = vec![self.src_addr, self.dst_addr];
        proof {
            assert(vals@ =~= self.bit_values());
            assert(jvals@ =~= self.join_values());
        }
        encode_bit_fields(&bits, &vals, buff);
        encode_join_fields(&joins, &jvals, buff);
        Self::STATIC_DWORDS
    }

    /// Reads the packet at the start of `buff` and returns how many dwords it
    /// took.
    pub fn partial_decode_linear(buff: &[u32]) -> (r: (usize, Self))
        requires
            Self::decodable(buff@),
        ensures
            r.0 == r.1.size(),
            r.1.read_from(buff@),
    {
        let bits = Self::exec_bit_fields();
        let v = decode_bit_fields(&bits, buff);
        let joins = Self::exec_join_fields();
        let j = decode_join_fields(&joins, buff);
        let p = Self { tmz: v[0] != 0, all: v[1] != 0, count: v[2], dst_mtype: layout::narrow_u8(v[3]), dst_l2_policy: layout::narrow_u8(v[4]), src_mtype: layout::narrow_u8(v[5]), src_l2_policy: layout::narrow_u8(v[6]), dst_sw: layout::narrow_u8(v[7]), dst_gcc: v[8] != 0, dst_sys: v[9] != 0, dst_snoop: v[10] != 0, dst_gpa: v[11] != 0, src_sw: layout::narrow_u8(v[12]), src_sys: v[13] != 0, src_snoop: v[14] != 0, src_gpa: v[15] != 0, src_addr: j[0], dst_addr: j[1] };
        proof {
            assert(p.bit_values() =~= v@);
            assert(p.join_values() =~= j@);
        }
        (Self::STATIC_DWORDS, p)
    }

    /// Where each field stands in a buffer that the packet is read from, as
    /// the packet header lays it out: a bit field under its mask and shift
    /// in its dword, a 64-bit field in two dwords, low half first. By
    /// `lemma_roundtrip`, encoding a packet puts its fields there.
    pub proof fn lemma_field_positions(self, buf: Seq<u32>)
        requires
            self.read_from(buf),
        ensures
            layout::bool_bit(self.tmz) == layout::get_bits(buf[0], 0x1, 18),
            layout::bool_bit(self.all) == layout::get_bits(buf[0], 0x1, 31),
            self.count == layout::get_bits(buf[1], 0x3fffff, 0),
            layout::u8_value(self.dst_mtype) == layout::get_bits(buf[2], 0x7, 3),
            layout::u8_value(self.dst_l2_policy) == layout::get_bits(buf[2], 0x3, 6),
            layout::u8_value(self.src_mtype) == layout::get_bits(buf[2], 0x7, 11),
            layout::u8_value(self.src_l2_policy) == layout::get_bits(buf[2], 0x3, 14),
            layout::u8_value(self.dst_sw) == layout::get_bits(buf[2], 0x3, 16),
            layout::bool_bit(self.dst_gcc) == layout::get_bits(buf[2], 0x1, 19),
            layout::bool_bit(self.dst_sys) == layout::get_bits(buf[2], 0x1, 20),
            layout::bool_bit(self.dst_snoop) == layout::get_bits(buf[2], 0x1, 22),
            layout::bool_bit(self.dst_gpa) == layout::get_bits(buf[2], 0x1, 23),
            layout::u8_value(self.src_sw) == layout::get_bits(buf[2], 0x3, 24),
            layout::bool_bit(self.src_sys) == layout::get_bits(buf[2], 0x1, 28),
            layout::bool_bit(self.src_snoop) == layout::get_bits(buf[2], 0x1, 30),
            layout::bool_bit(self.src_gpa) == layout::get_bits(buf[2], 0x1, 31),
            self.src_addr == layout::dword_pair(buf[3], buf[4]),
            self.dst_addr == layout::dword_pair(buf[5], buf[6]),
    {
        assert(self.bit_values()[0] == layout::bool_bit(self.tmz));
        assert(layout::decode_bits(buf, Self::bit_fields())[0] == self.bit_values()[0]);
        assert(self.bit_values()[1] == layout::bool_bit(self.all));
        assert(layout::decode_bits(buf, Self::bit_fields())[1] == self.bit_values()[1]);
        assert(self.bit_values()[2] == self.count);
        assert(layout::decode_bits(buf, Self::bit_fields())[2] == self.bit_values()[2]);
        assert(self.bit_values()[3] == layout::u8_value(self.dst_mtype));
        assert(layout::decode_bits(buf, Self::bit_fields())[3] == self.bit_values()[3]);
        assert(self.bit_values()[4] == layout::u8_value(self.dst_l2_policy));
        assert(layout::decode_bits(buf, Self::bit_fields())[4] == self.bit_values()[4]);
        assert(self.bit_values()[5] == layout::u8_value(self.src_mtype));
        assert(layout::decode_bits(buf, Self::bit_fields())[5] == self.bit_values()[5]);
        assert(self.bit_values()[6] == layout::u8_value(self.src_l2_policy));
        assert(layout::decode_bits(buf, Self::bit_fields())[6] == self.bit_values()[6]);
        assert(self.bit_values()[7] == layout::u8_value(self.dst_sw));
        assert(layout::decode_bits(buf, Self::bit_fields())[7] == self.bit_values()[7]);
        assert(self.bit_values()[8] == layout::bool_bit(self.dst_gcc));
        assert(layout::decode_bits(buf, Self::bit_fields())[8] == self.bit_values()[8]);
        assert(self.bit_values()[9] == layout::bool_bit(self.dst_sys));
        assert(layout::decode_bits(buf, Self::bit_fields())[9] == self.bit_values()[9]);
        assert(self.bit_values()[10] == layout::bool_bit(self.dst_snoop));
        assert(layout::decode_bits(buf, Self::bit_fields())[10] == self.bit_values()[10]);
        assert(self.bit_values()[11] == layout::bool_bit(self.dst_gpa));
        assert(layout::decode_bits(buf, Self::bit_fields())[11] == self.bit_values()[11]);
        assert(self.bit_values()[12] == layout::u8_value(self.src_sw));
        assert(layout::decode_bits(buf, Self::bit_fields())[12] == self.bit_values()[12]);
        assert(self.bit_values()[13] == layout::bool_bit(self.src_sys));
        assert(layout::decode_bits(buf, Self::bit_fields())[13] == self.bit_values()[13]);
        assert(self.bit_values()[14] == layout::bool_bit(self.src_snoop));
        assert(layout::decode_bits(buf, Self::bit_fields())[14] == self.bit_values()[14]);
        assert(self.bit_values()[15] == layout::bool_bit(self.src_gpa));
        assert(layout::decode_bits(buf, Self::bit_fields())[15] == self.bit_values()[15]);
        assert(layout::decode_joins(buf, Self::join_fields())[0] == self.join_values()[0]);
        assert(layout::decode_joins(buf, Self::join_fields())[1] == self.join_values()[1]);
    }

    /// The field values name the packet: two packets with the same values are
    /// equal.
    pub proof fn lemma_values_determine(a: Self, b: Self)
        requires
            a.bit_values() == b.bit_values(),
            a.join_values() == b.join_values(),
            a.tail_data() == b.tail_data(),
        ensures
            a == b,
    {
        assert(a.bit_values()[0] == layout::bool_bit(a.tmz) && b.bit_values()[0] == layout::bool_bit(b.tmz));
        assert(a.bit_values()[1] == layout::bool_bit(a.all) && b.bit_values()[1] == layout::bool_bit(b.all));
        assert(a.bit_values()[2] == a.count && b.bit_values()[2] == b.count);
        assert(a.bit_values()[3] == layout::u8_value(a.dst_mtype) && b.bit_values()[3] == layout::u8_value(b.dst_mtype));
        assert(a.bit_values()[4] == layout::u8_value(a.dst_l2_policy) && b.bit_values()[4] == layout::u8_value(b.dst_l2_policy));
        assert(a.bit_values()[5] == layout::u8_value(a.src_mtype) && b.bit_values()[5] == layout::u8_value(b.src_mtype));
        assert(a.bit_values()[6] == layout::u8_value(a.src_l2_policy) && b.bit_values()[6] == layout::u8_value(b.src_l2_policy));
        assert(a.bit_values()[7] == layout::u8_value(a.dst_sw) && b.bit_values()[7] == layout::u8_value(b.dst_sw));
        assert(a.bit_values()[8] == layout::bool_bit(a.dst_gcc) && b.bit_values()[8] == layout::bool_bit(b.dst_gcc));
        assert(a.bit_values()[9] == layout::bool_bit(a.dst_sys) && b.bit_values()[9] == layout::bool_bit(b.dst_sys));
        assert(a.bit_values()[10] == layout::bool_bit(a.dst_snoop) && b.bit_values()[10] == layout::bool_bit(b.dst_snoop));
        assert(a.bit_values()[11] == layout::bool_bit(a.dst_gpa) && b.bit_values()[11] == layout::bool_bit(b.dst_gpa));
        assert(a.bit_values()[12] == layout::u8_value(a.src_sw) && b.bit_values()[12] == layout::u8_value(b.src_sw));
        assert(a.bit_values()[13] == layout::bool_bit(a.src_sys) && b.bit_values()[13] == layout::bool_bit(b.src_sys));
        assert(a.bit_values()[14] == layout::bool_bit(a.src_snoop) && b.bit_values()[14] == layout::bool_bit(b.src_snoop));
        assert(a.bit_values()[15] == layout::bool_bit(a.src_gpa) && b.bit_values()[15] == layout::bool_bit(b.src_gpa));
        assert(a.join_values()[0] == a.src_addr && b.join_values()[0] == b.src_addr);
        assert(a.join_values()[1] == a.dst_addr && b.join_values()[1] == b.dst_addr);
    }

    /// Reading a packet is exact: two packets read from one buffer are equal.
    pub proof fn lemma_read_unique(a: Self, b: Self, buf: Seq<u32>)
        requires
            a.read_from(buf),
            b.read_from(buf),
        ensures
            a == b,
    {
        layout::lemma_reads_determine(
            buf,
            Self::bit_fields(),
            a.bit_values(),
            b.bit_values(),
            Self::join_fields(),
            a.join_values(),
            b.join_values(),
            Self::tail(),
            a.tail_data(),
            b.tail_data(),
        );
        Self::lemma_values_determine(a, b);
    }

    /// A packet reads back from what it was encoded to.
    pub proof fn lemma_roundtrip(self, buf: Seq<u32>)
        requires
            Self::layout_wf(),
            self.fits(),
            buf.len() >= self.size(),
        ensures
            self.read_from(self.spec_encode(buf)),
            Self::decodable(self.spec_encode(buf)),
            self.spec_encode(buf).len() == buf.len(),
    {
        layout::lemma_packet_roundtrip(
            buf,
            Self::bit_fields(),
            self.bit_values(),
            Self::join_fields(),
            self.join_values(),
            Self::tail(),
            self.tail_data(),
            Self::STATIC_DWORDS as nat,
        );
    }
}

/// The `CopyPhysicalLinear` packet.
#[derive(Clone, Copy, Default)]
pub struct CopyPhysicalLinear {
    pub tmz: bool,
    pub count: u32,
    pub dst_mtype: u8,
    pub dst_l2_policy: u8,
    pub src_mtype: u8,
    pub src_l2_policy: u8,
    pub dst_sw: u8,
    pub dst_gcc: bool,
    pub dst_sys: bool,
    pub dst_log: bool,
    pub dst_snoop: bool,
    pub dst_gpa: bool,
    pub src_sw: u8,
    pub src_gcc: bool,
    pub src_sys: bool,
    pub src_snoop: bool,
    pub src_gpa: bool,
    pub src_addr: u64,
    pub dst_addr: u64,
}

impl CopyPhysicalLinear {
    /// Dwords of the packet before its variable-length tail.
    pub const STATIC_DWORDS: usize = 7;

    pub open spec fn bit_fields() -> Seq<BitField> {
        seq![BitField { dw: 0, mask: 0x1, shift: 18 }, BitField { dw: 1, mask: 0x3fffff, shift: 0 }, BitField { dw: 2, mask: 0x7, shift: 3 }, BitField { dw: 2, mask: 0x3, shift: 6 }, BitField { dw: 2, mask: 0x7, shift: 11 }, BitField { dw: 2, mask: 0x3, shift: 14 }, BitField { dw: 2, mask: 0x3, shift: 16 }, BitField { dw: 2, mask: 0x1, shift: 19 }, BitField { dw: 2, mask: 0x1, shift: 20 }, BitField { dw: 2, mask: 0x1, shift: 21 }, BitField { dw: 2, mask: 0x1, shift: 22 }, BitField { dw: 2, mask: 0x1, shift: 23 }, BitField { dw: 2, mask: 0x3, shift: 24 }, BitField { dw: 2, mask: 0x1, shift: 27 }, BitField { dw: 2, mask: 0x1, shift: 28 }, BitField { dw: 2, mask: 0x1, shift: 30 }, BitField { dw: 2, mask: 0x1, shift: 31 }]
    }

    pub open spec fn join_fields() -> Seq<JoinField> {
        seq![JoinField { lo: 3, hi: 4 }, JoinField { lo: 5, hi: 6 }]
    }

    pub open spec fn tail() -> Option<DynField> {
        None
    }

    pub open spec fn bit_values(self) -> Seq<u32> {
        seq![layout::bool_bit(self.tmz), self.count, self.dst_mtype as u32, self.dst_l2_policy as u32, self.src_mtype as u32, self.src_l2_policy as u32, self.dst_sw as u32, layout::bool_bit(self.dst_gcc), layout::bool_bit(self.dst_sys), layout::bool_bit(self.dst_log), layout::bool_bit(self.dst_snoop), layout::bool_bit(self.dst_gpa), self.src_sw as u32, layout::bool_bit(self.src_gcc), layout::bool_bit(self.src_sys), layout::bool_bit(self.src_snoop), layout::bool_bit(self.src_gpa)]
    }

    pub open spec fn join_values(self) -> Seq<u64> {
        seq![self.src_addr, self.dst_addr]
    }

    pub open spec fn tail_data(self) -> Seq<u32> {
        Seq::<u32>::empty()
    }

    /// Every field value fits its field.
    pub open spec fn fits(self) -> bool {
        layout::fields_fit(Self::bit_fields(), self.bit_values()) && layout::tail_fits(Self::tail(), self.tail_data())
    }

    pub open spec fn layout_wf() -> bool {
        layout::layout_wf(Self::bit_fields(), Self::join_fields(), Self::tail(), Self::STATIC_DWORDS as nat)
    }

    /// Dwords that the packet takes.
    pub open spec fn size(self) -> nat {
        (Self::STATIC_DWORDS + self.tail_data().len()) as nat
    }

    /// The buffer holds the whole packet.
    pub open spec fn decodable(buf: Seq<u32>) -> bool {
        buf.len() >= Self::STATIC_DWORDS
    }

    pub open spec fn spec_encode(self, buf: Seq<u32>) -> Seq<u32> {
        layout::encode_packet(
            buf,
            Self::bit_fields(),
            self.bit_values(),
            Self::join_fields(),
            self.join_values(),
            Self::tail(),
            self.tail_data(),
        )
    }

    /// `buf` holds this packet.
    pub open spec fn read_from(self, buf: Seq<u32>) -> bool {
        layout::packet_reads(
            buf,
            Self::bit_fields(),
            self.bit_values(),
            Self::join_fields(),
            self.join_values(),
            Self::tail(),
            self.tail_data(),
        )
    }

    fn exec_bit_fields() -> (r: Vec<BitField>)
        ensures
            r@ == Self::bit_fields(),
    {
        vec![BitField { dw: 0, mask: 0x1, shift: 18 }, BitField { dw: 1, mask: 0x3fffff, shift: 0 }, BitField { dw: 2, mask: 0x7, shift: 3 }, BitField { dw: 2, mask: 0x3, shift: 6 }, BitField { dw: 2, mask: 0x7, shift: 11 }, BitField { dw: 2, mask: 0x3, shift: 14 }, BitField { dw: 2, mask: 0x3, shift: 16 }, BitField { dw: 2, mask: 0x1, shift: 19 }, BitField { dw: 2, mask: 0x1, shift: 20 }, BitField { dw: 2, mask: 0x1, shift: 21 }, BitField { dw: 2, mask: 0x1, shift: 22 }, BitField { dw: 2, mask: 0x1, shift: 23 }, BitField { dw: 2, mask: 0x3, shift: 24 }, BitField { dw: 2, mask: 0x1, shift: 27 }, BitField { dw: 2, mask: 0x1, shift: 28 }, BitField { dw: 2, mask: 0x1, shift: 30 }, BitField { dw: 2, mask: 0x1, shift: 31 }]
    }

    fn exec_join_fields() -> (r: Vec<JoinField>)
        ensures
            r@ == Self::join_fields(),
    {
        vec![JoinField { lo: 3, hi: 4 }, JoinField { lo: 5, hi: 6 }]
    }

    /// Whether the field layout of this packet is well formed.
    pub fn layout_ok() -> (r: bool)
        ensures
            r == Self::layout_wf(),
    {
        layout_is_wf(&Self::exec_bit_fields(), &Self::exec_join_fields(), None, Self::STATIC_DWORDS)
    }

    /// Writes the packet to the start of `buff`, without its header, and
    /// returns how many dwords it took.
    pub fn partial_encode_linear(&self, buff: &mut [u32]) -> (n: usize)
        requires
            old(buff)@.len() >= self.size(),
            self.fits(),
        ensures
            n == self.size(),
            final(buff)@ == self.spec_encode(old(buff)@),
            final(buff)@.len() == old(buff)@.len(),
    {
        let bits = Self::exec_bit_fields();
        let vals: Vec<u32> = vec![to_bit(self.tmz), self.count, layout::widen_u8(self.dst_mtype), layout::widen_u8(self.dst_l2_policy), layout::widen_u8(self.src_mtype), layout::widen_u8(self.src_l2_policy), layout::widen_u8(self.dst_sw), to_bit(self.dst_gcc), to_bit(self.dst_sys), to_bit(self.dst_log), to_bit(self.dst_snoop), to_bit(self.dst_gpa), layout::widen_u8(self.src_sw), to_bit(self.src_gcc), to_bit(self.src_sys), to_bit(self.src_snoop), to_bit(self.src_gpa)];
        let joins = Self::exec_join_fields();
        let jvals: Vec<u64> = vec![self.src_addr, self.dst_addr];
        proof {
            assert(vals@ =~= self.bit_values());
            assert(jvals@ =~= self.join_values());
        }
        encode_bit_fields(&bits, &vals, buff);
        encode_join_fields(&joins, &jvals, buff);
        Self::STATIC_DWORDS
    }

    /// Reads the packet at the start of `buff` and returns how many dwords it
    /// took.
    #[verifier::rlimit(40)]
    pub fn partial_decode_linear(buff: &[u32]) -> (r: (usize, Self))
        requires
            Self::decodable(buff@),
        ensures
            r.0 == r.1.size(),
            r.1.read_from(buff@),
    {
        let bits = Self::exec_bit_fields();
        let v = decode_bit_fields(&bits, buff);
        let joins = Self::exec_join_fields();
        let j = decode_join_fields(&joins, buff);
        let p = Self { tmz: v[0] != 0, count: v[1], dst_mtype: layout::narrow_u8(v[2]), dst_l2_policy: layout::narrow_u8(v[3]), src_mtype: layout::narrow_u8(v[4]), src_l2_policy: layout::narrow_u8(v[5]), dst_sw: layout::narrow_u8(v[6]), dst_gcc: v[7] != 0, dst_sys: v[8] != 0, dst_log: v[9] != 0, dst_snoop: v[10] != 0, dst_gpa: v[11] != 0, src_sw: layout::narrow_u8(v[12]), src_gcc: v[13] != 0, src_sys: v[14] != 0, src_snoop: v[15] != 0, src_gpa: v[16] != 0, src_addr: j[0], dst_addr: j[1] };
        proof {
            assert(p.bit_values() =~= v@);
            assert(p.join_values() =~= j@);
        }
        (Self::STATIC_DWORDS, p)
    }

    /// Where each field stands in a buffer that the packet is read from, as
    /// the packet header lays it out: a bit field under its mask and shift
    /// in its dword, a 64-bit field in two dwords, low half first. By
    /// `lemma_roundtrip`, encoding a packet puts its fields there.
    #[verifier::rlimit(40)]
    pub proof fn lemma_field_positions(self, buf: Seq<u32>)
        requires
            self.read_from(buf),
        ensures
            layout::bool_bit(self.tmz) == layout::get_bits(buf[0], 0x1, 18),
            self.count == layout::get_bits(buf[1], 0x3fffff, 0),
            layout::u8_value(self.dst_mtype) == layout::get_bits(buf[2], 0x7, 3),
            layout::u8_value(self.dst_l2_policy) == layout::get_bits(buf[2], 0x3, 6),
            layout::u8_value(self.src_mtype) == layout::get_bits(buf[2], 0x7, 11),
            layout::u8_value(self.src_l2_policy) == layout::get_bits(buf[2], 0x3, 14),
            layout::u8_value(self.dst_sw) == layout::get_bits(buf[2], 0x3, 16),
            layout::bool_bit(self.dst_gcc) == layout::get_bits(buf[2], 0x1, 19),
            layout::bool_bit(self.dst_sys) == layout::get_bits(buf[2], 0x1, 20),
            layout::bool_bit(self.dst_log) == layout::get_bits(buf[2], 0x1, 21),
            layout::bool_bit(self.dst_snoop) == layout::get_bits(buf[2], 0x1, 22),
            layout::bool_bit(self.dst_gpa) == layout::get_bits(buf[2], 0x1, 23),
            layout::u8_value(self.src_sw) == layout::get_bits(buf[2], 0x3, 24),
            layout::bool_bit(self.src_gcc) == layout::get_bits(buf[2], 0x1, 27),
            layout::bool_bit(self.src_sys) == layout::get_bits(buf[2], 0x1, 28),
            layout::bool_bit(self.src_snoop) == layout::get_bits(buf[2], 0x1, 30),
            layout::bool_bit(self.src_gpa) == layout::get_bits(buf[2], 0x1, 31),
            self.src_addr == layout::dword_pair(buf[3], buf[4]),
            self.dst_addr == layout::dword_pair(buf[5], buf[6]),
    {
        assert(self.bit_values()[0] == layout::bool_bit(self.tmz));
        assert(layout::decode_bits(buf, Self::bit_fields())[0] == self.bit_values()[0]);
        assert(self.bit_values()[1] == self.count);
        assert(layout::decode_bits(buf, Self::bit_fields())[1] == self.bit_values()[1]);
        assert(self.bit_values()[2] == layout::u8_value(self.dst_mtype));
        assert(layout::decode_bits(buf, Self::bit_fields())[2] == self.bit_values()[2]);
        assert(self.bit_values()[3] == layout::u8_value(self.dst_l2_policy));
        assert(layout::decode_bits(buf, Self::bit_fields())[3] == self.bit_values()[3]);
        assert(self.bit_values()[4] == layout::u8_value(self.src_mtype));
        assert(layout::decode_bits(buf, Self::bit_fields())[4] == self.bit_values()[4]);
        assert(self.bit_values()[5] == layout::u8_value(self.src_l2_policy));
        assert(layout::decode_bits(buf, Self::bit_fields())[5] == self.bit_values()[5]);
        assert(self.bit_values()[6] == layout::u8_value(self.dst_sw));
        assert(layout::decode_bits(buf, Self::bit_fields())[6] == self.bit_values()[6]);
        assert(self.bit_values()[7] == layout::bool_bit(self.dst_gcc));
        assert(layout::decode_bits(buf, Self::bit_fields())[7] == self.bit_values()[7]);
        assert(self.bit_values()[8] == layout::bool_bit(self.dst_sys));
        assert(layout::decode_bits(buf, Self::bit_fields())[8] == self.bit_values()[8]);
        assert(self.bit_values()[9] == layout::bool_bit(self.dst_log));
        assert(layout::decode_bits(buf, Self::bit_fields())[9] == self.bit_values()[9]);
        assert(self.bit_values()[10] == layout::bool_bit(self.dst_snoop));
        assert(layout::decode_bits(buf, Self::bit_fields())[10] == self.bit_values()[10]);
        assert(self.bit_values()[11] == layout::bool_bit(self.dst_gpa));
        assert(layout::decode_bits(buf, Self::bit_fields())[11] == self.bit_values()[11]);
        assert(self.bit_values()[12] == layout::u8_value(self.src_sw));
        assert(layout::decode_bits(buf, Self::bit_fields())[12] == self.bit_values()[12]);
        assert(self.bit_values()[13] == layout::bool_bit(self.src_gcc));
        assert(layout::decode_bits(buf, Self::bit_fields())[13] == self.bit_values()[13]);
        assert(self.bit_values()[14] == layout::bool_bit(self.src_sys));
        assert(layout::decode_bits(buf, Self::bit_fields())[14] == self.bit_values()[14]);
        assert(self.bit_values()[15] == layout::bool_bit(self.src_snoop));
        assert(layout::decode_bits(buf, Self::bit_fields())[15] == self.bit_values()[15]);
        assert(self.bit_values()[16] == layout::bool_bit(self.src_gpa));
        assert(layout::decode_bits(buf, Self::bit_fields())[16] == self.bit_values()[16]);
        assert(layout::decode_joins(buf, Self::join_fields())[0] == self.join_values()[0]);
        assert(layout::decode_joins(buf, Self::join_fields())[1] == self.join_values()[1]);
    }

    /// The field values name the packet: two packets with the same values are
    /// equal.
    #[verifier::rlimit(40)]
    pub proof fn lemma_values_determine(a: Self, b: Self)
        requires
            a.bit_values() == b.bit_values(),
            a.join_values() == b.join_values(),
            a.tail_data() == b.tail_data(),
        ensures
            a == b,
    {
        assert(a.bit_values()[0] == layout::bool_bit(a.tmz) && b.bit_values()[0] == layout::bool_bit(b.tmz));
        assert(a.bit_values()[1] == a.count && b.bit_values()[1] == b.count);
        assert(a.bit_values()[2] == layout::u8_value(a.dst_mtype) && b.bit_values()[2] == layout::u8_value(b.dst_mtype));
        assert(a.bit_values()[3] == layout::u8_value(a.dst_l2_policy) && b.bit_values()[3] == layout::u8_value(b.dst_l2_policy));
        assert(a.bit_values()[4] == layout::u8_value(a.src_mtype) && b.bit_values()[4] == layout::u8_value(b.src_mtype));
        assert(a.bit_values()[5] == layout::u8_value(a.src_l2_policy) && b.bit_values()[5] == layout::u8_value(b.src_l2_policy));
        assert(a.bit_values()[6] == layout::u8_value(a.dst_sw) && b.bit_values()[6] == layout::u8_value(b.dst_sw));
        assert(a.bit_values()[7] == layout::bool_bit(a.dst_gcc) && b.bit_values()[7] == layout::bool_bit(b.dst_gcc));
        assert(a.bit_values()[8] == layout::bool_bit(a.dst_sys) && b.bit_values()[8] == layout::bool_bit(b.dst_sys));
        assert(a.bit_values()[9] == layout::bool_bit(a.dst_log) && b.bit_values()[9] == layout::bool_bit(b.dst_log));
        assert(a.bit_values()[10] == layout::bool_bit(a.dst_snoop) && b.bit_values()[10] == layout::bool_bit(b.dst_snoop));
        assert(a.bit_values()[11] == layout::bool_bit(a.dst_gpa) && b.bit_values()[11] == layout::bool_bit(b.dst_gpa));
        assert(a.bit_values()[12] == layout::u8_value(a.src_sw) && b.bit_values()[12] == layout::u8_value(b.src_sw));
        assert(a.bit_values()[13] == layout::bool_bit(a.src_gcc) && b.bit_values()[13] == layout::bool_bit(b.src_gcc));
        assert(a.bit_values()[14] == layout::bool_bit(a.src_sys) && b.bit_values()[14] == layout::bool_bit(b.src_sys));
        assert(a.bit_values()[15] == layout::bool_bit(a.src_snoop) && b.bit_values()[15] == layout::bool_bit(b.src_snoop));
        assert(a.bit_values()[16] == layout::bool_bit(a.src_gpa) && b.bit_values()[16] == layout::bool_bit(b.src_gpa));
        assert(a.join_values()[0] == a.src_addr && b.join_values()[0] == b.src_addr);
        assert(a.join_values()[1] == a.dst_addr && b.join_values()[1] == b.dst_addr);
    }

    /// Reading a packet is exact: two packets read from one buffer are equal.
    pub proof fn lemma_read_unique(a: Self, b: Self, buf: Seq<u32>)
        requires
            a.read_from(buf),
            b.read_from(buf),
        ensures
            a == b,
    {
        layout::lemma_reads_determine(
            buf,
            Self::bit_fields(),
            a.bit_values(),
            b.bit_values(),
            Self::join_fields(),
            a.join_values(),
            b.join_values(),
            Self::tail(),
            a.tail_data(),
            b.tail_data(),
        );
        Self::lemma_values_determine(a, b);
    }

    /// A packet reads back from what it was encoded to.
    pub proof fn lemma_roundtrip(self, buf: Seq<u32>)
        requires
            Self::layout_wf(),
            self.fits(),
            buf.len() >= self.size(),
        ensures
            self.read_from(self.spec_encode(buf)),
            Self::decodable(self.spec_encode(buf)),
            self.spec_encode(buf).len() == buf.len(),
    {
        layout::lemma_packet_roundtrip(
            buf,
            Self::bit_fields(),
            self.bit_values(),
            Self::join_fields(),
            self.join_values(),
            Self::tail(),
            self.tail_data(),
            Self::STATIC_DWORDS as nat,
        );
    }
}

/// The `CopyBroadcastLinear` packet.
#[derive(Clone, Copy, Default)]
pub struct CopyBroadcastLinear {
    pub encrypt: bool,
    pub tmz: bool,
    pub broadcast: bool,
    pub count: u32,
    pub dst2_sw: u8,
    pub dst1_sw: u8,
    pub src_sw: u8,
    pub src_addr: u64,
    pub dst1_addr: u64,
    pub dst2_addr: u64,
}

impl CopyBroadcastLinear {
    /// Dwords of the packet before its variable-length tail.
    pub const STATIC_DWORDS: usize = 9;

    pub open spec fn bit_fields() -> Seq<BitField> {
        seq![BitField { dw: 0, mask: 0x1, shift: 16 }, BitField { dw: 0, mask: 0x1, shift: 18 }, BitField { dw: 0, mask: 0x1, shift: 27 }, BitField { dw: 1, mask: 0x3fffff, shift: 0 }, BitField { dw: 2, mask: 0x3, shift: 8 }, BitField { dw: 2, mask: 0x3, shift: 16 }, BitField { dw: 2, mask: 0x3, shift: 24 }]
    }

    pub open spec fn join_fields() -> Seq<JoinField> {
        seq![JoinField { lo: 3, hi: 4 }, JoinField { lo: 5, hi: 6 }, JoinField { lo: 7, hi: 8 }]
    }

    pub open spec fn tail() -> Option<DynField> {
        None
    }

    pub open spec fn bit_values(self) -> Seq<u32> {
        seq![layout::bool_bit(self.encrypt), layout::bool_bit(self.tmz), layout::bool_bit(self.broadcast), self.count, self.dst2_sw as u32, self.dst1_sw as u32, self.src_sw as u32]
    }

    pub open spec fn join_values(self) -> Seq<u64> {
        seq![self.src_addr, self.dst1_addr, self.dst2_addr]
    }

    pub open spec fn tail_data(self) -> Seq<u32> {
        Seq::<u32>::empty()
    }

    /// Every field value fits its field.
    pub open spec fn fits(self) -> bool {
        layout::fields_fit(Self::bit_fields(), self.bit_values()) && layout::tail_fits(Self::tail(), self.tail_data())
    }

    pub open spec fn layout_wf() -> bool {
        layout::layout_wf(Self::bit_fields(), Self::join_fields(), Self::tail(), Self::STATIC_DWORDS as nat)
    }

    /// Dwords that the packet takes.
    pub open spec fn size(self) -> nat {
        (Self::STATIC_DWORDS + self.tail_data().len()) as nat
    }

    /// The buffer holds the whole packet.
    pub open spec fn decodable(buf: Seq<u32>) -> bool {
        buf.len() >= Self::STATIC_DWORDS
    }

    pub open spec fn spec_encode(self, buf: Seq<u32>) -> Seq<u32> {
        layout::encode_packet(
            buf,
            Self::bit_fields(),
            self.bit_values(),
            Self::join_fields(),
            self.join_values(),
            Self::tail(),
            self.tail_data(),
        )
    }

    /// `buf` holds this packet.
    pub open spec fn read_from(self, buf: Seq<u32>) -> bool {
        layout::packet_reads(
            buf,
            Self::bit_fields(),
            self.bit_values(),
            Self::join_fields(),
            self.join_values(),
            Self::tail(),
            self.tail_data(),
        )
    }

    fn exec_bit_fields() -> (r: Vec<BitField>)
        ensures
            r@ == Self::bit_fields(),
    {
        vec![BitField { dw: 0, mask: 0x1, shift: 16 }, BitField { dw: 0, mask: 0x1, shift: 18 }, BitField { dw: 0, mask: 0x1, shift: 27 }, BitField { dw: 1, mask: 0x3fffff, shift: 0 }, BitField { dw: 2, mask: 0x3, shift: 8 }, BitField { dw: 2, mask: 0x3, shift: 16 }, BitField { dw: 2, mask: 0x3, shift: 24 }]
    }

    fn exec_join_fields() -> (r: Vec<JoinField>)
        ensures
            r@ == Self::join_fields(),
    {
        vec![JoinField { lo: 3, hi: 4 }, JoinField { lo: 5, hi: 6 }, JoinField { lo: 7, hi: 8 }]
    }

    /// Whether the field layout of this packet is well formed.
    pub fn layout_ok() -> (r: bool)
        ensures
            r == Self::layout_wf(),
    {
        layout_is_wf(&Self::exec_bit_fields(), &Self::exec_join_fields(), None, Self::STATIC_DWORDS)
    }

    /// Writes the packet to the start of `buff`, without its header, and
    /// returns how many dwords it took.
    pub fn partial_encode_linear(&self, buff: &mut [u32]) -> (n: usize)
        requires
            old(buff)@.len() >= self.size(),
            self.fits(),
        ensures
            n == self.size(),
            final(buff)@ == self.spec_encode(old(buff)@),
            final(buff)@.len() == old(buff)@.len(),
    {
        let bits = Self::exec_bit_fields();
        let vals: Vec<u32> = vec![to_bit(self.encrypt), to_bit(self.tmz), to_bit(self.broadcast), self.count, layout::widen_u8(self.dst2_sw), layout::widen_u8(self.dst1_sw), layout::widen_u8(self.src_sw)];
        let joins = Self::exec_join_fields();
        let jvals: Vec<u64> = vec![self.src_addr, self.dst1_addr, self.dst2_addr];
        proof {
            assert(vals@ =~= self.bit_values());
            assert(jvals@ =~= self.join_values());
        }
        encode_bit_fields(&bits, &vals, buff);
        encode_join_fields(&joins, &jvals, buff);
        Self::STATIC_DWORDS
    }

    /// Reads the packet at the start of `buff` and returns how many dwords it
    /// took.
    pub fn partial_decode_linear(buff: &[u32]) -> (r: (usize, Self))
        requires
            Self::decodable(buff@),
        ensures
            r.0 == r.1.size(),
            r.1.read_from(buff@),
    {
        let bits = Self::exec_bit_fields();
        let v = decode_bit_fields(&bits, buff);
        let joins = Self::exec_join_fields();
        let j = decode_join_fields(&joins, buff);
        let p = Self { encrypt: v[0] != 0, tmz: v[1] != 0, broadcast: v[2] != 0, count: v[3], dst2_sw: layout::narrow_u8(v[4]), dst1_sw: layout::narrow_u8(v[5]), src_sw: layout::narrow_u8(v[6]), src_addr: j[0], dst1_addr: j[1], dst2_addr: j[2] };
        proof {
            assert(p.bit_values() =~= v@);
            assert(p.join_values() =~= j@);
        }
        (Self::STATIC_DWORDS, p)
    }

    /// Where each field stands in a buffer that the packet is read from, as
    /// the packet header lays it out: a bit field under its mask and shift
    /// in its dword, a 64-bit field in two dwords, low half first. By
    /// `lemma_roundtrip`, encoding a packet puts its fields there.
    pub proof fn lemma_field_positions(self, buf: Seq<u32>)
        requires
            self.read_from(buf),
        ensures
            layout::bool_bit(self.encrypt) == layout::get_bits(buf[0], 0x1, 16),
            layout::bool_bit(self.tmz) == layout::get_bits(buf[0], 0x1, 18),
            layout::bool_bit(self.broadcast) == layout::get_bits(buf[0], 0x1, 27),
            self.count == layout::get_bits(buf[1], 0x3fffff, 0),
            layout::u8_value(self.dst2_sw) == layout::get_bits(buf[2], 0x3, 8),
            layout::u8_value(self.dst1_sw) == layout::get_bits(buf[2], 0x3, 16),
            layout::u8_value(self.src_sw) == layout::get_bits(buf[2], 0x3, 24),
            self.src_addr == layout::dword_pair(buf[3], buf[4]),
            self.dst1_addr == layout::dword_pair(buf[5], buf[6]),
            self.dst2_addr == layout::dword_pair(buf[7], buf[8]),
    {
        assert(self.bit_values()[0] == layout::bool_bit(self.encrypt));
        assert(layout::decode_bits(buf, Self::bit_fields())[0] == self.bit_values()[0]);
        assert(self.bit_values()[1] == layout::bool_bit(self.tmz));
        assert(layout::decode_bits(buf, Self::bit_fields())[1] == self.bit_values()[1]);
        assert(self.bit_values()[2] == layout::bool_bit(self.broadcast));
        assert(layout::decode_bits(buf, Self::bit_fields())[2] == self.bit_values()[2]);
        assert(self.bit_values()[3] == self.count);
        assert(layout::decode_bits(buf, Self::bit_fields())[3] == self.bit_values()[3]);
        assert(self.bit_values()[4] == layout::u8_value(self.dst2_sw));
        assert(layout::decode_bits(buf, Self::bit_fields())[4] == self.bit_values()[4]);
        assert(self.bit_values()[5] == layout::u8_value(self.dst1_sw));
        assert(layout::decode_bits(buf, Self::bit_fields())[5] == self.bit_values()[5]);
        assert(self.bit_values()[6] == layout::u8_value(self.src_sw));
        assert(layout::decode_bits(buf, Self::bit_fields())[6] == self.bit_values()[6]);
        assert(layout::decode_joins(buf, Self::join_fields())[0] == self.join_values()[0]);
        assert(layout::decode_joins(buf, Self::join_fields())[1] == self.join_values()[1]);
        assert(layout::decode_joins(buf, Self::join_fields())[2] == self.join_values()[2]);
    }

    /// The field values name the packet: two packets with the same values are
    /// equal.
    pub proof fn lemma_values_determine(a: Self, b: Self)
        requires
            a.bit_values() == b.bit_values(),
            a.join_values() == b.join_values(),
            a.tail_data() == b.tail_data(),
        ensures
            a == b,
    {
        assert(a.bit_values()[0] == layout::bool_bit(a.encrypt) && b.bit_values()[0] == layout::bool_bit(b.encrypt));
        assert(a.bit_values()[1] == layout::bool_bit(a.tmz) && b.bit_values()[1] == layout::bool_bit(b.tmz));
        assert(a.bit_values()[2] == layout::bool_bit(a.broadcast) && b.bit_values()[2] == layout::bool_bit(b.broadcast));
        assert(a.bit_values()[3] == a.count && b.bit_values()[3] == b.count);
        assert(a.bit_values()[4] == layout::u8_value(a.dst2_sw) && b.bit_values()[4] == layout::u8_value(b.dst2_sw));
        assert(a.bit_values()[5] == layout::u8_value(a.dst1_sw) && b.bit_values()[5] == layout::u8_value(b.dst1_sw));
        assert(a.bit_values()[6] == layout::u8_value(a.src_sw) && b.bit_values()[6] == layout::u8_value(b.src_sw));
        assert(a.join_values()[0] == a.src_addr && b.join_values()[0] == b.src_addr);
        assert(a.join_values()[1] == a.dst1_addr && b.join_values()[1] == b.dst1_addr);
        assert(a.join_values()[2] == a.dst2_addr && b.join_values()[2] == b.dst2_addr);
    }

    /// Reading a packet is exact: two packets read from one buffer are equal.
    pub proof fn lemma_read_unique(a: Self, b: Self, buf: Seq<u32>)
        requires
            a.read_from(buf),
            b.read_from(buf),
        ensures
            a == b,
    {
        layout::lemma_reads_determine(
            buf,
            Self::bit_fields(),
            a.bit_values(),
            b.bit_values(),
            Self::join_fields(),
            a.join_values(),
            b.join_values(),
            Self::tail(),
            a.tail_data(),
            b.tail_data(),
        );
        Self::lemma_values_determine(a, b);
    }

    /// A packet reads back from what it was encoded to.
    pub proof fn lemma_roundtrip(self, buf: Seq<u32>)
        requires
            Self::layout_wf(),
            self.fits(),
            buf.len() >= self.size(),
        ensures
            self.read_from(self.spec_encode(buf)),
            Self::decodable(self.spec_encode(buf)),
            self.spec_encode(buf).len() == buf.len(),
    {
        layout::lemma_packet_roundtrip(
            buf,
            Self::bit_fields(),
            self.bit_values(),
            Self::join_fields(),
            self.join_values(),
            Self::tail(),
            self.tail_data(),
            Self::STATIC_DWORDS as nat,
        );
    }
}

/// The `CopyLinearSubwin` packet.
#[derive(Clone, Copy, Default)]
pub struct CopyLinearSubwin {
    pub tmz: bool,
    pub elementsize: u8,
    pub src_x: u16,
    pub src_y: u16,
    pub src_z: u16,
    pub src_pitch: u32,
    pub src_slice_pitch: u32,
    pub dst_x: u16,
    pub dst_y: u16,
    pub dst_z: u16,
    pub dst_pitch: u32,
    pub dst_slice_pitch: u32,
    pub rect_x: u16,
    pub rect_y: u16,
    pub rect_z: u16,
    pub dst_sw: u8,
    pub src_sw: u8,
    pub src_addr: u64,
    pub dst_addr: u64,
}

impl CopyLinearSubwin {
    /// Dwords of the packet before its variable-length tail.
    pub const STATIC_DWORDS: usize = 13;

    pub open spec fn bit_fields() -> Seq<BitField> {
        seq![BitField { dw: 0, mask: 0x1, shift: 18 }, BitField { dw: 0, mask: 0x7, shift: 29 }, BitField { dw: 3, mask: 0x3fff, shift: 0 }, BitField { dw: 3, mask: 0x3fff, shift: 16 }, BitField { dw: 4, mask: 0x1fff, shift: 0 }, BitField { dw: 4, mask: 0x7ffff, shift: 13 }, BitField { dw: 5, mask: 0xfffffff, shift: 0 }, BitField { dw: 8, mask: 0x3fff, shift: 0 }, BitField { dw: 8, mask: 0x3fff, shift: 16 }, BitField { dw: 9, mask: 0x1fff, shift: 0 }, BitField { dw: 9, mask: 0x7ffff, shift: 13 }, BitField { dw: 10, mask: 0xfffffff, shift: 0 }, BitField { dw: 11, mask: 0x3fff, shift: 0 }, BitField { dw: 11, mask: 0x3fff, shift: 16 }, BitField { dw: 12, mask: 0x1fff, shift: 0 }, BitField { dw: 12, mask: 0x3, shift: 16 }, BitField { dw: 12, mask: 0x3, shift: 24 }]
    }

    pub open spec fn join_fields() -> Seq<JoinField> {
        seq![JoinField { lo: 1, hi: 2 }, JoinField { lo: 6, hi: 7 }]
    }

    pub open spec fn tail() -> Option<DynField> {
        None
    }

    pub open spec fn bit_values(self) -> Seq<u32> {
        seq![layout::bool_bit(self.tmz), self.elementsize as u32, self.src_x as u32, self.src_y as u32, self.src_z as u32, self.src_pitch, self.src_slice_pitch, self.dst_x as u32, self.dst_y as u32, self.dst_z as u32, self.dst_pitch, self.dst_slice_pitch, self.rect_x as u32, self.rect_y as u32, self.rect_z as u32, self.dst_sw as u32, self.src_sw as u32]
    }

    pub open spec fn join_values(self) -> Seq<u64> {
        seq![self.src_addr, self.dst_addr]
    }

    pub open spec fn tail_data(self) -> Seq<u32> {
        Seq::<u32>::empty()
    }

    /// Every field value fits its field.
    pub open spec fn fits(self) -> bool {
        layout::fields_fit(Self::bit_fields(), self.bit_values()) && layout::tail_fits(Self::tail(), self.tail_data())
    }

    pub open spec fn layout_wf() -> bool {
        layout::layout_wf(Self::bit_fields(), Self::join_fields(), Self::tail(), Self::STATIC_DWORDS as nat)
    }

    /// Dwords that the packet takes.
    pub open spec fn size(self) -> nat {
        (Self::STATIC_DWORDS + self.tail_data().len()) as nat
    }

    /// The buffer holds the whole packet.
    pub open spec fn decodable(buf: Seq<u32>) -> bool {
        buf.len() >= Self::STATIC_DWORDS
    }

    pub open spec fn spec_encode(self, buf: Seq<u32>) -> Seq<u32> {
        layout::encode_packet(
            buf,
            Self::bit_fields(),
            self.bit_values(),
            Self::join_fields(),
            self.join_values(),
            Self::tail(),
            self.tail_data(),
        )
    }

    /// `buf` holds this packet.
    pub open spec fn read_from(self, buf: Seq<u32>) -> bool {
        layout::packet_reads(
            buf,
            Self::bit_fields(),
            self.bit_values(),
            Self::join_fields(),
            self.join_values(),
            Self::tail(),
            self.tail_data(),
        )
    }

    fn exec_bit_fields() -> (r: Vec<BitField>)
        ensures
            r@ == Self::bit_fields(),
    {
        vec![BitField { dw: 0, mask: 0x1, shift: 18 }, BitField { dw: 0, mask: 0x7, shift: 29 }, BitField { dw: 3, mask: 0x3fff, shift: 0 }, BitField { dw: 3, mask: 0x3fff, shift: 16 }, BitField { dw: 4, mask: 0x1fff, shift: 0 }, BitField { dw: 4, mask: 0x7ffff, shift: 13 }, BitField { dw: 5, mask: 0xfffffff, shift: 0 }, BitField { dw: 8, mask: 0x3fff, shift: 0 }, BitField { dw: 8, mask: 0x3fff, shift: 16 }, BitField { dw: 9, mask: 0x1fff, shift: 0 }, BitField { dw: 9, mask: 0x7ffff, shift: 13 }, BitField { dw: 10, mask: 0xfffffff, shift: 0 }, BitField { dw: 11, mask: 0x3fff, shift: 0 }, BitField { dw: 11, mask: 0x3fff, shift: 16 }, BitField { dw: 12, mask: 0x1fff, shift: 0 }, BitField { dw: 12, mask: 0x3, shift: 16 }, BitField { dw: 12, mask: 0x3, shift: 24 }]
    }

    fn exec_join_fields() -> (r: Vec<JoinField>)
        ensures
            r@ == Self::join_fields(),
    {
        vec![JoinField { lo: 1, hi: 2 }, JoinField { lo: 6, hi: 7 }]
    }

    /// Whether the field layout of this packet is well formed.
    pub fn layout_ok() -> (r: bool)
        ensures
            r == Self::layout_wf(),
    {
        layout_is_wf(&Self::exec_bit_fields(), &Self::exec_join_fields(), None, Self::STATIC_DWORDS)
    }

    /// Writes the packet to the start of `buff`, without its header, and
    /// returns how many dwords it took.
    pub fn partial_encode_linear(&self, buff: &mut [u32]) -> (n: usize)
        requires
            old(buff)@.len() >= self.size(),
            self.fits(),
        ensures
            n == self.size(),
            final(buff)@ == self.spec_encode(old(buff)@),
            final(buff)@.len() == old(buff)@.len(),
    {
        let bits = Self::exec_bit_fields();
        let vals: Vec<u32> = vec![to_bit(self.tmz), layout::widen_u8(self.elementsize), layout::widen_u16(self.src_x), layout::widen_u16(self.src_y), layout::widen_u16(self.src_z), self.src_pitch, self.src_slice_pitch, layout::widen_u16(self.dst_x), layout::widen_u16(self.dst_y), layout::widen_u16(self.dst_z), self.dst_pitch, self.dst_slice_pitch, layout::widen_u16(self.rect_x), layout::widen_u16(self.rect_y), layout::widen_u16(self.rect_z), layout::widen_u8(self.dst_sw), layout::widen_u8(self.src_sw)];
        let joins = Self::exec_join_fields();
        let jvals: Vec<u64> = vec![self.src_addr, self.dst_addr];
        proof {
            assert(vals@ =~= self.bit_values());
            assert(jvals@ =~= self.join_values());
        }
        encode_bit_fields(&bits, &vals, buff);
        encode_join_fields(&joins, &jvals, buff);
        Self::STATIC_DWORDS
    }

    /// Reads the packet at the start of `buff` and returns how many dwords it
    /// took.
    #[verifier::rlimit(40)]
    pub fn partial_decode_linear(buff: &[u32]) -> (r: (usize, Self))
        requires
            Self::decodable(buff@),
        ensures
            r.0 == r.1.size(),
            r.1.read_from(buff@),
    {
        let bits = Self::exec_bit_fields();
        let v = decode_bit_fields(&bits, buff);
        let joins = Self::exec_join_fields();
        let j = decode_join_fields(&joins, buff);
        let p = Self { tmz: v[0] != 0, elementsize: layout::narrow_u8(v[1]), src_x: layout::narrow_u16(v[2]), src_y: layout::narrow_u16(v[3]), src_z: layout::narrow_u16(v[4]), src_pitch: v[5], src_slice_pitch: v[6], dst_x: layout::narrow_u16(v[7]), dst_y: layout::narrow_u16(v[8]), dst_z: layout::narrow_u16(v[9]), dst_pitch: v[10], dst_slice_pitch: v[11], rect_x: layout::narrow_u16(v[12]), rect_y: layout::narrow_u16(v[13]), rect_z: layout::narrow_u16(v[14]), dst_sw: layout::narrow_u8(v[15]), src_sw: layout::narrow_u8(v[16]), src_addr: j[0], dst_addr: j[1] };
        proof {
            assert(p.bit_values() =~= v@);
            assert(p.join_values() =~= j@);
        }
        (Self::STATIC_DWORDS, p)
    }

    /// Where each field stands in a buffer that the packet is read from, as
    /// the packet header lays it out: a bit field under its mask and shift
    /// in its dword, a 64-bit field in two dwords, low half first. By
    /// `lemma_roundtrip`, encoding a packet puts its fields there.
    #[verifier::rlimit(40)]
    pub proof fn lemma_field_positions(self, buf: Seq<u32>)
        requires
            self.read_from(buf),
        ensures
            layout::bool_bit(self.tmz) == layout::get_bits(buf[0], 0x1, 18),
            layout::u8_value(self.elementsize) == layout::get_bits(buf[0], 0x7, 29),
            layout::u16_value(self.src_x) == layout::get_bits(buf[3], 0x3fff, 0),
            layout::u16_value(self.src_y) == layout::get_bits(buf[3], 0x3fff, 16),
            layout::u16_value(self.src_z) == layout::get_bits(buf[4], 0x1fff, 0),
            self.src_pitch == layout::get_bits(buf[4], 0x7ffff, 13),
            self.src_slice_pitch == layout::get_bits(buf[5], 0xfffffff, 0),
            layout::u16_value(self.dst_x) == layout::get_bits(buf[8], 0x3fff, 0),
            layout::u16_value(self.dst_y) == layout::get_bits(buf[8], 0x3fff, 16),
            layout::u16_value(self.dst_z) == layout::get_bits(buf[9], 0x1fff, 0),
            self.dst_pitch == layout::get_bits(buf[9], 0x7ffff, 13),
            self.dst_slice_pitch == layout::get_bits(buf[10], 0xfffffff, 0),
            layout::u16_value(self.rect_x) == layout::get_bits(buf[11], 0x3fff, 0),
            layout::u16_value(self.rect_y) == layout::get_bits(buf[11], 0x3fff, 16),
            layout::u16_value(self.rect_z) == layout::get_bits(buf[12], 0x1fff, 0),
            layout::u8_value(self.dst_sw) == layout::get_bits(buf[12], 0x3, 16),
            layout::u8_value(self.src_sw) == layout::get_bits(buf[12], 0x3, 24),
            self.src_addr == layout::dword_pair(buf[1], buf[2]),
            self.dst_addr == layout::dword_pair(buf[6], buf[7]),
    {
        assert(self.bit_values()[0] == layout::bool_bit(self.tmz));
        assert(layout::decode_bits(buf, Self::bit_fields())[0] == self.bit_values()[0]);
        assert(self.bit_values()[1] == layout::u8_value(self.elementsize));
        assert(layout::decode_bits(buf, Self::bit_fields())[1] == self.bit_values()[1]);
        assert(self.bit_values()[2] == layout::u16_value(self.src_x));
        assert(layout::decode_bits(buf, Self::bit_fields())[2] == self.bit_values()[2]);
        assert(self.bit_values()[3] == layout::u16_value(self.src_y));
        assert(layout::decode_bits(buf, Self::bit_fields())[3] == self.bit_values()[3]);
        assert(self.bit_values()[4] == layout::u16_value(self.src_z));
        assert(layout::decode_bits(buf, Self::bit_fields())[4] == self.bit_values()[4]);
        assert(self.bit_values()[5] == self.src_pitch);
        assert(layout::decode_bits(buf, Self::bit_fields())[5] == self.bit_values()[5]);
        assert(self.bit_values()[6] == self.src_slice_pitch);
        assert(layout::decode_bits(buf, Self::bit_fields())[6] == self.bit_values()[6]);
        assert(self.bit_values()[7] == layout::u16_value(self.dst_x));
        assert(layout::decode_bits(buf, Self::bit_fields())[7] == self.bit_values()[7]);
        assert(self.bit_values()[8] == layout::u16_value(self.dst_y));
        assert(layout::decode_bits(buf, Self::bit_fields())[8] == self.bit_values()[8]);
        assert(self.bit_values()[9] == layout::u16_value(self.dst_z));
        assert(layout::decode_bits(buf, Self::bit_fields())[9] == self.bit_values()[9]);
        assert(self.bit_values()[10] == self.dst_pitch);
        assert(layout::decode_bits(buf, Self::bit_fields())[10] == self.bit_values()[10]);
        assert(self.bit_values()[11] == self.dst_slice_pitch);
        assert(layout::decode_bits(buf, Self::bit_fields())[11] == self.bit_values()[11]);
        assert(self.bit_values()[12] == layout::u16_value(self.rect_x));
        assert(layout::decode_bits(buf, Self::bit_fields())[12] == self.bit_values()[12]);
        assert(self.bit_values()[13] == layout::u16_value(self.rect_y));
        assert(layout::decode_bits(buf, Self::bit_fields())[13] == self.bit_values()[13]);
        assert(self.bit_values()[14] == layout::u16_value(self.rect_z));
        assert(layout::decode_bits(buf, Self::bit_fields())[14] == self.bit_values()[14]);
        assert(self.bit_values()[15] == layout::u8_value(self.dst_sw));
        assert(layout::decode_bits(buf, Self::bit_fields())[15] == self.bit_values()[15]);
        assert(self.bit_values()[16] == layout::u8_value(self.src_sw));
        assert(layout::decode_bits(buf, Self::bit_fields())[16] == self.bit_values()[16]);
        assert(layout::decode_joins(buf, Self::join_fields())[0] == self.join_values()[0]);
        assert(layout::decode_joins(buf, Self::join_fields())[1] == self.join_values()[1]);
    }

    /// The field values name the packet: two packets with the same values are
    /// equal.
    #[verifier::rlimit(40)]
    pub proof fn lemma_values_determine(a: Self, b: Self)
        requires
            a.bit_values() == b.bit_values(),
            a.join_values() == b.join_values(),
            a.tail_data() == b.tail_data(),
        ensures
            a == b,
    {
        assert(a.bit_values()[0] == layout::bool_bit(a.tmz) && b.bit_values()[0] == layout::bool_bit(b.tmz));
        assert(a.bit_values()[1] == layout::u8_value(a.elementsize) && b.bit_values()[1] == layout::u8_value(b.elementsize));
        assert(a.bit_values()[2] == layout::u16_value(a.src_x) && b.bit_values()[2] == layout::u16_value(b.src_x));
        assert(a.bit_values()[3] == layout::u16_value(a.src_y) && b.bit_values()[3] == layout::u16_value(b.src_y));
        assert(a.bit_values()[4] == layout::u16_value(a.src_z) && b.bit_values()[4] == layout::u16_value(b.src_z));
        assert(a.bit_values()[5] == a.src_pitch && b.bit_values()[5] == b.src_pitch);
        assert(a.bit_values()[6] == a.src_slice_pitch && b.bit_values()[6] == b.src_slice_pitch);
        assert(a.bit_values()[7] == layout::u16_value(a.dst_x) && b.bit_values()[7] == layout::u16_value(b.dst_x));
        assert(a.bit_values()[8] == layout::u16_value(a.dst_y) && b.bit_values()[8] == layout::u16_value(b.dst_y));
        assert(a.bit_values()[9] == layout::u16_value(a.dst_z) && b.bit_values()[9] == layout::u16_value(b.dst_z));
        assert(a.bit_values()[10] == a.dst_pitch && b.bit_values()[10] == b.dst_pitch);
        assert(a.bit_values()[11] == a.dst_slice_pitch && b.bit_values()[11] == b.dst_slice_pitch);
        assert(a.bit_values()[12] == layout::u16_value(a.rect_x) && b.bit_values()[12] == layout::u16_value(b.rect_x));
        assert(a.bit_values()[13] == layout::u16_value(a.rect_y) && b.bit_values()[13] == layout::u16_value(b.rect_y));
        assert(a.bit_values()[14] == layout::u16_value(a.rect_z) && b.bit_values()[14] == layout::u16_value(b.rect_z));
        assert(a.bit_values()[15] == layout::u8_value(a.dst_sw) && b.bit_values()[15] == layout::u8_value(b.dst_sw));
        assert(a.bit_values()[16] == layout::u8_value(a.src_sw) && b.bit_values()[16] == layout::u8_value(b.src_sw));
        assert(a.join_values()[0] == a.src_addr && b.join_values()[0] == b.src_addr);
        assert(a.join_values()[1] == a.dst_addr && b.join_values()[1] == b.dst_addr);
    }

    /// Reading a packet is exact: two packets read from one buffer are equal.
    pub proof fn lemma_read_unique(a: Self, b: Self, buf: Seq<u32>)
        requires
            a.read_from(buf),
            b.read_from(buf),
        ensures
            a == b,
    {
        layout::lemma_reads_determine(
            buf,
            Self::bit_fields(),
            a.bit_values(),
            b.bit_values(),
            Self::join_fields(),
            a.join_values(),
            b.join_values(),
            Self::tail(),
            a.tail_data(),
            b.tail_data(),
        );
        Self::lemma_values_determine(a, b);
    }

    /// A packet reads back from what it was encoded to.
    pub proof fn lemma_roundtrip(self, buf: Seq<u32>)
        requires
            Self::layout_wf(),
            self.fits(),
            buf.len() >= self.size(),
        ensures
            self.read_from(self.spec_encode(buf)),
            Self::decodable(self.spec_encode(buf)),
            self.spec_encode(buf).len() == buf.len(),
    {
        layout::lemma_packet_roundtrip(
            buf,
            Self::bit_fields(),
            self.bit_values(),
            Self::join_fields(),
            self.join_values(),
            Self::tail(),
            self.tail_data(),
            Self::STATIC_DWORDS as nat,
        );
    }
}

/// The `CopyLinearSubwinBc` packet.
#[derive(Clone, Copy, Default)]
pub struct CopyLinearSubwinBc {
    pub elementsize: u8,
    pub src_x: u16,
    pub src_y: u16,
    pub src_z: u16,
    pub src_pitch: u16,
    pub src_slice_pitch: u32,
    pub dst_x: u16,
    pub dst_y: u16,
    pub dst_z: u16,
    pub dst_pitch: u16,
    pub dst_slice_pitch: u32,
    pub rect_x: u16,
    pub rect_y: u16,
    pub rect_z: u16,
    pub dst_sw: u8,
    pub dst_ha: bool,
    pub src_sw: u8,
    pub src_ha: bool,
    pub src_addr: u64,
    pub dst_addr: u64,
}

impl CopyLinearSubwinBc {
    /// Dwords of the packet before its variable-length tail.
    pub const STATIC_DWORDS: usize = 13;

    pub open spec fn bit_fields() -> Seq<BitField> {
        seq![BitField { dw: 0, mask: 0x7, shift: 29 }, BitField { dw: 3, mask: 0x3fff, shift: 0 }, BitField { dw: 3, mask: 0x3fff, shift: 16 }, BitField { dw: 4, mask: 0x7ff, shift: 0 }, BitField { dw: 4, mask: 0x3fff, shift: 13 }, BitField { dw: 5, mask: 0xfffffff, shift: 0 }, BitField { dw: 8, mask: 0x3fff, shift: 0 }, BitField { dw: 8, mask: 0x3fff, shift: 16 }, BitField { dw: 9, mask: 0x7ff, shift: 0 }, BitField { dw: 9, mask: 0x3fff, shift: 13 }, BitField { dw: 10, mask: 0xfffffff, shift: 0 }, BitField { dw: 11, mask: 0x3fff, shift: 0 }, BitField { dw: 11, mask: 0x3fff, shift: 16 }, BitField { dw: 12, mask: 0x7ff, shift: 0 }, BitField { dw: 12, mask: 0x3, shift: 16 }, BitField { dw: 12, mask: 0x1, shift: 22 }, BitField { dw: 12, mask: 0x3, shift: 24 }, BitField { dw: 12, mask: 0x1, shift: 30 }]
    }

    pub open spec fn join_fields() -> Seq<JoinField> {
        seq![JoinField { lo: 1, hi: 2 }, JoinField { lo: 6, hi: 7 }]
    }

    pub open spec fn tail() -> Option<DynField> {
        None
    }

    pub open spec fn bit_values(self) -> Seq<u32> {
        seq![self.elementsize as u32, self.src_x as u32, self.src_y as u32, self.src_z as u32, self.src_pitch as u32, self.src_slice_pitch, self.dst_x as u32, self.dst_y as u32, self.dst_z as u32, self.dst_pitch as u32, self.dst_slice_pitch, self.rect_x as u32, self.rect_y as u32, self.rect_z as u32, self.dst_sw as u32, layout::bool_bit(self.dst_ha), self.src_sw as u32, layout::bool_bit(self.src_ha)]
    }

    pub open spec fn join_values(self) -> Seq<u64> {
        seq![self.src_addr, self.dst_addr]
    }

    pub open spec fn tail_data(self) -> Seq<u32> {
        Seq::<u32>::empty()
    }

    /// Every field value fits its field.
    pub open spec fn fits(self) -> bool {
        layout::fields_fit(Self::bit_fields(), self.bit_values()) && layout::tail_fits(Self::tail(), self.tail_data())
    }

    pub open spec fn layout_wf() -> bool {
        layout::layout_wf(Self::bit_fields(), Self::join_fields(), Self::tail(), Self::STATIC_DWORDS as nat)
    }

    /// Dwords that the packet takes.
    pub open spec fn size(self) -> nat {
        (Self::STATIC_DWORDS + self.tail_data().len()) as nat
    }

    /// The buffer holds the whole packet.
    pub open spec fn decodable(buf: Seq<u32>) -> bool {
        buf.len() >= Self::STATIC_DWORDS
    }

    pub open spec fn spec_encode(self, buf: Seq<u32>) -> Seq<u32> {
        layout::encode_packet(
            buf,
            Self::bit_fields(),
            self.bit_values(),
            Self::join_fields(),
            self.join_values(),
            Self::tail(),
            self.tail_data(),
        )
    }

    /// `buf` holds this packet.
    pub open spec fn read_from(self, buf: Seq<u32>) -> bool {
        layout::packet_reads(
            buf,
            Self::bit_fields(),
            self.bit_values(),
            Self::join_fields(),
            self.join_values(),
            Self::tail(),
            self.tail_data(),
        )
    }

    fn exec_bit_fields() -> (r: Vec<BitField>)
        ensures
            r@ == Self::bit_fields(),
    {
        vec![BitField { dw: 0, mask: 0x7, shift: 29 }, BitField { dw: 3, mask: 0x3fff, shift: 0 }, BitField { dw: 3, mask: 0x3fff, shift: 16 }, BitField { dw: 4, mask: 0x7ff, shift: 0 }, BitField { dw: 4, mask: 0x3fff, shift: 13 }, BitField { dw: 5, mask: 0xfffffff, shift: 0 }, BitField { dw: 8, mask: 0x3fff, shift: 0 }, BitField { dw: 8, mask: 0x3fff, shift: 16 }, BitField { dw: 9, mask: 0x7ff, shift: 0 }, BitField { dw: 9, mask: 0x3fff, shift: 13 }, BitField { dw: 10, mask: 0xfffffff, shift: 0 }, BitField { dw: 11, mask: 0x3fff, shift: 0 }, BitField { dw: 11, mask: 0x3fff, shift: 16 }, BitField { dw: 12, mask: 0x7ff, shift: 0 }, BitField { dw: 12, mask: 0x3, shift: 16 }, BitField { dw: 12, mask: 0x1, shift: 22 }, BitField { dw: 12, mask: 0x3, shift: 24 }, BitField { dw: 12, mask: 0x1, shift: 30 }]
    }

    fn exec_join_fields() -> (r: Vec<JoinField>)
        ensures
            r@ == Self::join_fields(),
    {
        vec![JoinField { lo: 1, hi: 2 }, JoinField { lo: 6, hi: 7 }]
    }

    /// Whether the field layout of this packet is well formed.
    pub fn layout_ok() -> (r: bool)
        ensures
            r == Self::layout_wf(),
    {
        layout_is_wf(&Self::exec_bit_fields(), &Self::exec_join_fields(), None, Self::STATIC_DWORDS)
    }

    /// Writes the packet to the start of `buff`, without its header, and
    /// returns how many dwords it took.
    pub fn partial_encode_linear(&self, buff: &mut [u32]) -> (n: usize)
        requires
            old(buff)@.len() >= self.size(),
            self.fits(),
        ensures
            n == self.size(),
            final(buff)@ == self.spec_encode(old(buff)@),
            final(buff)@.len() == old(buff)@.len(),
    {
        let bits = Self::exec_bit_fields();
        let vals: Vec<u32> = vec![layout::widen_u8(self.elementsize), layout::widen_u16(self.src_x), layout::widen_u16(self.src_y), layout::widen_u16(self.src_z), layout::widen_u16(self.src_pitch), self.src_slice_pitch, layout::widen_u16(self.dst_x), layout::widen_u16(self.dst_y), layout::widen_u16(self.dst_z), layout::widen_u16(self.dst_pitch), self.dst_slice_pitch, layout::widen_u16(self.rect_x), layout::widen_u16(self.rect_y), layout::widen_u16(self.rect_z), layout::widen_u8(self.dst_sw), to_bit(self.dst_ha), layout::widen_u8(self.src_sw), to_bit(self.src_ha)];
        let joins = Self::exec_join_fields();
        let jvals: Vec<u64> = vec![self.src_addr, self.dst_addr];
        proof {
            assert(vals@ =~= self.bit_values());
            assert(jvals@ =~= self.join_values());
        }
        encode_bit_fields(&bits, &vals, buff);
        encode_join_fields(&joins, &jvals, buff);
        Self::STATIC_DWORDS
    }

    /// Reads the packet at the start of `buff` and returns how many dwords it
    /// took.
    #[verifier::rlimit(40)]
    pub fn partial_decode_linear(buff: &[u32]) -> (r: (usize, Self))
        requires
            Self::decodable(buff@),
        ensures
            r.0 == r.1.size(),
            r.1.read_from(buff@),
    {
        let bits = Self::exec_bit_fields();
        let v = decode_bit_fields(&bits, buff);
        let joins = Self::exec_join_fields();
        let j = decode_join_fields(&joins, buff);
        let p = Self { elementsize: layout::narrow_u8(v[0]), src_x: layout::narrow_u16(v[1]), src_y: layout::narrow_u16(v[2]), src_z: layout::narrow_u16(v[3]), src_pitch: layout::narrow_u16(v[4]), src_slice_pitch: v[5], dst_x: layout::narrow_u16(v[6]), dst_y: layout::narrow_u16(v[7]), dst_z: layout::narrow_u16(v[8]), dst_pitch: layout::narrow_u16(v[9]), dst_slice_pitch: v[10], rect_x: layout::narrow_u16(v[11]), rect_y: layout::narrow_u16(v[12]), rect_z: layout::narrow_u16(v[13]), dst_sw: layout::narrow_u8(v[14]), dst_ha: v[15] != 0, src_sw: layout::narrow_u8(v[16]), src_ha: v[17] != 0, src_addr: j[0], dst_addr: j[1] };
        proof {
            assert(p.bit_values() =~= v@);
            assert(p.join_values() =~= j@);
        }
        (Self::STATIC_DWORDS, p)
    }

    /// Where each field stands in a buffer that the packet is read from, as
    /// the packet header lays it out: a bit field under its mask and shift
    /// in its dword, a 64-bit field in two dwords, low half first. By
    /// `lemma_roundtrip`, encoding a packet puts its fields there.
    #[verifier::rlimit(40)]
    pub proof fn lemma_field_positions(self, buf: Seq<u32>)
        requires
            self.read_from(buf),
        ensures
            layout::u8_value(self.elementsize) == layout::get_bits(buf[0], 0x7, 29),
            layout::u16_value(self.src_x) == layout::get_bits(buf[3], 0x3fff, 0),
            layout::u16_value(self.src_y) == layout::get_bits(buf[3], 0x3fff, 16),
            layout::u16_value(self.src_z) == layout::get_bits(buf[4], 0x7ff, 0),
            layout::u16_value(self.src_pitch) == layout::get_bits(buf[4], 0x3fff, 13),
            self.src_slice_pitch == layout::get_bits(buf[5], 0xfffffff, 0),
            layout::u16_value(self.dst_x) == layout::get_bits(buf[8], 0x3fff, 0),
            layout::u16_value(self.dst_y) == layout::get_bits(buf[8], 0x3fff, 16),
            layout::u16_value(self.dst_z) == layout::get_bits(buf[9], 0x7ff, 0),
            layout::u16_value(self.dst_pitch) == layout::get_bits(buf[9], 0x3fff, 13),
            self.dst_slice_pitch == layout::get_bits(buf[10], 0xfffffff, 0),
            layout::u16_value(self.rect_x) == layout::get_bits(buf[11], 0x3fff, 0),
            layout::u16_value(self.rect_y) == layout::get_bits(buf[11], 0x3fff, 16),
            layout::u16_value(self.rect_z) == layout::get_bits(buf[12], 0x7ff, 0),
            layout::u8_value(self.dst_sw) == layout::get_bits(buf[12], 0x3, 16),
            layout::bool_bit(self.dst_ha) == layout::get_bits(buf[12], 0x1, 22),
            layout::u8_value(self.src_sw) == layout::get_bits(buf[12], 0x3, 24),
            layout::bool_bit(self.src_ha) == layout::get_bits(buf[12], 0x1, 30),
            self.src_addr == layout::dword_pair(buf[1], buf[2]),
            self.dst_addr == layout::dword_pair(buf[6], buf[7]),
    {
        assert(self.bit_values()[0] == layout::u8_value(self.elementsize));
        assert(layout::decode_bits(buf, Self::bit_fields())[0] == self.bit_values()[0]);
        assert(self.bit_values()[1] == layout::u16_value(self.src_x));
        assert(layout::decode_bits(buf, Self::bit_fields())[1] == self.bit_values()[1]);
        assert(self.bit_values()[2] == layout::u16_value(self.src_y));
        assert(layout::decode_bits(buf, Self::bit_fields())[2] == self.bit_values()[2]);
        assert(self.bit_values()[3] == layout::u16_value(self.src_z));
        assert(layout::decode_bits(buf, Self::bit_fields())[3] == self.bit_values()[3]);
        assert(self.bit_values()[4] == layout::u16_value(self.src_pitch));
        assert(layout::decode_bits(buf, Self::bit_fields())[4] == self.bit_values()[4]);
        assert(self.bit_values()[5] == self.src_slice_pitch);
        assert(layout::decode_bits(buf, Self::bit_fields())[5] == self.bit_values()[5]);
        assert(self.bit_values()[6] == layout::u16_value(self.dst_x));
        assert(layout::decode_bits(buf, Self::bit_fields())[6] == self.bit_values()[6]);
        assert(self.bit_values()[7] == layout::u16_value(self.dst_y));
        assert(layout::decode_bits(buf, Self::bit_fields())[7] == self.bit_values()[7]);
        assert(self.bit_values()[8] == layout::u16_value(self.dst_z));
        assert(layout::decode_bits(buf, Self::bit_fields())[8] == self.bit_values()[8]);
        assert(self.bit_values()[9] == layout::u16_value(self.dst_pitch));
        assert(layout::decode_bits(buf, Self::bit_fields())[9] == self.bit_values()[9]);
        assert(self.bit_values()[10] == self.dst_slice_pitch);
        assert(layout::decode_bits(buf, Self::bit_fields())[10] == self.bit_values()[10]);
        assert(self.bit_values()[11] == layout::u16_value(self.rect_x));
        assert(layout::decode_bits(buf, Self::bit_fields())[11] == self.bit_values()[11]);
        assert(self.bit_values()[12] == layout::u16_value(self.rect_y));
        assert(layout::decode_bits(buf, Self::bit_fields())[12] == self.bit_values()[12]);
        assert(self.bit_values()[13] == layout::u16_value(self.rect_z));
        assert(layout::decode_bits(buf, Self::bit_fields())[13] == self.bit_values()[13]);
        assert(self.bit_values()[14] == layout::u8_value(self.dst_sw));
        assert(layout::decode_bits(buf, Self::bit_fields())[14] == self.bit_values()[14]);
        assert(self.bit_values()[15] == layout::bool_bit(self.dst_ha));
        assert(layout::decode_bits(buf, Self::bit_fields())[15] == self.bit_values()[15]);
        assert(self.bit_values()[16] == layout::u8_value(self.src_sw));
        assert(layout::decode_bits(buf, Self::bit_fields())[16] == self.bit_values()[16]);
        assert(self.bit_values()[17] == layout::bool_bit(self.src_ha));
        assert(layout::decode_bits(buf, Self::bit_fields())[17] == self.bit_values()[17]);
        assert(layout::decode_joins(buf, Self::join_fields())[0] == self.join_values()[0]);
        assert(layout::decode_joins(buf, Self::join_fields())[1] == self.join_values()[1]);
    }

    /// The field values name the packet: two packets with the same values are
    /// equal.
    #[verifier::rlimit(40)]
    pub proof fn lemma_values_determine(a: Self, b: Self)
        requires
            a.bit_values() == b.bit_values(),
            a.join_values() == b.join_values(),
            a.tail_data() == b.tail_data(),
        ensures
            a == b,
    {
        assert(a.bit_values()[0] == layout::u8_value(a.elementsize) && b.bit_values()[0] == layout::u8_value(b.elementsize));
        assert(a.bit_values()[1] == layout::u16_value(a.src_x) && b.bit_values()[1] == layout::u16_value(b.src_x));
        assert(a.bit_values()[2] == layout::u16_value(a.src_y) && b.bit_values()[2] == layout::u16_value(b.src_y));
        assert(a.bit_values()[3] == layout::u16_value(a.src_z) && b.bit_values()[3] == layout::u16_value(b.src_z));
        assert(a.bit_values()[4] == layout::u16_value(a.src_pitch) && b.bit_values()[4] == layout::u16_value(b.src_pitch));
        assert(a.bit_values()[5] == a.src_slice_pitch && b.bit_values()[5] == b.src_slice_pitch);
        assert(a.bit_values()[6] == layout::u16_value(a.dst_x) && b.bit_values()[6] == layout::u16_value(b.dst_x));
        assert(a.bit_values()[7] == layout::u16_value(a.dst_y) && b.bit_values()[7] == layout::u16_value(b.dst_y));
        assert(a.bit_values()[8] == layout::u16_value(a.dst_z) && b.bit_values()[8] == layout::u16_value(b.dst_z));
        assert(a.bit_values()[9] == layout::u16_value(a.dst_pitch) && b.bit_values()[9] == layout::u16_value(b.dst_pitch));
        assert(a.bit_values()[10] == a.dst_slice_pitch && b.bit_values()[10] == b.dst_slice_pitch);
        assert(a.bit_values()[11] == layout::u16_value(a.rect_x) && b.bit_values()[11] == layout::u16_value(b.rect_x));
        assert(a.bit_values()[12] == layout::u16_value(a.rect_y) && b.bit_values()[12] == layout::u16_value(b.rect_y));
        assert(a.bit_values()[13] == layout::u16_value(a.rect_z) && b.bit_values()[13] == layout::u16_value(b.rect_z));
        assert(a.bit_values()[14] == layout::u8_value(a.dst_sw) && b.bit_values()[14] == layout::u8_value(b.dst_sw));
        assert(a.bit_values()[15] == layout::bool_bit(a.dst_ha) && b.bit_values()[15] == layout::bool_bit(b.dst_ha));
        assert(a.bit_values()[16] == layout::u8_value(a.src_sw) && b.bit_values()[16] == layout::u8_value(b.src_sw));
        assert(a.bit_values()[17] == layout::bool_bit(a.src_ha) && b.bit_values()[17] == layout::bool_bit(b.src_ha));
        assert(a.join_values()[0] == a.src_addr && b.join_values()[0] == b.src_addr);
        assert(a.join_values()[1] == a.dst_addr && b.join_values()[1] == b.dst_addr);
    }

    /// Reading a packet is exact: two packets read from one buffer are equal.
    pub proof fn lemma_read_unique(a: Self, b: Self, buf: Seq<u32>)
        requires
            a.read_from(buf),
            b.read_from(buf),
        ensures
            a == b,
    {
        layout::lemma_reads_determine(
            buf,
            Self::bit_fields(),
            a.bit_values(),
            b.bit_values(),
            Self::join_fields(),
            a.join_values(),
            b.join_values(),
            Self::tail(),
            a.tail_data(),
            b.tail_data(),
        );
        Self::lemma_values_determine(a, b);
    }

    /// A packet reads back from what it was encoded to.
    pub proof fn lemma_roundtrip(self, buf: Seq<u32>)
        requires
            Self::layout_wf(),
            self.fits(),
            buf.len() >= self.size(),
        ensures
            self.read_from(self.spec_encode(buf)),
            Self::decodable(self.spec_encode(buf)),
            self.spec_encode(buf).len() == buf.len(),
    {
        layout::lemma_packet_roundtrip(
            buf,
            Self::bit_fields(),
            self.bit_values(),
            Self::join_fields(),
            self.join_values(),
            Self::tail(),
            self.tail_data(),
            Self::STATIC_DWORDS as nat,
        );
    }
}

/// The `CopyTiled` packet.
#[derive(Clone, Copy, Default)]
pub struct CopyTiled {
    pub encrypt: bool,
    pub tmz: bool,
    pub detile: bool,
    pub width: u16,
    pub height: u16,
    pub depth: u16,
    pub element_size: u8,
    pub swizzle_mode: u8,
    pub dimension: u8,
    pub mip_max: u8,
    pub x: u16,
    pub y: u16,
    pub z: u16,
    pub linear_sw: u8,
    pub linear_cc: bool,
    pub tile_sw: u8,
    pub linear_pitch: u32,
    pub count: u32,
    pub linear_slice_pitch: u32,
    pub tiled_addr: u64,
    pub linear_addr: u64,
}

impl CopyTiled {
    /// Dwords of the packet before its variable-length tail.
    pub const STATIC_DWORDS: usize = 13;

    pub open spec fn bit_fields() -> Seq<BitField> {
        seq![BitField { dw: 0, mask: 0x1, shift: 16 }, BitField { dw: 0, mask: 0x1, shift: 18 }, BitField { dw: 0, mask: 0x1, shift: 31 }, BitField { dw: 3, mask: 0x3fff, shift: 0 }, BitField { dw: 4, mask: 0x3fff, shift: 0 }, BitField { dw: 4, mask: 0x1fff, shift: 16 }, BitField { dw: 5, mask: 0x7, shift: 0 }, BitField { dw: 5, mask: 0x1f, shift: 3 }, BitField { dw: 5, mask: 0x3, shift: 9 }, BitField { dw: 5, mask: 0xf, shift: 16 }, BitField { dw: 6, mask: 0x3fff, shift: 0 }, BitField { dw: 6, mask: 0x3fff, shift: 16 }, BitField { dw: 7, mask: 0x1fff, shift: 0 }, BitField { dw: 7, mask: 0x3, shift: 16 }, BitField { dw: 7, mask: 0x1, shift: 20 }, BitField { dw: 7, mask: 0x3, shift: 24 }, BitField { dw: 10, mask: 0x7ffff, shift: 0 }, BitField { dw: 12, mask: 0x3fffff, shift: 0 }, BitField { dw: 11, mask: 0xffffffff, shift: 0 }]
    }

    pub open spec fn join_fields() -> Seq<JoinField> {
        seq![JoinField { lo: 1, hi: 2 }, JoinField { lo: 8, hi: 9 }]
    }

    pub open spec fn tail() -> Option<DynField> {
        None
    }

    pub open spec fn bit_values(self) -> Seq<u32> {
        seq![layout::bool_bit(self.encrypt), layout::bool_bit(self.tmz), layout::bool_bit(self.detile), self.width as u32, self.height as u32, self.depth as u32, self.element_size as u32, self.swizzle_mode as u32, self.dimension as u32, self.mip_max as u32, self.x as u32, self.y as u32, self.z as u32, self.linear_sw as u32, layout::bool_bit(self.linear_cc), self.tile_sw as u32, self.linear_pitch, self.count, self.linear_slice_pitch]
    }

    pub open spec fn join_values(self) -> Seq<u64> {
        seq![self.tiled_addr, self.linear_addr]
    }

    pub open spec fn tail_data(self) -> Seq<u32> {
        Seq::<u32>::empty()
    }

    /// Every field value fits its field.
    pub open spec fn fits(self) -> bool {
        layout::fields_fit(Self::bit_fields(), self.bit_values()) && layout::tail_fits(Self::tail(), self.tail_data())
    }

    pub open spec fn layout_wf() -> bool {
        layout::layout_wf(Self::bit_fields(), Self::join_fields(), Self::tail(), Self::STATIC_DWORDS as nat)
    }

    /// Dwords that the packet takes.
    pub open spec fn size(self) -> nat {
        (Self::STATIC_DWORDS + self.tail_data().len()) as nat
    }

    /// The buffer holds the whole packet.
    pub open spec fn decodable(buf: Seq<u32>) -> bool {
        buf.len() >= Self::STATIC_DWORDS
    }

    pub open spec fn spec_encode(self, buf: Seq<u32>) -> Seq<u32> {
        layout::encode_packet(
            buf,
            Self::bit_fields(),
            self.bit_values(),
            Self::join_fields(),
            self.join_values(),
            Self::tail(),
            self.tail_data(),
        )
    }

    /// `buf` holds this packet.
    pub open spec fn read_from(self, buf: Seq<u32>) -> bool {
        layout::packet_reads(
            buf,
            Self::bit_fields(),
            self.bit_values(),
            Self::join_fields(),
            self.join_values(),
            Self::tail(),
            self.tail_data(),
        )
    }

    fn exec_bit_fields() -> (r: Vec<BitField>)
        ensures
            r@ == Self::bit_fields(),
    {
        vec![BitField { dw: 0, mask: 0x1, shift: 16 }, BitField { dw: 0, mask: 0x1, shift: 18 }, BitField { dw: 0, mask: 0x1, shift: 31 }, BitField { dw: 3, mask: 0x3fff, shift: 0 }, BitField { dw: 4, mask: 0x3fff, shift: 0 }, BitField { dw: 4, mask: 0x1fff, shift: 16 }, BitField { dw: 5, mask: 0x7, shift: 0 }, BitField { dw: 5, mask: 0x1f, shift: 3 }, BitField { dw: 5, mask: 0x3, shift: 9 }, BitField { dw: 5, mask: 0xf, shift: 16 }, BitField { dw: 6, mask: 0x3fff, shift: 0 }, BitField { dw: 6, mask: 0x3fff, shift: 16 }, BitField { dw: 7, mask: 0x1fff, shift: 0 }, BitField { dw: 7, mask: 0x3, shift: 16 }, BitField { dw: 7, mask: 0x1, shift: 20 }, BitField { dw: 7, mask: 0x3, shift: 24 }, BitField { dw: 10, mask: 0x7ffff, shift: 0 }, BitField { dw: 12, mask: 0x3fffff, shift: 0 }, BitField { dw: 11, mask: 0xffffffff, shift: 0 }]
    }

    fn exec_join_fields() -> (r: Vec<JoinField>)
        ensures
            r@ == Self::join_fields(),
    {
        vec![JoinField { lo: 1, hi: 2 }, JoinField { lo: 8, hi: 9 }]
    }

    /// Whether the field layout of this packet is well formed.
    pub fn layout_ok() -> (r: bool)
        ensures
            r == Self::layout_wf(),
    {
        layout_is_wf(&Self::exec_bit_fields(), &Self::exec_join_fields(), None, Self::STATIC_DWORDS)
    }

    /// Writes the packet to the start of `buff`, without its header, and
    /// returns how many dwords it took.
    pub fn partial_encode_linear(&self, buff: &mut [u32]) -> (n: usize)
        requires
            old(buff)@.len() >= self.size(),
            self.fits(),
        ensures
            n == self.size(),
            final(buff)@ == self.spec_encode(old(buff)@),
            final(buff)@.len() == old(buff)@.len(),
    {
        let bits = Self::exec_bit_fields();
        let vals: Vec<u32> = vec![to_bit(self.encrypt), to_bit(self.tmz), to_bit(self.detile), layout::widen_u16(self.width), layout::widen_u16(self.height), layout::widen_u16(self.depth), layout::widen_u8(self.element_size), layout::widen_u8(self.swizzle_mode), layout::widen_u8(self.dimension), layout::widen_u8(self.mip_max), layout::widen_u16(self.x), layout::widen_u16(self.y), layout::widen_u16(self.z), layout::widen_u8(self.linear_sw), to_bit(self.linear_cc), layout::widen_u8(self.tile_sw), self.linear_pitch, self.count, self.linear_slice_pitch];
        let joins = Self::exec_join_fields();
        let jvals: Vec<u64> = vec![self.tiled_addr, self.linear_addr];
        proof {
            assert(vals@ =~= self.bit_values());
            assert(jvals@ =~= self.join_values());
        }
        encode_bit_fields(&bits, &vals, buff);
        encode_join_fields(&joins, &jvals, buff);
        Self::STATIC_DWORDS
    }

    /// Reads the packet at the start of `buff` and returns how many dwords it
    /// took.
    #[verifier::rlimit(40)]
    pub fn partial_decode_linear(buff: &[u32]) -> (r: (usize, Self))
        requires
            Self::decodable(buff@),
        ensures
            r.0 == r.1.size(),
            r.1.read_from(buff@),
    {
        let bits = Self::exec_bit_fields();
        let v = decode_bit_fields(&bits, buff);
        let joins = Self::exec_join_fields();
        let j = decode_join_fields(&joins, buff);
        let p = Self { encrypt: v[0] != 0, tmz: v[1] != 0, detile: v[2] != 0, width: layout::narrow_u16(v[3]), height: layout::narrow_u16(v[4]), depth: layout::narrow_u16(v[5]), element_size: layout::narrow_u8(v[6]), swizzle_mode: layout::narrow_u8(v[7]), dimension: layout::narrow_u8(v[8]), mip_max: layout::narrow_u8(v[9]), x: layout::narrow_u16(v[10]), y: layout::narrow_u16(v[11]), z: layout::narrow_u16(v[12]), linear_sw: layout::narrow_u8(v[13]), linear_cc: v[14] != 0, tile_sw: layout::narrow_u8(v[15]), linear_pitch: v[16], count: v[17], linear_slice_pitch: v[18], tiled_addr: j[0], linear_addr: j[1] };
        proof {
            assert(p.bit_values() =~= v@);
            assert(p.join_values() =~= j@);
        }
        (Self::STATIC_DWORDS, p)
    }

    /// Where each field stands in a buffer that the packet is read from, as
    /// the packet header lays it out: a bit field under its mask and shift
    /// in its dword, a 64-bit field in two dwords, low half first. By
    /// `lemma_roundtrip`, encoding a packet puts its fields there.
    #[verifier::rlimit(40)]
    pub proof fn lemma_field_positions(self, buf: Seq<u32>)
        requires
            self.read_from(buf),
        ensures
            layout::bool_bit(self.encrypt) == layout::get_bits(buf[0], 0x1, 16),
            layout::bool_bit(self.tmz) == layout::get_bits(buf[0], 0x1, 18),
            layout::bool_bit(self.detile) == layout::get_bits(buf[0], 0x1, 31),
            layout::u16_value(self.width) == layout::get_bits(buf[3], 0x3fff, 0),
            layout::u16_value(self.height) == layout::get_bits(buf[4], 0x3fff, 0),
            layout::u16_value(self.depth) == layout::get_bits(buf[4], 0x1fff, 16),
            layout::u8_value(self.element_size) == layout::get_bits(buf[5], 0x7, 0),
            layout::u8_value(self.swizzle_mode) == layout::get_bits(buf[5], 0x1f, 3),
            layout::u8_value(self.dimension) == layout::get_bits(buf[5], 0x3, 9),
            layout::u8_value(self.mip_max) == layout::get_bits(buf[5], 0xf, 16),
            layout::u16_value(self.x) == layout::get_bits(buf[6], 0x3fff, 0),
            layout::u16_value(self.y) == layout::get_bits(buf[6], 0x3fff, 16),
            layout::u16_value(self.z) == layout::get_bits(buf[7], 0x1fff, 0),
            layout::u8_value(self.linear_sw) == layout::get_bits(buf[7], 0x3, 16),
            layout::bool_bit(self.linear_cc) == layout::get_bits(buf[7], 0x1, 20),
            layout::u8_value(self.tile_sw) == layout::get_bits(buf[7], 0x3, 24),
            self.linear_pitch == layout::get_bits(buf[10], 0x7ffff, 0),
            self.count == layout::get_bits(buf[12], 0x3fffff, 0),
            self.linear_slice_pitch == layout::get_bits(buf[11], 0xffffffff, 0),
            self.tiled_addr == layout::dword_pair(buf[1], buf[2]),
            self.linear_addr == layout::dword_pair(buf[8], buf[9]),
    {
        assert(self.bit_values()[0] == layout::bool_bit(self.encrypt));
        assert(layout::decode_bits(buf, Self::bit_fields())[0] == self.bit_values()[0]);
        assert(self.bit_values()[1] == layout::bool_bit(self.tmz));
        assert(layout::decode_bits(buf, Self::bit_fields())[1] == self.bit_values()[1]);
        assert(self.bit_values()[2] == layout::bool_bit(self.detile));
        assert(layout::decode_bits(buf, Self::bit_fields())[2] == self.bit_values()[2]);
        assert(self.bit_values()[3] == layout::u16_value(self.width));
        assert(layout::decode_bits(buf, Self::bit_fields())[3] == self.bit_values()[3]);
        assert(self.bit_values()[4] == layout::u16_value(self.height));
        assert(layout::decode_bits(buf, Self::bit_fields())[4] == self.bit_values()[4]);
        assert(self.bit_values()[5] == layout::u16_value(self.depth));
        assert(layout::decode_bits(buf, Self::bit_fields())[5] == self.bit_values()[5]);
        assert(self.bit_values()[6] == layout::u8_value(self.element_size));
        assert(layout::decode_bits(buf, Self::bit_fields())[6] == self.bit_values()[6]);
        assert(self.bit_values()[7] == layout::u8_value(self.swizzle_mode));
        assert(layout::decode_bits(buf, Self::bit_fields())[7] == self.bit_values()[7]);
        assert(self.bit_values()[8] == layout::u8_value(self.dimension));
        assert(layout::decode_bits(buf, Self::bit_fields())[8] == self.bit_values()[8]);
        assert(self.bit_values()[9] == layout::u8_value(self.mip_max));
        assert(layout::decode_bits(buf, Self::bit_fields())[9] == self.bit_values()[9]);
        assert(self.bit_values()[10] == layout::u16_value(self.x));
        assert(layout::decode_bits(buf, Self::bit_fields())[10] == self.bit_values()[10]);
        assert(self.bit_values()[11] == layout::u16_value(self.y));
        assert(layout::decode_bits(buf, Self::bit_fields())[11] == self.bit_values()[11]);
        assert(self.bit_values()[12] == layout::u16_value(self.z));
        assert(layout::decode_bits(buf, Self::bit_fields())[12] == self.bit_values()[12]);
        assert(self.bit_values()[13] == layout::u8_value(self.linear_sw));
        assert(layout::decode_bits(buf, Self::bit_fields())[13] == self.bit_values()[13]);
        assert(self.bit_values()[14] == layout::bool_bit(self.linear_cc));
        assert(layout::decode_bits(buf, Self::bit_fields())[14] == self.bit_values()[14]);
        assert(self.bit_values()[15] == layout::u8_value(self.tile_sw));
        assert(layout::decode_bits(buf, Self::bit_fields())[15] == self.bit_values()[15]);
        assert(self.bit_values()[16] == self.linear_pitch);
        assert(layout::decode_bits(buf, Self::bit_fields())[16] == self.bit_values()[16]);
        assert(self.bit_values()[17] == self.count);
        assert(layout::decode_bits(buf, Self::bit_fields())[17] == self.bit_values()[17]);
        assert(self.bit_values()[18] == self.linear_slice_pitch);
        assert(layout::decode_bits(buf, Self::bit_fields())[18] == self.bit_values()[18]);
        assert(layout::decode_joins(buf, Self::join_fields())[0] == self.join_values()[0]);
        assert(layout::decode_joins(buf, Self::join_fields())[1] == self.join_values()[1]);
    }

    /// The field values name the packet: two packets with the same values are
    /// equal.
    #[verifier::rlimit(40)]
    pub proof fn lemma_values_determine(a: Self, b: Self)
        requires
            a.bit_values() == b.bit_values(),
            a.join_values() == b.join_values(),
            a.tail_data() == b.tail_data(),
        ensures
            a == b,
    {
        assert(a.bit_values()[0] == layout::bool_bit(a.encrypt) && b.bit_values()[0] == layout::bool_bit(b.encrypt));
        assert(a.bit_values()[1] == layout::bool_bit(a.tmz) && b.bit_values()[1] == layout::bool_bit(b.tmz));
        assert(a.bit_values()[2] == layout::bool_bit(a.detile) && b.bit_values()[2] == layout::bool_bit(b.detile));
        assert(a.bit_values()[3] == layout::u16_value(a.width) && b.bit_values()[3] == layout::u16_value(b.width));
        assert(a.bit_values()[4] == layout::u16_value(a.height) && b.bit_values()[4] == layout::u16_value(b.height));
        assert(a.bit_values()[5] == layout::u16_value(a.depth) && b.bit_values()[5] == layout::u16_value(b.depth));
        assert(a.bit_values()[6] == layout::u8_value(a.element_size) && b.bit_values()[6] == layout::u8_value(b.element_size));
        assert(a.bit_values()[7] == layout::u8_value(a.swizzle_mode) && b.bit_values()[7] == layout::u8_value(b.swizzle_mode));
        assert(a.bit_values()[8] == layout::u8_value(a.dimension) && b.bit_values()[8] == layout::u8_value(b.dimension));
        assert(a.bit_values()[9] == layout::u8_value(a.mip_max) && b.bit_values()[9] == layout::u8_value(b.mip_max));
        assert(a.bit_values()[10] == layout::u16_value(a.x) && b.bit_values()[10] == layout::u16_value(b.x));
        assert(a.bit_values()[11] == layout::u16_value(a.y) && b.bit_values()[11] == layout::u16_value(b.y));
        assert(a.bit_values()[12] == layout::u16_value(a.z) && b.bit_values()[12] == layout::u16_value(b.z));
        assert(a.bit_values()[13] == layout::u8_value(a.linear_sw) && b.bit_values()[13] == layout::u8_value(b.linear_sw));
        assert(a.bit_values()[14] == layout::bool_bit(a.linear_cc) && b.bit_values()[14] == layout::bool_bit(b.linear_cc));
        assert(a.bit_values()[15] == layout::u8_value(a.tile_sw) && b.bit_values()[15] == layout::u8_value(b.tile_sw));
        assert(a.bit_values()[16] == a.linear_pitch && b.bit_values()[16] == b.linear_pitch);
        assert(a.bit_values()[17] == a.count && b.bit_values()[17] == b.count);
        assert(a.bit_values()[18] == a.linear_slice_pitch && b.bit_values()[18] == b.linear_slice_pitch);
        assert(a.join_values()[0] == a.tiled_addr && b.join_values()[0] == b.tiled_addr);
        assert(a.join_values()[1] == a.linear_addr && b.join_values()[1] == b.linear_addr);
    }

    /// Reading a packet is exact: two packets read from one buffer are equal.
    pub proof fn lemma_read_unique(a: Self, b: Self, buf: Seq<u32>)
        requires
            a.read_from(buf),
            b.read_from(buf),
        ensures
            a == b,
    {
        layout::lemma_reads_determine(
            buf,
            Self::bit_fields(),
            a.bit_values(),
            b.bit_values(),
            Self::join_fields(),
            a.join_values(),
            b.join_values(),
            Self::tail(),
            a.tail_data(),
            b.tail_data(),
        );
        Self::lemma_values_determine(a, b);
    }

    /// A packet reads back from what it was encoded to.
    pub proof fn lemma_roundtrip(self, buf: Seq<u32>)
        requires
            Self::layout_wf(),
            self.fits(),
            buf.len() >= self.size(),
        ensures
            self.read_from(self.spec_encode(buf)),
            Self::decodable(self.spec_encode(buf)),
            self.spec_encode(buf).len() == buf.len(),
    {
        layout::lemma_packet_roundtrip(
            buf,
            Self::bit_fields(),
            self.bit_values(),
            Self::join_fields(),
            self.join_values(),
            Self::tail(),
            self.tail_data(),
            Self::STATIC_DWORDS as nat,
        );
    }
}

/// The `CopyTiledBc` packet.
#[derive(Clone, Copy, Default)]
pub struct CopyTiledBc {
    pub detile: bool,
    pub width: u16,
    pub height: u16,
    pub depth: u16,
    pub element_size: u8,
    pub array_mode: u8,
    pub mit_mode: u8,
    pub tilesplit_size: u8,
    pub bank_w: u8,
    pub bank_h: u8,
    pub num_bank: u8,
    pub mat_aspt: u8,
    pub pipe_config: u8,
    pub x: u16,
    pub y: u16,
    pub z: u16,
    pub linear_sw: u8,
    pub tile_sw: u8,
    pub linear_pitch: u32,
    pub count: u32,
    pub tiled_addr: u64,
    pub linear_addr: u64,
}

impl CopyTiledBc {
    /// Dwords of the packet before its variable-length tail.
    pub const STATIC_DWORDS: usize = 12;

    pub open spec fn bit_fields() -> Seq<BitField> {
        seq![BitField { dw: 0, mask: 0x1, shift: 31 }, BitField { dw: 3, mask: 0x3fff, shift: 0 }, BitField { dw: 4, mask: 0x3fff, shift: 0 }, BitField { dw: 4, mask: 0x7ff, shift: 16 }, BitField { dw: 5, mask: 0x7, shift: 0 }, BitField { dw: 5, mask: 0xf, shift: 3 }, BitField { dw: 5, mask: 0x7, shift: 8 }, BitField { dw: 5, mask: 0x7, shift: 11 }, BitField { dw: 5, mask: 0x3, shift: 15 }, BitField { dw: 5, mask: 0x3, shift: 18 }, BitField { dw: 5, mask: 0x3, shift: 21 }, BitField { dw: 5, mask: 0x3, shift: 24 }, BitField { dw: 5, mask: 0x1f, shift: 26 }, BitField { dw: 6, mask: 0x3fff, shift: 0 }, BitField { dw: 6, mask: 0x3fff, shift: 16 }, BitField { dw: 7, mask: 0x7ff, shift: 0 }, BitField { dw: 7, mask: 0x3, shift: 16 }, BitField { dw: 7, mask: 0x3, shift: 24 }, BitField { dw: 10, mask: 0x7ffff, shift: 0 }, BitField { dw: 11, mask: 0xfffff, shift: 2 }]
    }

    pub open spec fn join_fields() -> Seq<JoinField> {
        seq![JoinField { lo: 1, hi: 2 }, JoinField { lo: 8, hi: 9 }]
    }

    pub open spec fn tail() -> Option<DynField> {
        None
    }

    pub open spec fn bit_values(self) -> Seq<u32> {
        seq![layout::bool_bit(self.detile), self.width as u32, self.height as u32, self.depth as u32, self.element_size as u32, self.array_mode as u32, self.mit_mode as u32, self.tilesplit_size as u32, self.bank_w as u32, self.bank_h as u32, self.num_bank as u32, self.mat_aspt as u32, self.pipe_config as u32, self.x as u32, self.y as u32, self.z as u32, self.linear_sw as u32, self.tile_sw as u32, self.linear_pitch, self.count]
    }

    pub open spec fn join_values(self) -> Seq<u64> {
        seq![self.tiled_addr, self.linear_addr]
    }

    pub open spec fn tail_data(self) -> Seq<u32> {
        Seq::<u32>::empty()
    }

    /// Every field value fits its field.
    pub open spec fn fits(self) -> bool {
        layout::fields_fit(Self::bit_fields(), self.bit_values()) && layout::tail_fits(Self::tail(), self.tail_data())
    }

    pub open spec fn layout_wf() -> bool {
        layout::layout_wf(Self::bit_fields(), Self::join_fields(), Self::tail(), Self::STATIC_DWORDS as nat)
    }

    /// Dwords that the packet takes.
    pub open spec fn size(self) -> nat {
        (Self::STATIC_DWORDS + self.tail_data().len()) as nat
    }

    /// The buffer holds the whole packet.
    pub open spec fn decodable(buf: Seq<u32>) -> bool {
        buf.len() >= Self::STATIC_DWORDS
    }

    pub open spec fn spec_encode(self, buf: Seq<u32>) -> Seq<u32> {
        layout::encode_packet(
            buf,
            Self::bit_fields(),
            self.bit_values(),
            Self::join_fields(),
            self.join_values(),
            Self::tail(),
            self.tail_data(),
        )
    }

    /// `buf` holds this packet.
    pub open spec fn read_from(self, buf: Seq<u32>) -> bool {
        layout::packet_reads(
            buf,
            Self::bit_fields(),
            self.bit_values(),
            Self::join_fields(),
            self.join_values(),
            Self::tail(),
            self.tail_data(),
        )
    }

    fn exec_bit_fields() -> (r: Vec<BitField>)
        ensures
            r@ == Self::bit_fields(),
    {
        vec![BitField { dw: 0, mask: 0x1, shift: 31 }, BitField { dw: 3, mask: 0x3fff, shift: 0 }, BitField { dw: 4, mask: 0x3fff, shift: 0 }, BitField { dw: 4, mask: 0x7ff, shift: 16 }, BitField { dw: 5, mask: 0x7, shift: 0 }, BitField { dw: 5, mask: 0xf, shift: 3 }, BitField { dw: 5, mask: 0x7, shift: 8 }, BitField { dw: 5, mask: 0x7, shift: 11 }, BitField { dw: 5, mask: 0x3, shift: 15 }, BitField { dw: 5, mask: 0x3, shift: 18 }, BitField { dw: 5, mask: 0x3, shift: 21 }, BitField { dw: 5, mask: 0x3, shift: 24 }, BitField { dw: 5, mask: 0x1f, shift: 26 }, BitField { dw: 6, mask: 0x3fff, shift: 0 }, BitField { dw: 6, mask: 0x3fff, shift: 16 }, BitField { dw: 7, mask: 0x7ff, shift: 0 }, BitField { dw: 7, mask: 0x3, shift: 16 }, BitField { dw: 7, mask: 0x3, shift: 24 }, BitField { dw: 10, mask: 0x7ffff, shift: 0 }, BitField { dw: 11, mask: 0xfffff, shift: 2 }]
    }

    fn exec_join_fields() -> (r: Vec<JoinField>)
        ensures
            r@ == Self::join_fields(),
    {
        vec![JoinField { lo: 1, hi: 2 }, JoinField { lo: 8, hi: 9 }]
    }

    /// Whether the field layout of this packet is well formed.
    pub fn layout_ok() -> (r: bool)
        ensures
            r == Self::layout_wf(),
    {
        layout_is_wf(&Self::exec_bit_fields(), &Self::exec_join_fields(), None, Self::STATIC_DWORDS)
    }

    /// Writes the packet to the start of `buff`, without its header, and
    /// returns how many dwords it took.
    pub fn partial_encode_linear(&self, buff: &mut [u32]) -> (n: usize)
        requires
            old(buff)@.len() >= self.size(),
            self.fits(),
        ensures
            n == self.size(),
            final(buff)@ == self.spec_encode(old(buff)@),
            final(buff)@.len() == old(buff)@.len(),
    {
        let bits = Self::exec_bit_fields();
        let vals: Vec<u32> = vec![to_bit(self.detile), layout::widen_u16(self.width), layout::widen_u16(self.height), layout::widen_u16(self.depth), layout::widen_u8(self.element_size), layout::widen_u8(self.array_mode), layout::widen_u8(self.mit_mode), layout::widen_u8(self.tilesplit_size), layout::widen_u8(self.bank_w), layout::widen_u8(self.bank_h), layout::widen_u8(self.num_bank), layout::widen_u8(self.mat_aspt), layout::widen_u8(self.pipe_config), layout::widen_u16(self.x), layout::widen_u16(self.y), layout::widen_u16(self.z), layout::widen_u8(self.linear_sw), layout::widen_u8(self.tile_sw), self.linear_pitch, self.count];
        let joins = Self::exec_join_fields();
        let jvals: Vec<u64> = vec![self.tiled_addr, self.linear_addr];
        proof {
            assert(vals@ =~= self.bit_values());
            assert(jvals@ =~= self.join_values());
        }
        encode_bit_fields(&bits, &vals, buff);
        encode_join_fields(&joins, &jvals, buff);
        Self::STATIC_DWORDS
    }

    /// Reads the packet at the start of `buff` and returns how many dwords it
    /// took.
    #[verifier::rlimit(40)]
    pub fn partial_decode_linear(buff: &[u32]) -> (r: (usize, Self))
        requires
            Self::decodable(buff@),
        ensures
            r.0 == r.1.size(),
            r.1.read_from(buff@),
    {
        let bits = Self::exec_bit_fields();
        let v = decode_bit_fields(&bits, buff);
        let joins = Self::exec_join_fields();
        let j = decode_join_fields(&joins, buff);
        let p = Self { detile: v[0] != 0, width: layout::narrow_u16(v[1]), height: layout::narrow_u16(v[2]), depth: layout::narrow_u16(v[3]), element_size: layout::narrow_u8(v[4]), array_mode: layout::narrow_u8(v[5]), mit_mode: layout::narrow_u8(v[6]), tilesplit_size: layout::narrow_u8(v[7]), bank_w: layout::narrow_u8(v[8]), bank_h: layout::narrow_u8(v[9]), num_bank: layout::narrow_u8(v[10]), mat_aspt: layout::narrow_u8(v[11]), pipe_config: layout::narrow_u8(v[12]), x: layout::narrow_u16(v[13]), y: layout::narrow_u16(v[14]), z: layout::narrow_u16(v[15]), linear_sw: layout::narrow_u8(v[16]), tile_sw: layout::narrow_u8(v[17]), linear_pitch: v[18], count: v[19], tiled_addr: j[0], linear_addr: j[1] };
        proof {
            assert(p.bit_values() =~= v@);
            assert(p.join_values() =~= j@);
        }
        (Self::STATIC_DWORDS, p)
    }

    /// Where each field stands in a buffer that the packet is read from, as
    /// the packet header lays it out: a bit field under its mask and shift
    /// in its dword, a 64-bit field in two dwords, low half first. By
    /// `lemma_roundtrip`, encoding a packet puts its fields there.
    #[verifier::rlimit(40)]
    pub proof fn lemma_field_positions(self, buf: Seq<u32>)
        requires
            self.read_from(buf),
        ensures
            layout::bool_bit(self.detile) == layout::get_bits(buf[0], 0x1, 31),
            layout::u16_value(self.width) == layout::get_bits(buf[3], 0x3fff, 0),
            layout::u16_value(self.height) == layout::get_bits(buf[4], 0x3fff, 0),
            layout::u16_value(self.depth) == layout::get_bits(buf[4], 0x7ff, 16),
            layout::u8_value(self.element_size) == layout::get_bits(buf[5], 0x7, 0),
            layout::u8_value(self.array_mode) == layout::get_bits(buf[5], 0xf, 3),
            layout::u8_value(self.mit_mode) == layout::get_bits(buf[5], 0x7, 8),
            layout::u8_value(self.tilesplit_size) == layout::get_bits(buf[5], 0x7, 11),
            layout::u8_value(self.bank_w) == layout::get_bits(buf[5], 0x3, 15),
            layout::u8_value(self.bank_h) == layout::get_bits(buf[5], 0x3, 18),
            layout::u8_value(self.num_bank) == layout::get_bits(buf[5], 0x3, 21),
            layout::u8_value(self.mat_aspt) == layout::get_bits(buf[5], 0x3, 24),
            layout::u8_value(self.pipe_config) == layout::get_bits(buf[5], 0x1f, 26),
            layout::u16_value(self.x) == layout::get_bits(buf[6], 0x3fff, 0),
            layout::u16_value(self.y) == layout::get_bits(buf[6], 0x3fff, 16),
            layout::u16_value(self.z) == layout::get_bits(buf[7], 0x7ff, 0),
            layout::u8_value(self.linear_sw) == layout::get_bits(buf[7], 0x3, 16),
            layout::u8_value(self.tile_sw) == layout::get_bits(buf[7], 0x3, 24),
            self.linear_pitch == layout::get_bits(buf[10], 0x7ffff, 0),
            self.count == layout::get_bits(buf[11], 0xfffff, 2),
            self.tiled_addr == layout::dword_pair(buf[1], buf[2]),
            self.linear_addr == layout::dword_pair(buf[8], buf[9]),
    {
        assert(self.bit_values()[0] == layout::bool_bit(self.detile));
        assert(layout::decode_bits(buf, Self::bit_fields())[0] == self.bit_values()[0]);
        assert(self.bit_values()[1] == layout::u16_value(self.width));
        assert(layout::decode_bits(buf, Self::bit_fields())[1] == self.bit_values()[1]);
        assert(self.bit_values()[2] == layout::u16_value(self.height));
        assert(layout::decode_bits(buf, Self::bit_fields())[2] == self.bit_values()[2]);
        assert(self.bit_values()[3] == layout::u16_value(self.depth));
        assert(layout::decode_bits(buf, Self::bit_fields())[3] == self.bit_values()[3]);
        assert(self.bit_values()[4] == layout::u8_value(self.element_size));
        assert(layout::decode_bits(buf, Self::bit_fields())[4] == self.bit_values()[4]);
        assert(self.bit_values()[5] == layout::u8_value(self.array_mode));
        assert(layout::decode_bits(buf, Self::bit_fields())[5] == self.bit_values()[5]);
        assert(self.bit_values()[6] == layout::u8_value(self.mit_mode));
        assert(layout::decode_bits(buf, Self::bit_fields())[6] == self.bit_values()[6]);
        assert(self.bit_values()[7] == layout::u8_value(self.tilesplit_size));
        assert(layout::decode_bits(buf, Self::bit_fields())[7] == self.bit_values()[7]);
        assert(self.bit_values()[8] == layout::u8_value(self.bank_w));
        assert(layout::decode_bits(buf, Self::bit_fields())[8] == self.bit_values()[8]);
        assert(self.bit_values()[9] == layout::u8_value(self.bank_h));
        assert(layout::decode_bits(buf, Self::bit_fields())[9] == self.bit_values()[9]);
        assert(self.bit_values()[10] == layout::u8_value(self.num_bank));
        assert(layout::decode_bits(buf, Self::bit_fields())[10] == self.bit_values()[10]);
        assert(self.bit_values()[11] == layout::u8_value(self.mat_aspt));
        assert(layout::decode_bits(buf, Self::bit_fields())[11] == self.bit_values()[11]);
        assert(self.bit_values()[12] == layout::u8_value(self.pipe_config));
        assert(layout::decode_bits(buf, Self::bit_fields())[12] == self.bit_values()[12]);
        assert(self.bit_values()[13] == layout::u16_value(self.x));
        assert(layout::decode_bits(buf, Self::bit_fields())[13] == self.bit_values()[13]);
        assert(self.bit_values()[14] == layout::u16_value(self.y));
        assert(layout::decode_bits(buf, Self::bit_fields())[14] == self.bit_values()[14]);
        assert(self.bit_values()[15] == layout::u16_value(self.z));
        assert(layout::decode_bits(buf, Self::bit_fields())[15] == self.bit_values()[15]);
        assert(self.bit_values()[16] == layout::u8_value(self.linear_sw));
        assert(layout::decode_bits(buf, Self::bit_fields())[16] == self.bit_values()[16]);
        assert(self.bit_values()[17] == layout::u8_value(self.tile_sw));
        assert(layout::decode_bits(buf, Self::bit_fields())[17] == self.bit_values()[17]);
        assert(self.bit_values()[18] == self.linear_pitch);
        assert(layout::decode_bits(buf, Self::bit_fields())[18] == self.bit_values()[18]);
        assert(self.bit_values()[19] == self.count);
        assert(layout::decode_bits(buf, Self::bit_fields())[19] == self.bit_values()[19]);
        assert(layout::decode_joins(buf, Self::join_fields())[0] == self.join_values()[0]);
        assert(layout::decode_joins(buf, Self::join_fields())[1] == self.join_values()[1]);
    }

    /// The field values name the packet: two packets with the same values are
    /// equal.
    #[verifier::rlimit(40)]
    pub proof fn lemma_values_determine(a: Self, b: Self)
        requires
            a.bit_values() == b.bit_values(),
            a.join_values() == b.join_values(),
            a.tail_data() == b.tail_data(),
        ensures
            a == b,
    {
        assert(a.bit_values()[0] == layout::bool_bit(a.detile) && b.bit_values()[0] == layout::bool_bit(b.detile));
        assert(a.bit_values()[1] == layout::u16_value(a.width) && b.bit_values()[1] == layout::u16_value(b.width));
        assert(a.bit_values()[2] == layout::u16_value(a.height) && b.bit_values()[2] == layout::u16_value(b.height));
        assert(a.bit_values()[3] == layout::u16_value(a.depth) && b.bit_values()[3] == layout::u16_value(b.depth));
        assert(a.bit_values()[4] == layout::u8_value(a.element_size) && b.bit_values()[4] == layout::u8_value(b.element_size));
        assert(a.bit_values()[5] == layout::u8_value(a.array_mode) && b.bit_values()[5] == layout::u8_value(b.array_mode));
        assert(a.bit_values()[6] == layout::u8_value(a.mit_mode) && b.bit_values()[6] == layout::u8_value(b.mit_mode));
        assert(a.bit_values()[7] == layout::u8_value(a.tilesplit_size) && b.bit_values()[7] == layout::u8_value(b.tilesplit_size));
        assert(a.bit_values()[8] == layout::u8_value(a.bank_w) && b.bit_values()[8] == layout::u8_value(b.bank_w));
        assert(a.bit_values()[9] == layout::u8_value(a.bank_h) && b.bit_values()[9] == layout::u8_value(b.bank_h));
        assert(a.bit_values()[10] == layout::u8_value(a.num_bank) && b.bit_values()[10] == layout::u8_value(b.num_bank));
        assert(a.bit_values()[11] == layout::u8_value(a.mat_aspt) && b.bit_values()[11] == layout::u8_value(b.mat_aspt));
        assert(a.bit_values()[12] == layout::u8_value(a.pipe_config) && b.bit_values()[12] == layout::u8_value(b.pipe_config));
        assert(a.bit_values()[13] == layout::u16_value(a.x) && b.bit_values()[13] == layout::u16_value(b.x));
        assert(a.bit_values()[14] == layout::u16_value(a.y) && b.bit_values()[14] == layout::u16_value(b.y));
        assert(a.bit_values()[15] == layout::u16_value(a.z) && b.bit_values()[15] == layout::u16_value(b.z));
        assert(a.bit_values()[16] == layout::u8_value(a.linear_sw) && b.bit_values()[16] == layout::u8_value(b.linear_sw));
        assert(a.bit_values()[17] == layout::u8_value(a.tile_sw) && b.bit_values()[17] == layout::u8_value(b.tile_sw));
        assert(a.bit_values()[18] == a.linear_pitch && b.bit_values()[18] == b.linear_pitch);
        assert(a.bit_values()[19] == a.count && b.bit_values()[19] == b.count);
        assert(a.join_values()[0] == a.tiled_addr && b.join_values()[0] == b.tiled_addr);
        assert(a.join_values()[1] == a.linear_addr && b.join_values()[1] == b.linear_addr);
    }

    /// Reading a packet is exact: two packets read from one buffer are equal.
    pub proof fn lemma_read_unique(a: Self, b: Self, buf: Seq<u32>)
        requires
            a.read_from(buf),
            b.read_from(buf),
        ensures
            a == b,
    {
        layout::lemma_reads_determine(
            buf,
            Self::bit_fields(),
            a.bit_values(),
            b.bit_values(),
            Self::join_fields(),
            a.join_values(),
            b.join_values(),
            Self::tail(),
            a.tail_data(),
            b.tail_data(),
        );
        Self::lemma_values_determine(a, b);
    }

    /// A packet reads back from what it was encoded to.
    pub proof fn lemma_roundtrip(self, buf: Seq<u32>)
        requires
            Self::layout_wf(),
            self.fits(),
            buf.len() >= self.size(),
        ensures
            self.read_from(self.spec_encode(buf)),
            Self::decodable(self.spec_encode(buf)),
            self.spec_encode(buf).len() == buf.len(),
    {
        layout::lemma_packet_roundtrip(
            buf,
            Self::bit_fields(),
            self.bit_values(),
            Self::join_fields(),
            self.join_values(),
            Self::tail(),
            self.tail_data(),
            Self::STATIC_DWORDS as nat,
        );
    }
}

/// The `CopyL2tBroadcast` packet.
#[derive(Clone, Copy, Default)]
pub struct CopyL2tBroadcast {
    pub encrypt: bool,
    pub tmz: bool,
    pub videocopy: bool,
    pub broadcast: bool,
    pub width: u16,
    pub height: u16,
    pub depth: u16,
    pub element_size: u8,
    pub swizzle_mode: u8,
    pub dimension: u8,
    pub mip_max: u8,
    pub x: u16,
    pub y: u16,
    pub z: u16,
    pub dst2_sw: u8,
    pub linear_sw: u8,
    pub tile_sw: u8,
    pub linear_pitch: u32,
    pub count: u32,
    pub linear_slice_pitch: u32,
    pub tiled_addr0: u64,
    pub tiled_addr1: u64,
    pub linear_addr: u64,
}

impl CopyL2tBroadcast {
    /// Dwords of the packet before its variable-length tail.
    pub const STATIC_DWORDS: usize = 16;

    pub open spec fn bit_fields() -> Seq<BitField> {
        seq![BitField { dw: 0, mask: 0x1, shift: 16 }, BitField { dw: 0, mask: 0x1, shift: 18 }, BitField { dw: 0, mask: 0x1, shift: 26 }, BitField { dw: 0, mask: 0x1, shift: 27 }, BitField { dw: 5, mask: 0x3fff, shift: 0 }, BitField { dw: 6, mask: 0x3fff, shift: 0 }, BitField { dw: 6, mask: 0x1fff, shift: 16 }, BitField { dw: 7, mask: 0x7, shift: 0 }, BitField { dw: 7, mask: 0x1f, shift: 3 }, BitField { dw: 7, mask: 0x3, shift: 9 }, BitField { dw: 7, mask: 0xf, shift: 16 }, BitField { dw: 8, mask: 0x3fff, shift: 0 }, BitField { dw: 8, mask: 0x3fff, shift: 16 }, BitField { dw: 9, mask: 0x1fff, shift: 0 }, BitField { dw: 10, mask: 0x3, shift: 8 }, BitField { dw: 10, mask: 0x3, shift: 16 }, BitField { dw: 10, mask: 0x3, shift: 24 }, BitField { dw: 13, mask: 0x7ffff, shift: 0 }, BitField { dw: 15, mask: 0x3fffff, shift: 0 }, BitField { dw: 14, mask: 0xffffffff, shift: 0 }]
    }

    pub open spec fn join_fields() -> Seq<JoinField> {
        seq![JoinField { lo: 1, hi: 2 }, JoinField { lo: 3, hi: 4 }, JoinField { lo: 11, hi: 12 }]
    }

    pub open spec fn tail() -> Option<DynField> {
        None
    }

    pub open spec fn bit_values(self) -> Seq<u32> {
        seq![layout::bool_bit(self.encrypt), layout::bool_bit(self.tmz), layout::bool_bit(self.videocopy), layout::bool_bit(self.broadcast), self.width as u32, self.height as u32, self.depth as u32, self.element_size as u32, self.swizzle_mode as u32, self.dimension as u32, self.mip_max as u32, self.x as u32, self.y as u32, self.z as u32, self.dst2_sw as u32, self.linear_sw as u32, self.tile_sw as u32, self.linear_pitch, self.count, self.linear_slice_pitch]
    }

    pub open spec fn join_values(self) -> Seq<u64> {
        seq![self.tiled_addr0, self.tiled_addr1, self.linear_addr]
    }

    pub open spec fn tail_data(self) -> Seq<u32> {
        Seq::<u32>::empty()
    }

    /// Every field value fits its field.
    pub open spec fn fits(self) -> bool {
        layout::fields_fit(Self::bit_fields(), self.bit_values()) && layout::tail_fits(Self::tail(), self.tail_data())
    }

    pub open spec fn layout_wf() -> bool {
        layout::layout_wf(Self::bit_fields(), Self::join_fields(), Self::tail(), Self::STATIC_DWORDS as nat)
    }

    /// Dwords that the packet takes.
    pub open spec fn size(self) -> nat {
        (Self::STATIC_DWORDS + self.tail_data().len()) as nat
    }

    /// The buffer holds the whole packet.
    pub open spec fn decodable(buf: Seq<u32>) -> bool {
        buf.len() >= Self::STATIC_DWORDS
    }

    pub open spec fn spec_encode(self, buf: Seq<u32>) -> Seq<u32> {
        layout::encode_packet(
            buf,
            Self::bit_fields(),
            self.bit_values(),
            Self::join_fields(),
            self.join_values(),
            Self::tail(),
            self.tail_data(),
        )
    }

    /// `buf` holds this packet.
    pub open spec fn read_from(self, buf: Seq<u32>) -> bool {
        layout::packet_reads(
            buf,
            Self::bit_fields(),
            self.bit_values(),
            Self::join_fields(),
            self.join_values(),
            Self::tail(),
            self.tail_data(),
        )
    }

    fn exec_bit_fields() -> (r: Vec<BitField>)
        ensures
            r@ == Self::bit_fields(),
    {
        vec![BitField { dw: 0, mask: 0x1, shift: 16 }, BitField { dw: 0, mask: 0x1, shift: 18 }, BitField { dw: 0, mask: 0x1, shift: 26 }, BitField { dw: 0, mask: 0x1, shift: 27 }, BitField { dw: 5, mask: 0x3fff, shift: 0 }, BitField { dw: 6, mask: 0x3fff, shift: 0 }, BitField { dw: 6, mask: 0x1fff, shift: 16 }, BitField { dw: 7, mask: 0x7, shift: 0 }, BitField { dw: 7, mask: 0x1f, shift: 3 }, BitField { dw: 7, mask: 0x3, shift: 9 }, BitField { dw: 7, mask: 0xf, shift: 16 }, BitField { dw: 8, mask: 0x3fff, shift: 0 }, BitField { dw: 8, mask: 0x3fff, shift: 16 }, BitField { dw: 9, mask: 0x1fff, shift: 0 }, BitField { dw: 10, mask: 0x3, shift: 8 }, BitField { dw: 10, mask: 0x3, shift: 16 }, BitField { dw: 10, mask: 0x3, shift: 24 }, BitField { dw: 13, mask: 0x7ffff, shift: 0 }, BitField { dw: 15, mask: 0x3fffff, shift: 0 }, BitField { dw: 14, mask: 0xffffffff, shift: 0 }]
    }

    fn exec_join_fields() -> (r: Vec<JoinField>)
        ensures
            r@ == Self::join_fields(),
    {
        vec![JoinField { lo: 1, hi: 2 }, JoinField { lo: 3, hi: 4 }, JoinField { lo: 11, hi: 12 }]
    }

    /// Whether the field layout of this packet is well formed.
    pub fn layout_ok() -> (r: bool)
        ensures
            r == Self::layout_wf(),
    {
        layout_is_wf(&Self::exec_bit_fields(), &Self::exec_join_fields(), None, Self::STATIC_DWORDS)
    }

    /// Writes the packet to the start of `buff`, without its header, and
    /// returns how many dwords it took.
    pub fn partial_encode_linear(&self, buff: &mut [u32]) -> (n: usize)
        requires
            old(buff)@.len() >= self.size(),
            self.fits(),
        ensures
            n == self.size(),
            final(buff)@ == self.spec_encode(old(buff)@),
            final(buff)@.len() == old(buff)@.len(),
    {
        let bits = Self::exec_bit_fields();
        let vals: Vec<u32> = vec![to_bit(self.encrypt), to_bit(self.tmz), to_bit(self.videocopy), to_bit(self.broadcast), layout::widen_u16(self.width), layout::widen_u16(self.height), layout::widen_u16(self.depth), layout::widen_u8(self.element_size), layout::widen_u8(self.swizzle_mode), layout::widen_u8(self.dimension), layout::widen_u8(self.mip_max), layout::widen_u16(self.x), layout::widen_u16(self.y), layout::widen_u16(self.z), layout::widen_u8(self.dst2_sw), layout::widen_u8(self.linear_sw), layout::widen_u8(self.tile_sw), self.linear_pitch, self.count, self.linear_slice_pitch];
        let joins = Self::exec_join_fields();
        let jvals: Vec<u64> = vec![self.tiled_addr0, self.tiled_addr1, self.linear_addr];
        proof {
            assert(vals@ =~= self.bit_values());
            assert(jvals@ =~= self.join_values());
        }
        encode_bit_fields(&bits, &vals, buff);
        encode_join_fields(&joins, &jvals, buff);
        Self::STATIC_DWORDS
    }

    /// Reads the packet at the start of `buff` and returns how many dwords it
    /// took.
    #[verifier::rlimit(40)]
    pub fn partial_decode_linear(buff: &[u32]) -> (r: (usize, Self))
        requires
            Self::decodable(buff@),
        ensures
            r.0 == r.1.size(),
            r.1.read_from(buff@),
    {
        let bits = Self::exec_bit_fields();
        let v = decode_bit_fields(&bits, buff);
        let joins = Self::exec_join_fields();
        let j = decode_join_fields(&joins, buff);
        let p = Self { encrypt: v[0] != 0, tmz: v[1] != 0, videocopy: v[2] != 0, broadcast: v[3] != 0, width: layout::narrow_u16(v[4]), height: layout::narrow_u16(v[5]), depth: layout::narrow_u16(v[6]), element_size: layout::narrow_u8(v[7]), swizzle_mode: layout::narrow_u8(v[8]), dimension: layout::narrow_u8(v[9]), mip_max: layout::narrow_u8(v[10]), x: layout::narrow_u16(v[11]), y: layout::narrow_u16(v[12]), z: layout::narrow_u16(v[13]), dst2_sw: layout::narrow_u8(v[14]), linear_sw: layout::narrow_u8(v[15]), tile_sw: layout::narrow_u8(v[16]), linear_pitch: v[17], count: v[18], linear_slice_pitch: v[19], tiled_addr0: j[0], tiled_addr1: j[1], linear_addr: j[2] };
        proof {
            assert(p.bit_values() =~= v@);
            assert(p.join_values() =~= j@);
        }
        (Self::STATIC_DWORDS, p)
    }

    /// Where each field stands in a buffer that the packet is read from, as
    /// the packet header lays it out: a bit field under its mask and shift
    /// in its dword, a 64-bit field in two dwords, low half first. By
    /// `lemma_roundtrip`, encoding a packet puts its fields there.
    #[verifier::rlimit(40)]
    pub proof fn lemma_field_positions(self, buf: Seq<u32>)
        requires
            self.read_from(buf),
        ensures
            layout::bool_bit(self.encrypt) == layout::get_bits(buf[0], 0x1, 16),
            layout::bool_bit(self.tmz) == layout::get_bits(buf[0], 0x1, 18),
            layout::bool_bit(self.videocopy) == layout::get_bits(buf[0], 0x1, 26),
            layout::bool_bit(self.broadcast) == layout::get_bits(buf[0], 0x1, 27),
            layout::u16_value(self.width) == layout::get_bits(buf[5], 0x3fff, 0),
            layout::u16_value(self.height) == layout::get_bits(buf[6], 0x3fff, 0),
            layout::u16_value(self.depth) == layout::get_bits(buf[6], 0x1fff, 16),
            layout::u8_value(self.element_size) == layout::get_bits(buf[7], 0x7, 0),
            layout::u8_value(self.swizzle_mode) == layout::get_bits(buf[7], 0x1f, 3),
            layout::u8_value(self.dimension) == layout::get_bits(buf[7], 0x3, 9),
            layout::u8_value(self.mip_max) == layout::get_bits(buf[7], 0xf, 16),
            layout::u16_value(self.x) == layout::get_bits(buf[8], 0x3fff, 0),
            layout::u16_value(self.y) == layout::get_bits(buf[8], 0x3fff, 16),
            layout::u16_value(self.z) == layout::get_bits(buf[9], 0x1fff, 0),
            layout::u8_value(self.dst2_sw) == layout::get_bits(buf[10], 0x3, 8),
            layout::u8_value(self.linear_sw) == layout::get_bits(buf[10], 0x3, 16),
            layout::u8_value(self.tile_sw) == layout::get_bits(buf[10], 0x3, 24),
            self.linear_pitch == layout::get_bits(buf[13], 0x7ffff, 0),
            self.count == layout::get_bits(buf[15], 0x3fffff, 0),
            self.linear_slice_pitch == layout::get_bits(buf[14], 0xffffffff, 0),
            self.tiled_addr0 == layout::dword_pair(buf[1], buf[2]),
            self.tiled_addr1 == layout::dword_pair(buf[3], buf[4]),
            self.linear_addr == layout::dword_pair(buf[11], buf[12]),
    {
        assert(self.bit_values()[0] == layout::bool_bit(self.encrypt));
        assert(layout::decode_bits(buf, Self::bit_fields())[0] == self.bit_values()[0]);
        assert(self.bit_values()[1] == layout::bool_bit(self.tmz));
        assert(layout::decode_bits(buf, Self::bit_fields())[1] == self.bit_values()[1]);
        assert(self.bit_values()[2] == layout::bool_bit(self.videocopy));
        assert(layout::decode_bits(buf, Self::bit_fields())[2] == self.bit_values()[2]);
        assert(self.bit_values()[3] == layout::bool_bit(self.broadcast));
        assert(layout::decode_bits(buf, Self::bit_fields())[3] == self.bit_values()[3]);
        assert(self.bit_values()[4] == layout::u16_value(self.width));
        assert(layout::decode_bits(buf, Self::bit_fields())[4] == self.bit_values()[4]);
        assert(self.bit_values()[5] == layout::u16_value(self.height));
        assert(layout::decode_bits(buf, Self::bit_fields())[5] == self.bit_values()[5]);
        assert(self.bit_values()[6] == layout::u16_value(self.depth));
        assert(layout::decode_bits(buf, Self::bit_fields())[6] == self.bit_values()[6]);
        assert(self.bit_values()[7] == layout::u8_value(self.element_size));
        assert(layout::decode_bits(buf, Self::bit_fields())[7] == self.bit_values()[7]);
        assert(self.bit_values()[8] == layout::u8_value(self.swizzle_mode));
        assert(layout::decode_bits(buf, Self::bit_fields())[8] == self.bit_values()[8]);
        assert(self.bit_values()[9] == layout::u8_value(self.dimension));
        assert(layout::decode_bits(buf, Self::bit_fields())[9] == self.bit_values()[9]);
        assert(self.bit_values()[10] == layout::u8_value(self.mip_max));
        assert(layout::decode_bits(buf, Self::bit_fields())[10] == self.bit_values()[10]);
        assert(self.bit_values()[11] == layout::u16_value(self.x));
        assert(layout::decode_bits(buf, Self::bit_fields())[11] == self.bit_values()[11]);
        assert(self.bit_values()[12] == layout::u16_value(self.y));
        assert(layout::decode_bits(buf, Self::bit_fields())[12] == self.bit_values()[12]);
        assert(self.bit_values()[13] == layout::u16_value(self.z));
        assert(layout::decode_bits(buf, Self::bit_fields())[13] == self.bit_values()[13]);
        assert(self.bit_values()[14] == layout::u8_value(self.dst2_sw));
        assert(layout::decode_bits(buf, Self::bit_fields())[14] == self.bit_values()[14]);
        assert(self.bit_values()[15] == layout::u8_value(self.linear_sw));
        assert(layout::decode_bits(buf, Self::bit_fields())[15] == self.bit_values()[15]);
        assert(self.bit_values()[16] == layout::u8_value(self.tile_sw));
        assert(layout::decode_bits(buf, Self::bit_fields())[16] == self.bit_values()[16]);
        assert(self.bit_values()[17] == self.linear_pitch);
        assert(layout::decode_bits(buf, Self::bit_fields())[17] == self.bit_values()[17]);
        assert(self.bit_values()[18] == self.count);
        assert(layout::decode_bits(buf, Self::bit_fields())[18] == self.bit_values()[18]);
        assert(self.bit_values()[19] == self.linear_slice_pitch);
        assert(layout::decode_bits(buf, Self::bit_fields())[19] == self.bit_values()[19]);
        assert(layout::decode_joins(buf, Self::join_fields())[0] == self.join_values()[0]);
        assert(layout::decode_joins(buf, Self::join_fields())[1] == self.join_values()[1]);
        assert(layout::decode_joins(buf, Self::join_fields())[2] == self.join_values()[2]);
    }

    /// The field values name the packet: two packets with the same values are
    /// equal.
    #[verifier::rlimit(40)]
    pub proof fn lemma_values_determine(a: Self, b: Self)
        requires
            a.bit_values() == b.bit_values(),
            a.join_values() == b.join_values(),
            a.tail_data() == b.tail_data(),
        ensures
            a == b,
    {
        assert(a.bit_values()[0] == layout::bool_bit(a.encrypt) && b.bit_values()[0] == layout::bool_bit(b.encrypt));
        assert(a.bit_values()[1] == layout::bool_bit(a.tmz) && b.bit_values()[1] == layout::bool_bit(b.tmz));
        assert(a.bit_values()[2] == layout::bool_bit(a.videocopy) && b.bit_values()[2] == layout::bool_bit(b.videocopy));
        assert(a.bit_values()[3] == layout::bool_bit(a.broadcast) && b.bit_values()[3] == layout::bool_bit(b.broadcast));
        assert(a.bit_values()[4] == layout::u16_value(a.width) && b.bit_values()[4] == layout::u16_value(b.width));
        assert(a.bit_values()[5] == layout::u16_value(a.height) && b.bit_values()[5] == layout::u16_value(b.height));
        assert(a.bit_values()[6] == layout::u16_value(a.depth) && b.bit_values()[6] == layout::u16_value(b.depth));
        assert(a.bit_values()[7] == layout::u8_value(a.element_size) && b.bit_values()[7] == layout::u8_value(b.element_size));
        assert(a.bit_values()[8] == layout::u8_value(a.swizzle_mode) && b.bit_values()[8] == layout::u8_value(b.swizzle_mode));
        assert(a.bit_values()[9] == layout::u8_value(a.dimension) && b.bit_values()[9] == layout::u8_value(b.dimension));
        assert(a.bit_values()[10] == layout::u8_value(a.mip_max) && b.bit_values()[10] == layout::u8_value(b.mip_max));
        assert(a.bit_values()[11] == layout::u16_value(a.x) && b.bit_values()[11] == layout::u16_value(b.x));
        assert(a.bit_values()[12] == layout::u16_value(a.y) && b.bit_values()[12] == layout::u16_value(b.y));
        assert(a.bit_values()[13] == layout::u16_value(a.z) && b.bit_values()[13] == layout::u16_value(b.z));
        assert(a.bit_values()[14] == layout::u8_value(a.dst2_sw) && b.bit_values()[14] == layout::u8_value(b.dst2_sw));
        assert(a.bit_values()[15] == layout::u8_value(a.linear_sw) && b.bit_values()[15] == layout::u8_value(b.linear_sw));
        assert(a.bit_values()[16] == layout::u8_value(a.tile_sw) && b.bit_values()[16] == layout::u8_value(b.tile_sw));
        assert(a.bit_values()[17] == a.linear_pitch && b.bit_values()[17] == b.linear_pitch);
        assert(a.bit_values()[18] == a.count && b.bit_values()[18] == b.count);
        assert(a.bit_values()[19] == a.linear_slice_pitch && b.bit_values()[19] == b.linear_slice_pitch);
        assert(a.join_values()[0] == a.tiled_addr0 && b.join_values()[0] == b.tiled_addr0);
        assert(a.join_values()[1] == a.tiled_addr1 && b.join_values()[1] == b.tiled_addr1);
        assert(a.join_values()[2] == a.linear_addr && b.join_values()[2] == b.linear_addr);
    }

    /// Reading a packet is exact: two packets read from one buffer are equal.
    pub proof fn lemma_read_unique(a: Self, b: Self, buf: Seq<u32>)
        requires
            a.read_from(buf),
            b.read_from(buf),
        ensures
            a == b,
    {
        layout::lemma_reads_determine(
            buf,
            Self::bit_fields(),
            a.bit_values(),
            b.bit_values(),
            Self::join_fields(),
            a.join_values(),
            b.join_values(),
            Self::tail(),
            a.tail_data(),
            b.tail_data(),
        );
        Self::lemma_values_determine(a, b);
    }

    /// A packet reads back from what it was encoded to.
    pub proof fn lemma_roundtrip(self, buf: Seq<u32>)
        requires
            Self::layout_wf(),
            self.fits(),
            buf.len() >= self.size(),
        ensures
            self.read_from(self.spec_encode(buf)),
            Self::decodable(self.spec_encode(buf)),
            self.spec_encode(buf).len() == buf.len(),
    {
        layout::lemma_packet_roundtrip(
            buf,
            Self::bit_fields(),
            self.bit_values(),
            Self::join_fields(),
            self.join_values(),
            Self::tail(),
            self.tail_data(),
            Self::STATIC_DWORDS as nat,
        );
    }
}

/// The `CopyT2t` packet.
#[derive(Clone, Copy, Default)]
pub struct CopyT2t {
    pub tmz: bool,
    pub dcc: bool,
    pub dcc_dir: bool,
    pub src_x: u16,
    pub src_y: u16,
    pub src_z: u16,
    pub src_width: u16,
    pub src_height: u16,
    pub src_depth: u16,
    pub src_element_size: u8,
    pub src_swizzle_mode: u8,
    pub src_dimension: u8,
    pub src_mip_max: u8,
    pub src_mip_id: u8,
    pub dst_x: u16,
    pub dst_y: u16,
    pub dst_z: u16,
    pub dst_width: u16,
    pub dst_height: u16,
    pub dst_depth: u16,
    pub dst_element_size: u8,
    pub dst_swizzle_mode: u8,
    pub dst_dimension: u8,
    pub dst_mip_max: u8,
    pub dst_mip_id: u8,
    pub rect_x: u16,
    pub rect_y: u16,
    pub rect_z: u16,
    pub dst_sw: u8,
    pub src_sw: u8,
    pub data_format: u8,
    pub color_transform_disable: bool,
    pub alpha_is_on_msb: bool,
    pub number_type: u8,
    pub surface_type: u8,
    pub max_comp_block_size: u8,
    pub max_uncomp_block_size: u8,
    pub write_compress_enable: bool,
    pub meta_tmz: bool,
    pub src_addr: u64,
    pub dst_addr: u64,
    pub meta_addr: u64,
}

impl CopyT2t {
    /// Dwords of the packet before its variable-length tail.
    pub const STATIC_DWORDS: usize = 18;

    pub open spec fn bit_fields() -> Seq<BitField> {
        seq![BitField { dw: 0, mask: 0x1, shift: 18 }, BitField { dw: 0, mask: 0x1, shift: 19 }, BitField { dw: 0, mask: 0x1, shift: 31 }, BitField { dw: 3, mask: 0x3fff, shift: 0 }, BitField { dw: 3, mask: 0x3fff, shift: 16 }, BitField { dw: 4, mask: 0x1fff, shift: 0 }, BitField { dw: 4, mask: 0x3fff, shift: 16 }, BitField { dw: 5, mask: 0x3fff, shift: 0 }, BitField { dw: 5, mask: 0x1fff, shift: 16 }, BitField { dw: 6, mask: 0x7, shift: 0 }, BitField { dw: 6, mask: 0x1f, shift: 3 }, BitField { dw: 6, mask: 0x3, shift: 9 }, BitField { dw: 6, mask: 0xf, shift: 16 }, BitField { dw: 6, mask: 0xf, shift: 20 }, BitField { dw: 9, mask: 0x3fff, shift: 0 }, BitField { dw: 9, mask: 0x3fff, shift: 16 }, BitField { dw: 10, mask: 0x1fff, shift: 0 }, BitField { dw: 10, mask: 0x3fff, shift: 16 }, BitField { dw: 11, mask: 0x3fff, shift: 0 }, BitField { dw: 11, mask: 0x1fff, shift: 16 }, BitField { dw: 12, mask: 0x7, shift: 0 }, BitField { dw: 12, mask: 0x1f, shift: 3 }, BitField { dw: 12, mask: 0x3, shift: 9 }, BitField { dw: 12, mask: 0xf, shift: 16 }, BitField { dw: 12, mask: 0xf, shift: 20 }, BitField { dw: 13, mask: 0x3fff, shift: 0 }, BitField { dw: 13, mask: 0x3fff, shift: 16 }, BitField { dw: 14, mask: 0x1fff, shift: 0 }, BitField { dw: 14, mask: 0x3, shift: 16 }, BitField { dw: 14, mask: 0x3, shift: 24 }, BitField { dw: 17, mask: 0x7f, shift: 0 }, BitField { dw: 17, mask: 0x1, shift: 7 }, BitField { dw: 17, mask: 0x1, shift: 8 }, BitField { dw: 17, mask: 0x7, shift: 9 }, BitField { dw: 17, mask: 0x3, shift: 12 }, BitField { dw: 17, mask: 0x3, shift: 24 }, BitField { dw: 17, mask: 0x3, shift: 26 }, BitField { dw: 17, mask: 0x1, shift: 28 }, BitField { dw: 17, mask: 0x1, shift: 29 }]
    }

    pub open spec fn join_fields() -> Seq<JoinField> {
        seq![JoinField { lo: 1, hi: 2 }, JoinField { lo: 7, hi: 8 }, JoinField { lo: 15, hi: 16 }]
    }

    pub open spec fn tail() -> Option<DynField> {
        None
    }

    pub open spec fn bit_values(self) -> Seq<u32> {
        seq![layout::bool_bit(self.tmz), layout::bool_bit(self.dcc), layout::bool_bit(self.dcc_dir), self.src_x as u32, self.src_y as u32, self.src_z as u32, self.src_width as u32, self.src_height as u32, self.src_depth as u32, self.src_element_size as u32, self.src_swizzle_mode as u32, self.src_dimension as u32, self.src_mip_max as u32, self.src_mip_id as u32, self.dst_x as u32, self.dst_y as u32, self.dst_z as u32, self.dst_width as u32, self.dst_height as u32, self.dst_depth as u32, self.dst_element_size as u32, self.dst_swizzle_mode as u32, self.dst_dimension as u32, self.dst_mip_max as u32, self.dst_mip_id as u32, self.rect_x as u32, self.rect_y as u32, self.rect_z as u32, self.dst_sw as u32, self.src_sw as u32, self.data_format as u32, layout::bool_bit(self.color_transform_disable), layout::bool_bit(self.alpha_is_on_msb), self.number_type as u32, self.surface_type as u32, self.max_comp_block_size as u32, self.max_uncomp_block_size as u32, layout::bool_bit(self.write_compress_enable), layout::bool_bit(self.meta_tmz)]
    }

    pub open spec fn join_values(self) -> Seq<u64> {
        seq![self.src_addr, self.dst_addr, self.meta_addr]
    }

    pub open spec fn tail_data(self) -> Seq<u32> {
        Seq::<u32>::empty()
    }

    /// Every field value fits its field.
    pub open spec fn fits(self) -> bool {
        layout::fields_fit(Self::bit_fields(), self.bit_values()) && layout::tail_fits(Self::tail(), self.tail_data())
    }

    pub open spec fn layout_wf() -> bool {
        layout::layout_wf(Self::bit_fields(), Self::join_fields(), Self::tail(), Self::STATIC_DWORDS as nat)
    }

    /// Dwords that the packet takes.
    pub open spec fn size(self) -> nat {
        (Self::STATIC_DWORDS + self.tail_data().len()) as nat
    }

    /// The buffer holds the whole packet.
    pub open spec fn decodable(buf: Seq<u32>) -> bool {
        buf.len() >= Self::STATIC_DWORDS
    }

    pub open spec fn spec_encode(self, buf: Seq<u32>) -> Seq<u32> {
        layout::encode_packet(
            buf,
            Self::bit_fields(),
            self.bit_values(),
            Self::join_fields(),
            self.join_values(),
            Self::tail(),
            self.tail_data(),
        )
    }

    /// `buf` holds this packet.
    pub open spec fn read_from(self, buf: Seq<u32>) -> bool {
        layout::packet_reads(
            buf,
            Self::bit_fields(),
            self.bit_values(),
            Self::join_fields(),
            self.join_values(),
            Self::tail(),
            self.tail_data(),
        )
    }

    fn exec_bit_fields() -> (r: Vec<BitField>)
        ensures
            r@ == Self::bit_fields(),
    {
        vec![BitField { dw: 0, mask: 0x1, shift: 18 }, BitField { dw: 0, mask: 0x1, shift: 19 }, BitField { dw: 0, mask: 0x1, shift: 31 }, BitField { dw: 3, mask: 0x3fff, shift: 0 }, BitField { dw: 3, mask: 0x3fff, shift: 16 }, BitField { dw: 4, mask: 0x1fff, shift: 0 }, BitField { dw: 4, mask: 0x3fff, shift: 16 }, BitField { dw: 5, mask: 0x3fff, shift: 0 }, BitField { dw: 5, mask: 0x1fff, shift: 16 }, BitField { dw: 6, mask: 0x7, shift: 0 }, BitField { dw: 6, mask: 0x1f, shift: 3 }, BitField { dw: 6, mask: 0x3, shift: 9 }, BitField { dw: 6, mask: 0xf, shift: 16 }, BitField { dw: 6, mask: 0xf, shift: 20 }, BitField { dw: 9, mask: 0x3fff, shift: 0 }, BitField { dw: 9, mask: 0x3fff, shift: 16 }, BitField { dw: 10, mask: 0x1fff, shift: 0 }, BitField { dw: 10, mask: 0x3fff, shift: 16 }, BitField { dw: 11, mask: 0x3fff, shift: 0 }, BitField { dw: 11, mask: 0x1fff, shift: 16 }, BitField { dw: 12, mask: 0x7, shift: 0 }, BitField { dw: 12, mask: 0x1f, shift: 3 }, BitField { dw: 12, mask: 0x3, shift: 9 }, BitField { dw: 12, mask: 0xf, shift: 16 }, BitField { dw: 12, mask: 0xf, shift: 20 }, BitField { dw: 13, mask: 0x3fff, shift: 0 }, BitField { dw: 13, mask: 0x3fff, shift: 16 }, BitField { dw: 14, mask: 0x1fff, shift: 0 }, BitField { dw: 14, mask: 0x3, shift: 16 }, BitField { dw: 14, mask: 0x3, shift: 24 }, BitField { dw: 17, mask: 0x7f, shift: 0 }, BitField { dw: 17, mask: 0x1, shift: 7 }, BitField { dw: 17, mask: 0x1, shift: 8 }, BitField { dw: 17, mask: 0x7, shift: 9 }, BitField { dw: 17, mask: 0x3, shift: 12 }, BitField { dw: 17, mask: 0x3, shift: 24 }, BitField { dw: 17, mask: 0x3, shift: 26 }, BitField { dw: 17, mask: 0x1, shift: 28 }, BitField { dw: 17, mask: 0x1, shift: 29 }]
    }

    fn exec_join_fields() -> (r: Vec<JoinField>)
        ensures
            r@ == Self::join_fields(),
    {
        vec![JoinField { lo: 1, hi: 2 }, JoinField { lo: 7, hi: 8 }, JoinField { lo: 15, hi: 16 }]
    }

    /// Whether the field layout of this packet is well formed.
    pub fn layout_ok() -> (r: bool)
        ensures
            r == Self::layout_wf(),
    {
        layout_is_wf(&Self::exec_bit_fields(), &Self::exec_join_fields(), None, Self::STATIC_DWORDS)
    }

    /// Writes the packet to the start of `buff`, without its header, and
    /// returns how many dwords it took.
    pub fn partial_encode_linear(&self, buff: &mut [u32]) -> (n: usize)
        requires
            old(buff)@.len() >= self.size(),
            self.fits(),
        ensures
            n == self.size(),
            final(buff)@ == self.spec_encode(old(buff)@),
            final(buff)@.len() == old(buff)@.len(),
    {
        let bits = Self::exec_bit_fields();
        let vals: Vec<u32> = vec![to_bit(self.tmz), to_bit(self.dcc), to_bit(self.dcc_dir), layout::widen_u16(self.src_x), layout::widen_u16(self.src_y), layout::widen_u16(self.src_z), layout::widen_u16(self.src_width), layout::widen_u16(self.src_height), layout::widen_u16(self.src_depth), layout::widen_u8(self.src_element_size), layout::widen_u8(self.src_swizzle_mode), layout::widen_u8(self.src_dimension), layout::widen_u8(self.src_mip_max), layout::widen_u8(self.src_mip_id), layout::widen_u16(self.dst_x), layout::widen_u16(self.dst_y), layout::widen_u16(self.dst_z), layout::widen_u16(self.dst_width), layout::widen_u16(self.dst_height), layout::widen_u16(self.dst_depth), layout::widen_u8(self.dst_element_size), layout::widen_u8(self.dst_swizzle_mode), layout::widen_u8(self.dst_dimension), layout::widen_u8(self.dst_mip_max), layout::widen_u8(self.dst_mip_id), layout::widen_u16(self.rect_x), layout::widen_u16(self.rect_y), layout::widen_u16(self.rect_z), layout::widen_u8(self.dst_sw), layout::widen_u8(self.src_sw), layout::widen_u8(self.data_format), to_bit(self.color_transform_disable), to_bit(self.alpha_is_on_msb), layout::widen_u8(self.number_type), layout::widen_u8(self.surface_type), layout::widen_u8(self.max_comp_block_size), layout::widen_u8(self.max_uncomp_block_size), to_bit(self.write_compress_enable), to_bit(self.meta_tmz)];
        let joins = Self::exec_join_fields();
        let jvals: Vec<u64> = vec![self.src_addr, self.dst_addr, self.meta_addr];
        proof {
            assert(vals@ =~= self.bit_values());
            assert(jvals@ =~= self.join_values());
        }
        encode_bit_fields(&bits, &vals, buff);
        encode_join_fields(&joins, &jvals, buff);
        Self::STATIC_DWORDS
    }

    /// Reads the packet at the start of `buff` and returns how many dwords it
    /// took.
    #[verifier::rlimit(40)]
    pub fn partial_decode_linear(buff: &[u32]) -> (r: (usize, Self))
        requires
            Self::decodable(buff@),
        ensures
            r.0 == r.1.size(),
            r.1.read_from(buff@),
    {
        let bits = Self::exec_bit_fields();
        let v = decode_bit_fields(&bits, buff);
        let joins = Self::exec_join_fields();
        let j = decode_join_fields(&joins, buff);
        let p = Self { tmz: v[0] != 0, dcc: v[1] != 0, dcc_dir: v[2] != 0, src_x: layout::narrow_u16(v[3]), src_y: layout::narrow_u16(v[4]), src_z: layout::narrow_u16(v[5]), src_width: layout::narrow_u16(v[6]), src_height: layout::narrow_u16(v[7]), src_depth: layout::narrow_u16(v[8]), src_element_size: layout::narrow_u8(v[9]), src_swizzle_mode: layout::narrow_u8(v[10]), src_dimension: layout::narrow_u8(v[11]), src_mip_max: layout::narrow_u8(v[12]), src_mip_id: layout::narrow_u8(v[13]), dst_x: layout::narrow_u16(v[14]), dst_y: layout::narrow_u16(v[15]), dst_z: layout::narrow_u16(v[16]), dst_width: layout::narrow_u16(v[17]), dst_height: layout::narrow_u16(v[18]), dst_depth: layout::narrow_u16(v[19]), dst_element_size: layout::narrow_u8(v[20]), dst_swizzle_mode: layout::narrow_u8(v[21]), dst_dimension: layout::narrow_u8(v[22]), dst_mip_max: layout::narrow_u8(v[23]), dst_mip_id: layout::narrow_u8(v[24]), rect_x: layout::narrow_u16(v[25]), rect_y: layout::narrow_u16(v[26]), rect_z: layout::narrow_u16(v[27]), dst_sw: layout::narrow_u8(v[28]), src_sw: layout::narrow_u8(v[29]), data_format: layout::narrow_u8(v[30]), color_transform_disable: v[31] != 0, alpha_is_on_msb: v[32] != 0, number_type: layout::narrow_u8(v[33]), surface_type: layout::narrow_u8(v[34]), max_comp_block_size: layout::narrow_u8(v[35]), max_uncomp_block_size: layout::narrow_u8(v[36]), write_compress_enable: v[37] != 0, meta_tmz: v[38] != 0, src_addr: j[0], dst_addr: j[1], meta_addr: j[2] };
        proof {
            assert(p.bit_values() =~= v@);
            assert(p.join_values() =~= j@);
        }
        (Self::STATIC_DWORDS, p)
    }

    /// Where each field stands in a buffer that the packet is read from, as
    /// the packet header lays it out: a bit field under its mask and shift
    /// in its dword, a 64-bit field in two dwords, low half first. By
    /// `lemma_roundtrip`, encoding a packet puts its fields there.
    #[verifier::rlimit(40)]
    pub proof fn lemma_field_positions(self, buf: Seq<u32>)
        requires
            self.read_from(buf),
        ensures
            layout::bool_bit(self.tmz) == layout::get_bits(buf[0], 0x1, 18),
            layout::bool_bit(self.dcc) == layout::get_bits(buf[0], 0x1, 19),
            layout::bool_bit(self.dcc_dir) == layout::get_bits(buf[0], 0x1, 31),
            layout::u16_value(self.src_x) == layout::get_bits(buf[3], 0x3fff, 0),
            layout::u16_value(self.src_y) == layout::get_bits(buf[3], 0x3fff, 16),
            layout::u16_value(self.src_z) == layout::get_bits(buf[4], 0x1fff, 0),
            layout::u16_value(self.src_width) == layout::get_bits(buf[4], 0x3fff, 16),
            layout::u16_value(self.src_height) == layout::get_bits(buf[5], 0x3fff, 0),
            layout::u16_value(self.src_depth) == layout::get_bits(buf[5], 0x1fff, 16),
            layout::u8_value(self.src_element_size) == layout::get_bits(buf[6], 0x7, 0),
            layout::u8_value(self.src_swizzle_mode) == layout::get_bits(buf[6], 0x1f, 3),
            layout::u8_value(self.src_dimension) == layout::get_bits(buf[6], 0x3, 9),
            layout::u8_value(self.src_mip_max) == layout::get_bits(buf[6], 0xf, 16),
            layout::u8_value(self.src_mip_id) == layout::get_bits(buf[6], 0xf, 20),
            layout::u16_value(self.dst_x) == layout::get_bits(buf[9], 0x3fff, 0),
            layout::u16_value(self.dst_y) == layout::get_bits(buf[9], 0x3fff, 16),
            layout::u16_value(self.dst_z) == layout::get_bits(buf[10], 0x1fff, 0),
            layout::u16_value(self.dst_width) == layout::get_bits(buf[10], 0x3fff, 16),
            layout::u16_value(self.dst_height) == layout::get_bits(buf[11], 0x3fff, 0),
            layout::u16_value(self.dst_depth) == layout::get_bits(buf[11], 0x1fff, 16),
            layout::u8_value(self.dst_element_size) == layout::get_bits(buf[12], 0x7, 0),
            layout::u8_value(self.dst_swizzle_mode) == layout::get_bits(buf[12], 0x1f, 3),
            layout::u8_value(self.dst_dimension) == layout::get_bits(buf[12], 0x3, 9),
            layout::u8_value(self.dst_mip_max) == layout::get_bits(buf[12], 0xf, 16),
            layout::u8_value(self.dst_mip_id) == layout::get_bits(buf[12], 0xf, 20),
            layout::u16_value(self.rect_x) == layout::get_bits(buf[13], 0x3fff, 0),
            layout::u16_value(self.rect_y) == layout::get_bits(buf[13], 0x3fff, 16),
            layout::u16_value(self.rect_z) == layout::get_bits(buf[14], 0x1fff, 0),
            layout::u8_value(self.dst_sw) == layout::get_bits(buf[14], 0x3, 16),
            layout::u8_value(self.src_sw) == layout::get_bits(buf[14], 0x3, 24),
            layout::u8_value(self.data_format) == layout::get_bits(buf[17], 0x7f, 0),
            layout::bool_bit(self.color_transform_disable) == layout::get_bits(buf[17], 0x1, 7),
            layout::bool_bit(self.alpha_is_on_msb) == layout::get_bits(buf[17], 0x1, 8),
            layout::u8_value(self.number_type) == layout::get_bits(buf[17], 0x7, 9),
            layout::u8_value(self.surface_type) == layout::get_bits(buf[17], 0x3, 12),
            layout::u8_value(self.max_comp_block_size) == layout::get_bits(buf[17], 0x3, 24),
            layout::u8_value(self.max_uncomp_block_size) == layout::get_bits(buf[17], 0x3, 26),
            layout::bool_bit(self.write_compress_enable) == layout::get_bits(buf[17], 0x1, 28),
            layout::bool_bit(self.meta_tmz) == layout::get_bits(buf[17], 0x1, 29),
            self.src_addr == layout::dword_pair(buf[1], buf[2]),
            self.dst_addr == layout::dword_pair(buf[7], buf[8]),
            self.meta_addr == layout::dword_pair(buf[15], buf[16]),
    {
        assert(self.bit_values()[0] == layout::bool_bit(self.tmz));
        assert(layout::decode_bits(buf, Self::bit_fields())[0] == self.bit_values()[0]);
        assert(self.bit_values()[1] == layout::bool_bit(self.dcc));
        assert(layout::decode_bits(buf, Self::bit_fields())[1] == self.bit_values()[1]);
        assert(self.bit_values()[2] == layout::bool_bit(self.dcc_dir));
        assert(layout::decode_bits(buf, Self::bit_fields())[2] == self.bit_values()[2]);
        assert(self.bit_values()[3] == layout::u16_value(self.src_x));
        assert(layout::decode_bits(buf, Self::bit_fields())[3] == self.bit_values()[3]);
        assert(self.bit_values()[4] == layout::u16_value(self.src_y));
        assert(layout::decode_bits(buf, Self::bit_fields())[4] == self.bit_values()[4]);
        assert(self.bit_values()[5] == layout::u16_value(self.src_z));
        assert(layout::decode_bits(buf, Self::bit_fields())[5] == self.bit_values()[5]);
        assert(self.bit_values()[6] == layout::u16_value(self.src_width));
        assert(layout::decode_bits(buf, Self::bit_fields())[6] == self.bit_values()[6]);
        assert(self.bit_values()[7] == layout::u16_value(self.src_height));
        assert(layout::decode_bits(buf, Self::bit_fields())[7] == self.bit_values()[7]);
        assert(self.bit_values()[8] == layout::u16_value(self.src_depth));
        assert(layout::decode_bits(buf, Self::bit_fields())[8] == self.bit_values()[8]);
        assert(self.bit_values()[9] == layout::u8_value(self.src_element_size));
        assert(layout::decode_bits(buf, Self::bit_fields())[9] == self.bit_values()[9]);
        assert(self.bit_values()[10] == layout::u8_value(self.src_swizzle_mode));
        assert(layout::decode_bits(buf, Self::bit_fields())[10] == self.bit_values()[10]);
        assert(self.bit_values()[11] == layout::u8_value(self.src_dimension));
        assert(layout::decode_bits(buf, Self::bit_fields())[11] == self.bit_values()[11]);
        assert(self.bit_values()[12] == layout::u8_value(self.src_mip_max));
        assert(layout::decode_bits(buf, Self::bit_fields())[12] == self.bit_values()[12]);
        assert(self.bit_values()[13] == layout::u8_value(self.src_mip_id));
        assert(layout::decode_bits(buf, Self::bit_fields())[13] == self.bit_values()[13]);
        assert(self.bit_values()[14] == layout::u16_value(self.dst_x));
        assert(layout::decode_bits(buf, Self::bit_fields())[14] == self.bit_values()[14]);
        assert(self.bit_values()[15] == layout::u16_value(self.dst_y));
        assert(layout::decode_bits(buf, Self::bit_fields())[15] == self.bit_values()[15]);
        assert(self.bit_values()[16] == layout::u16_value(self.dst_z));
        assert(layout::decode_bits(buf, Self::bit_fields())[16] == self.bit_values()[16]);
        assert(self.bit_values()[17] == layout::u16_value(self.dst_width));
        assert(layout::decode_bits(buf, Self::bit_fields())[17] == self.bit_values()[17]);
        assert(self.bit_values()[18] == layout::u16_value(self.dst_height));
        assert(layout::decode_bits(buf, Self::bit_fields())[18] == self.bit_values()[18]);
        assert(self.bit_values()[19] == layout::u16_value(self.dst_depth));
        assert(layout::decode_bits(buf, Self::bit_fields())[19] == self.bit_values()[19]);
        assert(self.bit_values()[20] == layout::u8_value(self.dst_element_size));
        assert(layout::decode_bits(buf, Self::bit_fields())[20] == self.bit_values()[20]);
        assert(self.bit_values()[21] == layout::u8_value(self.dst_swizzle_mode));
        assert(layout::decode_bits(buf, Self::bit_fields())[21] == self.bit_values()[21]);
        assert(self.bit_values()[22] == layout::u8_value(self.dst_dimension));
        assert(layout::decode_bits(buf, Self::bit_fields())[22] == self.bit_values()[22]);
        assert(self.bit_values()[23] == layout::u8_value(self.dst_mip_max));
        assert(layout::decode_bits(buf, Self::bit_fields())[23] == self.bit_values()[23]);
        assert(self.bit_values()[24] == layout::u8_value(self.dst_mip_id));
        assert(layout::decode_bits(buf, Self::bit_fields())[24] == self.bit_values()[24]);
        assert(self.bit_values()[25] == layout::u16_value(self.rect_x));
        assert(layout::decode_bits(buf, Self::bit_fields())[25] == self.bit_values()[25]);
        assert(self.bit_values()[26] == layout::u16_value(self.rect_y));
        assert(layout::decode_bits(buf, Self::bit_fields())[26] == self.bit_values()[26]);
        assert(self.bit_values()[27] == layout::u16_value(self.rect_z));
        assert(layout::decode_bits(buf, Self::bit_fields())[27] == self.bit_values()[27]);
        assert(self.bit_values()[28] == layout::u8_value(self.dst_sw));
        assert(layout::decode_bits(buf, Self::bit_fields())[28] == self.bit_values()[28]);
        assert(self.bit_values()[29] == layout::u8_value(self.src_sw));
        assert(layout::decode_bits(buf, Self::bit_fields())[29] == self.bit_values()[29]);
        assert(self.bit_values()[30] == layout::u8_value(self.data_format));
        assert(layout::decode_bits(buf, Self::bit_fields())[30] == self.bit_values()[30]);
        assert(self.bit_values()[31] == layout::bool_bit(self.color_transform_disable));
        assert(layout::decode_bits(buf, Self::bit_fields())[31] == self.bit_values()[31]);
        assert(self.bit_values()[32] == layout::bool_bit(self.alpha_is_on_msb));
        assert(layout::decode_bits(buf, Self::bit_fields())[32] == self.bit_values()[32]);
        assert(self.bit_values()[33] == layout::u8_value(self.number_type));
        assert(layout::decode_bits(buf, Self::bit_fields())[33] == self.bit_values()[33]);
        assert(self.bit_values()[34] == layout::u8_value(self.surface_type));
        assert(layout::decode_bits(buf, Self::bit_fields())[34] == self.bit_values()[34]);
        assert(self.bit_values()[35] == layout::u8_value(self.max_comp_block_size));
        assert(layout::decode_bits(buf, Self::bit_fields())[35] == self.bit_values()[35]);
        assert(self.bit_values()[36] == layout::u8_value(self.max_uncomp_block_size));
        assert(layout::decode_bits(buf, Self::bit_fields())[36] == self.bit_values()[36]);
        assert(self.bit_values()[37] == layout::bool_bit(self.write_compress_enable));
        assert(layout::decode_bits(buf, Self::bit_fields())[37] == self.bit_values()[37]);
        assert(self.bit_values()[38] == layout::bool_bit(self.meta_tmz));
        assert(layout::decode_bits(buf, Self::bit_fields())[38] == self.bit_values()[38]);
        assert(layout::decode_joins(buf, Self::join_fields())[0] == self.join_values()[0]);
        assert(layout::decode_joins(buf, Self::join_fields())[1] == self.join_values()[1]);
        assert(layout::decode_joins(buf, Self::join_fields())[2] == self.join_values()[2]);
    }

    /// The field values name the packet: two packets with the same values are
    /// equal.
    #[verifier::rlimit(40)]
    pub proof fn lemma_values_determine(a: Self, b: Self)
        requires
            a.bit_values() == b.bit_values(),
            a.join_values() == b.join_values(),
            a.tail_data() == b.tail_data(),
        ensures
            a == b,
    {
        assert(a.bit_values()[0] == layout::bool_bit(a.tmz) && b.bit_values()[0] == layout::bool_bit(b.tmz));
        assert(a.bit_values()[1] == layout::bool_bit(a.dcc) && b.bit_values()[1] == layout::bool_bit(b.dcc));
        assert(a.bit_values()[2] == layout::bool_bit(a.dcc_dir) && b.bit_values()[2] == layout::bool_bit(b.dcc_dir));
        assert(a.bit_values()[3] == layout::u16_value(a.src_x) && b.bit_values()[3] == layout::u16_value(b.src_x));
        assert(a.bit_values()[4] == layout::u16_value(a.src_y) && b.bit_values()[4] == layout::u16_value(b.src_y));
        assert(a.bit_values()[5] == layout::u16_value(a.src_z) && b.bit_values()[5] == layout::u16_value(b.src_z));
        assert(a.bit_values()[6] == layout::u16_value(a.src_width) && b.bit_values()[6] == layout::u16_value(b.src_width));
        assert(a.bit_values()[7] == layout::u16_value(a.src_height) && b.bit_values()[7] == layout::u16_value(b.src_height));
        assert(a.bit_values()[8] == layout::u16_value(a.src_depth) && b.bit_values()[8] == layout::u16_value(b.src_depth));
        assert(a.bit_values()[9] == layout::u8_value(a.src_element_size) && b.bit_values()[9] == layout::u8_value(b.src_element_size));
        assert(a.bit_values()[10] == layout::u8_value(a.src_swizzle_mode) && b.bit_values()[10] == layout::u8_value(b.src_swizzle_mode));
        assert(a.bit_values()[11] == layout::u8_value(a.src_dimension) && b.bit_values()[11] == layout::u8_value(b.src_dimension));
        assert(a.bit_values()[12] == layout::u8_value(a.src_mip_max) && b.bit_values()[12] == layout::u8_value(b.src_mip_max));
        assert(a.bit_values()[13] == layout::u8_value(a.src_mip_id) && b.bit_values()[13] == layout::u8_value(b.src_mip_id));
        assert(a.bit_values()[14] == layout::u16_value(a.dst_x) && b.bit_values()[14] == layout::u16_value(b.dst_x));
        assert(a.bit_values()[15] == layout::u16_value(a.dst_y) && b.bit_values()[15] == layout::u16_value(b.dst_y));
        assert(a.bit_values()[16] == layout::u16_value(a.dst_z) && b.bit_values()[16] == layout::u16_value(b.dst_z));
        assert(a.bit_values()[17] == layout::u16_value(a.dst_width) && b.bit_values()[17] == layout::u16_value(b.dst_width));
        assert(a.bit_values()[18] == layout::u16_value(a.dst_height) && b.bit_values()[18] == layout::u16_value(b.dst_height));
        assert(a.bit_values()[19] == layout::u16_value(a.dst_depth) && b.bit_values()[19] == layout::u16_value(b.dst_depth));
        assert(a.bit_values()[20] == layout::u8_value(a.dst_element_size) && b.bit_values()[20] == layout::u8_value(b.dst_element_size));
        assert(a.bit_values()[21] == layout::u8_value(a.dst_swizzle_mode) && b.bit_values()[21] == layout::u8_value(b.dst_swizzle_mode));
        assert(a.bit_values()[22] == layout::u8_value(a.dst_dimension) && b.bit_values()[22] == layout::u8_value(b.dst_dimension));
        assert(a.bit_values()[23] == layout::u8_value(a.dst_mip_max) && b.bit_values()[23] == layout::u8_value(b.dst_mip_max));
        assert(a.bit_values()[24] == layout::u8_value(a.dst_mip_id) && b.bit_values()[24] == layout::u8_value(b.dst_mip_id));
        assert(a.bit_values()[25] == layout::u16_value(a.rect_x) && b.bit_values()[25] == layout::u16_value(b.rect_x));
        assert(a.bit_values()[26] == layout::u16_value(a.rect_y) && b.bit_values()[26] == layout::u16_value(b.rect_y));
        assert(a.bit_values()[27] == layout::u16_value(a.rect_z) && b.bit_values()[27] == layout::u16_value(b.rect_z));
        assert(a.bit_values()[28] == layout::u8_value(a.dst_sw) && b.bit_values()[28] == layout::u8_value(b.dst_sw));
        assert(a.bit_values()[29] == layout::u8_value(a.src_sw) && b.bit_values()[29] == layout::u8_value(b.src_sw));
        assert(a.bit_values()[30] == layout::u8_value(a.data_format) && b.bit_values()[30] == layout::u8_value(b.data_format));
        assert(a.bit_values()[31] == layout::bool_bit(a.color_transform_disable) && b.bit_values()[31] == layout::bool_bit(b.color_transform_disable));
        assert(a.bit_values()[32] == layout::bool_bit(a.alpha_is_on_msb) && b.bit_values()[32] == layout::bool_bit(b.alpha_is_on_msb));
        assert(a.bit_values()[33] == layout::u8_value(a.number_type) && b.bit_values()[33] == layout::u8_value(b.number_type));
        assert(a.bit_values()[34] == layout::u8_value(a.surface_type) && b.bit_values()[34] == layout::u8_value(b.surface_type));
        assert(a.bit_values()[35] == layout::u8_value(a.max_comp_block_size) && b.bit_values()[35] == layout::u8_value(b.max_comp_block_size));
        assert(a.bit_values()[36] == layout::u8_value(a.max_uncomp_block_size) && b.bit_values()[36] == layout::u8_value(b.max_uncomp_block_size));
        assert(a.bit_values()[37] == layout::bool_bit(a.write_compress_enable) && b.bit_values()[37] == layout::bool_bit(b.write_compress_enable));
        assert(a.bit_values()[38] == layout::bool_bit(a.meta_tmz) && b.bit_values()[38] == layout::bool_bit(b.meta_tmz));
        assert(a.join_values()[0] == a.src_addr && b.join_values()[0] == b.src_addr);
        assert(a.join_values()[1] == a.dst_addr && b.join_values()[1] == b.dst_addr);
        assert(a.join_values()[2] == a.meta_addr && b.join_values()[2] == b.meta_addr);
    }

    /// Reading a packet is exact: two packets read from one buffer are equal.
    pub proof fn lemma_read_unique(a: Self, b: Self, buf: Seq<u32>)
        requires
            a.read_from(buf),
            b.read_from(buf),
        ensures
            a == b,
    {
        layout::lemma_reads_determine(
            buf,
            Self::bit_fields(),
            a.bit_values(),
            b.bit_values(),
            Self::join_fields(),
            a.join_values(),
            b.join_values(),
            Self::tail(),
            a.tail_data(),
            b.tail_data(),
        );
        Self::lemma_values_determine(a, b);
    }

    /// A packet reads back from what it was encoded to.
    pub proof fn lemma_roundtrip(self, buf: Seq<u32>)
        requires
            Self::layout_wf(),
            self.fits(),
            buf.len() >= self.size(),
        ensures
            self.read_from(self.spec_encode(buf)),
            Self::decodable(self.spec_encode(buf)),
            self.spec_encode(buf).len() == buf.len(),
    {
        layout::lemma_packet_roundtrip(
            buf,
            Self::bit_fields(),
            self.bit_values(),
            Self::join_fields(),
            self.join_values(),
            Self::tail(),
            self.tail_data(),
            Self::STATIC_DWORDS as nat,
        );
    }
}

/// The `CopyT2tBc` packet.
#[derive(Clone, Copy, Default)]
pub struct CopyT2tBc {
    pub src_x: u16,
    pub src_y: u16,
    pub src_z: u16,
    pub src_width: u16,
    pub src_height: u16,
    pub src_depth: u16,
    pub src_element_size: u8,
    pub src_array_mode: u8,
    pub src_mit_mode: u8,
    pub src_tilesplit_size: u8,
    pub src_bank_w: u8,
    pub src_bank_h: u8,
    pub src_num_bank: u8,
    pub src_mat_aspt: u8,
    pub src_pipe_config: u8,
    pub dst_x: u16,
    pub dst_y: u16,
    pub dst_z: u16,
    pub dst_width: u16,
    pub dst_height: u16,
    pub dst_depth: u16,
    pub dst_element_size: u8,
    pub dst_array_mode: u8,
    pub dst_mit_mode: u8,
    pub dst_tilesplit_size: u8,
    pub dst_bank_w: u8,
    pub dst_bank_h: u8,
    pub dst_num_bank: u8,
    pub dst_mat_aspt: u8,
    pub dst_pipe_config: u8,
    pub rect_x: u16,
    pub rect_y: u16,
    pub rect_z: u16,
    pub dst_sw: u8,
    pub src_sw: u8,
    pub src_addr: u64,
    pub dst_addr: u64,
}

impl CopyT2tBc {
    /// Dwords of the packet before its variable-length tail.
    pub const STATIC_DWORDS: usize = 15;

    pub open spec fn bit_fields() -> Seq<BitField> {
        seq![BitField { dw: 3, mask: 0x3fff, shift: 0 }, BitField { dw: 3, mask: 0x3fff, shift: 16 }, BitField { dw: 4, mask: 0x7ff, shift: 0 }, BitField { dw: 4, mask: 0x3fff, shift: 16 }, BitField { dw: 5, mask: 0x3fff, shift: 0 }, BitField { dw: 5, mask: 0x7ff, shift: 16 }, BitField { dw: 6, mask: 0x7, shift: 0 }, BitField { dw: 6, mask: 0xf, shift: 3 }, BitField { dw: 6, mask: 0x7, shift: 8 }, BitField { dw: 6, mask: 0x7, shift: 11 }, BitField { dw: 6, mask: 0x3, shift: 15 }, BitField { dw: 6, mask: 0x3, shift: 18 }, BitField { dw: 6, mask: 0x3, shift: 21 }, BitField { dw: 6, mask: 0x3, shift: 24 }, BitField { dw: 6, mask: 0x1f, shift: 26 }, BitField { dw: 9, mask: 0x3fff, shift: 0 }, BitField { dw: 9, mask: 0x3fff, shift: 16 }, BitField { dw: 10, mask: 0x7ff, shift: 0 }, BitField { dw: 10, mask: 0x3fff, shift: 16 }, BitField { dw: 11, mask: 0x3fff, shift: 0 }, BitField { dw: 11, mask: 0xfff, shift: 16 }, BitField { dw: 12, mask: 0x7, shift: 0 }, BitField { dw: 12, mask: 0xf, shift: 3 }, BitField { dw: 12, mask: 0x7, shift: 8 }, BitField { dw: 12, mask: 0x7, shift: 11 }, BitField { dw: 12, mask: 0x3, shift: 15 }, BitField { dw: 12, mask: 0x3, shift: 18 }, BitField { dw: 12, mask: 0x3, shift: 21 }, BitField { dw: 12, mask: 0x3, shift: 24 }, BitField { dw: 12, mask: 0x1f, shift: 26 }, BitField { dw: 13, mask: 0x3fff, shift: 0 }, BitField { dw: 13, mask: 0x3fff, shift: 16 }, BitField { dw: 14, mask: 0x7ff, shift: 0 }, BitField { dw: 14, mask: 0x3, shift: 16 }, BitField { dw: 14, mask: 0x3, shift: 24 }]
    }

    pub open spec fn join_fields() -> Seq<JoinField> {
        seq![JoinField { lo: 1, hi: 2 }, JoinField { lo: 7, hi: 8 }]
    }

    pub open spec fn tail() -> Option<DynField> {
        None
    }

    pub open spec fn bit_values(self) -> Seq<u32> {
        seq![self.src_x as u32, self.src_y as u32, self.src_z as u32, self.src_width as u32, self.src_height as u32, self.src_depth as u32, self.src_element_size as u32, self.src_array_mode as u32, self.src_mit_mode as u32, self.src_tilesplit_size as u32, self.src_bank_w as u32, self.src_bank_h as u32, self.src_num_bank as u32, self.src_mat_aspt as u32, self.src_pipe_config as u32, self.dst_x as u32, self.dst_y as u32, self.dst_z as u32, self.dst_width as u32, self.dst_height as u32, self.dst_depth as u32, self.dst_element_size as u32, self.dst_array_mode as u32, self.dst_mit_mode as u32, self.dst_tilesplit_size as u32, self.dst_bank_w as u32, self.dst_bank_h as u32, self.dst_num_bank as u32, self.dst_mat_aspt as u32, self.dst_pipe_config as u32, self.rect_x as u32, self.rect_y as u32, self.rect_z as u32, self.dst_sw as u32, self.src_sw as u32]
    }

    pub open spec fn join_values(self) -> Seq<u64> {
        seq![self.src_addr, self.dst_addr]
    }

    pub open spec fn tail_data(self) -> Seq<u32> {
        Seq::<u32>::empty()
    }

    /// Every field value fits its field.
    pub open spec fn fits(self) -> bool {
        layout::fields_fit(Self::bit_fields(), self.bit_values()) && layout::tail_fits(Self::tail(), self.tail_data())
    }

    pub open spec fn layout_wf() -> bool {
        layout::layout_wf(Self::bit_fields(), Self::join_fields(), Self::tail(), Self::STATIC_DWORDS as nat)
    }

    /// Dwords that the packet takes.
    pub open spec fn size(self) -> nat {
        (Self::STATIC_DWORDS + self.tail_data().len()) as nat
    }

    /// The buffer holds the whole packet.
    pub open spec fn decodable(buf: Seq<u32>) -> bool {
        buf.len() >= Self::STATIC_DWORDS
    }

    pub open spec fn spec_encode(self, buf: Seq<u32>) -> Seq<u32> {
        layout::encode_packet(
            buf,
            Self::bit_fields(),
            self.bit_values(),
            Self::join_fields(),
            self.join_values(),
            Self::tail(),
            self.tail_data(),
        )
    }

    /// `buf` holds this packet.
    pub open spec fn read_from(self, buf: Seq<u32>) -> bool {
        layout::packet_reads(
            buf,
            Self::bit_fields(),
            self.bit_values(),
            Self::join_fields(),
            self.join_values(),
            Self::tail(),
            self.tail_data(),
        )
    }

    fn exec_bit_fields() -> (r: Vec<BitField>)
        ensures
            r@ == Self::bit_fields(),
    {
        vec![BitField { dw: 3, mask: 0x3fff, shift: 0 }, BitField { dw: 3, mask: 0x3fff, shift: 16 }, BitField { dw: 4, mask: 0x7ff, shift: 0 }, BitField { dw: 4, mask: 0x3fff, shift: 16 }, BitField { dw: 5, mask: 0x3fff, shift: 0 }, BitField { dw: 5, mask: 0x7ff, shift: 16 }, BitField { dw: 6, mask: 0x7, shift: 0 }, BitField { dw: 6, mask: 0xf, shift: 3 }, BitField { dw: 6, mask: 0x7, shift: 8 }, BitField { dw: 6, mask: 0x7, shift: 11 }, BitField { dw: 6, mask: 0x3, shift: 15 }, BitField { dw: 6, mask: 0x3, shift: 18 }, BitField { dw: 6, mask: 0x3, shift: 21 }, BitField { dw: 6, mask: 0x3, shift: 24 }, BitField { dw: 6, mask: 0x1f, shift: 26 }, BitField { dw: 9, mask: 0x3fff, shift: 0 }, BitField { dw: 9, mask: 0x3fff, shift: 16 }, BitField { dw: 10, mask: 0x7ff, shift: 0 }, BitField { dw: 10, mask: 0x3fff, shift: 16 }, BitField { dw: 11, mask: 0x3fff, shift: 0 }, BitField { dw: 11, mask: 0xfff, shift: 16 }, BitField { dw: 12, mask: 0x7, shift: 0 }, BitField { dw: 12, mask: 0xf, shift: 3 }, BitField { dw: 12, mask: 0x7, shift: 8 }, BitField { dw: 12, mask: 0x7, shift: 11 }, BitField { dw: 12, mask: 0x3, shift: 15 }, BitField { dw: 12, mask: 0x3, shift: 18 }, BitField { dw: 12, mask: 0x3, shift: 21 }, BitField { dw: 12, mask: 0x3, shift: 24 }, BitField { dw: 12, mask: 0x1f, shift: 26 }, BitField { dw: 13, mask: 0x3fff, shift: 0 }, BitField { dw: 13, mask: 0x3fff, shift: 16 }, BitField { dw: 14, mask: 0x7ff, shift: 0 }, BitField { dw: 14, mask: 0x3, shift: 16 }, BitField { dw: 14, mask: 0x3, shift: 24 }]
    }

    fn exec_join_fields() -> (r: Vec<JoinField>)
        ensures
            r@ == Self::join_fields(),
    {
        vec![JoinField { lo: 1, hi: 2 }, JoinField { lo: 7, hi: 8 }]
    }

    /// Whether the field layout of this packet is well formed.
    pub fn layout_ok() -> (r: bool)
        ensures
            r == Self::layout_wf(),
    {
        layout_is_wf(&Self::exec_bit_fields(), &Self::exec_join_fields(), None, Self::STATIC_DWORDS)
    }

    /// Writes the packet to the start of `buff`, without its header, and
    /// returns how many dwords it took.
    pub fn partial_encode_linear(&self, buff: &mut [u32]) -> (n: usize)
        requires
            old(buff)@.len() >= self.size(),
            self.fits(),
        ensures
            n == self.size(),
            final(buff)@ == self.spec_encode(old(buff)@),
            final(buff)@.len() == old(buff)@.len(),
    {
        let bits = Self::exec_bit_fields();
        let vals: Vec<u32> = vec![layout::widen_u16(self.src_x), layout::widen_u16(self.src_y), layout::widen_u16(self.src_z), layout::widen_u16(self.src_width), layout::widen_u16(self.src_height), layout::widen_u16(self.src_depth), layout::widen_u8(self.src_element_size), layout::widen_u8(self.src_array_mode), layout::widen_u8(self.src_mit_mode), layout::widen_u8(self.src_tilesplit_size), layout::widen_u8(self.src_bank_w), layout::widen_u8(self.src_bank_h), layout::widen_u8(self.src_num_bank), layout::widen_u8(self.src_mat_aspt), layout::widen_u8(self.src_pipe_config), layout::widen_u16(self.dst_x), layout::widen_u16(self.dst_y), layout::widen_u16(self.dst_z), layout::widen_u16(self.dst_width), layout::widen_u16(self.dst_height), layout::widen_u16(self.dst_depth), layout::widen_u8(self.dst_element_size), layout::widen_u8(self.dst_array_mode), layout::widen_u8(self.dst_mit_mode), layout::widen_u8(self.dst_tilesplit_size), layout::widen_u8(self.dst_bank_w), layout::widen_u8(self.dst_bank_h), layout::widen_u8(self.dst_num_bank), layout::widen_u8(self.dst_mat_aspt), layout::widen_u8(self.dst_pipe_config), layout::widen_u16(self.rect_x), layout::widen_u16(self.rect_y), layout::widen_u16(self.rect_z), layout::widen_u8(self.dst_sw), layout::widen_u8(self.src_sw)];
        let joins = Self::exec_join_fields();
        let jvals: Vec<u64> = vec![self.src_addr, self.dst_addr];
        proof {
            assert(vals@ =~= self.bit_values());
            assert(jvals@ =~= self.join_values());
        }
        encode_bit_fields(&bits, &vals, buff);
        encode_join_fields(&joins, &jvals, buff);
        Self::STATIC_DWORDS
    }

    /// Reads the packet at the start of `buff` and returns how many dwords it
    /// took.
    #[verifier::rlimit(40)]
    pub fn partial_decode_linear(buff: &[u32]) -> (r: (usize, Self))
        requires
            Self::decodable(buff@),
        ensures
            r.0 == r.1.size(),
            r.1.read_from(buff@),
    {
        let bits = Self::exec_bit_fields();
        let v = decode_bit_fields(&bits, buff);
        let joins = Self::exec_join_fields();
        let j = decode_join_fields(&joins, buff);
        let p = Self { src_x: layout::narrow_u16(v[0]), src_y: layout::narrow_u16(v[1]), src_z: layout::narrow_u16(v[2]), src_width: layout::narrow_u16(v[3]), src_height: layout::narrow_u16(v[4]), src_depth: layout::narrow_u16(v[5]), src_element_size: layout::narrow_u8(v[6]), src_array_mode: layout::narrow_u8(v[7]), src_mit_mode: layout::narrow_u8(v[8]), src_tilesplit_size: layout::narrow_u8(v[9]), src_bank_w: layout::narrow_u8(v[10]), src_bank_h: layout::narrow_u8(v[11]), src_num_bank: layout::narrow_u8(v[12]), src_mat_aspt: layout::narrow_u8(v[13]), src_pipe_config: layout::narrow_u8(v[14]), dst_x: layout::narrow_u16(v[15]), dst_y: layout::narrow_u16(v[16]), dst_z: layout::narrow_u16(v[17]), dst_width: layout::narrow_u16(v[18]), dst_height: layout::narrow_u16(v[19]), dst_depth: layout::narrow_u16(v[20]), dst_element_size: layout::narrow_u8(v[21]), dst_array_mode: layout::narrow_u8(v[22]), dst_mit_mode: layout::narrow_u8(v[23]), dst_tilesplit_size: layout::narrow_u8(v[24]), dst_bank_w: layout::narrow_u8(v[25]), dst_bank_h: layout::narrow_u8(v[26]), dst_num_bank: layout::narrow_u8(v[27]), dst_mat_aspt: layout::narrow_u8(v[28]), dst_pipe_config: layout::narrow_u8(v[29]), rect_x: layout::narrow_u16(v[30]), rect_y: layout::narrow_u16(v[31]), rect_z: layout::narrow_u16(v[32]), dst_sw: layout::narrow_u8(v[33]), src_sw: layout::narrow_u8(v[34]), src_addr: j[0], dst_addr: j[1] };
        proof {
            assert(p.bit_values() =~= v@);
            assert(p.join_values() =~= j@);
        }
        (Self::STATIC_DWORDS, p)
    }

    /// Where each field stands in a buffer that the packet is read from, as
    /// the packet header lays it out: a bit field under its mask and shift
    /// in its dword, a 64-bit field in two dwords, low half first. By
    /// `lemma_roundtrip`, encoding a packet puts its fields there.
    #[verifier::rlimit(40)]
    pub proof fn lemma_field_positions(self, buf: Seq<u32>)
        requires
            self.read_from(buf),
        ensures
            layout::u16_value(self.src_x) == layout::get_bits(buf[3], 0x3fff, 0),
            layout::u16_value(self.src_y) == layout::get_bits(buf[3], 0x3fff, 16),
            layout::u16_value(self.src_z) == layout::get_bits(buf[4], 0x7ff, 0),
            layout::u16_value(self.src_width) == layout::get_bits(buf[4], 0x3fff, 16),
            layout::u16_value(self.src_height) == layout::get_bits(buf[5], 0x3fff, 0),
            layout::u16_value(self.src_depth) == layout::get_bits(buf[5], 0x7ff, 16),
            layout::u8_value(self.src_element_size) == layout::get_bits(buf[6], 0x7, 0),
            layout::u8_value(self.src_array_mode) == layout::get_bits(buf[6], 0xf, 3),
            layout::u8_value(self.src_mit_mode) == layout::get_bits(buf[6], 0x7, 8),
            layout::u8_value(self.src_tilesplit_size) == layout::get_bits(buf[6], 0x7, 11),
            layout::u8_value(self.src_bank_w) == layout::get_bits(buf[6], 0x3, 15),
            layout::u8_value(self.src_bank_h) == layout::get_bits(buf[6], 0x3, 18),
            layout::u8_value(self.src_num_bank) == layout::get_bits(buf[6], 0x3, 21),
            layout::u8_value(self.src_mat_aspt) == layout::get_bits(buf[6], 0x3, 24),
            layout::u8_value(self.src_pipe_config) == layout::get_bits(buf[6], 0x1f, 26),
            layout::u16_value(self.dst_x) == layout::get_bits(buf[9], 0x3fff, 0),
            layout::u16_value(self.dst_y) == layout::get_bits(buf[9], 0x3fff, 16),
            layout::u16_value(self.dst_z) == layout::get_bits(buf[10], 0x7ff, 0),
            layout::u16_value(self.dst_width) == layout::get_bits(buf[10], 0x3fff, 16),
            layout::u16_value(self.dst_height) == layout::get_bits(buf[11], 0x3fff, 0),
            layout::u16_value(self.dst_depth) == layout::get_bits(buf[11], 0xfff, 16),
            layout::u8_value(self.dst_element_size) == layout::get_bits(buf[12], 0x7, 0),
            layout::u8_value(self.dst_array_mode) == layout::get_bits(buf[12], 0xf, 3),
            layout::u8_value(self.dst_mit_mode) == layout::get_bits(buf[12], 0x7, 8),
            layout::u8_value(self.dst_tilesplit_size) == layout::get_bits(buf[12], 0x7, 11),
            layout::u8_value(self.dst_bank_w) == layout::get_bits(buf[12], 0x3, 15),
            layout::u8_value(self.dst_bank_h) == layout::get_bits(buf[12], 0x3, 18),
            layout::u8_value(self.dst_num_bank) == layout::get_bits(buf[12], 0x3, 21),
            layout::u8_value(self.dst_mat_aspt) == layout::get_bits(buf[12], 0x3, 24),
            layout::u8_value(self.dst_pipe_config) == layout::get_bits(buf[12], 0x1f, 26),
            layout::u16_value(self.rect_x) == layout::get_bits(buf[13], 0x3fff, 0),
            layout::u16_value(self.rect_y) == layout::get_bits(buf[13], 0x3fff, 16),
            layout::u16_value(self.rect_z) == layout::get_bits(buf[14], 0x7ff, 0),
            layout::u8_value(self.dst_sw) == layout::get_bits(buf[14], 0x3, 16),
            layout::u8_value(self.src_sw) == layout::get_bits(buf[14], 0x3, 24),
            self.src_addr == layout::dword_pair(buf[1], buf[2]),
            self.dst_addr == layout::dword_pair(buf[7], buf[8]),
    {
        assert(self.bit_values()[0] == layout::u16_value(self.src_x));
        assert(layout::decode_bits(buf, Self::bit_fields())[0] == self.bit_values()[0]);
        assert(self.bit_values()[1] == layout::u16_value(self.src_y));
        assert(layout::decode_bits(buf, Self::bit_fields())[1] == self.bit_values()[1]);
        assert(self.bit_values()[2] == layout::u16_value(self.src_z));
        assert(layout::decode_bits(buf, Self::bit_fields())[2] == self.bit_values()[2]);
        assert(self.bit_values()[3] == layout::u16_value(self.src_width));
        assert(layout::decode_bits(buf, Self::bit_fields())[3] == self.bit_values()[3]);
        assert(self.bit_values()[4] == layout::u16_value(self.src_height));
        assert(layout::decode_bits(buf, Self::bit_fields())[4] == self.bit_values()[4]);
        assert(self.bit_values()[5] == layout::u16_value(self.src_depth));
        assert(layout::decode_bits(buf, Self::bit_fields())[5] == self.bit_values()[5]);
        assert(self.bit_values()[6] == layout::u8_value(self.src_element_size));
        assert(layout::decode_bits(buf, Self::bit_fields())[6] == self.bit_values()[6]);
        assert(self.bit_values()[7] == layout::u8_value(self.src_array_mode));
        assert(layout::decode_bits(buf, Self::bit_fields())[7] == self.bit_values()[7]);
        assert(self.bit_values()[8] == layout::u8_value(self.src_mit_mode));
        assert(layout::decode_bits(buf, Self::bit_fields())[8] == self.bit_values()[8]);
        assert(self.bit_values()[9] == layout::u8_value(self.src_tilesplit_size));
        assert(layout::decode_bits(buf, Self::bit_fields())[9] == self.bit_values()[9]);
        assert(self.bit_values()[10] == layout::u8_value(self.src_bank_w));
        assert(layout::decode_bits(buf, Self::bit_fields())[10] == self.bit_values()[10]);
        assert(self.bit_values()[11] == layout::u8_value(self.src_bank_h));
        assert(layout::decode_bits(buf, Self::bit_fields())[11] == self.bit_values()[11]);
        assert(self.bit_values()[12] == layout::u8_value(self.src_num_bank));
        assert(layout::decode_bits(buf, Self::bit_fields())[12] == self.bit_values()[12]);
        assert(self.bit_values()[13] == layout::u8_value(self.src_mat_aspt));
        assert(layout::decode_bits(buf, Self::bit_fields())[13] == self.bit_values()[13]);
        assert(self.bit_values()[14] == layout::u8_value(self.src_pipe_config));
        assert(layout::decode_bits(buf, Self::bit_fields())[14] == self.bit_values()[14]);
        assert(self.bit_values()[15] == layout::u16_value(self.dst_x));
        assert(layout::decode_bits(buf, Self::bit_fields())[15] == self.bit_values()[15]);
        assert(self.bit_values()[16] == layout::u16_value(self.dst_y));
        assert(layout::decode_bits(buf, Self::bit_fields())[16] == self.bit_values()[16]);
        assert(self.bit_values()[17] == layout::u16_value(self.dst_z));
        assert(layout::decode_bits(buf, Self::bit_fields())[17] == self.bit_values()[17]);
        assert(self.bit_values()[18] == layout::u16_value(self.dst_width));
        assert(layout::decode_bits(buf, Self::bit_fields())[18] == self.bit_values()[18]);
        assert(self.bit_values()[19] == layout::u16_value(self.dst_height));
        assert(layout::decode_bits(buf, Self::bit_fields())[19] == self.bit_values()[19]);
        assert(self.bit_values()[20] == layout::u16_value(self.dst_depth));
        assert(layout::decode_bits(buf, Self::bit_fields())[20] == self.bit_values()[20]);
        assert(self.bit_values()[21] == layout::u8_value(self.dst_element_size));
        assert(layout::decode_bits(buf, Self::bit_fields())[21] == self.bit_values()[21]);
        assert(self.bit_values()[22] == layout::u8_value(self.dst_array_mode));
        assert(layout::decode_bits(buf, Self::bit_fields())[22] == self.bit_values()[22]);
        assert(self.bit_values()[23] == layout::u8_value(self.dst_mit_mode));
        assert(layout::decode_bits(buf, Self::bit_fields())[23] == self.bit_values()[23]);
        assert(self.bit_values()[24] == layout::u8_value(self.dst_tilesplit_size));
        assert(layout::decode_bits(buf, Self::bit_fields())[24] == self.bit_values()[24]);
        assert(self.bit_values()[25] == layout::u8_value(self.dst_bank_w));
        assert(layout::decode_bits(buf, Self::bit_fields())[25] == self.bit_values()[25]);
        assert(self.bit_values()[26] == layout::u8_value(self.dst_bank_h));
        assert(layout::decode_bits(buf, Self::bit_fields())[26] == self.bit_values()[26]);
        assert(self.bit_values()[27] == layout::u8_value(self.dst_num_bank));
        assert(layout::decode_bits(buf, Self::bit_fields())[27] == self.bit_values()[27]);
        assert(self.bit_values()[28] == layout::u8_value(self.dst_mat_aspt));
        assert(layout::decode_bits(buf, Self::bit_fields())[28] == self.bit_values()[28]);
        assert(self.bit_values()[29] == layout::u8_value(self.dst_pipe_config));
        assert(layout::decode_bits(buf, Self::bit_fields())[29] == self.bit_values()[29]);
        assert(self.bit_values()[30] == layout::u16_value(self.rect_x));
        assert(layout::decode_bits(buf, Self::bit_fields())[30] == self.bit_values()[30]);
        assert(self.bit_values()[31] == layout::u16_value(self.rect_y));
        assert(layout::decode_bits(buf, Self::bit_fields())[31] == self.bit_values()[31]);
        assert(self.bit_values()[32] == layout::u16_value(self.rect_z));
        assert(layout::decode_bits(buf, Self::bit_fields())[32] == self.bit_values()[32]);
        assert(self.bit_values()[33] == layout::u8_value(self.dst_sw));
        assert(layout::decode_bits(buf, Self::bit_fields())[33] == self.bit_values()[33]);
        assert(self.bit_values()[34] == layout::u8_value(self.src_sw));
        assert(layout::decode_bits(buf, Self::bit_fields())[34] == self.bit_values()[34]);
        assert(layout::decode_joins(buf, Self::join_fields())[0] == self.join_values()[0]);
        assert(layout::decode_joins(buf, Self::join_fields())[1] == self.join_values()[1]);
    }

    /// The field values name the packet: two packets with the same values are
    /// equal.
    #[verifier::rlimit(40)]
    pub proof fn lemma_values_determine(a: Self, b: Self)
        requires
            a.bit_values() == b.bit_values(),
            a.join_values() == b.join_values(),
            a.tail_data() == b.tail_data(),
        ensures
            a == b,
    {
        assert(a.bit_values()[0] == layout::u16_value(a.src_x) && b.bit_values()[0] == layout::u16_value(b.src_x));
        assert(a.bit_values()[1] == layout::u16_value(a.src_y) && b.bit_values()[1] == layout::u16_value(b.src_y));
        assert(a.bit_values()[2] == layout::u16_value(a.src_z) && b.bit_values()[2] == layout::u16_value(b.src_z));
        assert(a.bit_values()[3] == layout::u16_value(a.src_width) && b.bit_values()[3] == layout::u16_value(b.src_width));
        assert(a.bit_values()[4] == layout::u16_value(a.src_height) && b.bit_values()[4] == layout::u16_value(b.src_height));
        assert(a.bit_values()[5] == layout::u16_value(a.src_depth) && b.bit_values()[5] == layout::u16_value(b.src_depth));
        assert(a.bit_values()[6] == layout::u8_value(a.src_element_size) && b.bit_values()[6] == layout::u8_value(b.src_element_size));
        assert(a.bit_values()[7] == layout::u8_value(a.src_array_mode) && b.bit_values()[7] == layout::u8_value(b.src_array_mode));
        assert(a.bit_values()[8] == layout::u8_value(a.src_mit_mode) && b.bit_values()[8] == layout::u8_value(b.src_mit_mode));
        assert(a.bit_values()[9] == layout::u8_value(a.src_tilesplit_size) && b.bit_values()[9] == layout::u8_value(b.src_tilesplit_size));
        assert(a.bit_values()[10] == layout::u8_value(a.src_bank_w) && b.bit_values()[10] == layout::u8_value(b.src_bank_w));
        assert(a.bit_values()[11] == layout::u8_value(a.src_bank_h) && b.bit_values()[11] == layout::u8_value(b.src_bank_h));
        assert(a.bit_values()[12] == layout::u8_value(a.src_num_bank) && b.bit_values()[12] == layout::u8_value(b.src_num_bank));
        assert(a.bit_values()[13] == layout::u8_value(a.src_mat_aspt) && b.bit_values()[13] == layout::u8_value(b.src_mat_aspt));
        assert(a.bit_values()[14] == layout::u8_value(a.src_pipe_config) && b.bit_values()[14] == layout::u8_value(b.src_pipe_config));
        assert(a.bit_values()[15] == layout::u16_value(a.dst_x) && b.bit_values()[15] == layout::u16_value(b.dst_x));
        assert(a.bit_values()[16] == layout::u16_value(a.dst_y) && b.bit_values()[16] == layout::u16_value(b.dst_y));
        assert(a.bit_values()[17] == layout::u16_value(a.dst_z) && b.bit_values()[17] == layout::u16_value(b.dst_z));
        assert(a.bit_values()[18] == layout::u16_value(a.dst_width) && b.bit_values()[18] == layout::u16_value(b.dst_width));
        assert(a.bit_values()[19] == layout::u16_value(a.dst_height) && b.bit_values()[19] == layout::u16_value(b.dst_height));
        assert(a.bit_values()[20] == layout::u16_value(a.dst_depth) && b.bit_values()[20] == layout::u16_value(b.dst_depth));
        assert(a.bit_values()[21] == layout::u8_value(a.dst_element_size) && b.bit_values()[21] == layout::u8_value(b.dst_element_size));
        assert(a.bit_values()[22] == layout::u8_value(a.dst_array_mode) && b.bit_values()[22] == layout::u8_value(b.dst_array_mode));
        assert(a.bit_values()[23] == layout::u8_value(a.dst_mit_mode) && b.bit_values()[23] == layout::u8_value(b.dst_mit_mode));
        assert(a.bit_values()[24] == layout::u8_value(a.dst_tilesplit_size) && b.bit_values()[24] == layout::u8_value(b.dst_tilesplit_size));
        assert(a.bit_values()[25] == layout::u8_value(a.dst_bank_w) && b.bit_values()[25] == layout::u8_value(b.dst_bank_w));
        assert(a.bit_values()[26] == layout::u8_value(a.dst_bank_h) && b.bit_values()[26] == layout::u8_value(b.dst_bank_h));
        assert(a.bit_values()[27] == layout::u8_value(a.dst_num_bank) && b.bit_values()[27] == layout::u8_value(b.dst_num_bank));
        assert(a.bit_values()[28] == layout::u8_value(a.dst_mat_aspt) && b.bit_values()[28] == layout::u8_value(b.dst_mat_aspt));
        assert(a.bit_values()[29] == layout::u8_value(a.dst_pipe_config) && b.bit_values()[29] == layout::u8_value(b.dst_pipe_config));
        assert(a.bit_values()[30] == layout::u16_value(a.rect_x) && b.bit_values()[30] == layout::u16_value(b.rect_x));
        assert(a.bit_values()[31] == layout::u16_value(a.rect_y) && b.bit_values()[31] == layout::u16_value(b.rect_y));
        assert(a.bit_values()[32] == layout::u16_value(a.rect_z) && b.bit_values()[32] == layout::u16_value(b.rect_z));
        assert(a.bit_values()[33] == layout::u8_value(a.dst_sw) && b.bit_values()[33] == layout::u8_value(b.dst_sw));
        assert(a.bit_values()[34] == layout::u8_value(a.src_sw) && b.bit_values()[34] == layout::u8_value(b.src_sw));
        assert(a.join_values()[0] == a.src_addr && b.join_values()[0] == b.src_addr);
        assert(a.join_values()[1] == a.dst_addr && b.join_values()[1] == b.dst_addr);
    }

    /// Reading a packet is exact: two packets read from one buffer are equal.
    pub proof fn lemma_read_unique(a: Self, b: Self, buf: Seq<u32>)
        requires
            a.read_from(buf),
            b.read_from(buf),
        ensures
            a == b,
    {
        layout::lemma_reads_determine(
            buf,
            Self::bit_fields(),
            a.bit_values(),
            b.bit_values(),
            Self::join_fields(),
            a.join_values(),
            b.join_values(),
            Self::tail(),
            a.tail_data(),
            b.tail_data(),
        );
        Self::lemma_values_determine(a, b);
    }

    /// A packet reads back from what it was encoded to.
    pub proof fn lemma_roundtrip(self, buf: Seq<u32>)
        requires
            Self::layout_wf(),
            self.fits(),
            buf.len() >= self.size(),
        ensures
            self.read_from(self.spec_encode(buf)),
            Self::decodable(self.spec_encode(buf)),
            self.spec_encode(buf).len() == buf.len(),
    {
        layout::lemma_packet_roundtrip(
            buf,
            Self::bit_fields(),
            self.bit_values(),
            Self::join_fields(),
            self.join_values(),
            Self::tail(),
            self.tail_data(),
            Self::STATIC_DWORDS as nat,
        );
    }
}

/// The `CopyTiledSubwin` packet.
#[derive(Clone, Copy, Default)]
pub struct CopyTiledSubwin {
    pub tmz: bool,
    pub dcc: bool,
    pub detile: bool,
    pub tiled_x: u16,
    pub tiled_y: u16,
    pub tiled_z: u16,
    pub width: u16,
    pub height: u16,
    pub depth: u16,
    pub element_size: u8,
    pub swizzle_mode: u8,
    pub dimension: u8,
    pub mip_max: u8,
    pub mip_id: u8,
    pub linear_x: u16,
    pub linear_y: u16,
    pub linear_z: u16,
    pub linear_pitch: u16,
    pub linear_slice_pitch: u32,
    pub rect_x: u16,
    pub rect_y: u16,
    pub rect_z: u16,
    pub linear_sw: u8,
    pub tile_sw: u8,
    pub data_format: u8,
    pub color_transform_disable: bool,
    pub alpha_is_on_msb: bool,
    pub number_type: u8,
    pub surface_type: u8,
    pub max_comp_block_size: u8,
    pub max_uncomp_block_size: u8,
    pub write_compress_enable: bool,
    pub meta_tmz: bool,
    pub tiled_addr: u64,
    pub linear_addr: u64,
    pub meta_addr: u64,
}

impl CopyTiledSubwin {
    /// Dwords of the packet before its variable-length tail.
    pub const STATIC_DWORDS: usize = 17;

    pub open spec fn bit_fields() -> Seq<BitField> {
        seq![BitField { dw: 0, mask: 0x1, shift: 18 }, BitField { dw: 0, mask: 0x1, shift: 19 }, BitField { dw: 0, mask: 0x1, shift: 31 }, BitField { dw: 3, mask: 0x3fff, shift: 0 }, BitField { dw: 3, mask: 0x3fff, shift: 16 }, BitField { dw: 4, mask: 0x1fff, shift: 0 }, BitField { dw: 4, mask: 0x3fff, shift: 16 }, BitField { dw: 5, mask: 0x3fff, shift: 0 }, BitField { dw: 5, mask: 0x1fff, shift: 16 }, BitField { dw: 6, mask: 0x7, shift: 0 }, BitField { dw: 6, mask: 0x1f, shift: 3 }, BitField { dw: 6, mask: 0x3, shift: 9 }, BitField { dw: 6, mask: 0xf, shift: 16 }, BitField { dw: 6, mask: 0xf, shift: 20 }, BitField { dw: 9, mask: 0x3fff, shift: 0 }, BitField { dw: 9, mask: 0x3fff, shift: 16 }, BitField { dw: 10, mask: 0x1fff, shift: 0 }, BitField { dw: 10, mask: 0x3fff, shift: 16 }, BitField { dw: 11, mask: 0xfffffff, shift: 0 }, BitField { dw: 12, mask: 0x3fff, shift: 0 }, BitField { dw: 12, mask: 0x3fff, shift: 16 }, BitField { dw: 13, mask: 0x1fff, shift: 0 }, BitField { dw: 13, mask: 0x3, shift: 16 }, BitField { dw: 13, mask: 0x3, shift: 24 }, BitField { dw: 16, mask: 0x7f, shift: 0 }, BitField { dw: 16, mask: 0x1, shift: 7 }, BitField { dw: 16, mask: 0x1, shift: 8 }, BitField { dw: 16, mask: 0x7, shift: 9 }, BitField { dw: 16, mask: 0x3, shift: 12 }, BitField { dw: 16, mask: 0x3, shift: 24 }, BitField { dw: 16, mask: 0x3, shift: 26 }, BitField { dw: 16, mask: 0x1, shift: 28 }, BitField { dw: 16, mask: 0x1, shift: 29 }]
    }

    pub open spec fn join_fields() -> Seq<JoinField> {
        seq![JoinField { lo: 1, hi: 2 }, JoinField { lo: 7, hi: 8 }, JoinField { lo: 14, hi: 15 }]
    }

    pub open spec fn tail() -> Option<DynField> {
        None
    }

    pub open spec fn bit_values(self) -> Seq<u32> {
        seq![layout::bool_bit(self.tmz), layout::bool_bit(self.dcc), layout::bool_bit(self.detile), self.tiled_x as u32, self.tiled_y as u32, self.tiled_z as u32, self.width as u32, self.height as u32, self.depth as u32, self.element_size as u32, self.swizzle_mode as u32, self.dimension as u32, self.mip_max as u32, self.mip_id as u32, self.linear_x as u32, self.linear_y as u32, self.linear_z as u32, self.linear_pitch as u32, self.linear_slice_pitch, self.rect_x as u32, self.rect_y as u32, self.rect_z as u32, self.linear_sw as u32, self.tile_sw as u32, self.data_format as u32, layout::bool_bit(self.color_transform_disable), layout::bool_bit(self.alpha_is_on_msb), self.number_type as u32, self.surface_type as u32, self.max_comp_block_size as u32, self.max_uncomp_block_size as u32, layout::bool_bit(self.write_compress_enable), layout::bool_bit(self.meta_tmz)]
    }

    pub open spec fn join_values(self) -> Seq<u64> {
        seq![self.tiled_addr, self.linear_addr, self.meta_addr]
    }

    pub open spec fn tail_data(self) -> Seq<u32> {
        Seq::<u32>::empty()
    }

    /// Every field value fits its field.
    pub open spec fn fits(self) -> bool {
        layout::fields_fit(Self::bit_fields(), self.bit_values()) && layout::tail_fits(Self::tail(), self.tail_data())
    }

    pub open spec fn layout_wf() -> bool {
        layout::layout_wf(Self::bit_fields(), Self::join_fields(), Self::tail(), Self::STATIC_DWORDS as nat)
    }

    /// Dwords that the packet takes.
    pub open spec fn size(self) -> nat {
        (Self::STATIC_DWORDS + self.tail_data().len()) as nat
    }

    /// The buffer holds the whole packet.
    pub open spec fn decodable(buf: Seq<u32>) -> bool {
        buf.len() >= Self::STATIC_DWORDS
    }

    pub open spec fn spec_encode(self, buf: Seq<u32>) -> Seq<u32> {
        layout::encode_packet(
            buf,
            Self::bit_fields(),
            self.bit_values(),
            Self::join_fields(),
            self.join_values(),
            Self::tail(),
            self.tail_data(),
        )
    }

    /// `buf` holds this packet.
    pub open spec fn read_from(self, buf: Seq<u32>) -> bool {
        layout::packet_reads(
            buf,
            Self::bit_fields(),
            self.bit_values(),
            Self::join_fields(),
            self.join_values(),
            Self::tail(),
            self.tail_data(),
        )
    }

    fn exec_bit_fields() -> (r: Vec<BitField>)
        ensures
            r@ == Self::bit_fields(),
    {
        vec![BitField { dw: 0, mask: 0x1, shift: 18 }, BitField { dw: 0, mask: 0x1, shift: 19 }, BitField { dw: 0, mask: 0x1, shift: 31 }, BitField { dw: 3, mask: 0x3fff, shift: 0 }, BitField { dw: 3, mask: 0x3fff, shift: 16 }, BitField { dw: 4, mask: 0x1fff, shift: 0 }, BitField { dw: 4, mask: 0x3fff, shift: 16 }, BitField { dw: 5, mask: 0x3fff, shift: 0 }, BitField { dw: 5, mask: 0x1fff, shift: 16 }, BitField { dw: 6, mask: 0x7, shift: 0 }, BitField { dw: 6, mask: 0x1f, shift: 3 }, BitField { dw: 6, mask: 0x3, shift: 9 }, BitField { dw: 6, mask: 0xf, shift: 16 }, BitField { dw: 6, mask: 0xf, shift: 20 }, BitField { dw: 9, mask: 0x3fff, shift: 0 }, BitField { dw: 9, mask: 0x3fff, shift: 16 }, BitField { dw: 10, mask: 0x1fff, shift: 0 }, BitField { dw: 10, mask: 0x3fff, shift: 16 }, BitField { dw: 11, mask: 0xfffffff, shift: 0 }, BitField { dw: 12, mask: 0x3fff, shift: 0 }, BitField { dw: 12, mask: 0x3fff, shift: 16 }, BitField { dw: 13, mask: 0x1fff, shift: 0 }, BitField { dw: 13, mask: 0x3, shift: 16 }, BitField { dw: 13, mask: 0x3, shift: 24 }, BitField { dw: 16, mask: 0x7f, shift: 0 }, BitField { dw: 16, mask: 0x1, shift: 7 }, BitField { dw: 16, mask: 0x1, shift: 8 }, BitField { dw: 16, mask: 0x7, shift: 9 }, BitField { dw: 16, mask: 0x3, shift: 12 }, BitField { dw: 16, mask: 0x3, shift: 24 }, BitField { dw: 16, mask: 0x3, shift: 26 }, BitField { dw: 16, mask: 0x1, shift: 28 }, BitField { dw: 16, mask: 0x1, shift: 29 }]
    }

    fn exec_join_fields() -> (r: Vec<JoinField>)
        ensures
            r@ == Self::join_fields(),
    {
        vec![JoinField { lo: 1, hi: 2 }, JoinField { lo: 7, hi: 8 }, JoinField { lo: 14, hi: 15 }]
    }

    /// Whether the field layout of this packet is well formed.
    pub fn layout_ok() -> (r: bool)
        ensures
            r == Self::layout_wf(),
    {
        layout_is_wf(&Self::exec_bit_fields(), &Self::exec_join_fields(), None, Self::STATIC_DWORDS)
    }

    /// Writes the packet to the start of `buff`, without its header, and
    /// returns how many dwords it took.
    pub fn partial_encode_linear(&self, buff: &mut [u32]) -> (n: usize)
        requires
            old(buff)@.len() >= self.size(),
            self.fits(),
        ensures
            n == self.size(),
            final(buff)@ == self.spec_encode(old(buff)@),
            final(buff)@.len() == old(buff)@.len(),
    {
        let bits = Self::exec_bit_fields();
        let vals: Vec<u32> = vec![to_bit(self.tmz), to_bit(self.dcc), to_bit(self.detile), layout::widen_u16(self.tiled_x), layout::widen_u16(self.tiled_y), layout::widen_u16(self.tiled_z), layout::widen_u16(self.width), layout::widen_u16(self.height), layout::widen_u16(self.depth), layout::widen_u8(self.element_size), layout::widen_u8(self.swizzle_mode), layout::widen_u8(self.dimension), layout::widen_u8(self.mip_max), layout::widen_u8(self.mip_id), layout::widen_u16(self.linear_x), layout::widen_u16(self.linear_y), layout::widen_u16(self.linear_z), layout::widen_u16(self.linear_pitch), self.linear_slice_pitch, layout::widen_u16(self.rect_x), layout::widen_u16(self.rect_y), layout::widen_u16(self.rect_z), layout::widen_u8(self.linear_sw), layout::widen_u8(self.tile_sw), layout::widen_u8(self.data_format), to_bit(self.color_transform_disable), to_bit(self.alpha_is_on_msb), layout::widen_u8(self.number_type), layout::widen_u8(self.surface_type), layout::widen_u8(self.max_comp_block_size), layout::widen_u8(self.max_uncomp_block_size), to_bit(self.write_compress_enable), to_bit(self.meta_tmz)];
        let joins = Self::exec_join_fields();
        let jvals: Vec<u64> = vec![self.tiled_addr, self.linear_addr, self.meta_addr];
        proof {
            assert(vals@ =~= self.bit_values());
            assert(jvals@ =~= self.join_values());
        }
        encode_bit_fields(&bits, &vals, buff);
        encode_join_fields(&joins, &jvals, buff);
        Self::STATIC_DWORDS
    }

    /// Reads the packet at the start of `buff` and returns how many dwords it
    /// took.
    #[verifier::rlimit(40)]
    pub fn partial_decode_linear(buff: &[u32]) -> (r: (usize, Self))
        requires
            Self::decodable(buff@),
        ensures
            r.0 == r.1.size(),
            r.1.read_from(buff@),
    {
        let bits = Self::exec_bit_fields();
        let v = decode_bit_fields(&bits, buff);
        let joins = Self::exec_join_fields();
        let j = decode_join_fields(&joins, buff);
        let p = Self { tmz: v[0] != 0, dcc: v[1] != 0, detile: v[2] != 0, tiled_x: layout::narrow_u16(v[3]), tiled_y: layout::narrow_u16(v[4]), tiled_z: layout::narrow_u16(v[5]), width: layout::narrow_u16(v[6]), height: layout::narrow_u16(v[7]), depth: layout::narrow_u16(v[8]), element_size: layout::narrow_u8(v[9]), swizzle_mode: layout::narrow_u8(v[10]), dimension: layout::narrow_u8(v[11]), mip_max: layout::narrow_u8(v[12]), mip_id: layout::narrow_u8(v[13]), linear_x: layout::narrow_u16(v[14]), linear_y: layout::narrow_u16(v[15]), linear_z: layout::narrow_u16(v[16]), linear_pitch: layout::narrow_u16(v[17]), linear_slice_pitch: v[18], rect_x: layout::narrow_u16(v[19]), rect_y: layout::narrow_u16(v[20]), rect_z: layout::narrow_u16(v[21]), linear_sw: layout::narrow_u8(v[22]), tile_sw: layout::narrow_u8(v[23]), data_format: layout::narrow_u8(v[24]), color_transform_disable: v[25] != 0, alpha_is_on_msb: v[26] != 0, number_type: layout::narrow_u8(v[27]), surface_type: layout::narrow_u8(v[28]), max_comp_block_size: layout::narrow_u8(v[29]), max_uncomp_block_size: layout::narrow_u8(v[30]), write_compress_enable: v[31] != 0, meta_tmz: v[32] != 0, tiled_addr: j[0], linear_addr: j[1], meta_addr: j[2] };
        proof {
            assert(p.bit_values() =~= v@);
            assert(p.join_values() =~= j@);
        }
        (Self::STATIC_DWORDS, p)
    }

    /// Where each field stands in a buffer that the packet is read from, as
    /// the packet header lays it out: a bit field under its mask and shift
    /// in its dword, a 64-bit field in two dwords, low half first. By
    /// `lemma_roundtrip`, encoding a packet puts its fields there.
    #[verifier::rlimit(40)]
    pub proof fn lemma_field_positions(self, buf: Seq<u32>)
        requires
            self.read_from(buf),
        ensures
            layout::bool_bit(self.tmz) == layout::get_bits(buf[0], 0x1, 18),
            layout::bool_bit(self.dcc) == layout::get_bits(buf[0], 0x1, 19),
            layout::bool_bit(self.detile) == layout::get_bits(buf[0], 0x1, 31),
            layout::u16_value(self.tiled_x) == layout::get_bits(buf[3], 0x3fff, 0),
            layout::u16_value(self.tiled_y) == layout::get_bits(buf[3], 0x3fff, 16),
            layout::u16_value(self.tiled_z) == layout::get_bits(buf[4], 0x1fff, 0),
            layout::u16_value(self.width) == layout::get_bits(buf[4], 0x3fff, 16),
            layout::u16_value(self.height) == layout::get_bits(buf[5], 0x3fff, 0),
            layout::u16_value(self.depth) == layout::get_bits(buf[5], 0x1fff, 16),
            layout::u8_value(self.element_size) == layout::get_bits(buf[6], 0x7, 0),
            layout::u8_value(self.swizzle_mode) == layout::get_bits(buf[6], 0x1f, 3),
            layout::u8_value(self.dimension) == layout::get_bits(buf[6], 0x3, 9),
            layout::u8_value(self.mip_max) == layout::get_bits(buf[6], 0xf, 16),
            layout::u8_value(self.mip_id) == layout::get_bits(buf[6], 0xf, 20),
            layout::u16_value(self.linear_x) == layout::get_bits(buf[9], 0x3fff, 0),
            layout::u16_value(self.linear_y) == layout::get_bits(buf[9], 0x3fff, 16),
            layout::u16_value(self.linear_z) == layout::get_bits(buf[10], 0x1fff, 0),
            layout::u16_value(self.linear_pitch) == layout::get_bits(buf[10], 0x3fff, 16),
            self.linear_slice_pitch == layout::get_bits(buf[11], 0xfffffff, 0),
            layout::u16_value(self.rect_x) == layout::get_bits(buf[12], 0x3fff, 0),
            layout::u16_value(self.rect_y) == layout::get_bits(buf[12], 0x3fff, 16),
            layout::u16_value(self.rect_z) == layout::get_bits(buf[13], 0x1fff, 0),
            layout::u8_value(self.linear_sw) == layout::get_bits(buf[13], 0x3, 16),
            layout::u8_value(self.tile_sw) == layout::get_bits(buf[13], 0x3, 24),
            layout::u8_value(self.data_format) == layout::get_bits(buf[16], 0x7f, 0),
            layout::bool_bit(self.color_transform_disable) == layout::get_bits(buf[16], 0x1, 7),
            layout::bool_bit(self.alpha_is_on_msb) == layout::get_bits(buf[16], 0x1, 8),
            layout::u8_value(self.number_type) == layout::get_bits(buf[16], 0x7, 9),
            layout::u8_value(self.surface_type) == layout::get_bits(buf[16], 0x3, 12),
            layout::u8_value(self.max_comp_block_size) == layout::get_bits(buf[16], 0x3, 24),
            layout::u8_value(self.max_uncomp_block_size) == layout::get_bits(buf[16], 0x3, 26),
            layout::bool_bit(self.write_compress_enable) == layout::get_bits(buf[16], 0x1, 28),
            layout::bool_bit(self.meta_tmz) == layout::get_bits(buf[16], 0x1, 29),
            self.tiled_addr == layout::dword_pair(buf[1], buf[2]),
            self.linear_addr == layout::dword_pair(buf[7], buf[8]),
            self.meta_addr == layout::dword_pair(buf[14], buf[15]),
    {
        assert(self.bit_values()[0] == layout::bool_bit(self.tmz));
        assert(layout::decode_bits(buf, Self::bit_fields())[0] == self.bit_values()[0]);
        assert(self.bit_values()[1] == layout::bool_bit(self.dcc));
        assert(layout::decode_bits(buf, Self::bit_fields())[1] == self.bit_values()[1]);
        assert(self.bit_values()[2] == layout::bool_bit(self.detile));
        assert(layout::decode_bits(buf, Self::bit_fields())[2] == self.bit_values()[2]);
        assert(self.bit_values()[3] == layout::u16_value(self.tiled_x));
        assert(layout::decode_bits(buf, Self::bit_fields())[3] == self.bit_values()[3]);
        assert(self.bit_values()[4] == layout::u16_value(self.tiled_y));
        assert(layout::decode_bits(buf, Self::bit_fields())[4] == self.bit_values()[4]);
        assert(self.bit_values()[5] == layout::u16_value(self.tiled_z));
        assert(layout::decode_bits(buf, Self::bit_fields())[5] == self.bit_values()[5]);
        assert(self.bit_values()[6] == layout::u16_value(self.width));
        assert(layout::decode_bits(buf, Self::bit_fields())[6] == self.bit_values()[6]);
        assert(self.bit_values()[7] == layout::u16_value(self.height));
        assert(layout::decode_bits(buf, Self::bit_fields())[7] == self.bit_values()[7]);
        assert(self.bit_values()[8] == layout::u16_value(self.depth));
        assert(layout::decode_bits(buf, Self::bit_fields())[8] == self.bit_values()[8]);
        assert(self.bit_values()[9] == layout::u8_value(self.element_size));
        assert(layout::decode_bits(buf, Self::bit_fields())[9] == self.bit_values()[9]);
        assert(self.bit_values()[10] == layout::u8_value(self.swizzle_mode));
        assert(layout::decode_bits(buf, Self::bit_fields())[10] == self.bit_values()[10]);
        assert(self.bit_values()[11] == layout::u8_value(self.dimension));
        assert(layout::decode_bits(buf, Self::bit_fields())[11] == self.bit_values()[11]);
        assert(self.bit_values()[12] == layout::u8_value(self.mip_max));
        assert(layout::decode_bits(buf, Self::bit_fields())[12] == self.bit_values()[12]);
        assert(self.bit_values()[13] == layout::u8_value(self.mip_id));
        assert(layout::decode_bits(buf, Self::bit_fields())[13] == self.bit_values()[13]);
        assert(self.bit_values()[14] == layout::u16_value(self.linear_x));
        assert(layout::decode_bits(buf, Self::bit_fields())[14] == self.bit_values()[14]);
        assert(self.bit_values()[15] == layout::u16_value(self.linear_y));
        assert(layout::decode_bits(buf, Self::bit_fields())[15] == self.bit_values()[15]);
        assert(self.bit_values()[16] == layout::u16_value(self.linear_z));
        assert(layout::decode_bits(buf, Self::bit_fields())[16] == self.bit_values()[16]);
        assert(self.bit_values()[17] == layout::u16_value(self.linear_pitch));
        assert(layout::decode_bits(buf, Self::bit_fields())[17] == self.bit_values()[17]);
        assert(self.bit_values()[18] == self.linear_slice_pitch);
        assert(layout::decode_bits(buf, Self::bit_fields())[18] == self.bit_values()[18]);
        assert(self.bit_values()[19] == layout::u16_value(self.rect_x));
        assert(layout::decode_bits(buf, Self::bit_fields())[19] == self.bit_values()[19]);
        assert(self.bit_values()[20] == layout::u16_value(self.rect_y));
        assert(layout::decode_bits(buf, Self::bit_fields())[20] == self.bit_values()[20]);
        assert(self.bit_values()[21] == layout::u16_value(self.rect_z));
        assert(layout::decode_bits(buf, Self::bit_fields())[21] == self.bit_values()[21]);
        assert(self.bit_values()[22] == layout::u8_value(self.linear_sw));
        assert(layout::decode_bits(buf, Self::bit_fields())[22] == self.bit_values()[22]);
        assert(self.bit_values()[23] == layout::u8_value(self.tile_sw));
        assert(layout::decode_bits(buf, Self::bit_fields())[23] == self.bit_values()[23]);
        assert(self.bit_values()[24] == layout::u8_value(self.data_format));
        assert(layout::decode_bits(buf, Self::bit_fields())[24] == self.bit_values()[24]);
        assert(self.bit_values()[25] == layout::bool_bit(self.color_transform_disable));
        assert(layout::decode_bits(buf, Self::bit_fields())[25] == self.bit_values()[25]);
        assert(self.bit_values()[26] == layout::bool_bit(self.alpha_is_on_msb));
        assert(layout::decode_bits(buf, Self::bit_fields())[26] == self.bit_values()[26]);
        assert(self.bit_values()[27] == layout::u8_value(self.number_type));
        assert(layout::decode_bits(buf, Self::bit_fields())[27] == self.bit_values()[27]);
        assert(self.bit_values()[28] == layout::u8_value(self.surface_type));
        assert(layout::decode_bits(buf, Self::bit_fields())[28] == self.bit_values()[28]);
        assert(self.bit_values()[29] == layout::u8_value(self.max_comp_block_size));
        assert(layout::decode_bits(buf, Self::bit_fields())[29] == self.bit_values()[29]);
        assert(self.bit_values()[30] == layout::u8_value(self.max_uncomp_block_size));
        assert(layout::decode_bits(buf, Self::bit_fields())[30] == self.bit_values()[30]);
        assert(self.bit_values()[31] == layout::bool_bit(self.write_compress_enable));
        assert(layout::decode_bits(buf, Self::bit_fields())[31] == self.bit_values()[31]);
        assert(self.bit_values()[32] == layout::bool_bit(self.meta_tmz));
        assert(layout::decode_bits(buf, Self::bit_fields())[32] == self.bit_values()[32]);
        assert(layout::decode_joins(buf, Self::join_fields())[0] == self.join_values()[0]);
        assert(layout::decode_joins(buf, Self::join_fields())[1] == self.join_values()[1]);
        assert(layout::decode_joins(buf, Self::join_fields())[2] == self.join_values()[2]);
    }

    /// The field values name the packet: two packets with the same values are
    /// equal.
    #[verifier::rlimit(40)]
    pub proof fn lemma_values_determine(a: Self, b: Self)
        requires
            a.bit_values() == b.bit_values(),
            a.join_values() == b.join_values(),
            a.tail_data() == b.tail_data(),
        ensures
            a == b,
    {
        assert(a.bit_values()[0] == layout::bool_bit(a.tmz) && b.bit_values()[0] == layout::bool_bit(b.tmz));
        assert(a.bit_values()[1] == layout::bool_bit(a.dcc) && b.bit_values()[1] == layout::bool_bit(b.dcc));
        assert(a.bit_values()[2] == layout::bool_bit(a.detile) && b.bit_values()[2] == layout::bool_bit(b.detile));
        assert(a.bit_values()[3] == layout::u16_value(a.tiled_x) && b.bit_values()[3] == layout::u16_value(b.tiled_x));
        assert(a.bit_values()[4] == layout::u16_value(a.tiled_y) && b.bit_values()[4] == layout::u16_value(b.tiled_y));
        assert(a.bit_values()[5] == layout::u16_value(a.tiled_z) && b.bit_values()[5] == layout::u16_value(b.tiled_z));
        assert(a.bit_values()[6] == layout::u16_value(a.width) && b.bit_values()[6] == layout::u16_value(b.width));
        assert(a.bit_values()[7] == layout::u16_value(a.height) && b.bit_values()[7] == layout::u16_value(b.height));
        assert(a.bit_values()[8] == layout::u16_value(a.depth) && b.bit_values()[8] == layout::u16_value(b.depth));
        assert(a.bit_values()[9] == layout::u8_value(a.element_size) && b.bit_values()[9] == layout::u8_value(b.element_size));
        assert(a.bit_values()[10] == layout::u8_value(a.swizzle_mode) && b.bit_values()[10] == layout::u8_value(b.swizzle_mode));
        assert(a.bit_values()[11] == layout::u8_value(a.dimension) && b.bit_values()[11] == layout::u8_value(b.dimension));
        assert(a.bit_values()[12] == layout::u8_value(a.mip_max) && b.bit_values()[12] == layout::u8_value(b.mip_max));
        assert(a.bit_values()[13] == layout::u8_value(a.mip_id) && b.bit_values()[13] == layout::u8_value(b.mip_id));
        assert(a.bit_values()[14] == layout::u16_value(a.linear_x) && b.bit_values()[14] == layout::u16_value(b.linear_x));
        assert(a.bit_values()[15] == layout::u16_value(a.linear_y) && b.bit_values()[15] == layout::u16_value(b.linear_y));
        assert(a.bit_values()[16] == layout::u16_value(a.linear_z) && b.bit_values()[16] == layout::u16_value(b.linear_z));
        assert(a.bit_values()[17] == layout::u16_value(a.linear_pitch) && b.bit_values()[17] == layout::u16_value(b.linear_pitch));
        assert(a.bit_values()[18] == a.linear_slice_pitch && b.bit_values()[18] == b.linear_slice_pitch);
        assert(a.bit_values()[19] == layout::u16_value(a.rect_x) && b.bit_values()[19] == layout::u16_value(b.rect_x));
        assert(a.bit_values()[20] == layout::u16_value(a.rect_y) && b.bit_values()[20] == layout::u16_value(b.rect_y));
        assert(a.bit_values()[21] == layout::u16_value(a.rect_z) && b.bit_values()[21] == layout::u16_value(b.rect_z));
        assert(a.bit_values()[22] == layout::u8_value(a.linear_sw) && b.bit_values()[22] == layout::u8_value(b.linear_sw));
        assert(a.bit_values()[23] == layout::u8_value(a.tile_sw) && b.bit_values()[23] == layout::u8_value(b.tile_sw));
        assert(a.bit_values()[24] == layout::u8_value(a.data_format) && b.bit_values()[24] == layout::u8_value(b.data_format));
        assert(a.bit_values()[25] == layout::bool_bit(a.color_transform_disable) && b.bit_values()[25] == layout::bool_bit(b.color_transform_disable));
        assert(a.bit_values()[26] == layout::bool_bit(a.alpha_is_on_msb) && b.bit_values()[26] == layout::bool_bit(b.alpha_is_on_msb));
        assert(a.bit_values()[27] == layout::u8_value(a.number_type) && b.bit_values()[27] == layout::u8_value(b.number_type));
        assert(a.bit_values()[28] == layout::u8_value(a.surface_type) && b.bit_values()[28] == layout::u8_value(b.surface_type));
        assert(a.bit_values()[29] == layout::u8_value(a.max_comp_block_size) && b.bit_values()[29] == layout::u8_value(b.max_comp_block_size));
        assert(a.bit_values()[30] == layout::u8_value(a.max_uncomp_block_size) && b.bit_values()[30] == layout::u8_value(b.max_uncomp_block_size));
        assert(a.bit_values()[31] == layout::bool_bit(a.write_compress_enable) && b.bit_values()[31] == layout::bool_bit(b.write_compress_enable));
        assert(a.bit_values()[32] == layout::bool_bit(a.meta_tmz) && b.bit_values()[32] == layout::bool_bit(b.meta_tmz));
        assert(a.join_values()[0] == a.tiled_addr && b.join_values()[0] == b.tiled_addr);
        assert(a.join_values()[1] == a.linear_addr && b.join_values()[1] == b.linear_addr);
        assert(a.join_values()[2] == a.meta_addr && b.join_values()[2] == b.meta_addr);
    }

    /// Reading a packet is exact: two packets read from one buffer are equal.
    pub proof fn lemma_read_unique(a: Self, b: Self, buf: Seq<u32>)
        requires
            a.read_from(buf),
            b.read_from(buf),
        ensures
            a == b,
    {
        layout::lemma_reads_determine(
            buf,
            Self::bit_fields(),
            a.bit_values(),
            b.bit_values(),
            Self::join_fields(),
            a.join_values(),
            b.join_values(),
            Self::tail(),
            a.tail_data(),
            b.tail_data(),
        );
        Self::lemma_values_determine(a, b);
    }

    /// A packet reads back from what it was encoded to.
    pub proof fn lemma_roundtrip(self, buf: Seq<u32>)
        requires
            Self::layout_wf(),
            self.fits(),
            buf.len() >= self.size(),
        ensures
            self.read_from(self.spec_encode(buf)),
            Self::decodable(self.spec_encode(buf)),
            self.spec_encode(buf).len() == buf.len(),
    {
        layout::lemma_packet_roundtrip(
            buf,
            Self::bit_fields(),
            self.bit_values(),
            Self::join_fields(),
            self.join_values(),
            Self::tail(),
            self.tail_data(),
            Self::STATIC_DWORDS as nat,
        );
    }
}

/// The `CopyTiledSubwinBc` packet.
#[derive(Clone, Copy, Default)]
pub struct CopyTiledSubwinBc {
    pub detile: bool,
    pub tiled_x: u16,
    pub tiled_y: u16,
    pub tiled_z: u16,
    pub width: u16,
    pub height: u16,
    pub depth: u16,
    pub element_size: u8,
    pub array_mode: u8,
    pub mit_mode: u8,
    pub tilesplit_size: u8,
    pub bank_w: u8,
    pub bank_h: u8,
    pub num_bank: u8,
    pub mat_aspt: u8,
    pub pipe_config: u8,
    pub linear_x: u16,
    pub linear_y: u16,
    pub linear_z: u16,
    pub linear_pitch: u16,
    pub linear_slice_pitch: u32,
    pub rect_x: u16,
    pub rect_y: u16,
    pub rect_z: u16,
    pub linear_sw: u8,
    pub tile_sw: u8,
    pub tiled_addr: u64,
    pub linear_addr: u64,
}

impl CopyTiledSubwinBc {
    /// Dwords of the packet before its variable-length tail.
    pub const STATIC_DWORDS: usize = 14;

    pub open spec fn bit_fields() -> Seq<BitField> {
        seq![BitField { dw: 0, mask: 0x1, shift: 31 }, BitField { dw: 3, mask: 0x3fff, shift: 0 }, BitField { dw: 3, mask: 0x3fff, shift: 16 }, BitField { dw: 4, mask: 0x7ff, shift: 0 }, BitField { dw: 4, mask: 0x3fff, shift: 16 }, BitField { dw: 5, mask: 0x3fff, shift: 0 }, BitField { dw: 5, mask: 0x7ff, shift: 16 }, BitField { dw: 6, mask: 0x7, shift: 0 }, BitField { dw: 6, mask: 0xf, shift: 3 }, BitField { dw: 6, mask: 0x7, shift: 8 }, BitField { dw: 6, mask: 0x7, shift: 11 }, BitField { dw: 6, mask: 0x3, shift: 15 }, BitField { dw: 6, mask: 0x3, shift: 18 }, BitField { dw: 6, mask: 0x3, shift: 21 }, BitField { dw: 6, mask: 0x3, shift: 24 }, BitField { dw: 6, mask: 0x1f, shift: 26 }, BitField { dw: 9, mask: 0x3fff, shift: 0 }, BitField { dw: 9, mask: 0x3fff, shift: 16 }, BitField { dw: 10, mask: 0x7ff, shift: 0 }, BitField { dw: 10, mask: 0x3fff, shift: 16 }, BitField { dw: 11, mask: 0xfffffff, shift: 0 }, BitField { dw: 12, mask: 0x3fff, shift: 0 }, BitField { dw: 12, mask: 0x3fff, shift: 16 }, BitField { dw: 13, mask: 0x7ff, shift: 0 }, BitField { dw: 13, mask: 0x3, shift: 16 }, BitField { dw: 13, mask: 0x3, shift: 24 }]
    }

    pub open spec fn join_fields() -> Seq<JoinField> {
        seq![JoinField { lo: 1, hi: 2 }, JoinField { lo: 7, hi: 8 }]
    }

    pub open spec fn tail() -> Option<DynField> {
        None
    }

    pub open spec fn bit_values(self) -> Seq<u32> {
        seq![layout::bool_bit(self.detile), self.tiled_x as u32, self.tiled_y as u32, self.tiled_z as u32, self.width as u32, self.height as u32, self.depth as u32, self.element_size as u32, self.array_mode as u32, self.mit_mode as u32, self.tilesplit_size as u32, self.bank_w as u32, self.bank_h as u32, self.num_bank as u32, self.mat_aspt as u32, self.pipe_config as u32, self.linear_x as u32, self.linear_y as u32, self.linear_z as u32, self.linear_pitch as u32, self.linear_slice_pitch, self.rect_x as u32, self.rect_y as u32, self.rect_z as u32, self.linear_sw as u32, self.tile_sw as u32]
    }

    pub open spec fn join_values(self) -> Seq<u64> {
        seq![self.tiled_addr, self.linear_addr]
    }

    pub open spec fn tail_data(self) -> Seq<u32> {
        Seq::<u32>::empty()
    }

    /// Every field value fits its field.
    pub open spec fn fits(self) -> bool {
        layout::fields_fit(Self::bit_fields(), self.bit_values()) && layout::tail_fits(Self::tail(), self.tail_data())
    }

    pub open spec fn layout_wf() -> bool {
        layout::layout_wf(Self::bit_fields(), Self::join_fields(), Self::tail(), Self::STATIC_DWORDS as nat)
    }

    /// Dwords that the packet takes.
    pub open spec fn size(self) -> nat {
        (Self::STATIC_DWORDS + self.tail_data().len()) as nat
    }

    /// The buffer holds the whole packet.
    pub open spec fn decodable(buf: Seq<u32>) -> bool {
        buf.len() >= Self::STATIC_DWORDS
    }

    pub open spec fn spec_encode(self, buf: Seq<u32>) -> Seq<u32> {
        layout::encode_packet(
            buf,
            Self::bit_fields(),
            self.bit_values(),
            Self::join_fields(),
            self.join_values(),
            Self::tail(),
            self.tail_data(),
        )
    }

    /// `buf` holds this packet.
    pub open spec fn read_from(self, buf: Seq<u32>) -> bool {
        layout::packet_reads(
            buf,
            Self::bit_fields(),
            self.bit_values(),
            Self::join_fields(),
            self.join_values(),
            Self::tail(),
            self.tail_data(),
        )
    }

    fn exec_bit_fields() -> (r: Vec<BitField>)
        ensures
            r@ == Self::bit_fields(),
    {
        vec![BitField { dw: 0, mask: 0x1, shift: 31 }, BitField { dw: 3, mask: 0x3fff, shift: 0 }, BitField { dw: 3, mask: 0x3fff, shift: 16 }, BitField { dw: 4, mask: 0x7ff, shift: 0 }, BitField { dw: 4, mask: 0x3fff, shift: 16 }, BitField { dw: 5, mask: 0x3fff, shift: 0 }, BitField { dw: 5, mask: 0x7ff, shift: 16 }, BitField { dw: 6, mask: 0x7, shift: 0 }, BitField { dw: 6, mask: 0xf, shift: 3 }, BitField { dw: 6, mask: 0x7, shift: 8 }, BitField { dw: 6, mask: 0x7, shift: 11 }, BitField { dw: 6, mask: 0x3, shift: 15 }, BitField { dw: 6, mask: 0x3, shift: 18 }, BitField { dw: 6, mask: 0x3, shift: 21 }, BitField { dw: 6, mask: 0x3, shift: 24 }, BitField { dw: 6, mask: 0x1f, shift: 26 }, BitField { dw: 9, mask: 0x3fff, shift: 0 }, BitField { dw: 9, mask: 0x3fff, shift: 16 }, BitField { dw: 10, mask: 0x7ff, shift: 0 }, BitField { dw: 10, mask: 0x3fff, shift: 16 }, BitField { dw: 11, mask: 0xfffffff, shift: 0 }, BitField { dw: 12, mask: 0x3fff, shift: 0 }, BitField { dw: 12, mask: 0x3fff, shift: 16 }, BitField { dw: 13, mask: 0x7ff, shift: 0 }, BitField { dw: 13, mask: 0x3, shift: 16 }, BitField { dw: 13, mask: 0x3, shift: 24 }]
    }

    fn exec_join_fields() -> (r: Vec<JoinField>)
        ensures
            r@ == Self::join_fields(),
    {
        vec![JoinField { lo: 1, hi: 2 }, JoinField { lo: 7, hi: 8 }]
    }

    /// Whether the field layout of this packet is well formed.
    pub fn layout_ok() -> (r: bool)
        ensures
            r == Self::layout_wf(),
    {
        layout_is_wf(&Self::exec_bit_fields(), &Self::exec_join_fields(), None, Self::STATIC_DWORDS)
    }

    /// Writes the packet to the start of `buff`, without its header, and
    /// returns how many dwords it took.
    pub fn partial_encode_linear(&self, buff: &mut [u32]) -> (n: usize)
        requires
            old(buff)@.len() >= self.size(),
            self.fits(),
        ensures
            n == self.size(),
            final(buff)@ == self.spec_encode(old(buff)@),
            final(buff)@.len() == old(buff)@.len(),
    {
        let bits = Self::exec_bit_fields();
        let vals: Vec<u32> = vec![to_bit(self.detile), layout::widen_u16(self.tiled_x), layout::widen_u16(self.tiled_y), layout::widen_u16(self.tiled_z), layout::widen_u16(self.width), layout::widen_u16(self.height), layout::widen_u16(self.depth), layout::widen_u8(self.element_size), layout::widen_u8(self.array_mode), layout::widen_u8(self.mit_mode), layout::widen_u8(self.tilesplit_size), layout::widen_u8(self.bank_w), layout::widen_u8(self.bank_h), layout::widen_u8(self.num_bank), layout::widen_u8(self.mat_aspt), layout::widen_u8(self.pipe_config), layout::widen_u16(self.linear_x), layout::widen_u16(self.linear_y), layout::widen_u16(self.linear_z), layout::widen_u16(self.linear_pitch), self.linear_slice_pitch, layout::widen_u16(self.rect_x), layout::widen_u16(self.rect_y), layout::widen_u16(self.rect_z), layout::widen_u8(self.linear_sw), layout::widen_u8(self.tile_sw)];
        let joins = Self::exec_join_fields();
        let jvals: Vec<u64> = vec![self.tiled_addr, self.linear_addr];
        proof {
            assert(vals@ =~= self.bit_values());
            assert(jvals@ =~= self.join_values());
        }
        encode_bit_fields(&bits, &vals, buff);
        encode_join_fields(&joins, &jvals, buff);
        Self::STATIC_DWORDS
    }

    /// Reads the packet at the start of `buff` and returns how many dwords it
    /// took.
    #[verifier::rlimit(40)]
    pub fn partial_decode_linear(buff: &[u32]) -> (r: (usize, Self))
        requires
            Self::decodable(buff@),
        ensures
            r.0 == r.1.size(),
            r.1.read_from(buff@),
    {
        let bits = Self::exec_bit_fields();
        let v = decode_bit_fields(&bits, buff);
        let joins = Self::exec_join_fields();
        let j = decode_join_fields(&joins, buff);
        let p = Self { detile: v[0] != 0, tiled_x: layout::narrow_u16(v[1]), tiled_y: layout::narrow_u16(v[2]), tiled_z: layout::narrow_u16(v[3]), width: layout::narrow_u16(v[4]), height: layout::narrow_u16(v[5]), depth: layout::narrow_u16(v[6]), element_size: layout::narrow_u8(v[7]), array_mode: layout::narrow_u8(v[8]), mit_mode: layout::narrow_u8(v[9]), tilesplit_size: layout::narrow_u8(v[10]), bank_w: layout::narrow_u8(v[11]), bank_h: layout::narrow_u8(v[12]), num_bank: layout::narrow_u8(v[13]), mat_aspt: layout::narrow_u8(v[14]), pipe_config: layout::narrow_u8(v[15]), linear_x: layout::narrow_u16(v[16]), linear_y: layout::narrow_u16(v[17]), linear_z: layout::narrow_u16(v[18]), linear_pitch: layout::narrow_u16(v[19]), linear_slice_pitch: v[20], rect_x: layout::narrow_u16(v[21]), rect_y: layout::narrow_u16(v[22]), rect_z: layout::narrow_u16(v[23]), linear_sw: layout::narrow_u8(v[24]), tile_sw: layout::narrow_u8(v[25]), tiled_addr: j[0], linear_addr: j[1] };
        proof {
            assert(p.bit_values() =~= v@);
            assert(p.join_values() =~= j@);
        }
        (Self::STATIC_DWORDS, p)
    }

    /// Where each field stands in a buffer that the packet is read from, as
    /// the packet header lays it out: a bit field under its mask and shift
    /// in its dword, a 64-bit field in two dwords, low half first. By
    /// `lemma_roundtrip`, encoding a packet puts its fields there.
    #[verifier::rlimit(40)]
    pub proof fn lemma_field_positions(self, buf: Seq<u32>)
        requires
            self.read_from(buf),
        ensures
            layout::bool_bit(self.detile) == layout::get_bits(buf[0], 0x1, 31),
            layout::u16_value(self.tiled_x) == layout::get_bits(buf[3], 0x3fff, 0),
            layout::u16_value(self.tiled_y) == layout::get_bits(buf[3], 0x3fff, 16),
            layout::u16_value(self.tiled_z) == layout::get_bits(buf[4], 0x7ff, 0),
            layout::u16_value(self.width) == layout::get_bits(buf[4], 0x3fff, 16),
            layout::u16_value(self.height) == layout::get_bits(buf[5], 0x3fff, 0),
            layout::u16_value(self.depth) == layout::get_bits(buf[5], 0x7ff, 16),
            layout::u8_value(self.element_size) == layout::get_bits(buf[6], 0x7, 0),
            layout::u8_value(self.array_mode) == layout::get_bits(buf[6], 0xf, 3),
            layout::u8_value(self.mit_mode) == layout::get_bits(buf[6], 0x7, 8),
            layout::u8_value(self.tilesplit_size) == layout::get_bits(buf[6], 0x7, 11),
            layout::u8_value(self.bank_w) == layout::get_bits(buf[6], 0x3, 15),
            layout::u8_value(self.bank_h) == layout::get_bits(buf[6], 0x3, 18),
            layout::u8_value(self.num_bank) == layout::get_bits(buf[6], 0x3, 21),
            layout::u8_value(self.mat_aspt) == layout::get_bits(buf[6], 0x3, 24),
            layout::u8_value(self.pipe_config) == layout::get_bits(buf[6], 0x1f, 26),
            layout::u16_value(self.linear_x) == layout::get_bits(buf[9], 0x3fff, 0),
            layout::u16_value(self.linear_y) == layout::get_bits(buf[9], 0x3fff, 16),
            layout::u16_value(self.linear_z) == layout::get_bits(buf[10], 0x7ff, 0),
            layout::u16_value(self.linear_pitch) == layout::get_bits(buf[10], 0x3fff, 16),
            self.linear_slice_pitch == layout::get_bits(buf[11], 0xfffffff, 0),
            layout::u16_value(self.rect_x) == layout::get_bits(buf[12], 0x3fff, 0),
            layout::u16_value(self.rect_y) == layout::get_bits(buf[12], 0x3fff, 16),
            layout::u16_value(self.rect_z) == layout::get_bits(buf[13], 0x7ff, 0),
            layout::u8_value(self.linear_sw) == layout::get_bits(buf[13], 0x3, 16),
            layout::u8_value(self.tile_sw) == layout::get_bits(buf[13], 0x3, 24),
            self.tiled_addr == layout::dword_pair(buf[1], buf[2]),
            self.linear_addr == layout::dword_pair(buf[7], buf[8]),
    {
        assert(self.bit_values()[0] == layout::bool_bit(self.detile));
        assert(layout::decode_bits(buf, Self::bit_fields())[0] == self.bit_values()[0]);
        assert(self.bit_values()[1] == layout::u16_value(self.tiled_x));
        assert(layout::decode_bits(buf, Self::bit_fields())[1] == self.bit_values()[1]);
        assert(self.bit_values()[2] == layout::u16_value(self.tiled_y));
        assert(layout::decode_bits(buf, Self::bit_fields())[2] == self.bit_values()[2]);
        assert(self.bit_values()[3] == layout::u16_value(self.tiled_z));
        assert(layout::decode_bits(buf, Self::bit_fields())[3] == self.bit_values()[3]);
        assert(self.bit_values()[4] == layout::u16_value(self.width));
        assert(layout::decode_bits(buf, Self::bit_fields())[4] == self.bit_values()[4]);
        assert(self.bit_values()[5] == layout::u16_value(self.height));
        assert(layout::decode_bits(buf, Self::bit_fields())[5] == self.bit_values()[5]);
        assert(self.bit_values()[6] == layout::u16_value(self.depth));
        assert(layout::decode_bits(buf, Self::bit_fields())[6] == self.bit_values()[6]);
        assert(self.bit_values()[7] == layout::u8_value(self.element_size));
        assert(layout::decode_bits(buf, Self::bit_fields())[7] == self.bit_values()[7]);
        assert(self.bit_values()[8] == layout::u8_value(self.array_mode));
        assert(layout::decode_bits(buf, Self::bit_fields())[8] == self.bit_values()[8]);
        assert(self.bit_values()[9] == layout::u8_value(self.mit_mode));
        assert(layout::decode_bits(buf, Self::bit_fields())[9] == self.bit_values()[9]);
        assert(self.bit_values()[10] == layout::u8_value(self.tilesplit_size));
        assert(layout::decode_bits(buf, Self::bit_fields())[10] == self.bit_values()[10]);
        assert(self.bit_values()[11] == layout::u8_value(self.bank_w));
        assert(layout::decode_bits(buf, Self::bit_fields())[11] == self.bit_values()[11]);
        assert(self.bit_values()[12] == layout::u8_value(self.bank_h));
        assert(layout::decode_bits(buf, Self::bit_fields())[12] == self.bit_values()[12]);
        assert(self.bit_values()[13] == layout::u8_value(self.num_bank));
        assert(layout::decode_bits(buf, Self::bit_fields())[13] == self.bit_values()[13]);
        assert(self.bit_values()[14] == layout::u8_value(self.mat_aspt));
        assert(layout::decode_bits(buf, Self::bit_fields())[14] == self.bit_values()[14]);
        assert(self.bit_values()[15] == layout::u8_value(self.pipe_config));
        assert(layout::decode_bits(buf, Self::bit_fields())[15] == self.bit_values()[15]);
        assert(self.bit_values()[16] == layout::u16_value(self.linear_x));
        assert(layout::decode_bits(buf, Self::bit_fields())[16] == self.bit_values()[16]);
        assert(self.bit_values()[17] == layout::u16_value(self.linear_y));
        assert(layout::decode_bits(buf, Self::bit_fields())[17] == self.bit_values()[17]);
        assert(self.bit_values()[18] == layout::u16_value(self.linear_z));
        assert(layout::decode_bits(buf, Self::bit_fields())[18] == self.bit_values()[18]);
        assert(self.bit_values()[19] == layout::u16_value(self.linear_pitch));
        assert(layout::decode_bits(buf, Self::bit_fields())[19] == self.bit_values()[19]);
        assert(self.bit_values()[20] == self.linear_slice_pitch);
        assert(layout::decode_bits(buf, Self::bit_fields())[20] == self.bit_values()[20]);
        assert(self.bit_values()[21] == layout::u16_value(self.rect_x));
        assert(layout::decode_bits(buf, Self::bit_fields())[21] == self.bit_values()[21]);
        assert(self.bit_values()[22] == layout::u16_value(self.rect_y));
        assert(layout::decode_bits(buf, Self::bit_fields())[22] == self.bit_values()[22]);
        assert(self.bit_values()[23] == layout::u16_value(self.rect_z));
        assert(layout::decode_bits(buf, Self::bit_fields())[23] == self.bit_values()[23]);
        assert(self.bit_values()[24] == layout::u8_value(self.linear_sw));
        assert(layout::decode_bits(buf, Self::bit_fields())[24] == self.bit_values()[24]);
        assert(self.bit_values()[25] == layout::u8_value(self.tile_sw));
        assert(layout::decode_bits(buf, Self::bit_fields())[25] == self.bit_values()[25]);
        assert(layout::decode_joins(buf, Self::join_fields())[0] == self.join_values()[0]);
        assert(layout::decode_joins(buf, Self::join_fields())[1] == self.join_values()[1]);
    }

    /// The field values name the packet: two packets with the same values are
    /// equal.
    #[verifier::rlimit(40)]
    pub proof fn lemma_values_determine(a: Self, b: Self)
        requires
            a.bit_values() == b.bit_values(),
            a.join_values() == b.join_values(),
            a.tail_data() == b.tail_data(),
        ensures
            a == b,
    {
        assert(a.bit_values()[0] == layout::bool_bit(a.detile) && b.bit_values()[0] == layout::bool_bit(b.detile));
        assert(a.bit_values()[1] == layout::u16_value(a.tiled_x) && b.bit_values()[1] == layout::u16_value(b.tiled_x));
        assert(a.bit_values()[2] == layout::u16_value(a.tiled_y) && b.bit_values()[2] == layout::u16_value(b.tiled_y));
        assert(a.bit_values()[3] == layout::u16_value(a.tiled_z) && b.bit_values()[3] == layout::u16_value(b.tiled_z));
        assert(a.bit_values()[4] == layout::u16_value(a.width) && b.bit_values()[4] == layout::u16_value(b.width));
        assert(a.bit_values()[5] == layout::u16_value(a.height) && b.bit_values()[5] == layout::u16_value(b.height));
        assert(a.bit_values()[6] == layout::u16_value(a.depth) && b.bit_values()[6] == layout::u16_value(b.depth));
        assert(a.bit_values()[7] == layout::u8_value(a.element_size) && b.bit_values()[7] == layout::u8_value(b.element_size));
        assert(a.bit_values()[8] == layout::u8_value(a.array_mode) && b.bit_values()[8] == layout::u8_value(b.array_mode));
        assert(a.bit_values()[9] == layout::u8_value(a.mit_mode) && b.bit_values()[9] == layout::u8_value(b.mit_mode));
        assert(a.bit_values()[10] == layout::u8_value(a.tilesplit_size) && b.bit_values()[10] == layout::u8_value(b.tilesplit_size));
        assert(a.bit_values()[11] == layout::u8_value(a.bank_w) && b.bit_values()[11] == layout::u8_value(b.bank_w));
        assert(a.bit_values()[12] == layout::u8_value(a.bank_h) && b.bit_values()[12] == layout::u8_value(b.bank_h));
        assert(a.bit_values()[13] == layout::u8_value(a.num_bank) && b.bit_values()[13] == layout::u8_value(b.num_bank));
        assert(a.bit_values()[14] == layout::u8_value(a.mat_aspt) && b.bit_values()[14] == layout::u8_value(b.mat_aspt));
        assert(a.bit_values()[15] == layout::u8_value(a.pipe_config) && b.bit_values()[15] == layout::u8_value(b.pipe_config));
        assert(a.bit_values()[16] == layout::u16_value(a.linear_x) && b.bit_values()[16] == layout::u16_value(b.linear_x));
        assert(a.bit_values()[17] == layout::u16_value(a.linear_y) && b.bit_values()[17] == layout::u16_value(b.linear_y));
        assert(a.bit_values()[18] == layout::u16_value(a.linear_z) && b.bit_values()[18] == layout::u16_value(b.linear_z));
        assert(a.bit_values()[19] == layout::u16_value(a.linear_pitch) && b.bit_values()[19] == layout::u16_value(b.linear_pitch));
        assert(a.bit_values()[20] == a.linear_slice_pitch && b.bit_values()[20] == b.linear_slice_pitch);
        assert(a.bit_values()[21] == layout::u16_value(a.rect_x) && b.bit_values()[21] == layout::u16_value(b.rect_x));
        assert(a.bit_values()[22] == layout::u16_value(a.rect_y) && b.bit_values()[22] == layout::u16_value(b.rect_y));
        assert(a.bit_values()[23] == layout::u16_value(a.rect_z) && b.bit_values()[23] == layout::u16_value(b.rect_z));
        assert(a.bit_values()[24] == layout::u8_value(a.linear_sw) && b.bit_values()[24] == layout::u8_value(b.linear_sw));
        assert(a.bit_values()[25] == layout::u8_value(a.tile_sw) && b.bit_values()[25] == layout::u8_value(b.tile_sw));
        assert(a.join_values()[0] == a.tiled_addr && b.join_values()[0] == b.tiled_addr);
        assert(a.join_values()[1] == a.linear_addr && b.join_values()[1] == b.linear_addr);
    }

    /// Reading a packet is exact: two packets read from one buffer are equal.
    pub proof fn lemma_read_unique(a: Self, b: Self, buf: Seq<u32>)
        requires
            a.read_from(buf),
            b.read_from(buf),
        ensures
            a == b,
    {
        layout::lemma_reads_determine(
            buf,
            Self::bit_fields(),
            a.bit_values(),
            b.bit_values(),
            Self::join_fields(),
            a.join_values(),
            b.join_values(),
            Self::tail(),
            a.tail_data(),
            b.tail_data(),
        );
        Self::lemma_values_determine(a, b);
    }

    /// A packet reads back from what it was encoded to.
    pub proof fn lemma_roundtrip(self, buf: Seq<u32>)
        requires
            Self::layout_wf(),
            self.fits(),
            buf.len() >= self.size(),
        ensures
            self.read_from(self.spec_encode(buf)),
            Self::decodable(self.spec_encode(buf)),
            self.spec_encode(buf).len() == buf.len(),
    {
        layout::lemma_packet_roundtrip(
            buf,
            Self::bit_fields(),
            self.bit_values(),
            Self::join_fields(),
            self.join_values(),
            Self::tail(),
            self.tail_data(),
            Self::STATIC_DWORDS as nat,
        );
    }
}

/// The `CopyStruct` packet.
#[derive(Clone, Copy, Default)]
pub struct CopyStruct {
    pub tmz: bool,
    pub detile: bool,
    pub stride: u16,
    pub linear_sw: u8,
    pub struct_sw: u8,
    pub start_index: u32,
    pub count: u32,
    pub sb_addr: u64,
    pub linear_addr: u64,
}

impl CopyStruct {
    /// Dwords of the packet before its variable-length tail.
    pub const STATIC_DWORDS: usize = 8;

    pub open spec fn bit_fields() -> Seq<BitField> {
        seq![BitField { dw: 0, mask: 0x1, shift: 18 }, BitField { dw: 0, mask: 0x1, shift: 31 }, BitField { dw: 5, mask: 0x7ff, shift: 0 }, BitField { dw: 5, mask: 0x3, shift: 16 }, BitField { dw: 5, mask: 0x3, shift: 24 }, BitField { dw: 3, mask: 0xffffffff, shift: 0 }, BitField { dw: 4, mask: 0xffffffff, shift: 0 }]
    }

    pub open spec fn join_fields() -> Seq<JoinField> {
        seq![JoinField { lo: 1, hi: 2 }, JoinField { lo: 6, hi: 7 }]
    }

    pub open spec fn tail() -> Option<DynField> {
        None
    }

    pub open spec fn bit_values(self) -> Seq<u32> {
        seq![layout::bool_bit(self.tmz), layout::bool_bit(self.detile), self.stride as u32, self.linear_sw as u32, self.struct_sw as u32, self.start_index, self.count]
    }

    pub open spec fn join_values(self) -> Seq<u64> {
        seq![self.sb_addr, self.linear_addr]
    }

    pub open spec fn tail_data(self) -> Seq<u32> {
        Seq::<u32>::empty()
    }

    /// Every field value fits its field.
    pub open spec fn fits(self) -> bool {
        layout::fields_fit(Self::bit_fields(), self.bit_values()) && layout::tail_fits(Self::tail(), self.tail_data())
    }

    pub open spec fn layout_wf() -> bool {
        layout::layout_wf(Self::bit_fields(), Self::join_fields(), Self::tail(), Self::STATIC_DWORDS as nat)
    }

    /// Dwords that the packet takes.
    pub open spec fn size(self) -> nat {
        (Self::STATIC_DWORDS + self.tail_data().len()) as nat
    }

    /// The buffer holds the whole packet.
    pub open spec fn decodable(buf: Seq<u32>) -> bool {
        buf.len() >= Self::STATIC_DWORDS
    }

    pub open spec fn spec_encode(self, buf: Seq<u32>) -> Seq<u32> {
        layout::encode_packet(
            buf,
            Self::bit_fields(),
            self.bit_values(),
            Self::join_fields(),
            self.join_values(),
            Self::tail(),
            self.tail_data(),
        )
    }

    /// `buf` holds this packet.
    pub open spec fn read_from(self, buf: Seq<u32>) -> bool {
        layout::packet_reads(
            buf,
            Self::bit_fields(),
            self.bit_values(),
            Self::join_fields(),
            self.join_values(),
            Self::tail(),
            self.tail_data(),
        )
    }

    fn exec_bit_fields() -> (r: Vec<BitField>)
        ensures
            r@ == Self::bit_fields(),
    {
        vec![BitField { dw: 0, mask: 0x1, shift: 18 }, BitField { dw: 0, mask: 0x1, shift: 31 }, BitField { dw: 5, mask: 0x7ff, shift: 0 }, BitField { dw: 5, mask: 0x3, shift: 16 }, BitField { dw: 5, mask: 0x3, shift: 24 }, BitField { dw: 3, mask: 0xffffffff, shift: 0 }, BitField { dw: 4, mask: 0xffffffff, shift: 0 }]
    }

    fn exec_join_fields() -> (r: Vec<JoinField>)
        ensures
            r@ == Self::join_fields(),
    {
        vec![JoinField { lo: 1, hi: 2 }, JoinField { lo: 6, hi: 7 }]
    }

    /// Whether the field layout of this packet is well formed.
    pub fn layout_ok() -> (r: bool)
        ensures
            r == Self::layout_wf(),
    {
        layout_is_wf(&Self::exec_bit_fields(), &Self::exec_join_fields(), None, Self::STATIC_DWORDS)
    }

    /// Writes the packet to the start of `buff`, without its header, and
    /// returns how many dwords it took.
    pub fn partial_encode_linear(&self, buff: &mut [u32]) -> (n: usize)
        requires
            old(buff)@.len() >= self.size(),
            self.fits(),
        ensures
            n == self.size(),
            final(buff)@ == self.spec_encode(old(buff)@),
            final(buff)@.len() == old(buff)@.len(),
    {
        let bits = Self::exec_bit_fields();
        let vals: Vec<u32> = vec![to_bit(self.tmz), to_bit(self.detile), layout::widen_u16(self.stride), layout::widen_u8(self.linear_sw), layout::widen_u8(self.struct_sw), self.start_index, self.count];
        let joins = Self::exec_join_fields();
        let jvals: Vec<u64> = vec![self.sb_addr, self.linear_addr];
        proof {
            assert(vals@ =~= self.bit_values());
            assert(jvals@ =~= self.join_values());
        }
        encode_bit_fields(&bits, &vals, buff);
        encode_join_fields(&joins, &jvals, buff);
        Self::STATIC_DWORDS
    }

    /// Reads the packet at the start of `buff` and returns how many dwords it
    /// took.
    pub fn partial_decode_linear(buff: &[u32]) -> (r: (usize, Self))
        requires
            Self::decodable(buff@),
        ensures
            r.0 == r.1.size(),
            r.1.read_from(buff@),
    {
        let bits = Self::exec_bit_fields();
        let v = decode_bit_fields(&bits, buff);
        let joins = Self::exec_join_fields();
        let j = decode_join_fields(&joins, buff);
        let p = Self { tmz: v[0] != 0, detile: v[1] != 0, stride: layout::narrow_u16(v[2]), linear_sw: layout::narrow_u8(v[3]), struct_sw: layout::narrow_u8(v[4]), start_index: v[5], count: v[6], sb_addr: j[0], linear_addr: j[1] };
        proof {
            assert(p.bit_values() =~= v@);
            assert(p.join_values() =~= j@);
        }
        (Self::STATIC_DWORDS, p)
    }

    /// Where each field stands in a buffer that the packet is read from, as
    /// the packet header lays it out: a bit field under its mask and shift
    /// in its dword, a 64-bit field in two dwords, low half first. By
    /// `lemma_roundtrip`, encoding a packet puts its fields there.
    pub proof fn lemma_field_positions(self, buf: Seq<u32>)
        requires
            self.read_from(buf),
        ensures
            layout::bool_bit(self.tmz) == layout::get_bits(buf[0], 0x1, 18),
            layout::bool_bit(self.detile) == layout::get_bits(buf[0], 0x1, 31),
            layout::u16_value(self.stride) == layout::get_bits(buf[5], 0x7ff, 0),
            layout::u8_value(self.linear_sw) == layout::get_bits(buf[5], 0x3, 16),
            layout::u8_value(self.struct_sw) == layout::get_bits(buf[5], 0x3, 24),
            self.start_index == layout::get_bits(buf[3], 0xffffffff, 0),
            self.count == layout::get_bits(buf[4], 0xffffffff, 0),
            self.sb_addr == layout::dword_pair(buf[1], buf[2]),
            self.linear_addr == layout::dword_pair(buf[6], buf[7]),
    {
        assert(self.bit_values()[0] == layout::bool_bit(self.tmz));
        assert(layout::decode_bits(buf, Self::bit_fields())[0] == self.bit_values()[0]);
        assert(self.bit_values()[1] == layout::bool_bit(self.detile));
        assert(layout::decode_bits(buf, Self::bit_fields())[1] == self.bit_values()[1]);
        assert(self.bit_values()[2] == layout::u16_value(self.stride));
        assert(layout::decode_bits(buf, Self::bit_fields())[2] == self.bit_values()[2]);
        assert(self.bit_values()[3] == layout::u8_value(self.linear_sw));
        assert(layout::decode_bits(buf, Self::bit_fields())[3] == self.bit_values()[3]);
        assert(self.bit_values()[4] == layout::u8_value(self.struct_sw));
        assert(layout::decode_bits(buf, Self::bit_fields())[4] == self.bit_values()[4]);
        assert(self.bit_values()[5] == self.start_index);
        assert(layout::decode_bits(buf, Self::bit_fields())[5] == self.bit_values()[5]);
        assert(self.bit_values()[6] == self.count);
        assert(layout::decode_bits(buf, Self::bit_fields())[6] == self.bit_values()[6]);
        assert(layout::decode_joins(buf, Self::join_fields())[0] == self.join_values()[0]);
        assert(layout::decode_joins(buf, Self::join_fields())[1] == self.join_values()[1]);
    }

    /// The field values name the packet: two packets with the same values are
    /// equal.
    pub proof fn lemma_values_determine(a: Self, b: Self)
        requires
            a.bit_values() == b.bit_values(),
            a.join_values() == b.join_values(),
            a.tail_data() == b.tail_data(),
        ensures
            a == b,
    {
        assert(a.bit_values()[0] == layout::bool_bit(a.tmz) && b.bit_values()[0] == layout::bool_bit(b.tmz));
        assert(a.bit_values()[1] == layout::bool_bit(a.detile) && b.bit_values()[1] == layout::bool_bit(b.detile));
        assert(a.bit_values()[2] == layout::u16_value(a.stride) && b.bit_values()[2] == layout::u16_value(b.stride));
        assert(a.bit_values()[3] == layout::u8_value(a.linear_sw) && b.bit_values()[3] == layout::u8_value(b.linear_sw));
        assert(a.bit_values()[4] == layout::u8_value(a.struct_sw) && b.bit_values()[4] == layout::u8_value(b.struct_sw));
        assert(a.bit_values()[5] == a.start_index && b.bit_values()[5] == b.start_index);
        assert(a.bit_values()[6] == a.count && b.bit_values()[6] == b.count);
        assert(a.join_values()[0] == a.sb_addr && b.join_values()[0] == b.sb_addr);
        assert(a.join_values()[1] == a.linear_addr && b.join_values()[1] == b.linear_addr);
    }

    /// Reading a packet is exact: two packets read from one buffer are equal.
    pub proof fn lemma_read_unique(a: Self, b: Self, buf: Seq<u32>)
        requires
            a.read_from(buf),
            b.read_from(buf),
        ensures
            a == b,
    {
        layout::lemma_reads_determine(
            buf,
            Self::bit_fields(),
            a.bit_values(),
            b.bit_values(),
            Self::join_fields(),
            a.join_values(),
            b.join_values(),
            Self::tail(),
            a.tail_data(),
            b.tail_data(),
        );
        Self::lemma_values_determine(a, b);
    }

    /// A packet reads back from what it was encoded to.
    pub proof fn lemma_roundtrip(self, buf: Seq<u32>)
        requires
            Self::layout_wf(),
            self.fits(),
            buf.len() >= self.size(),
        ensures
            self.read_from(self.spec_encode(buf)),
            Self::decodable(self.spec_encode(buf)),
            self.spec_encode(buf).len() == buf.len(),
    {
        layout::lemma_packet_roundtrip(
            buf,
            Self::bit_fields(),
            self.bit_values(),
            Self::join_fields(),
            self.join_values(),
            Self::tail(),
            self.tail_data(),
            Self::STATIC_DWORDS as nat,
        );
    }
}

/// The `WriteUntiled` packet.
#[derive(Clone, Copy, Default)]
pub struct WriteUntiled<'a> {
    pub encrypt: bool,
    pub tmz: bool,
    pub sw: u8,
    pub dst_addr: u64,
    pub data0: &'a [u32],
}

impl<'a> WriteUntiled<'a> {
    /// Dwords of the packet before its variable-length tail.
    pub const STATIC_DWORDS: usize = 4;

    pub open spec fn bit_fields() -> Seq<BitField> {
        seq![BitField { dw: 0, mask: 0x1, shift: 16 }, BitField { dw: 0, mask: 0x1, shift: 18 }, BitField { dw: 3, mask: 0x3, shift: 24 }]
    }

    pub open spec fn join_fields() -> Seq<JoinField> {
        seq![JoinField { lo: 1, hi: 2 }]
    }

    pub open spec fn tail() -> Option<DynField> {
        Some(DynField { start: 4, len_dw: 3, mask: 0xfffff, shift: 0 })
    }

    pub open spec fn bit_values(self) -> Seq<u32> {
        seq![layout::bool_bit(self.encrypt), layout::bool_bit(self.tmz), self.sw as u32]
    }

    pub open spec fn join_values(self) -> Seq<u64> {
        seq![self.dst_addr]
    }

    pub open spec fn tail_data(self) -> Seq<u32> {
        self.data0@
    }

    /// Every field value fits its field.
    pub open spec fn fits(self) -> bool {
        layout::fields_fit(Self::bit_fields(), self.bit_values()) && layout::tail_fits(Self::tail(), self.tail_data())
    }

    pub open spec fn layout_wf() -> bool {
        layout::layout_wf(Self::bit_fields(), Self::join_fields(), Self::tail(), Self::STATIC_DWORDS as nat)
    }

    /// Dwords that the packet takes.
    pub open spec fn size(self) -> nat {
        (Self::STATIC_DWORDS + self.tail_data().len()) as nat
    }

    /// The buffer holds the whole packet, tail included.
    pub open spec fn decodable(buf: Seq<u32>) -> bool {
        buf.len() >= Self::STATIC_DWORDS && Self::STATIC_DWORDS + layout::read_dyn_len(buf, Self::tail().unwrap()) <= buf.len()
    }

    pub open spec fn spec_encode(self, buf: Seq<u32>) -> Seq<u32> {
        layout::encode_packet(
            buf,
            Self::bit_fields(),
            self.bit_values(),
            Self::join_fields(),
            self.join_values(),
            Self::tail(),
            self.tail_data(),
        )
    }

    /// `buf` holds this packet.
    pub open spec fn read_from(self, buf: Seq<u32>) -> bool {
        layout::packet_reads(
            buf,
            Self::bit_fields(),
            self.bit_values(),
            Self::join_fields(),
            self.join_values(),
            Self::tail(),
            self.tail_data(),
        )
    }

    fn exec_bit_fields() -> (r: Vec<BitField>)
        ensures
            r@ == Self::bit_fields(),
    {
        vec![BitField { dw: 0, mask: 0x1, shift: 16 }, BitField { dw: 0, mask: 0x1, shift: 18 }, BitField { dw: 3, mask: 0x3, shift: 24 }]
    }

    fn exec_join_fields() -> (r: Vec<JoinField>)
        ensures
            r@ == Self::join_fields(),
    {
        vec![JoinField { lo: 1, hi: 2 }]
    }

    /// Whether the field layout of this packet is well formed.
    pub fn layout_ok() -> (r: bool)
        ensures
            r == Self::layout_wf(),
    {
        layout_is_wf(&Self::exec_bit_fields(), &Self::exec_join_fields(), Some(DynField { start: 4, len_dw: 3, mask: 0xfffff, shift: 0 }), Self::STATIC_DWORDS)
    }

    /// Writes the packet to the start of `buff`, without its header, and
    /// returns how many dwords it took.
    pub fn partial_encode_linear(&self, buff: &mut [u32]) -> (n: usize)
        requires
            old(buff)@.len() >= self.size(),
            self.fits(),
        ensures
            n == self.size(),
            final(buff)@ == self.spec_encode(old(buff)@),
            final(buff)@.len() == old(buff)@.len(),
    {
        let bits = Self::exec_bit_fields();
        let vals: Vec<u32> = vec![to_bit(self.encrypt), to_bit(self.tmz), layout::widen_u8(self.sw)];
        let joins = Self::exec_join_fields();
        let jvals: Vec<u64> = vec![self.dst_addr];
        proof {
            assert(vals@ =~= self.bit_values());
            assert(jvals@ =~= self.join_values());
        }
        encode_bit_fields(&bits, &vals, buff);
        encode_join_fields(&joins, &jvals, buff);
        encode_tail(DynField { start: 4, len_dw: 3, mask: 0xfffff, shift: 0 }, self.data0, buff);
        Self::STATIC_DWORDS + self.data0.len()
    }

    /// Reads the packet at the start of `buff` and returns how many dwords it
    /// took.
    pub fn partial_decode_linear(buff: &'a [u32]) -> (r: (usize, Self))
        requires
            Self::decodable(buff@),
        ensures
            r.0 == r.1.size(),
            r.1.read_from(buff@),
    {
        let bits = Self::exec_bit_fields();
        let v = decode_bit_fields(&bits, buff);
        let joins = Self::exec_join_fields();
        let j = decode_join_fields(&joins, buff);
        let data0 = decode_tail(DynField { start: 4, len_dw: 3, mask: 0xfffff, shift: 0 }, buff);
        let p = Self { encrypt: v[0] != 0, tmz: v[1] != 0, sw: layout::narrow_u8(v[2]), dst_addr: j[0], data0 };
        proof {
            assert(p.bit_values() =~= v@);
            assert(p.join_values() =~= j@);
        }
        (Self::STATIC_DWORDS + p.data0.len(), p)
    }

    /// Where each field stands in a buffer that the packet is read from, as
    /// the packet header lays it out: a bit field under its mask and shift
    /// in its dword, a 64-bit field in two dwords, low half first. By
    /// `lemma_roundtrip`, encoding a packet puts its fields there.
    pub proof fn lemma_field_positions(self, buf: Seq<u32>)
        requires
            self.read_from(buf),
        ensures
            layout::bool_bit(self.encrypt) == layout::get_bits(buf[0], 0x1, 16),
            layout::bool_bit(self.tmz) == layout::get_bits(buf[0], 0x1, 18),
            layout::u8_value(self.sw) == layout::get_bits(buf[3], 0x3, 24),
            self.dst_addr == layout::dword_pair(buf[1], buf[2]),
            self.data0@ == buf.subrange(4, 4 + layout::get_bits(buf[3], 0xfffff, 0)),
    {
        assert(self.bit_values()[0] == layout::bool_bit(self.encrypt));
        assert(layout::decode_bits(buf, Self::bit_fields())[0] == self.bit_values()[0]);
        assert(self.bit_values()[1] == layout::bool_bit(self.tmz));
        assert(layout::decode_bits(buf, Self::bit_fields())[1] == self.bit_values()[1]);
        assert(self.bit_values()[2] == layout::u8_value(self.sw));
        assert(layout::decode_bits(buf, Self::bit_fields())[2] == self.bit_values()[2]);
        assert(layout::decode_joins(buf, Self::join_fields())[0] == self.join_values()[0]);
    }

    /// The field values name the packet: two packets with the same values are
    /// equal.
    pub proof fn lemma_values_determine(a: Self, b: Self)
        requires
            a.bit_values() == b.bit_values(),
            a.join_values() == b.join_values(),
            a.tail_data() == b.tail_data(),
        ensures
            a == b,
    {
        assert(a.bit_values()[0] == layout::bool_bit(a.encrypt) && b.bit_values()[0] == layout::bool_bit(b.encrypt));
        assert(a.bit_values()[1] == layout::bool_bit(a.tmz) && b.bit_values()[1] == layout::bool_bit(b.tmz));
        assert(a.bit_values()[2] == layout::u8_value(a.sw) && b.bit_values()[2] == layout::u8_value(b.sw));
        assert(a.join_values()[0] == a.dst_addr && b.join_values()[0] == b.dst_addr);
        assert(a.data0@ =~= b.data0@);
        assert(a.data0 =~= b.data0);
    }

    /// Reading a packet is exact: two packets read from one buffer are equal.
    pub proof fn lemma_read_unique(a: Self, b: Self, buf: Seq<u32>)
        requires
            a.read_from(buf),
            b.read_from(buf),
        ensures
            a == b,
    {
        layout::lemma_reads_determine(
            buf,
            Self::bit_fields(),
            a.bit_values(),
            b.bit_values(),
            Self::join_fields(),
            a.join_values(),
            b.join_values(),
            Self::tail(),
            a.tail_data(),
            b.tail_data(),
        );
        Self::lemma_values_determine(a, b);
    }

    /// A packet reads back from what it was encoded to.
    pub proof fn lemma_roundtrip(self, buf: Seq<u32>)
        requires
            Self::layout_wf(),
            self.fits(),
            buf.len() >= self.size(),
        ensures
            self.read_from(self.spec_encode(buf)),
            Self::decodable(self.spec_encode(buf)),
            self.spec_encode(buf).len() == buf.len(),
    {
        layout::lemma_packet_roundtrip(
            buf,
            Self::bit_fields(),
            self.bit_values(),
            Self::join_fields(),
            self.join_values(),
            Self::tail(),
            self.tail_data(),
            Self::STATIC_DWORDS as nat,
        );
    }
}

/// The `WriteTiled` packet.
#[derive(Clone, Copy, Default)]
pub struct WriteTiled<'a> {
    pub encrypt: bool,
    pub tmz: bool,
    pub width: u16,
    pub height: u16,
    pub depth: u16,
    pub element_size: u8,
    pub swizzle_mode: u8,
    pub dimension: u8,
    pub mip_max: u8,
    pub x: u16,
    pub y: u16,
    pub z: u16,
    pub sw: u8,
    pub count: u32,
    pub dst_addr: u64,
    pub data: &'a [u32],
}

impl<'a> WriteTiled<'a> {
    /// Dwords of the packet before its variable-length tail.
    pub const STATIC_DWORDS: usize = 9;

    pub open spec fn bit_fields() -> Seq<BitField> {
        seq![BitField { dw: 0, mask: 0x1, shift: 16 }, BitField { dw: 0, mask: 0x1, shift: 18 }, BitField { dw: 3, mask: 0x3fff, shift: 0 }, BitField { dw: 4, mask: 0x3fff, shift: 0 }, BitField { dw: 4, mask: 0x1fff, shift: 16 }, BitField { dw: 5, mask: 0x7, shift: 0 }, BitField { dw: 5, mask: 0x1f, shift: 3 }, BitField { dw: 5, mask: 0x3, shift: 9 }, BitField { dw: 5, mask: 0xf, shift: 16 }, BitField { dw: 6, mask: 0x3fff, shift: 0 }, BitField { dw: 6, mask: 0x3fff, shift: 16 }, BitField { dw: 7, mask: 0x1fff, shift: 0 }, BitField { dw: 7, mask: 0x3, shift: 24 }, BitField { dw: 8, mask: 0xfffff, shift: 0 }]
    }

    pub open spec fn join_fields() -> Seq<JoinField> {
        seq![JoinField { lo: 1, hi: 2 }]
    }

    pub open spec fn tail() -> Option<DynField> {
        Some(DynField { start: 9, len_dw: 8, mask: 0xfffff, shift: 0 })
    }

    pub open spec fn bit_values(self) -> Seq<u32> {
        seq![layout::bool_bit(self.encrypt), layout::bool_bit(self.tmz), self.width as u32, self.height as u32, self.depth as u32, self.element_size as u32, self.swizzle_mode as u32, self.dimension as u32, self.mip_max as u32, self.x as u32, self.y as u32, self.z as u32, self.sw as u32, self.count]
    }

    pub open spec fn join_values(self) -> Seq<u64> {
        seq![self.dst_addr]
    }

    pub open spec fn tail_data(self) -> Seq<u32> {
        self.data@
    }

    /// Every field value fits its field.
    pub open spec fn fits(self) -> bool {
        layout::fields_fit(Self::bit_fields(), self.bit_values()) && layout::tail_fits(Self::tail(), self.tail_data())
    }

    pub open spec fn layout_wf() -> bool {
        layout::layout_wf(Self::bit_fields(), Self::join_fields(), Self::tail(), Self::STATIC_DWORDS as nat)
    }

    /// Dwords that the packet takes.
    pub open spec fn size(self) -> nat {
        (Self::STATIC_DWORDS + self.tail_data().len()) as nat
    }

    /// The buffer holds the whole packet, tail included.
    pub open spec fn decodable(buf: Seq<u32>) -> bool {
        buf.len() >= Self::STATIC_DWORDS && Self::STATIC_DWORDS + layout::read_dyn_len(buf, Self::tail().unwrap()) <= buf.len()
    }

    pub open spec fn spec_encode(self, buf: Seq<u32>) -> Seq<u32> {
        layout::encode_packet(
            buf,
            Self::bit_fields(),
            self.bit_values(),
            Self::join_fields(),
            self.join_values(),
            Self::tail(),
            self.tail_data(),
        )
    }

    /// `buf` holds this packet.
    pub open spec fn read_from(self, buf: Seq<u32>) -> bool {
        layout::packet_reads(
            buf,
            Self::bit_fields(),
            self.bit_values(),
            Self::join_fields(),
            self.join_values(),
            Self::tail(),
            self.tail_data(),
        )
    }

    fn exec_bit_fields() -> (r: Vec<BitField>)
        ensures
            r@ == Self::bit_fields(),
    {
        vec![BitField { dw: 0, mask: 0x1, shift: 16 }, BitField { dw: 0, mask: 0x1, shift: 18 }, BitField { dw: 3, mask: 0x3fff, shift: 0 }, BitField { dw: 4, mask: 0x3fff, shift: 0 }, BitField { dw: 4, mask: 0x1fff, shift: 16 }, BitField { dw: 5, mask: 0x7, shift: 0 }, BitField { dw: 5, mask: 0x1f, shift: 3 }, BitField { dw: 5, mask: 0x3, shift: 9 }, BitField { dw: 5, mask: 0xf, shift: 16 }, BitField { dw: 6, mask: 0x3fff, shift: 0 }, BitField { dw: 6, mask: 0x3fff, shift: 16 }, BitField { dw: 7, mask: 0x1fff, shift: 0 }, BitField { dw: 7, mask: 0x3, shift: 24 }, BitField { dw: 8, mask: 0xfffff, shift: 0 }]
    }

    fn exec_join_fields() -> (r: Vec<JoinField>)
        ensures
            r@ == Self::join_fields(),
    {
        vec![JoinField { lo: 1, hi: 2 }]
    }

    /// Whether the field layout of this packet is well formed.
    pub fn layout_ok() -> (r: bool)
        ensures
            r == Self::layout_wf(),
    {
        layout_is_wf(&Self::exec_bit_fields(), &Self::exec_join_fields(), Some(DynField { start: 9, len_dw: 8, mask: 0xfffff, shift: 0 }), Self::STATIC_DWORDS)
    }

    /// Writes the packet to the start of `buff`, without its header, and
    /// returns how many dwords it took.
    pub fn partial_encode_linear(&self, buff: &mut [u32]) -> (n: usize)
        requires
            old(buff)@.len() >= self.size(),
            self.fits(),
        ensures
            n == self.size(),
            final(buff)@ == self.spec_encode(old(buff)@),
            final(buff)@.len() == old(buff)@.len(),
    {
        let bits = Self::exec_bit_fields();
        let vals: Vec<u32> = vec![to_bit(self.encrypt), to_bit(self.tmz), layout::widen_u16(self.width), layout::widen_u16(self.height), layout::widen_u16(self.depth), layout::widen_u8(self.element_size), layout::widen_u8(self.swizzle_mode), layout::widen_u8(self.dimension), layout::widen_u8(self.mip_max), layout::widen_u16(self.x), layout::widen_u16(self.y), layout::widen_u16(self.z), layout::widen_u8(self.sw), self.count];
        let joins = Self::exec_join_fields();
        let jvals: Vec<u64> = vec![self.dst_addr];
        proof {
            assert(vals@ =~= self.bit_values());
            assert(jvals@ =~= self.join_values());
        }
        encode_bit_fields(&bits, &vals, buff);
        encode_join_fields(&joins, &jvals, buff);
        encode_tail(DynField { start: 9, len_dw: 8, mask: 0xfffff, shift: 0 }, self.data, buff);
        Self::STATIC_DWORDS + self.data.len()
    }

    /// Reads the packet at the start of `buff` and returns how many dwords it
    /// took.
    pub fn partial_decode_linear(buff: &'a [u32]) -> (r: (usize, Self))
        requires
            Self::decodable(buff@),
        ensures
            r.0 == r.1.size(),
            r.1.read_from(buff@),
    {
        let bits = Self::exec_bit_fields();
        let v = decode_bit_fields(&bits, buff);
        let joins = Self::exec_join_fields();
        let j = decode_join_fields(&joins, buff);
        let data = decode_tail(DynField { start: 9, len_dw: 8, mask: 0xfffff, shift: 0 }, buff);
        let p = Self { encrypt: v[0] != 0, tmz: v[1] != 0, width: layout::narrow_u16(v[2]), height: layout::narrow_u16(v[3]), depth: layout::narrow_u16(v[4]), element_size: layout::narrow_u8(v[5]), swizzle_mode: layout::narrow_u8(v[6]), dimension: layout::narrow_u8(v[7]), mip_max: layout::narrow_u8(v[8]), x: layout::narrow_u16(v[9]), y: layout::narrow_u16(v[10]), z: layout::narrow_u16(v[11]), sw: layout::narrow_u8(v[12]), count: v[13], dst_addr: j[0], data };
        proof {
            assert(p.bit_values() =~= v@);
            assert(p.join_values() =~= j@);
        }
        (Self::STATIC_DWORDS + p.data.len(), p)
    }

    /// Where each field stands in a buffer that the packet is read from, as
    /// the packet header lays it out: a bit field under its mask and shift
    /// in its dword, a 64-bit field in two dwords, low half first. By
    /// `lemma_roundtrip`, encoding a packet puts its fields there.
    pub proof fn lemma_field_positions(self, buf: Seq<u32>)
        requires
            self.read_from(buf),
        ensures
            layout::bool_bit(self.encrypt) == layout::get_bits(buf[0], 0x1, 16),
            layout::bool_bit(self.tmz) == layout::get_bits(buf[0], 0x1, 18),
            layout::u16_value(self.width) == layout::get_bits(buf[3], 0x3fff, 0),
            layout::u16_value(self.height) == layout::get_bits(buf[4], 0x3fff, 0),
            layout::u16_value(self.depth) == layout::get_bits(buf[4], 0x1fff, 16),
            layout::u8_value(self.element_size) == layout::get_bits(buf[5], 0x7, 0),
            layout::u8_value(self.swizzle_mode) == layout::get_bits(buf[5], 0x1f, 3),
            layout::u8_value(self.dimension) == layout::get_bits(buf[5], 0x3, 9),
            layout::u8_value(self.mip_max) == layout::get_bits(buf[5], 0xf, 16),
            layout::u16_value(self.x) == layout::get_bits(buf[6], 0x3fff, 0),
            layout::u16_value(self.y) == layout::get_bits(buf[6], 0x3fff, 16),
            layout::u16_value(self.z) == layout::get_bits(buf[7], 0x1fff, 0),
            layout::u8_value(self.sw) == layout::get_bits(buf[7], 0x3, 24),
            self.count == layout::get_bits(buf[8], 0xfffff, 0),
            self.dst_addr == layout::dword_pair(buf[1], buf[2]),
            self.data@ == buf.subrange(9, 9 + layout::get_bits(buf[8], 0xfffff, 0)),
    {
        assert(self.bit_values()[0] == layout::bool_bit(self.encrypt));
        assert(layout::decode_bits(buf, Self::bit_fields())[0] == self.bit_values()[0]);
        assert(self.bit_values()[1] == layout::bool_bit(self.tmz));
        assert(layout::decode_bits(buf, Self::bit_fields())[1] == self.bit_values()[1]);
        assert(self.bit_values()[2] == layout::u16_value(self.width));
        assert(layout::decode_bits(buf, Self::bit_fields())[2] == self.bit_values()[2]);
        assert(self.bit_values()[3] == layout::u16_value(self.height));
        assert(layout::decode_bits(buf, Self::bit_fields())[3] == self.bit_values()[3]);
        assert(self.bit_values()[4] == layout::u16_value(self.depth));
        assert(layout::decode_bits(buf, Self::bit_fields())[4] == self.bit_values()[4]);
        assert(self.bit_values()[5] == layout::u8_value(self.element_size));
        assert(layout::decode_bits(buf, Self::bit_fields())[5] == self.bit_values()[5]);
        assert(self.bit_values()[6] == layout::u8_value(self.swizzle_mode));
        assert(layout::decode_bits(buf, Self::bit_fields())[6] == self.bit_values()[6]);
        assert(self.bit_values()[7] == layout::u8_value(self.dimension));
        assert(layout::decode_bits(buf, Self::bit_fields())[7] == self.bit_values()[7]);
        assert(self.bit_values()[8] == layout::u8_value(self.mip_max));
        assert(layout::decode_bits(buf, Self::bit_fields())[8] == self.bit_values()[8]);
        assert(self.bit_values()[9] == layout::u16_value(self.x));
        assert(layout::decode_bits(buf, Self::bit_fields())[9] == self.bit_values()[9]);
        assert(self.bit_values()[10] == layout::u16_value(self.y));
        assert(layout::decode_bits(buf, Self::bit_fields())[10] == self.bit_values()[10]);
        assert(self.bit_values()[11] == layout::u16_value(self.z));
        assert(layout::decode_bits(buf, Self::bit_fields())[11] == self.bit_values()[11]);
        assert(self.bit_values()[12] == layout::u8_value(self.sw));
        assert(layout::decode_bits(buf, Self::bit_fields())[12] == self.bit_values()[12]);
        assert(self.bit_values()[13] == self.count);
        assert(layout::decode_bits(buf, Self::bit_fields())[13] == self.bit_values()[13]);
        assert(layout::decode_joins(buf, Self::join_fields())[0] == self.join_values()[0]);
    }

    /// The field values name the packet: two packets with the same values are
    /// equal.
    pub proof fn lemma_values_determine(a: Self, b: Self)
        requires
            a.bit_values() == b.bit_values(),
            a.join_values() == b.join_values(),
            a.tail_data() == b.tail_data(),
        ensures
            a == b,
    {
        assert(a.bit_values()[0] == layout::bool_bit(a.encrypt) && b.bit_values()[0] == layout::bool_bit(b.encrypt));
        assert(a.bit_values()[1] == layout::bool_bit(a.tmz) && b.bit_values()[1] == layout::bool_bit(b.tmz));
        assert(a.bit_values()[2] == layout::u16_value(a.width) && b.bit_values()[2] == layout::u16_value(b.width));
        assert(a.bit_values()[3] == layout::u16_value(a.height) && b.bit_values()[3] == layout::u16_value(b.height));
        assert(a.bit_values()[4] == layout::u16_value(a.depth) && b.bit_values()[4] == layout::u16_value(b.depth));
        assert(a.bit_values()[5] == layout::u8_value(a.element_size) && b.bit_values()[5] == layout::u8_value(b.element_size));
        assert(a.bit_values()[6] == layout::u8_value(a.swizzle_mode) && b.bit_values()[6] == layout::u8_value(b.swizzle_mode));
        assert(a.bit_values()[7] == layout::u8_value(a.dimension) && b.bit_values()[7] == layout::u8_value(b.dimension));
        assert(a.bit_values()[8] == layout::u8_value(a.mip_max) && b.bit_values()[8] == layout::u8_value(b.mip_max));
        assert(a.bit_values()[9] == layout::u16_value(a.x) && b.bit_values()[9] == layout::u16_value(b.x));
        assert(a.bit_values()[10] == layout::u16_value(a.y) && b.bit_values()[10] == layout::u16_value(b.y));
        assert(a.bit_values()[11] == layout::u16_value(a.z) && b.bit_values()[11] == layout::u16_value(b.z));
        assert(a.bit_values()[12] == layout::u8_value(a.sw) && b.bit_values()[12] == layout::u8_value(b.sw));
        assert(a.bit_values()[13] == a.count && b.bit_values()[13] == b.count);
        assert(a.join_values()[0] == a.dst_addr && b.join_values()[0] == b.dst_addr);
        assert(a.data@ =~= b.data@);
        assert(a.data =~= b.data);
    }

    /// Reading a packet is exact: two packets read from one buffer are equal.
    pub proof fn lemma_read_unique(a: Self, b: Self, buf: Seq<u32>)
        requires
            a.read_from(buf),
            b.read_from(buf),
        ensures
            a == b,
    {
        layout::lemma_reads_determine(
            buf,
            Self::bit_fields(),
            a.bit_values(),
            b.bit_values(),
            Self::join_fields(),
            a.join_values(),
            b.join_values(),
            Self::tail(),
            a.tail_data(),
            b.tail_data(),
        );
        Self::lemma_values_determine(a, b);
    }

    /// A packet reads back from what it was encoded to.
    pub proof fn lemma_roundtrip(self, buf: Seq<u32>)
        requires
            Self::layout_wf(),
            self.fits(),
            buf.len() >= self.size(),
        ensures
            self.read_from(self.spec_encode(buf)),
            Self::decodable(self.spec_encode(buf)),
            self.spec_encode(buf).len() == buf.len(),
    {
        layout::lemma_packet_roundtrip(
            buf,
            Self::bit_fields(),
            self.bit_values(),
            Self::join_fields(),
            self.join_values(),
            Self::tail(),
            self.tail_data(),
            Self::STATIC_DWORDS as nat,
        );
    }
}

/// The `WriteTiledBc` packet.
#[derive(Clone, Copy, Default)]
pub struct WriteTiledBc<'a> {
    pub width: u16,
    pub height: u16,
    pub depth: u16,
    pub element_size: u8,
    pub array_mode: u8,
    pub mit_mode: u8,
    pub tilesplit_size: u8,
    pub bank_w: u8,
    pub bank_h: u8,
    pub num_bank: u8,
    pub mat_aspt: u8,
    pub pipe_config: u8,
    pub x: u16,
    pub y: u16,
    pub z: u16,
    pub sw: u8,
    pub dst_addr: u64,
    pub data: &'a [u32],
}

impl<'a> WriteTiledBc<'a> {
    /// Dwords of the packet before its variable-length tail.
    pub const STATIC_DWORDS: usize = 9;

    pub open spec fn bit_fields() -> Seq<BitField> {
        seq![BitField { dw: 3, mask: 0x3fff, shift: 0 }, BitField { dw: 4, mask: 0x3fff, shift: 0 }, BitField { dw: 4, mask: 0x7ff, shift: 16 }, BitField { dw: 5, mask: 0x7, shift: 0 }, BitField { dw: 5, mask: 0xf, shift: 3 }, BitField { dw: 5, mask: 0x7, shift: 8 }, BitField { dw: 5, mask: 0x7, shift: 11 }, BitField { dw: 5, mask: 0x3, shift: 15 }, BitField { dw: 5, mask: 0x3, shift: 18 }, BitField { dw: 5, mask: 0x3, shift: 21 }, BitField { dw: 5, mask: 0x3, shift: 24 }, BitField { dw: 5, mask: 0x1f, shift: 26 }, BitField { dw: 6, mask: 0x3fff, shift: 0 }, BitField { dw: 6, mask: 0x3fff, shift: 16 }, BitField { dw: 7, mask: 0x7ff, shift: 0 }, BitField { dw: 7, mask: 0x3, shift: 24 }]
    }

    pub open spec fn join_fields() -> Seq<JoinField> {
        seq![JoinField { lo: 1, hi: 2 }]
    }

    pub open spec fn tail() -> Option<DynField> {
        Some(DynField { start: 9, len_dw: 8, mask: 0xfffff, shift: 2 })
    }

    pub open spec fn bit_values(self) -> Seq<u32> {
        seq![self.width as u32, self.height as u32, self.depth as u32, self.element_size as u32, self.array_mode as u32, self.mit_mode as u32, self.tilesplit_size as u32, self.bank_w as u32, self.bank_h as u32, self.num_bank as u32, self.mat_aspt as u32, self.pipe_config as u32, self.x as u32, self.y as u32, self.z as u32, self.sw as u32]
    }

    pub open spec fn join_values(self) -> Seq<u64> {
        seq![self.dst_addr]
    }

    pub open spec fn tail_data(self) -> Seq<u32> {
        self.data@
    }

    /// Every field value fits its field.
    pub open spec fn fits(self) -> bool {
        layout::fields_fit(Self::bit_fields(), self.bit_values()) && layout::tail_fits(Self::tail(), self.tail_data())
    }

    pub open spec fn layout_wf() -> bool {
        layout::layout_wf(Self::bit_fields(), Self::join_fields(), Self::tail(), Self::STATIC_DWORDS as nat)
    }

    /// Dwords that the packet takes.
    pub open spec fn size(self) -> nat {
        (Self::STATIC_DWORDS + self.tail_data().len()) as nat
    }

    /// The buffer holds the whole packet, tail included.
    pub open spec fn decodable(buf: Seq<u32>) -> bool {
        buf.len() >= Self::STATIC_DWORDS && Self::STATIC_DWORDS + layout::read_dyn_len(buf, Self::tail().unwrap()) <= buf.len()
    }

    pub open spec fn spec_encode(self, buf: Seq<u32>) -> Seq<u32> {
        layout::encode_packet(
            buf,
            Self::bit_fields(),
            self.bit_values(),
            Self::join_fields(),
            self.join_values(),
            Self::tail(),
            self.tail_data(),
        )
    }

    /// `buf` holds this packet.
    pub open spec fn read_from(self, buf: Seq<u32>) -> bool {
        layout::packet_reads(
            buf,
            Self::bit_fields(),
            self.bit_values(),
            Self::join_fields(),
            self.join_values(),
            Self::tail(),
            self.tail_data(),
        )
    }

    fn exec_bit_fields() -> (r: Vec<BitField>)
        ensures
            r@ == Self::bit_fields(),
    {
        vec![BitField { dw: 3, mask: 0x3fff, shift: 0 }, BitField { dw: 4, mask: 0x3fff, shift: 0 }, BitField { dw: 4, mask: 0x7ff, shift: 16 }, BitField { dw: 5, mask: 0x7, shift: 0 }, BitField { dw: 5, mask: 0xf, shift: 3 }, BitField { dw: 5, mask: 0x7, shift: 8 }, BitField { dw: 5, mask: 0x7, shift: 11 }, BitField { dw: 5, mask: 0x3, shift: 15 }, BitField { dw: 5, mask: 0x3, shift: 18 }, BitField { dw: 5, mask: 0x3, shift: 21 }, BitField { dw: 5, mask: 0x3, shift: 24 }, BitField { dw: 5, mask: 0x1f, shift: 26 }, BitField { dw: 6, mask: 0x3fff, shift: 0 }, BitField { dw: 6, mask: 0x3fff, shift: 16 }, BitField { dw: 7, mask: 0x7ff, shift: 0 }, BitField { dw: 7, mask: 0x3, shift: 24 }]
    }

    fn exec_join_fields() -> (r: Vec<JoinField>)
        ensures
            r@ == Self::join_fields(),
    {
        vec![JoinField { lo: 1, hi: 2 }]
    }

    /// Whether the field layout of this packet is well formed.
    pub fn layout_ok() -> (r: bool)
        ensures
            r == Self::layout_wf(),
    {
        layout_is_wf(&Self::exec_bit_fields(), &Self::exec_join_fields(), Some(DynField { start: 9, len_dw: 8, mask: 0xfffff, shift: 2 }), Self::STATIC_DWORDS)
    }

    /// Writes the packet to the start of `buff`, without its header, and
    /// returns how many dwords it took.
    pub fn partial_encode_linear(&self, buff: &mut [u32]) -> (n: usize)
        requires
            old(buff)@.len() >= self.size(),
            self.fits(),
        ensures
            n == self.size(),
            final(buff)@ == self.spec_encode(old(buff)@),
            final(buff)@.len() == old(buff)@.len(),
    {
        let bits = Self::exec_bit_fields();
        let vals: Vec<u32> = vec![layout::widen_u16(self.width), layout::widen_u16(self.height), layout::widen_u16(self.depth), layout::widen_u8(self.element_size), layout::widen_u8(self.array_mode), layout::widen_u8(self.mit_mode), layout::widen_u8(self.tilesplit_size), layout::widen_u8(self.bank_w), layout::widen_u8(self.bank_h), layout::widen_u8(self.num_bank), layout::widen_u8(self.mat_aspt), layout::widen_u8(self.pipe_config), layout::widen_u16(self.x), layout::widen_u16(self.y), layout::widen_u16(self.z), layout::widen_u8(self.sw)];
        let joins = Self::exec_join_fields();
        let jvals: Vec<u64> = vec![self.dst_addr];
        proof {
            assert(vals@ =~= self.bit_values());
            assert(jvals@ =~= self.join_values());
        }
        encode_bit_fields(&bits, &vals, buff);
        encode_join_fields(&joins, &jvals, buff);
        encode_tail(DynField { start: 9, len_dw: 8, mask: 0xfffff, shift: 2 }, self.data, buff);
        Self::STATIC_DWORDS + self.data.len()
    }

    /// Reads the packet at the start of `buff` and returns how many dwords it
    /// took.
    pub fn partial_decode_linear(buff: &'a [u32]) -> (r: (usize, Self))
        requires
            Self::decodable(buff@),
        ensures
            r.0 == r.1.size(),
            r.1.read_from(buff@),
    {
        let bits = Self::exec_bit_fields();
        let v = decode_bit_fields(&bits, buff);
        let joins = Self::exec_join_fields();
        let j = decode_join_fields(&joins, buff);
        let data = decode_tail(DynField { start: 9, len_dw: 8, mask: 0xfffff, shift: 2 }, buff);
        let p = Self { width: layout::narrow_u16(v[0]), height: layout::narrow_u16(v[1]), depth: layout::narrow_u16(v[2]), element_size: layout::narrow_u8(v[3]), array_mode: layout::narrow_u8(v[4]), mit_mode: layout::narrow_u8(v[5]), tilesplit_size: layout::narrow_u8(v[6]), bank_w: layout::narrow_u8(v[7]), bank_h: layout::narrow_u8(v[8]), num_bank: layout::narrow_u8(v[9]), mat_aspt: layout::narrow_u8(v[10]), pipe_config: layout::narrow_u8(v[11]), x: layout::narrow_u16(v[12]), y: layout::narrow_u16(v[13]), z: layout::narrow_u16(v[14]), sw: layout::narrow_u8(v[15]), dst_addr: j[0], data };
        proof {
            assert(p.bit_values() =~= v@);
            assert(p.join_values() =~= j@);
        }
        (Self::STATIC_DWORDS + p.data.len(), p)
    }

    /// Where each field stands in a buffer that the packet is read from, as
    /// the packet header lays it out: a bit field under its mask and shift
    /// in its dword, a 64-bit field in two dwords, low half first. By
    /// `lemma_roundtrip`, encoding a packet puts its fields there.
    pub proof fn lemma_field_positions(self, buf: Seq<u32>)
        requires
            self.read_from(buf),
        ensures
            layout::u16_value(self.width) == layout::get_bits(buf[3], 0x3fff, 0),
            layout::u16_value(self.height) == layout::get_bits(buf[4], 0x3fff, 0),
            layout::u16_value(self.depth) == layout::get_bits(buf[4], 0x7ff, 16),
            layout::u8_value(self.element_size) == layout::get_bits(buf[5], 0x7, 0),
            layout::u8_value(self.array_mode) == layout::get_bits(buf[5], 0xf, 3),
            layout::u8_value(self.mit_mode) == layout::get_bits(buf[5], 0x7, 8),
            layout::u8_value(self.tilesplit_size) == layout::get_bits(buf[5], 0x7, 11),
            layout::u8_value(self.bank_w) == layout::get_bits(buf[5], 0x3, 15),
            layout::u8_value(self.bank_h) == layout::get_bits(buf[5], 0x3, 18),
            layout::u8_value(self.num_bank) == layout::get_bits(buf[5], 0x3, 21),
            layout::u8_value(self.mat_aspt) == layout::get_bits(buf[5], 0x3, 24),
            layout::u8_value(self.pipe_config) == layout::get_bits(buf[5], 0x1f, 26),
            layout::u16_value(self.x) == layout::get_bits(buf[6], 0x3fff, 0),
            layout::u16_value(self.y) == layout::get_bits(buf[6], 0x3fff, 16),
            layout::u16_value(self.z) == layout::get_bits(buf[7], 0x7ff, 0),
            layout::u8_value(self.sw) == layout::get_bits(buf[7], 0x3, 24),
            self.dst_addr == layout::dword_pair(buf[1], buf[2]),
            self.data@ == buf.subrange(9, 9 + layout::get_bits(buf[8], 0xfffff, 2)),
    {
        assert(self.bit_values()[0] == layout::u16_value(self.width));
        assert(layout::decode_bits(buf, Self::bit_fields())[0] == self.bit_values()[0]);
        assert(self.bit_values()[1] == layout::u16_value(self.height));
        assert(layout::decode_bits(buf, Self::bit_fields())[1] == self.bit_values()[1]);
        assert(self.bit_values()[2] == layout::u16_value(self.depth));
        assert(layout::decode_bits(buf, Self::bit_fields())[2] == self.bit_values()[2]);
        assert(self.bit_values()[3] == layout::u8_value(self.element_size));
        assert(layout::decode_bits(buf, Self::bit_fields())[3] == self.bit_values()[3]);
        assert(self.bit_values()[4] == layout::u8_value(self.array_mode));
        assert(layout::decode_bits(buf, Self::bit_fields())[4] == self.bit_values()[4]);
        assert(self.bit_values()[5] == layout::u8_value(self.mit_mode));
        assert(layout::decode_bits(buf, Self::bit_fields())[5] == self.bit_values()[5]);
        assert(self.bit_values()[6] == layout::u8_value(self.tilesplit_size));
        assert(layout::decode_bits(buf, Self::bit_fields())[6] == self.bit_values()[6]);
        assert(self.bit_values()[7] == layout::u8_value(self.bank_w));
        assert(layout::decode_bits(buf, Self::bit_fields())[7] == self.bit_values()[7]);
        assert(self.bit_values()[8] == layout::u8_value(self.bank_h));
        assert(layout::decode_bits(buf, Self::bit_fields())[8] == self.bit_values()[8]);
        assert(self.bit_values()[9] == layout::u8_value(self.num_bank));
        assert(layout::decode_bits(buf, Self::bit_fields())[9] == self.bit_values()[9]);
        assert(self.bit_values()[10] == layout::u8_value(self.mat_aspt));
        assert(layout::decode_bits(buf, Self::bit_fields())[10] == self.bit_values()[10]);
        assert(self.bit_values()[11] == layout::u8_value(self.pipe_config));
        assert(layout::decode_bits(buf, Self::bit_fields())[11] == self.bit_values()[11]);
        assert(self.bit_values()[12] == layout::u16_value(self.x));
        assert(layout::decode_bits(buf, Self::bit_fields())[12] == self.bit_values()[12]);
        assert(self.bit_values()[13] == layout::u16_value(self.y));
        assert(layout::decode_bits(buf, Self::bit_fields())[13] == self.bit_values()[13]);
        assert(self.bit_values()[14] == layout::u16_value(self.z));
        assert(layout::decode_bits(buf, Self::bit_fields())[14] == self.bit_values()[14]);
        assert(self.bit_values()[15] == layout::u8_value(self.sw));
        assert(layout::decode_bits(buf, Self::bit_fields())[15] == self.bit_values()[15]);
        assert(layout::decode_joins(buf, Self::join_fields())[0] == self.join_values()[0]);
    }

    /// The field values name the packet: two packets with the same values are
    /// equal.
    pub proof fn lemma_values_determine(a: Self, b: Self)
        requires
            a.bit_values() == b.bit_values(),
            a.join_values() == b.join_values(),
            a.tail_data() == b.tail_data(),
        ensures
            a == b,
    {
        assert(a.bit_values()[0] == layout::u16_value(a.width) && b.bit_values()[0] == layout::u16_value(b.width));
        assert(a.bit_values()[1] == layout::u16_value(a.height) && b.bit_values()[1] == layout::u16_value(b.height));
        assert(a.bit_values()[2] == layout::u16_value(a.depth) && b.bit_values()[2] == layout::u16_value(b.depth));
        assert(a.bit_values()[3] == layout::u8_value(a.element_size) && b.bit_values()[3] == layout::u8_value(b.element_size));
        assert(a.bit_values()[4] == layout::u8_value(a.array_mode) && b.bit_values()[4] == layout::u8_value(b.array_mode));
        assert(a.bit_values()[5] == layout::u8_value(a.mit_mode) && b.bit_values()[5] == layout::u8_value(b.mit_mode));
        assert(a.bit_values()[6] == layout::u8_value(a.tilesplit_size) && b.bit_values()[6] == layout::u8_value(b.tilesplit_size));
        assert(a.bit_values()[7] == layout::u8_value(a.bank_w) && b.bit_values()[7] == layout::u8_value(b.bank_w));
        assert(a.bit_values()[8] == layout::u8_value(a.bank_h) && b.bit_values()[8] == layout::u8_value(b.bank_h));
        assert(a.bit_values()[9] == layout::u8_value(a.num_bank) && b.bit_values()[9] == layout::u8_value(b.num_bank));
        assert(a.bit_values()[10] == layout::u8_value(a.mat_aspt) && b.bit_values()[10] == layout::u8_value(b.mat_aspt));
        assert(a.bit_values()[11] == layout::u8_value(a.pipe_config) && b.bit_values()[11] == layout::u8_value(b.pipe_config));
        assert(a.bit_values()[12] == layout::u16_value(a.x) && b.bit_values()[12] == layout::u16_value(b.x));
        assert(a.bit_values()[13] == layout::u16_value(a.y) && b.bit_values()[13] == layout::u16_value(b.y));
        assert(a.bit_values()[14] == layout::u16_value(a.z) && b.bit_values()[14] == layout::u16_value(b.z));
        assert(a.bit_values()[15] == layout::u8_value(a.sw) && b.bit_values()[15] == layout::u8_value(b.sw));
        assert(a.join_values()[0] == a.dst_addr && b.join_values()[0] == b.dst_addr);
        assert(a.data@ =~= b.data@);
        assert(a.data =~= b.data);
    }

    /// Reading a packet is exact: two packets read from one buffer are equal.
    pub proof fn lemma_read_unique(a: Self, b: Self, buf: Seq<u32>)
        requires
            a.read_from(buf),
            b.read_from(buf),
        ensures
            a == b,
    {
        layout::lemma_reads_determine(
            buf,
            Self::bit_fields(),
            a.bit_values(),
            b.bit_values(),
            Self::join_fields(),
            a.join_values(),
            b.join_values(),
            Self::tail(),
            a.tail_data(),
            b.tail_data(),
        );
        Self::lemma_values_determine(a, b);
    }

    /// A packet reads back from what it was encoded to.
    pub proof fn lemma_roundtrip(self, buf: Seq<u32>)
        requires
            Self::layout_wf(),
            self.fits(),
            buf.len() >= self.size(),
        ensures
            self.read_from(self.spec_encode(buf)),
            Self::decodable(self.spec_encode(buf)),
            self.spec_encode(buf).len() == buf.len(),
    {
        layout::lemma_packet_roundtrip(
            buf,
            Self::bit_fields(),
            self.bit_values(),
            Self::join_fields(),
            self.join_values(),
            Self::tail(),
            self.tail_data(),
            Self::STATIC_DWORDS as nat,
        );
    }
}

/// The `PtepdeCopy` packet.
#[derive(Clone, Copy, Default)]
pub struct PtepdeCopy {
    pub tmz: bool,
    pub ptepde_op: bool,
    pub count: u32,
    pub src_addr: u64,
    pub dst_addr: u64,
    pub mask: u64,
}

impl PtepdeCopy {
    /// Dwords of the packet before its variable-length tail.
    pub const STATIC_DWORDS: usize = 8;

    pub open spec fn bit_fields() -> Seq<BitField> {
        seq![BitField { dw: 0, mask: 0x1, shift: 18 }, BitField { dw: 0, mask: 0x1, shift: 31 }, BitField { dw: 7, mask: 0x7ffff, shift: 0 }]
    }

    pub open spec fn join_fields() -> Seq<JoinField> {
        seq![JoinField { lo: 1, hi: 2 }, JoinField { lo: 3, hi: 4 }, JoinField { lo: 5, hi: 6 }]
    }

    pub open spec fn tail() -> Option<DynField> {
        None
    }

    pub open spec fn bit_values(self) -> Seq<u32> {
        seq![layout::bool_bit(self.tmz), layout::bool_bit(self.ptepde_op), self.count]
    }

    pub open spec fn join_values(self) -> Seq<u64> {
        seq![self.src_addr, self.dst_addr, self.mask]
    }

    pub open spec fn tail_data(self) -> Seq<u32> {
        Seq::<u32>::empty()
    }

    /// Every field value fits its field.
    pub open spec fn fits(self) -> bool {
        layout::fields_fit(Self::bit_fields(), self.bit_values()) && layout::tail_fits(Self::tail(), self.tail_data())
    }

    pub open spec fn layout_wf() -> bool {
        layout::layout_wf(Self::bit_fields(), Self::join_fields(), Self::tail(), Self::STATIC_DWORDS as nat)
    }

    /// Dwords that the packet takes.
    pub open spec fn size(self) -> nat {
        (Self::STATIC_DWORDS + self.tail_data().len()) as nat
    }

    /// The buffer holds the whole packet.
    pub open spec fn decodable(buf: Seq<u32>) -> bool {
        buf.len() >= Self::STATIC_DWORDS
    }

    pub open spec fn spec_encode(self, buf: Seq<u32>) -> Seq<u32> {
        layout::encode_packet(
            buf,
            Self::bit_fields(),
            self.bit_values(),
            Self::join_fields(),
            self.join_values(),
            Self::tail(),
            self.tail_data(),
        )
    }

    /// `buf` holds this packet.
    pub open spec fn read_from(self, buf: Seq<u32>) -> bool {
        layout::packet_reads(
            buf,
            Self::bit_fields(),
            self.bit_values(),
            Self::join_fields(),
            self.join_values(),
            Self::tail(),
            self.tail_data(),
        )
    }

    fn exec_bit_fields() -> (r: Vec<BitField>)
        ensures
            r@ == Self::bit_fields(),
    {
        vec![BitField { dw: 0, mask: 0x1, shift: 18 }, BitField { dw: 0, mask: 0x1, shift: 31 }, BitField { dw: 7, mask: 0x7ffff, shift: 0 }]
    }

    fn exec_join_fields() -> (r: Vec<JoinField>)
        ensures
            r@ == Self::join_fields(),
    {
        vec![JoinField { lo: 1, hi: 2 }, JoinField { lo: 3, hi: 4 }, JoinField { lo: 5, hi: 6 }]
    }

    /// Whether the field layout of this packet is well formed.
    pub fn layout_ok() -> (r: bool)
        ensures
            r == Self::layout_wf(),
    {
        layout_is_wf(&Self::exec_bit_fields(), &Self::exec_join_fields(), None, Self::STATIC_DWORDS)
    }

    /// Writes the packet to the start of `buff`, without its header, and
    /// returns how many dwords it took.
    pub fn partial_encode_linear(&self, buff: &mut [u32]) -> (n: usize)
        requires
            old(buff)@.len() >= self.size(),
            self.fits(),
        ensures
            n == self.size(),
            final(buff)@ == self.spec_encode(old(buff)@),
            final(buff)@.len() == old(buff)@.len(),
    {
        let bits = Self::exec_bit_fields();
        let vals: Vec<u32> = vec![to_bit(self.tmz), to_bit(self.ptepde_op), self.count];
        let joins = Self::exec_join_fields();
        let jvals: Vec<u64> = vec![self.src_addr, self.dst_addr, self.mask];
        proof {
            assert(vals@ =~= self.bit_values());
            assert(jvals@ =~= self.join_values());
        }
        encode_bit_fields(&bits, &vals, buff);
        encode_join_fields(&joins, &jvals, buff);
        Self::STATIC_DWORDS
    }

    /// Reads the packet at the start of `buff` and returns how many dwords it
    /// took.
    pub fn partial_decode_linear(buff: &[u32]) -> (r: (usize, Self))
        requires
            Self::decodable(buff@),
        ensures
            r.0 == r.1.size(),
            r.1.read_from(buff@),
    {
        let bits = Self::exec_bit_fields();
        let v = decode_bit_fields(&bits, buff);
        let joins = Self::exec_join_fields();
        let j = decode_join_fields(&joins, buff);
        let p = Self { tmz: v[0] != 0, ptepde_op: v[1] != 0, count: v[2], src_addr: j[0], dst_addr: j[1], mask: j[2] };
        proof {
            assert(p.bit_values() =~= v@);
            assert(p.join_values() =~= j@);
        }
        (Self::STATIC_DWORDS, p)
    }

    /// Where each field stands in a buffer that the packet is read from, as
    /// the packet header lays it out: a bit field under its mask and shift
    /// in its dword, a 64-bit field in two dwords, low half first. By
    /// `lemma_roundtrip`, encoding a packet puts its fields there.
    pub proof fn lemma_field_positions(self, buf: Seq<u32>)
        requires
            self.read_from(buf),
        ensures
            layout::bool_bit(self.tmz) == layout::get_bits(buf[0], 0x1, 18),
            layout::bool_bit(self.ptepde_op) == layout::get_bits(buf[0], 0x1, 31),
            self.count == layout::get_bits(buf[7], 0x7ffff, 0),
            self.src_addr == layout::dword_pair(buf[1], buf[2]),
            self.dst_addr == layout::dword_pair(buf[3], buf[4]),
            self.mask == layout::dword_pair(buf[5], buf[6]),
    {
        assert(self.bit_values()[0] == layout::bool_bit(self.tmz));
        assert(layout::decode_bits(buf, Self::bit_fields())[0] == self.bit_values()[0]);
        assert(self.bit_values()[1] == layout::bool_bit(self.ptepde_op));
        assert(layout::decode_bits(buf, Self::bit_fields())[1] == self.bit_values()[1]);
        assert(self.bit_values()[2] == self.count);
        assert(layout::decode_bits(buf, Self::bit_fields())[2] == self.bit_values()[2]);
        assert(layout::decode_joins(buf, Self::join_fields())[0] == self.join_values()[0]);
        assert(layout::decode_joins(buf, Self::join_fields())[1] == self.join_values()[1]);
        assert(layout::decode_joins(buf, Self::join_fields())[2] == self.join_values()[2]);
    }

    /// The field values name the packet: two packets with the same values are
    /// equal.
    pub proof fn lemma_values_determine(a: Self, b: Self)
        requires
            a.bit_values() == b.bit_values(),
            a.join_values() == b.join_values(),
            a.tail_data() == b.tail_data(),
        ensures
            a == b,
    {
        assert(a.bit_values()[0] == layout::bool_bit(a.tmz) && b.bit_values()[0] == layout::bool_bit(b.tmz));
        assert(a.bit_values()[1] == layout::bool_bit(a.ptepde_op) && b.bit_values()[1] == layout::bool_bit(b.ptepde_op));
        assert(a.bit_values()[2] == a.count && b.bit_values()[2] == b.count);
        assert(a.join_values()[0] == a.src_addr && b.join_values()[0] == b.src_addr);
        assert(a.join_values()[1] == a.dst_addr && b.join_values()[1] == b.dst_addr);
        assert(a.join_values()[2] == a.mask && b.join_values()[2] == b.mask);
    }

    /// Reading a packet is exact: two packets read from one buffer are equal.
    pub proof fn lemma_read_unique(a: Self, b: Self, buf: Seq<u32>)
        requires
            a.read_from(buf),
            b.read_from(buf),
        ensures
            a == b,
    {
        layout::lemma_reads_determine(
            buf,
            Self::bit_fields(),
            a.bit_values(),
            b.bit_values(),
            Self::join_fields(),
            a.join_values(),
            b.join_values(),
            Self::tail(),
            a.tail_data(),
            b.tail_data(),
        );
        Self::lemma_values_determine(a, b);
    }

    /// A packet reads back from what it was encoded to.
    pub proof fn lemma_roundtrip(self, buf: Seq<u32>)
        requires
            Self::layout_wf(),
            self.fits(),
            buf.len() >= self.size(),
        ensures
            self.read_from(self.spec_encode(buf)),
            Self::decodable(self.spec_encode(buf)),
            self.spec_encode(buf).len() == buf.len(),
    {
        layout::lemma_packet_roundtrip(
            buf,
            Self::bit_fields(),
            self.bit_values(),
            Self::join_fields(),
            self.join_values(),
            Self::tail(),
            self.tail_data(),
            Self::STATIC_DWORDS as nat,
        );
    }
}

/// The `PtepdeCopyBackwards` packet.
#[derive(Clone, Copy, Default)]
pub struct PtepdeCopyBackwards {
    pub pte_size: u8,
    pub direction: bool,
    pub ptepde_op: bool,
    pub mask_first_xfer: u8,
    pub mask_last_xfer: u8,
    pub count: u32,
    pub src_addr: u64,
    pub dst_addr: u64,
}

impl PtepdeCopyBackwards {
    /// Dwords of the packet before its variable-length tail.
    pub const STATIC_DWORDS: usize = 7;

    pub open spec fn bit_fields() -> Seq<BitField> {
        seq![BitField { dw: 0, mask: 0x3, shift: 28 }, BitField { dw: 0, mask: 0x1, shift: 30 }, BitField { dw: 0, mask: 0x1, shift: 31 }, BitField { dw: 5, mask: 0xff, shift: 0 }, BitField { dw: 5, mask: 0xff, shift: 8 }, BitField { dw: 6, mask: 0x1ffff, shift: 0 }]
    }

    pub open spec fn join_fields() -> Seq<JoinField> {
        seq![JoinField { lo: 1, hi: 2 }, JoinField { lo: 3, hi: 4 }]
    }

    pub open spec fn tail() -> Option<DynField> {
        None
    }

    pub open spec fn bit_values(self) -> Seq<u32> {
        seq![self.pte_size as u32, layout::bool_bit(self.direction), layout::bool_bit(self.ptepde_op), self.mask_first_xfer as u32, self.mask_last_xfer as u32, self.count]
    }

    pub open spec fn join_values(self) -> Seq<u64> {
        seq![self.src_addr, self.dst_addr]
    }

    pub open spec fn tail_data(self) -> Seq<u32> {
        Seq::<u32>::empty()
    }

    /// Every field value fits its field.
    pub open spec fn fits(self) -> bool {
        layout::fields_fit(Self::bit_fields(), self.bit_values()) && layout::tail_fits(Self::tail(), self.tail_data())
    }

    pub open spec fn layout_wf() -> bool {
        layout::layout_wf(Self::bit_fields(), Self::join_fields(), Self::tail(), Self::STATIC_DWORDS as nat)
    }

    /// Dwords that the packet takes.
    pub open spec fn size(self) -> nat {
        (Self::STATIC_DWORDS + self.tail_data().len()) as nat
    }

    /// The buffer holds the whole packet.
    pub open spec fn decodable(buf: Seq<u32>) -> bool {
        buf.len() >= Self::STATIC_DWORDS
    }

    pub open spec fn spec_encode(self, buf: Seq<u32>) -> Seq<u32> {
        layout::encode_packet(
            buf,
            Self::bit_fields(),
            self.bit_values(),
            Self::join_fields(),
            self.join_values(),
            Self::tail(),
            self.tail_data(),
        )
    }

    /// `buf` holds this packet.
    pub open spec fn read_from(self, buf: Seq<u32>) -> bool {
        layout::packet_reads(
            buf,
            Self::bit_fields(),
            self.bit_values(),
            Self::join_fields(),
            self.join_values(),
            Self::tail(),
            self.tail_data(),
        )
    }

    fn exec_bit_fields() -> (r: Vec<BitField>)
        ensures
            r@ == Self::bit_fields(),
    {
        vec![BitField { dw: 0, mask: 0x3, shift: 28 }, BitField { dw: 0, mask: 0x1, shift: 30 }, BitField { dw: 0, mask: 0x1, shift: 31 }, BitField { dw: 5, mask: 0xff, shift: 0 }, BitField { dw: 5, mask: 0xff, shift: 8 }, BitField { dw: 6, mask: 0x1ffff, shift: 0 }]
    }

    fn exec_join_fields() -> (r: Vec<JoinField>)
        ensures
            r@ == Self::join_fields(),
    {
        vec![JoinField { lo: 1, hi: 2 }, JoinField { lo: 3, hi: 4 }]
    }

    /// Whether the field layout of this packet is well formed.
    pub fn layout_ok() -> (r: bool)
        ensures
            r == Self::layout_wf(),
    {
        layout_is_wf(&Self::exec_bit_fields(), &Self::exec_join_fields(), None, Self::STATIC_DWORDS)
    }

    /// Writes the packet to the start of `buff`, without its header, and
    /// returns how many dwords it took.
    pub fn partial_encode_linear(&self, buff: &mut [u32]) -> (n: usize)
        requires
            old(buff)@.len() >= self.size(),
            self.fits(),
        ensures
            n == self.size(),
            final(buff)@ == self.spec_encode(old(buff)@),
            final(buff)@.len() == old(buff)@.len(),
    {
        let bits = Self::exec_bit_fields();
        let vals: Vec<u32> = vec![layout::widen_u8(self.pte_size), to_bit(self.direction), to_bit(self.ptepde_op), layout::widen_u8(self.mask_first_xfer), layout::widen_u8(self.mask_last_xfer), self.count];
        let joins = Self::exec_join_fields();
        let jvals: Vec<u64> = vec![self.src_addr, self.dst_addr];
        proof {
            assert(vals@ =~= self.bit_values());
            assert(jvals@ =~= self.join_values());
        }
        encode_bit_fields(&bits, &vals, buff);
        encode_join_fields(&joins, &jvals, buff);
        Self::STATIC_DWORDS
    }

    /// Reads the packet at the start of `buff` and returns how many dwords it
    /// took.
    pub fn partial_decode_linear(buff: &[u32]) -> (r: (usize, Self))
        requires
            Self::decodable(buff@),
        ensures
            r.0 == r.1.size(),
            r.1.read_from(buff@),
    {
        let bits = Self::exec_bit_fields();
        let v = decode_bit_fields(&bits, buff);
        let joins = Self::exec_join_fields();
        let j = decode_join_fields(&joins, buff);
        let p = Self { pte_size: layout::narrow_u8(v[0]), direction: v[1] != 0, ptepde_op: v[2] != 0, mask_first_xfer: layout::narrow_u8(v[3]), mask_last_xfer: layout::narrow_u8(v[4]), count: v[5], src_addr: j[0], dst_addr: j[1] };
        proof {
            assert(p.bit_values() =~= v@);
            assert(p.join_values() =~= j@);
        }
        (Self::STATIC_DWORDS, p)
    }

    /// Where each field stands in a buffer that the packet is read from, as
    /// the packet header lays it out: a bit field under its mask and shift
    /// in its dword, a 64-bit field in two dwords, low half first. By
    /// `lemma_roundtrip`, encoding a packet puts its fields there.
    pub proof fn lemma_field_positions(self, buf: Seq<u32>)
        requires
            self.read_from(buf),
        ensures
            layout::u8_value(self.pte_size) == layout::get_bits(buf[0], 0x3, 28),
            layout::bool_bit(self.direction) == layout::get_bits(buf[0], 0x1, 30),
            layout::bool_bit(self.ptepde_op) == layout::get_bits(buf[0], 0x1, 31),
            layout::u8_value(self.mask_first_xfer) == layout::get_bits(buf[5], 0xff, 0),
            layout::u8_value(self.mask_last_xfer) == layout::get_bits(buf[5], 0xff, 8),
            self.count == layout::get_bits(buf[6], 0x1ffff, 0),
            self.src_addr == layout::dword_pair(buf[1], buf[2]),
            self.dst_addr == layout::dword_pair(buf[3], buf[4]),
    {
        assert(self.bit_values()[0] == layout::u8_value(self.pte_size));
        assert(layout::decode_bits(buf, Self::bit_fields())[0] == self.bit_values()[0]);
        assert(self.bit_values()[1] == layout::bool_bit(self.direction));
        assert(layout::decode_bits(buf, Self::bit_fields())[1] == self.bit_values()[1]);
        assert(self.bit_values()[2] == layout::bool_bit(self.ptepde_op));
        assert(layout::decode_bits(buf, Self::bit_fields())[2] == self.bit_values()[2]);
        assert(self.bit_values()[3] == layout::u8_value(self.mask_first_xfer));
        assert(layout::decode_bits(buf, Self::bit_fields())[3] == self.bit_values()[3]);
        assert(self.bit_values()[4] == layout::u8_value(self.mask_last_xfer));
        assert(layout::decode_bits(buf, Self::bit_fields())[4] == self.bit_values()[4]);
        assert(self.bit_values()[5] == self.count);
        assert(layout::decode_bits(buf, Self::bit_fields())[5] == self.bit_values()[5]);
        assert(layout::decode_joins(buf, Self::join_fields())[0] == self.join_values()[0]);
        assert(layout::decode_joins(buf, Self::join_fields())[1] == self.join_values()[1]);
    }

    /// The field values name the packet: two packets with the same values are
    /// equal.
    pub proof fn lemma_values_determine(a: Self, b: Self)
        requires
            a.bit_values() == b.bit_values(),
            a.join_values() == b.join_values(),
            a.tail_data() == b.tail_data(),
        ensures
            a == b,
    {
        assert(a.bit_values()[0] == layout::u8_value(a.pte_size) && b.bit_values()[0] == layout::u8_value(b.pte_size));
        assert(a.bit_values()[1] == layout::bool_bit(a.direction) && b.bit_values()[1] == layout::bool_bit(b.direction));
        assert(a.bit_values()[2] == layout::bool_bit(a.ptepde_op) && b.bit_values()[2] == layout::bool_bit(b.ptepde_op));
        assert(a.bit_values()[3] == layout::u8_value(a.mask_first_xfer) && b.bit_values()[3] == layout::u8_value(b.mask_first_xfer));
        assert(a.bit_values()[4] == layout::u8_value(a.mask_last_xfer) && b.bit_values()[4] == layout::u8_value(b.mask_last_xfer));
        assert(a.bit_values()[5] == a.count && b.bit_values()[5] == b.count);
        assert(a.join_values()[0] == a.src_addr && b.join_values()[0] == b.src_addr);
        assert(a.join_values()[1] == a.dst_addr && b.join_values()[1] == b.dst_addr);
    }

    /// Reading a packet is exact: two packets read from one buffer are equal.
    pub proof fn lemma_read_unique(a: Self, b: Self, buf: Seq<u32>)
        requires
            a.read_from(buf),
            b.read_from(buf),
        ensures
            a == b,
    {
        layout::lemma_reads_determine(
            buf,
            Self::bit_fields(),
            a.bit_values(),
            b.bit_values(),
            Self::join_fields(),
            a.join_values(),
            b.join_values(),
            Self::tail(),
            a.tail_data(),
            b.tail_data(),
        );
        Self::lemma_values_determine(a, b);
    }

    /// A packet reads back from what it was encoded to.
    pub proof fn lemma_roundtrip(self, buf: Seq<u32>)
        requires
            Self::layout_wf(),
            self.fits(),
            buf.len() >= self.size(),
        ensures
            self.read_from(self.spec_encode(buf)),
            Self::decodable(self.spec_encode(buf)),
            self.spec_encode(buf).len() == buf.len(),
    {
        layout::lemma_packet_roundtrip(
            buf,
            Self::bit_fields(),
            self.bit_values(),
            Self::join_fields(),
            self.join_values(),
            Self::tail(),
            self.tail_data(),
            Self::STATIC_DWORDS as nat,
        );
    }
}

/// The `PtepdeRmw` packet.
#[derive(Clone, Copy, Default)]
pub struct PtepdeRmw {
    pub mtype: u8,
    pub gcc: bool,
    pub sys: bool,
    pub snp: bool,
    pub gpa: bool,
    pub l2_policy: u8,
    pub addr: u64,
    pub mask: u64,
    pub value: u64,
}

impl PtepdeRmw {
    /// Dwords of the packet before its variable-length tail.
    pub const STATIC_DWORDS: usize = 7;

    pub open spec fn bit_fields() -> Seq<BitField> {
        seq![BitField { dw: 0, mask: 0x7, shift: 16 }, BitField { dw: 0, mask: 0x1, shift: 19 }, BitField { dw: 0, mask: 0x1, shift: 20 }, BitField { dw: 0, mask: 0x1, shift: 22 }, BitField { dw: 0, mask: 0x1, shift: 23 }, BitField { dw: 0, mask: 0x3, shift: 24 }]
    }

    pub open spec fn join_fields() -> Seq<JoinField> {
        seq![JoinField { lo: 1, hi: 2 }, JoinField { lo: 3, hi: 4 }, JoinField { lo: 5, hi: 6 }]
    }

    pub open spec fn tail() -> Option<DynField> {
        None
    }

    pub open spec fn bit_values(self) -> Seq<u32> {
        seq![self.mtype as u32, layout::bool_bit(self.gcc), layout::bool_bit(self.sys), layout::bool_bit(self.snp), layout::bool_bit(self.gpa), self.l2_policy as u32]
    }

    pub open spec fn join_values(self) -> Seq<u64> {
        seq![self.addr, self.mask, self.value]
    }

    pub open spec fn tail_data(self) -> Seq<u32> {
        Seq::<u32>::empty()
    }

    /// Every field value fits its field.
    pub open spec fn fits(self) -> bool {
        layout::fields_fit(Self::bit_fields(), self.bit_values()) && layout::tail_fits(Self::tail(), self.tail_data())
    }

    pub open spec fn layout_wf() -> bool {
        layout::layout_wf(Self::bit_fields(), Self::join_fields(), Self::tail(), Self::STATIC_DWORDS as nat)
    }

    /// Dwords that the packet takes.
    pub open spec fn size(self) -> nat {
        (Self::STATIC_DWORDS + self.tail_data().len()) as nat
    }

    /// The buffer holds the whole packet.
    pub open spec fn decodable(buf: Seq<u32>) -> bool {
        buf.len() >= Self::STATIC_DWORDS
    }

    pub open spec fn spec_encode(self, buf: Seq<u32>) -> Seq<u32> {
        layout::encode_packet(
            buf,
            Self::bit_fields(),
            self.bit_values(),
            Self::join_fields(),
            self.join_values(),
            Self::tail(),
            self.tail_data(),
        )
    }

    /// `buf` holds this packet.
    pub open spec fn read_from(self, buf: Seq<u32>) -> bool {
        layout::packet_reads(
            buf,
            Self::bit_fields(),
            self.bit_values(),
            Self::join_fields(),
            self.join_values(),
            Self::tail(),
            self.tail_data(),
        )
    }

    fn exec_bit_fields() -> (r: Vec<BitField>)
        ensures
            r@ == Self::bit_fields(),
    {
        vec![BitField { dw: 0, mask: 0x7, shift: 16 }, BitField { dw: 0, mask: 0x1, shift: 19 }, BitField { dw: 0, mask: 0x1, shift: 20 }, BitField { dw: 0, mask: 0x1, shift: 22 }, BitField { dw: 0, mask: 0x1, shift: 23 }, BitField { dw: 0, mask: 0x3, shift: 24 }]
    }

    fn exec_join_fields() -> (r: Vec<JoinField>)
        ensures
            r@ == Self::join_fields(),
    {
        vec![JoinField { lo: 1, hi: 2 }, JoinField { lo: 3, hi: 4 }, JoinField { lo: 5, hi: 6 }]
    }

    /// Whether the field layout of this packet is well formed.
    pub fn layout_ok() -> (r: bool)
        ensures
            r == Self::layout_wf(),
    {
        layout_is_wf(&Self::exec_bit_fields(), &Self::exec_join_fields(), None, Self::STATIC_DWORDS)
    }

    /// Writes the packet to the start of `buff`, without its header, and
    /// returns how many dwords it took.
    pub fn partial_encode_linear(&self, buff: &mut [u32]) -> (n: usize)
        requires
            old(buff)@.len() >= self.size(),
            self.fits(),
        ensures
            n == self.size(),
            final(buff)@ == self.spec_encode(old(buff)@),
            final(buff)@.len() == old(buff)@.len(),
    {
        let bits = Self::exec_bit_fields();
        let vals: Vec<u32> = vec![layout::widen_u8(self.mtype), to_bit(self.gcc), to_bit(self.sys), to_bit(self.snp), to_bit(self.gpa), layout::widen_u8(self.l2_policy)];
        let joins = Self::exec_join_fields();
        let jvals: Vec<u64> = vec![self.addr, self.mask, self.value];
        proof {
            assert(vals@ =~= self.bit_values());
            assert(jvals@ =~= self.join_values());
        }
        encode_bit_fields(&bits, &vals, buff);
        encode_join_fields(&joins, &jvals, buff);
        Self::STATIC_DWORDS
    }

    /// Reads the packet at the start of `buff` and returns how many dwords it
    /// took.
    pub fn partial_decode_linear(buff: &[u32]) -> (r: (usize, Self))
        requires
            Self::decodable(buff@),
        ensures
            r.0 == r.1.size(),
            r.1.read_from(buff@),
    {
        let bits = Self::exec_bit_fields();
        let v = decode_bit_fields(&bits, buff);
        let joins = Self::exec_join_fields();
        let j = decode_join_fields(&joins, buff);
        let p = Self { mtype: layout::narrow_u8(v[0]), gcc: v[1] != 0, sys: v[2] != 0, snp: v[3] != 0, gpa: v[4] != 0, l2_policy: layout::narrow_u8(v[5]), addr: j[0], mask: j[1], value: j[2] };
        proof {
            assert(p.bit_values() =~= v@);
            assert(p.join_values() =~= j@);
        }
        (Self::STATIC_DWORDS, p)
    }

    /// Where each field stands in a buffer that the packet is read from, as
    /// the packet header lays it out: a bit field under its mask and shift
    /// in its dword, a 64-bit field in two dwords, low half first. By
    /// `lemma_roundtrip`, encoding a packet puts its fields there.
    pub proof fn lemma_field_positions(self, buf: Seq<u32>)
        requires
            self.read_from(buf),
        ensures
            layout::u8_value(self.mtype) == layout::get_bits(buf[0], 0x7, 16),
            layout::bool_bit(self.gcc) == layout::get_bits(buf[0], 0x1, 19),
            layout::bool_bit(self.sys) == layout::get_bits(buf[0], 0x1, 20),
            layout::bool_bit(self.snp) == layout::get_bits(buf[0], 0x1, 22),
            layout::bool_bit(self.gpa) == layout::get_bits(buf[0], 0x1, 23),
            layout::u8_value(self.l2_policy) == layout::get_bits(buf[0], 0x3, 24),
            self.addr == layout::dword_pair(buf[1], buf[2]),
            self.mask == layout::dword_pair(buf[3], buf[4]),
            self.value == layout::dword_pair(buf[5], buf[6]),
    {
        assert(self.bit_values()[0] == layout::u8_value(self.mtype));
        assert(layout::decode_bits(buf, Self::bit_fields())[0] == self.bit_values()[0]);
        assert(self.bit_values()[1] == layout::bool_bit(self.gcc));
        assert(layout::decode_bits(buf, Self::bit_fields())[1] == self.bit_values()[1]);
        assert(self.bit_values()[2] == layout::bool_bit(self.sys));
        assert(layout::decode_bits(buf, Self::bit_fields())[2] == self.bit_values()[2]);
        assert(self.bit_values()[3] == layout::bool_bit(self.snp));
        assert(layout::decode_bits(buf, Self::bit_fields())[3] == self.bit_values()[3]);
        assert(self.bit_values()[4] == layout::bool_bit(self.gpa));
        assert(layout::decode_bits(buf, Self::bit_fields())[4] == self.bit_values()[4]);
        assert(self.bit_values()[5] == layout::u8_value(self.l2_policy));
        assert(layout::decode_bits(buf, Self::bit_fields())[5] == self.bit_values()[5]);
        assert(layout::decode_joins(buf, Self::join_fields())[0] == self.join_values()[0]);
        assert(layout::decode_joins(buf, Self::join_fields())[1] == self.join_values()[1]);
        assert(layout::decode_joins(buf, Self::join_fields())[2] == self.join_values()[2]);
    }

    /// The field values name the packet: two packets with the same values are
    /// equal.
    pub proof fn lemma_values_determine(a: Self, b: Self)
        requires
            a.bit_values() == b.bit_values(),
            a.join_values() == b.join_values(),
            a.tail_data() == b.tail_data(),
        ensures
            a == b,
    {
        assert(a.bit_values()[0] == layout::u8_value(a.mtype) && b.bit_values()[0] == layout::u8_value(b.mtype));
        assert(a.bit_values()[1] == layout::bool_bit(a.gcc) && b.bit_values()[1] == layout::bool_bit(b.gcc));
        assert(a.bit_values()[2] == layout::bool_bit(a.sys) && b.bit_values()[2] == layout::bool_bit(b.sys));
        assert(a.bit_values()[3] == layout::bool_bit(a.snp) && b.bit_values()[3] == layout::bool_bit(b.snp));
        assert(a.bit_values()[4] == layout::bool_bit(a.gpa) && b.bit_values()[4] == layout::bool_bit(b.gpa));
        assert(a.bit_values()[5] == layout::u8_value(a.l2_policy) && b.bit_values()[5] == layout::u8_value(b.l2_policy));
        assert(a.join_values()[0] == a.addr && b.join_values()[0] == b.addr);
        assert(a.join_values()[1] == a.mask && b.join_values()[1] == b.mask);
        assert(a.join_values()[2] == a.value && b.join_values()[2] == b.value);
    }

    /// Reading a packet is exact: two packets read from one buffer are equal.
    pub proof fn lemma_read_unique(a: Self, b: Self, buf: Seq<u32>)
        requires
            a.read_from(buf),
            b.read_from(buf),
        ensures
            a == b,
    {
        layout::lemma_reads_determine(
            buf,
            Self::bit_fields(),
            a.bit_values(),
            b.bit_values(),
            Self::join_fields(),
            a.join_values(),
            b.join_values(),
            Self::tail(),
            a.tail_data(),
            b.tail_data(),
        );
        Self::lemma_values_determine(a, b);
    }

    /// A packet reads back from what it was encoded to.
    pub proof fn lemma_roundtrip(self, buf: Seq<u32>)
        requires
            Self::layout_wf(),
            self.fits(),
            buf.len() >= self.size(),
        ensures
            self.read_from(self.spec_encode(buf)),
            Self::decodable(self.spec_encode(buf)),
            self.spec_encode(buf).len() == buf.len(),
    {
        layout::lemma_packet_roundtrip(
            buf,
            Self::bit_fields(),
            self.bit_values(),
            Self::join_fields(),
            self.join_values(),
            Self::tail(),
            self.tail_data(),
            Self::STATIC_DWORDS as nat,
        );
    }
}

/// The `WriteIncr` packet.
#[derive(Clone, Copy, Default)]
pub struct WriteIncr {
    pub count: u32,
    pub dst_addr: u64,
    pub mask: u64,
    pub init: u64,
    pub incr: u64,
}

impl WriteIncr {
    /// Dwords of the packet before its variable-length tail.
    pub const STATIC_DWORDS: usize = 10;

    pub open spec fn bit_fields() -> Seq<BitField> {
        seq![BitField { dw: 9, mask: 0x7ffff, shift: 0 }]
    }

    pub open spec fn join_fields() -> Seq<JoinField> {
        seq![JoinField { lo: 1, hi: 2 }, JoinField { lo: 3, hi: 4 }, JoinField { lo: 5, hi: 6 }, JoinField { lo: 7, hi: 8 }]
    }

    pub open spec fn tail() -> Option<DynField> {
        None
    }

    pub open spec fn bit_values(self) -> Seq<u32> {
        seq![self.count]
    }

    pub open spec fn join_values(self) -> Seq<u64> {
        seq![self.dst_addr, self.mask, self.init, self.incr]
    }

    pub open spec fn tail_data(self) -> Seq<u32> {
        Seq::<u32>::empty()
    }

    /// Every field value fits its field.
    pub open spec fn fits(self) -> bool {
        layout::fields_fit(Self::bit_fields(), self.bit_values()) && layout::tail_fits(Self::tail(), self.tail_data())
    }

    pub open spec fn layout_wf() -> bool {
        layout::layout_wf(Self::bit_fields(), Self::join_fields(), Self::tail(), Self::STATIC_DWORDS as nat)
    }

    /// Dwords that the packet takes.
    pub open spec fn size(self) -> nat {
        (Self::STATIC_DWORDS + self.tail_data().len()) as nat
    }

    /// The buffer holds the whole packet.
    pub open spec fn decodable(buf: Seq<u32>) -> bool {
        buf.len() >= Self::STATIC_DWORDS
    }

    pub open spec fn spec_encode(self, buf: Seq<u32>) -> Seq<u32> {
        layout::encode_packet(
            buf,
            Self::bit_fields(),
            self.bit_values(),
            Self::join_fields(),
            self.join_values(),
            Self::tail(),
            self.tail_data(),
        )
    }

    /// `buf` holds this packet.
    pub open spec fn read_from(self, buf: Seq<u32>) -> bool {
        layout::packet_reads(
            buf,
            Self::bit_fields(),
            self.bit_values(),
            Self::join_fields(),
            self.join_values(),
            Self::tail(),
            self.tail_data(),
        )
    }

    fn exec_bit_fields() -> (r: Vec<BitField>)
        ensures
            r@ == Self::bit_fields(),
    {
        vec![BitField { dw: 9, mask: 0x7ffff, shift: 0 }]
    }

    fn exec_join_fields() -> (r: Vec<JoinField>)
        ensures
            r@ == Self::join_fields(),
    {
        vec![JoinField { lo: 1, hi: 2 }, JoinField { lo: 3, hi: 4 }, JoinField { lo: 5, hi: 6 }, JoinField { lo: 7, hi: 8 }]
    }

    /// Whether the field layout of this packet is well formed.
    pub fn layout_ok() -> (r: bool)
        ensures
            r == Self::layout_wf(),
    {
        layout_is_wf(&Self::exec_bit_fields(), &Self::exec_join_fields(), None, Self::STATIC_DWORDS)
    }

    /// Writes the packet to the start of `buff`, without its header, and
    /// returns how many dwords it took.
    pub fn partial_encode_linear(&self, buff: &mut [u32]) -> (n: usize)
        requires
            old(buff)@.len() >= self.size(),
            self.fits(),
        ensures
            n == self.size(),
            final(buff)@ == self.spec_encode(old(buff)@),
            final(buff)@.len() == old(buff)@.len(),
    {
        let bits = Self::exec_bit_fields();
        let vals: Vec<u32> = vec![self.count];
        let joins = Self::exec_join_fields();
        let jvals: Vec<u64> = vec![self.dst_addr, self.mask, self.init, self.incr];
        proof {
            assert(vals@ =~= self.bit_values());
            assert(jvals@ =~= self.join_values());
        }
        encode_bit_fields(&bits, &vals, buff);
        encode_join_fields(&joins, &jvals, buff);
        Self::STATIC_DWORDS
    }

    /// Reads the packet at the start of `buff` and returns how many dwords it
    /// took.
    pub fn partial_decode_linear(buff: &[u32]) -> (r: (usize, Self))
        requires
            Self::decodable(buff@),
        ensures
            r.0 == r.1.size(),
            r.1.read_from(buff@),
    {
        let bits = Self::exec_bit_fields();
        let v = decode_bit_fields(&bits, buff);
        let joins = Self::exec_join_fields();
        let j = decode_join_fields(&joins, buff);
        let p = Self { count: v[0], dst_addr: j[0], mask: j[1], init: j[2], incr: j[3] };
        proof {
            assert(p.bit_values() =~= v@);
            assert(p.join_values() =~= j@);
        }
        (Self::STATIC_DWORDS, p)
    }

    /// Where each field stands in a buffer that the packet is read from, as
    /// the packet header lays it out: a bit field under its mask and shift
    /// in its dword, a 64-bit field in two dwords, low half first. By
    /// `lemma_roundtrip`, encoding a packet puts its fields there.
    pub proof fn lemma_field_positions(self, buf: Seq<u32>)
        requires
            self.read_from(buf),
        ensures
            self.count == layout::get_bits(buf[9], 0x7ffff, 0),
            self.dst_addr == layout::dword_pair(buf[1], buf[2]),
            self.mask == layout::dword_pair(buf[3], buf[4]),
            self.init == layout::dword_pair(buf[5], buf[6]),
            self.incr == layout::dword_pair(buf[7], buf[8]),
    {
        assert(self.bit_values()[0] == self.count);
        assert(layout::decode_bits(buf, Self::bit_fields())[0] == self.bit_values()[0]);
        assert(layout::decode_joins(buf, Self::join_fields())[0] == self.join_values()[0]);
        assert(layout::decode_joins(buf, Self::join_fields())[1] == self.join_values()[1]);
        assert(layout::decode_joins(buf, Self::join_fields())[2] == self.join_values()[2]);
        assert(layout::decode_joins(buf, Self::join_fields())[3] == self.join_values()[3]);
    }

    /// The field values name the packet: two packets with the same values are
    /// equal.
    pub proof fn lemma_values_determine(a: Self, b: Self)
        requires
            a.bit_values() == b.bit_values(),
            a.join_values() == b.join_values(),
            a.tail_data() == b.tail_data(),
        ensures
            a == b,
    {
        assert(a.bit_values()[0] == a.count && b.bit_values()[0] == b.count);
        assert(a.join_values()[0] == a.dst_addr && b.join_values()[0] == b.dst_addr);
        assert(a.join_values()[1] == a.mask && b.join_values()[1] == b.mask);
        assert(a.join_values()[2] == a.init && b.join_values()[2] == b.init);
        assert(a.join_values()[3] == a.incr && b.join_values()[3] == b.incr);
    }

    /// Reading a packet is exact: two packets read from one buffer are equal.
    pub proof fn lemma_read_unique(a: Self, b: Self, buf: Seq<u32>)
        requires
            a.read_from(buf),
            b.read_from(buf),
        ensures
            a == b,
    {
        layout::lemma_reads_determine(
            buf,
            Self::bit_fields(),
            a.bit_values(),
            b.bit_values(),
            Self::join_fields(),
            a.join_values(),
            b.join_values(),
            Self::tail(),
            a.tail_data(),
            b.tail_data(),
        );
        Self::lemma_values_determine(a, b);
    }

    /// A packet reads back from what it was encoded to.
    pub proof fn lemma_roundtrip(self, buf: Seq<u32>)
        requires
            Self::layout_wf(),
            self.fits(),
            buf.len() >= self.size(),
        ensures
            self.read_from(self.spec_encode(buf)),
            Self::decodable(self.spec_encode(buf)),
            self.spec_encode(buf).len() == buf.len(),
    {
        layout::lemma_packet_roundtrip(
            buf,
            Self::bit_fields(),
            self.bit_values(),
            Self::join_fields(),
            self.join_values(),
            Self::tail(),
            self.tail_data(),
            Self::STATIC_DWORDS as nat,
        );
    }
}

/// The `Indirect` packet.
#[derive(Clone, Copy, Default)]
pub struct Indirect {
    pub vmid: u8,
    pub priv_: bool,
    pub ib_size: u32,
    pub ib_base: u64,
    pub csa_addr: u64,
}

impl Indirect {
    /// Dwords of the packet before its variable-length tail.
    pub const STATIC_DWORDS: usize = 6;

    pub open spec fn bit_fields() -> Seq<BitField> {
        seq![BitField { dw: 0, mask: 0xf, shift: 16 }, BitField { dw: 0, mask: 0x1, shift: 31 }, BitField { dw: 3, mask: 0xfffff, shift: 0 }]
    }

    pub open spec fn join_fields() -> Seq<JoinField> {
        seq![JoinField { lo: 1, hi: 2 }, JoinField { lo: 4, hi: 5 }]
    }

    pub open spec fn tail() -> Option<DynField> {
        None
    }

    pub open spec fn bit_values(self) -> Seq<u32> {
        seq![self.vmid as u32, layout::bool_bit(self.priv_), self.ib_size]
    }

    pub open spec fn join_values(self) -> Seq<u64> {
        seq![self.ib_base, self.csa_addr]
    }

    pub open spec fn tail_data(self) -> Seq<u32> {
        Seq::<u32>::empty()
    }

    /// Every field value fits its field.
    pub open spec fn fits(self) -> bool {
        layout::fields_fit(Self::bit_fields(), self.bit_values()) && layout::tail_fits(Self::tail(), self.tail_data())
    }

    pub open spec fn layout_wf() -> bool {
        layout::layout_wf(Self::bit_fields(), Self::join_fields(), Self::tail(), Self::STATIC_DWORDS as nat)
    }

    /// Dwords that the packet takes.
    pub open spec fn size(self) -> nat {
        (Self::STATIC_DWORDS + self.tail_data().len()) as nat
    }

    /// The buffer holds the whole packet.
    pub open spec fn decodable(buf: Seq<u32>) -> bool {
        buf.len() >= Self::STATIC_DWORDS
    }

    pub open spec fn spec_encode(self, buf: Seq<u32>) -> Seq<u32> {
        layout::encode_packet(
            buf,
            Self::bit_fields(),
            self.bit_values(),
            Self::join_fields(),
            self.join_values(),
            Self::tail(),
            self.tail_data(),
        )
    }

    /// `buf` holds this packet.
    pub open spec fn read_from(self, buf: Seq<u32>) -> bool {
        layout::packet_reads(
            buf,
            Self::bit_fields(),
            self.bit_values(),
            Self::join_fields(),
            self.join_values(),
            Self::tail(),
            self.tail_data(),
        )
    }

    fn exec_bit_fields() -> (r: Vec<BitField>)
        ensures
            r@ == Self::bit_fields(),
    {
        vec![BitField { dw: 0, mask: 0xf, shift: 16 }, BitField { dw: 0, mask: 0x1, shift: 31 }, BitField { dw: 3, mask: 0xfffff, shift: 0 }]
    }

    fn exec_join_fields() -> (r: Vec<JoinField>)
        ensures
            r@ == Self::join_fields(),
    {
        vec![JoinField { lo: 1, hi: 2 }, JoinField { lo: 4, hi: 5 }]
    }

    /// Whether the field layout of this packet is well formed.
    pub fn layout_ok() -> (r: bool)
        ensures
            r == Self::layout_wf(),
    {
        layout_is_wf(&Self::exec_bit_fields(), &Self::exec_join_fields(), None, Self::STATIC_DWORDS)
    }

    /// Writes the packet to the start of `buff`, without its header, and
    /// returns how many dwords it took.
    pub fn partial_encode_linear(&self, buff: &mut [u32]) -> (n: usize)
        requires
            old(buff)@.len() >= self.size(),
            self.fits(),
        ensures
            n == self.size(),
            final(buff)@ == self.spec_encode(old(buff)@),
            final(buff)@.len() == old(buff)@.len(),
    {
        let bits = Self::exec_bit_fields();
        let vals: Vec<u32> = vec![layout::widen_u8(self.vmid), to_bit(self.priv_), self.ib_size];
        let joins = Self::exec_join_fields();
        let jvals: Vec<u64> = vec![self.ib_base, self.csa_addr];
        proof {
            assert(vals@ =~= self.bit_values());
            assert(jvals@ =~= self.join_values());
        }
        encode_bit_fields(&bits, &vals, buff);
        encode_join_fields(&joins, &jvals, buff);
        Self::STATIC_DWORDS
    }

    /// Reads the packet at the start of `buff` and returns how many dwords it
    /// took.
    pub fn partial_decode_linear(buff: &[u32]) -> (r: (usize, Self))
        requires
            Self::decodable(buff@),
        ensures
            r.0 == r.1.size(),
            r.1.read_from(buff@),
    {
        let bits = Self::exec_bit_fields();
        let v = decode_bit_fields(&bits, buff);
        let joins = Self::exec_join_fields();
        let j = decode_join_fields(&joins, buff);
        let p = Self { vmid: layout::narrow_u8(v[0]), priv_: v[1] != 0, ib_size: v[2], ib_base: j[0], csa_addr: j[1] };
        proof {
            assert(p.bit_values() =~= v@);
            assert(p.join_values() =~= j@);
        }
        (Self::STATIC_DWORDS, p)
    }

    /// Where each field stands in a buffer that the packet is read from, as
    /// the packet header lays it out: a bit field under its mask and shift
    /// in its dword, a 64-bit field in two dwords, low half first. By
    /// `lemma_roundtrip`, encoding a packet puts its fields there.
    pub proof fn lemma_field_positions(self, buf: Seq<u32>)
        requires
            self.read_from(buf),
        ensures
            layout::u8_value(self.vmid) == layout::get_bits(buf[0], 0xf, 16),
            layout::bool_bit(self.priv_) == layout::get_bits(buf[0], 0x1, 31),
            self.ib_size == layout::get_bits(buf[3], 0xfffff, 0),
            self.ib_base == layout::dword_pair(buf[1], buf[2]),
            self.csa_addr == layout::dword_pair(buf[4], buf[5]),
    {
        assert(self.bit_values()[0] == layout::u8_value(self.vmid));
        assert(layout::decode_bits(buf, Self::bit_fields())[0] == self.bit_values()[0]);
        assert(self.bit_values()[1] == layout::bool_bit(self.priv_));
        assert(layout::decode_bits(buf, Self::bit_fields())[1] == self.bit_values()[1]);
        assert(self.bit_values()[2] == self.ib_size);
        assert(layout::decode_bits(buf, Self::bit_fields())[2] == self.bit_values()[2]);
        assert(layout::decode_joins(buf, Self::join_fields())[0] == self.join_values()[0]);
        assert(layout::decode_joins(buf, Self::join_fields())[1] == self.join_values()[1]);
    }

    /// The field values name the packet: two packets with the same values are
    /// equal.
    pub proof fn lemma_values_determine(a: Self, b: Self)
        requires
            a.bit_values() == b.bit_values(),
            a.join_values() == b.join_values(),
            a.tail_data() == b.tail_data(),
        ensures
            a == b,
    {
        assert(a.bit_values()[0] == layout::u8_value(a.vmid) && b.bit_values()[0] == layout::u8_value(b.vmid));
        assert(a.bit_values()[1] == layout::bool_bit(a.priv_) && b.bit_values()[1] == layout::bool_bit(b.priv_));
        assert(a.bit_values()[2] == a.ib_size && b.bit_values()[2] == b.ib_size);
        assert(a.join_values()[0] == a.ib_base && b.join_values()[0] == b.ib_base);
        assert(a.join_values()[1] == a.csa_addr && b.join_values()[1] == b.csa_addr);
    }

    /// Reading a packet is exact: two packets read from one buffer are equal.
    pub proof fn lemma_read_unique(a: Self, b: Self, buf: Seq<u32>)
        requires
            a.read_from(buf),
            b.read_from(buf),
        ensures
            a == b,
    {
        layout::lemma_reads_determine(
            buf,
            Self::bit_fields(),
            a.bit_values(),
            b.bit_values(),
            Self::join_fields(),
            a.join_values(),
            b.join_values(),
            Self::tail(),
            a.tail_data(),
            b.tail_data(),
        );
        Self::lemma_values_determine(a, b);
    }

    /// A packet reads back from what it was encoded to.
    pub proof fn lemma_roundtrip(self, buf: Seq<u32>)
        requires
            Self::layout_wf(),
            self.fits(),
            buf.len() >= self.size(),
        ensures
            self.read_from(self.spec_encode(buf)),
            Self::decodable(self.spec_encode(buf)),
            self.spec_encode(buf).len() == buf.len(),
    {
        layout::lemma_packet_roundtrip(
            buf,
            Self::bit_fields(),
            self.bit_values(),
            Self::join_fields(),
            self.join_values(),
            Self::tail(),
            self.tail_data(),
            Self::STATIC_DWORDS as nat,
        );
    }
}

/// The `Semaphore` packet.
#[derive(Clone, Copy, Default)]
pub struct Semaphore {
    pub write_one: bool,
    pub signal: bool,
    pub mailbox: bool,
    pub addr: u64,
}

impl Semaphore {
    /// Dwords of the packet before its variable-length tail.
    pub const STATIC_DWORDS: usize = 3;

    pub open spec fn bit_fields() -> Seq<BitField> {
        seq![BitField { dw: 0, mask: 0x1, shift: 29 }, BitField { dw: 0, mask: 0x1, shift: 30 }, BitField { dw: 0, mask: 0x1, shift: 31 }]
    }

    pub open spec fn join_fields() -> Seq<JoinField> {
        seq![JoinField { lo: 1, hi: 2 }]
    }

    pub open spec fn tail() -> Option<DynField> {
        None
    }

    pub open spec fn bit_values(self) -> Seq<u32> {
        seq![layout::bool_bit(self.write_one), layout::bool_bit(self.signal), layout::bool_bit(self.mailbox)]
    }

    pub open spec fn join_values(self) -> Seq<u64> {
        seq![self.addr]
    }

    pub open spec fn tail_data(self) -> Seq<u32> {
        Seq::<u32>::empty()
    }

    /// Every field value fits its field.
    pub open spec fn fits(self) -> bool {
        layout::fields_fit(Self::bit_fields(), self.bit_values()) && layout::tail_fits(Self::tail(), self.tail_data())
    }

    pub open spec fn layout_wf() -> bool {
        layout::layout_wf(Self::bit_fields(), Self::join_fields(), Self::tail(), Self::STATIC_DWORDS as nat)
    }

    /// Dwords that the packet takes.
    pub open spec fn size(self) -> nat {
        (Self::STATIC_DWORDS + self.tail_data().len()) as nat
    }

    /// The buffer holds the whole packet.
    pub open spec fn decodable(buf: Seq<u32>) -> bool {
        buf.len() >= Self::STATIC_DWORDS
    }

    pub open spec fn spec_encode(self, buf: Seq<u32>) -> Seq<u32> {
        layout::encode_packet(
            buf,
            Self::bit_fields(),
            self.bit_values(),
            Self::join_fields(),
            self.join_values(),
            Self::tail(),
            self.tail_data(),
        )
    }

    /// `buf` holds this packet.
    pub open spec fn read_from(self, buf: Seq<u32>) -> bool {
        layout::packet_reads(
            buf,
            Self::bit_fields(),
            self.bit_values(),
            Self::join_fields(),
            self.join_values(),
            Self::tail(),
            self.tail_data(),
        )
    }

    fn exec_bit_fields() -> (r: Vec<BitField>)
        ensures
            r@ == Self::bit_fields(),
    {
        vec![BitField { dw: 0, mask: 0x1, shift: 29 }, BitField { dw: 0, mask: 0x1, shift: 30 }, BitField { dw: 0, mask: 0x1, shift: 31 }]
    }

    fn exec_join_fields() -> (r: Vec<JoinField>)
        ensures
            r@ == Self::join_fields(),
    {
        vec![JoinField { lo: 1, hi: 2 }]
    }

    /// Whether the field layout of this packet is well formed.
    pub fn layout_ok() -> (r: bool)
        ensures
            r == Self::layout_wf(),
    {
        layout_is_wf(&Self::exec_bit_fields(), &Self::exec_join_fields(), None, Self::STATIC_DWORDS)
    }

    /// Writes the packet to the start of `buff`, without its header, and
    /// returns how many dwords it took.
    pub fn partial_encode_linear(&self, buff: &mut [u32]) -> (n: usize)
        requires
            old(buff)@.len() >= self.size(),
            self.fits(),
        ensures
            n == self.size(),
            final(buff)@ == self.spec_encode(old(buff)@),
            final(buff)@.len() == old(buff)@.len(),
    {
        let bits = Self::exec_bit_fields();
        let vals: Vec<u32> = vec![to_bit(self.write_one), to_bit(self.signal), to_bit(self.mailbox)];
        let joins = Self::exec_join_fields();
        let jvals: Vec<u64> = vec![self.addr];
        proof {
            assert(vals@ =~= self.bit_values());
            assert(jvals@ =~= self.join_values());
        }
        encode_bit_fields(&bits, &vals, buff);
        encode_join_fields(&joins, &jvals, buff);
        Self::STATIC_DWORDS
    }

    /// Reads the packet at the start of `buff` and returns how many dwords it
    /// took.
    pub fn partial_decode_linear(buff: &[u32]) -> (r: (usize, Self))
        requires
            Self::decodable(buff@),
        ensures
            r.0 == r.1.size(),
            r.1.read_from(buff@),
    {
        let bits = Self::exec_bit_fields();
        let v = decode_bit_fields(&bits, buff);
        let joins = Self::exec_join_fields();
        let j = decode_join_fields(&joins, buff);
        let p = Self { write_one: v[0] != 0, signal: v[1] != 0, mailbox: v[2] != 0, addr: j[0] };
        proof {
            assert(p.bit_values() =~= v@);
            assert(p.join_values() =~= j@);
        }
        (Self::STATIC_DWORDS, p)
    }

    /// Where each field stands in a buffer that the packet is read from, as
    /// the packet header lays it out: a bit field under its mask and shift
    /// in its dword, a 64-bit field in two dwords, low half first. By
    /// `lemma_roundtrip`, encoding a packet puts its fields there.
    pub proof fn lemma_field_positions(self, buf: Seq<u32>)
        requires
            self.read_from(buf),
        ensures
            layout::bool_bit(self.write_one) == layout::get_bits(buf[0], 0x1, 29),
            layout::bool_bit(self.signal) == layout::get_bits(buf[0], 0x1, 30),
            layout::bool_bit(self.mailbox) == layout::get_bits(buf[0], 0x1, 31),
            self.addr == layout::dword_pair(buf[1], buf[2]),
    {
        assert(self.bit_values()[0] == layout::bool_bit(self.write_one));
        assert(layout::decode_bits(buf, Self::bit_fields())[0] == self.bit_values()[0]);
        assert(self.bit_values()[1] == layout::bool_bit(self.signal));
        assert(layout::decode_bits(buf, Self::bit_fields())[1] == self.bit_values()[1]);
        assert(self.bit_values()[2] == layout::bool_bit(self.mailbox));
        assert(layout::decode_bits(buf, Self::bit_fields())[2] == self.bit_values()[2]);
        assert(layout::decode_joins(buf, Self::join_fields())[0] == self.join_values()[0]);
    }

    /// The field values name the packet: two packets with the same values are
    /// equal.
    pub proof fn lemma_values_determine(a: Self, b: Self)
        requires
            a.bit_values() == b.bit_values(),
            a.join_values() == b.join_values(),
            a.tail_data() == b.tail_data(),
        ensures
            a == b,
    {
        assert(a.bit_values()[0] == layout::bool_bit(a.write_one) && b.bit_values()[0] == layout::bool_bit(b.write_one));
        assert(a.bit_values()[1] == layout::bool_bit(a.signal) && b.bit_values()[1] == layout::bool_bit(b.signal));
        assert(a.bit_values()[2] == layout::bool_bit(a.mailbox) && b.bit_values()[2] == layout::bool_bit(b.mailbox));
        assert(a.join_values()[0] == a.addr && b.join_values()[0] == b.addr);
    }

    /// Reading a packet is exact: two packets read from one buffer are equal.
    pub proof fn lemma_read_unique(a: Self, b: Self, buf: Seq<u32>)
        requires
            a.read_from(buf),
            b.read_from(buf),
        ensures
            a == b,
    {
        layout::lemma_reads_determine(
            buf,
            Self::bit_fields(),
            a.bit_values(),
            b.bit_values(),
            Self::join_fields(),
            a.join_values(),
            b.join_values(),
            Self::tail(),
            a.tail_data(),
            b.tail_data(),
        );
        Self::lemma_values_determine(a, b);
    }

    /// A packet reads back from what it was encoded to.
    pub proof fn lemma_roundtrip(self, buf: Seq<u32>)
        requires
            Self::layout_wf(),
            self.fits(),
            buf.len() >= self.size(),
        ensures
            self.read_from(self.spec_encode(buf)),
            Self::decodable(self.spec_encode(buf)),
            self.spec_encode(buf).len() == buf.len(),
    {
        layout::lemma_packet_roundtrip(
            buf,
            Self::bit_fields(),
            self.bit_values(),
            Self::join_fields(),
            self.join_values(),
            Self::tail(),
            self.tail_data(),
            Self::STATIC_DWORDS as nat,
        );
    }
}

/// The `Fence` packet.
#[derive(Clone, Copy, Default)]
pub struct Fence {
    pub mtype: u8,
    pub gcc: bool,
    pub sys: bool,
    pub snp: bool,
    pub gpa: bool,
    pub l2_policy: u8,
    pub data: u32,
    pub addr: u64,
}

impl Fence {
    /// Dwords of the packet before its variable-length tail.
    pub const STATIC_DWORDS: usize = 4;

    pub open spec fn bit_fields() -> Seq<BitField> {
        seq![BitField { dw: 0, mask: 0x7, shift: 16 }, BitField { dw: 0, mask: 0x1, shift: 19 }, BitField { dw: 0, mask: 0x1, shift: 20 }, BitField { dw: 0, mask: 0x1, shift: 22 }, BitField { dw: 0, mask: 0x1, shift: 23 }, BitField { dw: 0, mask: 0x3, shift: 24 }, BitField { dw: 3, mask: 0xffffffff, shift: 0 }]
    }

    pub open spec fn join_fields() -> Seq<JoinField> {
        seq![JoinField { lo: 1, hi: 2 }]
    }

    pub open spec fn tail() -> Option<DynField> {
        None
    }

    pub open spec fn bit_values(self) -> Seq<u32> {
        seq![self.mtype as u32, layout::bool_bit(self.gcc), layout::bool_bit(self.sys), layout::bool_bit(self.snp), layout::bool_bit(self.gpa), self.l2_policy as u32, self.data]
    }

    pub open spec fn join_values(self) -> Seq<u64> {
        seq![self.addr]
    }

    pub open spec fn tail_data(self) -> Seq<u32> {
        Seq::<u32>::empty()
    }

    /// Every field value fits its field.
    pub open spec fn fits(self) -> bool {
        layout::fields_fit(Self::bit_fields(), self.bit_values()) && layout::tail_fits(Self::tail(), self.tail_data())
    }

    pub open spec fn layout_wf() -> bool {
        layout::layout_wf(Self::bit_fields(), Self::join_fields(), Self::tail(), Self::STATIC_DWORDS as nat)
    }

    /// Dwords that the packet takes.
    pub open spec fn size(self) -> nat {
        (Self::STATIC_DWORDS + self.tail_data().len()) as nat
    }

    /// The buffer holds the whole packet.
    pub open spec fn decodable(buf: Seq<u32>) -> bool {
        buf.len() >= Self::STATIC_DWORDS
    }

    pub open spec fn spec_encode(self, buf: Seq<u32>) -> Seq<u32> {
        layout::encode_packet(
            buf,
            Self::bit_fields(),
            self.bit_values(),
            Self::join_fields(),
            self.join_values(),
            Self::tail(),
            self.tail_data(),
        )
    }

    /// `buf` holds this packet.
    pub open spec fn read_from(self, buf: Seq<u32>) -> bool {
        layout::packet_reads(
            buf,
            Self::bit_fields(),
            self.bit_values(),
            Self::join_fields(),
            self.join_values(),
            Self::tail(),
            self.tail_data(),
        )
    }

    fn exec_bit_fields() -> (r: Vec<BitField>)
        ensures
            r@ == Self::bit_fields(),
    {
        vec![BitField { dw: 0, mask: 0x7, shift: 16 }, BitField { dw: 0, mask: 0x1, shift: 19 }, BitField { dw: 0, mask: 0x1, shift: 20 }, BitField { dw: 0, mask: 0x1, shift: 22 }, BitField { dw: 0, mask: 0x1, shift: 23 }, BitField { dw: 0, mask: 0x3, shift: 24 }, BitField { dw: 3, mask: 0xffffffff, shift: 0 }]
    }

    fn exec_join_fields() -> (r: Vec<JoinField>)
        ensures
            r@ == Self::join_fields(),
    {
        vec![JoinField { lo: 1, hi: 2 }]
    }

    /// Whether the field layout of this packet is well formed.
    pub fn layout_ok() -> (r: bool)
        ensures
            r == Self::layout_wf(),
    {
        layout_is_wf(&Self::exec_bit_fields(), &Self::exec_join_fields(), None, Self::STATIC_DWORDS)
    }

    /// Writes the packet to the start of `buff`, without its header, and
    /// returns how many dwords it took.
    pub fn partial_encode_linear(&self, buff: &mut [u32]) -> (n: usize)
        requires
            old(buff)@.len() >= self.size(),
            self.fits(),
        ensures
            n == self.size(),
            final(buff)@ == self.spec_encode(old(buff)@),
            final(buff)@.len() == old(buff)@.len(),
    {
        let bits = Self::exec_bit_fields();
        let vals: Vec<u32> = vec![layout::widen_u8(self.mtype), to_bit(self.gcc), to_bit(self.sys), to_bit(self.snp), to_bit(self.gpa), layout::widen_u8(self.l2_policy), self.data];
        let joins = Self::exec_join_fields();
        let jvals: Vec<u64> = vec![self.addr];
        proof {
            assert(vals@ =~= self.bit_values());
            assert(jvals@ =~= self.join_values());
        }
        encode_bit_fields(&bits, &vals, buff);
        encode_join_fields(&joins, &jvals, buff);
        Self::STATIC_DWORDS
    }

    /// Reads the packet at the start of `buff` and returns how many dwords it
    /// took.
    pub fn partial_decode_linear(buff: &[u32]) -> (r: (usize, Self))
        requires
            Self::decodable(buff@),
        ensures
            r.0 == r.1.size(),
            r.1.read_from(buff@),
    {
        let bits = Self::exec_bit_fields();
        let v = decode_bit_fields(&bits, buff);
        let joins = Self::exec_join_fields();
        let j = decode_join_fields(&joins, buff);
        let p = Self { mtype: layout::narrow_u8(v[0]), gcc: v[1] != 0, sys: v[2] != 0, snp: v[3] != 0, gpa: v[4] != 0, l2_policy: layout::narrow_u8(v[5]), data: v[6], addr: j[0] };
        proof {
            assert(p.bit_values() =~= v@);
            assert(p.join_values() =~= j@);
        }
        (Self::STATIC_DWORDS, p)
    }

    /// Where each field stands in a buffer that the packet is read from, as
    /// the packet header lays it out: a bit field under its mask and shift
    /// in its dword, a 64-bit field in two dwords, low half first. By
    /// `lemma_roundtrip`, encoding a packet puts its fields there.
    pub proof fn lemma_field_positions(self, buf: Seq<u32>)
        requires
            self.read_from(buf),
        ensures
            layout::u8_value(self.mtype) == layout::get_bits(buf[0], 0x7, 16),
            layout::bool_bit(self.gcc) == layout::get_bits(buf[0], 0x1, 19),
            layout::bool_bit(self.sys) == layout::get_bits(buf[0], 0x1, 20),
            layout::bool_bit(self.snp) == layout::get_bits(buf[0], 0x1, 22),
            layout::bool_bit(self.gpa) == layout::get_bits(buf[0], 0x1, 23),
            layout::u8_value(self.l2_policy) == layout::get_bits(buf[0], 0x3, 24),
            self.data == layout::get_bits(buf[3], 0xffffffff, 0),
            self.addr == layout::dword_pair(buf[1], buf[2]),
    {
        assert(self.bit_values()[0] == layout::u8_value(self.mtype));
        assert(layout::decode_bits(buf, Self::bit_fields())[0] == self.bit_values()[0]);
        assert(self.bit_values()[1] == layout::bool_bit(self.gcc));
        assert(layout::decode_bits(buf, Self::bit_fields())[1] == self.bit_values()[1]);
        assert(self.bit_values()[2] == layout::bool_bit(self.sys));
        assert(layout::decode_bits(buf, Self::bit_fields())[2] == self.bit_values()[2]);
        assert(self.bit_values()[3] == layout::bool_bit(self.snp));
        assert(layout::decode_bits(buf, Self::bit_fields())[3] == self.bit_values()[3]);
        assert(self.bit_values()[4] == layout::bool_bit(self.gpa));
        assert(layout::decode_bits(buf, Self::bit_fields())[4] == self.bit_values()[4]);
        assert(self.bit_values()[5] == layout::u8_value(self.l2_policy));
        assert(layout::decode_bits(buf, Self::bit_fields())[5] == self.bit_values()[5]);
        assert(self.bit_values()[6] == self.data);
        assert(layout::decode_bits(buf, Self::bit_fields())[6] == self.bit_values()[6]);
        assert(layout::decode_joins(buf, Self::join_fields())[0] == self.join_values()[0]);
    }

    /// The field values name the packet: two packets with the same values are
    /// equal.
    pub proof fn lemma_values_determine(a: Self, b: Self)
        requires
            a.bit_values() == b.bit_values(),
            a.join_values() == b.join_values(),
            a.tail_data() == b.tail_data(),
        ensures
            a == b,
    {
        assert(a.bit_values()[0] == layout::u8_value(a.mtype) && b.bit_values()[0] == layout::u8_value(b.mtype));
        assert(a.bit_values()[1] == layout::bool_bit(a.gcc) && b.bit_values()[1] == layout::bool_bit(b.gcc));
        assert(a.bit_values()[2] == layout::bool_bit(a.sys) && b.bit_values()[2] == layout::bool_bit(b.sys));
        assert(a.bit_values()[3] == layout::bool_bit(a.snp) && b.bit_values()[3] == layout::bool_bit(b.snp));
        assert(a.bit_values()[4] == layout::bool_bit(a.gpa) && b.bit_values()[4] == layout::bool_bit(b.gpa));
        assert(a.bit_values()[5] == layout::u8_value(a.l2_policy) && b.bit_values()[5] == layout::u8_value(b.l2_policy));
        assert(a.bit_values()[6] == a.data && b.bit_values()[6] == b.data);
        assert(a.join_values()[0] == a.addr && b.join_values()[0] == b.addr);
    }

    /// Reading a packet is exact: two packets read from one buffer are equal.
    pub proof fn lemma_read_unique(a: Self, b: Self, buf: Seq<u32>)
        requires
            a.read_from(buf),
            b.read_from(buf),
        ensures
            a == b,
    {
        layout::lemma_reads_determine(
            buf,
            Self::bit_fields(),
            a.bit_values(),
            b.bit_values(),
            Self::join_fields(),
            a.join_values(),
            b.join_values(),
            Self::tail(),
            a.tail_data(),
            b.tail_data(),
        );
        Self::lemma_values_determine(a, b);
    }

    /// A packet reads back from what it was encoded to.
    pub proof fn lemma_roundtrip(self, buf: Seq<u32>)
        requires
            Self::layout_wf(),
            self.fits(),
            buf.len() >= self.size(),
        ensures
            self.read_from(self.spec_encode(buf)),
            Self::decodable(self.spec_encode(buf)),
            self.spec_encode(buf).len() == buf.len(),
    {
        layout::lemma_packet_roundtrip(
            buf,
            Self::bit_fields(),
            self.bit_values(),
            Self::join_fields(),
            self.join_values(),
            Self::tail(),
            self.tail_data(),
            Self::STATIC_DWORDS as nat,
        );
    }
}

/// The `SrbmWrite` packet.
#[derive(Clone, Copy, Default)]
pub struct SrbmWrite {
    pub byte_en: u8,
    pub addr: u32,
    pub apertureid: u16,
    pub data: u32,
}

impl SrbmWrite {
    /// Dwords of the packet before its variable-length tail.
    pub const STATIC_DWORDS: usize = 3;

    pub open spec fn bit_fields() -> Seq<BitField> {
        seq![BitField { dw: 0, mask: 0xf, shift: 28 }, BitField { dw: 1, mask: 0x3ffff, shift: 0 }, BitField { dw: 1, mask: 0xfff, shift: 20 }, BitField { dw: 2, mask: 0xffffffff, shift: 0 }]
    }

    pub open spec fn join_fields() -> Seq<JoinField> {
        Seq::<JoinField>::empty()
    }

    pub open spec fn tail() -> Option<DynField> {
        None
    }

    pub open spec fn bit_values(self) -> Seq<u32> {
        seq![self.byte_en as u32, self.addr, self.apertureid as u32, self.data]
    }

    pub open spec fn join_values(self) -> Seq<u64> {
        Seq::<u64>::empty()
    }

    pub open spec fn tail_data(self) -> Seq<u32> {
        Seq::<u32>::empty()
    }

    /// Every field value fits its field.
    pub open spec fn fits(self) -> bool {
        layout::fields_fit(Self::bit_fields(), self.bit_values()) && layout::tail_fits(Self::tail(), self.tail_data())
    }

    pub open spec fn layout_wf() -> bool {
        layout::layout_wf(Self::bit_fields(), Self::join_fields(), Self::tail(), Self::STATIC_DWORDS as nat)
    }

    /// Dwords that the packet takes.
    pub open spec fn size(self) -> nat {
        (Self::STATIC_DWORDS + self.tail_data().len()) as nat
    }

    /// The buffer holds the whole packet.
    pub open spec fn decodable(buf: Seq<u32>) -> bool {
        buf.len() >= Self::STATIC_DWORDS
    }

    pub open spec fn spec_encode(self, buf: Seq<u32>) -> Seq<u32> {
        layout::encode_packet(
            buf,
            Self::bit_fields(),
            self.bit_values(),
            Self::join_fields(),
            self.join_values(),
            Self::tail(),
            self.tail_data(),
        )
    }

    /// `buf` holds this packet.
    pub open spec fn read_from(self, buf: Seq<u32>) -> bool {
        layout::packet_reads(
            buf,
            Self::bit_fields(),
            self.bit_values(),
            Self::join_fields(),
            self.join_values(),
            Self::tail(),
            self.tail_data(),
        )
    }

    fn exec_bit_fields() -> (r: Vec<BitField>)
        ensures
            r@ == Self::bit_fields(),
    {
        vec![BitField { dw: 0, mask: 0xf, shift: 28 }, BitField { dw: 1, mask: 0x3ffff, shift: 0 }, BitField { dw: 1, mask: 0xfff, shift: 20 }, BitField { dw: 2, mask: 0xffffffff, shift: 0 }]
    }

    fn exec_join_fields() -> (r: Vec<JoinField>)
        ensures
            r@ == Self::join_fields(),
    {
        Vec::<JoinField>::new()
    }

    /// Whether the field layout of this packet is well formed.
    pub fn layout_ok() -> (r: bool)
        ensures
            r == Self::layout_wf(),
    {
        layout_is_wf(&Self::exec_bit_fields(), &Self::exec_join_fields(), None, Self::STATIC_DWORDS)
    }

    /// Writes the packet to the start of `buff`, without its header, and
    /// returns how many dwords it took.
    pub fn partial_encode_linear(&self, buff: &mut [u32]) -> (n: usize)
        requires
            old(buff)@.len() >= self.size(),
            self.fits(),
        ensures
            n == self.size(),
            final(buff)@ == self.spec_encode(old(buff)@),
            final(buff)@.len() == old(buff)@.len(),
    {
        let bits = Self::exec_bit_fields();
        let vals: Vec<u32> = vec![layout::widen_u8(self.byte_en), self.addr, layout::widen_u16(self.apertureid), self.data];
        let joins = Self::exec_join_fields();
        let jvals: Vec<u64> = Vec::<u64>::new();
        proof {
            assert(vals@ =~= self.bit_values());
            assert(jvals@ =~= self.join_values());
        }
        encode_bit_fields(&bits, &vals, buff);
        encode_join_fields(&joins, &jvals, buff);
        Self::STATIC_DWORDS
    }

    /// Reads the packet at the start of `buff` and returns how many dwords it
    /// took.
    pub fn partial_decode_linear(buff: &[u32]) -> (r: (usize, Self))
        requires
            Self::decodable(buff@),
        ensures
            r.0 == r.1.size(),
            r.1.read_from(buff@),
    {
        let bits = Self::exec_bit_fields();
        let v = decode_bit_fields(&bits, buff);
        let joins = Self::exec_join_fields();
        let j = decode_join_fields(&joins, buff);
        let p = Self { byte_en: layout::narrow_u8(v[0]), addr: v[1], apertureid: layout::narrow_u16(v[2]), data: v[3] };
        proof {
            assert(p.bit_values() =~= v@);
            assert(p.join_values() =~= j@);
        }
        (Self::STATIC_DWORDS, p)
    }

    /// Where each field stands in a buffer that the packet is read from, as
    /// the packet header lays it out: a bit field under its mask and shift
    /// in its dword, a 64-bit field in two dwords, low half first. By
    /// `lemma_roundtrip`, encoding a packet puts its fields there.
    pub proof fn lemma_field_positions(self, buf: Seq<u32>)
        requires
            self.read_from(buf),
        ensures
            layout::u8_value(self.byte_en) == layout::get_bits(buf[0], 0xf, 28),
            self.addr == layout::get_bits(buf[1], 0x3ffff, 0),
            layout::u16_value(self.apertureid) == layout::get_bits(buf[1], 0xfff, 20),
            self.data == layout::get_bits(buf[2], 0xffffffff, 0),
    {
        assert(self.bit_values()[0] == layout::u8_value(self.byte_en));
        assert(layout::decode_bits(buf, Self::bit_fields())[0] == self.bit_values()[0]);
        assert(self.bit_values()[1] == self.addr);
        assert(layout::decode_bits(buf, Self::bit_fields())[1] == self.bit_values()[1]);
        assert(self.bit_values()[2] == layout::u16_value(self.apertureid));
        assert(layout::decode_bits(buf, Self::bit_fields())[2] == self.bit_values()[2]);
        assert(self.bit_values()[3] == self.data);
        assert(layout::decode_bits(buf, Self::bit_fields())[3] == self.bit_values()[3]);
    }

    /// The field values name the packet: two packets with the same values are
    /// equal.
    pub proof fn lemma_values_determine(a: Self, b: Self)
        requires
            a.bit_values() == b.bit_values(),
            a.join_values() == b.join_values(),
            a.tail_data() == b.tail_data(),
        ensures
            a == b,
    {
        assert(a.bit_values()[0] == layout::u8_value(a.byte_en) && b.bit_values()[0] == layout::u8_value(b.byte_en));
        assert(a.bit_values()[1] == a.addr && b.bit_values()[1] == b.addr);
        assert(a.bit_values()[2] == layout::u16_value(a.apertureid) && b.bit_values()[2] == layout::u16_value(b.apertureid));
        assert(a.bit_values()[3] == a.data && b.bit_values()[3] == b.data);
    }

    /// Reading a packet is exact: two packets read from one buffer are equal.
    pub proof fn lemma_read_unique(a: Self, b: Self, buf: Seq<u32>)
        requires
            a.read_from(buf),
            b.read_from(buf),
        ensures
            a == b,
    {
        layout::lemma_reads_determine(
            buf,
            Self::bit_fields(),
            a.bit_values(),
            b.bit_values(),
            Self::join_fields(),
            a.join_values(),
            b.join_values(),
            Self::tail(),
            a.tail_data(),
            b.tail_data(),
        );
        Self::lemma_values_determine(a, b);
    }

    /// A packet reads back from what it was encoded to.
    pub proof fn lemma_roundtrip(self, buf: Seq<u32>)
        requires
            Self::layout_wf(),
            self.fits(),
            buf.len() >= self.size(),
        ensures
            self.read_from(self.spec_encode(buf)),
            Self::decodable(self.spec_encode(buf)),
            self.spec_encode(buf).len() == buf.len(),
    {
        layout::lemma_packet_roundtrip(
            buf,
            Self::bit_fields(),
            self.bit_values(),
            Self::join_fields(),
            self.join_values(),
            Self::tail(),
            self.tail_data(),
            Self::STATIC_DWORDS as nat,
        );
    }
}

/// The `PreExe` packet.
#[derive(Clone, Copy, Default)]
pub struct PreExe {
    pub dev_sel: u8,
    pub exec_count: u16,
}

impl PreExe {
    /// Dwords of the packet before its variable-length tail.
    pub const STATIC_DWORDS: usize = 2;

    pub open spec fn bit_fields() -> Seq<BitField> {
        seq![BitField { dw: 0, mask: 0xff, shift: 16 }, BitField { dw: 1, mask: 0x3fff, shift: 0 }]
    }

    pub open spec fn join_fields() -> Seq<JoinField> {
        Seq::<JoinField>::empty()
    }

    pub open spec fn tail() -> Option<DynField> {
        None
    }

    pub open spec fn bit_values(self) -> Seq<u32> {
        seq![self.dev_sel as u32, self.exec_count as u32]
    }

    pub open spec fn join_values(self) -> Seq<u64> {
        Seq::<u64>::empty()
    }

    pub open spec fn tail_data(self) -> Seq<u32> {
        Seq::<u32>::empty()
    }

    /// Every field value fits its field.
    pub open spec fn fits(self) -> bool {
        layout::fields_fit(Self::bit_fields(), self.bit_values()) && layout::tail_fits(Self::tail(), self.tail_data())
    }

    pub open spec fn layout_wf() -> bool {
        layout::layout_wf(Self::bit_fields(), Self::join_fields(), Self::tail(), Self::STATIC_DWORDS as nat)
    }

    /// Dwords that the packet takes.
    pub open spec fn size(self) -> nat {
        (Self::STATIC_DWORDS + self.tail_data().len()) as nat
    }

    /// The buffer holds the whole packet.
    pub open spec fn decodable(buf: Seq<u32>) -> bool {
        buf.len() >= Self::STATIC_DWORDS
    }

    pub open spec fn spec_encode(self, buf: Seq<u32>) -> Seq<u32> {
        layout::encode_packet(
            buf,
            Self::bit_fields(),
            self.bit_values(),
            Self::join_fields(),
            self.join_values(),
            Self::tail(),
            self.tail_data(),
        )
    }

    /// `buf` holds this packet.
    pub open spec fn read_from(self, buf: Seq<u32>) -> bool {
        layout::packet_reads(
            buf,
            Self::bit_fields(),
            self.bit_values(),
            Self::join_fields(),
            self.join_values(),
            Self::tail(),
            self.tail_data(),
        )
    }

    fn exec_bit_fields() -> (r: Vec<BitField>)
        ensures
            r@ == Self::bit_fields(),
    {
        vec![BitField { dw: 0, mask: 0xff, shift: 16 }, BitField { dw: 1, mask: 0x3fff, shift: 0 }]
    }

    fn exec_join_fields() -> (r: Vec<JoinField>)
        ensures
            r@ == Self::join_fields(),
    {
        Vec::<JoinField>::new()
    }

    /// Whether the field layout of this packet is well formed.
    pub fn layout_ok() -> (r: bool)
        ensures
            r == Self::layout_wf(),
    {
        layout_is_wf(&Self::exec_bit_fields(), &Self::exec_join_fields(), None, Self::STATIC_DWORDS)
    }

    /// Writes the packet to the start of `buff`, without its header, and
    /// returns how many dwords it took.
    pub fn partial_encode_linear(&self, buff: &mut [u32]) -> (n: usize)
        requires
            old(buff)@.len() >= self.size(),
            self.fits(),
        ensures
            n == self.size(),
            final(buff)@ == self.spec_encode(old(buff)@),
            final(buff)@.len() == old(buff)@.len(),
    {
        let bits = Self::exec_bit_fields();
        let vals: Vec<u32> = vec![layout::widen_u8(self.dev_sel), layout::widen_u16(self.exec_count)];
        let joins = Self::exec_join_fields();
        let jvals: Vec<u64> = Vec::<u64>::new();
        proof {
            assert(vals@ =~= self.bit_values());
            assert(jvals@ =~= self.join_values());
        }
        encode_bit_fields(&bits, &vals, buff);
        encode_join_fields(&joins, &jvals, buff);
        Self::STATIC_DWORDS
    }

    /// Reads the packet at the start of `buff` and returns how many dwords it
    /// took.
    pub fn partial_decode_linear(buff: &[u32]) -> (r: (usize, Self))
        requires
            Self::decodable(buff@),
        ensures
            r.0 == r.1.size(),
            r.1.read_from(buff@),
    {
        let bits = Self::exec_bit_fields();
        let v = decode_bit_fields(&bits, buff);
        let joins = Self::exec_join_fields();
        let j = decode_join_fields(&joins, buff);
        let p = Self { dev_sel: layout::narrow_u8(v[0]), exec_count: layout::narrow_u16(v[1]) };
        proof {
            assert(p.bit_values() =~= v@);
            assert(p.join_values() =~= j@);
        }
        (Self::STATIC_DWORDS, p)
    }

    /// Where each field stands in a buffer that the packet is read from, as
    /// the packet header lays it out: a bit field under its mask and shift
    /// in its dword, a 64-bit field in two dwords, low half first. By
    /// `lemma_roundtrip`, encoding a packet puts its fields there.
    pub proof fn lemma_field_positions(self, buf: Seq<u32>)
        requires
            self.read_from(buf),
        ensures
            layout::u8_value(self.dev_sel) == layout::get_bits(buf[0], 0xff, 16),
            layout::u16_value(self.exec_count) == layout::get_bits(buf[1], 0x3fff, 0),
    {
        assert(self.bit_values()[0] == layout::u8_value(self.dev_sel));
        assert(layout::decode_bits(buf, Self::bit_fields())[0] == self.bit_values()[0]);
        assert(self.bit_values()[1] == layout::u16_value(self.exec_count));
        assert(layout::decode_bits(buf, Self::bit_fields())[1] == self.bit_values()[1]);
    }

    /// The field values name the packet: two packets with the same values are
    /// equal.
    pub proof fn lemma_values_determine(a: Self, b: Self)
        requires
            a.bit_values() == b.bit_values(),
            a.join_values() == b.join_values(),
            a.tail_data() == b.tail_data(),
        ensures
            a == b,
    {
        assert(a.bit_values()[0] == layout::u8_value(a.dev_sel) && b.bit_values()[0] == layout::u8_value(b.dev_sel));
        assert(a.bit_values()[1] == layout::u16_value(a.exec_count) && b.bit_values()[1] == layout::u16_value(b.exec_count));
    }

    /// Reading a packet is exact: two packets read from one buffer are equal.
    pub proof fn lemma_read_unique(a: Self, b: Self, buf: Seq<u32>)
        requires
            a.read_from(buf),
            b.read_from(buf),
        ensures
            a == b,
    {
        layout::lemma_reads_determine(
            buf,
            Self::bit_fields(),
            a.bit_values(),
            b.bit_values(),
            Self::join_fields(),
            a.join_values(),
            b.join_values(),
            Self::tail(),
            a.tail_data(),
            b.tail_data(),
        );
        Self::lemma_values_determine(a, b);
    }

    /// A packet reads back from what it was encoded to.
    pub proof fn lemma_roundtrip(self, buf: Seq<u32>)
        requires
            Self::layout_wf(),
            self.fits(),
            buf.len() >= self.size(),
        ensures
            self.read_from(self.spec_encode(buf)),
            Self::decodable(self.spec_encode(buf)),
            self.spec_encode(buf).len() == buf.len(),
    {
        layout::lemma_packet_roundtrip(
            buf,
            Self::bit_fields(),
            self.bit_values(),
            Self::join_fields(),
            self.join_values(),
            Self::tail(),
            self.tail_data(),
            Self::STATIC_DWORDS as nat,
        );
    }
}

/// The `CondExe` packet.
#[derive(Clone, Copy, Default)]
pub struct CondExe {
    pub exec_count: u16,
    pub reference: u32,
    pub addr: u64,
}

impl CondExe {
    /// Dwords of the packet before its variable-length tail.
    pub const STATIC_DWORDS: usize = 5;

    pub open spec fn bit_fields() -> Seq<BitField> {
        seq![BitField { dw: 4, mask: 0x3fff, shift: 0 }, BitField { dw: 3, mask: 0xffffffff, shift: 0 }]
    }

    pub open spec fn join_fields() -> Seq<JoinField> {
        seq![JoinField { lo: 1, hi: 2 }]
    }

    pub open spec fn tail() -> Option<DynField> {
        None
    }

    pub open spec fn bit_values(self) -> Seq<u32> {
        seq![self.exec_count as u32, self.reference]
    }

    pub open spec fn join_values(self) -> Seq<u64> {
        seq![self.addr]
    }

    pub open spec fn tail_data(self) -> Seq<u32> {
        Seq::<u32>::empty()
    }

    /// Every field value fits its field.
    pub open spec fn fits(self) -> bool {
        layout::fields_fit(Self::bit_fields(), self.bit_values()) && layout::tail_fits(Self::tail(), self.tail_data())
    }

    pub open spec fn layout_wf() -> bool {
        layout::layout_wf(Self::bit_fields(), Self::join_fields(), Self::tail(), Self::STATIC_DWORDS as nat)
    }

    /// Dwords that the packet takes.
    pub open spec fn size(self) -> nat {
        (Self::STATIC_DWORDS + self.tail_data().len()) as nat
    }

    /// The buffer holds the whole packet.
    pub open spec fn decodable(buf: Seq<u32>) -> bool {
        buf.len() >= Self::STATIC_DWORDS
    }

    pub open spec fn spec_encode(self, buf: Seq<u32>) -> Seq<u32> {
        layout::encode_packet(
            buf,
            Self::bit_fields(),
            self.bit_values(),
            Self::join_fields(),
            self.join_values(),
            Self::tail(),
            self.tail_data(),
        )
    }

    /// `buf` holds this packet.
    pub open spec fn read_from(self, buf: Seq<u32>) -> bool {
        layout::packet_reads(
            buf,
            Self::bit_fields(),
            self.bit_values(),
            Self::join_fields(),
            self.join_values(),
            Self::tail(),
            self.tail_data(),
        )
    }

    fn exec_bit_fields() -> (r: Vec<BitField>)
        ensures
            r@ == Self::bit_fields(),
    {
        vec![BitField { dw: 4, mask: 0x3fff, shift: 0 }, BitField { dw: 3, mask: 0xffffffff, shift: 0 }]
    }

    fn exec_join_fields() -> (r: Vec<JoinField>)
        ensures
            r@ == Self::join_fields(),
    {
        vec![JoinField { lo: 1, hi: 2 }]
    }

    /// Whether the field layout of this packet is well formed.
    pub fn layout_ok() -> (r: bool)
        ensures
            r == Self::layout_wf(),
    {
        layout_is_wf(&Self::exec_bit_fields(), &Self::exec_join_fields(), None, Self::STATIC_DWORDS)
    }

    /// Writes the packet to the start of `buff`, without its header, and
    /// returns how many dwords it took.
    pub fn partial_encode_linear(&self, buff: &mut [u32]) -> (n: usize)
        requires
            old(buff)@.len() >= self.size(),
            self.fits(),
        ensures
            n == self.size(),
            final(buff)@ == self.spec_encode(old(buff)@),
            final(buff)@.len() == old(buff)@.len(),
    {
        let bits = Self::exec_bit_fields();
        let vals: Vec<u32> = vec![layout::widen_u16(self.exec_count), self.reference];
        let joins = Self::exec_join_fields();
        let jvals: Vec<u64> = vec![self.addr];
        proof {
            assert(vals@ =~= self.bit_values());
            assert(jvals@ =~= self.join_values());
        }
        encode_bit_fields(&bits, &vals, buff);
        encode_join_fields(&joins, &jvals, buff);
        Self::STATIC_DWORDS
    }

    /// Reads the packet at the start of `buff` and returns how many dwords it
    /// took.
    pub fn partial_decode_linear(buff: &[u32]) -> (r: (usize, Self))
        requires
            Self::decodable(buff@),
        ensures
            r.0 == r.1.size(),
            r.1.read_from(buff@),
    {
        let bits = Self::exec_bit_fields();
        let v = decode_bit_fields(&bits, buff);
        let joins = Self::exec_join_fields();
        let j = decode_join_fields(&joins, buff);
        let p = Self { exec_count: layout::narrow_u16(v[0]), reference: v[1], addr: j[0] };
        proof {
            assert(p.bit_values() =~= v@);
            assert(p.join_values() =~= j@);
        }
        (Self::STATIC_DWORDS, p)
    }

    /// Where each field stands in a buffer that the packet is read from, as
    /// the packet header lays it out: a bit field under its mask and shift
    /// in its dword, a 64-bit field in two dwords, low half first. By
    /// `lemma_roundtrip`, encoding a packet puts its fields there.
    pub proof fn lemma_field_positions(self, buf: Seq<u32>)
        requires
            self.read_from(buf),
        ensures
            layout::u16_value(self.exec_count) == layout::get_bits(buf[4], 0x3fff, 0),
            self.reference == layout::get_bits(buf[3], 0xffffffff, 0),
            self.addr == layout::dword_pair(buf[1], buf[2]),
    {
        assert(self.bit_values()[0] == layout::u16_value(self.exec_count));
        assert(layout::decode_bits(buf, Self::bit_fields())[0] == self.bit_values()[0]);
        assert(self.bit_values()[1] == self.reference);
        assert(layout::decode_bits(buf, Self::bit_fields())[1] == self.bit_values()[1]);
        assert(layout::decode_joins(buf, Self::join_fields())[0] == self.join_values()[0]);
    }

    /// The field values name the packet: two packets with the same values are
    /// equal.
    pub proof fn lemma_values_determine(a: Self, b: Self)
        requires
            a.bit_values() == b.bit_values(),
            a.join_values() == b.join_values(),
            a.tail_data() == b.tail_data(),
        ensures
            a == b,
    {
        assert(a.bit_values()[0] == layout::u16_value(a.exec_count) && b.bit_values()[0] == layout::u16_value(b.exec_count));
        assert(a.bit_values()[1] == a.reference && b.bit_values()[1] == b.reference);
        assert(a.join_values()[0] == a.addr && b.join_values()[0] == b.addr);
    }

    /// Reading a packet is exact: two packets read from one buffer are equal.
    pub proof fn lemma_read_unique(a: Self, b: Self, buf: Seq<u32>)
        requires
            a.read_from(buf),
            b.read_from(buf),
        ensures
            a == b,
    {
        layout::lemma_reads_determine(
            buf,
            Self::bit_fields(),
            a.bit_values(),
            b.bit_values(),
            Self::join_fields(),
            a.join_values(),
            b.join_values(),
            Self::tail(),
            a.tail_data(),
            b.tail_data(),
        );
        Self::lemma_values_determine(a, b);
    }

    /// A packet reads back from what it was encoded to.
    pub proof fn lemma_roundtrip(self, buf: Seq<u32>)
        requires
            Self::layout_wf(),
            self.fits(),
            buf.len() >= self.size(),
        ensures
            self.read_from(self.spec_encode(buf)),
            Self::decodable(self.spec_encode(buf)),
            self.spec_encode(buf).len() == buf.len(),
    {
        layout::lemma_packet_roundtrip(
            buf,
            Self::bit_fields(),
            self.bit_values(),
            Self::join_fields(),
            self.join_values(),
            Self::tail(),
            self.tail_data(),
            Self::STATIC_DWORDS as nat,
        );
    }
}

/// The `ConstantFill` packet.
#[derive(Clone, Copy, Default)]
pub struct ConstantFill {
    pub sw: u8,
    pub fillsize: u8,
    pub count: u32,
    pub src_data_31_0: u32,
    pub dst_addr: u64,
}

impl ConstantFill {
    /// Dwords of the packet before its variable-length tail.
    pub const STATIC_DWORDS: usize = 5;

    pub open spec fn bit_fields() -> Seq<BitField> {
        seq![BitField { dw: 0, mask: 0x3, shift: 16 }, BitField { dw: 0, mask: 0x3, shift: 30 }, BitField { dw: 4, mask: 0x3fffff, shift: 0 }, BitField { dw: 3, mask: 0xffffffff, shift: 0 }]
    }

    pub open spec fn join_fields() -> Seq<JoinField> {
        seq![JoinField { lo: 1, hi: 2 }]
    }

    pub open spec fn tail() -> Option<DynField> {
        None
    }

    pub open spec fn bit_values(self) -> Seq<u32> {
        seq![self.sw as u32, self.fillsize as u32, self.count, self.src_data_31_0]
    }

    pub open spec fn join_values(self) -> Seq<u64> {
        seq![self.dst_addr]
    }

    pub open spec fn tail_data(self) -> Seq<u32> {
        Seq::<u32>::empty()
    }

    /// Every field value fits its field.
    pub open spec fn fits(self) -> bool {
        layout::fields_fit(Self::bit_fields(), self.bit_values()) && layout::tail_fits(Self::tail(), self.tail_data())
    }

    pub open spec fn layout_wf() -> bool {
        layout::layout_wf(Self::bit_fields(), Self::join_fields(), Self::tail(), Self::STATIC_DWORDS as nat)
    }

    /// Dwords that the packet takes.
    pub open spec fn size(self) -> nat {
        (Self::STATIC_DWORDS + self.tail_data().len()) as nat
    }

    /// The buffer holds the whole packet.
    pub open spec fn decodable(buf: Seq<u32>) -> bool {
        buf.len() >= Self::STATIC_DWORDS
    }

    pub open spec fn spec_encode(self, buf: Seq<u32>) -> Seq<u32> {
        layout::encode_packet(
            buf,
            Self::bit_fields(),
            self.bit_values(),
            Self::join_fields(),
            self.join_values(),
            Self::tail(),
            self.tail_data(),
        )
    }

    /// `buf` holds this packet.
    pub open spec fn read_from(self, buf: Seq<u32>) -> bool {
        layout::packet_reads(
            buf,
            Self::bit_fields(),
            self.bit_values(),
            Self::join_fields(),
            self.join_values(),
            Self::tail(),
            self.tail_data(),
        )
    }

    fn exec_bit_fields() -> (r: Vec<BitField>)
        ensures
            r@ == Self::bit_fields(),
    {
        vec![BitField { dw: 0, mask: 0x3, shift: 16 }, BitField { dw: 0, mask: 0x3, shift: 30 }, BitField { dw: 4, mask: 0x3fffff, shift: 0 }, BitField { dw: 3, mask: 0xffffffff, shift: 0 }]
    }

    fn exec_join_fields() -> (r: Vec<JoinField>)
        ensures
            r@ == Self::join_fields(),
    {
        vec![JoinField { lo: 1, hi: 2 }]
    }

    /// Whether the field layout of this packet is well formed.
    pub fn layout_ok() -> (r: bool)
        ensures
            r == Self::layout_wf(),
    {
        layout_is_wf(&Self::exec_bit_fields(), &Self::exec_join_fields(), None, Self::STATIC_DWORDS)
    }

    /// Writes the packet to the start of `buff`, without its header, and
    /// returns how many dwords it took.
    pub fn partial_encode_linear(&self, buff: &mut [u32]) -> (n: usize)
        requires
            old(buff)@.len() >= self.size(),
            self.fits(),
        ensures
            n == self.size(),
            final(buff)@ == self.spec_encode(old(buff)@),
            final(buff)@.len() == old(buff)@.len(),
    {
        let bits = Self::exec_bit_fields();
        let vals: Vec<u32> = vec![layout::widen_u8(self.sw), layout::widen_u8(self.fillsize), self.count, self.src_data_31_0];
        let joins = Self::exec_join_fields();
        let jvals: Vec<u64> = vec![self.dst_addr];
        proof {
            assert(vals@ =~= self.bit_values());
            assert(jvals@ =~= self.join_values());
        }
        encode_bit_fields(&bits, &vals, buff);
        encode_join_fields(&joins, &jvals, buff);
        Self::STATIC_DWORDS
    }

    /// Reads the packet at the start of `buff` and returns how many dwords it
    /// took.
    pub fn partial_decode_linear(buff: &[u32]) -> (r: (usize, Self))
        requires
            Self::decodable(buff@),
        ensures
            r.0 == r.1.size(),
            r.1.read_from(buff@),
    {
        let bits = Self::exec_bit_fields();
        let v = decode_bit_fields(&bits, buff);
        let joins = Self::exec_join_fields();
        let j = decode_join_fields(&joins, buff);
        let p = Self { sw: layout::narrow_u8(v[0]), fillsize: layout::narrow_u8(v[1]), count: v[2], src_data_31_0: v[3], dst_addr: j[0] };
        proof {
            assert(p.bit_values() =~= v@);
            assert(p.join_values() =~= j@);
        }
        (Self::STATIC_DWORDS, p)
    }

    /// Where each field stands in a buffer that the packet is read from, as
    /// the packet header lays it out: a bit field under its mask and shift
    /// in its dword, a 64-bit field in two dwords, low half first. By
    /// `lemma_roundtrip`, encoding a packet puts its fields there.
    pub proof fn lemma_field_positions(self, buf: Seq<u32>)
        requires
            self.read_from(buf),
        ensures
            layout::u8_value(self.sw) == layout::get_bits(buf[0], 0x3, 16),
            layout::u8_value(self.fillsize) == layout::get_bits(buf[0], 0x3, 30),
            self.count == layout::get_bits(buf[4], 0x3fffff, 0),
            self.src_data_31_0 == layout::get_bits(buf[3], 0xffffffff, 0),
            self.dst_addr == layout::dword_pair(buf[1], buf[2]),
    {
        assert(self.bit_values()[0] == layout::u8_value(self.sw));
        assert(layout::decode_bits(buf, Self::bit_fields())[0] == self.bit_values()[0]);
        assert(self.bit_values()[1] == layout::u8_value(self.fillsize));
        assert(layout::decode_bits(buf, Self::bit_fields())[1] == self.bit_values()[1]);
        assert(self.bit_values()[2] == self.count);
        assert(layout::decode_bits(buf, Self::bit_fields())[2] == self.bit_values()[2]);
        assert(self.bit_values()[3] == self.src_data_31_0);
        assert(layout::decode_bits(buf, Self::bit_fields())[3] == self.bit_values()[3]);
        assert(layout::decode_joins(buf, Self::join_fields())[0] == self.join_values()[0]);
    }

    /// The field values name the packet: two packets with the same values are
    /// equal.
    pub proof fn lemma_values_determine(a: Self, b: Self)
        requires
            a.bit_values() == b.bit_values(),
            a.join_values() == b.join_values(),
            a.tail_data() == b.tail_data(),
        ensures
            a == b,
    {
        assert(a.bit_values()[0] == layout::u8_value(a.sw) && b.bit_values()[0] == layout::u8_value(b.sw));
        assert(a.bit_values()[1] == layout::u8_value(a.fillsize) && b.bit_values()[1] == layout::u8_value(b.fillsize));
        assert(a.bit_values()[2] == a.count && b.bit_values()[2] == b.count);
        assert(a.bit_values()[3] == a.src_data_31_0 && b.bit_values()[3] == b.src_data_31_0);
        assert(a.join_values()[0] == a.dst_addr && b.join_values()[0] == b.dst_addr);
    }

    /// Reading a packet is exact: two packets read from one buffer are equal.
    pub proof fn lemma_read_unique(a: Self, b: Self, buf: Seq<u32>)
        requires
            a.read_from(buf),
            b.read_from(buf),
        ensures
            a == b,
    {
        layout::lemma_reads_determine(
            buf,
            Self::bit_fields(),
            a.bit_values(),
            b.bit_values(),
            Self::join_fields(),
            a.join_values(),
            b.join_values(),
            Self::tail(),
            a.tail_data(),
            b.tail_data(),
        );
        Self::lemma_values_determine(a, b);
    }

    /// A packet reads back from what it was encoded to.
    pub proof fn lemma_roundtrip(self, buf: Seq<u32>)
        requires
            Self::layout_wf(),
            self.fits(),
            buf.len() >= self.size(),
        ensures
            self.read_from(self.spec_encode(buf)),
            Self::decodable(self.spec_encode(buf)),
            self.spec_encode(buf).len() == buf.len(),
    {
        layout::lemma_packet_roundtrip(
            buf,
            Self::bit_fields(),
            self.bit_values(),
            Self::join_fields(),
            self.join_values(),
            Self::tail(),
            self.tail_data(),
            Self::STATIC_DWORDS as nat,
        );
    }
}

/// The `DataFillMulti` packet.
#[derive(Clone, Copy, Default)]
pub struct DataFillMulti {
    pub memlog_clr: bool,
    pub count: u32,
    pub byte_stride: u32,
    pub dma_count: u32,
    pub dst_addr: u64,
}

impl DataFillMulti {
    /// Dwords of the packet before its variable-length tail.
    pub const STATIC_DWORDS: usize = 6;

    pub open spec fn bit_fields() -> Seq<BitField> {
        seq![BitField { dw: 0, mask: 0x1, shift: 31 }, BitField { dw: 5, mask: 0x3ffffff, shift: 0 }, BitField { dw: 1, mask: 0xffffffff, shift: 0 }, BitField { dw: 2, mask: 0xffffffff, shift: 0 }]
    }

    pub open spec fn join_fields() -> Seq<JoinField> {
        seq![JoinField { lo: 3, hi: 4 }]
    }

    pub open spec fn tail() -> Option<DynField> {
        None
    }

    pub open spec fn bit_values(self) -> Seq<u32> {
        seq![layout::bool_bit(self.memlog_clr), self.count, self.byte_stride, self.dma_count]
    }

    pub open spec fn join_values(self) -> Seq<u64> {
        seq![self.dst_addr]
    }

    pub open spec fn tail_data(self) -> Seq<u32> {
        Seq::<u32>::empty()
    }

    /// Every field value fits its field.
    pub open spec fn fits(self) -> bool {
        layout::fields_fit(Self::bit_fields(), self.bit_values()) && layout::tail_fits(Self::tail(), self.tail_data())
    }

    pub open spec fn layout_wf() -> bool {
        layout::layout_wf(Self::bit_fields(), Self::join_fields(), Self::tail(), Self::STATIC_DWORDS as nat)
    }

    /// Dwords that the packet takes.
    pub open spec fn size(self) -> nat {
        (Self::STATIC_DWORDS + self.tail_data().len()) as nat
    }

    /// The buffer holds the whole packet.
    pub open spec fn decodable(buf: Seq<u32>) -> bool {
        buf.len() >= Self::STATIC_DWORDS
    }

    pub open spec fn spec_encode(self, buf: Seq<u32>) -> Seq<u32> {
        layout::encode_packet(
            buf,
            Self::bit_fields(),
            self.bit_values(),
            Self::join_fields(),
            self.join_values(),
            Self::tail(),
            self.tail_data(),
        )
    }

    /// `buf` holds this packet.
    pub open spec fn read_from(self, buf: Seq<u32>) -> bool {
        layout::packet_reads(
            buf,
            Self::bit_fields(),
            self.bit_values(),
            Self::join_fields(),
            self.join_values(),
            Self::tail(),
            self.tail_data(),
        )
    }

    fn exec_bit_fields() -> (r: Vec<BitField>)
        ensures
            r@ == Self::bit_fields(),
    {
        vec![BitField { dw: 0, mask: 0x1, shift: 31 }, BitField { dw: 5, mask: 0x3ffffff, shift: 0 }, BitField { dw: 1, mask: 0xffffffff, shift: 0 }, BitField { dw: 2, mask: 0xffffffff, shift: 0 }]
    }

    fn exec_join_fields() -> (r: Vec<JoinField>)
        ensures
            r@ == Self::join_fields(),
    {
        vec![JoinField { lo: 3, hi: 4 }]
    }

    /// Whether the field layout of this packet is well formed.
    pub fn layout_ok() -> (r: bool)
        ensures
            r == Self::layout_wf(),
    {
        layout_is_wf(&Self::exec_bit_fields(), &Self::exec_join_fields(), None, Self::STATIC_DWORDS)
    }

    /// Writes the packet to the start of `buff`, without its header, and
    /// returns how many dwords it took.
    pub fn partial_encode_linear(&self, buff: &mut [u32]) -> (n: usize)
        requires
            old(buff)@.len() >= self.size(),
            self.fits(),
        ensures
            n == self.size(),
            final(buff)@ == self.spec_encode(old(buff)@),
            final(buff)@.len() == old(buff)@.len(),
    {
        let bits = Self::exec_bit_fields();
        let vals: Vec<u32> = vec![to_bit(self.memlog_clr), self.count, self.byte_stride, self.dma_count];
        let joins = Self::exec_join_fields();
        let jvals: Vec<u64> = vec![self.dst_addr];
        proof {
            assert(vals@ =~= self.bit_values());
            assert(jvals@ =~= self.join_values());
        }
        encode_bit_fields(&bits, &vals, buff);
        encode_join_fields(&joins, &jvals, buff);
        Self::STATIC_DWORDS
    }

    /// Reads the packet at the start of `buff` and returns how many dwords it
    /// took.
    pub fn partial_decode_linear(buff: &[u32]) -> (r: (usize, Self))
        requires
            Self::decodable(buff@),
        ensures
            r.0 == r.1.size(),
            r.1.read_from(buff@),
    {
        let bits = Self::exec_bit_fields();
        let v = decode_bit_fields(&bits, buff);
        let joins = Self::exec_join_fields();
        let j = decode_join_fields(&joins, buff);
        let p = Self { memlog_clr: v[0] != 0, count: v[1], byte_stride: v[2], dma_count: v[3], dst_addr: j[0] };
        proof {
            assert(p.bit_values() =~= v@);
            assert(p.join_values() =~= j@);
        }
        (Self::STATIC_DWORDS, p)
    }

    /// Where each field stands in a buffer that the packet is read from, as
    /// the packet header lays it out: a bit field under its mask and shift
    /// in its dword, a 64-bit field in two dwords, low half first. By
    /// `lemma_roundtrip`, encoding a packet puts its fields there.
    pub proof fn lemma_field_positions(self, buf: Seq<u32>)
        requires
            self.read_from(buf),
        ensures
            layout::bool_bit(self.memlog_clr) == layout::get_bits(buf[0], 0x1, 31),
            self.count == layout::get_bits(buf[5], 0x3ffffff, 0),
            self.byte_stride == layout::get_bits(buf[1], 0xffffffff, 0),
            self.dma_count == layout::get_bits(buf[2], 0xffffffff, 0),
            self.dst_addr == layout::dword_pair(buf[3], buf[4]),
    {
        assert(self.bit_values()[0] == layout::bool_bit(self.memlog_clr));
        assert(layout::decode_bits(buf, Self::bit_fields())[0] == self.bit_values()[0]);
        assert(self.bit_values()[1] == self.count);
        assert(layout::decode_bits(buf, Self::bit_fields())[1] == self.bit_values()[1]);
        assert(self.bit_values()[2] == self.byte_stride);
        assert(layout::decode_bits(buf, Self::bit_fields())[2] == self.bit_values()[2]);
        assert(self.bit_values()[3] == self.dma_count);
        assert(layout::decode_bits(buf, Self::bit_fields())[3] == self.bit_values()[3]);
        assert(layout::decode_joins(buf, Self::join_fields())[0] == self.join_values()[0]);
    }

    /// The field values name the packet: two packets with the same values are
    /// equal.
    pub proof fn lemma_values_determine(a: Self, b: Self)
        requires
            a.bit_values() == b.bit_values(),
            a.join_values() == b.join_values(),
            a.tail_data() == b.tail_data(),
        ensures
            a == b,
    {
        assert(a.bit_values()[0] == layout::bool_bit(a.memlog_clr) && b.bit_values()[0] == layout::bool_bit(b.memlog_clr));
        assert(a.bit_values()[1] == a.count && b.bit_values()[1] == b.count);
        assert(a.bit_values()[2] == a.byte_stride && b.bit_values()[2] == b.byte_stride);
        assert(a.bit_values()[3] == a.dma_count && b.bit_values()[3] == b.dma_count);
        assert(a.join_values()[0] == a.dst_addr && b.join_values()[0] == b.dst_addr);
    }

    /// Reading a packet is exact: two packets read from one buffer are equal.
    pub proof fn lemma_read_unique(a: Self, b: Self, buf: Seq<u32>)
        requires
            a.read_from(buf),
            b.read_from(buf),
        ensures
            a == b,
    {
        layout::lemma_reads_determine(
            buf,
            Self::bit_fields(),
            a.bit_values(),
            b.bit_values(),
            Self::join_fields(),
            a.join_values(),
            b.join_values(),
            Self::tail(),
            a.tail_data(),
            b.tail_data(),
        );
        Self::lemma_values_determine(a, b);
    }

    /// A packet reads back from what it was encoded to.
    pub proof fn lemma_roundtrip(self, buf: Seq<u32>)
        requires
            Self::layout_wf(),
            self.fits(),
            buf.len() >= self.size(),
        ensures
            self.read_from(self.spec_encode(buf)),
            Self::decodable(self.spec_encode(buf)),
            self.spec_encode(buf).len() == buf.len(),
    {
        layout::lemma_packet_roundtrip(
            buf,
            Self::bit_fields(),
            self.bit_values(),
            Self::join_fields(),
            self.join_values(),
            Self::tail(),
            self.tail_data(),
            Self::STATIC_DWORDS as nat,
        );
    }
}

/// The `PollRegmem` packet.
#[derive(Clone, Copy, Default)]
pub struct PollRegmem {
    pub hdp_flush: bool,
    pub func: u8,
    pub mem_poll: bool,
    pub interval: u16,
    pub retry_count: u16,
    pub value: u32,
    pub mask: u32,
    pub addr: u64,
}

impl PollRegmem {
    /// Dwords of the packet before its variable-length tail.
    pub const STATIC_DWORDS: usize = 6;

    pub open spec fn bit_fields() -> Seq<BitField> {
        seq![BitField { dw: 0, mask: 0x1, shift: 26 }, BitField { dw: 0, mask: 0x7, shift: 28 }, BitField { dw: 0, mask: 0x1, shift: 31 }, BitField { dw: 5, mask: 0xffff, shift: 0 }, BitField { dw: 5, mask: 0xfff, shift: 16 }, BitField { dw: 3, mask: 0xffffffff, shift: 0 }, BitField { dw: 4, mask: 0xffffffff, shift: 0 }]
    }

    pub open spec fn join_fields() -> Seq<JoinField> {
        seq![JoinField { lo: 1, hi: 2 }]
    }

    pub open spec fn tail() -> Option<DynField> {
        None
    }

    pub open spec fn bit_values(self) -> Seq<u32> {
        seq![layout::bool_bit(self.hdp_flush), self.func as u32, layout::bool_bit(self.mem_poll), self.interval as u32, self.retry_count as u32, self.value, self.mask]
    }

    pub open spec fn join_values(self) -> Seq<u64> {
        seq![self.addr]
    }

    pub open spec fn tail_data(self) -> Seq<u32> {
        Seq::<u32>::empty()
    }

    /// Every field value fits its field.
    pub open spec fn fits(self) -> bool {
        layout::fields_fit(Self::bit_fields(), self.bit_values()) && layout::tail_fits(Self::tail(), self.tail_data())
    }

    pub open spec fn layout_wf() -> bool {
        layout::layout_wf(Self::bit_fields(), Self::join_fields(), Self::tail(), Self::STATIC_DWORDS as nat)
    }

    /// Dwords that the packet takes.
    pub open spec fn size(self) -> nat {
        (Self::STATIC_DWORDS + self.tail_data().len()) as nat
    }

    /// The buffer holds the whole packet.
    pub open spec fn decodable(buf: Seq<u32>) -> bool {
        buf.len() >= Self::STATIC_DWORDS
    }

    pub open spec fn spec_encode(self, buf: Seq<u32>) -> Seq<u32> {
        layout::encode_packet(
            buf,
            Self::bit_fields(),
            self.bit_values(),
            Self::join_fields(),
            self.join_values(),
            Self::tail(),
            self.tail_data(),
        )
    }

    /// `buf` holds this packet.
    pub open spec fn read_from(self, buf: Seq<u32>) -> bool {
        layout::packet_reads(
            buf,
            Self::bit_fields(),
            self.bit_values(),
            Self::join_fields(),
            self.join_values(),
            Self::tail(),
            self.tail_data(),
        )
    }

    fn exec_bit_fields() -> (r: Vec<BitField>)
        ensures
            r@ == Self::bit_fields(),
    {
        vec![BitField { dw: 0, mask: 0x1, shift: 26 }, BitField { dw: 0, mask: 0x7, shift: 28 }, BitField { dw: 0, mask: 0x1, shift: 31 }, BitField { dw: 5, mask: 0xffff, shift: 0 }, BitField { dw: 5, mask: 0xfff, shift: 16 }, BitField { dw: 3, mask: 0xffffffff, shift: 0 }, BitField { dw: 4, mask: 0xffffffff, shift: 0 }]
    }

    fn exec_join_fields() -> (r: Vec<JoinField>)
        ensures
            r@ == Self::join_fields(),
    {
        vec![JoinField { lo: 1, hi: 2 }]
    }

    /// Whether the field layout of this packet is well formed.
    pub fn layout_ok() -> (r: bool)
        ensures
            r == Self::layout_wf(),
    {
        layout_is_wf(&Self::exec_bit_fields(), &Self::exec_join_fields(), None, Self::STATIC_DWORDS)
    }

    /// Writes the packet to the start of `buff`, without its header, and
    /// returns how many dwords it took.
    pub fn partial_encode_linear(&self, buff: &mut [u32]) -> (n: usize)
        requires
            old(buff)@.len() >= self.size(),
            self.fits(),
        ensures
            n == self.size(),
            final(buff)@ == self.spec_encode(old(buff)@),
            final(buff)@.len() == old(buff)@.len(),
    {
        let bits = Self::exec_bit_fields();
        let vals: Vec<u32> = vec![to_bit(self.hdp_flush), layout::widen_u8(self.func), to_bit(self.mem_poll), layout::widen_u16(self.interval), layout::widen_u16(self.retry_count), self.value, self.mask];
        let joins = Self::exec_join_fields();
        let jvals: Vec<u64> = vec![self.addr];
        proof {
            assert(vals@ =~= self.bit_values());
            assert(jvals@ =~= self.join_values());
        }
        encode_bit_fields(&bits, &vals, buff);
        encode_join_fields(&joins, &jvals, buff);
        Self::STATIC_DWORDS
    }

    /// Reads the packet at the start of `buff` and returns how many dwords it
    /// took.
    pub fn partial_decode_linear(buff: &[u32]) -> (r: (usize, Self))
        requires
            Self::decodable(buff@),
        ensures
            r.0 == r.1.size(),
            r.1.read_from(buff@),
    {
        let bits = Self::exec_bit_fields();
        let v = decode_bit_fields(&bits, buff);
        let joins = Self::exec_join_fields();
        let j = decode_join_fields(&joins, buff);
        let p = Self { hdp_flush: v[0] != 0, func: layout::narrow_u8(v[1]), mem_poll: v[2] != 0, interval: layout::narrow_u16(v[3]), retry_count: layout::narrow_u16(v[4]), value: v[5], mask: v[6], addr: j[0] };
        proof {
            assert(p.bit_values() =~= v@);
            assert(p.join_values() =~= j@);
        }
        (Self::STATIC_DWORDS, p)
    }

    /// Where each field stands in a buffer that the packet is read from, as
    /// the packet header lays it out: a bit field under its mask and shift
    /// in its dword, a 64-bit field in two dwords, low half first. By
    /// `lemma_roundtrip`, encoding a packet puts its fields there.
    pub proof fn lemma_field_positions(self, buf: Seq<u32>)
        requires
            self.read_from(buf),
        ensures
            layout::bool_bit(self.hdp_flush) == layout::get_bits(buf[0], 0x1, 26),
            layout::u8_value(self.func) == layout::get_bits(buf[0], 0x7, 28),
            layout::bool_bit(self.mem_poll) == layout::get_bits(buf[0], 0x1, 31),
            layout::u16_value(self.interval) == layout::get_bits(buf[5], 0xffff, 0),
            layout::u16_value(self.retry_count) == layout::get_bits(buf[5], 0xfff, 16),
            self.value == layout::get_bits(buf[3], 0xffffffff, 0),
            self.mask == layout::get_bits(buf[4], 0xffffffff, 0),
            self.addr == layout::dword_pair(buf[1], buf[2]),
    {
        assert(self.bit_values()[0] == layout::bool_bit(self.hdp_flush));
        assert(layout::decode_bits(buf, Self::bit_fields())[0] == self.bit_values()[0]);
        assert(self.bit_values()[1] == layout::u8_value(self.func));
        assert(layout::decode_bits(buf, Self::bit_fields())[1] == self.bit_values()[1]);
        assert(self.bit_values()[2] == layout::bool_bit(self.mem_poll));
        assert(layout::decode_bits(buf, Self::bit_fields())[2] == self.bit_values()[2]);
        assert(self.bit_values()[3] == layout::u16_value(self.interval));
        assert(layout::decode_bits(buf, Self::bit_fields())[3] == self.bit_values()[3]);
        assert(self.bit_values()[4] == layout::u16_value(self.retry_count));
        assert(layout::decode_bits(buf, Self::bit_fields())[4] == self.bit_values()[4]);
        assert(self.bit_values()[5] == self.value);
        assert(layout::decode_bits(buf, Self::bit_fields())[5] == self.bit_values()[5]);
        assert(self.bit_values()[6] == self.mask);
        assert(layout::decode_bits(buf, Self::bit_fields())[6] == self.bit_values()[6]);
        assert(layout::decode_joins(buf, Self::join_fields())[0] == self.join_values()[0]);
    }

    /// The field values name the packet: two packets with the same values are
    /// equal.
    pub proof fn lemma_values_determine(a: Self, b: Self)
        requires
            a.bit_values() == b.bit_values(),
            a.join_values() == b.join_values(),
            a.tail_data() == b.tail_data(),
        ensures
            a == b,
    {
        assert(a.bit_values()[0] == layout::bool_bit(a.hdp_flush) && b.bit_values()[0] == layout::bool_bit(b.hdp_flush));
        assert(a.bit_values()[1] == layout::u8_value(a.func) && b.bit_values()[1] == layout::u8_value(b.func));
        assert(a.bit_values()[2] == layout::bool_bit(a.mem_poll) && b.bit_values()[2] == layout::bool_bit(b.mem_poll));
        assert(a.bit_values()[3] == layout::u16_value(a.interval) && b.bit_values()[3] == layout::u16_value(b.interval));
        assert(a.bit_values()[4] == layout::u16_value(a.retry_count) && b.bit_values()[4] == layout::u16_value(b.retry_count));
        assert(a.bit_values()[5] == a.value && b.bit_values()[5] == b.value);
        assert(a.bit_values()[6] == a.mask && b.bit_values()[6] == b.mask);
        assert(a.join_values()[0] == a.addr && b.join_values()[0] == b.addr);
    }

    /// Reading a packet is exact: two packets read from one buffer are equal.
    pub proof fn lemma_read_unique(a: Self, b: Self, buf: Seq<u32>)
        requires
            a.read_from(buf),
            b.read_from(buf),
        ensures
            a == b,
    {
        layout::lemma_reads_determine(
            buf,
            Self::bit_fields(),
            a.bit_values(),
            b.bit_values(),
            Self::join_fields(),
            a.join_values(),
            b.join_values(),
            Self::tail(),
            a.tail_data(),
            b.tail_data(),
        );
        Self::lemma_values_determine(a, b);
    }

    /// A packet reads back from what it was encoded to.
    pub proof fn lemma_roundtrip(self, buf: Seq<u32>)
        requires
            Self::layout_wf(),
            self.fits(),
            buf.len() >= self.size(),
        ensures
            self.read_from(self.spec_encode(buf)),
            Self::decodable(self.spec_encode(buf)),
            self.spec_encode(buf).len() == buf.len(),
    {
        layout::lemma_packet_roundtrip(
            buf,
            Self::bit_fields(),
            self.bit_values(),
            Self::join_fields(),
            self.join_values(),
            Self::tail(),
            self.tail_data(),
            Self::STATIC_DWORDS as nat,
        );
    }
}

/// The `VmInvalidation` packet.
#[derive(Clone, Copy, Default)]
pub struct VmInvalidation {
    pub gfx_eng_id: u8,
    pub mm_eng_id: u8,
    pub invalidateack: u16,
    pub addressrangehi: u8,
    pub reserved: u16,
    pub invalidatereq: u32,
    pub addressrangelo: u32,
}

impl VmInvalidation {
    /// Dwords of the packet before its variable-length tail.
    pub const STATIC_DWORDS: usize = 4;

    pub open spec fn bit_fields() -> Seq<BitField> {
        seq![BitField { dw: 0, mask: 0x1f, shift: 16 }, BitField { dw: 0, mask: 0x1f, shift: 24 }, BitField { dw: 3, mask: 0xffff, shift: 0 }, BitField { dw: 3, mask: 0x1f, shift: 16 }, BitField { dw: 3, mask: 0x1ff, shift: 23 }, BitField { dw: 1, mask: 0xffffffff, shift: 0 }, BitField { dw: 2, mask: 0xffffffff, shift: 0 }]
    }

    pub open spec fn join_fields() -> Seq<JoinField> {
        Seq::<JoinField>::empty()
    }

    pub open spec fn tail() -> Option<DynField> {
        None
    }

    pub open spec fn bit_values(self) -> Seq<u32> {
        seq![self.gfx_eng_id as u32, self.mm_eng_id as u32, self.invalidateack as u32, self.addressrangehi as u32, self.reserved as u32, self.invalidatereq, self.addressrangelo]
    }

    pub open spec fn join_values(self) -> Seq<u64> {
        Seq::<u64>::empty()
    }

    pub open spec fn tail_data(self) -> Seq<u32> {
        Seq::<u32>::empty()
    }

    /// Every field value fits its field.
    pub open spec fn fits(self) -> bool {
        layout::fields_fit(Self::bit_fields(), self.bit_values()) && layout::tail_fits(Self::tail(), self.tail_data())
    }

    pub open spec fn layout_wf() -> bool {
        layout::layout_wf(Self::bit_fields(), Self::join_fields(), Self::tail(), Self::STATIC_DWORDS as nat)
    }

    /// Dwords that the packet takes.
    pub open spec fn size(self) -> nat {
        (Self::STATIC_DWORDS + self.tail_data().len()) as nat
    }

    /// The buffer holds the whole packet.
    pub open spec fn decodable(buf: Seq<u32>) -> bool {
        buf.len() >= Self::STATIC_DWORDS
    }

    pub open spec fn spec_encode(self, buf: Seq<u32>) -> Seq<u32> {
        layout::encode_packet(
            buf,
            Self::bit_fields(),
            self.bit_values(),
            Self::join_fields(),
            self.join_values(),
            Self::tail(),
            self.tail_data(),
        )
    }

    /// `buf` holds this packet.
    pub open spec fn read_from(self, buf: Seq<u32>) -> bool {
        layout::packet_reads(
            buf,
            Self::bit_fields(),
            self.bit_values(),
            Self::join_fields(),
            self.join_values(),
            Self::tail(),
            self.tail_data(),
        )
    }

    fn exec_bit_fields() -> (r: Vec<BitField>)
        ensures
            r@ == Self::bit_fields(),
    {
        vec![BitField { dw: 0, mask: 0x1f, shift: 16 }, BitField { dw: 0, mask: 0x1f, shift: 24 }, BitField { dw: 3, mask: 0xffff, shift: 0 }, BitField { dw: 3, mask: 0x1f, shift: 16 }, BitField { dw: 3, mask: 0x1ff, shift: 23 }, BitField { dw: 1, mask: 0xffffffff, shift: 0 }, BitField { dw: 2, mask: 0xffffffff, shift: 0 }]
    }

    fn exec_join_fields() -> (r: Vec<JoinField>)
        ensures
            r@ == Self::join_fields(),
    {
        Vec::<JoinField>::new()
    }

    /// Whether the field layout of this packet is well formed.
    pub fn layout_ok() -> (r: bool)
        ensures
            r == Self::layout_wf(),
    {
        layout_is_wf(&Self::exec_bit_fields(), &Self::exec_join_fields(), None, Self::STATIC_DWORDS)
    }

    /// Writes the packet to the start of `buff`, without its header, and
    /// returns how many dwords it took.
    pub fn partial_encode_linear(&self, buff: &mut [u32]) -> (n: usize)
        requires
            old(buff)@.len() >= self.size(),
            self.fits(),
        ensures
            n == self.size(),
            final(buff)@ == self.spec_encode(old(buff)@),
            final(buff)@.len() == old(buff)@.len(),
    {
        let bits = Self::exec_bit_fields();
        let vals: Vec<u32> = vec![layout::widen_u8(self.gfx_eng_id), layout::widen_u8(self.mm_eng_id), layout::widen_u16(self.invalidateack), layout::widen_u8(self.addressrangehi), layout::widen_u16(self.reserved), self.invalidatereq, self.addressrangelo];
        let joins = Self::exec_join_fields();
        let jvals: Vec<u64> = Vec::<u64>::new();
        proof {
            assert(vals@ =~= self.bit_values());
            assert(jvals@ =~= self.join_values());
        }
        encode_bit_fields(&bits, &vals, buff);
        encode_join_fields(&joins, &jvals, buff);
        Self::STATIC_DWORDS
    }

    /// Reads the packet at the start of `buff` and returns how many dwords it
    /// took.
    pub fn partial_decode_linear(buff: &[u32]) -> (r: (usize, Self))
        requires
            Self::decodable(buff@),
        ensures
            r.0 == r.1.size(),
            r.1.read_from(buff@),
    {
        let bits = Self::exec_bit_fields();
        let v = decode_bit_fields(&bits, buff);
        let joins = Self::exec_join_fields();
        let j = decode_join_fields(&joins, buff);
        let p = Self { gfx_eng_id: layout::narrow_u8(v[0]), mm_eng_id: layout::narrow_u8(v[1]), invalidateack: layout::narrow_u16(v[2]), addressrangehi: layout::narrow_u8(v[3]), reserved: layout::narrow_u16(v[4]), invalidatereq: v[5], addressrangelo: v[6] };
        proof {
            assert(p.bit_values() =~= v@);
            assert(p.join_values() =~= j@);
        }
        (Self::STATIC_DWORDS, p)
    }

    /// Where each field stands in a buffer that the packet is read from, as
    /// the packet header lays it out: a bit field under its mask and shift
    /// in its dword, a 64-bit field in two dwords, low half first. By
    /// `lemma_roundtrip`, encoding a packet puts its fields there.
    pub proof fn lemma_field_positions(self, buf: Seq<u32>)
        requires
            self.read_from(buf),
        ensures
            layout::u8_value(self.gfx_eng_id) == layout::get_bits(buf[0], 0x1f, 16),
            layout::u8_value(self.mm_eng_id) == layout::get_bits(buf[0], 0x1f, 24),
            layout::u16_value(self.invalidateack) == layout::get_bits(buf[3], 0xffff, 0),
            layout::u8_value(self.addressrangehi) == layout::get_bits(buf[3], 0x1f, 16),
            layout::u16_value(self.reserved) == layout::get_bits(buf[3], 0x1ff, 23),
            self.invalidatereq == layout::get_bits(buf[1], 0xffffffff, 0),
            self.addressrangelo == layout::get_bits(buf[2], 0xffffffff, 0),
    {
        assert(self.bit_values()[0] == layout::u8_value(self.gfx_eng_id));
        assert(layout::decode_bits(buf, Self::bit_fields())[0] == self.bit_values()[0]);
        assert(self.bit_values()[1] == layout::u8_value(self.mm_eng_id));
        assert(layout::decode_bits(buf, Self::bit_fields())[1] == self.bit_values()[1]);
        assert(self.bit_values()[2] == layout::u16_value(self.invalidateack));
        assert(layout::decode_bits(buf, Self::bit_fields())[2] == self.bit_values()[2]);
        assert(self.bit_values()[3] == layout::u8_value(self.addressrangehi));
        assert(layout::decode_bits(buf, Self::bit_fields())[3] == self.bit_values()[3]);
        assert(self.bit_values()[4] == layout::u16_value(self.reserved));
        assert(layout::decode_bits(buf, Self::bit_fields())[4] == self.bit_values()[4]);
        assert(self.bit_values()[5] == self.invalidatereq);
        assert(layout::decode_bits(buf, Self::bit_fields())[5] == self.bit_values()[5]);
        assert(self.bit_values()[6] == self.addressrangelo);
        assert(layout::decode_bits(buf, Self::bit_fields())[6] == self.bit_values()[6]);
    }

    /// The field values name the packet: two packets with the same values are
    /// equal.
    pub proof fn lemma_values_determine(a: Self, b: Self)
        requires
            a.bit_values() == b.bit_values(),
            a.join_values() == b.join_values(),
            a.tail_data() == b.tail_data(),
        ensures
            a == b,
    {
        assert(a.bit_values()[0] == layout::u8_value(a.gfx_eng_id) && b.bit_values()[0] == layout::u8_value(b.gfx_eng_id));
        assert(a.bit_values()[1] == layout::u8_value(a.mm_eng_id) && b.bit_values()[1] == layout::u8_value(b.mm_eng_id));
        assert(a.bit_values()[2] == layout::u16_value(a.invalidateack) && b.bit_values()[2] == layout::u16_value(b.invalidateack));
        assert(a.bit_values()[3] == layout::u8_value(a.addressrangehi) && b.bit_values()[3] == layout::u8_value(b.addressrangehi));
        assert(a.bit_values()[4] == layout::u16_value(a.reserved) && b.bit_values()[4] == layout::u16_value(b.reserved));
        assert(a.bit_values()[5] == a.invalidatereq && b.bit_values()[5] == b.invalidatereq);
        assert(a.bit_values()[6] == a.addressrangelo && b.bit_values()[6] == b.addressrangelo);
    }

    /// Reading a packet is exact: two packets read from one buffer are equal.
    pub proof fn lemma_read_unique(a: Self, b: Self, buf: Seq<u32>)
        requires
            a.read_from(buf),
            b.read_from(buf),
        ensures
            a == b,
    {
        layout::lemma_reads_determine(
            buf,
            Self::bit_fields(),
            a.bit_values(),
            b.bit_values(),
            Self::join_fields(),
            a.join_values(),
            b.join_values(),
            Self::tail(),
            a.tail_data(),
            b.tail_data(),
        );
        Self::lemma_values_determine(a, b);
    }

    /// A packet reads back from what it was encoded to.
    pub proof fn lemma_roundtrip(self, buf: Seq<u32>)
        requires
            Self::layout_wf(),
            self.fits(),
            buf.len() >= self.size(),
        ensures
            self.read_from(self.spec_encode(buf)),
            Self::decodable(self.spec_encode(buf)),
            self.spec_encode(buf).len() == buf.len(),
    {
        layout::lemma_packet_roundtrip(
            buf,
            Self::bit_fields(),
            self.bit_values(),
            Self::join_fields(),
            self.join_values(),
            Self::tail(),
            self.tail_data(),
            Self::STATIC_DWORDS as nat,
        );
    }
}

/// The `TimestampSet` packet.
#[derive(Clone, Copy, Default)]
pub struct TimestampSet {
    pub init_data: u64,
}

impl TimestampSet {
    /// Dwords of the packet before its variable-length tail.
    pub const STATIC_DWORDS: usize = 3;

    pub open spec fn bit_fields() -> Seq<BitField> {
        Seq::<BitField>::empty()
    }

    pub open spec fn join_fields() -> Seq<JoinField> {
        seq![JoinField { lo: 1, hi: 2 }]
    }

    pub open spec fn tail() -> Option<DynField> {
        None
    }

    pub open spec fn bit_values(self) -> Seq<u32> {
        Seq::<u32>::empty()
    }

    pub open spec fn join_values(self) -> Seq<u64> {
        seq![self.init_data]
    }

    pub open spec fn tail_data(self) -> Seq<u32> {
        Seq::<u32>::empty()
    }

    /// Every field value fits its field.
    pub open spec fn fits(self) -> bool {
        layout::fields_fit(Self::bit_fields(), self.bit_values()) && layout::tail_fits(Self::tail(), self.tail_data())
    }

    pub open spec fn layout_wf() -> bool {
        layout::layout_wf(Self::bit_fields(), Self::join_fields(), Self::tail(), Self::STATIC_DWORDS as nat)
    }

    /// Dwords that the packet takes.
    pub open spec fn size(self) -> nat {
        (Self::STATIC_DWORDS + self.tail_data().len()) as nat
    }

    /// The buffer holds the whole packet.
    pub open spec fn decodable(buf: Seq<u32>) -> bool {
        buf.len() >= Self::STATIC_DWORDS
    }

    pub open spec fn spec_encode(self, buf: Seq<u32>) -> Seq<u32> {
        layout::encode_packet(
            buf,
            Self::bit_fields(),
            self.bit_values(),
            Self::join_fields(),
            self.join_values(),
            Self::tail(),
            self.tail_data(),
        )
    }

    /// `buf` holds this packet.
    pub open spec fn read_from(self, buf: Seq<u32>) -> bool {
        layout::packet_reads(
            buf,
            Self::bit_fields(),
            self.bit_values(),
            Self::join_fields(),
            self.join_values(),
            Self::tail(),
            self.tail_data(),
        )
    }

    fn exec_bit_fields() -> (r: Vec<BitField>)
        ensures
            r@ == Self::bit_fields(),
    {
        Vec::<BitField>::new()
    }

    fn exec_join_fields() -> (r: Vec<JoinField>)
        ensures
            r@ == Self::join_fields(),
    {
        vec![JoinField { lo: 1, hi: 2 }]
    }

    /// Whether the field layout of this packet is well formed.
    pub fn layout_ok() -> (r: bool)
        ensures
            r == Self::layout_wf(),
    {
        layout_is_wf(&Self::exec_bit_fields(), &Self::exec_join_fields(), None, Self::STATIC_DWORDS)
    }

    /// Writes the packet to the start of `buff`, without its header, and
    /// returns how many dwords it took.
    pub fn partial_encode_linear(&self, buff: &mut [u32]) -> (n: usize)
        requires
            old(buff)@.len() >= self.size(),
            self.fits(),
        ensures
            n == self.size(),
            final(buff)@ == self.spec_encode(old(buff)@),
            final(buff)@.len() == old(buff)@.len(),
    {
        let bits = Self::exec_bit_fields();
        let vals: Vec<u32> = Vec::<u32>::new();
        let joins = Self::exec_join_fields();
        let jvals: Vec<u64> = vec![self.init_data];
        proof {
            assert(vals@ =~= self.bit_values());
            assert(jvals@ =~= self.join_values());
        }
        encode_bit_fields(&bits, &vals, buff);
        encode_join_fields(&joins, &jvals, buff);
        Self::STATIC_DWORDS
    }

    /// Reads the packet at the start of `buff` and returns how many dwords it
    /// took.
    pub fn partial_decode_linear(buff: &[u32]) -> (r: (usize, Self))
        requires
            Self::decodable(buff@),
        ensures
            r.0 == r.1.size(),
            r.1.read_from(buff@),
    {
        let bits = Self::exec_bit_fields();
        let v = decode_bit_fields(&bits, buff);
        let joins = Self::exec_join_fields();
        let j = decode_join_fields(&joins, buff);
        let p = Self { init_data: j[0] };
        proof {
            assert(p.bit_values() =~= v@);
            assert(p.join_values() =~= j@);
        }
        (Self::STATIC_DWORDS, p)
    }

    /// Where each field stands in a buffer that the packet is read from, as
    /// the packet header lays it out: a bit field under its mask and shift
    /// in its dword, a 64-bit field in two dwords, low half first. By
    /// `lemma_roundtrip`, encoding a packet puts its fields there.
    pub proof fn lemma_field_positions(self, buf: Seq<u32>)
        requires
            self.read_from(buf),
        ensures
            self.init_data == layout::dword_pair(buf[1], buf[2]),
    {
        assert(layout::decode_joins(buf, Self::join_fields())[0] == self.join_values()[0]);
    }

    /// The field values name the packet: two packets with the same values are
    /// equal.
    pub proof fn lemma_values_determine(a: Self, b: Self)
        requires
            a.bit_values() == b.bit_values(),
            a.join_values() == b.join_values(),
            a.tail_data() == b.tail_data(),
        ensures
            a == b,
    {
        assert(a.join_values()[0] == a.init_data && b.join_values()[0] == b.init_data);
    }

    /// Reading a packet is exact: two packets read from one buffer are equal.
    pub proof fn lemma_read_unique(a: Self, b: Self, buf: Seq<u32>)
        requires
            a.read_from(buf),
            b.read_from(buf),
        ensures
            a == b,
    {
        layout::lemma_reads_determine(
            buf,
            Self::bit_fields(),
            a.bit_values(),
            b.bit_values(),
            Self::join_fields(),
            a.join_values(),
            b.join_values(),
            Self::tail(),
            a.tail_data(),
            b.tail_data(),
        );
        Self::lemma_values_determine(a, b);
    }

    /// A packet reads back from what it was encoded to.
    pub proof fn lemma_roundtrip(self, buf: Seq<u32>)
        requires
            Self::layout_wf(),
            self.fits(),
            buf.len() >= self.size(),
        ensures
            self.read_from(self.spec_encode(buf)),
            Self::decodable(self.spec_encode(buf)),
            self.spec_encode(buf).len() == buf.len(),
    {
        layout::lemma_packet_roundtrip(
            buf,
            Self::bit_fields(),
            self.bit_values(),
            Self::join_fields(),
            self.join_values(),
            Self::tail(),
            self.tail_data(),
            Self::STATIC_DWORDS as nat,
        );
    }
}

/// The `TimestampGet` packet.
#[derive(Clone, Copy, Default)]
pub struct TimestampGet {
    pub write_addr_31_3: u32,
    pub write_addr_63_32: u32,
}

impl TimestampGet {
    /// Dwords of the packet before its variable-length tail.
    pub const STATIC_DWORDS: usize = 3;

    pub open spec fn bit_fields() -> Seq<BitField> {
        seq![BitField { dw: 1, mask: 0x1fffffff, shift: 3 }, BitField { dw: 2, mask: 0xffffffff, shift: 0 }]
    }

    pub open spec fn join_fields() -> Seq<JoinField> {
        Seq::<JoinField>::empty()
    }

    pub open spec fn tail() -> Option<DynField> {
        None
    }

    pub open spec fn bit_values(self) -> Seq<u32> {
        seq![self.write_addr_31_3, self.write_addr_63_32]
    }

    pub open spec fn join_values(self) -> Seq<u64> {
        Seq::<u64>::empty()
    }

    pub open spec fn tail_data(self) -> Seq<u32> {
        Seq::<u32>::empty()
    }

    /// Every field value fits its field.
    pub open spec fn fits(self) -> bool {
        layout::fields_fit(Self::bit_fields(), self.bit_values()) && layout::tail_fits(Self::tail(), self.tail_data())
    }

    pub open spec fn layout_wf() -> bool {
        layout::layout_wf(Self::bit_fields(), Self::join_fields(), Self::tail(), Self::STATIC_DWORDS as nat)
    }

    /// Dwords that the packet takes.
    pub open spec fn size(self) -> nat {
        (Self::STATIC_DWORDS + self.tail_data().len()) as nat
    }

    /// The buffer holds the whole packet.
    pub open spec fn decodable(buf: Seq<u32>) -> bool {
        buf.len() >= Self::STATIC_DWORDS
    }

    pub open spec fn spec_encode(self, buf: Seq<u32>) -> Seq<u32> {
        layout::encode_packet(
            buf,
            Self::bit_fields(),
            self.bit_values(),
            Self::join_fields(),
            self.join_values(),
            Self::tail(),
            self.tail_data(),
        )
    }

    /// `buf` holds this packet.
    pub open spec fn read_from(self, buf: Seq<u32>) -> bool {
        layout::packet_reads(
            buf,
            Self::bit_fields(),
            self.bit_values(),
            Self::join_fields(),
            self.join_values(),
            Self::tail(),
            self.tail_data(),
        )
    }

    fn exec_bit_fields() -> (r: Vec<BitField>)
        ensures
            r@ == Self::bit_fields(),
    {
        vec![BitField { dw: 1, mask: 0x1fffffff, shift: 3 }, BitField { dw: 2, mask: 0xffffffff, shift: 0 }]
    }

    fn exec_join_fields() -> (r: Vec<JoinField>)
        ensures
            r@ == Self::join_fields(),
    {
        Vec::<JoinField>::new()
    }

    /// Whether the field layout of this packet is well formed.
    pub fn layout_ok() -> (r: bool)
        ensures
            r == Self::layout_wf(),
    {
        layout_is_wf(&Self::exec_bit_fields(), &Self::exec_join_fields(), None, Self::STATIC_DWORDS)
    }

    /// Writes the packet to the start of `buff`, without its header, and
    /// returns how many dwords it took.
    pub fn partial_encode_linear(&self, buff: &mut [u32]) -> (n: usize)
        requires
            old(buff)@.len() >= self.size(),
            self.fits(),
        ensures
            n == self.size(),
            final(buff)@ == self.spec_encode(old(buff)@),
            final(buff)@.len() == old(buff)@.len(),
    {
        let bits = Self::exec_bit_fields();
        let vals: Vec<u32> = vec![self.write_addr_31_3, self.write_addr_63_32];
        let joins = Self::exec_join_fields();
        let jvals: Vec<u64> = Vec::<u64>::new();
        proof {
            assert(vals@ =~= self.bit_values());
            assert(jvals@ =~= self.join_values());
        }
        encode_bit_fields(&bits, &vals, buff);
        encode_join_fields(&joins, &jvals, buff);
        Self::STATIC_DWORDS
    }

    /// Reads the packet at the start of `buff` and returns how many dwords it
    /// took.
    pub fn partial_decode_linear(buff: &[u32]) -> (r: (usize, Self))
        requires
            Self::decodable(buff@),
        ensures
            r.0 == r.1.size(),
            r.1.read_from(buff@),
    {
        let bits = Self::exec_bit_fields();
        let v = decode_bit_fields(&bits, buff);
        let joins = Self::exec_join_fields();
        let j = decode_join_fields(&joins, buff);
        let p = Self { write_addr_31_3: v[0], write_addr_63_32: v[1] };
        proof {
            assert(p.bit_values() =~= v@);
            assert(p.join_values() =~= j@);
        }
        (Self::STATIC_DWORDS, p)
    }

    /// Where each field stands in a buffer that the packet is read from, as
    /// the packet header lays it out: a bit field under its mask and shift
    /// in its dword, a 64-bit field in two dwords, low half first. By
    /// `lemma_roundtrip`, encoding a packet puts its fields there.
    pub proof fn lemma_field_positions(self, buf: Seq<u32>)
        requires
            self.read_from(buf),
        ensures
            self.write_addr_31_3 == layout::get_bits(buf[1], 0x1fffffff, 3),
            self.write_addr_63_32 == layout::get_bits(buf[2], 0xffffffff, 0),
    {
        assert(self.bit_values()[0] == self.write_addr_31_3);
        assert(layout::decode_bits(buf, Self::bit_fields())[0] == self.bit_values()[0]);
        assert(self.bit_values()[1] == self.write_addr_63_32);
        assert(layout::decode_bits(buf, Self::bit_fields())[1] == self.bit_values()[1]);
    }

    /// The field values name the packet: two packets with the same values are
    /// equal.
    pub proof fn lemma_values_determine(a: Self, b: Self)
        requires
            a.bit_values() == b.bit_values(),
            a.join_values() == b.join_values(),
            a.tail_data() == b.tail_data(),
        ensures
            a == b,
    {
        assert(a.bit_values()[0] == a.write_addr_31_3 && b.bit_values()[0] == b.write_addr_31_3);
        assert(a.bit_values()[1] == a.write_addr_63_32 && b.bit_values()[1] == b.write_addr_63_32);
    }

    /// Reading a packet is exact: two packets read from one buffer are equal.
    pub proof fn lemma_read_unique(a: Self, b: Self, buf: Seq<u32>)
        requires
            a.read_from(buf),
            b.read_from(buf),
        ensures
            a == b,
    {
        layout::lemma_reads_determine(
            buf,
            Self::bit_fields(),
            a.bit_values(),
            b.bit_values(),
            Self::join_fields(),
            a.join_values(),
            b.join_values(),
            Self::tail(),
            a.tail_data(),
            b.tail_data(),
        );
        Self::lemma_values_determine(a, b);
    }

    /// A packet reads back from what it was encoded to.
    pub proof fn lemma_roundtrip(self, buf: Seq<u32>)
        requires
            Self::layout_wf(),
            self.fits(),
            buf.len() >= self.size(),
        ensures
            self.read_from(self.spec_encode(buf)),
            Self::decodable(self.spec_encode(buf)),
            self.spec_encode(buf).len() == buf.len(),
    {
        layout::lemma_packet_roundtrip(
            buf,
            Self::bit_fields(),
            self.bit_values(),
            Self::join_fields(),
            self.join_values(),
            Self::tail(),
            self.tail_data(),
            Self::STATIC_DWORDS as nat,
        );
    }
}

/// The `TimestampGetGlobal` packet.
#[derive(Clone, Copy, Default)]
pub struct TimestampGetGlobal {
    pub write_addr_31_3: u32,
    pub write_addr_63_32: u32,
}

impl TimestampGetGlobal {
    /// Dwords of the packet before its variable-length tail.
    pub const STATIC_DWORDS: usize = 3;

    pub open spec fn bit_fields() -> Seq<BitField> {
        seq![BitField { dw: 1, mask: 0x1fffffff, shift: 3 }, BitField { dw: 2, mask: 0xffffffff, shift: 0 }]
    }

    pub open spec fn join_fields() -> Seq<JoinField> {
        Seq::<JoinField>::empty()
    }

    pub open spec fn tail() -> Option<DynField> {
        None
    }

    pub open spec fn bit_values(self) -> Seq<u32> {
        seq![self.write_addr_31_3, self.write_addr_63_32]
    }

    pub open spec fn join_values(self) -> Seq<u64> {
        Seq::<u64>::empty()
    }

    pub open spec fn tail_data(self) -> Seq<u32> {
        Seq::<u32>::empty()
    }

    /// Every field value fits its field.
    pub open spec fn fits(self) -> bool {
        layout::fields_fit(Self::bit_fields(), self.bit_values()) && layout::tail_fits(Self::tail(), self.tail_data())
    }

    pub open spec fn layout_wf() -> bool {
        layout::layout_wf(Self::bit_fields(), Self::join_fields(), Self::tail(), Self::STATIC_DWORDS as nat)
    }

    /// Dwords that the packet takes.
    pub open spec fn size(self) -> nat {
        (Self::STATIC_DWORDS + self.tail_data().len()) as nat
    }

    /// The buffer holds the whole packet.
    pub open spec fn decodable(buf: Seq<u32>) -> bool {
        buf.len() >= Self::STATIC_DWORDS
    }

    pub open spec fn spec_encode(self, buf: Seq<u32>) -> Seq<u32> {
        layout::encode_packet(
            buf,
            Self::bit_fields(),
            self.bit_values(),
            Self::join_fields(),
            self.join_values(),
            Self::tail(),
            self.tail_data(),
        )
    }

    /// `buf` holds this packet.
    pub open spec fn read_from(self, buf: Seq<u32>) -> bool {
        layout::packet_reads(
            buf,
            Self::bit_fields(),
            self.bit_values(),
            Self::join_fields(),
            self.join_values(),
            Self::tail(),
            self.tail_data(),
        )
    }

    fn exec_bit_fields() -> (r: Vec<BitField>)
        ensures
            r@ == Self::bit_fields(),
    {
        vec![BitField { dw: 1, mask: 0x1fffffff, shift: 3 }, BitField { dw: 2, mask: 0xffffffff, shift: 0 }]
    }

    fn exec_join_fields() -> (r: Vec<JoinField>)
        ensures
            r@ == Self::join_fields(),
    {
        Vec::<JoinField>::new()
    }

    /// Whether the field layout of this packet is well formed.
    pub fn layout_ok() -> (r: bool)
        ensures
            r == Self::layout_wf(),
    {
        layout_is_wf(&Self::exec_bit_fields(), &Self::exec_join_fields(), None, Self::STATIC_DWORDS)
    }

    /// Writes the packet to the start of `buff`, without its header, and
    /// returns how many dwords it took.
    pub fn partial_encode_linear(&self, buff: &mut [u32]) -> (n: usize)
        requires
            old(buff)@.len() >= self.size(),
            self.fits(),
        ensures
            n == self.size(),
            final(buff)@ == self.spec_encode(old(buff)@),
            final(buff)@.len() == old(buff)@.len(),
    {
        let bits = Self::exec_bit_fields();
        let vals: Vec<u32> = vec![self.write_addr_31_3, self.write_addr_63_32];
        let joins = Self::exec_join_fields();
        let jvals: Vec<u64> = Vec::<u64>::new();
        proof {
            assert(vals@ =~= self.bit_values());
            assert(jvals@ =~= self.join_values());
        }
        encode_bit_fields(&bits, &vals, buff);
        encode_join_fields(&joins, &jvals, buff);
        Self::STATIC_DWORDS
    }

    /// Reads the packet at the start of `buff` and returns how many dwords it
    /// took.
    pub fn partial_decode_linear(buff: &[u32]) -> (r: (usize, Self))
        requires
            Self::decodable(buff@),
        ensures
            r.0 == r.1.size(),
            r.1.read_from(buff@),
    {
        let bits = Self::exec_bit_fields();
        let v = decode_bit_fields(&bits, buff);
        let joins = Self::exec_join_fields();
        let j = decode_join_fields(&joins, buff);
        let p = Self { write_addr_31_3: v[0], write_addr_63_32: v[1] };
        proof {
            assert(p.bit_values() =~= v@);
            assert(p.join_values() =~= j@);
        }
        (Self::STATIC_DWORDS, p)
    }

    /// Where each field stands in a buffer that the packet is read from, as
    /// the packet header lays it out: a bit field under its mask and shift
    /// in its dword, a 64-bit field in two dwords, low half first. By
    /// `lemma_roundtrip`, encoding a packet puts its fields there.
    pub proof fn lemma_field_positions(self, buf: Seq<u32>)
        requires
            self.read_from(buf),
        ensures
            self.write_addr_31_3 == layout::get_bits(buf[1], 0x1fffffff, 3),
            self.write_addr_63_32 == layout::get_bits(buf[2], 0xffffffff, 0),
    {
        assert(self.bit_values()[0] == self.write_addr_31_3);
        assert(layout::decode_bits(buf, Self::bit_fields())[0] == self.bit_values()[0]);
        assert(self.bit_values()[1] == self.write_addr_63_32);
        assert(layout::decode_bits(buf, Self::bit_fields())[1] == self.bit_values()[1]);
    }

    /// The field values name the packet: two packets with the same values are
    /// equal.
    pub proof fn lemma_values_determine(a: Self, b: Self)
        requires
            a.bit_values() == b.bit_values(),
            a.join_values() == b.join_values(),
            a.tail_data() == b.tail_data(),
        ensures
            a == b,
    {
        assert(a.bit_values()[0] == a.write_addr_31_3 && b.bit_values()[0] == b.write_addr_31_3);
        assert(a.bit_values()[1] == a.write_addr_63_32 && b.bit_values()[1] == b.write_addr_63_32);
    }

    /// Reading a packet is exact: two packets read from one buffer are equal.
    pub proof fn lemma_read_unique(a: Self, b: Self, buf: Seq<u32>)
        requires
            a.read_from(buf),
            b.read_from(buf),
        ensures
            a == b,
    {
        layout::lemma_reads_determine(
            buf,
            Self::bit_fields(),
            a.bit_values(),
            b.bit_values(),
            Self::join_fields(),
            a.join_values(),
            b.join_values(),
            Self::tail(),
            a.tail_data(),
            b.tail_data(),
        );
        Self::lemma_values_determine(a, b);
    }

    /// A packet reads back from what it was encoded to.
    pub proof fn lemma_roundtrip(self, buf: Seq<u32>)
        requires
            Self::layout_wf(),
            self.fits(),
            buf.len() >= self.size(),
        ensures
            self.read_from(self.spec_encode(buf)),
            Self::decodable(self.spec_encode(buf)),
            self.spec_encode(buf).len() == buf.len(),
    {
        layout::lemma_packet_roundtrip(
            buf,
            Self::bit_fields(),
            self.bit_values(),
            Self::join_fields(),
            self.join_values(),
            Self::tail(),
            self.tail_data(),
            Self::STATIC_DWORDS as nat,
        );
    }
}

/// The `Trap` packet.
#[derive(Clone, Copy, Default)]
pub struct Trap {
    pub int_context: u32,
}

impl Trap {
    /// Dwords of the packet before its variable-length tail.
    pub const STATIC_DWORDS: usize = 2;

    pub open spec fn bit_fields() -> Seq<BitField> {
        seq![BitField { dw: 1, mask: 0xfffffff, shift: 0 }]
    }

    pub open spec fn join_fields() -> Seq<JoinField> {
        Seq::<JoinField>::empty()
    }

    pub open spec fn tail() -> Option<DynField> {
        None
    }

    pub open spec fn bit_values(self) -> Seq<u32> {
        seq![self.int_context]
    }

    pub open spec fn join_values(self) -> Seq<u64> {
        Seq::<u64>::empty()
    }

    pub open spec fn tail_data(self) -> Seq<u32> {
        Seq::<u32>::empty()
    }

    /// Every field value fits its field.
    pub open spec fn fits(self) -> bool {
        layout::fields_fit(Self::bit_fields(), self.bit_values()) && layout::tail_fits(Self::tail(), self.tail_data())
    }

    pub open spec fn layout_wf() -> bool {
        layout::layout_wf(Self::bit_fields(), Self::join_fields(), Self::tail(), Self::STATIC_DWORDS as nat)
    }

    /// Dwords that the packet takes.
    pub open spec fn size(self) -> nat {
        (Self::STATIC_DWORDS + self.tail_data().len()) as nat
    }

    /// The buffer holds the whole packet.
    pub open spec fn decodable(buf: Seq<u32>) -> bool {
        buf.len() >= Self::STATIC_DWORDS
    }

    pub open spec fn spec_encode(self, buf: Seq<u32>) -> Seq<u32> {
        layout::encode_packet(
            buf,
            Self::bit_fields(),
            self.bit_values(),
            Self::join_fields(),
            self.join_values(),
            Self::tail(),
            self.tail_data(),
        )
    }

    /// `buf` holds this packet.
    pub open spec fn read_from(self, buf: Seq<u32>) -> bool {
        layout::packet_reads(
            buf,
            Self::bit_fields(),
            self.bit_values(),
            Self::join_fields(),
            self.join_values(),
            Self::tail(),
            self.tail_data(),
        )
    }

    fn exec_bit_fields() -> (r: Vec<BitField>)
        ensures
            r@ == Self::bit_fields(),
    {
        vec![BitField { dw: 1, mask: 0xfffffff, shift: 0 }]
    }

    fn exec_join_fields() -> (r: Vec<JoinField>)
        ensures
            r@ == Self::join_fields(),
    {
        Vec::<JoinField>::new()
    }

    /// Whether the field layout of this packet is well formed.
    pub fn layout_ok() -> (r: bool)
        ensures
            r == Self::layout_wf(),
    {
        layout_is_wf(&Self::exec_bit_fields(), &Self::exec_join_fields(), None, Self::STATIC_DWORDS)
    }

    /// Writes the packet to the start of `buff`, without its header, and
    /// returns how many dwords it took.
    pub fn partial_encode_linear(&self, buff: &mut [u32]) -> (n: usize)
        requires
            old(buff)@.len() >= self.size(),
            self.fits(),
        ensures
            n == self.size(),
            final(buff)@ == self.spec_encode(old(buff)@),
            final(buff)@.len() == old(buff)@.len(),
    {
        let bits = Self::exec_bit_fields();
        let vals: Vec<u32> = vec![self.int_context];
        let joins = Self::exec_join_fields();
        let jvals: Vec<u64> = Vec::<u64>::new();
        proof {
            assert(vals@ =~= self.bit_values());
            assert(jvals@ =~= self.join_values());
        }
        encode_bit_fields(&bits, &vals, buff);
        encode_join_fields(&joins, &jvals, buff);
        Self::STATIC_DWORDS
    }

    /// Reads the packet at the start of `buff` and returns how many dwords it
    /// took.
    pub fn partial_decode_linear(buff: &[u32]) -> (r: (usize, Self))
        requires
            Self::decodable(buff@),
        ensures
            r.0 == r.1.size(),
            r.1.read_from(buff@),
    {
        let bits = Self::exec_bit_fields();
        let v = decode_bit_fields(&bits, buff);
        let joins = Self::exec_join_fields();
        let j = decode_join_fields(&joins, buff);
        let p = Self { int_context: v[0] };
        proof {
            assert(p.bit_values() =~= v@);
            assert(p.join_values() =~= j@);
        }
        (Self::STATIC_DWORDS, p)
    }

    /// Where each field stands in a buffer that the packet is read from, as
    /// the packet header lays it out: a bit field under its mask and shift
    /// in its dword, a 64-bit field in two dwords, low half first. By
    /// `lemma_roundtrip`, encoding a packet puts its fields there.
    pub proof fn lemma_field_positions(self, buf: Seq<u32>)
        requires
            self.read_from(buf),
        ensures
            self.int_context == layout::get_bits(buf[1], 0xfffffff, 0),
    {
        assert(self.bit_values()[0] == self.int_context);
        assert(layout::decode_bits(buf, Self::bit_fields())[0] == self.bit_values()[0]);
    }

    /// The field values name the packet: two packets with the same values are
    /// equal.
    pub proof fn lemma_values_determine(a: Self, b: Self)
        requires
            a.bit_values() == b.bit_values(),
            a.join_values() == b.join_values(),
            a.tail_data() == b.tail_data(),
        ensures
            a == b,
    {
        assert(a.bit_values()[0] == a.int_context && b.bit_values()[0] == b.int_context);
    }

    /// Reading a packet is exact: two packets read from one buffer are equal.
    pub proof fn lemma_read_unique(a: Self, b: Self, buf: Seq<u32>)
        requires
            a.read_from(buf),
            b.read_from(buf),
        ensures
            a == b,
    {
        layout::lemma_reads_determine(
            buf,
            Self::bit_fields(),
            a.bit_values(),
            b.bit_values(),
            Self::join_fields(),
            a.join_values(),
            b.join_values(),
            Self::tail(),
            a.tail_data(),
            b.tail_data(),
        );
        Self::lemma_values_determine(a, b);
    }

    /// A packet reads back from what it was encoded to.
    pub proof fn lemma_roundtrip(self, buf: Seq<u32>)
        requires
            Self::layout_wf(),
            self.fits(),
            buf.len() >= self.size(),
        ensures
            self.read_from(self.spec_encode(buf)),
            Self::decodable(self.spec_encode(buf)),
            self.spec_encode(buf).len() == buf.len(),
    {
        layout::lemma_packet_roundtrip(
            buf,
            Self::bit_fields(),
            self.bit_values(),
            Self::join_fields(),
            self.join_values(),
            Self::tail(),
            self.tail_data(),
            Self::STATIC_DWORDS as nat,
        );
    }
}

/// The `DummyTrap` packet.
#[derive(Clone, Copy, Default)]
pub struct DummyTrap {
    pub int_context: u32,
}

impl DummyTrap {
    /// Dwords of the packet before its variable-length tail.
    pub const STATIC_DWORDS: usize = 2;

    pub open spec fn bit_fields() -> Seq<BitField> {
        seq![BitField { dw: 1, mask: 0xfffffff, shift: 0 }]
    }

    pub open spec fn join_fields() -> Seq<JoinField> {
        Seq::<JoinField>::empty()
    }

    pub open spec fn tail() -> Option<DynField> {
        None
    }

    pub open spec fn bit_values(self) -> Seq<u32> {
        seq![self.int_context]
    }

    pub open spec fn join_values(self) -> Seq<u64> {
        Seq::<u64>::empty()
    }

    pub open spec fn tail_data(self) -> Seq<u32> {
        Seq::<u32>::empty()
    }

    /// Every field value fits its field.
    pub open spec fn fits(self) -> bool {
        layout::fields_fit(Self::bit_fields(), self.bit_values()) && layout::tail_fits(Self::tail(), self.tail_data())
    }

    pub open spec fn layout_wf() -> bool {
        layout::layout_wf(Self::bit_fields(), Self::join_fields(), Self::tail(), Self::STATIC_DWORDS as nat)
    }

    /// Dwords that the packet takes.
    pub open spec fn size(self) -> nat {
        (Self::STATIC_DWORDS + self.tail_data().len()) as nat
    }

    /// The buffer holds the whole packet.
    pub open spec fn decodable(buf: Seq<u32>) -> bool {
        buf.len() >= Self::STATIC_DWORDS
    }

    pub open spec fn spec_encode(self, buf: Seq<u32>) -> Seq<u32> {
        layout::encode_packet(
            buf,
            Self::bit_fields(),
            self.bit_values(),
            Self::join_fields(),
            self.join_values(),
            Self::tail(),
            self.tail_data(),
        )
    }

    /// `buf` holds this packet.
    pub open spec fn read_from(self, buf: Seq<u32>) -> bool {
        layout::packet_reads(
            buf,
            Self::bit_fields(),
            self.bit_values(),
            Self::join_fields(),
            self.join_values(),
            Self::tail(),
            self.tail_data(),
        )
    }

    fn exec_bit_fields() -> (r: Vec<BitField>)
        ensures
            r@ == Self::bit_fields(),
    {
        vec![BitField { dw: 1, mask: 0xfffffff, shift: 0 }]
    }

    fn exec_join_fields() -> (r: Vec<JoinField>)
        ensures
            r@ == Self::join_fields(),
    {
        Vec::<JoinField>::new()
    }

    /// Whether the field layout of this packet is well formed.
    pub fn layout_ok() -> (r: bool)
        ensures
            r == Self::layout_wf(),
    {
        layout_is_wf(&Self::exec_bit_fields(), &Self::exec_join_fields(), None, Self::STATIC_DWORDS)
    }

    /// Writes the packet to the start of `buff`, without its header, and
    /// returns how many dwords it took.
    pub fn partial_encode_linear(&self, buff: &mut [u32]) -> (n: usize)
        requires
            old(buff)@.len() >= self.size(),
            self.fits(),
        ensures
            n == self.size(),
            final(buff)@ == self.spec_encode(old(buff)@),
            final(buff)@.len() == old(buff)@.len(),
    {
        let bits = Self::exec_bit_fields();
        let vals: Vec<u32> = vec![self.int_context];
        let joins = Self::exec_join_fields();
        let jvals: Vec<u64> = Vec::<u64>::new();
        proof {
            assert(vals@ =~= self.bit_values());
            assert(jvals@ =~= self.join_values());
        }
        encode_bit_fields(&bits, &vals, buff);
        encode_join_fields(&joins, &jvals, buff);
        Self::STATIC_DWORDS
    }

    /// Reads the packet at the start of `buff` and returns how many dwords it
    /// took.
    pub fn partial_decode_linear(buff: &[u32]) -> (r: (usize, Self))
        requires
            Self::decodable(buff@),
        ensures
            r.0 == r.1.size(),
            r.1.read_from(buff@),
    {
        let bits = Self::exec_bit_fields();
        let v = decode_bit_fields(&bits, buff);
        let joins = Self::exec_join_fields();
        let j = decode_join_fields(&joins, buff);
        let p = Self { int_context: v[0] };
        proof {
            assert(p.bit_values() =~= v@);
            assert(p.join_values() =~= j@);
        }
        (Self::STATIC_DWORDS, p)
    }

    /// Where each field stands in a buffer that the packet is read from, as
    /// the packet header lays it out: a bit field under its mask and shift
    /// in its dword, a 64-bit field in two dwords, low half first. By
    /// `lemma_roundtrip`, encoding a packet puts its fields there.
    pub proof fn lemma_field_positions(self, buf: Seq<u32>)
        requires
            self.read_from(buf),
        ensures
            self.int_context == layout::get_bits(buf[1], 0xfffffff, 0),
    {
        assert(self.bit_values()[0] == self.int_context);
        assert(layout::decode_bits(buf, Self::bit_fields())[0] == self.bit_values()[0]);
    }

    /// The field values name the packet: two packets with the same values are
    /// equal.
    pub proof fn lemma_values_determine(a: Self, b: Self)
        requires
            a.bit_values() == b.bit_values(),
            a.join_values() == b.join_values(),
            a.tail_data() == b.tail_data(),
        ensures
            a == b,
    {
        assert(a.bit_values()[0] == a.int_context && b.bit_values()[0] == b.int_context);
    }

    /// Reading a packet is exact: two packets read from one buffer are equal.
    pub proof fn lemma_read_unique(a: Self, b: Self, buf: Seq<u32>)
        requires
            a.read_from(buf),
            b.read_from(buf),
        ensures
            a == b,
    {
        layout::lemma_reads_determine(
            buf,
            Self::bit_fields(),
            a.bit_values(),
            b.bit_values(),
            Self::join_fields(),
            a.join_values(),
            b.join_values(),
            Self::tail(),
            a.tail_data(),
            b.tail_data(),
        );
        Self::lemma_values_determine(a, b);
    }

    /// A packet reads back from what it was encoded to.
    pub proof fn lemma_roundtrip(self, buf: Seq<u32>)
        requires
            Self::layout_wf(),
            self.fits(),
            buf.len() >= self.size(),
        ensures
            self.read_from(self.spec_encode(buf)),
            Self::decodable(self.spec_encode(buf)),
            self.spec_encode(buf).len() == buf.len(),
    {
        layout::lemma_packet_roundtrip(
            buf,
            Self::bit_fields(),
            self.bit_values(),
            Self::join_fields(),
            self.join_values(),
            Self::tail(),
            self.tail_data(),
            Self::STATIC_DWORDS as nat,
        );
    }
}

/// The `GpuvmInv` packet.
#[derive(Clone, Copy, Default)]
pub struct GpuvmInv {
    pub per_vmid_inv_req: u16,
    pub flush_type: u8,
    pub l2_ptes: bool,
    pub l2_pde0: bool,
    pub l2_pde1: bool,
    pub l2_pde2: bool,
    pub l1_ptes: bool,
    pub clr_protection_fault_status_addr: bool,
    pub log_request: bool,
    pub four_kilobytes: bool,
    pub s: bool,
    pub page_va_42_12: u32,
    pub page_va_47_43: u8,
}

impl GpuvmInv {
    /// Dwords of the packet before its variable-length tail.
    pub const STATIC_DWORDS: usize = 4;

    pub open spec fn bit_fields() -> Seq<BitField> {
        seq![BitField { dw: 1, mask: 0xffff, shift: 0 }, BitField { dw: 1, mask: 0x7, shift: 16 }, BitField { dw: 1, mask: 0x1, shift: 19 }, BitField { dw: 1, mask: 0x1, shift: 20 }, BitField { dw: 1, mask: 0x1, shift: 21 }, BitField { dw: 1, mask: 0x1, shift: 22 }, BitField { dw: 1, mask: 0x1, shift: 23 }, BitField { dw: 1, mask: 0x1, shift: 24 }, BitField { dw: 1, mask: 0x1, shift: 25 }, BitField { dw: 1, mask: 0x1, shift: 26 }, BitField { dw: 2, mask: 0x1, shift: 0 }, BitField { dw: 2, mask: 0x7fffffff, shift: 1 }, BitField { dw: 3, mask: 0x3f, shift: 0 }]
    }

    pub open spec fn join_fields() -> Seq<JoinField> {
        Seq::<JoinField>::empty()
    }

    pub open spec fn tail() -> Option<DynField> {
        None
    }

    pub open spec fn bit_values(self) -> Seq<u32> {
        seq![self.per_vmid_inv_req as u32, self.flush_type as u32, layout::bool_bit(self.l2_ptes), layout::bool_bit(self.l2_pde0), layout::bool_bit(self.l2_pde1), layout::bool_bit(self.l2_pde2), layout::bool_bit(self.l1_ptes), layout::bool_bit(self.clr_protection_fault_status_addr), layout::bool_bit(self.log_request), layout::bool_bit(self.four_kilobytes), layout::bool_bit(self.s), self.page_va_42_12, self.page_va_47_43 as u32]
    }

    pub open spec fn join_values(self) -> Seq<u64> {
        Seq::<u64>::empty()
    }

    pub open spec fn tail_data(self) -> Seq<u32> {
        Seq::<u32>::empty()
    }

    /// Every field value fits its field.
    pub open spec fn fits(self) -> bool {
        layout::fields_fit(Self::bit_fields(), self.bit_values()) && layout::tail_fits(Self::tail(), self.tail_data())
    }

    pub open spec fn layout_wf() -> bool {
        layout::layout_wf(Self::bit_fields(), Self::join_fields(), Self::tail(), Self::STATIC_DWORDS as nat)
    }

    /// Dwords that the packet takes.
    pub open spec fn size(self) -> nat {
        (Self::STATIC_DWORDS + self.tail_data().len()) as nat
    }

    /// The buffer holds the whole packet.
    pub open spec fn decodable(buf: Seq<u32>) -> bool {
        buf.len() >= Self::STATIC_DWORDS
    }

    pub open spec fn spec_encode(self, buf: Seq<u32>) -> Seq<u32> {
        layout::encode_packet(
            buf,
            Self::bit_fields(),
            self.bit_values(),
            Self::join_fields(),
            self.join_values(),
            Self::tail(),
            self.tail_data(),
        )
    }

    /// `buf` holds this packet.
    pub open spec fn read_from(self, buf: Seq<u32>) -> bool {
        layout::packet_reads(
            buf,
            Self::bit_fields(),
            self.bit_values(),
            Self::join_fields(),
            self.join_values(),
            Self::tail(),
            self.tail_data(),
        )
    }

    fn exec_bit_fields() -> (r: Vec<BitField>)
        ensures
            r@ == Self::bit_fields(),
    {
        vec![BitField { dw: 1, mask: 0xffff, shift: 0 }, BitField { dw: 1, mask: 0x7, shift: 16 }, BitField { dw: 1, mask: 0x1, shift: 19 }, BitField { dw: 1, mask: 0x1, shift: 20 }, BitField { dw: 1, mask: 0x1, shift: 21 }, BitField { dw: 1, mask: 0x1, shift: 22 }, BitField { dw: 1, mask: 0x1, shift: 23 }, BitField { dw: 1, mask: 0x1, shift: 24 }, BitField { dw: 1, mask: 0x1, shift: 25 }, BitField { dw: 1, mask: 0x1, shift: 26 }, BitField { dw: 2, mask: 0x1, shift: 0 }, BitField { dw: 2, mask: 0x7fffffff, shift: 1 }, BitField { dw: 3, mask: 0x3f, shift: 0 }]
    }

    fn exec_join_fields() -> (r: Vec<JoinField>)
        ensures
            r@ == Self::join_fields(),
    {
        Vec::<JoinField>::new()
    }

    /// Whether the field layout of this packet is well formed.
    pub fn layout_ok() -> (r: bool)
        ensures
            r == Self::layout_wf(),
    {
        layout_is_wf(&Self::exec_bit_fields(), &Self::exec_join_fields(), None, Self::STATIC_DWORDS)
    }

    /// Writes the packet to the start of `buff`, without its header, and
    /// returns how many dwords it took.
    pub fn partial_encode_linear(&self, buff: &mut [u32]) -> (n: usize)
        requires
            old(buff)@.len() >= self.size(),
            self.fits(),
        ensures
            n == self.size(),
            final(buff)@ == self.spec_encode(old(buff)@),
            final(buff)@.len() == old(buff)@.len(),
    {
        let bits = Self::exec_bit_fields();
        let vals: Vec<u32> = vec![layout::widen_u16(self.per_vmid_inv_req), layout::widen_u8(self.flush_type), to_bit(self.l2_ptes), to_bit(self.l2_pde0), to_bit(self.l2_pde1), to_bit(self.l2_pde2), to_bit(self.l1_ptes), to_bit(self.clr_protection_fault_status_addr), to_bit(self.log_request), to_bit(self.four_kilobytes), to_bit(self.s), self.page_va_42_12, layout::widen_u8(self.page_va_47_43)];
        let joins = Self::exec_join_fields();
        let jvals: Vec<u64> = Vec::<u64>::new();
        proof {
            assert(vals@ =~= self.bit_values());
            assert(jvals@ =~= self.join_values());
        }
        encode_bit_fields(&bits, &vals, buff);
        encode_join_fields(&joins, &jvals, buff);
        Self::STATIC_DWORDS
    }

    /// Reads the packet at the start of `buff` and returns how many dwords it
    /// took.
    pub fn partial_decode_linear(buff: &[u32]) -> (r: (usize, Self))
        requires
            Self::decodable(buff@),
        ensures
            r.0 == r.1.size(),
            r.1.read_from(buff@),
    {
        let bits = Self::exec_bit_fields();
        let v = decode_bit_fields(&bits, buff);
        let joins = Self::exec_join_fields();
        let j = decode_join_fields(&joins, buff);
        let p = Self { per_vmid_inv_req: layout::narrow_u16(v[0]), flush_type: layout::narrow_u8(v[1]), l2_ptes: v[2] != 0, l2_pde0: v[3] != 0, l2_pde1: v[4] != 0, l2_pde2: v[5] != 0, l1_ptes: v[6] != 0, clr_protection_fault_status_addr: v[7] != 0, log_request: v[8] != 0, four_kilobytes: v[9] != 0, s: v[10] != 0, page_va_42_12: v[11], page_va_47_43: layout::narrow_u8(v[12]) };
        proof {
            assert(p.bit_values() =~= v@);
            assert(p.join_values() =~= j@);
        }
        (Self::STATIC_DWORDS, p)
    }

    /// Where each field stands in a buffer that the packet is read from, as
    /// the packet header lays it out: a bit field under its mask and shift
    /// in its dword, a 64-bit field in two dwords, low half first. By
    /// `lemma_roundtrip`, encoding a packet puts its fields there.
    pub proof fn lemma_field_positions(self, buf: Seq<u32>)
        requires
            self.read_from(buf),
        ensures
            layout::u16_value(self.per_vmid_inv_req) == layout::get_bits(buf[1], 0xffff, 0),
            layout::u8_value(self.flush_type) == layout::get_bits(buf[1], 0x7, 16),
            layout::bool_bit(self.l2_ptes) == layout::get_bits(buf[1], 0x1, 19),
            layout::bool_bit(self.l2_pde0) == layout::get_bits(buf[1], 0x1, 20),
            layout::bool_bit(self.l2_pde1) == layout::get_bits(buf[1], 0x1, 21),
            layout::bool_bit(self.l2_pde2) == layout::get_bits(buf[1], 0x1, 22),
            layout::bool_bit(self.l1_ptes) == layout::get_bits(buf[1], 0x1, 23),
            layout::bool_bit(self.clr_protection_fault_status_addr) == layout::get_bits(buf[1], 0x1, 24),
            layout::bool_bit(self.log_request) == layout::get_bits(buf[1], 0x1, 25),
            layout::bool_bit(self.four_kilobytes) == layout::get_bits(buf[1], 0x1, 26),
            layout::bool_bit(self.s) == layout::get_bits(buf[2], 0x1, 0),
            self.page_va_42_12 == layout::get_bits(buf[2], 0x7fffffff, 1),
            layout::u8_value(self.page_va_47_43) == layout::get_bits(buf[3], 0x3f, 0),
    {
        assert(self.bit_values()[0] == layout::u16_value(self.per_vmid_inv_req));
        assert(layout::decode_bits(buf, Self::bit_fields())[0] == self.bit_values()[0]);
        assert(self.bit_values()[1] == layout::u8_value(self.flush_type));
        assert(layout::decode_bits(buf, Self::bit_fields())[1] == self.bit_values()[1]);
        assert(self.bit_values()[2] == layout::bool_bit(self.l2_ptes));
        assert(layout::decode_bits(buf, Self::bit_fields())[2] == self.bit_values()[2]);
        assert(self.bit_values()[3] == layout::bool_bit(self.l2_pde0));
        assert(layout::decode_bits(buf, Self::bit_fields())[3] == self.bit_values()[3]);
        assert(self.bit_values()[4] == layout::bool_bit(self.l2_pde1));
        assert(layout::decode_bits(buf, Self::bit_fields())[4] == self.bit_values()[4]);
        assert(self.bit_values()[5] == layout::bool_bit(self.l2_pde2));
        assert(layout::decode_bits(buf, Self::bit_fields())[5] == self.bit_values()[5]);
        assert(self.bit_values()[6] == layout::bool_bit(self.l1_ptes));
        assert(layout::decode_bits(buf, Self::bit_fields())[6] == self.bit_values()[6]);
        assert(self.bit_values()[7] == layout::bool_bit(self.clr_protection_fault_status_addr));
        assert(layout::decode_bits(buf, Self::bit_fields())[7] == self.bit_values()[7]);
        assert(self.bit_values()[8] == layout::bool_bit(self.log_request));
        assert(layout::decode_bits(buf, Self::bit_fields())[8] == self.bit_values()[8]);
        assert(self.bit_values()[9] == layout::bool_bit(self.four_kilobytes));
        assert(layout::decode_bits(buf, Self::bit_fields())[9] == self.bit_values()[9]);
        assert(self.bit_values()[10] == layout::bool_bit(self.s));
        assert(layout::decode_bits(buf, Self::bit_fields())[10] == self.bit_values()[10]);
        assert(self.bit_values()[11] == self.page_va_42_12);
        assert(layout::decode_bits(buf, Self::bit_fields())[11] == self.bit_values()[11]);
        assert(self.bit_values()[12] == layout::u8_value(self.page_va_47_43));
        assert(layout::decode_bits(buf, Self::bit_fields())[12] == self.bit_values()[12]);
    }

    /// The field values name the packet: two packets with the same values are
    /// equal.
    pub proof fn lemma_values_determine(a: Self, b: Self)
        requires
            a.bit_values() == b.bit_values(),
            a.join_values() == b.join_values(),
            a.tail_data() == b.tail_data(),
        ensures
            a == b,
    {
        assert(a.bit_values()[0] == layout::u16_value(a.per_vmid_inv_req) && b.bit_values()[0] == layout::u16_value(b.per_vmid_inv_req));
        assert(a.bit_values()[1] == layout::u8_value(a.flush_type) && b.bit_values()[1] == layout::u8_value(b.flush_type));
        assert(a.bit_values()[2] == layout::bool_bit(a.l2_ptes) && b.bit_values()[2] == layout::bool_bit(b.l2_ptes));
        assert(a.bit_values()[3] == layout::bool_bit(a.l2_pde0) && b.bit_values()[3] == layout::bool_bit(b.l2_pde0));
        assert(a.bit_values()[4] == layout::bool_bit(a.l2_pde1) && b.bit_values()[4] == layout::bool_bit(b.l2_pde1));
        assert(a.bit_values()[5] == layout::bool_bit(a.l2_pde2) && b.bit_values()[5] == layout::bool_bit(b.l2_pde2));
        assert(a.bit_values()[6] == layout::bool_bit(a.l1_ptes) && b.bit_values()[6] == layout::bool_bit(b.l1_ptes));
        assert(a.bit_values()[7] == layout::bool_bit(a.clr_protection_fault_status_addr) && b.bit_values()[7] == layout::bool_bit(b.clr_protection_fault_status_addr));
        assert(a.bit_values()[8] == layout::bool_bit(a.log_request) && b.bit_values()[8] == layout::bool_bit(b.log_request));
        assert(a.bit_values()[9] == layout::bool_bit(a.four_kilobytes) && b.bit_values()[9] == layout::bool_bit(b.four_kilobytes));
        assert(a.bit_values()[10] == layout::bool_bit(a.s) && b.bit_values()[10] == layout::bool_bit(b.s));
        assert(a.bit_values()[11] == a.page_va_42_12 && b.bit_values()[11] == b.page_va_42_12);
        assert(a.bit_values()[12] == layout::u8_value(a.page_va_47_43) && b.bit_values()[12] == layout::u8_value(b.page_va_47_43));
    }

    /// Reading a packet is exact: two packets read from one buffer are equal.
    pub proof fn lemma_read_unique(a: Self, b: Self, buf: Seq<u32>)
        requires
            a.read_from(buf),
            b.read_from(buf),
        ensures
            a == b,
    {
        layout::lemma_reads_determine(
            buf,
            Self::bit_fields(),
            a.bit_values(),
            b.bit_values(),
            Self::join_fields(),
            a.join_values(),
            b.join_values(),
            Self::tail(),
            a.tail_data(),
            b.tail_data(),
        );
        Self::lemma_values_determine(a, b);
    }

    /// A packet reads back from what it was encoded to.
    pub proof fn lemma_roundtrip(self, buf: Seq<u32>)
        requires
            Self::layout_wf(),
            self.fits(),
            buf.len() >= self.size(),
        ensures
            self.read_from(self.spec_encode(buf)),
            Self::decodable(self.spec_encode(buf)),
            self.spec_encode(buf).len() == buf.len(),
    {
        layout::lemma_packet_roundtrip(
            buf,
            Self::bit_fields(),
            self.bit_values(),
            Self::join_fields(),
            self.join_values(),
            Self::tail(),
            self.tail_data(),
            Self::STATIC_DWORDS as nat,
        );
    }
}

/// The `GcrReq` packet.
#[derive(Clone, Copy, Default)]
pub struct GcrReq {
    pub base_va_31_7: u32,
    pub base_va_47_32: u16,
    pub gcr_control_15_0: u16,
    pub gcr_control_18_16: u8,
    pub limit_va_31_7: u32,
    pub limit_va_47_32: u16,
    pub vmid: u8,
}

impl GcrReq {
    /// Dwords of the packet before its variable-length tail.
    pub const STATIC_DWORDS: usize = 5;

    pub open spec fn bit_fields() -> Seq<BitField> {
        seq![BitField { dw: 1, mask: 0x1ffffff, shift: 7 }, BitField { dw: 2, mask: 0xffff, shift: 0 }, BitField { dw: 2, mask: 0xffff, shift: 16 }, BitField { dw: 3, mask: 0x7, shift: 0 }, BitField { dw: 3, mask: 0x1ffffff, shift: 7 }, BitField { dw: 4, mask: 0xffff, shift: 0 }, BitField { dw: 4, mask: 0xf, shift: 24 }]
    }

    pub open spec fn join_fields() -> Seq<JoinField> {
        Seq::<JoinField>::empty()
    }

    pub open spec fn tail() -> Option<DynField> {
        None
    }

    pub open spec fn bit_values(self) -> Seq<u32> {
        seq![self.base_va_31_7, self.base_va_47_32 as u32, self.gcr_control_15_0 as u32, self.gcr_control_18_16 as u32, self.limit_va_31_7, self.limit_va_47_32 as u32, self.vmid as u32]
    }

    pub open spec fn join_values(self) -> Seq<u64> {
        Seq::<u64>::empty()
    }

    pub open spec fn tail_data(self) -> Seq<u32> {
        Seq::<u32>::empty()
    }

    /// Every field value fits its field.
    pub open spec fn fits(self) -> bool {
        layout::fields_fit(Self::bit_fields(), self.bit_values()) && layout::tail_fits(Self::tail(), self.tail_data())
    }

    pub open spec fn layout_wf() -> bool {
        layout::layout_wf(Self::bit_fields(), Self::join_fields(), Self::tail(), Self::STATIC_DWORDS as nat)
    }

    /// Dwords that the packet takes.
    pub open spec fn size(self) -> nat {
        (Self::STATIC_DWORDS + self.tail_data().len()) as nat
    }

    /// The buffer holds the whole packet.
    pub open spec fn decodable(buf: Seq<u32>) -> bool {
        buf.len() >= Self::STATIC_DWORDS
    }

    pub open spec fn spec_encode(self, buf: Seq<u32>) -> Seq<u32> {
        layout::encode_packet(
            buf,
            Self::bit_fields(),
            self.bit_values(),
            Self::join_fields(),
            self.join_values(),
            Self::tail(),
            self.tail_data(),
        )
    }

    /// `buf` holds this packet.
    pub open spec fn read_from(self, buf: Seq<u32>) -> bool {
        layout::packet_reads(
            buf,
            Self::bit_fields(),
            self.bit_values(),
            Self::join_fields(),
            self.join_values(),
            Self::tail(),
            self.tail_data(),
        )
    }

    fn exec_bit_fields() -> (r: Vec<BitField>)
        ensures
            r@ == Self::bit_fields(),
    {
        vec![BitField { dw: 1, mask: 0x1ffffff, shift: 7 }, BitField { dw: 2, mask: 0xffff, shift: 0 }, BitField { dw: 2, mask: 0xffff, shift: 16 }, BitField { dw: 3, mask: 0x7, shift: 0 }, BitField { dw: 3, mask: 0x1ffffff, shift: 7 }, BitField { dw: 4, mask: 0xffff, shift: 0 }, BitField { dw: 4, mask: 0xf, shift: 24 }]
    }

    fn exec_join_fields() -> (r: Vec<JoinField>)
        ensures
            r@ == Self::join_fields(),
    {
        Vec::<JoinField>::new()
    }

    /// Whether the field layout of this packet is well formed.
    pub fn layout_ok() -> (r: bool)
        ensures
            r == Self::layout_wf(),
    {
        layout_is_wf(&Self::exec_bit_fields(), &Self::exec_join_fields(), None, Self::STATIC_DWORDS)
    }

    /// Writes the packet to the start of `buff`, without its header, and
    /// returns how many dwords it took.
    pub fn partial_encode_linear(&self, buff: &mut [u32]) -> (n: usize)
        requires
            old(buff)@.len() >= self.size(),
            self.fits(),
        ensures
            n == self.size(),
            final(buff)@ == self.spec_encode(old(buff)@),
            final(buff)@.len() == old(buff)@.len(),
    {
        let bits = Self::exec_bit_fields();
        let vals: Vec<u32> = vec![self.base_va_31_7, layout::widen_u16(self.base_va_47_32), layout::widen_u16(self.gcr_control_15_0), layout::widen_u8(self.gcr_control_18_16), self.limit_va_31_7, layout::widen_u16(self.limit_va_47_32), layout::widen_u8(self.vmid)];
        let joins = Self::exec_join_fields();
        let jvals: Vec<u64> = Vec::<u64>::new();
        proof {
            assert(vals@ =~= self.bit_values());
            assert(jvals@ =~= self.join_values());
        }
        encode_bit_fields(&bits, &vals, buff);
        encode_join_fields(&joins, &jvals, buff);
        Self::STATIC_DWORDS
    }

    /// Reads the packet at the start of `buff` and returns how many dwords it
    /// took.
    pub fn partial_decode_linear(buff: &[u32]) -> (r: (usize, Self))
        requires
            Self::decodable(buff@),
        ensures
            r.0 == r.1.size(),
            r.1.read_from(buff@),
    {
        let bits = Self::exec_bit_fields();
        let v = decode_bit_fields(&bits, buff);
        let joins = Self::exec_join_fields();
        let j = decode_join_fields(&joins, buff);
        let p = Self { base_va_31_7: v[0], base_va_47_32: layout::narrow_u16(v[1]), gcr_control_15_0: layout::narrow_u16(v[2]), gcr_control_18_16: layout::narrow_u8(v[3]), limit_va_31_7: v[4], limit_va_47_32: layout::narrow_u16(v[5]), vmid: layout::narrow_u8(v[6]) };
        proof {
            assert(p.bit_values() =~= v@);
            assert(p.join_values() =~= j@);
        }
        (Self::STATIC_DWORDS, p)
    }

    /// Where each field stands in a buffer that the packet is read from, as
    /// the packet header lays it out: a bit field under its mask and shift
    /// in its dword, a 64-bit field in two dwords, low half first. By
    /// `lemma_roundtrip`, encoding a packet puts its fields there.
    pub proof fn lemma_field_positions(self, buf: Seq<u32>)
        requires
            self.read_from(buf),
        ensures
            self.base_va_31_7 == layout::get_bits(buf[1], 0x1ffffff, 7),
            layout::u16_value(self.base_va_47_32) == layout::get_bits(buf[2], 0xffff, 0),
            layout::u16_value(self.gcr_control_15_0) == layout::get_bits(buf[2], 0xffff, 16),
            layout::u8_value(self.gcr_control_18_16) == layout::get_bits(buf[3], 0x7, 0),
            self.limit_va_31_7 == layout::get_bits(buf[3], 0x1ffffff, 7),
            layout::u16_value(self.limit_va_47_32) == layout::get_bits(buf[4], 0xffff, 0),
            layout::u8_value(self.vmid) == layout::get_bits(buf[4], 0xf, 24),
    {
        assert(self.bit_values()[0] == self.base_va_31_7);
        assert(layout::decode_bits(buf, Self::bit_fields())[0] == self.bit_values()[0]);
        assert(self.bit_values()[1] == layout::u16_value(self.base_va_47_32));
        assert(layout::decode_bits(buf, Self::bit_fields())[1] == self.bit_values()[1]);
        assert(self.bit_values()[2] == layout::u16_value(self.gcr_control_15_0));
        assert(layout::decode_bits(buf, Self::bit_fields())[2] == self.bit_values()[2]);
        assert(self.bit_values()[3] == layout::u8_value(self.gcr_control_18_16));
        assert(layout::decode_bits(buf, Self::bit_fields())[3] == self.bit_values()[3]);
        assert(self.bit_values()[4] == self.limit_va_31_7);
        assert(layout::decode_bits(buf, Self::bit_fields())[4] == self.bit_values()[4]);
        assert(self.bit_values()[5] == layout::u16_value(self.limit_va_47_32));
        assert(layout::decode_bits(buf, Self::bit_fields())[5] == self.bit_values()[5]);
        assert(self.bit_values()[6] == layout::u8_value(self.vmid));
        assert(layout::decode_bits(buf, Self::bit_fields())[6] == self.bit_values()[6]);
    }

    /// The field values name the packet: two packets with the same values are
    /// equal.
    pub proof fn lemma_values_determine(a: Self, b: Self)
        requires
            a.bit_values() == b.bit_values(),
            a.join_values() == b.join_values(),
            a.tail_data() == b.tail_data(),
        ensures
            a == b,
    {
        assert(a.bit_values()[0] == a.base_va_31_7 && b.bit_values()[0] == b.base_va_31_7);
        assert(a.bit_values()[1] == layout::u16_value(a.base_va_47_32) && b.bit_values()[1] == layout::u16_value(b.base_va_47_32));
        assert(a.bit_values()[2] == layout::u16_value(a.gcr_control_15_0) && b.bit_values()[2] == layout::u16_value(b.gcr_control_15_0));
        assert(a.bit_values()[3] == layout::u8_value(a.gcr_control_18_16) && b.bit_values()[3] == layout::u8_value(b.gcr_control_18_16));
        assert(a.bit_values()[4] == a.limit_va_31_7 && b.bit_values()[4] == b.limit_va_31_7);
        assert(a.bit_values()[5] == layout::u16_value(a.limit_va_47_32) && b.bit_values()[5] == layout::u16_value(b.limit_va_47_32));
        assert(a.bit_values()[6] == layout::u8_value(a.vmid) && b.bit_values()[6] == layout::u8_value(b.vmid));
    }

    /// Reading a packet is exact: two packets read from one buffer are equal.
    pub proof fn lemma_read_unique(a: Self, b: Self, buf: Seq<u32>)
        requires
            a.read_from(buf),
            b.read_from(buf),
        ensures
            a == b,
    {
        layout::lemma_reads_determine(
            buf,
            Self::bit_fields(),
            a.bit_values(),
            b.bit_values(),
            Self::join_fields(),
            a.join_values(),
            b.join_values(),
            Self::tail(),
            a.tail_data(),
            b.tail_data(),
        );
        Self::lemma_values_determine(a, b);
    }

    /// A packet reads back from what it was encoded to.
    pub proof fn lemma_roundtrip(self, buf: Seq<u32>)
        requires
            Self::layout_wf(),
            self.fits(),
            buf.len() >= self.size(),
        ensures
            self.read_from(self.spec_encode(buf)),
            Self::decodable(self.spec_encode(buf)),
            self.spec_encode(buf).len() == buf.len(),
    {
        layout::lemma_packet_roundtrip(
            buf,
            Self::bit_fields(),
            self.bit_values(),
            Self::join_fields(),
            self.join_values(),
            Self::tail(),
            self.tail_data(),
            Self::STATIC_DWORDS as nat,
        );
    }
}

/// The `Nop` packet.
#[derive(Clone, Copy, Default)]
pub struct Nop<'a> {
    pub data: &'a [u32],
}

impl<'a> Nop<'a> {
    /// Dwords of the packet before its variable-length tail.
    pub const STATIC_DWORDS: usize = 1;

    pub open spec fn bit_fields() -> Seq<BitField> {
        Seq::<BitField>::empty()
    }

    pub open spec fn join_fields() -> Seq<JoinField> {
        Seq::<JoinField>::empty()
    }

    pub open spec fn tail() -> Option<DynField> {
        Some(DynField { start: 1, len_dw: 0, mask: 0x3fff, shift: 16 })
    }

    pub open spec fn bit_values(self) -> Seq<u32> {
        Seq::<u32>::empty()
    }

    pub open spec fn join_values(self) -> Seq<u64> {
        Seq::<u64>::empty()
    }

    pub open spec fn tail_data(self) -> Seq<u32> {
        self.data@
    }

    /// Every field value fits its field.
    pub open spec fn fits(self) -> bool {
        layout::fields_fit(Self::bit_fields(), self.bit_values()) && layout::tail_fits(Self::tail(), self.tail_data())
    }

    pub open spec fn layout_wf() -> bool {
        layout::layout_wf(Self::bit_fields(), Self::join_fields(), Self::tail(), Self::STATIC_DWORDS as nat)
    }

    /// Dwords that the packet takes.
    pub open spec fn size(self) -> nat {
        (Self::STATIC_DWORDS + self.tail_data().len()) as nat
    }

    /// The buffer holds the whole packet, tail included.
    pub open spec fn decodable(buf: Seq<u32>) -> bool {
        buf.len() >= Self::STATIC_DWORDS && Self::STATIC_DWORDS + layout::read_dyn_len(buf, Self::tail().unwrap()) <= buf.len()
    }

    pub open spec fn spec_encode(self, buf: Seq<u32>) -> Seq<u32> {
        layout::encode_packet(
            buf,
            Self::bit_fields(),
            self.bit_values(),
            Self::join_fields(),
            self.join_values(),
            Self::tail(),
            self.tail_data(),
        )
    }

    /// `buf` holds this packet.
    pub open spec fn read_from(self, buf: Seq<u32>) -> bool {
        layout::packet_reads(
            buf,
            Self::bit_fields(),
            self.bit_values(),
            Self::join_fields(),
            self.join_values(),
            Self::tail(),
            self.tail_data(),
        )
    }

    fn exec_bit_fields() -> (r: Vec<BitField>)
        ensures
            r@ == Self::bit_fields(),
    {
        Vec::<BitField>::new()
    }

    fn exec_join_fields() -> (r: Vec<JoinField>)
        ensures
            r@ == Self::join_fields(),
    {
        Vec::<JoinField>::new()
    }

    /// Whether the field layout of this packet is well formed.
    pub fn layout_ok() -> (r: bool)
        ensures
            r == Self::layout_wf(),
    {
        layout_is_wf(&Self::exec_bit_fields(), &Self::exec_join_fields(), Some(DynField { start: 1, len_dw: 0, mask: 0x3fff, shift: 16 }), Self::STATIC_DWORDS)
    }

    /// Writes the packet to the start of `buff`, without its header, and
    /// returns how many dwords it took.
    pub fn partial_encode_linear(&self, buff: &mut [u32]) -> (n: usize)
        requires
            old(buff)@.len() >= self.size(),
            self.fits(),
        ensures
            n == self.size(),
            final(buff)@ == self.spec_encode(old(buff)@),
            final(buff)@.len() == old(buff)@.len(),
    {
        let bits = Self::exec_bit_fields();
        let vals: Vec<u32> = Vec::<u32>::new();
        let joins = Self::exec_join_fields();
        let jvals: Vec<u64> = Vec::<u64>::new();
        proof {
            assert(vals@ =~= self.bit_values());
            assert(jvals@ =~= self.join_values());
        }
        encode_bit_fields(&bits, &vals, buff);
        encode_join_fields(&joins, &jvals, buff);
        encode_tail(DynField { start: 1, len_dw: 0, mask: 0x3fff, shift: 16 }, self.data, buff);
        Self::STATIC_DWORDS + self.data.len()
    }

    /// Reads the packet at the start of `buff` and returns how many dwords it
    /// took.
    pub fn partial_decode_linear(buff: &'a [u32]) -> (r: (usize, Self))
        requires
            Self::decodable(buff@),
        ensures
            r.0 == r.1.size(),
            r.1.read_from(buff@),
    {
        let bits = Self::exec_bit_fields();
        let v = decode_bit_fields(&bits, buff);
        let joins = Self::exec_join_fields();
        let j = decode_join_fields(&joins, buff);
        let data = decode_tail(DynField { start: 1, len_dw: 0, mask: 0x3fff, shift: 16 }, buff);
        let p = Self { data };
        proof {
            assert(p.bit_values() =~= v@);
            assert(p.join_values() =~= j@);
        }
        (Self::STATIC_DWORDS + p.data.len(), p)
    }

    /// Where each field stands in a buffer that the packet is read from, as
    /// the packet header lays it out: a bit field under its mask and shift
    /// in its dword, a 64-bit field in two dwords, low half first. By
    /// `lemma_roundtrip`, encoding a packet puts its fields there.
    pub proof fn lemma_field_positions(self, buf: Seq<u32>)
        requires
            self.read_from(buf),
        ensures
            self.data@ == buf.subrange(1, 1 + layout::get_bits(buf[0], 0x3fff, 16)),
    {

    }

    /// The field values name the packet: two packets with the same values are
    /// equal.
    pub proof fn lemma_values_determine(a: Self, b: Self)
        requires
            a.bit_values() == b.bit_values(),
            a.join_values() == b.join_values(),
            a.tail_data() == b.tail_data(),
        ensures
            a == b,
    {
        assert(a.data@ =~= b.data@);
        assert(a.data =~= b.data);
    }

    /// Reading a packet is exact: two packets read from one buffer are equal.
    pub proof fn lemma_read_unique(a: Self, b: Self, buf: Seq<u32>)
        requires
            a.read_from(buf),
            b.read_from(buf),
        ensures
            a == b,
    {
        layout::lemma_reads_determine(
            buf,
            Self::bit_fields(),
            a.bit_values(),
            b.bit_values(),
            Self::join_fields(),
            a.join_values(),
            b.join_values(),
            Self::tail(),
            a.tail_data(),
            b.tail_data(),
        );
        Self::lemma_values_determine(a, b);
    }

    /// A packet reads back from what it was encoded to.
    pub proof fn lemma_roundtrip(self, buf: Seq<u32>)
        requires
            Self::layout_wf(),
            self.fits(),
            buf.len() >= self.size(),
        ensures
            self.read_from(self.spec_encode(buf)),
            Self::decodable(self.spec_encode(buf)),
            self.spec_encode(buf).len() == buf.len(),
    {
        layout::lemma_packet_roundtrip(
            buf,
            Self::bit_fields(),
            self.bit_values(),
            Self::join_fields(),
            self.join_values(),
            Self::tail(),
            self.tail_data(),
            Self::STATIC_DWORDS as nat,
        );
    }
}

/// Any packet of this engine version, told apart by its header.
pub enum Pkt<'pkt> {
    CopyLinear(CopyLinear),
    CopyBroadcastLinear(CopyBroadcastLinear),
    CopyTiled(CopyTiled),
    CopyL2tBroadcast(CopyL2tBroadcast),
    Nop(Nop<'pkt>),
    CopyStruct(CopyStruct),
    CopyLinearSubwin(CopyLinearSubwin),
    CopyTiledSubwin(CopyTiledSubwin),
    CopyT2t(CopyT2t),
    CopyDirtyPage(CopyDirtyPage),
    CopyPhysicalLinear(CopyPhysicalLinear),
    CopyLinearBc(CopyLinearBc),
    CopyTiledBc(CopyTiledBc),
    CopyLinearSubwinBc(CopyLinearSubwinBc),
    CopyTiledSubwinBc(CopyTiledSubwinBc),
    CopyT2tBc(CopyT2tBc),
    WriteUntiled(WriteUntiled<'pkt>),
    WriteTiled(WriteTiled<'pkt>),
    WriteTiledBc(WriteTiledBc<'pkt>),
    Indirect(Indirect),
    Fence(Fence),
    Trap(Trap),
    Semaphore(Semaphore),
    PollRegmem(PollRegmem),
    PollRegWriteMem(PollRegWriteMem),
    PollDbitWriteMem(PollDbitWriteMem),
    PollMemVerify(PollMemVerify),
    VmInvalidation(VmInvalidation),
    CondExe(CondExe),
    Atomic(Atomic),
    ConstantFill(ConstantFill),
    DataFillMulti(DataFillMulti),
    WriteIncr(WriteIncr),
    PtepdeCopy(PtepdeCopy),
    PtepdeRmw(PtepdeRmw),
    PtepdeCopyBackwards(PtepdeCopyBackwards),
    TimestampSet(TimestampSet),
    TimestampGet(TimestampGet),
    TimestampGetGlobal(TimestampGetGlobal),
    SrbmWrite(SrbmWrite),
    PreExe(PreExe),
    GpuvmInv(GpuvmInv),
    GcrReq(GcrReq),
    DummyTrap(DummyTrap),
}

impl<'pkt> Pkt<'pkt> {
    /// The bits of dword 0 that the header takes, and their value.
    pub open spec fn header(self) -> (u32, u32) {
        match self {
            Pkt::CopyLinear(p) => ((0xffffu32 | (1u32 << 27u32)), (1u32 | (0u32 << 8u32) | (0u32 << 27u32))),
            Pkt::CopyBroadcastLinear(p) => ((0xffffu32 | (1u32 << 27u32)), (1u32 | (0u32 << 8u32) | (1u32 << 27u32))),
            Pkt::CopyTiled(p) => ((0xffffu32 | (1u32 << 27u32)), (1u32 | (1u32 << 8u32) | (0u32 << 27u32))),
            Pkt::CopyL2tBroadcast(p) => ((0xffffu32 | (1u32 << 27u32)), (1u32 | (1u32 << 8u32) | (1u32 << 27u32))),
            Pkt::Nop(p) => (0xffffu32, (0u32 | (0u32 << 8u32))),
            Pkt::CopyStruct(p) => (0xffffu32, (1u32 | (3u32 << 8u32))),
            Pkt::CopyLinearSubwin(p) => (0xffffu32, (1u32 | (4u32 << 8u32))),
            Pkt::CopyTiledSubwin(p) => (0xffffu32, (1u32 | (5u32 << 8u32))),
            Pkt::CopyT2t(p) => (0xffffu32, (1u32 | (6u32 << 8u32))),
            Pkt::CopyDirtyPage(p) => (0xffffu32, (1u32 | (7u32 << 8u32))),
            Pkt::CopyPhysicalLinear(p) => (0xffffu32, (1u32 | (8u32 << 8u32))),
            Pkt::CopyLinearBc(p) => (0xffffu32, (1u32 | (16u32 << 8u32))),
            Pkt::CopyTiledBc(p) => (0xffffu32, (1u32 | (17u32 << 8u32))),
            Pkt::CopyLinearSubwinBc(p) => (0xffffu32, (1u32 | (20u32 << 8u32))),
            Pkt::CopyTiledSubwinBc(p) => (0xffffu32, (1u32 | (21u32 << 8u32))),
            Pkt::CopyT2tBc(p) => (0xffffu32, (1u32 | (22u32 << 8u32))),
            Pkt::WriteUntiled(p) => (0xffffu32, (2u32 | (0u32 << 8u32))),
            Pkt::WriteTiled(p) => (0xffffu32, (2u32 | (1u32 << 8u32))),
            Pkt::WriteTiledBc(p) => (0xffffu32, (2u32 | (17u32 << 8u32))),
            Pkt::Indirect(p) => (0xffffu32, (4u32 | (0u32 << 8u32))),
            Pkt::Fence(p) => (0xffffu32, (5u32 | (0u32 << 8u32))),
            Pkt::Trap(p) => (0xffffu32, (6u32 | (0u32 << 8u32))),
            Pkt::Semaphore(p) => (0xffffu32, (7u32 | (0u32 << 8u32))),
            Pkt::PollRegmem(p) => (0xffffu32, (8u32 | (0u32 << 8u32))),
            Pkt::PollRegWriteMem(p) => (0xffffu32, (8u32 | (1u32 << 8u32))),
            Pkt::PollDbitWriteMem(p) => (0xffffu32, (8u32 | (2u32 << 8u32))),
            Pkt::PollMemVerify(p) => (0xffffu32, (8u32 | (3u32 << 8u32))),
            Pkt::VmInvalidation(p) => (0xffffu32, (8u32 | (4u32 << 8u32))),
            Pkt::CondExe(p) => (0xffffu32, (9u32 | (0u32 << 8u32))),
            Pkt::Atomic(p) => (0xffffu32, (10u32 | (0u32 << 8u32))),
            Pkt::ConstantFill(p) => (0xffffu32, (11u32 | (0u32 << 8u32))),
            Pkt::DataFillMulti(p) => (0xffffu32, (11u32 | (1u32 << 8u32))),
            Pkt::WriteIncr(p) => (0xffffu32, (12u32 | (0u32 << 8u32))),
            Pkt::PtepdeCopy(p) => (0xffffu32, (12u32 | (1u32 << 8u32))),
            Pkt::PtepdeRmw(p) => (0xffffu32, (12u32 | (2u32 << 8u32))),
            Pkt::PtepdeCopyBackwards(p) => (0xffffu32, (12u32 | (3u32 << 8u32))),
            Pkt::TimestampSet(p) => (0xffffu32, (13u32 | (0u32 << 8u32))),
            Pkt::TimestampGet(p) => (0xffffu32, (13u32 | (1u32 << 8u32))),
            Pkt::TimestampGetGlobal(p) => (0xffffu32, (13u32 | (2u32 << 8u32))),
            Pkt::SrbmWrite(p) => (0xffffu32, (14u32 | (0u32 << 8u32))),
            Pkt::PreExe(p) => (0xffffu32, (15u32 | (0u32 << 8u32))),
            Pkt::GpuvmInv(p) => (0xffffu32, (16u32 | (0u32 << 8u32))),
            Pkt::GcrReq(p) => (0xffffu32, (17u32 | (0u32 << 8u32))),
            Pkt::DummyTrap(p) => (0xffffu32, (32u32 | (0u32 << 8u32))),
        }
    }

    pub open spec fn size(self) -> nat {
        match self {
            Pkt::CopyLinear(p) => p.size(),
            Pkt::CopyBroadcastLinear(p) => p.size(),
            Pkt::CopyTiled(p) => p.size(),
            Pkt::CopyL2tBroadcast(p) => p.size(),
            Pkt::Nop(p) => p.size(),
            Pkt::CopyStruct(p) => p.size(),
            Pkt::CopyLinearSubwin(p) => p.size(),
            Pkt::CopyTiledSubwin(p) => p.size(),
            Pkt::CopyT2t(p) => p.size(),
            Pkt::CopyDirtyPage(p) => p.size(),
            Pkt::CopyPhysicalLinear(p) => p.size(),
            Pkt::CopyLinearBc(p) => p.size(),
            Pkt::CopyTiledBc(p) => p.size(),
            Pkt::CopyLinearSubwinBc(p) => p.size(),
            Pkt::CopyTiledSubwinBc(p) => p.size(),
            Pkt::CopyT2tBc(p) => p.size(),
            Pkt::WriteUntiled(p) => p.size(),
            Pkt::WriteTiled(p) => p.size(),
            Pkt::WriteTiledBc(p) => p.size(),
            Pkt::Indirect(p) => p.size(),
            Pkt::Fence(p) => p.size(),
            Pkt::Trap(p) => p.size(),
            Pkt::Semaphore(p) => p.size(),
            Pkt::PollRegmem(p) => p.size(),
            Pkt::PollRegWriteMem(p) => p.size(),
            Pkt::PollDbitWriteMem(p) => p.size(),
            Pkt::PollMemVerify(p) => p.size(),
            Pkt::VmInvalidation(p) => p.size(),
            Pkt::CondExe(p) => p.size(),
            Pkt::Atomic(p) => p.size(),
            Pkt::ConstantFill(p) => p.size(),
            Pkt::DataFillMulti(p) => p.size(),
            Pkt::WriteIncr(p) => p.size(),
            Pkt::PtepdeCopy(p) => p.size(),
            Pkt::PtepdeRmw(p) => p.size(),
            Pkt::PtepdeCopyBackwards(p) => p.size(),
            Pkt::TimestampSet(p) => p.size(),
            Pkt::TimestampGet(p) => p.size(),
            Pkt::TimestampGetGlobal(p) => p.size(),
            Pkt::SrbmWrite(p) => p.size(),
            Pkt::PreExe(p) => p.size(),
            Pkt::GpuvmInv(p) => p.size(),
            Pkt::GcrReq(p) => p.size(),
            Pkt::DummyTrap(p) => p.size(),
        }
    }

    pub open spec fn fits(self) -> bool {
        match self {
            Pkt::CopyLinear(p) => p.fits(),
            Pkt::CopyBroadcastLinear(p) => p.fits(),
            Pkt::CopyTiled(p) => p.fits(),
            Pkt::CopyL2tBroadcast(p) => p.fits(),
            Pkt::Nop(p) => p.fits(),
            Pkt::CopyStruct(p) => p.fits(),
            Pkt::CopyLinearSubwin(p) => p.fits(),
            Pkt::CopyTiledSubwin(p) => p.fits(),
            Pkt::CopyT2t(p) => p.fits(),
            Pkt::CopyDirtyPage(p) => p.fits(),
            Pkt::CopyPhysicalLinear(p) => p.fits(),
            Pkt::CopyLinearBc(p) => p.fits(),
            Pkt::CopyTiledBc(p) => p.fits(),
            Pkt::CopyLinearSubwinBc(p) => p.fits(),
            Pkt::CopyTiledSubwinBc(p) => p.fits(),
            Pkt::CopyT2tBc(p) => p.fits(),
            Pkt::WriteUntiled(p) => p.fits(),
            Pkt::WriteTiled(p) => p.fits(),
            Pkt::WriteTiledBc(p) => p.fits(),
            Pkt::Indirect(p) => p.fits(),
            Pkt::Fence(p) => p.fits(),
            Pkt::Trap(p) => p.fits(),
            Pkt::Semaphore(p) => p.fits(),
            Pkt::PollRegmem(p) => p.fits(),
            Pkt::PollRegWriteMem(p) => p.fits(),
            Pkt::PollDbitWriteMem(p) => p.fits(),
            Pkt::PollMemVerify(p) => p.fits(),
            Pkt::VmInvalidation(p) => p.fits(),
            Pkt::CondExe(p) => p.fits(),
            Pkt::Atomic(p) => p.fits(),
            Pkt::ConstantFill(p) => p.fits(),
            Pkt::DataFillMulti(p) => p.fits(),
            Pkt::WriteIncr(p) => p.fits(),
            Pkt::PtepdeCopy(p) => p.fits(),
            Pkt::PtepdeRmw(p) => p.fits(),
            Pkt::PtepdeCopyBackwards(p) => p.fits(),
            Pkt::TimestampSet(p) => p.fits(),
            Pkt::TimestampGet(p) => p.fits(),
            Pkt::TimestampGetGlobal(p) => p.fits(),
            Pkt::SrbmWrite(p) => p.fits(),
            Pkt::PreExe(p) => p.fits(),
            Pkt::GpuvmInv(p) => p.fits(),
            Pkt::GcrReq(p) => p.fits(),
            Pkt::DummyTrap(p) => p.fits(),
        }
    }

    pub open spec fn layout_wf(self) -> bool {
        match self {
            Pkt::CopyLinear(p) => CopyLinear::layout_wf(),
            Pkt::CopyBroadcastLinear(p) => CopyBroadcastLinear::layout_wf(),
            Pkt::CopyTiled(p) => CopyTiled::layout_wf(),
            Pkt::CopyL2tBroadcast(p) => CopyL2tBroadcast::layout_wf(),
            Pkt::Nop(p) => Nop::layout_wf(),
            Pkt::CopyStruct(p) => CopyStruct::layout_wf(),
            Pkt::CopyLinearSubwin(p) => CopyLinearSubwin::layout_wf(),
            Pkt::CopyTiledSubwin(p) => CopyTiledSubwin::layout_wf(),
            Pkt::CopyT2t(p) => CopyT2t::layout_wf(),
            Pkt::CopyDirtyPage(p) => CopyDirtyPage::layout_wf(),
            Pkt::CopyPhysicalLinear(p) => CopyPhysicalLinear::layout_wf(),
            Pkt::CopyLinearBc(p) => CopyLinearBc::layout_wf(),
            Pkt::CopyTiledBc(p) => CopyTiledBc::layout_wf(),
            Pkt::CopyLinearSubwinBc(p) => CopyLinearSubwinBc::layout_wf(),
            Pkt::CopyTiledSubwinBc(p) => CopyTiledSubwinBc::layout_wf(),
            Pkt::CopyT2tBc(p) => CopyT2tBc::layout_wf(),
            Pkt::WriteUntiled(p) => WriteUntiled::layout_wf(),
            Pkt::WriteTiled(p) => WriteTiled::layout_wf(),
            Pkt::WriteTiledBc(p) => WriteTiledBc::layout_wf(),
            Pkt::Indirect(p) => Indirect::layout_wf(),
            Pkt::Fence(p) => Fence::layout_wf(),
            Pkt::Trap(p) => Trap::layout_wf(),
            Pkt::Semaphore(p) => Semaphore::layout_wf(),
            Pkt::PollRegmem(p) => PollRegmem::layout_wf(),
            Pkt::PollRegWriteMem(p) => PollRegWriteMem::layout_wf(),
            Pkt::PollDbitWriteMem(p) => PollDbitWriteMem::layout_wf(),
            Pkt::PollMemVerify(p) => PollMemVerify::layout_wf(),
            Pkt::VmInvalidation(p) => VmInvalidation::layout_wf(),
            Pkt::CondExe(p) => CondExe::layout_wf(),
            Pkt::Atomic(p) => Atomic::layout_wf(),
            Pkt::ConstantFill(p) => ConstantFill::layout_wf(),
            Pkt::DataFillMulti(p) => DataFillMulti::layout_wf(),
            Pkt::WriteIncr(p) => WriteIncr::layout_wf(),
            Pkt::PtepdeCopy(p) => PtepdeCopy::layout_wf(),
            Pkt::PtepdeRmw(p) => PtepdeRmw::layout_wf(),
            Pkt::PtepdeCopyBackwards(p) => PtepdeCopyBackwards::layout_wf(),
            Pkt::TimestampSet(p) => TimestampSet::layout_wf(),
            Pkt::TimestampGet(p) => TimestampGet::layout_wf(),
            Pkt::TimestampGetGlobal(p) => TimestampGetGlobal::layout_wf(),
            Pkt::SrbmWrite(p) => SrbmWrite::layout_wf(),
            Pkt::PreExe(p) => PreExe::layout_wf(),
            Pkt::GpuvmInv(p) => GpuvmInv::layout_wf(),
            Pkt::GcrReq(p) => GcrReq::layout_wf(),
            Pkt::DummyTrap(p) => DummyTrap::layout_wf(),
        }
    }

    /// No field of the packet is spoiled by its header.
    pub open spec fn header_compatible(self) -> bool {
        match self {
            Pkt::CopyLinear(p) => layout::header_compatible(CopyLinear::bit_fields(), p.bit_values(), CopyLinear::tail(), self.header().0, self.header().1),
            Pkt::CopyBroadcastLinear(p) => layout::header_compatible(CopyBroadcastLinear::bit_fields(), p.bit_values(), CopyBroadcastLinear::tail(), self.header().0, self.header().1),
            Pkt::CopyTiled(p) => layout::header_compatible(CopyTiled::bit_fields(), p.bit_values(), CopyTiled::tail(), self.header().0, self.header().1),
            Pkt::CopyL2tBroadcast(p) => layout::header_compatible(CopyL2tBroadcast::bit_fields(), p.bit_values(), CopyL2tBroadcast::tail(), self.header().0, self.header().1),
            Pkt::Nop(p) => layout::header_compatible(Nop::bit_fields(), p.bit_values(), Nop::tail(), self.header().0, self.header().1),
            Pkt::CopyStruct(p) => layout::header_compatible(CopyStruct::bit_fields(), p.bit_values(), CopyStruct::tail(), self.header().0, self.header().1),
            Pkt::CopyLinearSubwin(p) => layout::header_compatible(CopyLinearSubwin::bit_fields(), p.bit_values(), CopyLinearSubwin::tail(), self.header().0, self.header().1),
            Pkt::CopyTiledSubwin(p) => layout::header_compatible(CopyTiledSubwin::bit_fields(), p.bit_values(), CopyTiledSubwin::tail(), self.header().0, self.header().1),
            Pkt::CopyT2t(p) => layout::header_compatible(CopyT2t::bit_fields(), p.bit_values(), CopyT2t::tail(), self.header().0, self.header().1),
            Pkt::CopyDirtyPage(p) => layout::header_compatible(CopyDirtyPage::bit_fields(), p.bit_values(), CopyDirtyPage::tail(), self.header().0, self.header().1),
            Pkt::CopyPhysicalLinear(p) => layout::header_compatible(CopyPhysicalLinear::bit_fields(), p.bit_values(), CopyPhysicalLinear::tail(), self.header().0, self.header().1),
            Pkt::CopyLinearBc(p) => layout::header_compatible(CopyLinearBc::bit_fields(), p.bit_values(), CopyLinearBc::tail(), self.header().0, self.header().1),
            Pkt::CopyTiledBc(p) => layout::header_compatible(CopyTiledBc::bit_fields(), p.bit_values(), CopyTiledBc::tail(), self.header().0, self.header().1),
            Pkt::CopyLinearSubwinBc(p) => layout::header_compatible(CopyLinearSubwinBc::bit_fields(), p.bit_values(), CopyLinearSubwinBc::tail(), self.header().0, self.header().1),
            Pkt::CopyTiledSubwinBc(p) => layout::header_compatible(CopyTiledSubwinBc::bit_fields(), p.bit_values(), CopyTiledSubwinBc::tail(), self.header().0, self.header().1),
            Pkt::CopyT2tBc(p) => layout::header_compatible(CopyT2tBc::bit_fields(), p.bit_values(), CopyT2tBc::tail(), self.header().0, self.header().1),
            Pkt::WriteUntiled(p) => layout::header_compatible(WriteUntiled::bit_fields(), p.bit_values(), WriteUntiled::tail(), self.header().0, self.header().1),
            Pkt::WriteTiled(p) => layout::header_compatible(WriteTiled::bit_fields(), p.bit_values(), WriteTiled::tail(), self.header().0, self.header().1),
            Pkt::WriteTiledBc(p) => layout::header_compatible(WriteTiledBc::bit_fields(), p.bit_values(), WriteTiledBc::tail(), self.header().0, self.header().1),
            Pkt::Indirect(p) => layout::header_compatible(Indirect::bit_fields(), p.bit_values(), Indirect::tail(), self.header().0, self.header().1),
            Pkt::Fence(p) => layout::header_compatible(Fence::bit_fields(), p.bit_values(), Fence::tail(), self.header().0, self.header().1),
            Pkt::Trap(p) => layout::header_compatible(Trap::bit_fields(), p.bit_values(), Trap::tail(), self.header().0, self.header().1),
            Pkt::Semaphore(p) => layout::header_compatible(Semaphore::bit_fields(), p.bit_values(), Semaphore::tail(), self.header().0, self.header().1),
            Pkt::PollRegmem(p) => layout::header_compatible(PollRegmem::bit_fields(), p.bit_values(), PollRegmem::tail(), self.header().0, self.header().1),
            Pkt::PollRegWriteMem(p) => layout::header_compatible(PollRegWriteMem::bit_fields(), p.bit_values(), PollRegWriteMem::tail(), self.header().0, self.header().1),
            Pkt::PollDbitWriteMem(p) => layout::header_compatible(PollDbitWriteMem::bit_fields(), p.bit_values(), PollDbitWriteMem::tail(), self.header().0, self.header().1),
            Pkt::PollMemVerify(p) => layout::header_compatible(PollMemVerify::bit_fields(), p.bit_values(), PollMemVerify::tail(), self.header().0, self.header().1),
            Pkt::VmInvalidation(p) => layout::header_compatible(VmInvalidation::bit_fields(), p.bit_values(), VmInvalidation::tail(), self.header().0, self.header().1),
            Pkt::CondExe(p) => layout::header_compatible(CondExe::bit_fields(), p.bit_values(), CondExe::tail(), self.header().0, self.header().1),
            Pkt::Atomic(p) => layout::header_compatible(Atomic::bit_fields(), p.bit_values(), Atomic::tail(), self.header().0, self.header().1),
            Pkt::ConstantFill(p) => layout::header_compatible(ConstantFill::bit_fields(), p.bit_values(), ConstantFill::tail(), self.header().0, self.header().1),
            Pkt::DataFillMulti(p) => layout::header_compatible(DataFillMulti::bit_fields(), p.bit_values(), DataFillMulti::tail(), self.header().0, self.header().1),
            Pkt::WriteIncr(p) => layout::header_compatible(WriteIncr::bit_fields(), p.bit_values(), WriteIncr::tail(), self.header().0, self.header().1),
            Pkt::PtepdeCopy(p) => layout::header_compatible(PtepdeCopy::bit_fields(), p.bit_values(), PtepdeCopy::tail(), self.header().0, self.header().1),
            Pkt::PtepdeRmw(p) => layout::header_compatible(PtepdeRmw::bit_fields(), p.bit_values(), PtepdeRmw::tail(), self.header().0, self.header().1),
            Pkt::PtepdeCopyBackwards(p) => layout::header_compatible(PtepdeCopyBackwards::bit_fields(), p.bit_values(), PtepdeCopyBackwards::tail(), self.header().0, self.header().1),
            Pkt::TimestampSet(p) => layout::header_compatible(TimestampSet::bit_fields(), p.bit_values(), TimestampSet::tail(), self.header().0, self.header().1),
            Pkt::TimestampGet(p) => layout::header_compatible(TimestampGet::bit_fields(), p.bit_values(), TimestampGet::tail(), self.header().0, self.header().1),
            Pkt::TimestampGetGlobal(p) => layout::header_compatible(TimestampGetGlobal::bit_fields(), p.bit_values(), TimestampGetGlobal::tail(), self.header().0, self.header().1),
            Pkt::SrbmWrite(p) => layout::header_compatible(SrbmWrite::bit_fields(), p.bit_values(), SrbmWrite::tail(), self.header().0, self.header().1),
            Pkt::PreExe(p) => layout::header_compatible(PreExe::bit_fields(), p.bit_values(), PreExe::tail(), self.header().0, self.header().1),
            Pkt::GpuvmInv(p) => layout::header_compatible(GpuvmInv::bit_fields(), p.bit_values(), GpuvmInv::tail(), self.header().0, self.header().1),
            Pkt::GcrReq(p) => layout::header_compatible(GcrReq::bit_fields(), p.bit_values(), GcrReq::tail(), self.header().0, self.header().1),
            Pkt::DummyTrap(p) => layout::header_compatible(DummyTrap::bit_fields(), p.bit_values(), DummyTrap::tail(), self.header().0, self.header().1),
        }
    }

    pub open spec fn spec_encode(self, buf: Seq<u32>) -> Seq<u32> {
        match self {
            Pkt::CopyLinear(p) => layout::write_header(p.spec_encode(buf), self.header().0, self.header().1),
            Pkt::CopyBroadcastLinear(p) => layout::write_header(p.spec_encode(buf), self.header().0, self.header().1),
            Pkt::CopyTiled(p) => layout::write_header(p.spec_encode(buf), self.header().0, self.header().1),
            Pkt::CopyL2tBroadcast(p) => layout::write_header(p.spec_encode(buf), self.header().0, self.header().1),
            Pkt::Nop(p) => layout::write_header(p.spec_encode(buf), self.header().0, self.header().1),
            Pkt::CopyStruct(p) => layout::write_header(p.spec_encode(buf), self.header().0, self.header().1),
            Pkt::CopyLinearSubwin(p) => layout::write_header(p.spec_encode(buf), self.header().0, self.header().1),
            Pkt::CopyTiledSubwin(p) => layout::write_header(p.spec_encode(buf), self.header().0, self.header().1),
            Pkt::CopyT2t(p) => layout::write_header(p.spec_encode(buf), self.header().0, self.header().1),
            Pkt::CopyDirtyPage(p) => layout::write_header(p.spec_encode(buf), self.header().0, self.header().1),
            Pkt::CopyPhysicalLinear(p) => layout::write_header(p.spec_encode(buf), self.header().0, self.header().1),
            Pkt::CopyLinearBc(p) => layout::write_header(p.spec_encode(buf), self.header().0, self.header().1),
            Pkt::CopyTiledBc(p) => layout::write_header(p.spec_encode(buf), self.header().0, self.header().1),
            Pkt::CopyLinearSubwinBc(p) => layout::write_header(p.spec_encode(buf), self.header().0, self.header().1),
            Pkt::CopyTiledSubwinBc(p) => layout::write_header(p.spec_encode(buf), self.header().0, self.header().1),
            Pkt::CopyT2tBc(p) => layout::write_header(p.spec_encode(buf), self.header().0, self.header().1),
            Pkt::WriteUntiled(p) => layout::write_header(p.spec_encode(buf), self.header().0, self.header().1),
            Pkt::WriteTiled(p) => layout::write_header(p.spec_encode(buf), self.header().0, self.header().1),
            Pkt::WriteTiledBc(p) => layout::write_header(p.spec_encode(buf), self.header().0, self.header().1),
            Pkt::Indirect(p) => layout::write_header(p.spec_encode(buf), self.header().0, self.header().1),
            Pkt::Fence(p) => layout::write_header(p.spec_encode(buf), self.header().0, self.header().1),
            Pkt::Trap(p) => layout::write_header(p.spec_encode(buf), self.header().0, self.header().1),
            Pkt::Semaphore(p) => layout::write_header(p.spec_encode(buf), self.header().0, self.header().1),
            Pkt::PollRegmem(p) => layout::write_header(p.spec_encode(buf), self.header().0, self.header().1),
            Pkt::PollRegWriteMem(p) => layout::write_header(p.spec_encode(buf), self.header().0, self.header().1),
            Pkt::PollDbitWriteMem(p) => layout::write_header(p.spec_encode(buf), self.header().0, self.header().1),
            Pkt::PollMemVerify(p) => layout::write_header(p.spec_encode(buf), self.header().0, self.header().1),
            Pkt::VmInvalidation(p) => layout::write_header(p.spec_encode(buf), self.header().0, self.header().1),
            Pkt::CondExe(p) => layout::write_header(p.spec_encode(buf), self.header().0, self.header().1),
            Pkt::Atomic(p) => layout::write_header(p.spec_encode(buf), self.header().0, self.header().1),
            Pkt::ConstantFill(p) => layout::write_header(p.spec_encode(buf), self.header().0, self.header().1),
            Pkt::DataFillMulti(p) => layout::write_header(p.spec_encode(buf), self.header().0, self.header().1),
            Pkt::WriteIncr(p) => layout::write_header(p.spec_encode(buf), self.header().0, self.header().1),
            Pkt::PtepdeCopy(p) => layout::write_header(p.spec_encode(buf), self.header().0, self.header().1),
            Pkt::PtepdeRmw(p) => layout::write_header(p.spec_encode(buf), self.header().0, self.header().1),
            Pkt::PtepdeCopyBackwards(p) => layout::write_header(p.spec_encode(buf), self.header().0, self.header().1),
            Pkt::TimestampSet(p) => layout::write_header(p.spec_encode(buf), self.header().0, self.header().1),
            Pkt::TimestampGet(p) => layout::write_header(p.spec_encode(buf), self.header().0, self.header().1),
            Pkt::TimestampGetGlobal(p) => layout::write_header(p.spec_encode(buf), self.header().0, self.header().1),
            Pkt::SrbmWrite(p) => layout::write_header(p.spec_encode(buf), self.header().0, self.header().1),
            Pkt::PreExe(p) => layout::write_header(p.spec_encode(buf), self.header().0, self.header().1),
            Pkt::GpuvmInv(p) => layout::write_header(p.spec_encode(buf), self.header().0, self.header().1),
            Pkt::GcrReq(p) => layout::write_header(p.spec_encode(buf), self.header().0, self.header().1),
            Pkt::DummyTrap(p) => layout::write_header(p.spec_encode(buf), self.header().0, self.header().1),
        }
    }

    /// `buf` starts with this packet, header included.
    pub open spec fn read_from(self, buf: Seq<u32>) -> bool {
        buf.len() > 0 && {
            let h = buf[0];
            match self {
                Pkt::CopyLinear(p) => layout::header_op(h) == 1 && layout::header_subop(h) == 0 && layout::header_extra(h) == 0 && p.read_from(buf),
                Pkt::CopyBroadcastLinear(p) => layout::header_op(h) == 1 && layout::header_subop(h) == 0 && layout::header_extra(h) == 1 && p.read_from(buf),
                Pkt::CopyTiled(p) => layout::header_op(h) == 1 && layout::header_subop(h) == 1 && layout::header_extra(h) == 0 && p.read_from(buf),
                Pkt::CopyL2tBroadcast(p) => layout::header_op(h) == 1 && layout::header_subop(h) == 1 && layout::header_extra(h) == 1 && p.read_from(buf),
                Pkt::Nop(p) => layout::header_op(h) == 0 && layout::header_subop(h) == 0 && p.read_from(buf),
                Pkt::CopyStruct(p) => layout::header_op(h) == 1 && layout::header_subop(h) == 3 && p.read_from(buf),
                Pkt::CopyLinearSubwin(p) => layout::header_op(h) == 1 && layout::header_subop(h) == 4 && p.read_from(buf),
                Pkt::CopyTiledSubwin(p) => layout::header_op(h) == 1 && layout::header_subop(h) == 5 && p.read_from(buf),
                Pkt::CopyT2t(p) => layout::header_op(h) == 1 && layout::header_subop(h) == 6 && p.read_from(buf),
                Pkt::CopyDirtyPage(p) => layout::header_op(h) == 1 && layout::header_subop(h) == 7 && p.read_from(buf),
                Pkt::CopyPhysicalLinear(p) => layout::header_op(h) == 1 && layout::header_subop(h) == 8 && p.read_from(buf),
                Pkt::CopyLinearBc(p) => layout::header_op(h) == 1 && layout::header_subop(h) == 16 && p.read_from(buf),
                Pkt::CopyTiledBc(p) => layout::header_op(h) == 1 && layout::header_subop(h) == 17 && p.read_from(buf),
                Pkt::CopyLinearSubwinBc(p) => layout::header_op(h) == 1 && layout::header_subop(h) == 20 && p.read_from(buf),
                Pkt::CopyTiledSubwinBc(p) => layout::header_op(h) == 1 && layout::header_subop(h) == 21 && p.read_from(buf),
                Pkt::CopyT2tBc(p) => layout::header_op(h) == 1 && layout::header_subop(h) == 22 && p.read_from(buf),
                Pkt::WriteUntiled(p) => layout::header_op(h) == 2 && layout::header_subop(h) == 0 && p.read_from(buf),
                Pkt::WriteTiled(p) => layout::header_op(h) == 2 && layout::header_subop(h) == 1 && p.read_from(buf),
                Pkt::WriteTiledBc(p) => layout::header_op(h) == 2 && layout::header_subop(h) == 17 && p.read_from(buf),
                Pkt::Indirect(p) => layout::header_op(h) == 4 && layout::header_subop(h) == 0 && p.read_from(buf),
                Pkt::Fence(p) => layout::header_op(h) == 5 && layout::header_subop(h) == 0 && p.read_from(buf),
                Pkt::Trap(p) => layout::header_op(h) == 6 && layout::header_subop(h) == 0 && p.read_from(buf),
                Pkt::Semaphore(p) => layout::header_op(h) == 7 && layout::header_subop(h) == 0 && p.read_from(buf),
                Pkt::PollRegmem(p) => layout::header_op(h) == 8 && layout::header_subop(h) == 0 && p.read_from(buf),
                Pkt::PollRegWriteMem(p) => layout::header_op(h) == 8 && layout::header_subop(h) == 1 && p.read_from(buf),
                Pkt::PollDbitWriteMem(p) => layout::header_op(h) == 8 && layout::header_subop(h) == 2 && p.read_from(buf),
                Pkt::PollMemVerify(p) => layout::header_op(h) == 8 && layout::header_subop(h) == 3 && p.read_from(buf),
                Pkt::VmInvalidation(p) => layout::header_op(h) == 8 && layout::header_subop(h) == 4 && p.read_from(buf),
                Pkt::CondExe(p) => layout::header_op(h) == 9 && layout::header_subop(h) == 0 && p.read_from(buf),
                Pkt::Atomic(p) => layout::header_op(h) == 10 && layout::header_subop(h) == 0 && p.read_from(buf),
                Pkt::ConstantFill(p) => layout::header_op(h) == 11 && layout::header_subop(h) == 0 && p.read_from(buf),
                Pkt::DataFillMulti(p) => layout::header_op(h) == 11 && layout::header_subop(h) == 1 && p.read_from(buf),
                Pkt::WriteIncr(p) => layout::header_op(h) == 12 && layout::header_subop(h) == 0 && p.read_from(buf),
                Pkt::PtepdeCopy(p) => layout::header_op(h) == 12 && layout::header_subop(h) == 1 && p.read_from(buf),
                Pkt::PtepdeRmw(p) => layout::header_op(h) == 12 && layout::header_subop(h) == 2 && p.read_from(buf),
                Pkt::PtepdeCopyBackwards(p) => layout::header_op(h) == 12 && layout::header_subop(h) == 3 && p.read_from(buf),
                Pkt::TimestampSet(p) => layout::header_op(h) == 13 && layout::header_subop(h) == 0 && p.read_from(buf),
                Pkt::TimestampGet(p) => layout::header_op(h) == 13 && layout::header_subop(h) == 1 && p.read_from(buf),
                Pkt::TimestampGetGlobal(p) => layout::header_op(h) == 13 && layout::header_subop(h) == 2 && p.read_from(buf),
                Pkt::SrbmWrite(p) => layout::header_op(h) == 14 && layout::header_subop(h) == 0 && p.read_from(buf),
                Pkt::PreExe(p) => layout::header_op(h) == 15 && layout::header_subop(h) == 0 && p.read_from(buf),
                Pkt::GpuvmInv(p) => layout::header_op(h) == 16 && layout::header_subop(h) == 0 && p.read_from(buf),
                Pkt::GcrReq(p) => layout::header_op(h) == 17 && layout::header_subop(h) == 0 && p.read_from(buf),
                Pkt::DummyTrap(p) => layout::header_op(h) == 32 && layout::header_subop(h) == 0 && p.read_from(buf),
            }
        }
    }

    /// The buffer starts with a header this version knows and holds the
    /// whole packet it announces.
    pub open spec fn decodable(buf: Seq<u32>) -> bool {
        buf.len() > 0 && {
            let h = buf[0];
            if layout::header_op(h) == 1 && layout::header_subop(h) == 0 {
                if layout::header_extra(h) == 0 {
                    CopyLinear::decodable(buf)
                } else if layout::header_extra(h) == 1 {
                    CopyBroadcastLinear::decodable(buf)
                } else {
                    false
                }
            } else if layout::header_op(h) == 1 && layout::header_subop(h) == 1 {
                if layout::header_extra(h) == 0 {
                    CopyTiled::decodable(buf)
                } else if layout::header_extra(h) == 1 {
                    CopyL2tBroadcast::decodable(buf)
                } else {
                    false
                }
            } else if layout::header_op(h) == 0 && layout::header_subop(h) == 0 {
                Nop::decodable(buf)
            } else if layout::header_op(h) == 1 && layout::header_subop(h) == 3 {
                CopyStruct::decodable(buf)
            } else if layout::header_op(h) == 1 && layout::header_subop(h) == 4 {
                CopyLinearSubwin::decodable(buf)
            } else if layout::header_op(h) == 1 && layout::header_subop(h) == 5 {
                CopyTiledSubwin::decodable(buf)
            } else if layout::header_op(h) == 1 && layout::header_subop(h) == 6 {
                CopyT2t::decodable(buf)
            } else if layout::header_op(h) == 1 && layout::header_subop(h) == 7 {
                CopyDirtyPage::decodable(buf)
            } else if layout::header_op(h) == 1 && layout::header_subop(h) == 8 {
                CopyPhysicalLinear::decodable(buf)
            } else if layout::header_op(h) == 1 && layout::header_subop(h) == 16 {
                CopyLinearBc::decodable(buf)
            } else if layout::header_op(h) == 1 && layout::header_subop(h) == 17 {
                CopyTiledBc::decodable(buf)
            } else if layout::header_op(h) == 1 && layout::header_subop(h) == 20 {
                CopyLinearSubwinBc::decodable(buf)
            } else if layout::header_op(h) == 1 && layout::header_subop(h) == 21 {
                CopyTiledSubwinBc::decodable(buf)
            } else if layout::header_op(h) == 1 && layout::header_subop(h) == 22 {
                CopyT2tBc::decodable(buf)
            } else if layout::header_op(h) == 2 && layout::header_subop(h) == 0 {
                WriteUntiled::decodable(buf)
            } else if layout::header_op(h) == 2 && layout::header_subop(h) == 1 {
                WriteTiled::decodable(buf)
            } else if layout::header_op(h) == 2 && layout::header_subop(h) == 17 {
                WriteTiledBc::decodable(buf)
            } else if layout::header_op(h) == 4 && layout::header_subop(h) == 0 {
                Indirect::decodable(buf)
            } else if layout::header_op(h) == 5 && layout::header_subop(h) == 0 {
                Fence::decodable(buf)
            } else if layout::header_op(h) == 6 && layout::header_subop(h) == 0 {
                Trap::decodable(buf)
            } else if layout::header_op(h) == 7 && layout::header_subop(h) == 0 {
                Semaphore::decodable(buf)
            } else if layout::header_op(h) == 8 && layout::header_subop(h) == 0 {
                PollRegmem::decodable(buf)
            } else if layout::header_op(h) == 8 && layout::header_subop(h) == 1 {
                PollRegWriteMem::decodable(buf)
            } else if layout::header_op(h) == 8 && layout::header_subop(h) == 2 {
                PollDbitWriteMem::decodable(buf)
            } else if layout::header_op(h) == 8 && layout::header_subop(h) == 3 {
                PollMemVerify::decodable(buf)
            } else if layout::header_op(h) == 8 && layout::header_subop(h) == 4 {
                VmInvalidation::decodable(buf)
            } else if layout::header_op(h) == 9 && layout::header_subop(h) == 0 {
                CondExe::decodable(buf)
            } else if layout::header_op(h) == 10 && layout::header_subop(h) == 0 {
                Atomic::decodable(buf)
            } else if layout::header_op(h) == 11 && layout::header_subop(h) == 0 {
                ConstantFill::decodable(buf)
            } else if layout::header_op(h) == 11 && layout::header_subop(h) == 1 {
                DataFillMulti::decodable(buf)
            } else if layout::header_op(h) == 12 && layout::header_subop(h) == 0 {
                WriteIncr::decodable(buf)
            } else if layout::header_op(h) == 12 && layout::header_subop(h) == 1 {
                PtepdeCopy::decodable(buf)
            } else if layout::header_op(h) == 12 && layout::header_subop(h) == 2 {
                PtepdeRmw::decodable(buf)
            } else if layout::header_op(h) == 12 && layout::header_subop(h) == 3 {
                PtepdeCopyBackwards::decodable(buf)
            } else if layout::header_op(h) == 13 && layout::header_subop(h) == 0 {
                TimestampSet::decodable(buf)
            } else if layout::header_op(h) == 13 && layout::header_subop(h) == 1 {
                TimestampGet::decodable(buf)
            } else if layout::header_op(h) == 13 && layout::header_subop(h) == 2 {
                TimestampGetGlobal::decodable(buf)
            } else if layout::header_op(h) == 14 && layout::header_subop(h) == 0 {
                SrbmWrite::decodable(buf)
            } else if layout::header_op(h) == 15 && layout::header_subop(h) == 0 {
                PreExe::decodable(buf)
            } else if layout::header_op(h) == 16 && layout::header_subop(h) == 0 {
                GpuvmInv::decodable(buf)
            } else if layout::header_op(h) == 17 && layout::header_subop(h) == 0 {
                GcrReq::decodable(buf)
            } else if layout::header_op(h) == 32 && layout::header_subop(h) == 0 {
                DummyTrap::decodable(buf)
            } else {
                false
            }
        }
    }

    /// Writes the packet, header included, to the start of `buff` and
    /// returns how many dwords it took.
    pub fn encode_linear(&self, buff: &mut [u32]) -> (n: usize)
        requires
            old(buff)@.len() >= self.size(),
            self.fits(),
        ensures
            n == self.size(),
            final(buff)@ == self.spec_encode(old(buff)@),
    {
        match self {
            Pkt::CopyLinear(p) => {
                let n = p.partial_encode_linear(buff);
                put_header(buff, (0xffffu32 | (1u32 << 27u32)), (1u32 | (0u32 << 8u32) | (0u32 << 27u32)));
                n
            },
            Pkt::CopyBroadcastLinear(p) => {
                let n = p.partial_encode_linear(buff);
                put_header(buff, (0xffffu32 | (1u32 << 27u32)), (1u32 | (0u32 << 8u32) | (1u32 << 27u32)));
                n
            },
            Pkt::CopyTiled(p) => {
                let n = p.partial_encode_linear(buff);
                put_header(buff, (0xffffu32 | (1u32 << 27u32)), (1u32 | (1u32 << 8u32) | (0u32 << 27u32)));
                n
            },
            Pkt::CopyL2tBroadcast(p) => {
                let n = p.partial_encode_linear(buff);
                put_header(buff, (0xffffu32 | (1u32 << 27u32)), (1u32 | (1u32 << 8u32) | (1u32 << 27u32)));
                n
            },
            Pkt::Nop(p) => {
                let n = p.partial_encode_linear(buff);
                put_header(buff, 0xffffu32, (0u32 | (0u32 << 8u32)));
                n
            },
            Pkt::CopyStruct(p) => {
                let n = p.partial_encode_linear(buff);
                put_header(buff, 0xffffu32, (1u32 | (3u32 << 8u32)));
                n
            },
            Pkt::CopyLinearSubwin(p) => {
                let n = p.partial_encode_linear(buff);
                put_header(buff, 0xffffu32, (1u32 | (4u32 << 8u32)));
                n
            },
            Pkt::CopyTiledSubwin(p) => {
                let n = p.partial_encode_linear(buff);
                put_header(buff, 0xffffu32, (1u32 | (5u32 << 8u32)));
                n
            },
            Pkt::CopyT2t(p) => {
                let n = p.partial_encode_linear(buff);
                put_header(buff, 0xffffu32, (1u32 | (6u32 << 8u32)));
                n
            },
            Pkt::CopyDirtyPage(p) => {
                let n = p.partial_encode_linear(buff);
                put_header(buff, 0xffffu32, (1u32 | (7u32 << 8u32)));
                n
            },
            Pkt::CopyPhysicalLinear(p) => {
                let n = p.partial_encode_linear(buff);
                put_header(buff, 0xffffu32, (1u32 | (8u32 << 8u32)));
                n
            },
            Pkt::CopyLinearBc(p) => {
                let n = p.partial_encode_linear(buff);
                put_header(buff, 0xffffu32, (1u32 | (16u32 << 8u32)));
                n
            },
            Pkt::CopyTiledBc(p) => {
                let n = p.partial_encode_linear(buff);
                put_header(buff, 0xffffu32, (1u32 | (17u32 << 8u32)));
                n
            },
            Pkt::CopyLinearSubwinBc(p) => {
                let n = p.partial_encode_linear(buff);
                put_header(buff, 0xffffu32, (1u32 | (20u32 << 8u32)));
                n
            },
            Pkt::CopyTiledSubwinBc(p) => {
                let n = p.partial_encode_linear(buff);
                put_header(buff, 0xffffu32, (1u32 | (21u32 << 8u32)));
                n
            },
            Pkt::CopyT2tBc(p) => {
                let n = p.partial_encode_linear(buff);
                put_header(buff, 0xffffu32, (1u32 | (22u32 << 8u32)));
                n
            },
            Pkt::WriteUntiled(p) => {
                let n = p.partial_encode_linear(buff);
                put_header(buff, 0xffffu32, (2u32 | (0u32 << 8u32)));
                n
            },
            Pkt::WriteTiled(p) => {
                let n = p.partial_encode_linear(buff);
                put_header(buff, 0xffffu32, (2u32 | (1u32 << 8u32)));
                n
            },
            Pkt::WriteTiledBc(p) => {
                let n = p.partial_encode_linear(buff);
                put_header(buff, 0xffffu32, (2u32 | (17u32 << 8u32)));
                n
            },
            Pkt::Indirect(p) => {
                let n = p.partial_encode_linear(buff);
                put_header(buff, 0xffffu32, (4u32 | (0u32 << 8u32)));
                n
            },
            Pkt::Fence(p) => {
                let n = p.partial_encode_linear(buff);
                put_header(buff, 0xffffu32, (5u32 | (0u32 << 8u32)));
                n
            },
            Pkt::Trap(p) => {
                let n = p.partial_encode_linear(buff);
                put_header(buff, 0xffffu32, (6u32 | (0u32 << 8u32)));
                n
            },
            Pkt::Semaphore(p) => {
                let n = p.partial_encode_linear(buff);
                put_header(buff, 0xffffu32, (7u32 | (0u32 << 8u32)));
                n
            },
            Pkt::PollRegmem(p) => {
                let n = p.partial_encode_linear(buff);
                put_header(buff, 0xffffu32, (8u32 | (0u32 << 8u32)));
                n
            },
            Pkt::PollRegWriteMem(p) => {
                let n = p.partial_encode_linear(buff);
                put_header(buff, 0xffffu32, (8u32 | (1u32 << 8u32)));
                n
            },
            Pkt::PollDbitWriteMem(p) => {
                let n = p.partial_encode_linear(buff);
                put_header(buff, 0xffffu32, (8u32 | (2u32 << 8u32)));
                n
            },
            Pkt::PollMemVerify(p) => {
                let n = p.partial_encode_linear(buff);
                put_header(buff, 0xffffu32, (8u32 | (3u32 << 8u32)));
                n
            },
            Pkt::VmInvalidation(p) => {
                let n = p.partial_encode_linear(buff);
                put_header(buff, 0xffffu32, (8u32 | (4u32 << 8u32)));
                n
            },
            Pkt::CondExe(p) => {
                let n = p.partial_encode_linear(buff);
                put_header(buff, 0xffffu32, (9u32 | (0u32 << 8u32)));
                n
            },
            Pkt::Atomic(p) => {
                let n = p.partial_encode_linear(buff);
                put_header(buff, 0xffffu32, (10u32 | (0u32 << 8u32)));
                n
            },
            Pkt::ConstantFill(p) => {
                let n = p.partial_encode_linear(buff);
                put_header(buff, 0xffffu32, (11u32 | (0u32 << 8u32)));
                n
            },
            Pkt::DataFillMulti(p) => {
                let n = p.partial_encode_linear(buff);
                put_header(buff, 0xffffu32, (11u32 | (1u32 << 8u32)));
                n
            },
            Pkt::WriteIncr(p) => {
                let n = p.partial_encode_linear(buff);
                put_header(buff, 0xffffu32, (12u32 | (0u32 << 8u32)));
                n
            },
            Pkt::PtepdeCopy(p) => {
                let n = p.partial_encode_linear(buff);
                put_header(buff, 0xffffu32, (12u32 | (1u32 << 8u32)));
                n
            },
            Pkt::PtepdeRmw(p) => {
                let n = p.partial_encode_linear(buff);
                put_header(buff, 0xffffu32, (12u32 | (2u32 << 8u32)));
                n
            },
            Pkt::PtepdeCopyBackwards(p) => {
                let n = p.partial_encode_linear(buff);
                put_header(buff, 0xffffu32, (12u32 | (3u32 << 8u32)));
                n
            },
            Pkt::TimestampSet(p) => {
                let n = p.partial_encode_linear(buff);
                put_header(buff, 0xffffu32, (13u32 | (0u32 << 8u32)));
                n
            },
            Pkt::TimestampGet(p) => {
                let n = p.partial_encode_linear(buff);
                put_header(buff, 0xffffu32, (13u32 | (1u32 << 8u32)));
                n
            },
            Pkt::TimestampGetGlobal(p) => {
                let n = p.partial_encode_linear(buff);
                put_header(buff, 0xffffu32, (13u32 | (2u32 << 8u32)));
                n
            },
            Pkt::SrbmWrite(p) => {
                let n = p.partial_encode_linear(buff);
                put_header(buff, 0xffffu32, (14u32 | (0u32 << 8u32)));
                n
            },
            Pkt::PreExe(p) => {
                let n = p.partial_encode_linear(buff);
                put_header(buff, 0xffffu32, (15u32 | (0u32 << 8u32)));
                n
            },
            Pkt::GpuvmInv(p) => {
                let n = p.partial_encode_linear(buff);
                put_header(buff, 0xffffu32, (16u32 | (0u32 << 8u32)));
                n
            },
            Pkt::GcrReq(p) => {
                let n = p.partial_encode_linear(buff);
                put_header(buff, 0xffffu32, (17u32 | (0u32 << 8u32)));
                n
            },
            Pkt::DummyTrap(p) => {
                let n = p.partial_encode_linear(buff);
                put_header(buff, 0xffffu32, (32u32 | (0u32 << 8u32)));
                n
            },
        }
    }

    /// Reads the packet at the start of `buff`, whichever it is, and returns
    /// how many dwords it took.
    pub fn decode_linear(buff: &'pkt [u32]) -> (r: Option<(usize, Pkt<'pkt>)>)
        requires
            Self::decodable(buff@),
        ensures
            r matches Some((n, p)) && n == p.size() && p.read_from(buff@),
    {
        let header = buff[0];
        let op = header & 0xff;
        let subop = (header >> 8) & 0xff;
        if op == 1 && subop == 0 {
            let extra = (header >> 27) & 1;
            if extra == 0 {
                let (n, p) = CopyLinear::partial_decode_linear(buff);
                Some((n, Pkt::CopyLinear(p)))
            } else if extra == 1 {
                let (n, p) = CopyBroadcastLinear::partial_decode_linear(buff);
                Some((n, Pkt::CopyBroadcastLinear(p)))
            } else {
                None
            }
        } else if op == 1 && subop == 1 {
            let extra = (header >> 27) & 1;
            if extra == 0 {
                let (n, p) = CopyTiled::partial_decode_linear(buff);
                Some((n, Pkt::CopyTiled(p)))
            } else if extra == 1 {
                let (n, p) = CopyL2tBroadcast::partial_decode_linear(buff);
                Some((n, Pkt::CopyL2tBroadcast(p)))
            } else {
                None
            }
        } else if op == 0 && subop == 0 {
            let (n, p) = Nop::partial_decode_linear(buff);
            Some((n, Pkt::Nop(p)))
        } else if op == 1 && subop == 3 {
            let (n, p) = CopyStruct::partial_decode_linear(buff);
            Some((n, Pkt::CopyStruct(p)))
        } else if op == 1 && subop == 4 {
            let (n, p) = CopyLinearSubwin::partial_decode_linear(buff);
            Some((n, Pkt::CopyLinearSubwin(p)))
        } else if op == 1 && subop == 5 {
            let (n, p) = CopyTiledSubwin::partial_decode_linear(buff);
            Some((n, Pkt::CopyTiledSubwin(p)))
        } else if op == 1 && subop == 6 {
            let (n, p) = CopyT2t::partial_decode_linear(buff);
            Some((n, Pkt::CopyT2t(p)))
        } else if op == 1 && subop == 7 {
            let (n, p) = CopyDirtyPage::partial_decode_linear(buff);
            Some((n, Pkt::CopyDirtyPage(p)))
        } else if op == 1 && subop == 8 {
            let (n, p) = CopyPhysicalLinear::partial_decode_linear(buff);
            Some((n, Pkt::CopyPhysicalLinear(p)))
        } else if op == 1 && subop == 16 {
            let (n, p) = CopyLinearBc::partial_decode_linear(buff);
            Some((n, Pkt::CopyLinearBc(p)))
        } else if op == 1 && subop == 17 {
            let (n, p) = CopyTiledBc::partial_decode_linear(buff);
            Some((n, Pkt::CopyTiledBc(p)))
        } else if op == 1 && subop == 20 {
            let (n, p) = CopyLinearSubwinBc::partial_decode_linear(buff);
            Some((n, Pkt::CopyLinearSubwinBc(p)))
        } else if op == 1 && subop == 21 {
            let (n, p) = CopyTiledSubwinBc::partial_decode_linear(buff);
            Some((n, Pkt::CopyTiledSubwinBc(p)))
        } else if op == 1 && subop == 22 {
            let (n, p) = CopyT2tBc::partial_decode_linear(buff);
            Some((n, Pkt::CopyT2tBc(p)))
        } else if op == 2 && subop == 0 {
            let (n, p) = WriteUntiled::partial_decode_linear(buff);
            Some((n, Pkt::WriteUntiled(p)))
        } else if op == 2 && subop == 1 {
            let (n, p) = WriteTiled::partial_decode_linear(buff);
            Some((n, Pkt::WriteTiled(p)))
        } else if op == 2 && subop == 17 {
            let (n, p) = WriteTiledBc::partial_decode_linear(buff);
            Some((n, Pkt::WriteTiledBc(p)))
        } else if op == 4 && subop == 0 {
            let (n, p) = Indirect::partial_decode_linear(buff);
            Some((n, Pkt::Indirect(p)))
        } else if op == 5 && subop == 0 {
            let (n, p) = Fence::partial_decode_linear(buff);
            Some((n, Pkt::Fence(p)))
        } else if op == 6 && subop == 0 {
            let (n, p) = Trap::partial_decode_linear(buff);
            Some((n, Pkt::Trap(p)))
        } else if op == 7 && subop == 0 {
            let (n, p) = Semaphore::partial_decode_linear(buff);
            Some((n, Pkt::Semaphore(p)))
        } else if op == 8 && subop == 0 {
            let (n, p) = PollRegmem::partial_decode_linear(buff);
            Some((n, Pkt::PollRegmem(p)))
        } else if op == 8 && subop == 1 {
            let (n, p) = PollRegWriteMem::partial_decode_linear(buff);
            Some((n, Pkt::PollRegWriteMem(p)))
        } else if op == 8 && subop == 2 {
            let (n, p) = PollDbitWriteMem::partial_decode_linear(buff);
            Some((n, Pkt::PollDbitWriteMem(p)))
        } else if op == 8 && subop == 3 {
            let (n, p) = PollMemVerify::partial_decode_linear(buff);
            Some((n, Pkt::PollMemVerify(p)))
        } else if op == 8 && subop == 4 {
            let (n, p) = VmInvalidation::partial_decode_linear(buff);
            Some((n, Pkt::VmInvalidation(p)))
        } else if op == 9 && subop == 0 {
            let (n, p) = CondExe::partial_decode_linear(buff);
            Some((n, Pkt::CondExe(p)))
        } else if op == 10 && subop == 0 {
            let (n, p) = Atomic::partial_decode_linear(buff);
            Some((n, Pkt::Atomic(p)))
        } else if op == 11 && subop == 0 {
            let (n, p) = ConstantFill::partial_decode_linear(buff);
            Some((n, Pkt::ConstantFill(p)))
        } else if op == 11 && subop == 1 {
            let (n, p) = DataFillMulti::partial_decode_linear(buff);
            Some((n, Pkt::DataFillMulti(p)))
        } else if op == 12 && subop == 0 {
            let (n, p) = WriteIncr::partial_decode_linear(buff);
            Some((n, Pkt::WriteIncr(p)))
        } else if op == 12 && subop == 1 {
            let (n, p) = PtepdeCopy::partial_decode_linear(buff);
            Some((n, Pkt::PtepdeCopy(p)))
        } else if op == 12 && subop == 2 {
            let (n, p) = PtepdeRmw::partial_decode_linear(buff);
            Some((n, Pkt::PtepdeRmw(p)))
        } else if op == 12 && subop == 3 {
            let (n, p) = PtepdeCopyBackwards::partial_decode_linear(buff);
            Some((n, Pkt::PtepdeCopyBackwards(p)))
        } else if op == 13 && subop == 0 {
            let (n, p) = TimestampSet::partial_decode_linear(buff);
            Some((n, Pkt::TimestampSet(p)))
        } else if op == 13 && subop == 1 {
            let (n, p) = TimestampGet::partial_decode_linear(buff);
            Some((n, Pkt::TimestampGet(p)))
        } else if op == 13 && subop == 2 {
            let (n, p) = TimestampGetGlobal::partial_decode_linear(buff);
            Some((n, Pkt::TimestampGetGlobal(p)))
        } else if op == 14 && subop == 0 {
            let (n, p) = SrbmWrite::partial_decode_linear(buff);
            Some((n, Pkt::SrbmWrite(p)))
        } else if op == 15 && subop == 0 {
            let (n, p) = PreExe::partial_decode_linear(buff);
            Some((n, Pkt::PreExe(p)))
        } else if op == 16 && subop == 0 {
            let (n, p) = GpuvmInv::partial_decode_linear(buff);
            Some((n, Pkt::GpuvmInv(p)))
        } else if op == 17 && subop == 0 {
            let (n, p) = GcrReq::partial_decode_linear(buff);
            Some((n, Pkt::GcrReq(p)))
        } else if op == 32 && subop == 0 {
            let (n, p) = DummyTrap::partial_decode_linear(buff);
            Some((n, Pkt::DummyTrap(p)))
        } else {
            None
        }
    }

    /// Decoding gives back what was encoded: the packet that `encode_linear`
    /// writes is one that `decode_linear` accepts and reads back (and, by
    /// `lemma_read_unique`, the only one).
    #[verifier::spinoff_prover]
    #[verifier::rlimit(80)]
    pub proof fn lemma_roundtrip(self, buf: Seq<u32>)
        requires
            self.layout_wf(),
            self.fits(),
            self.header_compatible(),
            buf.len() >= self.size(),
        ensures
            Self::decodable(self.spec_encode(buf)),
            self.read_from(self.spec_encode(buf)),
    {
        match self {
            Pkt::CopyLinear(p) => {
                layout::lemma_packet_roundtrip(buf, CopyLinear::bit_fields(), p.bit_values(), CopyLinear::join_fields(), p.join_values(), CopyLinear::tail(), p.tail_data(), CopyLinear::STATIC_DWORDS as nat);
                let enc = p.spec_encode(buf);
                layout::lemma_header_keeps_packet(enc, CopyLinear::bit_fields(), p.bit_values(), CopyLinear::join_fields(), p.join_values(), CopyLinear::tail(), p.tail_data(), CopyLinear::STATIC_DWORDS as nat, (0xffffu32 | (1u32 << 27u32)), (1u32 | (0u32 << 8u32) | (0u32 << 27u32)));
                layout::lemma_extra_header(enc[0], 1u32, 0u32, 0u32);
            },
            Pkt::CopyBroadcastLinear(p) => {
                layout::lemma_packet_roundtrip(buf, CopyBroadcastLinear::bit_fields(), p.bit_values(), CopyBroadcastLinear::join_fields(), p.join_values(), CopyBroadcastLinear::tail(), p.tail_data(), CopyBroadcastLinear::STATIC_DWORDS as nat);
                let enc = p.spec_encode(buf);
                layout::lemma_header_keeps_packet(enc, CopyBroadcastLinear::bit_fields(), p.bit_values(), CopyBroadcastLinear::join_fields(), p.join_values(), CopyBroadcastLinear::tail(), p.tail_data(), CopyBroadcastLinear::STATIC_DWORDS as nat, (0xffffu32 | (1u32 << 27u32)), (1u32 | (0u32 << 8u32) | (1u32 << 27u32)));
                layout::lemma_extra_header(enc[0], 1u32, 0u32, 1u32);
            },
            Pkt::CopyTiled(p) => {
                layout::lemma_packet_roundtrip(buf, CopyTiled::bit_fields(), p.bit_values(), CopyTiled::join_fields(), p.join_values(), CopyTiled::tail(), p.tail_data(), CopyTiled::STATIC_DWORDS as nat);
                let enc = p.spec_encode(buf);
                layout::lemma_header_keeps_packet(enc, CopyTiled::bit_fields(), p.bit_values(), CopyTiled::join_fields(), p.join_values(), CopyTiled::tail(), p.tail_data(), CopyTiled::STATIC_DWORDS as nat, (0xffffu32 | (1u32 << 27u32)), (1u32 | (1u32 << 8u32) | (0u32 << 27u32)));
                layout::lemma_extra_header(enc[0], 1u32, 1u32, 0u32);
            },
            Pkt::CopyL2tBroadcast(p) => {
                layout::lemma_packet_roundtrip(buf, CopyL2tBroadcast::bit_fields(), p.bit_values(), CopyL2tBroadcast::join_fields(), p.join_values(), CopyL2tBroadcast::tail(), p.tail_data(), CopyL2tBroadcast::STATIC_DWORDS as nat);
                let enc = p.spec_encode(buf);
                layout::lemma_header_keeps_packet(enc, CopyL2tBroadcast::bit_fields(), p.bit_values(), CopyL2tBroadcast::join_fields(), p.join_values(), CopyL2tBroadcast::tail(), p.tail_data(), CopyL2tBroadcast::STATIC_DWORDS as nat, (0xffffu32 | (1u32 << 27u32)), (1u32 | (1u32 << 8u32) | (1u32 << 27u32)));
                layout::lemma_extra_header(enc[0], 1u32, 1u32, 1u32);
            },
            Pkt::Nop(p) => {
                layout::lemma_packet_roundtrip(buf, Nop::bit_fields(), p.bit_values(), Nop::join_fields(), p.join_values(), Nop::tail(), p.tail_data(), Nop::STATIC_DWORDS as nat);
                let enc = p.spec_encode(buf);
                layout::lemma_header_keeps_packet(enc, Nop::bit_fields(), p.bit_values(), Nop::join_fields(), p.join_values(), Nop::tail(), p.tail_data(), Nop::STATIC_DWORDS as nat, 0xffffu32, (0u32 | (0u32 << 8u32)));
                layout::lemma_plain_header(enc[0], 0u32, 0u32);
            },
            Pkt::CopyStruct(p) => {
                layout::lemma_packet_roundtrip(buf, CopyStruct::bit_fields(), p.bit_values(), CopyStruct::join_fields(), p.join_values(), CopyStruct::tail(), p.tail_data(), CopyStruct::STATIC_DWORDS as nat);
                let enc = p.spec_encode(buf);
                layout::lemma_header_keeps_packet(enc, CopyStruct::bit_fields(), p.bit_values(), CopyStruct::join_fields(), p.join_values(), CopyStruct::tail(), p.tail_data(), CopyStruct::STATIC_DWORDS as nat, 0xffffu32, (1u32 | (3u32 << 8u32)));
                layout::lemma_plain_header(enc[0], 1u32, 3u32);
            },
            Pkt::CopyLinearSubwin(p) => {
                layout::lemma_packet_roundtrip(buf, CopyLinearSubwin::bit_fields(), p.bit_values(), CopyLinearSubwin::join_fields(), p.join_values(), CopyLinearSubwin::tail(), p.tail_data(), CopyLinearSubwin::STATIC_DWORDS as nat);
                let enc = p.spec_encode(buf);
                layout::lemma_header_keeps_packet(enc, CopyLinearSubwin::bit_fields(), p.bit_values(), CopyLinearSubwin::join_fields(), p.join_values(), CopyLinearSubwin::tail(), p.tail_data(), CopyLinearSubwin::STATIC_DWORDS as nat, 0xffffu32, (1u32 | (4u32 << 8u32)));
                layout::lemma_plain_header(enc[0], 1u32, 4u32);
            },
            Pkt::CopyTiledSubwin(p) => {
                layout::lemma_packet_roundtrip(buf, CopyTiledSubwin::bit_fields(), p.bit_values(), CopyTiledSubwin::join_fields(), p.join_values(), CopyTiledSubwin::tail(), p.tail_data(), CopyTiledSubwin::STATIC_DWORDS as nat);
                let enc = p.spec_encode(buf);
                layout::lemma_header_keeps_packet(enc, CopyTiledSubwin::bit_fields(), p.bit_values(), CopyTiledSubwin::join_fields(), p.join_values(), CopyTiledSubwin::tail(), p.tail_data(), CopyTiledSubwin::STATIC_DWORDS as nat, 0xffffu32, (1u32 | (5u32 << 8u32)));
                layout::lemma_plain_header(enc[0], 1u32, 5u32);
            },
            Pkt::CopyT2t(p) => {
                layout::lemma_packet_roundtrip(buf, CopyT2t::bit_fields(), p.bit_values(), CopyT2t::join_fields(), p.join_values(), CopyT2t::tail(), p.tail_data(), CopyT2t::STATIC_DWORDS as nat);
                let enc = p.spec_encode(buf);
                layout::lemma_header_keeps_packet(enc, CopyT2t::bit_fields(), p.bit_values(), CopyT2t::join_fields(), p.join_values(), CopyT2t::tail(), p.tail_data(), CopyT2t::STATIC_DWORDS as nat, 0xffffu32, (1u32 | (6u32 << 8u32)));
                layout::lemma_plain_header(enc[0], 1u32, 6u32);
            },
            Pkt::CopyDirtyPage(p) => {
                layout::lemma_packet_roundtrip(buf, CopyDirtyPage::bit_fields(), p.bit_values(), CopyDirtyPage::join_fields(), p.join_values(), CopyDirtyPage::tail(), p.tail_data(), CopyDirtyPage::STATIC_DWORDS as nat);
                let enc = p.spec_encode(buf);
                layout::lemma_header_keeps_packet(enc, CopyDirtyPage::bit_fields(), p.bit_values(), CopyDirtyPage::join_fields(), p.join_values(), CopyDirtyPage::tail(), p.tail_data(), CopyDirtyPage::STATIC_DWORDS as nat, 0xffffu32, (1u32 | (7u32 << 8u32)));
                layout::lemma_plain_header(enc[0], 1u32, 7u32);
            },
            Pkt::CopyPhysicalLinear(p) => {
                layout::lemma_packet_roundtrip(buf, CopyPhysicalLinear::bit_fields(), p.bit_values(), CopyPhysicalLinear::join_fields(), p.join_values(), CopyPhysicalLinear::tail(), p.tail_data(), CopyPhysicalLinear::STATIC_DWORDS as nat);
                let enc = p.spec_encode(buf);
                layout::lemma_header_keeps_packet(enc, CopyPhysicalLinear::bit_fields(), p.bit_values(), CopyPhysicalLinear::join_fields(), p.join_values(), CopyPhysicalLinear::tail(), p.tail_data(), CopyPhysicalLinear::STATIC_DWORDS as nat, 0xffffu32, (1u32 | (8u32 << 8u32)));
                layout::lemma_plain_header(enc[0], 1u32, 8u32);
            },
            Pkt::CopyLinearBc(p) => {
                layout::lemma_packet_roundtrip(buf, CopyLinearBc::bit_fields(), p.bit_values(), CopyLinearBc::join_fields(), p.join_values(), CopyLinearBc::tail(), p.tail_data(), CopyLinearBc::STATIC_DWORDS as nat);
                let enc = p.spec_encode(buf);
                layout::lemma_header_keeps_packet(enc, CopyLinearBc::bit_fields(), p.bit_values(), CopyLinearBc::join_fields(), p.join_values(), CopyLinearBc::tail(), p.tail_data(), CopyLinearBc::STATIC_DWORDS as nat, 0xffffu32, (1u32 | (16u32 << 8u32)));
                layout::lemma_plain_header(enc[0], 1u32, 16u32);
            },
            Pkt::CopyTiledBc(p) => {
                layout::lemma_packet_roundtrip(buf, CopyTiledBc::bit_fields(), p.bit_values(), CopyTiledBc::join_fields(), p.join_values(), CopyTiledBc::tail(), p.tail_data(), CopyTiledBc::STATIC_DWORDS as nat);
                let enc = p.spec_encode(buf);
                layout::lemma_header_keeps_packet(enc, CopyTiledBc::bit_fields(), p.bit_values(), CopyTiledBc::join_fields(), p.join_values(), CopyTiledBc::tail(), p.tail_data(), CopyTiledBc::STATIC_DWORDS as nat, 0xffffu32, (1u32 | (17u32 << 8u32)));
                layout::lemma_plain_header(enc[0], 1u32, 17u32);
            },
            Pkt::CopyLinearSubwinBc(p) => {
                layout::lemma_packet_roundtrip(buf, CopyLinearSubwinBc::bit_fields(), p.bit_values(), CopyLinearSubwinBc::join_fields(), p.join_values(), CopyLinearSubwinBc::tail(), p.tail_data(), CopyLinearSubwinBc::STATIC_DWORDS as nat);
                let enc = p.spec_encode(buf);
                layout::lemma_header_keeps_packet(enc, CopyLinearSubwinBc::bit_fields(), p.bit_values(), CopyLinearSubwinBc::join_fields(), p.join_values(), CopyLinearSubwinBc::tail(), p.tail_data(), CopyLinearSubwinBc::STATIC_DWORDS as nat, 0xffffu32, (1u32 | (20u32 << 8u32)));
                layout::lemma_plain_header(enc[0], 1u32, 20u32);
            },
            Pkt::CopyTiledSubwinBc(p) => {
                layout::lemma_packet_roundtrip(buf, CopyTiledSubwinBc::bit_fields(), p.bit_values(), CopyTiledSubwinBc::join_fields(), p.join_values(), CopyTiledSubwinBc::tail(), p.tail_data(), CopyTiledSubwinBc::STATIC_DWORDS as nat);
                let enc = p.spec_encode(buf);
                layout::lemma_header_keeps_packet(enc, CopyTiledSubwinBc::bit_fields(), p.bit_values(), CopyTiledSubwinBc::join_fields(), p.join_values(), CopyTiledSubwinBc::tail(), p.tail_data(), CopyTiledSubwinBc::STATIC_DWORDS as nat, 0xffffu32, (1u32 | (21u32 << 8u32)));
                layout::lemma_plain_header(enc[0], 1u32, 21u32);
            },
            Pkt::CopyT2tBc(p) => {
                layout::lemma_packet_roundtrip(buf, CopyT2tBc::bit_fields(), p.bit_values(), CopyT2tBc::join_fields(), p.join_values(), CopyT2tBc::tail(), p.tail_data(), CopyT2tBc::STATIC_DWORDS as nat);
                let enc = p.spec_encode(buf);
                layout::lemma_header_keeps_packet(enc, CopyT2tBc::bit_fields(), p.bit_values(), CopyT2tBc::join_fields(), p.join_values(), CopyT2tBc::tail(), p.tail_data(), CopyT2tBc::STATIC_DWORDS as nat, 0xffffu32, (1u32 | (22u32 << 8u32)));
                layout::lemma_plain_header(enc[0], 1u32, 22u32);
            },
            Pkt::WriteUntiled(p) => {
                layout::lemma_packet_roundtrip(buf, WriteUntiled::bit_fields(), p.bit_values(), WriteUntiled::join_fields(), p.join_values(), WriteUntiled::tail(), p.tail_data(), WriteUntiled::STATIC_DWORDS as nat);
                let enc = p.spec_encode(buf);
                layout::lemma_header_keeps_packet(enc, WriteUntiled::bit_fields(), p.bit_values(), WriteUntiled::join_fields(), p.join_values(), WriteUntiled::tail(), p.tail_data(), WriteUntiled::STATIC_DWORDS as nat, 0xffffu32, (2u32 | (0u32 << 8u32)));
                layout::lemma_plain_header(enc[0], 2u32, 0u32);
            },
            Pkt::WriteTiled(p) => {
                layout::lemma_packet_roundtrip(buf, WriteTiled::bit_fields(), p.bit_values(), WriteTiled::join_fields(), p.join_values(), WriteTiled::tail(), p.tail_data(), WriteTiled::STATIC_DWORDS as nat);
                let enc = p.spec_encode(buf);
                layout::lemma_header_keeps_packet(enc, WriteTiled::bit_fields(), p.bit_values(), WriteTiled::join_fields(), p.join_values(), WriteTiled::tail(), p.tail_data(), WriteTiled::STATIC_DWORDS as nat, 0xffffu32, (2u32 | (1u32 << 8u32)));
                layout::lemma_plain_header(enc[0], 2u32, 1u32);
            },
            Pkt::WriteTiledBc(p) => {
                layout::lemma_packet_roundtrip(buf, WriteTiledBc::bit_fields(), p.bit_values(), WriteTiledBc::join_fields(), p.join_values(), WriteTiledBc::tail(), p.tail_data(), WriteTiledBc::STATIC_DWORDS as nat);
                let enc = p.spec_encode(buf);
                layout::lemma_header_keeps_packet(enc, WriteTiledBc::bit_fields(), p.bit_values(), WriteTiledBc::join_fields(), p.join_values(), WriteTiledBc::tail(), p.tail_data(), WriteTiledBc::STATIC_DWORDS as nat, 0xffffu32, (2u32 | (17u32 << 8u32)));
                layout::lemma_plain_header(enc[0], 2u32, 17u32);
            },
            Pkt::Indirect(p) => {
                layout::lemma_packet_roundtrip(buf, Indirect::bit_fields(), p.bit_values(), Indirect::join_fields(), p.join_values(), Indirect::tail(), p.tail_data(), Indirect::STATIC_DWORDS as nat);
                let enc = p.spec_encode(buf);
                layout::lemma_header_keeps_packet(enc, Indirect::bit_fields(), p.bit_values(), Indirect::join_fields(), p.join_values(), Indirect::tail(), p.tail_data(), Indirect::STATIC_DWORDS as nat, 0xffffu32, (4u32 | (0u32 << 8u32)));
                layout::lemma_plain_header(enc[0], 4u32, 0u32);
            },
            Pkt::Fence(p) => {
                layout::lemma_packet_roundtrip(buf, Fence::bit_fields(), p.bit_values(), Fence::join_fields(), p.join_values(), Fence::tail(), p.tail_data(), Fence::STATIC_DWORDS as nat);
                let enc = p.spec_encode(buf);
                layout::lemma_header_keeps_packet(enc, Fence::bit_fields(), p.bit_values(), Fence::join_fields(), p.join_values(), Fence::tail(), p.tail_data(), Fence::STATIC_DWORDS as nat, 0xffffu32, (5u32 | (0u32 << 8u32)));
                layout::lemma_plain_header(enc[0], 5u32, 0u32);
            },
            Pkt::Trap(p) => {
                layout::lemma_packet_roundtrip(buf, Trap::bit_fields(), p.bit_values(), Trap::join_fields(), p.join_values(), Trap::tail(), p.tail_data(), Trap::STATIC_DWORDS as nat);
                let enc = p.spec_encode(buf);
                layout::lemma_header_keeps_packet(enc, Trap::bit_fields(), p.bit_values(), Trap::join_fields(), p.join_values(), Trap::tail(), p.tail_data(), Trap::STATIC_DWORDS as nat, 0xffffu32, (6u32 | (0u32 << 8u32)));
                layout::lemma_plain_header(enc[0], 6u32, 0u32);
            },
            Pkt::Semaphore(p) => {
                layout::lemma_packet_roundtrip(buf, Semaphore::bit_fields(), p.bit_values(), Semaphore::join_fields(), p.join_values(), Semaphore::tail(), p.tail_data(), Semaphore::STATIC_DWORDS as nat);
                let enc = p.spec_encode(buf);
                layout::lemma_header_keeps_packet(enc, Semaphore::bit_fields(), p.bit_values(), Semaphore::join_fields(), p.join_values(), Semaphore::tail(), p.tail_data(), Semaphore::STATIC_DWORDS as nat, 0xffffu32, (7u32 | (0u32 << 8u32)));
                layout::lemma_plain_header(enc[0], 7u32, 0u32);
            },
            Pkt::PollRegmem(p) => {
                layout::lemma_packet_roundtrip(buf, PollRegmem::bit_fields(), p.bit_values(), PollRegmem::join_fields(), p.join_values(), PollRegmem::tail(), p.tail_data(), PollRegmem::STATIC_DWORDS as nat);
                let enc = p.spec_encode(buf);
                layout::lemma_header_keeps_packet(enc, PollRegmem::bit_fields(), p.bit_values(), PollRegmem::join_fields(), p.join_values(), PollRegmem::tail(), p.tail_data(), PollRegmem::STATIC_DWORDS as nat, 0xffffu32, (8u32 | (0u32 << 8u32)));
                layout::lemma_plain_header(enc[0], 8u32, 0u32);
            },
            Pkt::PollRegWriteMem(p) => {
                layout::lemma_packet_roundtrip(buf, PollRegWriteMem::bit_fields(), p.bit_values(), PollRegWriteMem::join_fields(), p.join_values(), PollRegWriteMem::tail(), p.tail_data(), PollRegWriteMem::STATIC_DWORDS as nat);
                let enc = p.spec_encode(buf);
                layout::lemma_header_keeps_packet(enc, PollRegWriteMem::bit_fields(), p.bit_values(), PollRegWriteMem::join_fields(), p.join_values(), PollRegWriteMem::tail(), p.tail_data(), PollRegWriteMem::STATIC_DWORDS as nat, 0xffffu32, (8u32 | (1u32 << 8u32)));
                layout::lemma_plain_header(enc[0], 8u32, 1u32);
            },
            Pkt::PollDbitWriteMem(p) => {
                layout::lemma_packet_roundtrip(buf, PollDbitWriteMem::bit_fields(), p.bit_values(), PollDbitWriteMem::join_fields(), p.join_values(), PollDbitWriteMem::tail(), p.tail_data(), PollDbitWriteMem::STATIC_DWORDS as nat);
                let enc = p.spec_encode(buf);
                layout::lemma_header_keeps_packet(enc, PollDbitWriteMem::bit_fields(), p.bit_values(), PollDbitWriteMem::join_fields(), p.join_values(), PollDbitWriteMem::tail(), p.tail_data(), PollDbitWriteMem::STATIC_DWORDS as nat, 0xffffu32, (8u32 | (2u32 << 8u32)));
                layout::lemma_plain_header(enc[0], 8u32, 2u32);
            },
            Pkt::PollMemVerify(p) => {
                layout::lemma_packet_roundtrip(buf, PollMemVerify::bit_fields(), p.bit_values(), PollMemVerify::join_fields(), p.join_values(), PollMemVerify::tail(), p.tail_data(), PollMemVerify::STATIC_DWORDS as nat);
                let enc = p.spec_encode(buf);
                layout::lemma_header_keeps_packet(enc, PollMemVerify::bit_fields(), p.bit_values(), PollMemVerify::join_fields(), p.join_values(), PollMemVerify::tail(), p.tail_data(), PollMemVerify::STATIC_DWORDS as nat, 0xffffu32, (8u32 | (3u32 << 8u32)));
                layout::lemma_plain_header(enc[0], 8u32, 3u32);
            },
            Pkt::VmInvalidation(p) => {
                layout::lemma_packet_roundtrip(buf, VmInvalidation::bit_fields(), p.bit_values(), VmInvalidation::join_fields(), p.join_values(), VmInvalidation::tail(), p.tail_data(), VmInvalidation::STATIC_DWORDS as nat);
                let enc = p.spec_encode(buf);
                layout::lemma_header_keeps_packet(enc, VmInvalidation::bit_fields(), p.bit_values(), VmInvalidation::join_fields(), p.join_values(), VmInvalidation::tail(), p.tail_data(), VmInvalidation::STATIC_DWORDS as nat, 0xffffu32, (8u32 | (4u32 << 8u32)));
                layout::lemma_plain_header(enc[0], 8u32, 4u32);
            },
            Pkt::CondExe(p) => {
                layout::lemma_packet_roundtrip(buf, CondExe::bit_fields(), p.bit_values(), CondExe::join_fields(), p.join_values(), CondExe::tail(), p.tail_data(), CondExe::STATIC_DWORDS as nat);
                let enc = p.spec_encode(buf);
                layout::lemma_header_keeps_packet(enc, CondExe::bit_fields(), p.bit_values(), CondExe::join_fields(), p.join_values(), CondExe::tail(), p.tail_data(), CondExe::STATIC_DWORDS as nat, 0xffffu32, (9u32 | (0u32 << 8u32)));
                layout::lemma_plain_header(enc[0], 9u32, 0u32);
            },
            Pkt::Atomic(p) => {
                layout::lemma_packet_roundtrip(buf, Atomic::bit_fields(), p.bit_values(), Atomic::join_fields(), p.join_values(), Atomic::tail(), p.tail_data(), Atomic::STATIC_DWORDS as nat);
                let enc = p.spec_encode(buf);
                layout::lemma_header_keeps_packet(enc, Atomic::bit_fields(), p.bit_values(), Atomic::join_fields(), p.join_values(), Atomic::tail(), p.tail_data(), Atomic::STATIC_DWORDS as nat, 0xffffu32, (10u32 | (0u32 << 8u32)));
                layout::lemma_plain_header(enc[0], 10u32, 0u32);
            },
            Pkt::ConstantFill(p) => {
                layout::lemma_packet_roundtrip(buf, ConstantFill::bit_fields(), p.bit_values(), ConstantFill::join_fields(), p.join_values(), ConstantFill::tail(), p.tail_data(), ConstantFill::STATIC_DWORDS as nat);
                let enc = p.spec_encode(buf);
                layout::lemma_header_keeps_packet(enc, ConstantFill::bit_fields(), p.bit_values(), ConstantFill::join_fields(), p.join_values(), ConstantFill::tail(), p.tail_data(), ConstantFill::STATIC_DWORDS as nat, 0xffffu32, (11u32 | (0u32 << 8u32)));
                layout::lemma_plain_header(enc[0], 11u32, 0u32);
            },
            Pkt::DataFillMulti(p) => {
                layout::lemma_packet_roundtrip(buf, DataFillMulti::bit_fields(), p.bit_values(), DataFillMulti::join_fields(), p.join_values(), DataFillMulti::tail(), p.tail_data(), DataFillMulti::STATIC_DWORDS as nat);
                let enc = p.spec_encode(buf);
                layout::lemma_header_keeps_packet(enc, DataFillMulti::bit_fields(), p.bit_values(), DataFillMulti::join_fields(), p.join_values(), DataFillMulti::tail(), p.tail_data(), DataFillMulti::STATIC_DWORDS as nat, 0xffffu32, (11u32 | (1u32 << 8u32)));
                layout::lemma_plain_header(enc[0], 11u32, 1u32);
            },
            Pkt::WriteIncr(p) => {
                layout::lemma_packet_roundtrip(buf, WriteIncr::bit_fields(), p.bit_values(), WriteIncr::join_fields(), p.join_values(), WriteIncr::tail(), p.tail_data(), WriteIncr::STATIC_DWORDS as nat);
                let enc = p.spec_encode(buf);
                layout::lemma_header_keeps_packet(enc, WriteIncr::bit_fields(), p.bit_values(), WriteIncr::join_fields(), p.join_values(), WriteIncr::tail(), p.tail_data(), WriteIncr::STATIC_DWORDS as nat, 0xffffu32, (12u32 | (0u32 << 8u32)));
                layout::lemma_plain_header(enc[0], 12u32, 0u32);
            },
            Pkt::PtepdeCopy(p) => {
                layout::lemma_packet_roundtrip(buf, PtepdeCopy::bit_fields(), p.bit_values(), PtepdeCopy::join_fields(), p.join_values(), PtepdeCopy::tail(), p.tail_data(), PtepdeCopy::STATIC_DWORDS as nat);
                let enc = p.spec_encode(buf);
                layout::lemma_header_keeps_packet(enc, PtepdeCopy::bit_fields(), p.bit_values(), PtepdeCopy::join_fields(), p.join_values(), PtepdeCopy::tail(), p.tail_data(), PtepdeCopy::STATIC_DWORDS as nat, 0xffffu32, (12u32 | (1u32 << 8u32)));
                layout::lemma_plain_header(enc[0], 12u32, 1u32);
            },
            Pkt::PtepdeRmw(p) => {
                layout::lemma_packet_roundtrip(buf, PtepdeRmw::bit_fields(), p.bit_values(), PtepdeRmw::join_fields(), p.join_values(), PtepdeRmw::tail(), p.tail_data(), PtepdeRmw::STATIC_DWORDS as nat);
                let enc = p.spec_encode(buf);
                layout::lemma_header_keeps_packet(enc, PtepdeRmw::bit_fields(), p.bit_values(), PtepdeRmw::join_fields(), p.join_values(), PtepdeRmw::tail(), p.tail_data(), PtepdeRmw::STATIC_DWORDS as nat, 0xffffu32, (12u32 | (2u32 << 8u32)));
                layout::lemma_plain_header(enc[0], 12u32, 2u32);
            },
            Pkt::PtepdeCopyBackwards(p) => {
                layout::lemma_packet_roundtrip(buf, PtepdeCopyBackwards::bit_fields(), p.bit_values(), PtepdeCopyBackwards::join_fields(), p.join_values(), PtepdeCopyBackwards::tail(), p.tail_data(), PtepdeCopyBackwards::STATIC_DWORDS as nat);
                let enc = p.spec_encode(buf);
                layout::lemma_header_keeps_packet(enc, PtepdeCopyBackwards::bit_fields(), p.bit_values(), PtepdeCopyBackwards::join_fields(), p.join_values(), PtepdeCopyBackwards::tail(), p.tail_data(), PtepdeCopyBackwards::STATIC_DWORDS as nat, 0xffffu32, (12u32 | (3u32 << 8u32)));
                layout::lemma_plain_header(enc[0], 12u32, 3u32);
            },
            Pkt::TimestampSet(p) => {
                layout::lemma_packet_roundtrip(buf, TimestampSet::bit_fields(), p.bit_values(), TimestampSet::join_fields(), p.join_values(), TimestampSet::tail(), p.tail_data(), TimestampSet::STATIC_DWORDS as nat);
                let enc = p.spec_encode(buf);
                layout::lemma_header_keeps_packet(enc, TimestampSet::bit_fields(), p.bit_values(), TimestampSet::join_fields(), p.join_values(), TimestampSet::tail(), p.tail_data(), TimestampSet::STATIC_DWORDS as nat, 0xffffu32, (13u32 | (0u32 << 8u32)));
                layout::lemma_plain_header(enc[0], 13u32, 0u32);
            },
            Pkt::TimestampGet(p) => {
                layout::lemma_packet_roundtrip(buf, TimestampGet::bit_fields(), p.bit_values(), TimestampGet::join_fields(), p.join_values(), TimestampGet::tail(), p.tail_data(), TimestampGet::STATIC_DWORDS as nat);
                let enc = p.spec_encode(buf);
                layout::lemma_header_keeps_packet(enc, TimestampGet::bit_fields(), p.bit_values(), TimestampGet::join_fields(), p.join_values(), TimestampGet::tail(), p.tail_data(), TimestampGet::STATIC_DWORDS as nat, 0xffffu32, (13u32 | (1u32 << 8u32)));
                layout::lemma_plain_header(enc[0], 13u32, 1u32);
            },
            Pkt::TimestampGetGlobal(p) => {
                layout::lemma_packet_roundtrip(buf, TimestampGetGlobal::bit_fields(), p.bit_values(), TimestampGetGlobal::join_fields(), p.join_values(), TimestampGetGlobal::tail(), p.tail_data(), TimestampGetGlobal::STATIC_DWORDS as nat);
                let enc = p.spec_encode(buf);
                layout::lemma_header_keeps_packet(enc, TimestampGetGlobal::bit_fields(), p.bit_values(), TimestampGetGlobal::join_fields(), p.join_values(), TimestampGetGlobal::tail(), p.tail_data(), TimestampGetGlobal::STATIC_DWORDS as nat, 0xffffu32, (13u32 | (2u32 << 8u32)));
                layout::lemma_plain_header(enc[0], 13u32, 2u32);
            },
            Pkt::SrbmWrite(p) => {
                layout::lemma_packet_roundtrip(buf, SrbmWrite::bit_fields(), p.bit_values(), SrbmWrite::join_fields(), p.join_values(), SrbmWrite::tail(), p.tail_data(), SrbmWrite::STATIC_DWORDS as nat);
                let enc = p.spec_encode(buf);
                layout::lemma_header_keeps_packet(enc, SrbmWrite::bit_fields(), p.bit_values(), SrbmWrite::join_fields(), p.join_values(), SrbmWrite::tail(), p.tail_data(), SrbmWrite::STATIC_DWORDS as nat, 0xffffu32, (14u32 | (0u32 << 8u32)));
                layout::lemma_plain_header(enc[0], 14u32, 0u32);
            },
            Pkt::PreExe(p) => {
                layout::lemma_packet_roundtrip(buf, PreExe::bit_fields(), p.bit_values(), PreExe::join_fields(), p.join_values(), PreExe::tail(), p.tail_data(), PreExe::STATIC_DWORDS as nat);
                let enc = p.spec_encode(buf);
                layout::lemma_header_keeps_packet(enc, PreExe::bit_fields(), p.bit_values(), PreExe::join_fields(), p.join_values(), PreExe::tail(), p.tail_data(), PreExe::STATIC_DWORDS as nat, 0xffffu32, (15u32 | (0u32 << 8u32)));
                layout::lemma_plain_header(enc[0], 15u32, 0u32);
            },
            Pkt::GpuvmInv(p) => {
                layout::lemma_packet_roundtrip(buf, GpuvmInv::bit_fields(), p.bit_values(), GpuvmInv::join_fields(), p.join_values(), GpuvmInv::tail(), p.tail_data(), GpuvmInv::STATIC_DWORDS as nat);
                let enc = p.spec_encode(buf);
                layout::lemma_header_keeps_packet(enc, GpuvmInv::bit_fields(), p.bit_values(), GpuvmInv::join_fields(), p.join_values(), GpuvmInv::tail(), p.tail_data(), GpuvmInv::STATIC_DWORDS as nat, 0xffffu32, (16u32 | (0u32 << 8u32)));
                layout::lemma_plain_header(enc[0], 16u32, 0u32);
            },
            Pkt::GcrReq(p) => {
                layout::lemma_packet_roundtrip(buf, GcrReq::bit_fields(), p.bit_values(), GcrReq::join_fields(), p.join_values(), GcrReq::tail(), p.tail_data(), GcrReq::STATIC_DWORDS as nat);
                let enc = p.spec_encode(buf);
                layout::lemma_header_keeps_packet(enc, GcrReq::bit_fields(), p.bit_values(), GcrReq::join_fields(), p.join_values(), GcrReq::tail(), p.tail_data(), GcrReq::STATIC_DWORDS as nat, 0xffffu32, (17u32 | (0u32 << 8u32)));
                layout::lemma_plain_header(enc[0], 17u32, 0u32);
            },
            Pkt::DummyTrap(p) => {
                layout::lemma_packet_roundtrip(buf, DummyTrap::bit_fields(), p.bit_values(), DummyTrap::join_fields(), p.join_values(), DummyTrap::tail(), p.tail_data(), DummyTrap::STATIC_DWORDS as nat);
                let enc = p.spec_encode(buf);
                layout::lemma_header_keeps_packet(enc, DummyTrap::bit_fields(), p.bit_values(), DummyTrap::join_fields(), p.join_values(), DummyTrap::tail(), p.tail_data(), DummyTrap::STATIC_DWORDS as nat, 0xffffu32, (32u32 | (0u32 << 8u32)));
                layout::lemma_plain_header(enc[0], 32u32, 0u32);
            },
        }
    }

    /// Reading a packet is exact: two packets read from one buffer are equal.
    pub proof fn lemma_read_unique(a: Self, b: Self, buf: Seq<u32>)
        requires
            a.read_from(buf),
            b.read_from(buf),
        ensures
            a == b,
    {
        match a {
            Pkt::CopyLinear(x) => {
                if let Pkt::CopyLinear(y) = b {
                    CopyLinear::lemma_read_unique(x, y, buf);
                }
            },
            Pkt::CopyBroadcastLinear(x) => {
                if let Pkt::CopyBroadcastLinear(y) = b {
                    CopyBroadcastLinear::lemma_read_unique(x, y, buf);
                }
            },
            Pkt::CopyTiled(x) => {
                if let Pkt::CopyTiled(y) = b {
                    CopyTiled::lemma_read_unique(x, y, buf);
                }
            },
            Pkt::CopyL2tBroadcast(x) => {
                if let Pkt::CopyL2tBroadcast(y) = b {
                    CopyL2tBroadcast::lemma_read_unique(x, y, buf);
                }
            },
            Pkt::Nop(x) => {
                if let Pkt::Nop(y) = b {
                    Nop::lemma_read_unique(x, y, buf);
                }
            },
            Pkt::CopyStruct(x) => {
                if let Pkt::CopyStruct(y) = b {
                    CopyStruct::lemma_read_unique(x, y, buf);
                }
            },
            Pkt::CopyLinearSubwin(x) => {
                if let Pkt::CopyLinearSubwin(y) = b {
                    CopyLinearSubwin::lemma_read_unique(x, y, buf);
                }
            },
            Pkt::CopyTiledSubwin(x) => {
                if let Pkt::CopyTiledSubwin(y) = b {
                    CopyTiledSubwin::lemma_read_unique(x, y, buf);
                }
            },
            Pkt::CopyT2t(x) => {
                if let Pkt::CopyT2t(y) = b {
                    CopyT2t::lemma_read_unique(x, y, buf);
                }
            },
            Pkt::CopyDirtyPage(x) => {
                if let Pkt::CopyDirtyPage(y) = b {
                    CopyDirtyPage::lemma_read_unique(x, y, buf);
                }
            },
            Pkt::CopyPhysicalLinear(x) => {
                if let Pkt::CopyPhysicalLinear(y) = b {
                    CopyPhysicalLinear::lemma_read_unique(x, y, buf);
                }
            },
            Pkt::CopyLinearBc(x) => {
                if let Pkt::CopyLinearBc(y) = b {
                    CopyLinearBc::lemma_read_unique(x, y, buf);
                }
            },
            Pkt::CopyTiledBc(x) => {
                if let Pkt::CopyTiledBc(y) = b {
                    CopyTiledBc::lemma_read_unique(x, y, buf);
                }
            },
            Pkt::CopyLinearSubwinBc(x) => {
                if let Pkt::CopyLinearSubwinBc(y) = b {
                    CopyLinearSubwinBc::lemma_read_unique(x, y, buf);
                }
            },
            Pkt::CopyTiledSubwinBc(x) => {
                if let Pkt::CopyTiledSubwinBc(y) = b {
                    CopyTiledSubwinBc::lemma_read_unique(x, y, buf);
                }
            },
            Pkt::CopyT2tBc(x) => {
                if let Pkt::CopyT2tBc(y) = b {
                    CopyT2tBc::lemma_read_unique(x, y, buf);
                }
            },
            Pkt::WriteUntiled(x) => {
                if let Pkt::WriteUntiled(y) = b {
                    WriteUntiled::lemma_read_unique(x, y, buf);
                }
            },
            Pkt::WriteTiled(x) => {
                if let Pkt::WriteTiled(y) = b {
                    WriteTiled::lemma_read_unique(x, y, buf);
                }
            },
            Pkt::WriteTiledBc(x) => {
                if let Pkt::WriteTiledBc(y) = b {
                    WriteTiledBc::lemma_read_unique(x, y, buf);
                }
            },
            Pkt::Indirect(x) => {
                if let Pkt::Indirect(y) = b {
                    Indirect::lemma_read_unique(x, y, buf);
                }
            },
            Pkt::Fence(x) => {
                if let Pkt::Fence(y) = b {
                    Fence::lemma_read_unique(x, y, buf);
                }
            },
            Pkt::Trap(x) => {
                if let Pkt::Trap(y) = b {
                    Trap::lemma_read_unique(x, y, buf);
                }
            },
            Pkt::Semaphore(x) => {
                if let Pkt::Semaphore(y) = b {
                    Semaphore::lemma_read_unique(x, y, buf);
                }
            },
            Pkt::PollRegmem(x) => {
                if let Pkt::PollRegmem(y) = b {
                    PollRegmem::lemma_read_unique(x, y, buf);
                }
            },
            Pkt::PollRegWriteMem(x) => {
                if let Pkt::PollRegWriteMem(y) = b {
                    PollRegWriteMem::lemma_read_unique(x, y, buf);
                }
            },
            Pkt::PollDbitWriteMem(x) => {
                if let Pkt::PollDbitWriteMem(y) = b {
                    PollDbitWriteMem::lemma_read_unique(x, y, buf);
                }
            },
            Pkt::PollMemVerify(x) => {
                if let Pkt::PollMemVerify(y) = b {
                    PollMemVerify::lemma_read_unique(x, y, buf);
                }
            },
            Pkt::VmInvalidation(x) => {
                if let Pkt::VmInvalidation(y) = b {
                    VmInvalidation::lemma_read_unique(x, y, buf);
                }
            },
            Pkt::CondExe(x) => {
                if let Pkt::CondExe(y) = b {
                    CondExe::lemma_read_unique(x, y, buf);
                }
            },
            Pkt::Atomic(x) => {
                if let Pkt::Atomic(y) = b {
                    Atomic::lemma_read_unique(x, y, buf);
                }
            },
            Pkt::ConstantFill(x) => {
                if let Pkt::ConstantFill(y) = b {
                    ConstantFill::lemma_read_unique(x, y, buf);
                }
            },
            Pkt::DataFillMulti(x) => {
                if let Pkt::DataFillMulti(y) = b {
                    DataFillMulti::lemma_read_unique(x, y, buf);
                }
            },
            Pkt::WriteIncr(x) => {
                if let Pkt::WriteIncr(y) = b {
                    WriteIncr::lemma_read_unique(x, y, buf);
                }
            },
            Pkt::PtepdeCopy(x) => {
                if let Pkt::PtepdeCopy(y) = b {
                    PtepdeCopy::lemma_read_unique(x, y, buf);
                }
            },
            Pkt::PtepdeRmw(x) => {
                if let Pkt::PtepdeRmw(y) = b {
                    PtepdeRmw::lemma_read_unique(x, y, buf);
                }
            },
            Pkt::PtepdeCopyBackwards(x) => {
                if let Pkt::PtepdeCopyBackwards(y) = b {
                    PtepdeCopyBackwards::lemma_read_unique(x, y, buf);
                }
            },
            Pkt::TimestampSet(x) => {
                if let Pkt::TimestampSet(y) = b {
                    TimestampSet::lemma_read_unique(x, y, buf);
                }
            },
            Pkt::TimestampGet(x) => {
                if let Pkt::TimestampGet(y) = b {
                    TimestampGet::lemma_read_unique(x, y, buf);
                }
            },
            Pkt::TimestampGetGlobal(x) => {
                if let Pkt::TimestampGetGlobal(y) = b {
                    TimestampGetGlobal::lemma_read_unique(x, y, buf);
                }
            },
            Pkt::SrbmWrite(x) => {
                if let Pkt::SrbmWrite(y) = b {
                    SrbmWrite::lemma_read_unique(x, y, buf);
                }
            },
            Pkt::PreExe(x) => {
                if let Pkt::PreExe(y) = b {
                    PreExe::lemma_read_unique(x, y, buf);
                }
            },
            Pkt::GpuvmInv(x) => {
                if let Pkt::GpuvmInv(y) = b {
                    GpuvmInv::lemma_read_unique(x, y, buf);
                }
            },
            Pkt::GcrReq(x) => {
                if let Pkt::GcrReq(y) = b {
                    GcrReq::lemma_read_unique(x, y, buf);
                }
            },
            Pkt::DummyTrap(x) => {
                if let Pkt::DummyTrap(y) = b {
                    DummyTrap::lemma_read_unique(x, y, buf);
                }
            },
        }
    }

    /// Whether this packet's layout is well formed.
    pub fn layout_ok(&self) -> (r: bool)
        ensures
            r == self.layout_wf(),
    {
        match self {
            Pkt::CopyLinear(p) => CopyLinear::layout_ok(),
            Pkt::CopyBroadcastLinear(p) => CopyBroadcastLinear::layout_ok(),
            Pkt::CopyTiled(p) => CopyTiled::layout_ok(),
            Pkt::CopyL2tBroadcast(p) => CopyL2tBroadcast::layout_ok(),
            Pkt::Nop(p) => Nop::layout_ok(),
            Pkt::CopyStruct(p) => CopyStruct::layout_ok(),
            Pkt::CopyLinearSubwin(p) => CopyLinearSubwin::layout_ok(),
            Pkt::CopyTiledSubwin(p) => CopyTiledSubwin::layout_ok(),
            Pkt::CopyT2t(p) => CopyT2t::layout_ok(),
            Pkt::CopyDirtyPage(p) => CopyDirtyPage::layout_ok(),
            Pkt::CopyPhysicalLinear(p) => CopyPhysicalLinear::layout_ok(),
            Pkt::CopyLinearBc(p) => CopyLinearBc::layout_ok(),
            Pkt::CopyTiledBc(p) => CopyTiledBc::layout_ok(),
            Pkt::CopyLinearSubwinBc(p) => CopyLinearSubwinBc::layout_ok(),
            Pkt::CopyTiledSubwinBc(p) => CopyTiledSubwinBc::layout_ok(),
            Pkt::CopyT2tBc(p) => CopyT2tBc::layout_ok(),
            Pkt::WriteUntiled(p) => WriteUntiled::layout_ok(),
            Pkt::WriteTiled(p) => WriteTiled::layout_ok(),
            Pkt::WriteTiledBc(p) => WriteTiledBc::layout_ok(),
            Pkt::Indirect(p) => Indirect::layout_ok(),
            Pkt::Fence(p) => Fence::layout_ok(),
            Pkt::Trap(p) => Trap::layout_ok(),
            Pkt::Semaphore(p) => Semaphore::layout_ok(),
            Pkt::PollRegmem(p) => PollRegmem::layout_ok(),
            Pkt::PollRegWriteMem(p) => PollRegWriteMem::layout_ok(),
            Pkt::PollDbitWriteMem(p) => PollDbitWriteMem::layout_ok(),
            Pkt::PollMemVerify(p) => PollMemVerify::layout_ok(),
            Pkt::VmInvalidation(p) => VmInvalidation::layout_ok(),
            Pkt::CondExe(p) => CondExe::layout_ok(),
            Pkt::Atomic(p) => Atomic::layout_ok(),
            Pkt::ConstantFill(p) => ConstantFill::layout_ok(),
            Pkt::DataFillMulti(p) => DataFillMulti::layout_ok(),
            Pkt::WriteIncr(p) => WriteIncr::layout_ok(),
            Pkt::PtepdeCopy(p) => PtepdeCopy::layout_ok(),
            Pkt::PtepdeRmw(p) => PtepdeRmw::layout_ok(),
            Pkt::PtepdeCopyBackwards(p) => PtepdeCopyBackwards::layout_ok(),
            Pkt::TimestampSet(p) => TimestampSet::layout_ok(),
            Pkt::TimestampGet(p) => TimestampGet::layout_ok(),
            Pkt::TimestampGetGlobal(p) => TimestampGetGlobal::layout_ok(),
            Pkt::SrbmWrite(p) => SrbmWrite::layout_ok(),
            Pkt::PreExe(p) => PreExe::layout_ok(),
            Pkt::GpuvmInv(p) => GpuvmInv::layout_ok(),
            Pkt::GcrReq(p) => GcrReq::layout_ok(),
            Pkt::DummyTrap(p) => DummyTrap::layout_ok(),
        }
    }

}

} // verus!
