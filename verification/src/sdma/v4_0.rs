use vstd::prelude::*;

use super::layout;
use super::layout::{BitField, JoinField, DynField, layout_is_wf, encode_bit_fields, decode_bit_fields, encode_join_fields, decode_join_fields, encode_tail, decode_tail, to_bit, put_header};
pub use super::v3_0::GenPtepde as WriteIncr;
pub use super::v3_0::IndirectBuffer;
pub use super::v3_0::Semaphore;
pub use super::v3_0::Fence;
pub use super::v3_0::PreExe;
pub use super::v3_0::CondExe;
pub use super::v3_0::ConstFill;
pub use super::v3_0::PollRegmem;
pub use super::v3_0::Nop;
pub use super::v3_0::TimestampGet;
pub use super::v3_0::TimestampGetGlobal;
pub use super::v3_0::TimestampSet;
pub use super::v3_0::Trap;

verus! {

/// The `CopyLinear` packet.
#[derive(Clone, Copy, Default)]
pub struct CopyLinear {
    pub encrypt: bool,
    pub tmz: bool,
    pub broadcast: bool,
    pub count: u32,
    pub dst_sw: u8,
    pub src_sw: u8,
    pub src_addr: u64,
    pub dst_addr: u64,
}

impl CopyLinear {
    /// Dwords of the packet before its variable-length tail.
    pub const STATIC_DWORDS: usize = 7;

    pub open spec fn bit_fields() -> Seq<BitField> {
        seq![BitField { dw: 0, mask: 0x1, shift: 16 }, BitField { dw: 0, mask: 0x1, shift: 18 }, BitField { dw: 0, mask: 0x1, shift: 27 }, BitField { dw: 1, mask: 0x3fffff, shift: 0 }, BitField { dw: 2, mask: 0x3, shift: 16 }, BitField { dw: 2, mask: 0x3, shift: 24 }]
    }

    pub open spec fn join_fields() -> Seq<JoinField> {
        seq![JoinField { lo: 3, hi: 4 }, JoinField { lo: 5, hi: 6 }]
    }

    pub open spec fn tail() -> Option<DynField> {
        None
    }

    pub open spec fn bit_values(self) -> Seq<u32> {
        seq![layout::bool_bit(self.encrypt), layout::bool_bit(self.tmz), layout::bool_bit(self.broadcast), self.count, self.dst_sw as u32, self.src_sw as u32]
    }

    pub open spec fn join_values(self) -> Seq<u64> {
        seq![self.src_addr, self.dst_addr]
    }

    pub open spec fn tail_data(self) -> Seq<u32> {
        Seq::<u32>::empty()
    }

    /// Every field value fits its field.
    pub open spec fn fits(self) -> bool {
        layout::fields_fit(Self::bit_fields(), self.bit_values()) && layout::tail_fits(Self::tail(), self.tail_data())
    }

    pub open spec fn layout_wf() -> bool {
        layout::layout_wf(Self::bit_fields(), Self::join_fields(), Self::tail(), Self::STATIC_DWORDS as nat)
    }

    /// Dwords that the packet takes.
    pub open spec fn size(self) -> nat {
        (Self::STATIC_DWORDS + self.tail_data().len()) as nat
    }

    /// The buffer holds the whole packet.
    pub open spec fn decodable(buf: Seq<u32>) -> bool {
        buf.len() >= Self::STATIC_DWORDS
    }

    pub open spec fn spec_encode(self, buf: Seq<u32>) -> Seq<u32> {
        layout::encode_packet(
            buf,
            Self::bit_fields(),
            self.bit_values(),
            Self::join_fields(),
            self.join_values(),
            Self::tail(),
            self.tail_data(),
        )
    }

    /// `buf` holds this packet.
    pub open spec fn read_from(self, buf: Seq<u32>) -> bool {
        layout::packet_reads(
            buf,
            Self::bit_fields(),
            self.bit_values(),
            Self::join_fields(),
            self.join_values(),
            Self::tail(),
            self.tail_data(),
        )
    }

    fn exec_bit_fields() -> (r: Vec<BitField>)
        ensures
            r@ == Self::bit_fields(),
    {
        vec![BitField { dw: 0, mask: 0x1, shift: 16 }, BitField { dw: 0, mask: 0x1, shift: 18 }, BitField { dw: 0, mask: 0x1, shift: 27 }, BitField { dw: 1, mask: 0x3fffff, shift: 0 }, BitField { dw: 2, mask: 0x3, shift: 16 }, BitField { dw: 2, mask: 0x3, shift: 24 }]
    }

    fn exec_join_fields() -> (r: Vec<JoinField>)
        ensures
            r@ == Self::join_fields(),
    {
        vec![JoinField { lo: 3, hi: 4 }, JoinField { lo: 5, hi: 6 }]
    }

    /// Whether the field layout of this packet is well formed.
    pub fn layout_ok() -> (r: bool)
        ensures
            r == Self::layout_wf(),
    {
        layout_is_wf(&Self::exec_bit_fields(), &Self::exec_join_fields(), None, Self::STATIC_DWORDS)
    }

    /// Writes the packet to the start of `buff`, without its header, and
    /// returns how many dwords it took.
    pub fn partial_encode_linear(&self, buff: &mut [u32]) -> (n: usize)
        requires
            old(buff)@.len() >= self.size(),
            self.fits(),
        ensures
            n == self.size(),
            final(buff)@ == self.spec_encode(old(buff)@),
            final(buff)@.len() == old(buff)@.len(),
    {
        let bits = Self::exec_bit_fields();
        let vals: Vec<u32> = vec![to_bit(self.encrypt), to_bit(self.tmz), to_bit(self.broadcast), self.count, layout::widen_u8(self.dst_sw), layout::widen_u8(self.src_sw)];
        let joins = Self::exec_join_fields();
        let jvals: Vec<u64> = vec![self.src_addr, self.dst_addr];
        proof {
            assert(vals@ =~= self.bit_values());
            assert(jvals@ =~= self.join_values());
        }
        encode_bit_fields(&bits, &vals, buff);
        encode_join_fields(&joins, &jvals, buff);
        Self::STATIC_DWORDS
    }

    /// Reads the packet at the start of `buff` and returns how many dwords it
    /// took.
    pub fn partial_decode_linear(buff: &[u32]) -> (r: (usize, Self))
        requires
            Self::decodable(buff@),
        ensures
            r.0 == r.1.size(),
            r.1.read_from(buff@),
    {
        let bits = Self::exec_bit_fields();
        let v = decode_bit_fields(&bits, buff);
        let joins = Self::exec_join_fields();
        let j = decode_join_fields(&joins, buff);
        let p = Self { encrypt: v[0] != 0, tmz: v[1] != 0, broadcast: v[2] != 0, count: v[3], dst_sw: layout::narrow_u8(v[4]), src_sw: layout::narrow_u8(v[5]), src_addr: j[0], dst_addr: j[1] };
        proof {
            assert(p.bit_values() =~= v@);
            assert(p.join_values() =~= j@);
        }
        (Self::STATIC_DWORDS, p)
    }

    /// Where each field stands in a buffer that the packet is read from, as
    /// the packet header lays it out: a bit field under its mask and shift
    /// in its dword, a 64-bit field in two dwords, low half first. By
    /// `lemma_roundtrip`, encoding a packet puts its fields there.
    pub proof fn lemma_field_positions(self, buf: Seq<u32>)
        requires
            self.read_from(buf),
        ensures
            layout::bool_bit(self.encrypt) == layout::get_bits(buf[0], 0x1, 16),
            layout::bool_bit(self.tmz) == layout::get_bits(buf[0], 0x1, 18),
            layout::bool_bit(self.broadcast) == layout::get_bits(buf[0], 0x1, 27),
            self.count == layout::get_bits(buf[1], 0x3fffff, 0),
            layout::u8_value(self.dst_sw) == layout::get_bits(buf[2], 0x3, 16),
            layout::u8_value(self.src_sw) == layout::get_bits(buf[2], 0x3, 24),
            self.src_addr == layout::dword_pair(buf[3], buf[4]),
            self.dst_addr == layout::dword_pair(buf[5], buf[6]),
    {
        assert(self.bit_values()[0] == layout::bool_bit(self.encrypt));
        assert(layout::decode_bits(buf, Self::bit_fields())[0] == self.bit_values()[0]);
        assert(self.bit_values()[1] == layout::bool_bit(self.tmz));
        assert(layout::decode_bits(buf, Self::bit_fields())[1] == self.bit_values()[1]);
        assert(self.bit_values()[2] == layout::bool_bit(self.broadcast));
        assert(layout::decode_bits(buf, Self::bit_fields())[2] == self.bit_values()[2]);
        assert(self.bit_values()[3] == self.count);
        assert(layout::decode_bits(buf, Self::bit_fields())[3] == self.bit_values()[3]);
        assert(self.bit_values()[4] == layout::u8_value(self.dst_sw));
        assert(layout::decode_bits(buf, Self::bit_fields())[4] == self.bit_values()[4]);
        assert(self.bit_values()[5] == layout::u8_value(self.src_sw));
        assert(layout::decode_bits(buf, Self::bit_fields())[5] == self.bit_values()[5]);
        assert(layout::decode_joins(buf, Self::join_fields())[0] == self.join_values()[0]);
        assert(layout::decode_joins(buf, Self::join_fields())[1] == self.join_values()[1]);
    }

    /// The field values name the packet: two packets with the same values are
    /// equal.
    pub proof fn lemma_values_determine(a: Self, b: Self)
        requires
            a.bit_values() == b.bit_values(),
            a.join_values() == b.join_values(),
            a.tail_data() == b.tail_data(),
        ensures
            a == b,
    {
        assert(a.bit_values()[0] == layout::bool_bit(a.encrypt) && b.bit_values()[0] == layout::bool_bit(b.encrypt));
        assert(a.bit_values()[1] == layout::bool_bit(a.tmz) && b.bit_values()[1] == layout::bool_bit(b.tmz));
        assert(a.bit_values()[2] == layout::bool_bit(a.broadcast) && b.bit_values()[2] == layout::bool_bit(b.broadcast));
        assert(a.bit_values()[3] == a.count && b.bit_values()[3] == b.count);
        assert(a.bit_values()[4] == layout::u8_value(a.dst_sw) && b.bit_values()[4] == layout::u8_value(b.dst_sw));
        assert(a.bit_values()[5] == layout::u8_value(a.src_sw) && b.bit_values()[5] == layout::u8_value(b.src_sw));
        assert(a.join_values()[0] == a.src_addr && b.join_values()[0] == b.src_addr);
        assert(a.join_values()[1] == a.dst_addr && b.join_values()[1] == b.dst_addr);
    }

    /// Reading a packet is exact: two packets read from one buffer are equal.
    pub proof fn lemma_read_unique(a: Self, b: Self, buf: Seq<u32>)
        requires
            a.read_from(buf),
            b.read_from(buf),
        ensures
            a == b,
    {
        layout::lemma_reads_determine(
            buf,
            Self::bit_fields(),
            a.bit_values(),
            b.bit_values(),
            Self::join_fields(),
            a.join_values(),
            b.join_values(),
            Self::tail(),
            a.tail_data(),
            b.tail_data(),
        );
        Self::lemma_values_determine(a, b);
    }

    /// A packet reads back from what it was encoded to.
    pub proof fn lemma_roundtrip(self, buf: Seq<u32>)
        requires
            Self::layout_wf(),
            self.fits(),
            buf.len() >= self.size(),
        ensures
            self.read_from(self.spec_encode(buf)),
            Self::decodable(self.spec_encode(buf)),
            self.spec_encode(buf).len() == buf.len(),
    {
        layout::lemma_packet_roundtrip(
            buf,
            Self::bit_fields(),
            self.bit_values(),
            Self::join_fields(),
            self.join_values(),
            Self::tail(),
            self.tail_data(),
            Self::STATIC_DWORDS as nat,
        );
    }
}

/// The `CopyDirtyPage` packet.
#[derive(Clone, Copy, Default)]
pub struct CopyDirtyPage {
    pub tmz: bool,
    pub all: bool,
    pub count: u32,
    pub dst_sw: u8,
    pub dst_gcc: bool,
    pub dst_sys: bool,
    pub dst_snoop: bool,
    pub dst_gpa: bool,
    pub src_sw: u8,
    pub src_sys: bool,
    pub src_snoop: bool,
    pub src_gpa: bool,
    pub src_addr: u64,
    pub dst_addr: u64,
}

impl CopyDirtyPage {
    /// Dwords of the packet before its variable-length tail.
    pub const STATIC_DWORDS: usize = 7;

    pub open spec fn bit_fields() -> Seq<BitField> {
        seq![BitField { dw: 0, mask: 0x1, shift: 18 }, BitField { dw: 0, mask: 0x1, shift: 31 }, BitField { dw: 1, mask: 0x3fffff, shift: 0 }, BitField { dw: 2, mask: 0x3, shift: 16 }, BitField { dw: 2, mask: 0x1, shift: 19 }, BitField { dw: 2, mask: 0x1, shift: 20 }, BitField { dw: 2, mask: 0x1, shift: 22 }, BitField { dw: 2, mask: 0x1, shift: 23 }, BitField { dw: 2, mask: 0x3, shift: 24 }, BitField { dw: 2, mask: 0x1, shift: 28 }, BitField { dw: 2, mask: 0x1, shift: 30 }, BitField { dw: 2, mask: 0x1, shift: 31 }]
    }

    pub open spec fn join_fields() -> Seq<JoinField> {
        seq![JoinField { lo: 3, hi: 4 }, JoinField { lo: 5, hi: 6 }]
    }

    pub open spec fn tail() -> Option<DynField> {
        None
    }

    pub open spec fn bit_values(self) -> Seq<u32> {
        seq![layout::bool_bit(self.tmz), layout::bool_bit(self.all), self.count, self.dst_sw as u32, layout::bool_bit(self.dst_gcc), layout::bool_bit(self.dst_sys), layout::bool_bit(self.dst_snoop), layout::bool_bit(self.dst_gpa), self.src_sw as u32, layout::bool_bit(self.src_sys), layout::bool_bit(self.src_snoop), layout::bool_bit(self.src_gpa)]
    }

    pub open spec fn join_values(self) -> Seq<u64> {
        seq![self.src_addr, self.dst_addr]
    }

    pub open spec fn tail_data(self) -> Seq<u32> {
        Seq::<u32>::empty()
    }

    /// Every field value fits its field.
    pub open spec fn fits(self) -> bool {
        layout::fields_fit(Self::bit_fields(), self.bit_values()) && layout::tail_fits(Self::tail(), self.tail_data())
    }

    pub open spec fn layout_wf() -> bool {
        layout::layout_wf(Self::bit_fields(), Self::join_fields(), Self::tail(), Self::STATIC_DWORDS as nat)
    }

    /// Dwords that the packet takes.
    pub open spec fn size(self) -> nat {
        (Self::STATIC_DWORDS + self.tail_data().len()) as nat
    }

    /// The buffer holds the whole packet.
    pub open spec fn decodable(buf: Seq<u32>) -> bool {
        buf.len() >= Self::STATIC_DWORDS
    }

    pub open spec fn spec_encode(self, buf: Seq<u32>) -> Seq<u32> {
        layout::encode_packet(
            buf,
            Self::bit_fields(),
            self.bit_values(),
            Self::join_fields(),
            self.join_values(),
            Self::tail(),
            self.tail_data(),
        )
    }

    /// `buf` holds this packet.
    pub open spec fn read_from(self, buf: Seq<u32>) -> bool {
        layout::packet_reads(
            buf,
            Self::bit_fields(),
            self.bit_values(),
            Self::join_fields(),
            self.join_values(),
            Self::tail(),
            self.tail_data(),
        )
    }

    fn exec_bit_fields() -> (r: Vec<BitField>)
        ensures
            r@ == Self::bit_fields(),
    {
        vec![BitField { dw: 0, mask: 0x1, shift: 18 }, BitField { dw: 0, mask: 0x1, shift: 31 }, BitField { dw: 1, mask: 0x3fffff, shift: 0 }, BitField { dw: 2, mask: 0x3, shift: 16 }, BitField { dw: 2, mask: 0x1, shift: 19 }, BitField { dw: 2, mask: 0x1, shift: 20 }, BitField { dw: 2, mask: 0x1, shift: 22 }, BitField { dw: 2, mask: 0x1, shift: 23 }, BitField { dw: 2, mask: 0x3, shift: 24 }, BitField { dw: 2, mask: 0x1, shift: 28 }, BitField { dw: 2, mask: 0x1, shift: 30 }, BitField { dw: 2, mask: 0x1, shift: 31 }]
    }

    fn exec_join_fields() -> (r: Vec<JoinField>)
        ensures
            r@ == Self::join_fields(),
    {
        vec![JoinField { lo: 3, hi: 4 }, JoinField { lo: 5, hi: 6 }]
    }

    /// Whether the field layout of this packet is well formed.
    pub fn layout_ok() -> (r: bool)
        ensures
            r == Self::layout_wf(),
    {
        layout_is_wf(&Self::exec_bit_fields(), &Self::exec_join_fields(), None, Self::STATIC_DWORDS)
    }

    /// Writes the packet to the start of `buff`, without its header, and
    /// returns how many dwords it took.
    pub fn partial_encode_linear(&self, buff: &mut [u32]) -> (n: usize)
        requires
            old(buff)@.len() >= self.size(),
            self.fits(),
        ensures
            n == self.size(),
            final(buff)@ == self.spec_encode(old(buff)@),
            final(buff)@.len() == old(buff)@.len(),
    {
        let bits = Self::exec_bit_fields();
        let vals: Vec<u32> = vec![to_bit(self.tmz), to_bit(self.all), self.count, layout::widen_u8(self.dst_sw), to_bit(self.dst_gcc), to_bit(self.dst_sys), to_bit(self.dst_snoop), to_bit(self.dst_gpa), layout::widen_u8(self.src_sw), to_bit(self.src_sys), to_bit(self.src_snoop), to_bit(self.src_gpa)];
        let joins = Self::exec_join_fields();
        let jvals: Vec<u64> = vec![self.src_addr, self.dst_addr];
        proof {
            assert(vals@ =~= self.bit_values());
            assert(jvals@ =~= self.join_values());
        }
        encode_bit_fields(&bits, &vals, buff);
        encode_join_fields(&joins, &jvals, buff);
        Self::STATIC_DWORDS
    }

    /// Reads the packet at the start of `buff` and returns how many dwords it
    /// took.
    pub fn partial_decode_linear(buff: &[u32]) -> (r: (usize, Self))
        requires
            Self::decodable(buff@),
        ensures
            r.0 == r.1.size(),
            r.1.read_from(buff@),
    {
        let bits = Self::exec_bit_fields();
        let v = decode_bit_fields(&bits, buff);
        let joins = Self::exec_join_fields();
        let j = decode_join_fields(&joins, buff);
        let p = Self { tmz: v[0] != 0, all: v[1] != 0, count: v[2], dst_sw: layout::narrow_u8(v[3]), dst_gcc: v[4] != 0, dst_sys: v[5] != 0, dst_snoop: v[6] != 0, dst_gpa: v[7] != 0, src_sw: layout::narrow_u8(v[8]), src_sys: v[9] != 0, src_snoop: v[10] != 0, src_gpa: v[11] != 0, src_addr: j[0], dst_addr: j[1] };
        proof {
            assert(p.bit_values() =~= v@);
            assert(p.join_values() =~= j@);
        }
        (Self::STATIC_DWORDS, p)
    }

    /// Where each field stands in a buffer that the packet is read from, as
    /// the packet header lays it out: a bit field under its mask and shift
    /// in its dword, a 64-bit field in two dwords, low half first. By
    /// `lemma_roundtrip`, encoding a packet puts its fields there.
    pub proof fn lemma_field_positions(self, buf: Seq<u32>)
        requires
            self.read_from(buf),
        ensures
            layout::bool_bit(self.tmz) == layout::get_bits(buf[0], 0x1, 18),
            layout::bool_bit(self.all) == layout::get_bits(buf[0], 0x1, 31),
            self.count == layout::get_bits(buf[1], 0x3fffff, 0),
            layout::u8_value(self.dst_sw) == layout::get_bits(buf[2], 0x3, 16),
            layout::bool_bit(self.dst_gcc) == layout::get_bits(buf[2], 0x1, 19),
            layout::bool_bit(self.dst_sys) == layout::get_bits(buf[2], 0x1, 20),
            layout::bool_bit(self.dst_snoop) == layout::get_bits(buf[2], 0x1, 22),
            layout::bool_bit(self.dst_gpa) == layout::get_bits(buf[2], 0x1, 23),
            layout::u8_value(self.src_sw) == layout::get_bits(buf[2], 0x3, 24),
            layout::bool_bit(self.src_sys) == layout::get_bits(buf[2], 0x1, 28),
            layout::bool_bit(self.src_snoop) == layout::get_bits(buf[2], 0x1, 30),
            layout::bool_bit(self.src_gpa) == layout::get_bits(buf[2], 0x1, 31),
            self.src_addr == layout::dword_pair(buf[3], buf[4]),
            self.dst_addr == layout::dword_pair(buf[5], buf[6]),
    {
        assert(self.bit_values()[0] == layout::bool_bit(self.tmz));
        assert(layout::decode_bits(buf, Self::bit_fields())[0] == self.bit_values()[0]);
        assert(self.bit_values()[1] == layout::bool_bit(self.all));
        assert(layout::decode_bits(buf, Self::bit_fields())[1] == self.bit_values()[1]);
        assert(self.bit_values()[2] == self.count);
        assert(layout::decode_bits(buf, Self::bit_fields())[2] == self.bit_values()[2]);
        assert(self.bit_values()[3] == layout::u8_value(self.dst_sw));
        assert(layout::decode_bits(buf, Self::bit_fields())[3] == self.bit_values()[3]);
        assert(self.bit_values()[4] == layout::bool_bit(self.dst_gcc));
        assert(layout::decode_bits(buf, Self::bit_fields())[4] == self.bit_values()[4]);
        assert(self.bit_values()[5] == layout::bool_bit(self.dst_sys));
        assert(layout::decode_bits(buf, Self::bit_fields())[5] == self.bit_values()[5]);
        assert(self.bit_values()[6] == layout::bool_bit(self.dst_snoop));
        assert(layout::decode_bits(buf, Self::bit_fields())[6] == self.bit_values()[6]);
        assert(self.bit_values()[7] == layout::bool_bit(self.dst_gpa));
        assert(layout::decode_bits(buf, Self::bit_fields())[7] == self.bit_values()[7]);
        assert(self.bit_values()[8] == layout::u8_value(self.src_sw));
        assert(layout::decode_bits(buf, Self::bit_fields())[8] == self.bit_values()[8]);
        assert(self.bit_values()[9] == layout::bool_bit(self.src_sys));
        assert(layout::decode_bits(buf, Self::bit_fields())[9] == self.bit_values()[9]);
        assert(self.bit_values()[10] == layout::bool_bit(self.src_snoop));
        assert(layout::decode_bits(buf, Self::bit_fields())[10] == self.bit_values()[10]);
        assert(self.bit_values()[11] == layout::bool_bit(self.src_gpa));
        assert(layout::decode_bits(buf, Self::bit_fields())[11] == self.bit_values()[11]);
        assert(layout::decode_joins(buf, Self::join_fields())[0] == self.join_values()[0]);
        assert(layout::decode_joins(buf, Self::join_fields())[1] == self.join_values()[1]);
    }

    /// The field values name the packet: two packets with the same values are
    /// equal.
    pub proof fn lemma_values_determine(a: Self, b: Self)
        requires
            a.bit_values() == b.bit_values(),
            a.join_values() == b.join_values(),
            a.tail_data() == b.tail_data(),
        ensures
            a == b,
    {
        assert(a.bit_values()[0] == layout::bool_bit(a.tmz) && b.bit_values()[0] == layout::bool_bit(b.tmz));
        assert(a.bit_values()[1] == layout::bool_bit(a.all) && b.bit_values()[1] == layout::bool_bit(b.all));
        assert(a.bit_values()[2] == a.count && b.bit_values()[2] == b.count);
        assert(a.bit_values()[3] == layout::u8_value(a.dst_sw) && b.bit_values()[3] == layout::u8_value(b.dst_sw));
        assert(a.bit_values()[4] == layout::bool_bit(a.dst_gcc) && b.bit_values()[4] == layout::bool_bit(b.dst_gcc));
        assert(a.bit_values()[5] == layout::bool_bit(a.dst_sys) && b.bit_values()[5] == layout::bool_bit(b.dst_sys));
        assert(a.bit_values()[6] == layout::bool_bit(a.dst_snoop) && b.bit_values()[6] == layout::bool_bit(b.dst_snoop));
        assert(a.bit_values()[7] == layout::bool_bit(a.dst_gpa) && b.bit_values()[7] == layout::bool_bit(b.dst_gpa));
        assert(a.bit_values()[8] == layout::u8_value(a.src_sw) && b.bit_values()[8] == layout::u8_value(b.src_sw));
        assert(a.bit_values()[9] == layout::bool_bit(a.src_sys) && b.bit_values()[9] == layout::bool_bit(b.src_sys));
        assert(a.bit_values()[10] == layout::bool_bit(a.src_snoop) && b.bit_values()[10] == layout::bool_bit(b.src_snoop));
        assert(a.bit_values()[11] == layout::bool_bit(a.src_gpa) && b.bit_values()[11] == layout::bool_bit(b.src_gpa));
        assert(a.join_values()[0] == a.src_addr && b.join_values()[0] == b.src_addr);
        assert(a.join_values()[1] == a.dst_addr && b.join_values()[1] == b.dst_addr);
    }

    /// Reading a packet is exact: two packets read from one buffer are equal.
    pub proof fn lemma_read_unique(a: Self, b: Self, buf: Seq<u32>)
        requires
            a.read_from(buf),
            b.read_from(buf),
        ensures
            a == b,
    {
        layout::lemma_reads_determine(
            buf,
            Self::bit_fields(),
            a.bit_values(),
            b.bit_values(),
            Self::join_fields(),
            a.join_values(),
            b.join_values(),
            Self::tail(),
            a.tail_data(),
            b.tail_data(),
        );
        Self::lemma_values_determine(a, b);
    }

    /// A packet reads back from what it was encoded to.
    pub proof fn lemma_roundtrip(self, buf: Seq<u32>)
        requires
            Self::layout_wf(),
            self.fits(),
            buf.len() >= self.size(),
        ensures
            self.read_from(self.spec_encode(buf)),
            Self::decodable(self.spec_encode(buf)),
            self.spec_encode(buf).len() == buf.len(),
    {
        layout::lemma_packet_roundtrip(
            buf,
            Self::bit_fields(),
            self.bit_values(),
            Self::join_fields(),
            self.join_values(),
            Self::tail(),
            self.tail_data(),
            Self::STATIC_DWORDS as nat,
        );
    }
}

/// The `CopyPhysicalLinear` packet.
#[derive(Clone, Copy, Default)]
pub struct CopyPhysicalLinear {
    pub tmz: bool,
    pub count: u32,
    pub dst_sw: u8,
    pub dst_gcc: bool,
    pub dst_sys: bool,
    pub dst_log: bool,
    pub dst_snoop: bool,
    pub dst_gpa: bool,
    pub src_sw: u8,
    pub src_gcc: bool,
    pub src_sys: bool,
    pub src_snoop: bool,
    pub src_gpa: bool,
    pub src_addr: u64,
    pub dst_addr: u64,
}

impl CopyPhysicalLinear {
    /// Dwords of the packet before its variable-length tail.
    pub const STATIC_DWORDS: usize = 7;

    pub open spec fn bit_fields() -> Seq<BitField> {
        seq![BitField { dw: 0, mask: 0x1, shift: 18 }, BitField { dw: 1, mask: 0x3fffff, shift: 0 }, BitField { dw: 2, mask: 0x3, shift: 16 }, BitField { dw: 2, mask: 0x1, shift: 19 }, BitField { dw: 2, mask: 0x1, shift: 20 }, BitField { dw: 2, mask: 0x1, shift: 21 }, BitField { dw: 2, mask: 0x1, shift: 22 }, BitField { dw: 2, mask: 0x1, shift: 23 }, BitField { dw: 2, mask: 0x3, shift: 24 }, BitField { dw: 2, mask: 0x1, shift: 27 }, BitField { dw: 2, mask: 0x1, shift: 28 }, BitField { dw: 2, mask: 0x1, shift: 30 }, BitField { dw: 2, mask: 0x1, shift: 31 }]
    }

    pub open spec fn join_fields() -> Seq<JoinField> {
        seq![JoinField { lo: 3, hi: 4 }, JoinField { lo: 5, hi: 6 }]
    }

    pub open spec fn tail() -> Option<DynField> {
        None
    }

    pub open spec fn bit_values(self) -> Seq<u32> {
        seq![layout::bool_bit(self.tmz), self.count, self.dst_sw as u32, layout::bool_bit(self.dst_gcc), layout::bool_bit(self.dst_sys), layout::bool_bit(self.dst_log), layout::bool_bit(self.dst_snoop), layout::bool_bit(self.dst_gpa), self.src_sw as u32, layout::bool_bit(self.src_gcc), layout::bool_bit(self.src_sys), layout::bool_bit(self.src_snoop), layout::bool_bit(self.src_gpa)]
    }

    pub open spec fn join_values(self) -> Seq<u64> {
        seq![self.src_addr, self.dst_addr]
    }

    pub open spec fn tail_data(self) -> Seq<u32> {
        Seq::<u32>::empty()
    }

    /// Every field value fits its field.
    pub open spec fn fits(self) -> bool {
        layout::fields_fit(Self::bit_fields(), self.bit_values()) && layout::tail_fits(Self::tail(), self.tail_data())
    }

    pub open spec fn layout_wf() -> bool {
        layout::layout_wf(Self::bit_fields(), Self::join_fields(), Self::tail(), Self::STATIC_DWORDS as nat)
    }

    /// Dwords that the packet takes.
    pub open spec fn size(self) -> nat {
        (Self::STATIC_DWORDS + self.tail_data().len()) as nat
    }

    /// The buffer holds the whole packet.
    pub open spec fn decodable(buf: Seq<u32>) -> bool {
        buf.len() >= Self::STATIC_DWORDS
    }

    pub open spec fn spec_encode(self, buf: Seq<u32>) -> Seq<u32> {
        layout::encode_packet(
            buf,
            Self::bit_fields(),
            self.bit_values(),
            Self::join_fields(),
            self.join_values(),
            Self::tail(),
            self.tail_data(),
        )
    }

    /// `buf` holds this packet.
    pub open spec fn read_from(self, buf: Seq<u32>) -> bool {
        layout::packet_reads(
            buf,
            Self::bit_fields(),
            self.bit_values(),
            Self::join_fields(),
            self.join_values(),
            Self::tail(),
            self.tail_data(),
        )
    }

    fn exec_bit_fields() -> (r: Vec<BitField>)
        ensures
            r@ == Self::bit_fields(),
    {
        vec![BitField { dw: 0, mask: 0x1, shift: 18 }, BitField { dw: 1, mask: 0x3fffff, shift: 0 }, BitField { dw: 2, mask: 0x3, shift: 16 }, BitField { dw: 2, mask: 0x1, shift: 19 }, BitField { dw: 2, mask: 0x1, shift: 20 }, BitField { dw: 2, mask: 0x1, shift: 21 }, BitField { dw: 2, mask: 0x1, shift: 22 }, BitField { dw: 2, mask: 0x1, shift: 23 }, BitField { dw: 2, mask: 0x3, shift: 24 }, BitField { dw: 2, mask: 0x1, shift: 27 }, BitField { dw: 2, mask: 0x1, shift: 28 }, BitField { dw: 2, mask: 0x1, shift: 30 }, BitField { dw: 2, mask: 0x1, shift: 31 }]
    }

    fn exec_join_fields() -> (r: Vec<JoinField>)
        ensures
            r@ == Self::join_fields(),
    {
        vec![JoinField { lo: 3, hi: 4 }, JoinField { lo: 5, hi: 6 }]
    }

    /// Whether the field layout of this packet is well formed.
    pub fn layout_ok() -> (r: bool)
        ensures
            r == Self::layout_wf(),
    {
        layout_is_wf(&Self::exec_bit_fields(), &Self::exec_join_fields(), None, Self::STATIC_DWORDS)
    }

    /// Writes the packet to the start of `buff`, without its header, and
    /// returns how many dwords it took.
    pub fn partial_encode_linear(&self, buff: &mut [u32]) -> (n: usize)
        requires
            old(buff)@.len() >= self.size(),
            self.fits(),
        ensures
            n == self.size(),
            final(buff)@ == self.spec_encode(old(buff)@),
            final(buff)@.len() == old(buff)@.len(),
    {
        let bits = Self::exec_bit_fields();
        let vals: Vec<u32> = vec![to_bit(self.tmz), self.count, layout::widen_u8(self.dst_sw), to_bit(self.dst_gcc), to_bit(self.dst_sys), to_bit(self.dst_log), to_bit(self.dst_snoop), to_bit(self.dst_gpa), layout::widen_u8(self.src_sw), to_bit(self.src_gcc), to_bit(self.src_sys), to_bit(self.src_snoop), to_bit(self.src_gpa)];
        let joins = Self::exec_join_fields();
        let jvals: Vec<u64> = vec![self.src_addr, self.dst_addr];
        proof {
            assert(vals@ =~= self.bit_values());
            assert(jvals@ =~= self.join_values());
        }
        encode_bit_fields(&bits, &vals, buff);
        encode_join_fields(&joins, &jvals, buff);
        Self::STATIC_DWORDS
    }

    /// Reads the packet at the start of `buff` and returns how many dwords it
    /// took.
    pub fn partial_decode_linear(buff: &[u32]) -> (r: (usize, Self))
        requires
            Self::decodable(buff@),
        ensures
            r.0 == r.1.size(),
            r.1.read_from(buff@),
    {
        let bits = Self::exec_bit_fields();
        let v = decode_bit_fields(&bits, buff);
        let joins = Self::exec_join_fields();
        let j = decode_join_fields(&joins, buff);
        let p = Self { tmz: v[0] != 0, count: v[1], dst_sw: layout::narrow_u8(v[2]), dst_gcc: v[3] != 0, dst_sys: v[4] != 0, dst_log: v[5] != 0, dst_snoop: v[6] != 0, dst_gpa: v[7] != 0, src_sw: layout::narrow_u8(v[8]), src_gcc: v[9] != 0, src_sys: v[10] != 0, src_snoop: v[11] != 0, src_gpa: v[12] != 0, src_addr: j[0], dst_addr: j[1] };
        proof {
            assert(p.bit_values() =~= v@);
            assert(p.join_values() =~= j@);
        }
        (Self::STATIC_DWORDS, p)
    }

    /// Where each field stands in a buffer that the packet is read from, as
    /// the packet header lays it out: a bit field under its mask and shift
    /// in its dword, a 64-bit field in two dwords, low half first. By
    /// `lemma_roundtrip`, encoding a packet puts its fields there.
    pub proof fn lemma_field_positions(self, buf: Seq<u32>)
        requires
            self.read_from(buf),
        ensures
            layout::bool_bit(self.tmz) == layout::get_bits(buf[0], 0x1, 18),
            self.count == layout::get_bits(buf[1], 0x3fffff, 0),
            layout::u8_value(self.dst_sw) == layout::get_bits(buf[2], 0x3, 16),
            layout::bool_bit(self.dst_gcc) == layout::get_bits(buf[2], 0x1, 19),
            layout::bool_bit(self.dst_sys) == layout::get_bits(buf[2], 0x1, 20),
            layout::bool_bit(self.dst_log) == layout::get_bits(buf[2], 0x1, 21),
            layout::bool_bit(self.dst_snoop) == layout::get_bits(buf[2], 0x1, 22),
            layout::bool_bit(self.dst_gpa) == layout::get_bits(buf[2], 0x1, 23),
            layout::u8_value(self.src_sw) == layout::get_bits(buf[2], 0x3, 24),
            layout::bool_bit(self.src_gcc) == layout::get_bits(buf[2], 0x1, 27),
            layout::bool_bit(self.src_sys) == layout::get_bits(buf[2], 0x1, 28),
            layout::bool_bit(self.src_snoop) == layout::get_bits(buf[2], 0x1, 30),
            layout::bool_bit(self.src_gpa) == layout::get_bits(buf[2], 0x1, 31),
            self.src_addr == layout::dword_pair(buf[3], buf[4]),
            self.dst_addr == layout::dword_pair(buf[5], buf[6]),
    {
        assert(self.bit_values()[0] == layout::bool_bit(self.tmz));
        assert(layout::decode_bits(buf, Self::bit_fields())[0] == self.bit_values()[0]);
        assert(self.bit_values()[1] == self.count);
        assert(layout::decode_bits(buf, Self::bit_fields())[1] == self.bit_values()[1]);
        assert(self.bit_values()[2] == layout::u8_value(self.dst_sw));
        assert(layout::decode_bits(buf, Self::bit_fields())[2] == self.bit_values()[2]);
        assert(self.bit_values()[3] == layout::bool_bit(self.dst_gcc));
        assert(layout::decode_bits(buf, Self::bit_fields())[3] == self.bit_values()[3]);
        assert(self.bit_values()[4] == layout::bool_bit(self.dst_sys));
        assert(layout::decode_bits(buf, Self::bit_fields())[4] == self.bit_values()[4]);
        assert(self.bit_values()[5] == layout::bool_bit(self.dst_log));
        assert(layout::decode_bits(buf, Self::bit_fields())[5] == self.bit_values()[5]);
        assert(self.bit_values()[6] == layout::bool_bit(self.dst_snoop));
        assert(layout::decode_bits(buf, Self::bit_fields())[6] == self.bit_values()[6]);
        assert(self.bit_values()[7] == layout::bool_bit(self.dst_gpa));
        assert(layout::decode_bits(buf, Self::bit_fields())[7] == self.bit_values()[7]);
        assert(self.bit_values()[8] == layout::u8_value(self.src_sw));
        assert(layout::decode_bits(buf, Self::bit_fields())[8] == self.bit_values()[8]);
        assert(self.bit_values()[9] == layout::bool_bit(self.src_gcc));
        assert(layout::decode_bits(buf, Self::bit_fields())[9] == self.bit_values()[9]);
        assert(self.bit_values()[10] == layout::bool_bit(self.src_sys));
        assert(layout::decode_bits(buf, Self::bit_fields())[10] == self.bit_values()[10]);
        assert(self.bit_values()[11] == layout::bool_bit(self.src_snoop));
        assert(layout::decode_bits(buf, Self::bit_fields())[11] == self.bit_values()[11]);
        assert(self.bit_values()[12] == layout::bool_bit(self.src_gpa));
        assert(layout::decode_bits(buf, Self::bit_fields())[12] == self.bit_values()[12]);
        assert(layout::decode_joins(buf, Self::join_fields())[0] == self.join_values()[0]);
        assert(layout::decode_joins(buf, Self::join_fields())[1] == self.join_values()[1]);
    }

    /// The field values name the packet: two packets with the same values are
    /// equal.
    pub proof fn lemma_values_determine(a: Self, b: Self)
        requires
            a.bit_values() == b.bit_values(),
            a.join_values() == b.join_values(),
            a.tail_data() == b.tail_data(),
        ensures
            a == b,
    {
        assert(a.bit_values()[0] == layout::bool_bit(a.tmz) && b.bit_values()[0] == layout::bool_bit(b.tmz));
        assert(a.bit_values()[1] == a.count && b.bit_values()[1] == b.count);
        assert(a.bit_values()[2] == layout::u8_value(a.dst_sw) && b.bit_values()[2] == layout::u8_value(b.dst_sw));
        assert(a.bit_values()[3] == layout::bool_bit(a.dst_gcc) && b.bit_values()[3] == layout::bool_bit(b.dst_gcc));
        assert(a.bit_values()[4] == layout::bool_bit(a.dst_sys) && b.bit_values()[4] == layout::bool_bit(b.dst_sys));
        assert(a.bit_values()[5] == layout::bool_bit(a.dst_log) && b.bit_values()[5] == layout::bool_bit(b.dst_log));
        assert(a.bit_values()[6] == layout::bool_bit(a.dst_snoop) && b.bit_values()[6] == layout::bool_bit(b.dst_snoop));
        assert(a.bit_values()[7] == layout::bool_bit(a.dst_gpa) && b.bit_values()[7] == layout::bool_bit(b.dst_gpa));
        assert(a.bit_values()[8] == layout::u8_value(a.src_sw) && b.bit_values()[8] == layout::u8_value(b.src_sw));
        assert(a.bit_values()[9] == layout::bool_bit(a.src_gcc) && b.bit_values()[9] == layout::bool_bit(b.src_gcc));
        assert(a.bit_values()[10] == layout::bool_bit(a.src_sys) && b.bit_values()[10] == layout::bool_bit(b.src_sys));
        assert(a.bit_values()[11] == layout::bool_bit(a.src_snoop) && b.bit_values()[11] == layout::bool_bit(b.src_snoop));
        assert(a.bit_values()[12] == layout::bool_bit(a.src_gpa) && b.bit_values()[12] == layout::bool_bit(b.src_gpa));
        assert(a.join_values()[0] == a.src_addr && b.join_values()[0] == b.src_addr);
        assert(a.join_values()[1] == a.dst_addr && b.join_values()[1] == b.dst_addr);
    }

    /// Reading a packet is exact: two packets read from one buffer are equal.
    pub proof fn lemma_read_unique(a: Self, b: Self, buf: Seq<u32>)
        requires
            a.read_from(buf),
            b.read_from(buf),
        ensures
            a == b,
    {
        layout::lemma_reads_determine(
            buf,
            Self::bit_fields(),
            a.bit_values(),
            b.bit_values(),
            Self::join_fields(),
            a.join_values(),
            b.join_values(),
            Self::tail(),
            a.tail_data(),
            b.tail_data(),
        );
        Self::lemma_values_determine(a, b);
    }

    /// A packet reads back from what it was encoded to.
    pub proof fn lemma_roundtrip(self, buf: Seq<u32>)
        requires
            Self::layout_wf(),
            self.fits(),
            buf.len() >= self.size(),
        ensures
            self.read_from(self.spec_encode(buf)),
            Self::decodable(self.spec_encode(buf)),
            self.spec_encode(buf).len() == buf.len(),
    {
        layout::lemma_packet_roundtrip(
            buf,
            Self::bit_fields(),
            self.bit_values(),
            Self::join_fields(),
            self.join_values(),
            Self::tail(),
            self.tail_data(),
            Self::STATIC_DWORDS as nat,
        );
    }
}

/// The `CopyBroadcastLinear` packet.
#[derive(Clone, Copy, Default)]
pub struct CopyBroadcastLinear {
    pub encrypt: bool,
    pub tmz: bool,
    pub broadcast: bool,
    pub count: u32,
    pub dst2_sw: u8,
    pub dst1_sw: u8,
    pub src_sw: u8,
    pub src_addr: u64,
    pub dst1_addr: u64,
    pub dst2_addr: u64,
}

impl CopyBroadcastLinear {
    /// Dwords of the packet before its variable-length tail.
    pub const STATIC_DWORDS: usize = 9;

    pub open spec fn bit_fields() -> Seq<BitField> {
        seq![BitField { dw: 0, mask: 0x1, shift: 16 }, BitField { dw: 0, mask: 0x1, shift: 18 }, BitField { dw: 0, mask: 0x1, shift: 27 }, BitField { dw: 1, mask: 0x3fffff, shift: 0 }, BitField { dw: 2, mask: 0x3, shift: 8 }, BitField { dw: 2, mask: 0x3, shift: 16 }, BitField { dw: 2, mask: 0x3, shift: 24 }]
    }

    pub open spec fn join_fields() -> Seq<JoinField> {
        seq![JoinField { lo: 3, hi: 4 }, JoinField { lo: 5, hi: 6 }, JoinField { lo: 7, hi: 8 }]
    }

    pub open spec fn tail() -> Option<DynField> {
        None
    }

    pub open spec fn bit_values(self) -> Seq<u32> {
        seq![layout::bool_bit(self.encrypt), layout::bool_bit(self.tmz), layout::bool_bit(self.broadcast), self.count, self.dst2_sw as u32, self.dst1_sw as u32, self.src_sw as u32]
    }

    pub open spec fn join_values(self) -> Seq<u64> {
        seq![self.src_addr, self.dst1_addr, self.dst2_addr]
    }

    pub open spec fn tail_data(self) -> Seq<u32> {
        Seq::<u32>::empty()
    }

    /// Every field value fits its field.
    pub open spec fn fits(self) -> bool {
        layout::fields_fit(Self::bit_fields(), self.bit_values()) && layout::tail_fits(Self::tail(), self.tail_data())
    }

    pub open spec fn layout_wf() -> bool {
        layout::layout_wf(Self::bit_fields(), Self::join_fields(), Self::tail(), Self::STATIC_DWORDS as nat)
    }

    /// Dwords that the packet takes.
    pub open spec fn size(self) -> nat {
        (Self::STATIC_DWORDS + self.tail_data().len()) as nat
    }

    /// The buffer holds the whole packet.
    pub open spec fn decodable(buf: Seq<u32>) -> bool {
        buf.len() >= Self::STATIC_DWORDS
    }

    pub open spec fn spec_encode(self, buf: Seq<u32>) -> Seq<u32> {
        layout::encode_packet(
            buf,
            Self::bit_fields(),
            self.bit_values(),
            Self::join_fields(),
            self.join_values(),
            Self::tail(),
            self.tail_data(),
        )
    }

    /// `buf` holds this packet.
    pub open spec fn read_from(self, buf: Seq<u32>) -> bool {
        layout::packet_reads(
            buf,
            Self::bit_fields(),
            self.bit_values(),
            Self::join_fields(),
            self.join_values(),
            Self::tail(),
            self.tail_data(),
        )
    }

    fn exec_bit_fields() -> (r: Vec<BitField>)
        ensures
            r@ == Self::bit_fields(),
    {
        vec![BitField { dw: 0, mask: 0x1, shift: 16 }, BitField { dw: 0, mask: 0x1, shift: 18 }, BitField { dw: 0, mask: 0x1, shift: 27 }, BitField { dw: 1, mask: 0x3fffff, shift: 0 }, BitField { dw: 2, mask: 0x3, shift: 8 }, BitField { dw: 2, mask: 0x3, shift: 16 }, BitField { dw: 2, mask: 0x3, shift: 24 }]
    }

    fn exec_join_fields() -> (r: Vec<JoinField>)
        ensures
            r@ == Self::join_fields(),
    {
        vec![JoinField { lo: 3, hi: 4 }, JoinField { lo: 5, hi: 6 }, JoinField { lo: 7, hi: 8 }]
    }

    /// Whether the field layout of this packet is well formed.
    pub fn layout_ok() -> (r: bool)
        ensures
            r == Self::layout_wf(),
    {
        layout_is_wf(&Self::exec_bit_fields(), &Self::exec_join_fields(), None, Self::STATIC_DWORDS)
    }

    /// Writes the packet to the start of `buff`, without its header, and
    /// returns how many dwords it took.
    pub fn partial_encode_linear(&self, buff: &mut [u32]) -> (n: usize)
        requires
            old(buff)@.len() >= self.size(),
            self.fits(),
        ensures
            n == self.size(),
            final(buff)@ == self.spec_encode(old(buff)@),
            final(buff)@.len() == old(buff)@.len(),
    {
        let bits = Self::exec_bit_fields();
        let vals: Vec<u32> = vec![to_bit(self.encrypt), to_bit(self.tmz), to_bit(self.broadcast), self.count, layout::widen_u8(self.dst2_sw), layout::widen_u8(self.dst1_sw), layout::widen_u8(self.src_sw)];
        let joins = Self::exec_join_fields();
        let jvals: Vec<u64> = vec![self.src_addr, self.dst1_addr, self.dst2_addr];
        proof {
            assert(vals@ =~= self.bit_values());
            assert(jvals@ =~= self.join_values());
        }
        encode_bit_fields(&bits, &vals, buff);
        encode_join_fields(&joins, &jvals, buff);
        Self::STATIC_DWORDS
    }

    /// Reads the packet at the start of `buff` and returns how many dwords it
    /// took.
    pub fn partial_decode_linear(buff: &[u32]) -> (r: (usize, Self))
        requires
            Self::decodable(buff@),
        ensures
            r.0 == r.1.size(),
            r.1.read_from(buff@),
    {
        let bits = Self::exec_bit_fields();
        let v = decode_bit_fields(&bits, buff);
        let joins = Self::exec_join_fields();
        let j = decode_join_fields(&joins, buff);
        let p = Self { encrypt: v[0] != 0, tmz: v[1] != 0, broadcast: v[2] != 0, count: v[3], dst2_sw: layout::narrow_u8(v[4]), dst1_sw: layout::narrow_u8(v[5]), src_sw: layout::narrow_u8(v[6]), src_addr: j[0], dst1_addr: j[1], dst2_addr: j[2] };
        proof {
            assert(p.bit_values() =~= v@);
            assert(p.join_values() =~= j@);
        }
        (Self::STATIC_DWORDS, p)
    }

    /// Where each field stands in a buffer that the packet is read from, as
    /// the packet header lays it out: a bit field under its mask and shift
    /// in its dword, a 64-bit field in two dwords, low half first. By
    /// `lemma_roundtrip`, encoding a packet puts its fields there.
    pub proof fn lemma_field_positions(self, buf: Seq<u32>)
        requires
            self.read_from(buf),
        ensures
            layout::bool_bit(self.encrypt) == layout::get_bits(buf[0], 0x1, 16),
            layout::bool_bit(self.tmz) == layout::get_bits(buf[0], 0x1, 18),
            layout::bool_bit(self.broadcast) == layout::get_bits(buf[0], 0x1, 27),
            self.count == layout::get_bits(buf[1], 0x3fffff, 0),
            layout::u8_value(self.dst2_sw) == layout::get_bits(buf[2], 0x3, 8),
            layout::u8_value(self.dst1_sw) == layout::get_bits(buf[2], 0x3, 16),
            layout::u8_value(self.src_sw) == layout::get_bits(buf[2], 0x3, 24),
            self.src_addr == layout::dword_pair(buf[3], buf[4]),
            self.dst1_addr == layout::dword_pair(buf[5], buf[6]),
            self.dst2_addr == layout::dword_pair(buf[7], buf[8]),
    {
        assert(self.bit_values()[0] == layout::bool_bit(self.encrypt));
        assert(layout::decode_bits(buf, Self::bit_fields())[0] == self.bit_values()[0]);
        assert(self.bit_values()[1] == layout::bool_bit(self.tmz));
        assert(layout::decode_bits(buf, Self::bit_fields())[1] == self.bit_values()[1]);
        assert(self.bit_values()[2] == layout::bool_bit(self.broadcast));
        assert(layout::decode_bits(buf, Self::bit_fields())[2] == self.bit_values()[2]);
        assert(self.bit_values()[3] == self.count);
        assert(layout::decode_bits(buf, Self::bit_fields())[3] == self.bit_values()[3]);
        assert(self.bit_values()[4] == layout::u8_value(self.dst2_sw));
        assert(layout::decode_bits(buf, Self::bit_fields())[4] == self.bit_values()[4]);
        assert(self.bit_values()[5] == layout::u8_value(self.dst1_sw));
        assert(layout::decode_bits(buf, Self::bit_fields())[5] == self.bit_values()[5]);
        assert(self.bit_values()[6] == layout::u8_value(self.src_sw));
        assert(layout::decode_bits(buf, Self::bit_fields())[6] == self.bit_values()[6]);
        assert(layout::decode_joins(buf, Self::join_fields())[0] == self.join_values()[0]);
        assert(layout::decode_joins(buf, Self::join_fields())[1] == self.join_values()[1]);
        assert(layout::decode_joins(buf, Self::join_fields())[2] == self.join_values()[2]);
    }

    /// The field values name the packet: two packets with the same values are
    /// equal.
    pub proof fn lemma_values_determine(a: Self, b: Self)
        requires
            a.bit_values() == b.bit_values(),
            a.join_values() == b.join_values(),
            a.tail_data() == b.tail_data(),
        ensures
            a == b,
    {
        assert(a.bit_values()[0] == layout::bool_bit(a.encrypt) && b.bit_values()[0] == layout::bool_bit(b.encrypt));
        assert(a.bit_values()[1] == layout::bool_bit(a.tmz) && b.bit_values()[1] == layout::bool_bit(b.tmz));
        assert(a.bit_values()[2] == layout::bool_bit(a.broadcast) && b.bit_values()[2] == layout::bool_bit(b.broadcast));
        assert(a.bit_values()[3] == a.count && b.bit_values()[3] == b.count);
        assert(a.bit_values()[4] == layout::u8_value(a.dst2_sw) && b.bit_values()[4] == layout::u8_value(b.dst2_sw));
        assert(a.bit_values()[5] == layout::u8_value(a.dst1_sw) && b.bit_values()[5] == layout::u8_value(b.dst1_sw));
        assert(a.bit_values()[6] == layout::u8_value(a.src_sw) && b.bit_values()[6] == layout::u8_value(b.src_sw));
        assert(a.join_values()[0] == a.src_addr && b.join_values()[0] == b.src_addr);
        assert(a.join_values()[1] == a.dst1_addr && b.join_values()[1] == b.dst1_addr);
        assert(a.join_values()[2] == a.dst2_addr && b.join_values()[2] == b.dst2_addr);
    }

    /// Reading a packet is exact: two packets read from one buffer are equal.
    pub proof fn lemma_read_unique(a: Self, b: Self, buf: Seq<u32>)
        requires
            a.read_from(buf),
            b.read_from(buf),
        ensures
            a == b,
    {
        layout::lemma_reads_determine(
            buf,
            Self::bit_fields(),
            a.bit_values(),
            b.bit_values(),
            Self::join_fields(),
            a.join_values(),
            b.join_values(),
            Self::tail(),
            a.tail_data(),
            b.tail_data(),
        );
        Self::lemma_values_determine(a, b);
    }

    /// A packet reads back from what it was encoded to.
    pub proof fn lemma_roundtrip(self, buf: Seq<u32>)
        requires
            Self::layout_wf(),
            self.fits(),
            buf.len() >= self.size(),
        ensures
            self.read_from(self.spec_encode(buf)),
            Self::decodable(self.spec_encode(buf)),
            self.spec_encode(buf).len() == buf.len(),
    {
        layout::lemma_packet_roundtrip(
            buf,
            Self::bit_fields(),
            self.bit_values(),
            Self::join_fields(),
            self.join_values(),
            Self::tail(),
            self.tail_data(),
            Self::STATIC_DWORDS as nat,
        );
    }
}

/// The `CopyLinearSubwin` packet.
#[derive(Clone, Copy, Default)]
pub struct CopyLinearSubwin {
    pub tmz: bool,
    pub elementsize: u8,
    pub src_x: u16,
    pub src_y: u16,
    pub src_z: u16,
    pub src_pitch: u32,
    pub src_slice_pitch: u32,
    pub dst_x: u16,
    pub dst_y: u16,
    pub dst_z: u16,
    pub dst_pitch: u32,
    pub dst_slice_pitch: u32,
    pub rect_x: u16,
    pub rect_y: u16,
    pub rect_z: u16,
    pub dst_sw: u8,
    pub src_sw: u8,
    pub src_addr: u64,
    pub dst_addr: u64,
}

impl CopyLinearSubwin {
    /// Dwords of the packet before its variable-length tail.
    pub const STATIC_DWORDS: usize = 13;

    pub open spec fn bit_fields() -> Seq<BitField> {
        seq![BitField { dw: 0, mask: 0x1, shift: 18 }, BitField { dw: 0, mask: 0x7, shift: 29 }, BitField { dw: 3, mask: 0x3fff, shift: 0 }, BitField { dw: 3, mask: 0x3fff, shift: 16 }, BitField { dw: 4, mask: 0x7ff, shift: 0 }, BitField { dw: 4, mask: 0x7ffff, shift: 13 }, BitField { dw: 5, mask: 0xfffffff, shift: 0 }, BitField { dw: 8, mask: 0x3fff, shift: 0 }, BitField { dw: 8, mask: 0x3fff, shift: 16 }, BitField { dw: 9, mask: 0x7ff, shift: 0 }, BitField { dw: 9, mask: 0x7ffff, shift: 13 }, BitField { dw: 10, mask: 0xfffffff, shift: 0 }, BitField { dw: 11, mask: 0x3fff, shift: 0 }, BitField { dw: 11, mask: 0x3fff, shift: 16 }, BitField { dw: 12, mask: 0x7ff, shift: 0 }, BitField { dw: 12, mask: 0x3, shift: 16 }, BitField { dw: 12, mask: 0x3, shift: 24 }]
    }

    pub open spec fn join_fields() -> Seq<JoinField> {
        seq![JoinField { lo: 1, hi: 2 }, JoinField { lo: 6, hi: 7 }]
    }

    pub open spec fn tail() -> Option<DynField> {
        None
    }

    pub open spec fn bit_values(self) -> Seq<u32> {
        seq![layout::bool_bit(self.tmz), self.elementsize as u32, self.src_x as u32, self.src_y as u32, self.src_z as u32, self.src_pitch, self.src_slice_pitch, self.dst_x as u32, self.dst_y as u32, self.dst_z as u32, self.dst_pitch, self.dst_slice_pitch, self.rect_x as u32, self.rect_y as u32, self.rect_z as u32, self.dst_sw as u32, self.src_sw as u32]
    }

    pub open spec fn join_values(self) -> Seq<u64> {
        seq![self.src_addr, self.dst_addr]
    }

    pub open spec fn tail_data(self) -> Seq<u32> {
        Seq::<u32>::empty()
    }

    /// Every field value fits its field.
    pub open spec fn fits(self) -> bool {
        layout::fields_fit(Self::bit_fields(), self.bit_values()) && layout::tail_fits(Self::tail(), self.tail_data())
    }

    pub open spec fn layout_wf() -> bool {
        layout::layout_wf(Self::bit_fields(), Self::join_fields(), Self::tail(), Self::STATIC_DWORDS as nat)
    }

    /// Dwords that the packet takes.
    pub open spec fn size(self) -> nat {
        (Self::STATIC_DWORDS + self.tail_data().len()) as nat
    }

    /// The buffer holds the whole packet.
    pub open spec fn decodable(buf: Seq<u32>) -> bool {
        buf.len() >= Self::STATIC_DWORDS
    }

    pub open spec fn spec_encode(self, buf: Seq<u32>) -> Seq<u32> {
        layout::encode_packet(
            buf,
            Self::bit_fields(),
            self.bit_values(),
            Self::join_fields(),
            self.join_values(),
            Self::tail(),
            self.tail_data(),
        )
    }

    /// `buf` holds this packet.
    pub open spec fn read_from(self, buf: Seq<u32>) -> bool {
        layout::packet_reads(
            buf,
            Self::bit_fields(),
            self.bit_values(),
            Self::join_fields(),
            self.join_values(),
            Self::tail(),
            self.tail_data(),
        )
    }

    fn exec_bit_fields() -> (r: Vec<BitField>)
        ensures
            r@ == Self::bit_fields(),
    {
        vec![BitField { dw: 0, mask: 0x1, shift: 18 }, BitField { dw: 0, mask: 0x7, shift: 29 }, BitField { dw: 3, mask: 0x3fff, shift: 0 }, BitField { dw: 3, mask: 0x3fff, shift: 16 }, BitField { dw: 4, mask: 0x7ff, shift: 0 }, BitField { dw: 4, mask: 0x7ffff, shift: 13 }, BitField { dw: 5, mask: 0xfffffff, shift: 0 }, BitField { dw: 8, mask: 0x3fff, shift: 0 }, BitField { dw: 8, mask: 0x3fff, shift: 16 }, BitField { dw: 9, mask: 0x7ff, shift: 0 }, BitField { dw: 9, mask: 0x7ffff, shift: 13 }, BitField { dw: 10, mask: 0xfffffff, shift: 0 }, BitField { dw: 11, mask: 0x3fff, shift: 0 }, BitField { dw: 11, mask: 0x3fff, shift: 16 }, BitField { dw: 12, mask: 0x7ff, shift: 0 }, BitField { dw: 12, mask: 0x3, shift: 16 }, BitField { dw: 12, mask: 0x3, shift: 24 }]
    }

    fn exec_join_fields() -> (r: Vec<JoinField>)
        ensures
            r@ == Self::join_fields(),
    {
        vec![JoinField { lo: 1, hi: 2 }, JoinField { lo: 6, hi: 7 }]
    }

    /// Whether the field layout of this packet is well formed.
    pub fn layout_ok() -> (r: bool)
        ensures
            r == Self::layout_wf(),
    {
        layout_is_wf(&Self::exec_bit_fields(), &Self::exec_join_fields(), None, Self::STATIC_DWORDS)
    }

    /// Writes the packet to the start of `buff`, without its header, and
    /// returns how many dwords it took.
    pub fn partial_encode_linear(&self, buff: &mut [u32]) -> (n: usize)
        requires
            old(buff)@.len() >= self.size(),
            self.fits(),
        ensures
            n == self.size(),
            final(buff)@ == self.spec_encode(old(buff)@),
            final(buff)@.len() == old(buff)@.len(),
    {
        let bits = Self::exec_bit_fields();
        let vals: Vec<u32> = vec![to_bit(self.tmz), layout::widen_u8(self.elementsize), layout::widen_u16(self.src_x), layout::widen_u16(self.src_y), layout::widen_u16(self.src_z), self.src_pitch, self.src_slice_pitch, layout::widen_u16(self.dst_x), layout::widen_u16(self.dst_y), layout::widen_u16(self.dst_z), self.dst_pitch, self.dst_slice_pitch, layout::widen_u16(self.rect_x), layout::widen_u16(self.rect_y), layout::widen_u16(self.rect_z), layout::widen_u8(self.dst_sw), layout::widen_u8(self.src_sw)];
        let joins = Self::exec_join_fields();
        let jvals: Vec<u64> = vec![self.src_addr, self.dst_addr];
        proof {
            assert(vals@ =~= self.bit_values());
            assert(jvals@ =~= self.join_values());
        }
        encode_bit_fields(&bits, &vals, buff);
        encode_join_fields(&joins, &jvals, buff);
        Self::STATIC_DWORDS
    }

    /// Reads the packet at the start of `buff` and returns how many dwords it
    /// took.
    #[verifier::rlimit(40)]
    pub fn partial_decode_linear(buff: &[u32]) -> (r: (usize, Self))
        requires
            Self::decodable(buff@),
        ensures
            r.0 == r.1.size(),
            r.1.read_from(buff@),
    {
        let bits = Self::exec_bit_fields();
        let v = decode_bit_fields(&bits, buff);
        let joins = Self::exec_join_fields();
        let j = decode_join_fields(&joins, buff);
        let p = Self { tmz: v[0] != 0, elementsize: layout::narrow_u8(v[1]), src_x: layout::narrow_u16(v[2]), src_y: layout::narrow_u16(v[3]), src_z: layout::narrow_u16(v[4]), src_pitch: v[5], src_slice_pitch: v[6], dst_x: layout::narrow_u16(v[7]), dst_y: layout::narrow_u16(v[8]), dst_z: layout::narrow_u16(v[9]), dst_pitch: v[10], dst_slice_pitch: v[11], rect_x: layout::narrow_u16(v[12]), rect_y: layout::narrow_u16(v[13]), rect_z: layout::narrow_u16(v[14]), dst_sw: layout::narrow_u8(v[15]), src_sw: layout::narrow_u8(v[16]), src_addr: j[0], dst_addr: j[1] };
        proof {
            assert(p.bit_values() =~= v@);
            assert(p.join_values() =~= j@);
        }
        (Self::STATIC_DWORDS, p)
    }

    /// Where each field stands in a buffer that the packet is read from, as
    /// the packet header lays it out: a bit field under its mask and shift
    /// in its dword, a 64-bit field in two dwords, low half first. By
    /// `lemma_roundtrip`, encoding a packet puts its fields there.
    #[verifier::rlimit(40)]
    pub proof fn lemma_field_positions(self, buf: Seq<u32>)
        requires
            self.read_from(buf),
        ensures
            layout::bool_bit(self.tmz) == layout::get_bits(buf[0], 0x1, 18),
            layout::u8_value(self.elementsize) == layout::get_bits(buf[0], 0x7, 29),
            layout::u16_value(self.src_x) == layout::get_bits(buf[3], 0x3fff, 0),
            layout::u16_value(self.src_y) == layout::get_bits(buf[3], 0x3fff, 16),
            layout::u16_value(self.src_z) == layout::get_bits(buf[4], 0x7ff, 0),
            self.src_pitch == layout::get_bits(buf[4], 0x7ffff, 13),
            self.src_slice_pitch == layout::get_bits(buf[5], 0xfffffff, 0),
            layout::u16_value(self.dst_x) == layout::get_bits(buf[8], 0x3fff, 0),
            layout::u16_value(self.dst_y) == layout::get_bits(buf[8], 0x3fff, 16),
            layout::u16_value(self.dst_z) == layout::get_bits(buf[9], 0x7ff, 0),
            self.dst_pitch == layout::get_bits(buf[9], 0x7ffff, 13),
            self.dst_slice_pitch == layout::get_bits(buf[10], 0xfffffff, 0),
            layout::u16_value(self.rect_x) == layout::get_bits(buf[11], 0x3fff, 0),
            layout::u16_value(self.rect_y) == layout::get_bits(buf[11], 0x3fff, 16),
            layout::u16_value(self.rect_z) == layout::get_bits(buf[12], 0x7ff, 0),
            layout::u8_value(self.dst_sw) == layout::get_bits(buf[12], 0x3, 16),
            layout::u8_value(self.src_sw) == layout::get_bits(buf[12], 0x3, 24),
            self.src_addr == layout::dword_pair(buf[1], buf[2]),
            self.dst_addr == layout::dword_pair(buf[6], buf[7]),
    {
        assert(self.bit_values()[0] == layout::bool_bit(self.tmz));
        assert(layout::decode_bits(buf, Self::bit_fields())[0] == self.bit_values()[0]);
        assert(self.bit_values()[1] == layout::u8_value(self.elementsize));
        assert(layout::decode_bits(buf, Self::bit_fields())[1] == self.bit_values()[1]);
        assert(self.bit_values()[2] == layout::u16_value(self.src_x));
        assert(layout::decode_bits(buf, Self::bit_fields())[2] == self.bit_values()[2]);
        assert(self.bit_values()[3] == layout::u16_value(self.src_y));
        assert(layout::decode_bits(buf, Self::bit_fields())[3] == self.bit_values()[3]);
        assert(self.bit_values()[4] == layout::u16_value(self.src_z));
        assert(layout::decode_bits(buf, Self::bit_fields())[4] == self.bit_values()[4]);
        assert(self.bit_values()[5] == self.src_pitch);
        assert(layout::decode_bits(buf, Self::bit_fields())[5] == self.bit_values()[5]);
        assert(self.bit_values()[6] == self.src_slice_pitch);
        assert(layout::decode_bits(buf, Self::bit_fields())[6] == self.bit_values()[6]);
        assert(self.bit_values()[7] == layout::u16_value(self.dst_x));
        assert(layout::decode_bits(buf, Self::bit_fields())[7] == self.bit_values()[7]);
        assert(self.bit_values()[8] == layout::u16_value(self.dst_y));
        assert(layout::decode_bits(buf, Self::bit_fields())[8] == self.bit_values()[8]);
        assert(self.bit_values()[9] == layout::u16_value(self.dst_z));
        assert(layout::decode_bits(buf, Self::bit_fields())[9] == self.bit_values()[9]);
        assert(self.bit_values()[10] == self.dst_pitch);
        assert(layout::decode_bits(buf, Self::bit_fields())[10] == self.bit_values()[10]);
        assert(self.bit_values()[11] == self.dst_slice_pitch);
        assert(layout::decode_bits(buf, Self::bit_fields())[11] == self.bit_values()[11]);
        assert(self.bit_values()[12] == layout::u16_value(self.rect_x));
        assert(layout::decode_bits(buf, Self::bit_fields())[12] == self.bit_values()[12]);
        assert(self.bit_values()[13] == layout::u16_value(self.rect_y));
        assert(layout::decode_bits(buf, Self::bit_fields())[13] == self.bit_values()[13]);
        assert(self.bit_values()[14] == layout::u16_value(self.rect_z));
        assert(layout::decode_bits(buf, Self::bit_fields())[14] == self.bit_values()[14]);
        assert(self.bit_values()[15] == layout::u8_value(self.dst_sw));
        assert(layout::decode_bits(buf, Self::bit_fields())[15] == self.bit_values()[15]);
        assert(self.bit_values()[16] == layout::u8_value(self.src_sw));
        assert(layout::decode_bits(buf, Self::bit_fields())[16] == self.bit_values()[16]);
        assert(layout::decode_joins(buf, Self::join_fields())[0] == self.join_values()[0]);
        assert(layout::decode_joins(buf, Self::join_fields())[1] == self.join_values()[1]);
    }

    /// The field values name the packet: two packets with the same values are
    /// equal.
    #[verifier::rlimit(40)]
    pub proof fn lemma_values_determine(a: Self, b: Self)
        requires
            a.bit_values() == b.bit_values(),
            a.join_values() == b.join_values(),
            a.tail_data() == b.tail_data(),
        ensures
            a == b,
    {
        assert(a.bit_values()[0] == layout::bool_bit(a.tmz) && b.bit_values()[0] == layout::bool_bit(b.tmz));
        assert(a.bit_values()[1] == layout::u8_value(a.elementsize) && b.bit_values()[1] == layout::u8_value(b.elementsize));
        assert(a.bit_values()[2] == layout::u16_value(a.src_x) && b.bit_values()[2] == layout::u16_value(b.src_x));
        assert(a.bit_values()[3] == layout::u16_value(a.src_y) && b.bit_values()[3] == layout::u16_value(b.src_y));
        assert(a.bit_values()[4] == layout::u16_value(a.src_z) && b.bit_values()[4] == layout::u16_value(b.src_z));
        assert(a.bit_values()[5] == a.src_pitch && b.bit_values()[5] == b.src_pitch);
        assert(a.bit_values()[6] == a.src_slice_pitch && b.bit_values()[6] == b.src_slice_pitch);
        assert(a.bit_values()[7] == layout::u16_value(a.dst_x) && b.bit_values()[7] == layout::u16_value(b.dst_x));
        assert(a.bit_values()[8] == layout::u16_value(a.dst_y) && b.bit_values()[8] == layout::u16_value(b.dst_y));
        assert(a.bit_values()[9] == layout::u16_value(a.dst_z) && b.bit_values()[9] == layout::u16_value(b.dst_z));
        assert(a.bit_values()[10] == a.dst_pitch && b.bit_values()[10] == b.dst_pitch);
        assert(a.bit_values()[11] == a.dst_slice_pitch && b.bit_values()[11] == b.dst_slice_pitch);
        assert(a.bit_values()[12] == layout::u16_value(a.rect_x) && b.bit_values()[12] == layout::u16_value(b.rect_x));
        assert(a.bit_values()[13] == layout::u16_value(a.rect_y) && b.bit_values()[13] == layout::u16_value(b.rect_y));
        assert(a.bit_values()[14] == layout::u16_value(a.rect_z) && b.bit_values()[14] == layout::u16_value(b.rect_z));
        assert(a.bit_values()[15] == layout::u8_value(a.dst_sw) && b.bit_values()[15] == layout::u8_value(b.dst_sw));
        assert(a.bit_values()[16] == layout::u8_value(a.src_sw) && b.bit_values()[16] == layout::u8_value(b.src_sw));
        assert(a.join_values()[0] == a.src_addr && b.join_values()[0] == b.src_addr);
        assert(a.join_values()[1] == a.dst_addr && b.join_values()[1] == b.dst_addr);
    }

    /// Reading a packet is exact: two packets read from one buffer are equal.
    pub proof fn lemma_read_unique(a: Self, b: Self, buf: Seq<u32>)
        requires
            a.read_from(buf),
            b.read_from(buf),
        ensures
            a == b,
    {
        layout::lemma_reads_determine(
            buf,
            Self::bit_fields(),
            a.bit_values(),
            b.bit_values(),
            Self::join_fields(),
            a.join_values(),
            b.join_values(),
            Self::tail(),
            a.tail_data(),
            b.tail_data(),
        );
        Self::lemma_values_determine(a, b);
    }

    /// A packet reads back from what it was encoded to.
    pub proof fn lemma_roundtrip(self, buf: Seq<u32>)
        requires
            Self::layout_wf(),
            self.fits(),
            buf.len() >= self.size(),
        ensures
            self.read_from(self.spec_encode(buf)),
            Self::decodable(self.spec_encode(buf)),
            self.spec_encode(buf).len() == buf.len(),
    {
        layout::lemma_packet_roundtrip(
            buf,
            Self::bit_fields(),
            self.bit_values(),
            Self::join_fields(),
            self.join_values(),
            Self::tail(),
            self.tail_data(),
            Self::STATIC_DWORDS as nat,
        );
    }
}

/// The `CopyTiled` packet.
#[derive(Clone, Copy, Default)]
pub struct CopyTiled {
    pub encrypt: bool,
    pub tmz: bool,
    pub mip_max: u8,
    pub detile: bool,
    pub width: u16,
    pub height: u16,
    pub depth: u16,
    pub element_size: u8,
    pub swizzle_mode: u8,
    pub dimension: u8,
    pub epitch: u16,
    pub x: u16,
    pub y: u16,
    pub z: u16,
    pub linear_sw: u8,
    pub tile_sw: u8,
    pub linear_pitch: u32,
    pub count: u32,
    pub linear_slice_pitch: u32,
    pub tiled_addr: u64,
    pub linear_addr: u64,
}

impl CopyTiled {
    /// Dwords of the packet before its variable-length tail.
    pub const STATIC_DWORDS: usize = 13;

    pub open spec fn bit_fields() -> Seq<BitField> {
        seq![BitField { dw: 0, mask: 0x1, shift: 16 }, BitField { dw: 0, mask: 0x1, shift: 18 }, BitField { dw: 0, mask: 0xf, shift: 20 }, BitField { dw: 0, mask: 0x1, shift: 31 }, BitField { dw: 3, mask: 0x3fff, shift: 0 }, BitField { dw: 4, mask: 0x3fff, shift: 0 }, BitField { dw: 4, mask: 0x7ff, shift: 16 }, BitField { dw: 5, mask: 0x7, shift: 0 }, BitField { dw: 5, mask: 0x1f, shift: 3 }, BitField { dw: 5, mask: 0x3, shift: 9 }, BitField { dw: 5, mask: 0xffff, shift: 16 }, BitField { dw: 6, mask: 0x3fff, shift: 0 }, BitField { dw: 6, mask: 0x3fff, shift: 16 }, BitField { dw: 7, mask: 0x7ff, shift: 0 }, BitField { dw: 7, mask: 0x3, shift: 16 }, BitField { dw: 7, mask: 0x3, shift: 24 }, BitField { dw: 10, mask: 0x7ffff, shift: 0 }, BitField { dw: 12, mask: 0xfffff, shift: 0 }, BitField { dw: 11, mask: 0xffffffff, shift: 0 }]
    }

    pub open spec fn join_fields() -> Seq<JoinField> {
        seq![JoinField { lo: 1, hi: 2 }, JoinField { lo: 8, hi: 9 }]
    }

    pub open spec fn tail() -> Option<DynField> {
        None
    }

    pub open spec fn bit_values(self) -> Seq<u32> {
        seq![layout::bool_bit(self.encrypt), layout::bool_bit(self.tmz), self.mip_max as u32, layout::bool_bit(self.detile), self.width as u32, self.height as u32, self.depth as u32, self.element_size as u32, self.swizzle_mode as u32, self.dimension as u32, self.epitch as u32, self.x as u32, self.y as u32, self.z as u32, self.linear_sw as u32, self.tile_sw as u32, self.linear_pitch, self.count, self.linear_slice_pitch]
    }

    pub open spec fn join_values(self) -> Seq<u64> {
        seq![self.tiled_addr, self.linear_addr]
    }

    pub open spec fn tail_data(self) -> Seq<u32> {
        Seq::<u32>::empty()
    }

    /// Every field value fits its field.
    pub open spec fn fits(self) -> bool {
        layout::fields_fit(Self::bit_fields(), self.bit_values()) && layout::tail_fits(Self::tail(), self.tail_data())
    }

    pub open spec fn layout_wf() -> bool {
        layout::layout_wf(Self::bit_fields(), Self::join_fields(), Self::tail(), Self::STATIC_DWORDS as nat)
    }

    /// Dwords that the packet takes.
    pub open spec fn size(self) -> nat {
        (Self::STATIC_DWORDS + self.tail_data().len()) as nat
    }

    /// The buffer holds the whole packet.
    pub open spec fn decodable(buf: Seq<u32>) -> bool {
        buf.len() >= Self::STATIC_DWORDS
    }

    pub open spec fn spec_encode(self, buf: Seq<u32>) -> Seq<u32> {
        layout::encode_packet(
            buf,
            Self::bit_fields(),
            self.bit_values(),
            Self::join_fields(),
            self.join_values(),
            Self::tail(),
            self.tail_data(),
        )
    }

    /// `buf` holds this packet.
    pub open spec fn read_from(self, buf: Seq<u32>) -> bool {
        layout::packet_reads(
            buf,
            Self::bit_fields(),
            self.bit_values(),
            Self::join_fields(),
            self.join_values(),
            Self::tail(),
            self.tail_data(),
        )
    }

    fn exec_bit_fields() -> (r: Vec<BitField>)
        ensures
            r@ == Self::bit_fields(),
    {
        vec![BitField { dw: 0, mask: 0x1, shift: 16 }, BitField { dw: 0, mask: 0x1, shift: 18 }, BitField { dw: 0, mask: 0xf, shift: 20 }, BitField { dw: 0, mask: 0x1, shift: 31 }, BitField { dw: 3, mask: 0x3fff, shift: 0 }, BitField { dw: 4, mask: 0x3fff, shift: 0 }, BitField { dw: 4, mask: 0x7ff, shift: 16 }, BitField { dw: 5, mask: 0x7, shift: 0 }, BitField { dw: 5, mask: 0x1f, shift: 3 }, BitField { dw: 5, mask: 0x3, shift: 9 }, BitField { dw: 5, mask: 0xffff, shift: 16 }, BitField { dw: 6, mask: 0x3fff, shift: 0 }, BitField { dw: 6, mask: 0x3fff, shift: 16 }, BitField { dw: 7, mask: 0x7ff, shift: 0 }, BitField { dw: 7, mask: 0x3, shift: 16 }, BitField { dw: 7, mask: 0x3, shift: 24 }, BitField { dw: 10, mask: 0x7ffff, shift: 0 }, BitField { dw: 12, mask: 0xfffff, shift: 0 }, BitField { dw: 11, mask: 0xffffffff, shift: 0 }]
    }

    fn exec_join_fields() -> (r: Vec<JoinField>)
        ensures
            r@ == Self::join_fields(),
    {
        vec![JoinField { lo: 1, hi: 2 }, JoinField { lo: 8, hi: 9 }]
    }

    /// Whether the field layout of this packet is well formed.
    pub fn layout_ok() -> (r: bool)
        ensures
            r == Self::layout_wf(),
    {
        layout_is_wf(&Self::exec_bit_fields(), &Self::exec_join_fields(), None, Self::STATIC_DWORDS)
    }

    /// Writes the packet to the start of `buff`, without its header, and
    /// returns how many dwords it took.
    pub fn partial_encode_linear(&self, buff: &mut [u32]) -> (n: usize)
        requires
            old(buff)@.len() >= self.size(),
            self.fits(),
        ensures
            n == self.size(),
            final(buff)@ == self.spec_encode(old(buff)@),
            final(buff)@.len() == old(buff)@.len(),
    {
        let bits = Self::exec_bit_fields();
        let vals: Vec<u32> = vec![to_bit(self.encrypt), to_bit(self.tmz), layout::widen_u8(self.mip_max), to_bit(self.detile), layout::widen_u16(self.width), layout::widen_u16(self.height), layout::widen_u16(self.depth), layout::widen_u8(self.element_size), layout::widen_u8(self.swizzle_mode), layout::widen_u8(self.dimension), layout::widen_u16(self.epitch), layout::widen_u16(self.x), layout::widen_u16(self.y), layout::widen_u16(self.z), layout::widen_u8(self.linear_sw), layout::widen_u8(self.tile_sw), self.linear_pitch, self.count, self.linear_slice_pitch];
        let joins = Self::exec_join_fields();
        let jvals: Vec<u64> = vec![self.tiled_addr, self.linear_addr];
        proof {
            assert(vals@ =~= self.bit_values());
            assert(jvals@ =~= self.join_values());
        }
        encode_bit_fields(&bits, &vals, buff);
        encode_join_fields(&joins, &jvals, buff);
        Self::STATIC_DWORDS
    }

    /// Reads the packet at the start of `buff` and returns how many dwords it
    /// took.
    #[verifier::rlimit(40)]
    pub fn partial_decode_linear(buff: &[u32]) -> (r: (usize, Self))
        requires
            Self::decodable(buff@),
        ensures
            r.0 == r.1.size(),
            r.1.read_from(buff@),
    {
        let bits = Self::exec_bit_fields();
        let v = decode_bit_fields(&bits, buff);
        let joins = Self::exec_join_fields();
        let j = decode_join_fields(&joins, buff);
        let p = Self { encrypt: v[0] != 0, tmz: v[1] != 0, mip_max: layout::narrow_u8(v[2]), detile: v[3] != 0, width: layout::narrow_u16(v[4]), height: layout::narrow_u16(v[5]), depth: layout::narrow_u16(v[6]), element_size: layout::narrow_u8(v[7]), swizzle_mode: layout::narrow_u8(v[8]), dimension: layout::narrow_u8(v[9]), epitch: layout::narrow_u16(v[10]), x: layout::narrow_u16(v[11]), y: layout::narrow_u16(v[12]), z: layout::narrow_u16(v[13]), linear_sw: layout::narrow_u8(v[14]), tile_sw: layout::narrow_u8(v[15]), linear_pitch: v[16], count: v[17], linear_slice_pitch: v[18], tiled_addr: j[0], linear_addr: j[1] };
        proof {
            assert(p.bit_values() =~= v@);
            assert(p.join_values() =~= j@);
        }
        (Self::STATIC_DWORDS, p)
    }

    /// Where each field stands in a buffer that the packet is read from, as
    /// the packet header lays it out: a bit field under its mask and shift
    /// in its dword, a 64-bit field in two dwords, low half first. By
    /// `lemma_roundtrip`, encoding a packet puts its fields there.
    #[verifier::rlimit(40)]
    pub proof fn lemma_field_positions(self, buf: Seq<u32>)
        requires
            self.read_from(buf),
        ensures
            layout::bool_bit(self.encrypt) == layout::get_bits(buf[0], 0x1, 16),
            layout::bool_bit(self.tmz) == layout::get_bits(buf[0], 0x1, 18),
            layout::u8_value(self.mip_max) == layout::get_bits(buf[0], 0xf, 20),
            layout::bool_bit(self.detile) == layout::get_bits(buf[0], 0x1, 31),
            layout::u16_value(self.width) == layout::get_bits(buf[3], 0x3fff, 0),
            layout::u16_value(self.height) == layout::get_bits(buf[4], 0x3fff, 0),
            layout::u16_value(self.depth) == layout::get_bits(buf[4], 0x7ff, 16),
            layout::u8_value(self.element_size) == layout::get_bits(buf[5], 0x7, 0),
            layout::u8_value(self.swizzle_mode) == layout::get_bits(buf[5], 0x1f, 3),
            layout::u8_value(self.dimension) == layout::get_bits(buf[5], 0x3, 9),
            layout::u16_value(self.epitch) == layout::get_bits(buf[5], 0xffff, 16),
            layout::u16_value(self.x) == layout::get_bits(buf[6], 0x3fff, 0),
            layout::u16_value(self.y) == layout::get_bits(buf[6], 0x3fff, 16),
            layout::u16_value(self.z) == layout::get_bits(buf[7], 0x7ff, 0),
            layout::u8_value(self.linear_sw) == layout::get_bits(buf[7], 0x3, 16),
            layout::u8_value(self.tile_sw) == layout::get_bits(buf[7], 0x3, 24),
            self.linear_pitch == layout::get_bits(buf[10], 0x7ffff, 0),
            self.count == layout::get_bits(buf[12], 0xfffff, 0),
            self.linear_slice_pitch == layout::get_bits(buf[11], 0xffffffff, 0),
            self.tiled_addr == layout::dword_pair(buf[1], buf[2]),
            self.linear_addr == layout::dword_pair(buf[8], buf[9]),
    {
        assert(self.bit_values()[0] == layout::bool_bit(self.encrypt));
        assert(layout::decode_bits(buf, Self::bit_fields())[0] == self.bit_values()[0]);
        assert(self.bit_values()[1] == layout::bool_bit(self.tmz));
        assert(layout::decode_bits(buf, Self::bit_fields())[1] == self.bit_values()[1]);
        assert(self.bit_values()[2] == layout::u8_value(self.mip_max));
        assert(layout::decode_bits(buf, Self::bit_fields())[2] == self.bit_values()[2]);
        assert(self.bit_values()[3] == layout::bool_bit(self.detile));
        assert(layout::decode_bits(buf, Self::bit_fields())[3] == self.bit_values()[3]);
        assert(self.bit_values()[4] == layout::u16_value(self.width));
        assert(layout::decode_bits(buf, Self::bit_fields())[4] == self.bit_values()[4]);
        assert(self.bit_values()[5] == layout::u16_value(self.height));
        assert(layout::decode_bits(buf, Self::bit_fields())[5] == self.bit_values()[5]);
        assert(self.bit_values()[6] == layout::u16_value(self.depth));
        assert(layout::decode_bits(buf, Self::bit_fields())[6] == self.bit_values()[6]);
        assert(self.bit_values()[7] == layout::u8_value(self.element_size));
        assert(layout::decode_bits(buf, Self::bit_fields())[7] == self.bit_values()[7]);
        assert(self.bit_values()[8] == layout::u8_value(self.swizzle_mode));
        assert(layout::decode_bits(buf, Self::bit_fields())[8] == self.bit_values()[8]);
        assert(self.bit_values()[9] == layout::u8_value(self.dimension));
        assert(layout::decode_bits(buf, Self::bit_fields())[9] == self.bit_values()[9]);
        assert(self.bit_values()[10] == layout::u16_value(self.epitch));
        assert(layout::decode_bits(buf, Self::bit_fields())[10] == self.bit_values()[10]);
        assert(self.bit_values()[11] == layout::u16_value(self.x));
        assert(layout::decode_bits(buf, Self::bit_fields())[11] == self.bit_values()[11]);
        assert(self.bit_values()[12] == layout::u16_value(self.y));
        assert(layout::decode_bits(buf, Self::bit_fields())[12] == self.bit_values()[12]);
        assert(self.bit_values()[13] == layout::u16_value(self.z));
        assert(layout::decode_bits(buf, Self::bit_fields())[13] == self.bit_values()[13]);
        assert(self.bit_values()[14] == layout::u8_value(self.linear_sw));
        assert(layout::decode_bits(buf, Self::bit_fields())[14] == self.bit_values()[14]);
        assert(self.bit_values()[15] == layout::u8_value(self.tile_sw));
        assert(layout::decode_bits(buf, Self::bit_fields())[15] == self.bit_values()[15]);
        assert(self.bit_values()[16] == self.linear_pitch);
        assert(layout::decode_bits(buf, Self::bit_fields())[16] == self.bit_values()[16]);
        assert(self.bit_values()[17] == self.count);
        assert(layout::decode_bits(buf, Self::bit_fields())[17] == self.bit_values()[17]);
        assert(self.bit_values()[18] == self.linear_slice_pitch);
        assert(layout::decode_bits(buf, Self::bit_fields())[18] == self.bit_values()[18]);
        assert(layout::decode_joins(buf, Self::join_fields())[0] == self.join_values()[0]);
        assert(layout::decode_joins(buf, Self::join_fields())[1] == self.join_values()[1]);
    }

    /// The field values name the packet: two packets with the same values are
    /// equal.
    #[verifier::rlimit(40)]
    pub proof fn lemma_values_determine(a: Self, b: Self)
        requires
            a.bit_values() == b.bit_values(),
            a.join_values() == b.join_values(),
            a.tail_data() == b.tail_data(),
        ensures
            a == b,
    {
        assert(a.bit_values()[0] == layout::bool_bit(a.encrypt) && b.bit_values()[0] == layout::bool_bit(b.encrypt));
        assert(a.bit_values()[1] == layout::bool_bit(a.tmz) && b.bit_values()[1] == layout::bool_bit(b.tmz));
        assert(a.bit_values()[2] == layout::u8_value(a.mip_max) && b.bit_values()[2] == layout::u8_value(b.mip_max));
        assert(a.bit_values()[3] == layout::bool_bit(a.detile) && b.bit_values()[3] == layout::bool_bit(b.detile));
        assert(a.bit_values()[4] == layout::u16_value(a.width) && b.bit_values()[4] == layout::u16_value(b.width));
        assert(a.bit_values()[5] == layout::u16_value(a.height) && b.bit_values()[5] == layout::u16_value(b.height));
        assert(a.bit_values()[6] == layout::u16_value(a.depth) && b.bit_values()[6] == layout::u16_value(b.depth));
        assert(a.bit_values()[7] == layout::u8_value(a.element_size) && b.bit_values()[7] == layout::u8_value(b.element_size));
        assert(a.bit_values()[8] == layout::u8_value(a.swizzle_mode) && b.bit_values()[8] == layout::u8_value(b.swizzle_mode));
        assert(a.bit_values()[9] == layout::u8_value(a.dimension) && b.bit_values()[9] == layout::u8_value(b.dimension));
        assert(a.bit_values()[10] == layout::u16_value(a.epitch) && b.bit_values()[10] == layout::u16_value(b.epitch));
        assert(a.bit_values()[11] == layout::u16_value(a.x) && b.bit_values()[11] == layout::u16_value(b.x));
        assert(a.bit_values()[12] == layout::u16_value(a.y) && b.bit_values()[12] == layout::u16_value(b.y));
        assert(a.bit_values()[13] == layout::u16_value(a.z) && b.bit_values()[13] == layout::u16_value(b.z));
        assert(a.bit_values()[14] == layout::u8_value(a.linear_sw) && b.bit_values()[14] == layout::u8_value(b.linear_sw));
        assert(a.bit_values()[15] == layout::u8_value(a.tile_sw) && b.bit_values()[15] == layout::u8_value(b.tile_sw));
        assert(a.bit_values()[16] == a.linear_pitch && b.bit_values()[16] == b.linear_pitch);
        assert(a.bit_values()[17] == a.count && b.bit_values()[17] == b.count);
        assert(a.bit_values()[18] == a.linear_slice_pitch && b.bit_values()[18] == b.linear_slice_pitch);
        assert(a.join_values()[0] == a.tiled_addr && b.join_values()[0] == b.tiled_addr);
        assert(a.join_values()[1] == a.linear_addr && b.join_values()[1] == b.linear_addr);
    }

    /// Reading a packet is exact: two packets read from one buffer are equal.
    pub proof fn lemma_read_unique(a: Self, b: Self, buf: Seq<u32>)
        requires
            a.read_from(buf),
            b.read_from(buf),
        ensures
            a == b,
    {
        layout::lemma_reads_determine(
            buf,
            Self::bit_fields(),
            a.bit_values(),
            b.bit_values(),
            Self::join_fields(),
            a.join_values(),
            b.join_values(),
            Self::tail(),
            a.tail_data(),
            b.tail_data(),
        );
        Self::lemma_values_determine(a, b);
    }

    /// A packet reads back from what it was encoded to.
    pub proof fn lemma_roundtrip(self, buf: Seq<u32>)
        requires
            Self::layout_wf(),
            self.fits(),
            buf.len() >= self.size(),
        ensures
            self.read_from(self.spec_encode(buf)),
            Self::decodable(self.spec_encode(buf)),
            self.spec_encode(buf).len() == buf.len(),
    {
        layout::lemma_packet_roundtrip(
            buf,
            Self::bit_fields(),
            self.bit_values(),
            Self::join_fields(),
            self.join_values(),
            Self::tail(),
            self.tail_data(),
            Self::STATIC_DWORDS as nat,
        );
    }
}

/// The `CopyL2tBroadcast` packet.
#[derive(Clone, Copy, Default)]
pub struct CopyL2tBroadcast {
    pub encrypt: bool,
    pub tmz: bool,
    pub mip_max: u8,
    pub videocopy: bool,
    pub broadcast: bool,
    pub width: u16,
    pub height: u16,
    pub depth: u16,
    pub element_size: u8,
    pub swizzle_mode: u8,
    pub dimension: u8,
    pub epitch: u16,
    pub x: u16,
    pub y: u16,
    pub z: u16,
    pub dst2_sw: u8,
    pub linear_sw: u8,
    pub tile_sw: u8,
    pub linear_pitch: u32,
    pub count: u32,
    pub linear_slice_pitch: u32,
    pub tiled_addr0: u64,
    pub tiled_addr1: u64,
    pub linear_addr: u64,
}

impl CopyL2tBroadcast {
    /// Dwords of the packet before its variable-length tail.
    pub const STATIC_DWORDS: usize = 16;

    pub open spec fn bit_fields() -> Seq<BitField> {
        seq![BitField { dw: 0, mask: 0x1, shift: 16 }, BitField { dw: 0, mask: 0x1, shift: 18 }, BitField { dw: 0, mask: 0xf, shift: 20 }, BitField { dw: 0, mask: 0x1, shift: 26 }, BitField { dw: 0, mask: 0x1, shift: 27 }, BitField { dw: 5, mask: 0x3fff, shift: 0 }, BitField { dw: 6, mask: 0x3fff, shift: 0 }, BitField { dw: 6, mask: 0x7ff, shift: 16 }, BitField { dw: 7, mask: 0x7, shift: 0 }, BitField { dw: 7, mask: 0x1f, shift: 3 }, BitField { dw: 7, mask: 0x3, shift: 9 }, BitField { dw: 7, mask: 0xffff, shift: 16 }, BitField { dw: 8, mask: 0x3fff, shift: 0 }, BitField { dw: 8, mask: 0x3fff, shift: 16 }, BitField { dw: 9, mask: 0x7ff, shift: 0 }, BitField { dw: 10, mask: 0x3, shift: 8 }, BitField { dw: 10, mask: 0x3, shift: 16 }, BitField { dw: 10, mask: 0x3, shift: 24 }, BitField { dw: 13, mask: 0x7ffff, shift: 0 }, BitField { dw: 15, mask: 0xfffff, shift: 0 }, BitField { dw: 14, mask: 0xffffffff, shift: 0 }]
    }

    pub open spec fn join_fields() -> Seq<JoinField> {
        seq![JoinField { lo: 1, hi: 2 }, JoinField { lo: 3, hi: 4 }, JoinField { lo: 11, hi: 12 }]
    }

    pub open spec fn tail() -> Option<DynField> {
        None
    }

    pub open spec fn bit_values(self) -> Seq<u32> {
        seq![layout::bool_bit(self.encrypt), layout::bool_bit(self.tmz), self.mip_max as u32, layout::bool_bit(self.videocopy), layout::bool_bit(self.broadcast), self.width as u32, self.height as u32, self.depth as u32, self.element_size as u32, self.swizzle_mode as u32, self.dimension as u32, self.epitch as u32, self.x as u32, self.y as u32, self.z as u32, self.dst2_sw as u32, self.linear_sw as u32, self.tile_sw as u32, self.linear_pitch, self.count, self.linear_slice_pitch]
    }

    pub open spec fn join_values(self) -> Seq<u64> {
        seq![self.tiled_addr0, self.tiled_addr1, self.linear_addr]
    }

    pub open spec fn tail_data(self) -> Seq<u32> {
        Seq::<u32>::empty()
    }

    /// Every field value fits its field.
    pub open spec fn fits(self) -> bool {
        layout::fields_fit(Self::bit_fields(), self.bit_values()) && layout::tail_fits(Self::tail(), self.tail_data())
    }

    pub open spec fn layout_wf() -> bool {
        layout::layout_wf(Self::bit_fields(), Self::join_fields(), Self::tail(), Self::STATIC_DWORDS as nat)
    }

    /// Dwords that the packet takes.
    pub open spec fn size(self) -> nat {
        (Self::STATIC_DWORDS + self.tail_data().len()) as nat
    }

    /// The buffer holds the whole packet.
    pub open spec fn decodable(buf: Seq<u32>) -> bool {
        buf.len() >= Self::STATIC_DWORDS
    }

    pub open spec fn spec_encode(self, buf: Seq<u32>) -> Seq<u32> {
        layout::encode_packet(
            buf,
            Self::bit_fields(),
            self.bit_values(),
            Self::join_fields(),
            self.join_values(),
            Self::tail(),
            self.tail_data(),
        )
    }

    /// `buf` holds this packet.
    pub open spec fn read_from(self, buf: Seq<u32>) -> bool {
        layout::packet_reads(
            buf,
            Self::bit_fields(),
            self.bit_values(),
            Self::join_fields(),
            self.join_values(),
            Self::tail(),
            self.tail_data(),
        )
    }

    fn exec_bit_fields() -> (r: Vec<BitField>)
        ensures
            r@ == Self::bit_fields(),
    {
        vec![BitField { dw: 0, mask: 0x1, shift: 16 }, BitField { dw: 0, mask: 0x1, shift: 18 }, BitField { dw: 0, mask: 0xf, shift: 20 }, BitField { dw: 0, mask: 0x1, shift: 26 }, BitField { dw: 0, mask: 0x1, shift: 27 }, BitField { dw: 5, mask: 0x3fff, shift: 0 }, BitField { dw: 6, mask: 0x3fff, shift: 0 }, BitField { dw: 6, mask: 0x7ff, shift: 16 }, BitField { dw: 7, mask: 0x7, shift: 0 }, BitField { dw: 7, mask: 0x1f, shift: 3 }, BitField { dw: 7, mask: 0x3, shift: 9 }, BitField { dw: 7, mask: 0xffff, shift: 16 }, BitField { dw: 8, mask: 0x3fff, shift: 0 }, BitField { dw: 8, mask: 0x3fff, shift: 16 }, BitField { dw: 9, mask: 0x7ff, shift: 0 }, BitField { dw: 10, mask: 0x3, shift: 8 }, BitField { dw: 10, mask: 0x3, shift: 16 }, BitField { dw: 10, mask: 0x3, shift: 24 }, BitField { dw: 13, mask: 0x7ffff, shift: 0 }, BitField { dw: 15, mask: 0xfffff, shift: 0 }, BitField { dw: 14, mask: 0xffffffff, shift: 0 }]
    }

    fn exec_join_fields() -> (r: Vec<JoinField>)
        ensures
            r@ == Self::join_fields(),
    {
        vec![JoinField { lo: 1, hi: 2 }, JoinField { lo: 3, hi: 4 }, JoinField { lo: 11, hi: 12 }]
    }

    /// Whether the field layout of this packet is well formed.
    pub fn layout_ok() -> (r: bool)
        ensures
            r == Self::layout_wf(),
    {
        layout_is_wf(&Self::exec_bit_fields(), &Self::exec_join_fields(), None, Self::STATIC_DWORDS)
    }

    /// Writes the packet to the start of `buff`, without its header, and
    /// returns how many dwords it took.
    pub fn partial_encode_linear(&self, buff: &mut [u32]) -> (n: usize)
        requires
            old(buff)@.len() >= self.size(),
            self.fits(),
        ensures
            n == self.size(),
            final(buff)@ == self.spec_encode(old(buff)@),
            final(buff)@.len() == old(buff)@.len(),
    {
        let bits = Self::exec_bit_fields();
        let vals: Vec<u32> = vec![to_bit(self.encrypt), to_bit(self.tmz), layout::widen_u8(self.mip_max), to_bit(self.videocopy), to_bit(self.broadcast), layout::widen_u16(self.width), layout::widen_u16(self.height), layout::widen_u16(self.depth), layout::widen_u8(self.element_size), layout::widen_u8(self.swizzle_mode), layout::widen_u8(self.dimension), layout::widen_u16(self.epitch), layout::widen_u16(self.x), layout::widen_u16(self.y), layout::widen_u16(self.z), layout::widen_u8(self.dst2_sw), layout::widen_u8(self.linear_sw), layout::widen_u8(self.tile_sw), self.linear_pitch, self.count, self.linear_slice_pitch];
        let joins = Self::exec_join_fields();
        let jvals: Vec<u64> = vec![self.tiled_addr0, self.tiled_addr1, self.linear_addr];
        proof {
            assert(vals@ =~= self.bit_values());
            assert(jvals@ =~= self.join_values());
        }
        encode_bit_fields(&bits, &vals, buff);
        encode_join_fields(&joins, &jvals, buff);
        Self::STATIC_DWORDS
    }

    /// Reads the packet at the start of `buff` and returns how many dwords it
    /// took.
    #[verifier::rlimit(40)]
    pub fn partial_decode_linear(buff: &[u32]) -> (r: (usize, Self))
        requires
            Self::decodable(buff@),
        ensures
            r.0 == r.1.size(),
            r.1.read_from(buff@),
    {
        let bits = Self::exec_bit_fields();
        let v = decode_bit_fields(&bits, buff);
        let joins = Self::exec_join_fields();
        let j = decode_join_fields(&joins, buff);
        let p = Self { encrypt: v[0] != 0, tmz: v[1] != 0, mip_max: layout::narrow_u8(v[2]), videocopy: v[3] != 0, broadcast: v[4] != 0, width: layout::narrow_u16(v[5]), height: layout::narrow_u16(v[6]), depth: layout::narrow_u16(v[7]), element_size: layout::narrow_u8(v[8]), swizzle_mode: layout::narrow_u8(v[9]), dimension: layout::narrow_u8(v[10]), epitch: layout::narrow_u16(v[11]), x: layout::narrow_u16(v[12]), y: layout::narrow_u16(v[13]), z: layout::narrow_u16(v[14]), dst2_sw: layout::narrow_u8(v[15]), linear_sw: layout::narrow_u8(v[16]), tile_sw: layout::narrow_u8(v[17]), linear_pitch: v[18], count: v[19], linear_slice_pitch: v[20], tiled_addr0: j[0], tiled_addr1: j[1], linear_addr: j[2] };
        proof {
            assert(p.bit_values() =~= v@);
            assert(p.join_values() =~= j@);
        }
        (Self::STATIC_DWORDS, p)
    }

    /// Where each field stands in a buffer that the packet is read from, as
    /// the packet header lays it out: a bit field under its mask and shift
    /// in its dword, a 64-bit field in two dwords, low half first. By
    /// `lemma_roundtrip`, encoding a packet puts its fields there.
    #[verifier::rlimit(40)]
    pub proof fn lemma_field_positions(self, buf: Seq<u32>)
        requires
            self.read_from(buf),
        ensures
            layout::bool_bit(self.encrypt) == layout::get_bits(buf[0], 0x1, 16),
            layout::bool_bit(self.tmz) == layout::get_bits(buf[0], 0x1, 18),
            layout::u8_value(self.mip_max) == layout::get_bits(buf[0], 0xf, 20),
            layout::bool_bit(self.videocopy) == layout::get_bits(buf[0], 0x1, 26),
            layout::bool_bit(self.broadcast) == layout::get_bits(buf[0], 0x1, 27),
            layout::u16_value(self.width) == layout::get_bits(buf[5], 0x3fff, 0),
            layout::u16_value(self.height) == layout::get_bits(buf[6], 0x3fff, 0),
            layout::u16_value(self.depth) == layout::get_bits(buf[6], 0x7ff, 16),
            layout::u8_value(self.element_size) == layout::get_bits(buf[7], 0x7, 0),
            layout::u8_value(self.swizzle_mode) == layout::get_bits(buf[7], 0x1f, 3),
            layout::u8_value(self.dimension) == layout::get_bits(buf[7], 0x3, 9),
            layout::u16_value(self.epitch) == layout::get_bits(buf[7], 0xffff, 16),
            layout::u16_value(self.x) == layout::get_bits(buf[8], 0x3fff, 0),
            layout::u16_value(self.y) == layout::get_bits(buf[8], 0x3fff, 16),
            layout::u16_value(self.z) == layout::get_bits(buf[9], 0x7ff, 0),
            layout::u8_value(self.dst2_sw) == layout::get_bits(buf[10], 0x3, 8),
            layout::u8_value(self.linear_sw) == layout::get_bits(buf[10], 0x3, 16),
            layout::u8_value(self.tile_sw) == layout::get_bits(buf[10], 0x3, 24),
            self.linear_pitch == layout::get_bits(buf[13], 0x7ffff, 0),
            self.count == layout::get_bits(buf[15], 0xfffff, 0),
            self.linear_slice_pitch == layout::get_bits(buf[14], 0xffffffff, 0),
            self.tiled_addr0 == layout::dword_pair(buf[1], buf[2]),
            self.tiled_addr1 == layout::dword_pair(buf[3], buf[4]),
            self.linear_addr == layout::dword_pair(buf[11], buf[12]),
    {
        assert(self.bit_values()[0] == layout::bool_bit(self.encrypt));
        assert(layout::decode_bits(buf, Self::bit_fields())[0] == self.bit_values()[0]);
        assert(self.bit_values()[1] == layout::bool_bit(self.tmz));
        assert(layout::decode_bits(buf, Self::bit_fields())[1] == self.bit_values()[1]);
        assert(self.bit_values()[2] == layout::u8_value(self.mip_max));
        assert(layout::decode_bits(buf, Self::bit_fields())[2] == self.bit_values()[2]);
        assert(self.bit_values()[3] == layout::bool_bit(self.videocopy));
        assert(layout::decode_bits(buf, Self::bit_fields())[3] == self.bit_values()[3]);
        assert(self.bit_values()[4] == layout::bool_bit(self.broadcast));
        assert(layout::decode_bits(buf, Self::bit_fields())[4] == self.bit_values()[4]);
        assert(self.bit_values()[5] == layout::u16_value(self.width));
        assert(layout::decode_bits(buf, Self::bit_fields())[5] == self.bit_values()[5]);
        assert(self.bit_values()[6] == layout::u16_value(self.height));
        assert(layout::decode_bits(buf, Self::bit_fields())[6] == self.bit_values()[6]);
        assert(self.bit_values()[7] == layout::u16_value(self.depth));
        assert(layout::decode_bits(buf, Self::bit_fields())[7] == self.bit_values()[7]);
        assert(self.bit_values()[8] == layout::u8_value(self.element_size));
        assert(layout::decode_bits(buf, Self::bit_fields())[8] == self.bit_values()[8]);
        assert(self.bit_values()[9] == layout::u8_value(self.swizzle_mode));
        assert(layout::decode_bits(buf, Self::bit_fields())[9] == self.bit_values()[9]);
        assert(self.bit_values()[10] == layout::u8_value(self.dimension));
        assert(layout::decode_bits(buf, Self::bit_fields())[10] == self.bit_values()[10]);
        assert(self.bit_values()[11] == layout::u16_value(self.epitch));
        assert(layout::decode_bits(buf, Self::bit_fields())[11] == self.bit_values()[11]);
        assert(self.bit_values()[12] == layout::u16_value(self.x));
        assert(layout::decode_bits(buf, Self::bit_fields())[12] == self.bit_values()[12]);
        assert(self.bit_values()[13] == layout::u16_value(self.y));
        assert(layout::decode_bits(buf, Self::bit_fields())[13] == self.bit_values()[13]);
        assert(self.bit_values()[14] == layout::u16_value(self.z));
        assert(layout::decode_bits(buf, Self::bit_fields())[14] == self.bit_values()[14]);
        assert(self.bit_values()[15] == layout::u8_value(self.dst2_sw));
        assert(layout::decode_bits(buf, Self::bit_fields())[15] == self.bit_values()[15]);
        assert(self.bit_values()[16] == layout::u8_value(self.linear_sw));
        assert(layout::decode_bits(buf, Self::bit_fields())[16] == self.bit_values()[16]);
        assert(self.bit_values()[17] == layout::u8_value(self.tile_sw));
        assert(layout::decode_bits(buf, Self::bit_fields())[17] == self.bit_values()[17]);
        assert(self.bit_values()[18] == self.linear_pitch);
        assert(layout::decode_bits(buf, Self::bit_fields())[18] == self.bit_values()[18]);
        assert(self.bit_values()[19] == self.count);
        assert(layout::decode_bits(buf, Self::bit_fields())[19] == self.bit_values()[19]);
        assert(self.bit_values()[20] == self.linear_slice_pitch);
        assert(layout::decode_bits(buf, Self::bit_fields())[20] == self.bit_values()[20]);
        assert(layout::decode_joins(buf, Self::join_fields())[0] == self.join_values()[0]);
        assert(layout::decode_joins(buf, Self::join_fields())[1] == self.join_values()[1]);
        assert(layout::decode_joins(buf, Self::join_fields())[2] == self.join_values()[2]);
    }

    /// The field values name the packet: two packets with the same values are
    /// equal.
    #[verifier::rlimit(40)]
    pub proof fn lemma_values_determine(a: Self, b: Self)
        requires
            a.bit_values() == b.bit_values(),
            a.join_values() == b.join_values(),
            a.tail_data() == b.tail_data(),
        ensures
            a == b,
    {
        assert(a.bit_values()[0] == layout::bool_bit(a.encrypt) && b.bit_values()[0] == layout::bool_bit(b.encrypt));
        assert(a.bit_values()[1] == layout::bool_bit(a.tmz) && b.bit_values()[1] == layout::bool_bit(b.tmz));
        assert(a.bit_values()[2] == layout::u8_value(a.mip_max) && b.bit_values()[2] == layout::u8_value(b.mip_max));
        assert(a.bit_values()[3] == layout::bool_bit(a.videocopy) && b.bit_values()[3] == layout::bool_bit(b.videocopy));
        assert(a.bit_values()[4] == layout::bool_bit(a.broadcast) && b.bit_values()[4] == layout::bool_bit(b.broadcast));
        assert(a.bit_values()[5] == layout::u16_value(a.width) && b.bit_values()[5] == layout::u16_value(b.width));
        assert(a.bit_values()[6] == layout::u16_value(a.height) && b.bit_values()[6] == layout::u16_value(b.height));
        assert(a.bit_values()[7] == layout::u16_value(a.depth) && b.bit_values()[7] == layout::u16_value(b.depth));
        assert(a.bit_values()[8] == layout::u8_value(a.element_size) && b.bit_values()[8] == layout::u8_value(b.element_size));
        assert(a.bit_values()[9] == layout::u8_value(a.swizzle_mode) && b.bit_values()[9] == layout::u8_value(b.swizzle_mode));
        assert(a.bit_values()[10] == layout::u8_value(a.dimension) && b.bit_values()[10] == layout::u8_value(b.dimension));
        assert(a.bit_values()[11] == layout::u16_value(a.epitch) && b.bit_values()[11] == layout::u16_value(b.epitch));
        assert(a.bit_values()[12] == layout::u16_value(a.x) && b.bit_values()[12] == layout::u16_value(b.x));
        assert(a.bit_values()[13] == layout::u16_value(a.y) && b.bit_values()[13] == layout::u16_value(b.y));
        assert(a.bit_values()[14] == layout::u16_value(a.z) && b.bit_values()[14] == layout::u16_value(b.z));
        assert(a.bit_values()[15] == layout::u8_value(a.dst2_sw) && b.bit_values()[15] == layout::u8_value(b.dst2_sw));
        assert(a.bit_values()[16] == layout::u8_value(a.linear_sw) && b.bit_values()[16] == layout::u8_value(b.linear_sw));
        assert(a.bit_values()[17] == layout::u8_value(a.tile_sw) && b.bit_values()[17] == layout::u8_value(b.tile_sw));
        assert(a.bit_values()[18] == a.linear_pitch && b.bit_values()[18] == b.linear_pitch);
        assert(a.bit_values()[19] == a.count && b.bit_values()[19] == b.count);
        assert(a.bit_values()[20] == a.linear_slice_pitch && b.bit_values()[20] == b.linear_slice_pitch);
        assert(a.join_values()[0] == a.tiled_addr0 && b.join_values()[0] == b.tiled_addr0);
        assert(a.join_values()[1] == a.tiled_addr1 && b.join_values()[1] == b.tiled_addr1);
        assert(a.join_values()[2] == a.linear_addr && b.join_values()[2] == b.linear_addr);
    }

    /// Reading a packet is exact: two packets read from one buffer are equal.
    pub proof fn lemma_read_unique(a: Self, b: Self, buf: Seq<u32>)
        requires
            a.read_from(buf),
            b.read_from(buf),
        ensures
            a == b,
    {
        layout::lemma_reads_determine(
            buf,
            Self::bit_fields(),
            a.bit_values(),
            b.bit_values(),
            Self::join_fields(),
            a.join_values(),
            b.join_values(),
            Self::tail(),
            a.tail_data(),
            b.tail_data(),
        );
        Self::lemma_values_determine(a, b);
    }

    /// A packet reads back from what it was encoded to.
    pub proof fn lemma_roundtrip(self, buf: Seq<u32>)
        requires
            Self::layout_wf(),
            self.fits(),
            buf.len() >= self.size(),
        ensures
            self.read_from(self.spec_encode(buf)),
            Self::decodable(self.spec_encode(buf)),
            self.spec_encode(buf).len() == buf.len(),
    {
        layout::lemma_packet_roundtrip(
            buf,
            Self::bit_fields(),
            self.bit_values(),
            Self::join_fields(),
            self.join_values(),
            Self::tail(),
            self.tail_data(),
            Self::STATIC_DWORDS as nat,
        );
    }
}

/// The `CopyT2t` packet.
#[derive(Clone, Copy, Default)]
pub struct CopyT2t {
    pub tmz: bool,
    pub mip_max: u8,
    pub src_x: u16,
    pub src_y: u16,
    pub src_z: u16,
    pub src_width: u16,
    pub src_height: u16,
    pub src_depth: u16,
    pub src_element_size: u8,
    pub src_swizzle_mode: u8,
    pub src_dimension: u8,
    pub src_epitch: u16,
    pub dst_x: u16,
    pub dst_y: u16,
    pub dst_z: u16,
    pub dst_width: u16,
    pub dst_height: u16,
    pub dst_depth: u16,
    pub dst_element_size: u8,
    pub dst_swizzle_mode: u8,
    pub dst_dimension: u8,
    pub dst_epitch: u16,
    pub rect_x: u16,
    pub rect_y: u16,
    pub rect_z: u16,
    pub dst_sw: u8,
    pub src_sw: u8,
    pub src_addr: u64,
    pub dst_addr: u64,
}

impl CopyT2t {
    /// Dwords of the packet before its variable-length tail.
    pub const STATIC_DWORDS: usize = 15;

    pub open spec fn bit_fields() -> Seq<BitField> {
        seq![BitField { dw: 0, mask: 0x1, shift: 18 }, BitField { dw: 0, mask: 0xf, shift: 20 }, BitField { dw: 3, mask: 0x3fff, shift: 0 }, BitField { dw: 3, mask: 0x3fff, shift: 16 }, BitField { dw: 4, mask: 0x7ff, shift: 0 }, BitField { dw: 4, mask: 0x3fff, shift: 16 }, BitField { dw: 5, mask: 0x3fff, shift: 0 }, BitField { dw: 5, mask: 0x7ff, shift: 16 }, BitField { dw: 6, mask: 0x7, shift: 0 }, BitField { dw: 6, mask: 0x1f, shift: 3 }, BitField { dw: 6, mask: 0x3, shift: 9 }, BitField { dw: 6, mask: 0xffff, shift: 16 }, BitField { dw: 9, mask: 0x3fff, shift: 0 }, BitField { dw: 9, mask: 0x3fff, shift: 16 }, BitField { dw: 10, mask: 0x7ff, shift: 0 }, BitField { dw: 10, mask: 0x3fff, shift: 16 }, BitField { dw: 11, mask: 0x3fff, shift: 0 }, BitField { dw: 11, mask: 0x7ff, shift: 16 }, BitField { dw: 12, mask: 0x7, shift: 0 }, BitField { dw: 12, mask: 0x1f, shift: 3 }, BitField { dw: 12, mask: 0x3, shift: 9 }, BitField { dw: 12, mask: 0xffff, shift: 16 }, BitField { dw: 13, mask: 0x3fff, shift: 0 }, BitField { dw: 13, mask: 0x3fff, shift: 16 }, BitField { dw: 14, mask: 0x7ff, shift: 0 }, BitField { dw: 14, mask: 0x3, shift: 16 }, BitField { dw: 14, mask: 0x3, shift: 24 }]
    }

    pub open spec fn join_fields() -> Seq<JoinField> {
        seq![JoinField { lo: 1, hi: 2 }, JoinField { lo: 7, hi: 8 }]
    }

    pub open spec fn tail() -> Option<DynField> {
        None
    }

    pub open spec fn bit_values(self) -> Seq<u32> {
        seq![layout::bool_bit(self.tmz), self.mip_max as u32, self.src_x as u32, self.src_y as u32, self.src_z as u32, self.src_width as u32, self.src_height as u32, self.src_depth as u32, self.src_element_size as u32, self.src_swizzle_mode as u32, self.src_dimension as u32, self.src_epitch as u32, self.dst_x as u32, self.dst_y as u32, self.dst_z as u32, self.dst_width as u32, self.dst_height as u32, self.dst_depth as u32, self.dst_element_size as u32, self.dst_swizzle_mode as u32, self.dst_dimension as u32, self.dst_epitch as u32, self.rect_x as u32, self.rect_y as u32, self.rect_z as u32, self.dst_sw as u32, self.src_sw as u32]
    }

    pub open spec fn join_values(self) -> Seq<u64> {
        seq![self.src_addr, self.dst_addr]
    }

    pub open spec fn tail_data(self) -> Seq<u32> {
        Seq::<u32>::empty()
    }

    /// Every field value fits its field.
    pub open spec fn fits(self) -> bool {
        layout::fields_fit(Self::bit_fields(), self.bit_values()) && layout::tail_fits(Self::tail(), self.tail_data())
    }

    pub open spec fn layout_wf() -> bool {
        layout::layout_wf(Self::bit_fields(), Self::join_fields(), Self::tail(), Self::STATIC_DWORDS as nat)
    }

    /// Dwords that the packet takes.
    pub open spec fn size(self) -> nat {
        (Self::STATIC_DWORDS + self.tail_data().len()) as nat
    }

    /// The buffer holds the whole packet.
    pub open spec fn decodable(buf: Seq<u32>) -> bool {
        buf.len() >= Self::STATIC_DWORDS
    }

    pub open spec fn spec_encode(self, buf: Seq<u32>) -> Seq<u32> {
        layout::encode_packet(
            buf,
            Self::bit_fields(),
            self.bit_values(),
            Self::join_fields(),
            self.join_values(),
            Self::tail(),
            self.tail_data(),
        )
    }

    /// `buf` holds this packet.
    pub open spec fn read_from(self, buf: Seq<u32>) -> bool {
        layout::packet_reads(
            buf,
            Self::bit_fields(),
            self.bit_values(),
            Self::join_fields(),
            self.join_values(),
            Self::tail(),
            self.tail_data(),
        )
    }

    fn exec_bit_fields() -> (r: Vec<BitField>)
        ensures
            r@ == Self::bit_fields(),
    {
        vec![BitField { dw: 0, mask: 0x1, shift: 18 }, BitField { dw: 0, mask: 0xf, shift: 20 }, BitField { dw: 3, mask: 0x3fff, shift: 0 }, BitField { dw: 3, mask: 0x3fff, shift: 16 }, BitField { dw: 4, mask: 0x7ff, shift: 0 }, BitField { dw: 4, mask: 0x3fff, shift: 16 }, BitField { dw: 5, mask: 0x3fff, shift: 0 }, BitField { dw: 5, mask: 0x7ff, shift: 16 }, BitField { dw: 6, mask: 0x7, shift: 0 }, BitField { dw: 6, mask: 0x1f, shift: 3 }, BitField { dw: 6, mask: 0x3, shift: 9 }, BitField { dw: 6, mask: 0xffff, shift: 16 }, BitField { dw: 9, mask: 0x3fff, shift: 0 }, BitField { dw: 9, mask: 0x3fff, shift: 16 }, BitField { dw: 10, mask: 0x7ff, shift: 0 }, BitField { dw: 10, mask: 0x3fff, shift: 16 }, BitField { dw: 11, mask: 0x3fff, shift: 0 }, BitField { dw: 11, mask: 0x7ff, shift: 16 }, BitField { dw: 12, mask: 0x7, shift: 0 }, BitField { dw: 12, mask: 0x1f, shift: 3 }, BitField { dw: 12, mask: 0x3, shift: 9 }, BitField { dw: 12, mask: 0xffff, shift: 16 }, BitField { dw: 13, mask: 0x3fff, shift: 0 }, BitField { dw: 13, mask: 0x3fff, shift: 16 }, BitField { dw: 14, mask: 0x7ff, shift: 0 }, BitField { dw: 14, mask: 0x3, shift: 16 }, BitField { dw: 14, mask: 0x3, shift: 24 }]
    }

    fn exec_join_fields() -> (r: Vec<JoinField>)
        ensures
            r@ == Self::join_fields(),
    {
        vec![JoinField { lo: 1, hi: 2 }, JoinField { lo: 7, hi: 8 }]
    }

    /// Whether the field layout of this packet is well formed.
    pub fn layout_ok() -> (r: bool)
        ensures
            r == Self::layout_wf(),
    {
        layout_is_wf(&Self::exec_bit_fields(), &Self::exec_join_fields(), None, Self::STATIC_DWORDS)
    }

    /// Writes the packet to the start of `buff`, without its header, and
    /// returns how many dwords it took.
    pub fn partial_encode_linear(&self, buff: &mut [u32]) -> (n: usize)
        requires
            old(buff)@.len() >= self.size(),
            self.fits(),
        ensures
            n == self.size(),
            final(buff)@ == self.spec_encode(old(buff)@),
            final(buff)@.len() == old(buff)@.len(),
    {
        let bits = Self::exec_bit_fields();
        let vals: Vec<u32> = vec![to_bit(self.tmz), layout::widen_u8(self.mip_max), layout::widen_u16(self.src_x), layout::widen_u16(self.src_y), layout::widen_u16(self.src_z), layout::widen_u16(self.src_width), layout::widen_u16(self.src_height), layout::widen_u16(self.src_depth), layout::widen_u8(self.src_element_size), layout::widen_u8(self.src_swizzle_mode), layout::widen_u8(self.src_dimension), layout::widen_u16(self.src_epitch), layout::widen_u16(self.dst_x), layout::widen_u16(self.dst_y), layout::widen_u16(self.dst_z), layout::widen_u16(self.dst_width), layout::widen_u16(self.dst_height), layout::widen_u16(self.dst_depth), layout::widen_u8(self.dst_element_size), layout::widen_u8(self.dst_swizzle_mode), layout::widen_u8(self.dst_dimension), layout::widen_u16(self.dst_epitch), layout::widen_u16(self.rect_x), layout::widen_u16(self.rect_y), layout::widen_u16(self.rect_z), layout::widen_u8(self.dst_sw), layout::widen_u8(self.src_sw)];
        let joins = Self::exec_join_fields();
        let jvals: Vec<u64> = vec![self.src_addr, self.dst_addr];
        proof {
            assert(vals@ =~= self.bit_values());
            assert(jvals@ =~= self.join_values());
        }
        encode_bit_fields(&bits, &vals, buff);
        encode_join_fields(&joins, &jvals, buff);
        Self::STATIC_DWORDS
    }

    /// Reads the packet at the start of `buff` and returns how many dwords it
    /// took.
    #[verifier::rlimit(40)]
    pub fn partial_decode_linear(buff: &[u32]) -> (r: (usize, Self))
        requires
            Self::decodable(buff@),
        ensures
            r.0 == r.1.size(),
            r.1.read_from(buff@),
    {
        let bits = Self::exec_bit_fields();
        let v = decode_bit_fields(&bits, buff);
        let joins = Self::exec_join_fields();
        let j = decode_join_fields(&joins, buff);
        let p = Self { tmz: v[0] != 0, mip_max: layout::narrow_u8(v[1]), src_x: layout::narrow_u16(v[2]), src_y: layout::narrow_u16(v[3]), src_z: layout::narrow_u16(v[4]), src_width: layout::narrow_u16(v[5]), src_height: layout::narrow_u16(v[6]), src_depth: layout::narrow_u16(v[7]), src_element_size: layout::narrow_u8(v[8]), src_swizzle_mode: layout::narrow_u8(v[9]), src_dimension: layout::narrow_u8(v[10]), src_epitch: layout::narrow_u16(v[11]), dst_x: layout::narrow_u16(v[12]), dst_y: layout::narrow_u16(v[13]), dst_z: layout::narrow_u16(v[14]), dst_width: layout::narrow_u16(v[15]), dst_height: layout::narrow_u16(v[16]), dst_depth: layout::narrow_u16(v[17]), dst_element_size: layout::narrow_u8(v[18]), dst_swizzle_mode: layout::narrow_u8(v[19]), dst_dimension: layout::narrow_u8(v[20]), dst_epitch: layout::narrow_u16(v[21]), rect_x: layout::narrow_u16(v[22]), rect_y: layout::narrow_u16(v[23]), rect_z: layout::narrow_u16(v[24]), dst_sw: layout::narrow_u8(v[25]), src_sw: layout::narrow_u8(v[26]), src_addr: j[0], dst_addr: j[1] };
        proof {
            assert(p.bit_values() =~= v@);
            assert(p.join_values() =~= j@);
        }
        (Self::STATIC_DWORDS, p)
    }

    /// Where each field stands in a buffer that the packet is read from, as
    /// the packet header lays it out: a bit field under its mask and shift
    /// in its dword, a 64-bit field in two dwords, low half first. By
    /// `lemma_roundtrip`, encoding a packet puts its fields there.
    #[verifier::rlimit(40)]
    pub proof fn lemma_field_positions(self, buf: Seq<u32>)
        requires
            self.read_from(buf),
        ensures
            layout::bool_bit(self.tmz) == layout::get_bits(buf[0], 0x1, 18),
            layout::u8_value(self.mip_max) == layout::get_bits(buf[0], 0xf, 20),
            layout::u16_value(self.src_x) == layout::get_bits(buf[3], 0x3fff, 0),
            layout::u16_value(self.src_y) == layout::get_bits(buf[3], 0x3fff, 16),
            layout::u16_value(self.src_z) == layout::get_bits(buf[4], 0x7ff, 0),
            layout::u16_value(self.src_width) == layout::get_bits(buf[4], 0x3fff, 16),
            layout::u16_value(self.src_height) == layout::get_bits(buf[5], 0x3fff, 0),
            layout::u16_value(self.src_depth) == layout::get_bits(buf[5], 0x7ff, 16),
            layout::u8_value(self.src_element_size) == layout::get_bits(buf[6], 0x7, 0),
            layout::u8_value(self.src_swizzle_mode) == layout::get_bits(buf[6], 0x1f, 3),
            layout::u8_value(self.src_dimension) == layout::get_bits(buf[6], 0x3, 9),
            layout::u16_value(self.src_epitch) == layout::get_bits(buf[6], 0xffff, 16),
            layout::u16_value(self.dst_x) == layout::get_bits(buf[9], 0x3fff, 0),
            layout::u16_value(self.dst_y) == layout::get_bits(buf[9], 0x3fff, 16),
            layout::u16_value(self.dst_z) == layout::get_bits(buf[10], 0x7ff, 0),
            layout::u16_value(self.dst_width) == layout::get_bits(buf[10], 0x3fff, 16),
            layout::u16_value(self.dst_height) == layout::get_bits(buf[11], 0x3fff, 0),
            layout::u16_value(self.dst_depth) == layout::get_bits(buf[11], 0x7ff, 16),
            layout::u8_value(self.dst_element_size) == layout::get_bits(buf[12], 0x7, 0),
            layout::u8_value(self.dst_swizzle_mode) == layout::get_bits(buf[12], 0x1f, 3),
            layout::u8_value(self.dst_dimension) == layout::get_bits(buf[12], 0x3, 9),
            layout::u16_value(self.dst_epitch) == layout::get_bits(buf[12], 0xffff, 16),
            layout::u16_value(self.rect_x) == layout::get_bits(buf[13], 0x3fff, 0),
            layout::u16_value(self.rect_y) == layout::get_bits(buf[13], 0x3fff, 16),
            layout::u16_value(self.rect_z) == layout::get_bits(buf[14], 0x7ff, 0),
            layout::u8_value(self.dst_sw) == layout::get_bits(buf[14], 0x3, 16),
            layout::u8_value(self.src_sw) == layout::get_bits(buf[14], 0x3, 24),
            self.src_addr == layout::dword_pair(buf[1], buf[2]),
            self.dst_addr == layout::dword_pair(buf[7], buf[8]),
    {
        assert(self.bit_values()[0] == layout::bool_bit(self.tmz));
        assert(layout::decode_bits(buf, Self::bit_fields())[0] == self.bit_values()[0]);
        assert(self.bit_values()[1] == layout::u8_value(self.mip_max));
        assert(layout::decode_bits(buf, Self::bit_fields())[1] == self.bit_values()[1]);
        assert(self.bit_values()[2] == layout::u16_value(self.src_x));
        assert(layout::decode_bits(buf, Self::bit_fields())[2] == self.bit_values()[2]);
        assert(self.bit_values()[3] == layout::u16_value(self.src_y));
        assert(layout::decode_bits(buf, Self::bit_fields())[3] == self.bit_values()[3]);
        assert(self.bit_values()[4] == layout::u16_value(self.src_z));
        assert(layout::decode_bits(buf, Self::bit_fields())[4] == self.bit_values()[4]);
        assert(self.bit_values()[5] == layout::u16_value(self.src_width));
        assert(layout::decode_bits(buf, Self::bit_fields())[5] == self.bit_values()[5]);
        assert(self.bit_values()[6] == layout::u16_value(self.src_height));
        assert(layout::decode_bits(buf, Self::bit_fields())[6] == self.bit_values()[6]);
        assert(self.bit_values()[7] == layout::u16_value(self.src_depth));
        assert(layout::decode_bits(buf, Self::bit_fields())[7] == self.bit_values()[7]);
        assert(self.bit_values()[8] == layout::u8_value(self.src_element_size));
        assert(layout::decode_bits(buf, Self::bit_fields())[8] == self.bit_values()[8]);
        assert(self.bit_values()[9] == layout::u8_value(self.src_swizzle_mode));
        assert(layout::decode_bits(buf, Self::bit_fields())[9] == self.bit_values()[9]);
        assert(self.bit_values()[10] == layout::u8_value(self.src_dimension));
        assert(layout::decode_bits(buf, Self::bit_fields())[10] == self.bit_values()[10]);
        assert(self.bit_values()[11] == layout::u16_value(self.src_epitch));
        assert(layout::decode_bits(buf, Self::bit_fields())[11] == self.bit_values()[11]);
        assert(self.bit_values()[12] == layout::u16_value(self.dst_x));
        assert(layout::decode_bits(buf, Self::bit_fields())[12] == self.bit_values()[12]);
        assert(self.bit_values()[13] == layout::u16_value(self.dst_y));
        assert(layout::decode_bits(buf, Self::bit_fields())[13] == self.bit_values()[13]);
        assert(self.bit_values()[14] == layout::u16_value(self.dst_z));
        assert(layout::decode_bits(buf, Self::bit_fields())[14] == self.bit_values()[14]);
        assert(self.bit_values()[15] == layout::u16_value(self.dst_width));
        assert(layout::decode_bits(buf, Self::bit_fields())[15] == self.bit_values()[15]);
        assert(self.bit_values()[16] == layout::u16_value(self.dst_height));
        assert(layout::decode_bits(buf, Self::bit_fields())[16] == self.bit_values()[16]);
        assert(self.bit_values()[17] == layout::u16_value(self.dst_depth));
        assert(layout::decode_bits(buf, Self::bit_fields())[17] == self.bit_values()[17]);
        assert(self.bit_values()[18] == layout::u8_value(self.dst_element_size));
        assert(layout::decode_bits(buf, Self::bit_fields())[18] == self.bit_values()[18]);
        assert(self.bit_values()[19] == layout::u8_value(self.dst_swizzle_mode));
        assert(layout::decode_bits(buf, Self::bit_fields())[19] == self.bit_values()[19]);
        assert(self.bit_values()[20] == layout::u8_value(self.dst_dimension));
        assert(layout::decode_bits(buf, Self::bit_fields())[20] == self.bit_values()[20]);
        assert(self.bit_values()[21] == layout::u16_value(self.dst_epitch));
        assert(layout::decode_bits(buf, Self::bit_fields())[21] == self.bit_values()[21]);
        assert(self.bit_values()[22] == layout::u16_value(self.rect_x));
        assert(layout::decode_bits(buf, Self::bit_fields())[22] == self.bit_values()[22]);
        assert(self.bit_values()[23] == layout::u16_value(self.rect_y));
        assert(layout::decode_bits(buf, Self::bit_fields())[23] == self.bit_values()[23]);
        assert(self.bit_values()[24] == layout::u16_value(self.rect_z));
        assert(layout::decode_bits(buf, Self::bit_fields())[24] == self.bit_values()[24]);
        assert(self.bit_values()[25] == layout::u8_value(self.dst_sw));
        assert(layout::decode_bits(buf, Self::bit_fields())[25] == self.bit_values()[25]);
        assert(self.bit_values()[26] == layout::u8_value(self.src_sw));
        assert(layout::decode_bits(buf, Self::bit_fields())[26] == self.bit_values()[26]);
        assert(layout::decode_joins(buf, Self::join_fields())[0] == self.join_values()[0]);
        assert(layout::decode_joins(buf, Self::join_fields())[1] == self.join_values()[1]);
    }

    /// The field values name the packet: two packets with the same values are
    /// equal.
    #[verifier::rlimit(40)]
    pub proof fn lemma_values_determine(a: Self, b: Self)
        requires
            a.bit_values() == b.bit_values(),
            a.join_values() == b.join_values(),
            a.tail_data() == b.tail_data(),
        ensures
            a == b,
    {
        assert(a.bit_values()[0] == layout::bool_bit(a.tmz) && b.bit_values()[0] == layout::bool_bit(b.tmz));
        assert(a.bit_values()[1] == layout::u8_value(a.mip_max) && b.bit_values()[1] == layout::u8_value(b.mip_max));
        assert(a.bit_values()[2] == layout::u16_value(a.src_x) && b.bit_values()[2] == layout::u16_value(b.src_x));
        assert(a.bit_values()[3] == layout::u16_value(a.src_y) && b.bit_values()[3] == layout::u16_value(b.src_y));
        assert(a.bit_values()[4] == layout::u16_value(a.src_z) && b.bit_values()[4] == layout::u16_value(b.src_z));
        assert(a.bit_values()[5] == layout::u16_value(a.src_width) && b.bit_values()[5] == layout::u16_value(b.src_width));
        assert(a.bit_values()[6] == layout::u16_value(a.src_height) && b.bit_values()[6] == layout::u16_value(b.src_height));
        assert(a.bit_values()[7] == layout::u16_value(a.src_depth) && b.bit_values()[7] == layout::u16_value(b.src_depth));
        assert(a.bit_values()[8] == layout::u8_value(a.src_element_size) && b.bit_values()[8] == layout::u8_value(b.src_element_size));
        assert(a.bit_values()[9] == layout::u8_value(a.src_swizzle_mode) && b.bit_values()[9] == layout::u8_value(b.src_swizzle_mode));
        assert(a.bit_values()[10] == layout::u8_value(a.src_dimension) && b.bit_values()[10] == layout::u8_value(b.src_dimension));
        assert(a.bit_values()[11] == layout::u16_value(a.src_epitch) && b.bit_values()[11] == layout::u16_value(b.src_epitch));
        assert(a.bit_values()[12] == layout::u16_value(a.dst_x) && b.bit_values()[12] == layout::u16_value(b.dst_x));
        assert(a.bit_values()[13] == layout::u16_value(a.dst_y) && b.bit_values()[13] == layout::u16_value(b.dst_y));
        assert(a.bit_values()[14] == layout::u16_value(a.dst_z) && b.bit_values()[14] == layout::u16_value(b.dst_z));
        assert(a.bit_values()[15] == layout::u16_value(a.dst_width) && b.bit_values()[15] == layout::u16_value(b.dst_width));
        assert(a.bit_values()[16] == layout::u16_value(a.dst_height) && b.bit_values()[16] == layout::u16_value(b.dst_height));
        assert(a.bit_values()[17] == layout::u16_value(a.dst_depth) && b.bit_values()[17] == layout::u16_value(b.dst_depth));
        assert(a.bit_values()[18] == layout::u8_value(a.dst_element_size) && b.bit_values()[18] == layout::u8_value(b.dst_element_size));
        assert(a.bit_values()[19] == layout::u8_value(a.dst_swizzle_mode) && b.bit_values()[19] == layout::u8_value(b.dst_swizzle_mode));
        assert(a.bit_values()[20] == layout::u8_value(a.dst_dimension) && b.bit_values()[20] == layout::u8_value(b.dst_dimension));
        assert(a.bit_values()[21] == layout::u16_value(a.dst_epitch) && b.bit_values()[21] == layout::u16_value(b.dst_epitch));
        assert(a.bit_values()[22] == layout::u16_value(a.rect_x) && b.bit_values()[22] == layout::u16_value(b.rect_x));
        assert(a.bit_values()[23] == layout::u16_value(a.rect_y) && b.bit_values()[23] == layout::u16_value(b.rect_y));
        assert(a.bit_values()[24] == layout::u16_value(a.rect_z) && b.bit_values()[24] == layout::u16_value(b.rect_z));
        assert(a.bit_values()[25] == layout::u8_value(a.dst_sw) && b.bit_values()[25] == layout::u8_value(b.dst_sw));
        assert(a.bit_values()[26] == layout::u8_value(a.src_sw) && b.bit_values()[26] == layout::u8_value(b.src_sw));
        assert(a.join_values()[0] == a.src_addr && b.join_values()[0] == b.src_addr);
        assert(a.join_values()[1] == a.dst_addr && b.join_values()[1] == b.dst_addr);
    }

    /// Reading a packet is exact: two packets read from one buffer are equal.
    pub proof fn lemma_read_unique(a: Self, b: Self, buf: Seq<u32>)
        requires
            a.read_from(buf),
            b.read_from(buf),
        ensures
            a == b,
    {
        layout::lemma_reads_determine(
            buf,
            Self::bit_fields(),
            a.bit_values(),
            b.bit_values(),
            Self::join_fields(),
            a.join_values(),
            b.join_values(),
            Self::tail(),
            a.tail_data(),
            b.tail_data(),
        );
        Self::lemma_values_determine(a, b);
    }

    /// A packet reads back from what it was encoded to.
    pub proof fn lemma_roundtrip(self, buf: Seq<u32>)
        requires
            Self::layout_wf(),
            self.fits(),
            buf.len() >= self.size(),
        ensures
            self.read_from(self.spec_encode(buf)),
            Self::decodable(self.spec_encode(buf)),
            self.spec_encode(buf).len() == buf.len(),
    {
        layout::lemma_packet_roundtrip(
            buf,
            Self::bit_fields(),
            self.bit_values(),
            Self::join_fields(),
            self.join_values(),
            Self::tail(),
            self.tail_data(),
            Self::STATIC_DWORDS as nat,
        );
    }
}

/// The `CopyTiledSubwin` packet.
#[derive(Clone, Copy, Default)]
pub struct CopyTiledSubwin {
    pub tmz: bool,
    pub mip_max: u8,
    pub mip_id: u8,
    pub detile: bool,
    pub tiled_x: u16,
    pub tiled_y: u16,
    pub tiled_z: u16,
    pub width: u16,
    pub height: u16,
    pub depth: u16,
    pub element_size: u8,
    pub swizzle_mode: u8,
    pub dimension: u8,
    pub epitch: u16,
    pub linear_x: u16,
    pub linear_y: u16,
    pub linear_z: u16,
    pub linear_pitch: u16,
    pub linear_slice_pitch: u32,
    pub rect_x: u16,
    pub rect_y: u16,
    pub rect_z: u16,
    pub linear_sw: u8,
    pub tile_sw: u8,
    pub tiled_addr: u64,
    pub linear_addr: u64,
}

impl CopyTiledSubwin {
    /// Dwords of the packet before its variable-length tail.
    pub const STATIC_DWORDS: usize = 14;

    pub open spec fn bit_fields() -> Seq<BitField> {
        seq![BitField { dw: 0, mask: 0x1, shift: 18 }, BitField { dw: 0, mask: 0xf, shift: 20 }, BitField { dw: 0, mask: 0xf, shift: 24 }, BitField { dw: 0, mask: 0x1, shift: 31 }, BitField { dw: 3, mask: 0x3fff, shift: 0 }, BitField { dw: 3, mask: 0x3fff, shift: 16 }, BitField { dw: 4, mask: 0x7ff, shift: 0 }, BitField { dw: 4, mask: 0x3fff, shift: 16 }, BitField { dw: 5, mask: 0x3fff, shift: 0 }, BitField { dw: 5, mask: 0x7ff, shift: 16 }, BitField { dw: 6, mask: 0x7, shift: 0 }, BitField { dw: 6, mask: 0x1f, shift: 3 }, BitField { dw: 6, mask: 0x3, shift: 9 }, BitField { dw: 6, mask: 0xffff, shift: 16 }, BitField { dw: 9, mask: 0x3fff, shift: 0 }, BitField { dw: 9, mask: 0x3fff, shift: 16 }, BitField { dw: 10, mask: 0x7ff, shift: 0 }, BitField { dw: 10, mask: 0x3fff, shift: 16 }, BitField { dw: 11, mask: 0xfffffff, shift: 0 }, BitField { dw: 12, mask: 0x3fff, shift: 0 }, BitField { dw: 12, mask: 0x3fff, shift: 16 }, BitField { dw: 13, mask: 0x7ff, shift: 0 }, BitField { dw: 13, mask: 0x3, shift: 16 }, BitField { dw: 13, mask: 0x3, shift: 24 }]
    }

    pub open spec fn join_fields() -> Seq<JoinField> {
        seq![JoinField { lo: 1, hi: 2 }, JoinField { lo: 7, hi: 8 }]
    }

    pub open spec fn tail() -> Option<DynField> {
        None
    }

    pub open spec fn bit_values(self) -> Seq<u32> {
        seq![layout::bool_bit(self.tmz), self.mip_max as u32, self.mip_id as u32, layout::bool_bit(self.detile), self.tiled_x as u32, self.tiled_y as u32, self.tiled_z as u32, self.width as u32, self.height as u32, self.depth as u32, self.element_size as u32, self.swizzle_mode as u32, self.dimension as u32, self.epitch as u32, self.linear_x as u32, self.linear_y as u32, self.linear_z as u32, self.linear_pitch as u32, self.linear_slice_pitch, self.rect_x as u32, self.rect_y as u32, self.rect_z as u32, self.linear_sw as u32, self.tile_sw as u32]
    }

    pub open spec fn join_values(self) -> Seq<u64> {
        seq![self.tiled_addr, self.linear_addr]
    }

    pub open spec fn tail_data(self) -> Seq<u32> {
        Seq::<u32>::empty()
    }

    /// Every field value fits its field.
    pub open spec fn fits(self) -> bool {
        layout::fields_fit(Self::bit_fields(), self.bit_values()) && layout::tail_fits(Self::tail(), self.tail_data())
    }

    pub open spec fn layout_wf() -> bool {
        layout::layout_wf(Self::bit_fields(), Self::join_fields(), Self::tail(), Self::STATIC_DWORDS as nat)
    }

    /// Dwords that the packet takes.
    pub open spec fn size(self) -> nat {
        (Self::STATIC_DWORDS + self.tail_data().len()) as nat
    }

    /// The buffer holds the whole packet.
    pub open spec fn decodable(buf: Seq<u32>) -> bool {
        buf.len() >= Self::STATIC_DWORDS
    }

    pub open spec fn spec_encode(self, buf: Seq<u32>) -> Seq<u32> {
        layout::encode_packet(
            buf,
            Self::bit_fields(),
            self.bit_values(),
            Self::join_fields(),
            self.join_values(),
            Self::tail(),
            self.tail_data(),
        )
    }

    /// `buf` holds this packet.
    pub open spec fn read_from(self, buf: Seq<u32>) -> bool {
        layout::packet_reads(
            buf,
            Self::bit_fields(),
            self.bit_values(),
            Self::join_fields(),
            self.join_values(),
            Self::tail(),
            self.tail_data(),
        )
    }

    fn exec_bit_fields() -> (r: Vec<BitField>)
        ensures
            r@ == Self::bit_fields(),
    {
        vec![BitField { dw: 0, mask: 0x1, shift: 18 }, BitField { dw: 0, mask: 0xf, shift: 20 }, BitField { dw: 0, mask: 0xf, shift: 24 }, BitField { dw: 0, mask: 0x1, shift: 31 }, BitField { dw: 3, mask: 0x3fff, shift: 0 }, BitField { dw: 3, mask: 0x3fff, shift: 16 }, BitField { dw: 4, mask: 0x7ff, shift: 0 }, BitField { dw: 4, mask: 0x3fff, shift: 16 }, BitField { dw: 5, mask: 0x3fff, shift: 0 }, BitField { dw: 5, mask: 0x7ff, shift: 16 }, BitField { dw: 6, mask: 0x7, shift: 0 }, BitField { dw: 6, mask: 0x1f, shift: 3 }, BitField { dw: 6, mask: 0x3, shift: 9 }, BitField { dw: 6, mask: 0xffff, shift: 16 }, BitField { dw: 9, mask: 0x3fff, shift: 0 }, BitField { dw: 9, mask: 0x3fff, shift: 16 }, BitField { dw: 10, mask: 0x7ff, shift: 0 }, BitField { dw: 10, mask: 0x3fff, shift: 16 }, BitField { dw: 11, mask: 0xfffffff, shift: 0 }, BitField { dw: 12, mask: 0x3fff, shift: 0 }, BitField { dw: 12, mask: 0x3fff, shift: 16 }, BitField { dw: 13, mask: 0x7ff, shift: 0 }, BitField { dw: 13, mask: 0x3, shift: 16 }, BitField { dw: 13, mask: 0x3, shift: 24 }]
    }

    fn exec_join_fields() -> (r: Vec<JoinField>)
        ensures
            r@ == Self::join_fields(),
    {
        vec![JoinField { lo: 1, hi: 2 }, JoinField { lo: 7, hi: 8 }]
    }

    /// Whether the field layout of this packet is well formed.
    pub fn layout_ok() -> (r: bool)
        ensures
            r == Self::layout_wf(),
    {
        layout_is_wf(&Self::exec_bit_fields(), &Self::exec_join_fields(), None, Self::STATIC_DWORDS)
    }

    /// Writes the packet to the start of `buff`, without its header, and
    /// returns how many dwords it took.
    pub fn partial_encode_linear(&self, buff: &mut [u32]) -> (n: usize)
        requires
            old(buff)@.len() >= self.size(),
            self.fits(),
        ensures
            n == self.size(),
            final(buff)@ == self.spec_encode(old(buff)@),
            final(buff)@.len() == old(buff)@.len(),
    {
        let bits = Self::exec_bit_fields();
        let vals: Vec<u32> = vec![to_bit(self.tmz), layout::widen_u8(self.mip_max), layout::widen_u8(self.mip_id), to_bit(self.detile), layout::widen_u16(self.tiled_x), layout::widen_u16(self.tiled_y), layout::widen_u16(self.tiled_z), layout::widen_u16(self.width), layout::widen_u16(self.height), layout::widen_u16(self.depth), layout::widen_u8(self.element_size), layout::widen_u8(self.swizzle_mode), layout::widen_u8(self.dimension), layout::widen_u16(self.epitch), layout::widen_u16(self.linear_x), layout::widen_u16(self.linear_y), layout::widen_u16(self.linear_z), layout::widen_u16(self.linear_pitch), self.linear_slice_pitch, layout::widen_u16(self.rect_x), layout::widen_u16(self.rect_y), layout::widen_u16(self.rect_z), layout::widen_u8(self.linear_sw), layout::widen_u8(self.tile_sw)];
        let joins = Self::exec_join_fields();
        let jvals: Vec<u64> = vec![self.tiled_addr, self.linear_addr];
        proof {
            assert(vals@ =~= self.bit_values());
            assert(jvals@ =~= self.join_values());
        }
        encode_bit_fields(&bits, &vals, buff);
        encode_join_fields(&joins, &jvals, buff);
        Self::STATIC_DWORDS
    }

    /// Reads the packet at the start of `buff` and returns how many dwords it
    /// took.
    #[verifier::rlimit(40)]
    pub fn partial_decode_linear(buff: &[u32]) -> (r: (usize, Self))
        requires
            Self::decodable(buff@),
        ensures
            r.0 == r.1.size(),
            r.1.read_from(buff@),
    {
        let bits = Self::exec_bit_fields();
        let v = decode_bit_fields(&bits, buff);
        let joins = Self::exec_join_fields();
        let j = decode_join_fields(&joins, buff);
        let p = Self { tmz: v[0] != 0, mip_max: layout::narrow_u8(v[1]), mip_id: layout::narrow_u8(v[2]), detile: v[3] != 0, tiled_x: layout::narrow_u16(v[4]), tiled_y: layout::narrow_u16(v[5]), tiled_z: layout::narrow_u16(v[6]), width: layout::narrow_u16(v[7]), height: layout::narrow_u16(v[8]), depth: layout::narrow_u16(v[9]), element_size: layout::narrow_u8(v[10]), swizzle_mode: layout::narrow_u8(v[11]), dimension: layout::narrow_u8(v[12]), epitch: layout::narrow_u16(v[13]), linear_x: layout::narrow_u16(v[14]), linear_y: layout::narrow_u16(v[15]), linear_z: layout::narrow_u16(v[16]), linear_pitch: layout::narrow_u16(v[17]), linear_slice_pitch: v[18], rect_x: layout::narrow_u16(v[19]), rect_y: layout::narrow_u16(v[20]), rect_z: layout::narrow_u16(v[21]), linear_sw: layout::narrow_u8(v[22]), tile_sw: layout::narrow_u8(v[23]), tiled_addr: j[0], linear_addr: j[1] };
        proof {
            assert(p.bit_values() =~= v@);
            assert(p.join_values() =~= j@);
        }
        (Self::STATIC_DWORDS, p)
    }

    /// Where each field stands in a buffer that the packet is read from, as
    /// the packet header lays it out: a bit field under its mask and shift
    /// in its dword, a 64-bit field in two dwords, low half first. By
    /// `lemma_roundtrip`, encoding a packet puts its fields there.
    #[verifier::rlimit(40)]
    pub proof fn lemma_field_positions(self, buf: Seq<u32>)
        requires
            self.read_from(buf),
        ensures
            layout::bool_bit(self.tmz) == layout::get_bits(buf[0], 0x1, 18),
            layout::u8_value(self.mip_max) == layout::get_bits(buf[0], 0xf, 20),
            layout::u8_value(self.mip_id) == layout::get_bits(buf[0], 0xf, 24),
            layout::bool_bit(self.detile) == layout::get_bits(buf[0], 0x1, 31),
            layout::u16_value(self.tiled_x) == layout::get_bits(buf[3], 0x3fff, 0),
            layout::u16_value(self.tiled_y) == layout::get_bits(buf[3], 0x3fff, 16),
            layout::u16_value(self.tiled_z) == layout::get_bits(buf[4], 0x7ff, 0),
            layout::u16_value(self.width) == layout::get_bits(buf[4], 0x3fff, 16),
            layout::u16_value(self.height) == layout::get_bits(buf[5], 0x3fff, 0),
            layout::u16_value(self.depth) == layout::get_bits(buf[5], 0x7ff, 16),
            layout::u8_value(self.element_size) == layout::get_bits(buf[6], 0x7, 0),
            layout::u8_value(self.swizzle_mode) == layout::get_bits(buf[6], 0x1f, 3),
            layout::u8_value(self.dimension) == layout::get_bits(buf[6], 0x3, 9),
            layout::u16_value(self.epitch) == layout::get_bits(buf[6], 0xffff, 16),
            layout::u16_value(self.linear_x) == layout::get_bits(buf[9], 0x3fff, 0),
            layout::u16_value(self.linear_y) == layout::get_bits(buf[9], 0x3fff, 16),
            layout::u16_value(self.linear_z) == layout::get_bits(buf[10], 0x7ff, 0),
            layout::u16_value(self.linear_pitch) == layout::get_bits(buf[10], 0x3fff, 16),
            self.linear_slice_pitch == layout::get_bits(buf[11], 0xfffffff, 0),
            layout::u16_value(self.rect_x) == layout::get_bits(buf[12], 0x3fff, 0),
            layout::u16_value(self.rect_y) == layout::get_bits(buf[12], 0x3fff, 16),
            layout::u16_value(self.rect_z) == layout::get_bits(buf[13], 0x7ff, 0),
            layout::u8_value(self.linear_sw) == layout::get_bits(buf[13], 0x3, 16),
            layout::u8_value(self.tile_sw) == layout::get_bits(buf[13], 0x3, 24),
            self.tiled_addr == layout::dword_pair(buf[1], buf[2]),
            self.linear_addr == layout::dword_pair(buf[7], buf[8]),
    {
        assert(self.bit_values()[0] == layout::bool_bit(self.tmz));
        assert(layout::decode_bits(buf, Self::bit_fields())[0] == self.bit_values()[0]);
        assert(self.bit_values()[1] == layout::u8_value(self.mip_max));
        assert(layout::decode_bits(buf, Self::bit_fields())[1] == self.bit_values()[1]);
        assert(self.bit_values()[2] == layout::u8_value(self.mip_id));
        assert(layout::decode_bits(buf, Self::bit_fields())[2] == self.bit_values()[2]);
        assert(self.bit_values()[3] == layout::bool_bit(self.detile));
        assert(layout::decode_bits(buf, Self::bit_fields())[3] == self.bit_values()[3]);
        assert(self.bit_values()[4] == layout::u16_value(self.tiled_x));
        assert(layout::decode_bits(buf, Self::bit_fields())[4] == self.bit_values()[4]);
        assert(self.bit_values()[5] == layout::u16_value(self.tiled_y));
        assert(layout::decode_bits(buf, Self::bit_fields())[5] == self.bit_values()[5]);
        assert(self.bit_values()[6] == layout::u16_value(self.tiled_z));
        assert(layout::decode_bits(buf, Self::bit_fields())[6] == self.bit_values()[6]);
        assert(self.bit_values()[7] == layout::u16_value(self.width));
        assert(layout::decode_bits(buf, Self::bit_fields())[7] == self.bit_values()[7]);
        assert(self.bit_values()[8] == layout::u16_value(self.height));
        assert(layout::decode_bits(buf, Self::bit_fields())[8] == self.bit_values()[8]);
        assert(self.bit_values()[9] == layout::u16_value(self.depth));
        assert(layout::decode_bits(buf, Self::bit_fields())[9] == self.bit_values()[9]);
        assert(self.bit_values()[10] == layout::u8_value(self.element_size));
        assert(layout::decode_bits(buf, Self::bit_fields())[10] == self.bit_values()[10]);
        assert(self.bit_values()[11] == layout::u8_value(self.swizzle_mode));
        assert(layout::decode_bits(buf, Self::bit_fields())[11] == self.bit_values()[11]);
        assert(self.bit_values()[12] == layout::u8_value(self.dimension));
        assert(layout::decode_bits(buf, Self::bit_fields())[12] == self.bit_values()[12]);
        assert(self.bit_values()[13] == layout::u16_value(self.epitch));
        assert(layout::decode_bits(buf, Self::bit_fields())[13] == self.bit_values()[13]);
        assert(self.bit_values()[14] == layout::u16_value(self.linear_x));
        assert(layout::decode_bits(buf, Self::bit_fields())[14] == self.bit_values()[14]);
        assert(self.bit_values()[15] == layout::u16_value(self.linear_y));
        assert(layout::decode_bits(buf, Self::bit_fields())[15] == self.bit_values()[15]);
        assert(self.bit_values()[16] == layout::u16_value(self.linear_z));
        assert(layout::decode_bits(buf, Self::bit_fields())[16] == self.bit_values()[16]);
        assert(self.bit_values()[17] == layout::u16_value(self.linear_pitch));
        assert(layout::decode_bits(buf, Self::bit_fields())[17] == self.bit_values()[17]);
        assert(self.bit_values()[18] == self.linear_slice_pitch);
        assert(layout::decode_bits(buf, Self::bit_fields())[18] == self.bit_values()[18]);
        assert(self.bit_values()[19] == layout::u16_value(self.rect_x));
        assert(layout::decode_bits(buf, Self::bit_fields())[19] == self.bit_values()[19]);
        assert(self.bit_values()[20] == layout::u16_value(self.rect_y));
        assert(layout::decode_bits(buf, Self::bit_fields())[20] == self.bit_values()[20]);
        assert(self.bit_values()[21] == layout::u16_value(self.rect_z));
        assert(layout::decode_bits(buf, Self::bit_fields())[21] == self.bit_values()[21]);
        assert(self.bit_values()[22] == layout::u8_value(self.linear_sw));
        assert(layout::decode_bits(buf, Self::bit_fields())[22] == self.bit_values()[22]);
        assert(self.bit_values()[23] == layout::u8_value(self.tile_sw));
        assert(layout::decode_bits(buf, Self::bit_fields())[23] == self.bit_values()[23]);
        assert(layout::decode_joins(buf, Self::join_fields())[0] == self.join_values()[0]);
        assert(layout::decode_joins(buf, Self::join_fields())[1] == self.join_values()[1]);
    }

    /// The field values name the packet: two packets with the same values are
    /// equal.
    #[verifier::rlimit(40)]
    pub proof fn lemma_values_determine(a: Self, b: Self)
        requires
            a.bit_values() == b.bit_values(),
            a.join_values() == b.join_values(),
            a.tail_data() == b.tail_data(),
        ensures
            a == b,
    {
        assert(a.bit_values()[0] == layout::bool_bit(a.tmz) && b.bit_values()[0] == layout::bool_bit(b.tmz));
        assert(a.bit_values()[1] == layout::u8_value(a.mip_max) && b.bit_values()[1] == layout::u8_value(b.mip_max));
        assert(a.bit_values()[2] == layout::u8_value(a.mip_id) && b.bit_values()[2] == layout::u8_value(b.mip_id));
        assert(a.bit_values()[3] == layout::bool_bit(a.detile) && b.bit_values()[3] == layout::bool_bit(b.detile));
        assert(a.bit_values()[4] == layout::u16_value(a.tiled_x) && b.bit_values()[4] == layout::u16_value(b.tiled_x));
        assert(a.bit_values()[5] == layout::u16_value(a.tiled_y) && b.bit_values()[5] == layout::u16_value(b.tiled_y));
        assert(a.bit_values()[6] == layout::u16_value(a.tiled_z) && b.bit_values()[6] == layout::u16_value(b.tiled_z));
        assert(a.bit_values()[7] == layout::u16_value(a.width) && b.bit_values()[7] == layout::u16_value(b.width));
        assert(a.bit_values()[8] == layout::u16_value(a.height) && b.bit_values()[8] == layout::u16_value(b.height));
        assert(a.bit_values()[9] == layout::u16_value(a.depth) && b.bit_values()[9] == layout::u16_value(b.depth));
        assert(a.bit_values()[10] == layout::u8_value(a.element_size) && b.bit_values()[10] == layout::u8_value(b.element_size));
        assert(a.bit_values()[11] == layout::u8_value(a.swizzle_mode) && b.bit_values()[11] == layout::u8_value(b.swizzle_mode));
        assert(a.bit_values()[12] == layout::u8_value(a.dimension) && b.bit_values()[12] == layout::u8_value(b.dimension));
        assert(a.bit_values()[13] == layout::u16_value(a.epitch) && b.bit_values()[13] == layout::u16_value(b.epitch));
        assert(a.bit_values()[14] == layout::u16_value(a.linear_x) && b.bit_values()[14] == layout::u16_value(b.linear_x));
        assert(a.bit_values()[15] == layout::u16_value(a.linear_y) && b.bit_values()[15] == layout::u16_value(b.linear_y));
        assert(a.bit_values()[16] == layout::u16_value(a.linear_z) && b.bit_values()[16] == layout::u16_value(b.linear_z));
        assert(a.bit_values()[17] == layout::u16_value(a.linear_pitch) && b.bit_values()[17] == layout::u16_value(b.linear_pitch));
        assert(a.bit_values()[18] == a.linear_slice_pitch && b.bit_values()[18] == b.linear_slice_pitch);
        assert(a.bit_values()[19] == layout::u16_value(a.rect_x) && b.bit_values()[19] == layout::u16_value(b.rect_x));
        assert(a.bit_values()[20] == layout::u16_value(a.rect_y) && b.bit_values()[20] == layout::u16_value(b.rect_y));
        assert(a.bit_values()[21] == layout::u16_value(a.rect_z) && b.bit_values()[21] == layout::u16_value(b.rect_z));
        assert(a.bit_values()[22] == layout::u8_value(a.linear_sw) && b.bit_values()[22] == layout::u8_value(b.linear_sw));
        assert(a.bit_values()[23] == layout::u8_value(a.tile_sw) && b.bit_values()[23] == layout::u8_value(b.tile_sw));
        assert(a.join_values()[0] == a.tiled_addr && b.join_values()[0] == b.tiled_addr);
        assert(a.join_values()[1] == a.linear_addr && b.join_values()[1] == b.linear_addr);
    }

    /// Reading a packet is exact: two packets read from one buffer are equal.
    pub proof fn lemma_read_unique(a: Self, b: Self, buf: Seq<u32>)
        requires
            a.read_from(buf),
            b.read_from(buf),
        ensures
            a == b,
    {
        layout::lemma_reads_determine(
            buf,
            Self::bit_fields(),
            a.bit_values(),
            b.bit_values(),
            Self::join_fields(),
            a.join_values(),
            b.join_values(),
            Self::tail(),
            a.tail_data(),
            b.tail_data(),
        );
        Self::lemma_values_determine(a, b);
    }

    /// A packet reads back from what it was encoded to.
    pub proof fn lemma_roundtrip(self, buf: Seq<u32>)
        requires
            Self::layout_wf(),
            self.fits(),
            buf.len() >= self.size(),
        ensures
            self.read_from(self.spec_encode(buf)),
            Self::decodable(self.spec_encode(buf)),
            self.spec_encode(buf).len() == buf.len(),
    {
        layout::lemma_packet_roundtrip(
            buf,
            Self::bit_fields(),
            self.bit_values(),
            Self::join_fields(),
            self.join_values(),
            Self::tail(),
            self.tail_data(),
            Self::STATIC_DWORDS as nat,
        );
    }
}

/// The `CopyStruct` packet.
#[derive(Clone, Copy, Default)]
pub struct CopyStruct {
    pub tmz: bool,
    pub detile: bool,
    pub stride: u16,
    pub linear_sw: u8,
    pub struct_sw: u8,
    pub start_index: u32,
    pub count: u32,
    pub sb_addr: u64,
    pub linear_addr: u64,
}

impl CopyStruct {
    /// Dwords of the packet before its variable-length tail.
    pub const STATIC_DWORDS: usize = 8;

    pub open spec fn bit_fields() -> Seq<BitField> {
        seq![BitField { dw: 0, mask: 0x1, shift: 18 }, BitField { dw: 0, mask: 0x1, shift: 31 }, BitField { dw: 5, mask: 0x7ff, shift: 0 }, BitField { dw: 5, mask: 0x3, shift: 16 }, BitField { dw: 5, mask: 0x3, shift: 24 }, BitField { dw: 3, mask: 0xffffffff, shift: 0 }, BitField { dw: 4, mask: 0xffffffff, shift: 0 }]
    }

    pub open spec fn join_fields() -> Seq<JoinField> {
        seq![JoinField { lo: 1, hi: 2 }, JoinField { lo: 6, hi: 7 }]
    }

    pub open spec fn tail() -> Option<DynField> {
        None
    }

    pub open spec fn bit_values(self) -> Seq<u32> {
        seq![layout::bool_bit(self.tmz), layout::bool_bit(self.detile), self.stride as u32, self.linear_sw as u32, self.struct_sw as u32, self.start_index, self.count]
    }

    pub open spec fn join_values(self) -> Seq<u64> {
        seq![self.sb_addr, self.linear_addr]
    }

    pub open spec fn tail_data(self) -> Seq<u32> {
        Seq::<u32>::empty()
    }

    /// Every field value fits its field.
    pub open spec fn fits(self) -> bool {
        layout::fields_fit(Self::bit_fields(), self.bit_values()) && layout::tail_fits(Self::tail(), self.tail_data())
    }

    pub open spec fn layout_wf() -> bool {
        layout::layout_wf(Self::bit_fields(), Self::join_fields(), Self::tail(), Self::STATIC_DWORDS as nat)
    }

    /// Dwords that the packet takes.
    pub open spec fn size(self) -> nat {
        (Self::STATIC_DWORDS + self.tail_data().len()) as nat
    }

    /// The buffer holds the whole packet.
    pub open spec fn decodable(buf: Seq<u32>) -> bool {
        buf.len() >= Self::STATIC_DWORDS
    }

    pub open spec fn spec_encode(self, buf: Seq<u32>) -> Seq<u32> {
        layout::encode_packet(
            buf,
            Self::bit_fields(),
            self.bit_values(),
            Self::join_fields(),
            self.join_values(),
            Self::tail(),
            self.tail_data(),
        )
    }

    /// `buf` holds this packet.
    pub open spec fn read_from(self, buf: Seq<u32>) -> bool {
        layout::packet_reads(
            buf,
            Self::bit_fields(),
            self.bit_values(),
            Self::join_fields(),
            self.join_values(),
            Self::tail(),
            self.tail_data(),
        )
    }

    fn exec_bit_fields() -> (r: Vec<BitField>)
        ensures
            r@ == Self::bit_fields(),
    {
        vec![BitField { dw: 0, mask: 0x1, shift: 18 }, BitField { dw: 0, mask: 0x1, shift: 31 }, BitField { dw: 5, mask: 0x7ff, shift: 0 }, BitField { dw: 5, mask: 0x3, shift: 16 }, BitField { dw: 5, mask: 0x3, shift: 24 }, BitField { dw: 3, mask: 0xffffffff, shift: 0 }, BitField { dw: 4, mask: 0xffffffff, shift: 0 }]
    }

    fn exec_join_fields() -> (r: Vec<JoinField>)
        ensures
            r@ == Self::join_fields(),
    {
        vec![JoinField { lo: 1, hi: 2 }, JoinField { lo: 6, hi: 7 }]
    }

    /// Whether the field layout of this packet is well formed.
    pub fn layout_ok() -> (r: bool)
        ensures
            r == Self::layout_wf(),
    {
        layout_is_wf(&Self::exec_bit_fields(), &Self::exec_join_fields(), None, Self::STATIC_DWORDS)
    }

    /// Writes the packet to the start of `buff`, without its header, and
    /// returns how many dwords it took.
    pub fn partial_encode_linear(&self, buff: &mut [u32]) -> (n: usize)
        requires
            old(buff)@.len() >= self.size(),
            self.fits(),
        ensures
            n == self.size(),
            final(buff)@ == self.spec_encode(old(buff)@),
            final(buff)@.len() == old(buff)@.len(),
    {
        let bits = Self::exec_bit_fields();
        let vals: Vec<u32> = vec![to_bit(self.tmz), to_bit(self.detile), layout::widen_u16(self.stride), layout::widen_u8(self.linear_sw), layout::widen_u8(self.struct_sw), self.start_index, self.count];
        let joins = Self::exec_join_fields();
        let jvals: Vec<u64> = vec![self.sb_addr, self.linear_addr];
        proof {
            assert(vals@ =~= self.bit_values());
            assert(jvals@ =~= self.join_values());
        }
        encode_bit_fields(&bits, &vals, buff);
        encode_join_fields(&joins, &jvals, buff);
        Self::STATIC_DWORDS
    }

    /// Reads the packet at the start of `buff` and returns how many dwords it
    /// took.
    pub fn partial_decode_linear(buff: &[u32]) -> (r: (usize, Self))
        requires
            Self::decodable(buff@),
        ensures
            r.0 == r.1.size(),
            r.1.read_from(buff@),
    {
        let bits = Self::exec_bit_fields();
        let v = decode_bit_fields(&bits, buff);
        let joins = Self::exec_join_fields();
        let j = decode_join_fields(&joins, buff);
        let p = Self { tmz: v[0] != 0, detile: v[1] != 0, stride: layout::narrow_u16(v[2]), linear_sw: layout::narrow_u8(v[3]), struct_sw: layout::narrow_u8(v[4]), start_index: v[5], count: v[6], sb_addr: j[0], linear_addr: j[1] };
        proof {
            assert(p.bit_values() =~= v@);
            assert(p.join_values() =~= j@);
        }
        (Self::STATIC_DWORDS, p)
    }

    /// Where each field stands in a buffer that the packet is read from, as
    /// the packet header lays it out: a bit field under its mask and shift
    /// in its dword, a 64-bit field in two dwords, low half first. By
    /// `lemma_roundtrip`, encoding a packet puts its fields there.
    pub proof fn lemma_field_positions(self, buf: Seq<u32>)
        requires
            self.read_from(buf),
        ensures
            layout::bool_bit(self.tmz) == layout::get_bits(buf[0], 0x1, 18),
            layout::bool_bit(self.detile) == layout::get_bits(buf[0], 0x1, 31),
            layout::u16_value(self.stride) == layout::get_bits(buf[5], 0x7ff, 0),
            layout::u8_value(self.linear_sw) == layout::get_bits(buf[5], 0x3, 16),
            layout::u8_value(self.struct_sw) == layout::get_bits(buf[5], 0x3, 24),
            self.start_index == layout::get_bits(buf[3], 0xffffffff, 0),
            self.count == layout::get_bits(buf[4], 0xffffffff, 0),
            self.sb_addr == layout::dword_pair(buf[1], buf[2]),
            self.linear_addr == layout::dword_pair(buf[6], buf[7]),
    {
        assert(self.bit_values()[0] == layout::bool_bit(self.tmz));
        assert(layout::decode_bits(buf, Self::bit_fields())[0] == self.bit_values()[0]);
        assert(self.bit_values()[1] == layout::bool_bit(self.detile));
        assert(layout::decode_bits(buf, Self::bit_fields())[1] == self.bit_values()[1]);
        assert(self.bit_values()[2] == layout::u16_value(self.stride));
        assert(layout::decode_bits(buf, Self::bit_fields())[2] == self.bit_values()[2]);
        assert(self.bit_values()[3] == layout::u8_value(self.linear_sw));
        assert(layout::decode_bits(buf, Self::bit_fields())[3] == self.bit_values()[3]);
        assert(self.bit_values()[4] == layout::u8_value(self.struct_sw));
        assert(layout::decode_bits(buf, Self::bit_fields())[4] == self.bit_values()[4]);
        assert(self.bit_values()[5] == self.start_index);
        assert(layout::decode_bits(buf, Self::bit_fields())[5] == self.bit_values()[5]);
        assert(self.bit_values()[6] == self.count);
        assert(layout::decode_bits(buf, Self::bit_fields())[6] == self.bit_values()[6]);
        assert(layout::decode_joins(buf, Self::join_fields())[0] == self.join_values()[0]);
        assert(layout::decode_joins(buf, Self::join_fields())[1] == self.join_values()[1]);
    }

    /// The field values name the packet: two packets with the same values are
    /// equal.
    pub proof fn lemma_values_determine(a: Self, b: Self)
        requires
            a.bit_values() == b.bit_values(),
            a.join_values() == b.join_values(),
            a.tail_data() == b.tail_data(),
        ensures
            a == b,
    {
        assert(a.bit_values()[0] == layout::bool_bit(a.tmz) && b.bit_values()[0] == layout::bool_bit(b.tmz));
        assert(a.bit_values()[1] == layout::bool_bit(a.detile) && b.bit_values()[1] == layout::bool_bit(b.detile));
        assert(a.bit_values()[2] == layout::u16_value(a.stride) && b.bit_values()[2] == layout::u16_value(b.stride));
        assert(a.bit_values()[3] == layout::u8_value(a.linear_sw) && b.bit_values()[3] == layout::u8_value(b.linear_sw));
        assert(a.bit_values()[4] == layout::u8_value(a.struct_sw) && b.bit_values()[4] == layout::u8_value(b.struct_sw));
        assert(a.bit_values()[5] == a.start_index && b.bit_values()[5] == b.start_index);
        assert(a.bit_values()[6] == a.count && b.bit_values()[6] == b.count);
        assert(a.join_values()[0] == a.sb_addr && b.join_values()[0] == b.sb_addr);
        assert(a.join_values()[1] == a.linear_addr && b.join_values()[1] == b.linear_addr);
    }

    /// Reading a packet is exact: two packets read from one buffer are equal.
    pub proof fn lemma_read_unique(a: Self, b: Self, buf: Seq<u32>)
        requires
            a.read_from(buf),
            b.read_from(buf),
        ensures
            a == b,
    {
        layout::lemma_reads_determine(
            buf,
            Self::bit_fields(),
            a.bit_values(),
            b.bit_values(),
            Self::join_fields(),
            a.join_values(),
            b.join_values(),
            Self::tail(),
            a.tail_data(),
            b.tail_data(),
        );
        Self::lemma_values_determine(a, b);
    }

    /// A packet reads back from what it was encoded to.
    pub proof fn lemma_roundtrip(self, buf: Seq<u32>)
        requires
            Self::layout_wf(),
            self.fits(),
            buf.len() >= self.size(),
        ensures
            self.read_from(self.spec_encode(buf)),
            Self::decodable(self.spec_encode(buf)),
            self.spec_encode(buf).len() == buf.len(),
    {
        layout::lemma_packet_roundtrip(
            buf,
            Self::bit_fields(),
            self.bit_values(),
            Self::join_fields(),
            self.join_values(),
            Self::tail(),
            self.tail_data(),
            Self::STATIC_DWORDS as nat,
        );
    }
}

/// The `WriteUntiled` packet.
#[derive(Clone, Copy, Default)]
pub struct WriteUntiled<'a> {
    pub encrypt: bool,
    pub tmz: bool,
    pub sw: u8,
    pub dst_addr: u64,
    pub data: &'a [u32],
}

impl<'a> WriteUntiled<'a> {
    /// Dwords of the packet before its variable-length tail.
    pub const STATIC_DWORDS: usize = 4;

    pub open spec fn bit_fields() -> Seq<BitField> {
        seq![BitField { dw: 0, mask: 0x1, shift: 16 }, BitField { dw: 0, mask: 0x1, shift: 18 }, BitField { dw: 3, mask: 0x3, shift: 24 }]
    }

    pub open spec fn join_fields() -> Seq<JoinField> {
        seq![JoinField { lo: 1, hi: 2 }]
    }

    pub open spec fn tail() -> Option<DynField> {
        Some(DynField { start: 4, len_dw: 3, mask: 0xfffff, shift: 0 })
    }

    pub open spec fn bit_values(self) -> Seq<u32> {
        seq![layout::bool_bit(self.encrypt), layout::bool_bit(self.tmz), self.sw as u32]
    }

    pub open spec fn join_values(self) -> Seq<u64> {
        seq![self.dst_addr]
    }

    pub open spec fn tail_data(self) -> Seq<u32> {
        self.data@
    }

    /// Every field value fits its field.
    pub open spec fn fits(self) -> bool {
        layout::fields_fit(Self::bit_fields(), self.bit_values()) && layout::tail_fits(Self::tail(), self.tail_data())
    }

    pub open spec fn layout_wf() -> bool {
        layout::layout_wf(Self::bit_fields(), Self::join_fields(), Self::tail(), Self::STATIC_DWORDS as nat)
    }

    /// Dwords that the packet takes.
    pub open spec fn size(self) -> nat {
        (Self::STATIC_DWORDS + self.tail_data().len()) as nat
    }

    /// The buffer holds the whole packet, tail included.
    pub open spec fn decodable(buf: Seq<u32>) -> bool {
        buf.len() >= Self::STATIC_DWORDS && Self::STATIC_DWORDS + layout::read_dyn_len(buf, Self::tail().unwrap()) <= buf.len()
    }

    pub open spec fn spec_encode(self, buf: Seq<u32>) -> Seq<u32> {
        layout::encode_packet(
            buf,
            Self::bit_fields(),
            self.bit_values(),
            Self::join_fields(),
            self.join_values(),
            Self::tail(),
            self.tail_data(),
        )
    }

    /// `buf` holds this packet.
    pub open spec fn read_from(self, buf: Seq<u32>) -> bool {
        layout::packet_reads(
            buf,
            Self::bit_fields(),
            self.bit_values(),
            Self::join_fields(),
            self.join_values(),
            Self::tail(),
            self.tail_data(),
        )
    }

    fn exec_bit_fields() -> (r: Vec<BitField>)
        ensures
            r@ == Self::bit_fields(),
    {
        vec![BitField { dw: 0, mask: 0x1, shift: 16 }, BitField { dw: 0, mask: 0x1, shift: 18 }, BitField { dw: 3, mask: 0x3, shift: 24 }]
    }

    fn exec_join_fields() -> (r: Vec<JoinField>)
        ensures
            r@ == Self::join_fields(),
    {
        vec![JoinField { lo: 1, hi: 2 }]
    }

    /// Whether the field layout of this packet is well formed.
    pub fn layout_ok() -> (r: bool)
        ensures
            r == Self::layout_wf(),
    {
        layout_is_wf(&Self::exec_bit_fields(), &Self::exec_join_fields(), Some(DynField { start: 4, len_dw: 3, mask: 0xfffff, shift: 0 }), Self::STATIC_DWORDS)
    }

    /// Writes the packet to the start of `buff`, without its header, and
    /// returns how many dwords it took.
    pub fn partial_encode_linear(&self, buff: &mut [u32]) -> (n: usize)
        requires
            old(buff)@.len() >= self.size(),
            self.fits(),
        ensures
            n == self.size(),
            final(buff)@ == self.spec_encode(old(buff)@),
            final(buff)@.len() == old(buff)@.len(),
    {
        let bits = Self::exec_bit_fields();
        let vals: Vec<u32> = vec![to_bit(self.encrypt), to_bit(self.tmz), layout::widen_u8(self.sw)];
        let joins = Self::exec_join_fields();
        let jvals: Vec<u64> = vec![self.dst_addr];
        proof {
            assert(vals@ =~= self.bit_values());
            assert(jvals@ =~= self.join_values());
        }
        encode_bit_fields(&bits, &vals, buff);
        encode_join_fields(&joins, &jvals, buff);
        encode_tail(DynField { start: 4, len_dw: 3, mask: 0xfffff, shift: 0 }, self.data, buff);
        Self::STATIC_DWORDS + self.data.len()
    }

    /// Reads the packet at the start of `buff` and returns how many dwords it
    /// took.
    pub fn partial_decode_linear(buff: &'a [u32]) -> (r: (usize, Self))
        requires
            Self::decodable(buff@),
        ensures
            r.0 == r.1.size(),
            r.1.read_from(buff@),
    {
        let bits = Self::exec_bit_fields();
        let v = decode_bit_fields(&bits, buff);
        let joins = Self::exec_join_fields();
        let j = decode_join_fields(&joins, buff);
        let data = decode_tail(DynField { start: 4, len_dw: 3, mask: 0xfffff, shift: 0 }, buff);
        let p = Self { encrypt: v[0] != 0, tmz: v[1] != 0, sw: layout::narrow_u8(v[2]), dst_addr: j[0], data };
        proof {
            assert(p.bit_values() =~= v@);
            assert(p.join_values() =~= j@);
        }
        (Self::STATIC_DWORDS + p.data.len(), p)
    }

    /// Where each field stands in a buffer that the packet is read from, as
    /// the packet header lays it out: a bit field under its mask and shift
    /// in its dword, a 64-bit field in two dwords, low half first. By
    /// `lemma_roundtrip`, encoding a packet puts its fields there.
    pub proof fn lemma_field_positions(self, buf: Seq<u32>)
        requires
            self.read_from(buf),
        ensures
            layout::bool_bit(self.encrypt) == layout::get_bits(buf[0], 0x1, 16),
            layout::bool_bit(self.tmz) == layout::get_bits(buf[0], 0x1, 18),
            layout::u8_value(self.sw) == layout::get_bits(buf[3], 0x3, 24),
            self.dst_addr == layout::dword_pair(buf[1], buf[2]),
            self.data@ == buf.subrange(4, 4 + layout::get_bits(buf[3], 0xfffff, 0)),
    {
        assert(self.bit_values()[0] == layout::bool_bit(self.encrypt));
        assert(layout::decode_bits(buf, Self::bit_fields())[0] == self.bit_values()[0]);
        assert(self.bit_values()[1] == layout::bool_bit(self.tmz));
        assert(layout::decode_bits(buf, Self::bit_fields())[1] == self.bit_values()[1]);
        assert(self.bit_values()[2] == layout::u8_value(self.sw));
        assert(layout::decode_bits(buf, Self::bit_fields())[2] == self.bit_values()[2]);
        assert(layout::decode_joins(buf, Self::join_fields())[0] == self.join_values()[0]);
    }

    /// The field values name the packet: two packets with the same values are
    /// equal.
    pub proof fn lemma_values_determine(a: Self, b: Self)
        requires
            a.bit_values() == b.bit_values(),
            a.join_values() == b.join_values(),
            a.tail_data() == b.tail_data(),
        ensures
            a == b,
    {
        assert(a.bit_values()[0] == layout::bool_bit(a.encrypt) && b.bit_values()[0] == layout::bool_bit(b.encrypt));
        assert(a.bit_values()[1] == layout::bool_bit(a.tmz) && b.bit_values()[1] == layout::bool_bit(b.tmz));
        assert(a.bit_values()[2] == layout::u8_value(a.sw) && b.bit_values()[2] == layout::u8_value(b.sw));
        assert(a.join_values()[0] == a.dst_addr && b.join_values()[0] == b.dst_addr);
        assert(a.data@ =~= b.data@);
        assert(a.data =~= b.data);
    }

    /// Reading a packet is exact: two packets read from one buffer are equal.
    pub proof fn lemma_read_unique(a: Self, b: Self, buf: Seq<u32>)
        requires
            a.read_from(buf),
            b.read_from(buf),
        ensures
            a == b,
    {
        layout::lemma_reads_determine(
            buf,
            Self::bit_fields(),
            a.bit_values(),
            b.bit_values(),
            Self::join_fields(),
            a.join_values(),
            b.join_values(),
            Self::tail(),
            a.tail_data(),
            b.tail_data(),
        );
        Self::lemma_values_determine(a, b);
    }

    /// A packet reads back from what it was encoded to.
    pub proof fn lemma_roundtrip(self, buf: Seq<u32>)
        requires
            Self::layout_wf(),
            self.fits(),
            buf.len() >= self.size(),
        ensures
            self.read_from(self.spec_encode(buf)),
            Self::decodable(self.spec_encode(buf)),
            self.spec_encode(buf).len() == buf.len(),
    {
        layout::lemma_packet_roundtrip(
            buf,
            Self::bit_fields(),
            self.bit_values(),
            Self::join_fields(),
            self.join_values(),
            Self::tail(),
            self.tail_data(),
            Self::STATIC_DWORDS as nat,
        );
    }
}

/// The `WriteTiled` packet.
#[derive(Clone, Copy, Default)]
pub struct WriteTiled<'a> {
    pub encrypt: bool,
    pub tmz: bool,
    pub mip_max: u8,
    pub width: u16,
    pub height: u16,
    pub depth: u16,
    pub element_size: u8,
    pub swizzle_mode: u8,
    pub dimension: u8,
    pub epitch: u16,
    pub x: u16,
    pub y: u16,
    pub z: u16,
    pub sw: u8,
    pub dst_addr: u64,
    pub data: &'a [u32],
}

impl<'a> WriteTiled<'a> {
    /// Dwords of the packet before its variable-length tail.
    pub const STATIC_DWORDS: usize = 9;

    pub open spec fn bit_fields() -> Seq<BitField> {
        seq![BitField { dw: 0, mask: 0x1, shift: 16 }, BitField { dw: 0, mask: 0x1, shift: 18 }, BitField { dw: 0, mask: 0xf, shift: 20 }, BitField { dw: 3, mask: 0x3fff, shift: 0 }, BitField { dw: 4, mask: 0x3fff, shift: 0 }, BitField { dw: 4, mask: 0x7ff, shift: 16 }, BitField { dw: 5, mask: 0x7, shift: 0 }, BitField { dw: 5, mask: 0x1f, shift: 3 }, BitField { dw: 5, mask: 0x3, shift: 9 }, BitField { dw: 5, mask: 0xffff, shift: 16 }, BitField { dw: 6, mask: 0x3fff, shift: 0 }, BitField { dw: 6, mask: 0x3fff, shift: 16 }, BitField { dw: 7, mask: 0x7ff, shift: 0 }, BitField { dw: 7, mask: 0x3, shift: 24 }]
    }

    pub open spec fn join_fields() -> Seq<JoinField> {
        seq![JoinField { lo: 1, hi: 2 }]
    }

    pub open spec fn tail() -> Option<DynField> {
        Some(DynField { start: 9, len_dw: 8, mask: 0xfffff, shift: 0 })
    }

    pub open spec fn bit_values(self) -> Seq<u32> {
        seq![layout::bool_bit(self.encrypt), layout::bool_bit(self.tmz), self.mip_max as u32, self.width as u32, self.height as u32, self.depth as u32, self.element_size as u32, self.swizzle_mode as u32, self.dimension as u32, self.epitch as u32, self.x as u32, self.y as u32, self.z as u32, self.sw as u32]
    }

    pub open spec fn join_values(self) -> Seq<u64> {
        seq![self.dst_addr]
    }

    pub open spec fn tail_data(self) -> Seq<u32> {
        self.data@
    }

    /// Every field value fits its field.
    pub open spec fn fits(self) -> bool {
        layout::fields_fit(Self::bit_fields(), self.bit_values()) && layout::tail_fits(Self::tail(), self.tail_data())
    }

    pub open spec fn layout_wf() -> bool {
        layout::layout_wf(Self::bit_fields(), Self::join_fields(), Self::tail(), Self::STATIC_DWORDS as nat)
    }

    /// Dwords that the packet takes.
    pub open spec fn size(self) -> nat {
        (Self::STATIC_DWORDS + self.tail_data().len()) as nat
    }

    /// The buffer holds the whole packet, tail included.
    pub open spec fn decodable(buf: Seq<u32>) -> bool {
        buf.len() >= Self::STATIC_DWORDS && Self::STATIC_DWORDS + layout::read_dyn_len(buf, Self::tail().unwrap()) <= buf.len()
    }

    pub open spec fn spec_encode(self, buf: Seq<u32>) -> Seq<u32> {
        layout::encode_packet(
            buf,
            Self::bit_fields(),
            self.bit_values(),
            Self::join_fields(),
            self.join_values(),
            Self::tail(),
            self.tail_data(),
        )
    }

    /// `buf` holds this packet.
    pub open spec fn read_from(self, buf: Seq<u32>) -> bool {
        layout::packet_reads(
            buf,
            Self::bit_fields(),
            self.bit_values(),
            Self::join_fields(),
            self.join_values(),
            Self::tail(),
            self.tail_data(),
        )
    }

    fn exec_bit_fields() -> (r: Vec<BitField>)
        ensures
            r@ == Self::bit_fields(),
    {
        vec![BitField { dw: 0, mask: 0x1, shift: 16 }, BitField { dw: 0, mask: 0x1, shift: 18 }, BitField { dw: 0, mask: 0xf, shift: 20 }, BitField { dw: 3, mask: 0x3fff, shift: 0 }, BitField { dw: 4, mask: 0x3fff, shift: 0 }, BitField { dw: 4, mask: 0x7ff, shift: 16 }, BitField { dw: 5, mask: 0x7, shift: 0 }, BitField { dw: 5, mask: 0x1f, shift: 3 }, BitField { dw: 5, mask: 0x3, shift: 9 }, BitField { dw: 5, mask: 0xffff, shift: 16 }, BitField { dw: 6, mask: 0x3fff, shift: 0 }, BitField { dw: 6, mask: 0x3fff, shift: 16 }, BitField { dw: 7, mask: 0x7ff, shift: 0 }, BitField { dw: 7, mask: 0x3, shift: 24 }]
    }

    fn exec_join_fields() -> (r: Vec<JoinField>)
        ensures
            r@ == Self::join_fields(),
    {
        vec![JoinField { lo: 1, hi: 2 }]
    }

    /// Whether the field layout of this packet is well formed.
    pub fn layout_ok() -> (r: bool)
        ensures
            r == Self::layout_wf(),
    {
        layout_is_wf(&Self::exec_bit_fields(), &Self::exec_join_fields(), Some(DynField { start: 9, len_dw: 8, mask: 0xfffff, shift: 0 }), Self::STATIC_DWORDS)
    }

    /// Writes the packet to the start of `buff`, without its header, and
    /// returns how many dwords it took.
    pub fn partial_encode_linear(&self, buff: &mut [u32]) -> (n: usize)
        requires
            old(buff)@.len() >= self.size(),
            self.fits(),
        ensures
            n == self.size(),
            final(buff)@ == self.spec_encode(old(buff)@),
            final(buff)@.len() == old(buff)@.len(),
    {
        let bits = Self::exec_bit_fields();
        let vals: Vec<u32> = vec![to_bit(self.encrypt), to_bit(self.tmz), layout::widen_u8(self.mip_max), layout::widen_u16(self.width), layout::widen_u16(self.height), layout::widen_u16(self.depth), layout::widen_u8(self.element_size), layout::widen_u8(self.swizzle_mode), layout::widen_u8(self.dimension), layout::widen_u16(self.epitch), layout::widen_u16(self.x), layout::widen_u16(self.y), layout::widen_u16(self.z), layout::widen_u8(self.sw)];
        let joins = Self::exec_join_fields();
        let jvals: Vec<u64> = vec![self.dst_addr];
        proof {
            assert(vals@ =~= self.bit_values());
            assert(jvals@ =~= self.join_values());
        }
        encode_bit_fields(&bits, &vals, buff);
        encode_join_fields(&joins, &jvals, buff);
        encode_tail(DynField { start: 9, len_dw: 8, mask: 0xfffff, shift: 0 }, self.data, buff);
        Self::STATIC_DWORDS + self.data.len()
    }

    /// Reads the packet at the start of `buff` and returns how many dwords it
    /// took.
    pub fn partial_decode_linear(buff: &'a [u32]) -> (r: (usize, Self))
        requires
            Self::decodable(buff@),
        ensures
            r.0 == r.1.size(),
            r.1.read_from(buff@),
    {
        let bits = Self::exec_bit_fields();
        let v = decode_bit_fields(&bits, buff);
        let joins = Self::exec_join_fields();
        let j = decode_join_fields(&joins, buff);
        let data = decode_tail(DynField { start: 9, len_dw: 8, mask: 0xfffff, shift: 0 }, buff);
        let p = Self { encrypt: v[0] != 0, tmz: v[1] != 0, mip_max: layout::narrow_u8(v[2]), width: layout::narrow_u16(v[3]), height: layout::narrow_u16(v[4]), depth: layout::narrow_u16(v[5]), element_size: layout::narrow_u8(v[6]), swizzle_mode: layout::narrow_u8(v[7]), dimension: layout::narrow_u8(v[8]), epitch: layout::narrow_u16(v[9]), x: layout::narrow_u16(v[10]), y: layout::narrow_u16(v[11]), z: layout::narrow_u16(v[12]), sw: layout::narrow_u8(v[13]), dst_addr: j[0], data };
        proof {
            assert(p.bit_values() =~= v@);
            assert(p.join_values() =~= j@);
        }
        (Self::STATIC_DWORDS + p.data.len(), p)
    }

    /// Where each field stands in a buffer that the packet is read from, as
    /// the packet header lays it out: a bit field under its mask and shift
    /// in its dword, a 64-bit field in two dwords, low half first. By
    /// `lemma_roundtrip`, encoding a packet puts its fields there.
    pub proof fn lemma_field_positions(self, buf: Seq<u32>)
        requires
            self.read_from(buf),
        ensures
            layout::bool_bit(self.encrypt) == layout::get_bits(buf[0], 0x1, 16),
            layout::bool_bit(self.tmz) == layout::get_bits(buf[0], 0x1, 18),
            layout::u8_value(self.mip_max) == layout::get_bits(buf[0], 0xf, 20),
            layout::u16_value(self.width) == layout::get_bits(buf[3], 0x3fff, 0),
            layout::u16_value(self.height) == layout::get_bits(buf[4], 0x3fff, 0),
            layout::u16_value(self.depth) == layout::get_bits(buf[4], 0x7ff, 16),
            layout::u8_value(self.element_size) == layout::get_bits(buf[5], 0x7, 0),
            layout::u8_value(self.swizzle_mode) == layout::get_bits(buf[5], 0x1f, 3),
            layout::u8_value(self.dimension) == layout::get_bits(buf[5], 0x3, 9),
            layout::u16_value(self.epitch) == layout::get_bits(buf[5], 0xffff, 16),
            layout::u16_value(self.x) == layout::get_bits(buf[6], 0x3fff, 0),
            layout::u16_value(self.y) == layout::get_bits(buf[6], 0x3fff, 16),
            layout::u16_value(self.z) == layout::get_bits(buf[7], 0x7ff, 0),
            layout::u8_value(self.sw) == layout::get_bits(buf[7], 0x3, 24),
            self.dst_addr == layout::dword_pair(buf[1], buf[2]),
            self.data@ == buf.subrange(9, 9 + layout::get_bits(buf[8], 0xfffff, 0)),
    {
        assert(self.bit_values()[0] == layout::bool_bit(self.encrypt));
        assert(layout::decode_bits(buf, Self::bit_fields())[0] == self.bit_values()[0]);
        assert(self.bit_values()[1] == layout::bool_bit(self.tmz));
        assert(layout::decode_bits(buf, Self::bit_fields())[1] == self.bit_values()[1]);
        assert(self.bit_values()[2] == layout::u8_value(self.mip_max));
        assert(layout::decode_bits(buf, Self::bit_fields())[2] == self.bit_values()[2]);
        assert(self.bit_values()[3] == layout::u16_value(self.width));
        assert(layout::decode_bits(buf, Self::bit_fields())[3] == self.bit_values()[3]);
        assert(self.bit_values()[4] == layout::u16_value(self.height));
        assert(layout::decode_bits(buf, Self::bit_fields())[4] == self.bit_values()[4]);
        assert(self.bit_values()[5] == layout::u16_value(self.depth));
        assert(layout::decode_bits(buf, Self::bit_fields())[5] == self.bit_values()[5]);
        assert(self.bit_values()[6] == layout::u8_value(self.element_size));
        assert(layout::decode_bits(buf, Self::bit_fields())[6] == self.bit_values()[6]);
        assert(self.bit_values()[7] == layout::u8_value(self.swizzle_mode));
        assert(layout::decode_bits(buf, Self::bit_fields())[7] == self.bit_values()[7]);
        assert(self.bit_values()[8] == layout::u8_value(self.dimension));
        assert(layout::decode_bits(buf, Self::bit_fields())[8] == self.bit_values()[8]);
        assert(self.bit_values()[9] == layout::u16_value(self.epitch));
        assert(layout::decode_bits(buf, Self::bit_fields())[9] == self.bit_values()[9]);
        assert(self.bit_values()[10] == layout::u16_value(self.x));
        assert(layout::decode_bits(buf, Self::bit_fields())[10] == self.bit_values()[10]);
        assert(self.bit_values()[11] == layout::u16_value(self.y));
        assert(layout::decode_bits(buf, Self::bit_fields())[11] == self.bit_values()[11]);
        assert(self.bit_values()[12] == layout::u16_value(self.z));
        assert(layout::decode_bits(buf, Self::bit_fields())[12] == self.bit_values()[12]);
        assert(self.bit_values()[13] == layout::u8_value(self.sw));
        assert(layout::decode_bits(buf, Self::bit_fields())[13] == self.bit_values()[13]);
        assert(layout::decode_joins(buf, Self::join_fields())[0] == self.join_values()[0]);
    }

    /// The field values name the packet: two packets with the same values are
    /// equal.
    pub proof fn lemma_values_determine(a: Self, b: Self)
        requires
            a.bit_values() == b.bit_values(),
            a.join_values() == b.join_values(),
            a.tail_data() == b.tail_data(),
        ensures
            a == b,
    {
        assert(a.bit_values()[0] == layout::bool_bit(a.encrypt) && b.bit_values()[0] == layout::bool_bit(b.encrypt));
        assert(a.bit_values()[1] == layout::bool_bit(a.tmz) && b.bit_values()[1] == layout::bool_bit(b.tmz));
        assert(a.bit_values()[2] == layout::u8_value(a.mip_max) && b.bit_values()[2] == layout::u8_value(b.mip_max));
        assert(a.bit_values()[3] == layout::u16_value(a.width) && b.bit_values()[3] == layout::u16_value(b.width));
        assert(a.bit_values()[4] == layout::u16_value(a.height) && b.bit_values()[4] == layout::u16_value(b.height));
        assert(a.bit_values()[5] == layout::u16_value(a.depth) && b.bit_values()[5] == layout::u16_value(b.depth));
        assert(a.bit_values()[6] == layout::u8_value(a.element_size) && b.bit_values()[6] == layout::u8_value(b.element_size));
        assert(a.bit_values()[7] == layout::u8_value(a.swizzle_mode) && b.bit_values()[7] == layout::u8_value(b.swizzle_mode));
        assert(a.bit_values()[8] == layout::u8_value(a.dimension) && b.bit_values()[8] == layout::u8_value(b.dimension));
        assert(a.bit_values()[9] == layout::u16_value(a.epitch) && b.bit_values()[9] == layout::u16_value(b.epitch));
        assert(a.bit_values()[10] == layout::u16_value(a.x) && b.bit_values()[10] == layout::u16_value(b.x));
        assert(a.bit_values()[11] == layout::u16_value(a.y) && b.bit_values()[11] == layout::u16_value(b.y));
        assert(a.bit_values()[12] == layout::u16_value(a.z) && b.bit_values()[12] == layout::u16_value(b.z));
        assert(a.bit_values()[13] == layout::u8_value(a.sw) && b.bit_values()[13] == layout::u8_value(b.sw));
        assert(a.join_values()[0] == a.dst_addr && b.join_values()[0] == b.dst_addr);
        assert(a.data@ =~= b.data@);
        assert(a.data =~= b.data);
    }

    /// Reading a packet is exact: two packets read from one buffer are equal.
    pub proof fn lemma_read_unique(a: Self, b: Self, buf: Seq<u32>)
        requires
            a.read_from(buf),
            b.read_from(buf),
        ensures
            a == b,
    {
        layout::lemma_reads_determine(
            buf,
            Self::bit_fields(),
            a.bit_values(),
            b.bit_values(),
            Self::join_fields(),
            a.join_values(),
            b.join_values(),
            Self::tail(),
            a.tail_data(),
            b.tail_data(),
        );
        Self::lemma_values_determine(a, b);
    }

    /// A packet reads back from what it was encoded to.
    pub proof fn lemma_roundtrip(self, buf: Seq<u32>)
        requires
            Self::layout_wf(),
            self.fits(),
            buf.len() >= self.size(),
        ensures
            self.read_from(self.spec_encode(buf)),
            Self::decodable(self.spec_encode(buf)),
            self.spec_encode(buf).len() == buf.len(),
    {
        layout::lemma_packet_roundtrip(
            buf,
            Self::bit_fields(),
            self.bit_values(),
            Self::join_fields(),
            self.join_values(),
            Self::tail(),
            self.tail_data(),
            Self::STATIC_DWORDS as nat,
        );
    }
}

/// The `PtepdeCopy` packet.
#[derive(Clone, Copy, Default)]
pub struct PtepdeCopy {
    pub ptepde_op: bool,
    pub count: u32,
    pub src_addr: u64,
    pub dst_addr: u64,
    pub mask: u64,
}

impl PtepdeCopy {
    /// Dwords of the packet before its variable-length tail.
    pub const STATIC_DWORDS: usize = 8;

    pub open spec fn bit_fields() -> Seq<BitField> {
        seq![BitField { dw: 0, mask: 0x1, shift: 31 }, BitField { dw: 7, mask: 0x7ffff, shift: 0 }]
    }

    pub open spec fn join_fields() -> Seq<JoinField> {
        seq![JoinField { lo: 1, hi: 2 }, JoinField { lo: 3, hi: 4 }, JoinField { lo: 5, hi: 6 }]
    }

    pub open spec fn tail() -> Option<DynField> {
        None
    }

    pub open spec fn bit_values(self) -> Seq<u32> {
        seq![layout::bool_bit(self.ptepde_op), self.count]
    }

    pub open spec fn join_values(self) -> Seq<u64> {
        seq![self.src_addr, self.dst_addr, self.mask]
    }

    pub open spec fn tail_data(self) -> Seq<u32> {
        Seq::<u32>::empty()
    }

    /// Every field value fits its field.
    pub open spec fn fits(self) -> bool {
        layout::fields_fit(Self::bit_fields(), self.bit_values()) && layout::tail_fits(Self::tail(), self.tail_data())
    }

    pub open spec fn layout_wf() -> bool {
        layout::layout_wf(Self::bit_fields(), Self::join_fields(), Self::tail(), Self::STATIC_DWORDS as nat)
    }

    /// Dwords that the packet takes.
    pub open spec fn size(self) -> nat {
        (Self::STATIC_DWORDS + self.tail_data().len()) as nat
    }

    /// The buffer holds the whole packet.
    pub open spec fn decodable(buf: Seq<u32>) -> bool {
        buf.len() >= Self::STATIC_DWORDS
    }

    pub open spec fn spec_encode(self, buf: Seq<u32>) -> Seq<u32> {
        layout::encode_packet(
            buf,
            Self::bit_fields(),
            self.bit_values(),
            Self::join_fields(),
            self.join_values(),
            Self::tail(),
            self.tail_data(),
        )
    }

    /// `buf` holds this packet.
    pub open spec fn read_from(self, buf: Seq<u32>) -> bool {
        layout::packet_reads(
            buf,
            Self::bit_fields(),
            self.bit_values(),
            Self::join_fields(),
            self.join_values(),
            Self::tail(),
            self.tail_data(),
        )
    }

    fn exec_bit_fields() -> (r: Vec<BitField>)
        ensures
            r@ == Self::bit_fields(),
    {
        vec![BitField { dw: 0, mask: 0x1, shift: 31 }, BitField { dw: 7, mask: 0x7ffff, shift: 0 }]
    }

    fn exec_join_fields() -> (r: Vec<JoinField>)
        ensures
            r@ == Self::join_fields(),
    {
        vec![JoinField { lo: 1, hi: 2 }, JoinField { lo: 3, hi: 4 }, JoinField { lo: 5, hi: 6 }]
    }

    /// Whether the field layout of this packet is well formed.
    pub fn layout_ok() -> (r: bool)
        ensures
            r == Self::layout_wf(),
    {
        layout_is_wf(&Self::exec_bit_fields(), &Self::exec_join_fields(), None, Self::STATIC_DWORDS)
    }

    /// Writes the packet to the start of `buff`, without its header, and
    /// returns how many dwords it took.
    pub fn partial_encode_linear(&self, buff: &mut [u32]) -> (n: usize)
        requires
            old(buff)@.len() >= self.size(),
            self.fits(),
        ensures
            n == self.size(),
            final(buff)@ == self.spec_encode(old(buff)@),
            final(buff)@.len() == old(buff)@.len(),
    {
        let bits = Self::exec_bit_fields();
        let vals: Vec<u32> = vec![to_bit(self.ptepde_op), self.count];
        let joins = Self::exec_join_fields();
        let jvals: Vec<u64> = vec![self.src_addr, self.dst_addr, self.mask];
        proof {
            assert(vals@ =~= self.bit_values());
            assert(jvals@ =~= self.join_values());
        }
        encode_bit_fields(&bits, &vals, buff);
        encode_join_fields(&joins, &jvals, buff);
        Self::STATIC_DWORDS
    }

    /// Reads the packet at the start of `buff` and returns how many dwords it
    /// took.
    pub fn partial_decode_linear(buff: &[u32]) -> (r: (usize, Self))
        requires
            Self::decodable(buff@),
        ensures
            r.0 == r.1.size(),
            r.1.read_from(buff@),
    {
        let bits = Self::exec_bit_fields();
        let v = decode_bit_fields(&bits, buff);
        let joins = Self::exec_join_fields();
        let j = decode_join_fields(&joins, buff);
        let p = Self { ptepde_op: v[0] != 0, count: v[1], src_addr: j[0], dst_addr: j[1], mask: j[2] };
        proof {
            assert(p.bit_values() =~= v@);
            assert(p.join_values() =~= j@);
        }
        (Self::STATIC_DWORDS, p)
    }

    /// Where each field stands in a buffer that the packet is read from, as
    /// the packet header lays it out: a bit field under its mask and shift
    /// in its dword, a 64-bit field in two dwords, low half first. By
    /// `lemma_roundtrip`, encoding a packet puts its fields there.
    pub proof fn lemma_field_positions(self, buf: Seq<u32>)
        requires
            self.read_from(buf),
        ensures
            layout::bool_bit(self.ptepde_op) == layout::get_bits(buf[0], 0x1, 31),
            self.count == layout::get_bits(buf[7], 0x7ffff, 0),
            self.src_addr == layout::dword_pair(buf[1], buf[2]),
            self.dst_addr == layout::dword_pair(buf[3], buf[4]),
            self.mask == layout::dword_pair(buf[5], buf[6]),
    {
        assert(self.bit_values()[0] == layout::bool_bit(self.ptepde_op));
        assert(layout::decode_bits(buf, Self::bit_fields())[0] == self.bit_values()[0]);
        assert(self.bit_values()[1] == self.count);
        assert(layout::decode_bits(buf, Self::bit_fields())[1] == self.bit_values()[1]);
        assert(layout::decode_joins(buf, Self::join_fields())[0] == self.join_values()[0]);
        assert(layout::decode_joins(buf, Self::join_fields())[1] == self.join_values()[1]);
        assert(layout::decode_joins(buf, Self::join_fields())[2] == self.join_values()[2]);
    }

    /// The field values name the packet: two packets with the same values are
    /// equal.
    pub proof fn lemma_values_determine(a: Self, b: Self)
        requires
            a.bit_values() == b.bit_values(),
            a.join_values() == b.join_values(),
            a.tail_data() == b.tail_data(),
        ensures
            a == b,
    {
        assert(a.bit_values()[0] == layout::bool_bit(a.ptepde_op) && b.bit_values()[0] == layout::bool_bit(b.ptepde_op));
        assert(a.bit_values()[1] == a.count && b.bit_values()[1] == b.count);
        assert(a.join_values()[0] == a.src_addr && b.join_values()[0] == b.src_addr);
        assert(a.join_values()[1] == a.dst_addr && b.join_values()[1] == b.dst_addr);
        assert(a.join_values()[2] == a.mask && b.join_values()[2] == b.mask);
    }

    /// Reading a packet is exact: two packets read from one buffer are equal.
    pub proof fn lemma_read_unique(a: Self, b: Self, buf: Seq<u32>)
        requires
            a.read_from(buf),
            b.read_from(buf),
        ensures
            a == b,
    {
        layout::lemma_reads_determine(
            buf,
            Self::bit_fields(),
            a.bit_values(),
            b.bit_values(),
            Self::join_fields(),
            a.join_values(),
            b.join_values(),
            Self::tail(),
            a.tail_data(),
            b.tail_data(),
        );
        Self::lemma_values_determine(a, b);
    }

    /// A packet reads back from what it was encoded to.
    pub proof fn lemma_roundtrip(self, buf: Seq<u32>)
        requires
            Self::layout_wf(),
            self.fits(),
            buf.len() >= self.size(),
        ensures
            self.read_from(self.spec_encode(buf)),
            Self::decodable(self.spec_encode(buf)),
            self.spec_encode(buf).len() == buf.len(),
    {
        layout::lemma_packet_roundtrip(
            buf,
            Self::bit_fields(),
            self.bit_values(),
            Self::join_fields(),
            self.join_values(),
            Self::tail(),
            self.tail_data(),
            Self::STATIC_DWORDS as nat,
        );
    }
}

/// The `PtepdeCopyBackwards` packet.
#[derive(Clone, Copy, Default)]
pub struct PtepdeCopyBackwards {
    pub pte_size: u8,
    pub direction: bool,
    pub ptepde_op: bool,
    pub mask_first_xfer: u8,
    pub mask_last_xfer: u8,
    pub count: u32,
    pub src_addr: u64,
    pub dst_addr: u64,
}

impl PtepdeCopyBackwards {
    /// Dwords of the packet before its variable-length tail.
    pub const STATIC_DWORDS: usize = 7;

    pub open spec fn bit_fields() -> Seq<BitField> {
        seq![BitField { dw: 0, mask: 0x3, shift: 28 }, BitField { dw: 0, mask: 0x1, shift: 30 }, BitField { dw: 0, mask: 0x1, shift: 31 }, BitField { dw: 5, mask: 0xff, shift: 0 }, BitField { dw: 5, mask: 0xff, shift: 8 }, BitField { dw: 6, mask: 0x1ffff, shift: 0 }]
    }

    pub open spec fn join_fields() -> Seq<JoinField> {
        seq![JoinField { lo: 1, hi: 2 }, JoinField { lo: 3, hi: 4 }]
    }

    pub open spec fn tail() -> Option<DynField> {
        None
    }

    pub open spec fn bit_values(self) -> Seq<u32> {
        seq![self.pte_size as u32, layout::bool_bit(self.direction), layout::bool_bit(self.ptepde_op), self.mask_first_xfer as u32, self.mask_last_xfer as u32, self.count]
    }

    pub open spec fn join_values(self) -> Seq<u64> {
        seq![self.src_addr, self.dst_addr]
    }

    pub open spec fn tail_data(self) -> Seq<u32> {
        Seq::<u32>::empty()
    }

    /// Every field value fits its field.
    pub open spec fn fits(self) -> bool {
        layout::fields_fit(Self::bit_fields(), self.bit_values()) && layout::tail_fits(Self::tail(), self.tail_data())
    }

    pub open spec fn layout_wf() -> bool {
        layout::layout_wf(Self::bit_fields(), Self::join_fields(), Self::tail(), Self::STATIC_DWORDS as nat)
    }

    /// Dwords that the packet takes.
    pub open spec fn size(self) -> nat {
        (Self::STATIC_DWORDS + self.tail_data().len()) as nat
    }

    /// The buffer holds the whole packet.
    pub open spec fn decodable(buf: Seq<u32>) -> bool {
        buf.len() >= Self::STATIC_DWORDS
    }

    pub open spec fn spec_encode(self, buf: Seq<u32>) -> Seq<u32> {
        layout::encode_packet(
            buf,
            Self::bit_fields(),
            self.bit_values(),
            Self::join_fields(),
            self.join_values(),
            Self::tail(),
            self.tail_data(),
        )
    }

    /// `buf` holds this packet.
    pub open spec fn read_from(self, buf: Seq<u32>) -> bool {
        layout::packet_reads(
            buf,
            Self::bit_fields(),
            self.bit_values(),
            Self::join_fields(),
            self.join_values(),
            Self::tail(),
            self.tail_data(),
        )
    }

    fn exec_bit_fields() -> (r: Vec<BitField>)
        ensures
            r@ == Self::bit_fields(),
    {
        vec![BitField { dw: 0, mask: 0x3, shift: 28 }, BitField { dw: 0, mask: 0x1, shift: 30 }, BitField { dw: 0, mask: 0x1, shift: 31 }, BitField { dw: 5, mask: 0xff, shift: 0 }, BitField { dw: 5, mask: 0xff, shift: 8 }, BitField { dw: 6, mask: 0x1ffff, shift: 0 }]
    }

    fn exec_join_fields() -> (r: Vec<JoinField>)
        ensures
            r@ == Self::join_fields(),
    {
        vec![JoinField { lo: 1, hi: 2 }, JoinField { lo: 3, hi: 4 }]
    }

    /// Whether the field layout of this packet is well formed.
    pub fn layout_ok() -> (r: bool)
        ensures
            r == Self::layout_wf(),
    {
        layout_is_wf(&Self::exec_bit_fields(), &Self::exec_join_fields(), None, Self::STATIC_DWORDS)
    }

    /// Writes the packet to the start of `buff`, without its header, and
    /// returns how many dwords it took.
    pub fn partial_encode_linear(&self, buff: &mut [u32]) -> (n: usize)
        requires
            old(buff)@.len() >= self.size(),
            self.fits(),
        ensures
            n == self.size(),
            final(buff)@ == self.spec_encode(old(buff)@),
            final(buff)@.len() == old(buff)@.len(),
    {
        let bits = Self::exec_bit_fields();
        let vals: Vec<u32> = vec![layout::widen_u8(self.pte_size), to_bit(self.direction), to_bit(self.ptepde_op), layout::widen_u8(self.mask_first_xfer), layout::widen_u8(self.mask_last_xfer), self.count];
        let joins = Self::exec_join_fields();
        let jvals: Vec<u64> = vec![self.src_addr, self.dst_addr];
        proof {
            assert(vals@ =~= self.bit_values());
            assert(jvals@ =~= self.join_values());
        }
        encode_bit_fields(&bits, &vals, buff);
        encode_join_fields(&joins, &jvals, buff);
        Self::STATIC_DWORDS
    }

    /// Reads the packet at the start of `buff` and returns how many dwords it
    /// took.
    pub fn partial_decode_linear(buff: &[u32]) -> (r: (usize, Self))
        requires
            Self::decodable(buff@),
        ensures
            r.0 == r.1.size(),
            r.1.read_from(buff@),
    {
        let bits = Self::exec_bit_fields();
        let v = decode_bit_fields(&bits, buff);
        let joins = Self::exec_join_fields();
        let j = decode_join_fields(&joins, buff);
        let p = Self { pte_size: layout::narrow_u8(v[0]), direction: v[1] != 0, ptepde_op: v[2] != 0, mask_first_xfer: layout::narrow_u8(v[3]), mask_last_xfer: layout::narrow_u8(v[4]), count: v[5], src_addr: j[0], dst_addr: j[1] };
        proof {
            assert(p.bit_values() =~= v@);
            assert(p.join_values() =~= j@);
        }
        (Self::STATIC_DWORDS, p)
    }

    /// Where each field stands in a buffer that the packet is read from, as
    /// the packet header lays it out: a bit field under its mask and shift
    /// in its dword, a 64-bit field in two dwords, low half first. By
    /// `lemma_roundtrip`, encoding a packet puts its fields there.
    pub proof fn lemma_field_positions(self, buf: Seq<u32>)
        requires
            self.read_from(buf),
        ensures
            layout::u8_value(self.pte_size) == layout::get_bits(buf[0], 0x3, 28),
            layout::bool_bit(self.direction) == layout::get_bits(buf[0], 0x1, 30),
            layout::bool_bit(self.ptepde_op) == layout::get_bits(buf[0], 0x1, 31),
            layout::u8_value(self.mask_first_xfer) == layout::get_bits(buf[5], 0xff, 0),
            layout::u8_value(self.mask_last_xfer) == layout::get_bits(buf[5], 0xff, 8),
            self.count == layout::get_bits(buf[6], 0x1ffff, 0),
            self.src_addr == layout::dword_pair(buf[1], buf[2]),
            self.dst_addr == layout::dword_pair(buf[3], buf[4]),
    {
        assert(self.bit_values()[0] == layout::u8_value(self.pte_size));
        assert(layout::decode_bits(buf, Self::bit_fields())[0] == self.bit_values()[0]);
        assert(self.bit_values()[1] == layout::bool_bit(self.direction));
        assert(layout::decode_bits(buf, Self::bit_fields())[1] == self.bit_values()[1]);
        assert(self.bit_values()[2] == layout::bool_bit(self.ptepde_op));
        assert(layout::decode_bits(buf, Self::bit_fields())[2] == self.bit_values()[2]);
        assert(self.bit_values()[3] == layout::u8_value(self.mask_first_xfer));
        assert(layout::decode_bits(buf, Self::bit_fields())[3] == self.bit_values()[3]);
        assert(self.bit_values()[4] == layout::u8_value(self.mask_last_xfer));
        assert(layout::decode_bits(buf, Self::bit_fields())[4] == self.bit_values()[4]);
        assert(self.bit_values()[5] == self.count);
        assert(layout::decode_bits(buf, Self::bit_fields())[5] == self.bit_values()[5]);
        assert(layout::decode_joins(buf, Self::join_fields())[0] == self.join_values()[0]);
        assert(layout::decode_joins(buf, Self::join_fields())[1] == self.join_values()[1]);
    }

    /// The field values name the packet: two packets with the same values are
    /// equal.
    pub proof fn lemma_values_determine(a: Self, b: Self)
        requires
            a.bit_values() == b.bit_values(),
            a.join_values() == b.join_values(),
            a.tail_data() == b.tail_data(),
        ensures
            a == b,
    {
        assert(a.bit_values()[0] == layout::u8_value(a.pte_size) && b.bit_values()[0] == layout::u8_value(b.pte_size));
        assert(a.bit_values()[1] == layout::bool_bit(a.direction) && b.bit_values()[1] == layout::bool_bit(b.direction));
        assert(a.bit_values()[2] == layout::bool_bit(a.ptepde_op) && b.bit_values()[2] == layout::bool_bit(b.ptepde_op));
        assert(a.bit_values()[3] == layout::u8_value(a.mask_first_xfer) && b.bit_values()[3] == layout::u8_value(b.mask_first_xfer));
        assert(a.bit_values()[4] == layout::u8_value(a.mask_last_xfer) && b.bit_values()[4] == layout::u8_value(b.mask_last_xfer));
        assert(a.bit_values()[5] == a.count && b.bit_values()[5] == b.count);
        assert(a.join_values()[0] == a.src_addr && b.join_values()[0] == b.src_addr);
        assert(a.join_values()[1] == a.dst_addr && b.join_values()[1] == b.dst_addr);
    }

    /// Reading a packet is exact: two packets read from one buffer are equal.
    pub proof fn lemma_read_unique(a: Self, b: Self, buf: Seq<u32>)
        requires
            a.read_from(buf),
            b.read_from(buf),
        ensures
            a == b,
    {
        layout::lemma_reads_determine(
            buf,
            Self::bit_fields(),
            a.bit_values(),
            b.bit_values(),
            Self::join_fields(),
            a.join_values(),
            b.join_values(),
            Self::tail(),
            a.tail_data(),
            b.tail_data(),
        );
        Self::lemma_values_determine(a, b);
    }

    /// A packet reads back from what it was encoded to.
    pub proof fn lemma_roundtrip(self, buf: Seq<u32>)
        requires
            Self::layout_wf(),
            self.fits(),
            buf.len() >= self.size(),
        ensures
            self.read_from(self.spec_encode(buf)),
            Self::decodable(self.spec_encode(buf)),
            self.spec_encode(buf).len() == buf.len(),
    {
        layout::lemma_packet_roundtrip(
            buf,
            Self::bit_fields(),
            self.bit_values(),
            Self::join_fields(),
            self.join_values(),
            Self::tail(),
            self.tail_data(),
            Self::STATIC_DWORDS as nat,
        );
    }
}

/// The `PtepdeRmw` packet.
#[derive(Clone, Copy, Default)]
pub struct PtepdeRmw {
    pub gcc: bool,
    pub sys: bool,
    pub snp: bool,
    pub gpa: bool,
    pub addr: u64,
    pub mask: u64,
    pub value: u64,
}

impl PtepdeRmw {
    /// Dwords of the packet before its variable-length tail.
    pub const STATIC_DWORDS: usize = 7;

    pub open spec fn bit_fields() -> Seq<BitField> {
        seq![BitField { dw: 0, mask: 0x1, shift: 19 }, BitField { dw: 0, mask: 0x1, shift: 20 }, BitField { dw: 0, mask: 0x1, shift: 22 }, BitField { dw: 0, mask: 0x1, shift: 23 }]
    }

    pub open spec fn join_fields() -> Seq<JoinField> {
        seq![JoinField { lo: 1, hi: 2 }, JoinField { lo: 3, hi: 4 }, JoinField { lo: 5, hi: 6 }]
    }

    pub open spec fn tail() -> Option<DynField> {
        None
    }

    pub open spec fn bit_values(self) -> Seq<u32> {
        seq![layout::bool_bit(self.gcc), layout::bool_bit(self.sys), layout::bool_bit(self.snp), layout::bool_bit(self.gpa)]
    }

    pub open spec fn join_values(self) -> Seq<u64> {
        seq![self.addr, self.mask, self.value]
    }

    pub open spec fn tail_data(self) -> Seq<u32> {
        Seq::<u32>::empty()
    }

    /// Every field value fits its field.
    pub open spec fn fits(self) -> bool {
        layout::fields_fit(Self::bit_fields(), self.bit_values()) && layout::tail_fits(Self::tail(), self.tail_data())
    }

    pub open spec fn layout_wf() -> bool {
        layout::layout_wf(Self::bit_fields(), Self::join_fields(), Self::tail(), Self::STATIC_DWORDS as nat)
    }

    /// Dwords that the packet takes.
    pub open spec fn size(self) -> nat {
        (Self::STATIC_DWORDS + self.tail_data().len()) as nat
    }

    /// The buffer holds the whole packet.
    pub open spec fn decodable(buf: Seq<u32>) -> bool {
        buf.len() >= Self::STATIC_DWORDS
    }

    pub open spec fn spec_encode(self, buf: Seq<u32>) -> Seq<u32> {
        layout::encode_packet(
            buf,
            Self::bit_fields(),
            self.bit_values(),
            Self::join_fields(),
            self.join_values(),
            Self::tail(),
            self.tail_data(),
        )
    }

    /// `buf` holds this packet.
    pub open spec fn read_from(self, buf: Seq<u32>) -> bool {
        layout::packet_reads(
            buf,
            Self::bit_fields(),
            self.bit_values(),
            Self::join_fields(),
            self.join_values(),
            Self::tail(),
            self.tail_data(),
        )
    }

    fn exec_bit_fields() -> (r: Vec<BitField>)
        ensures
            r@ == Self::bit_fields(),
    {
        vec![BitField { dw: 0, mask: 0x1, shift: 19 }, BitField { dw: 0, mask: 0x1, shift: 20 }, BitField { dw: 0, mask: 0x1, shift: 22 }, BitField { dw: 0, mask: 0x1, shift: 23 }]
    }

    fn exec_join_fields() -> (r: Vec<JoinField>)
        ensures
            r@ == Self::join_fields(),
    {
        vec![JoinField { lo: 1, hi: 2 }, JoinField { lo: 3, hi: 4 }, JoinField { lo: 5, hi: 6 }]
    }

    /// Whether the field layout of this packet is well formed.
    pub fn layout_ok() -> (r: bool)
        ensures
            r == Self::layout_wf(),
    {
        layout_is_wf(&Self::exec_bit_fields(), &Self::exec_join_fields(), None, Self::STATIC_DWORDS)
    }

    /// Writes the packet to the start of `buff`, without its header, and
    /// returns how many dwords it took.
    pub fn partial_encode_linear(&self, buff: &mut [u32]) -> (n: usize)
        requires
            old(buff)@.len() >= self.size(),
            self.fits(),
        ensures
            n == self.size(),
            final(buff)@ == self.spec_encode(old(buff)@),
            final(buff)@.len() == old(buff)@.len(),
    {
        let bits = Self::exec_bit_fields();
        let vals: Vec<u32> = vec![to_bit(self.gcc), to_bit(self.sys), to_bit(self.snp), to_bit(self.gpa)];
        let joins = Self::exec_join_fields();
        let jvals: Vec<u64> = vec![self.addr, self.mask, self.value];
        proof {
            assert(vals@ =~= self.bit_values());
            assert(jvals@ =~= self.join_values());
        }
        encode_bit_fields(&bits, &vals, buff);
        encode_join_fields(&joins, &jvals, buff);
        Self::STATIC_DWORDS
    }

    /// Reads the packet at the start of `buff` and returns how many dwords it
    /// took.
    pub fn partial_decode_linear(buff: &[u32]) -> (r: (usize, Self))
        requires
            Self::decodable(buff@),
        ensures
            r.0 == r.1.size(),
            r.1.read_from(buff@),
    {
        let bits = Self::exec_bit_fields();
        let v = decode_bit_fields(&bits, buff);
        let joins = Self::exec_join_fields();
        let j = decode_join_fields(&joins, buff);
        let p = Self { gcc: v[0] != 0, sys: v[1] != 0, snp: v[2] != 0, gpa: v[3] != 0, addr: j[0], mask: j[1], value: j[2] };
        proof {
            assert(p.bit_values() =~= v@);
            assert(p.join_values() =~= j@);
        }
        (Self::STATIC_DWORDS, p)
    }

    /// Where each field stands in a buffer that the packet is read from, as
    /// the packet header lays it out: a bit field under its mask and shift
    /// in its dword, a 64-bit field in two dwords, low half first. By
    /// `lemma_roundtrip`, encoding a packet puts its fields there.
    pub proof fn lemma_field_positions(self, buf: Seq<u32>)
        requires
            self.read_from(buf),
        ensures
            layout::bool_bit(self.gcc) == layout::get_bits(buf[0], 0x1, 19),
            layout::bool_bit(self.sys) == layout::get_bits(buf[0], 0x1, 20),
            layout::bool_bit(self.snp) == layout::get_bits(buf[0], 0x1, 22),
            layout::bool_bit(self.gpa) == layout::get_bits(buf[0], 0x1, 23),
            self.addr == layout::dword_pair(buf[1], buf[2]),
            self.mask == layout::dword_pair(buf[3], buf[4]),
            self.value == layout::dword_pair(buf[5], buf[6]),
    {
        assert(self.bit_values()[0] == layout::bool_bit(self.gcc));
        assert(layout::decode_bits(buf, Self::bit_fields())[0] == self.bit_values()[0]);
        assert(self.bit_values()[1] == layout::bool_bit(self.sys));
        assert(layout::decode_bits(buf, Self::bit_fields())[1] == self.bit_values()[1]);
        assert(self.bit_values()[2] == layout::bool_bit(self.snp));
        assert(layout::decode_bits(buf, Self::bit_fields())[2] == self.bit_values()[2]);
        assert(self.bit_values()[3] == layout::bool_bit(self.gpa));
        assert(layout::decode_bits(buf, Self::bit_fields())[3] == self.bit_values()[3]);
        assert(layout::decode_joins(buf, Self::join_fields())[0] == self.join_values()[0]);
        assert(layout::decode_joins(buf, Self::join_fields())[1] == self.join_values()[1]);
        assert(layout::decode_joins(buf, Self::join_fields())[2] == self.join_values()[2]);
    }

    /// The field values name the packet: two packets with the same values are
    /// equal.
    pub proof fn lemma_values_determine(a: Self, b: Self)
        requires
            a.bit_values() == b.bit_values(),
            a.join_values() == b.join_values(),
            a.tail_data() == b.tail_data(),
        ensures
            a == b,
    {
        assert(a.bit_values()[0] == layout::bool_bit(a.gcc) && b.bit_values()[0] == layout::bool_bit(b.gcc));
        assert(a.bit_values()[1] == layout::bool_bit(a.sys) && b.bit_values()[1] == layout::bool_bit(b.sys));
        assert(a.bit_values()[2] == layout::bool_bit(a.snp) && b.bit_values()[2] == layout::bool_bit(b.snp));
        assert(a.bit_values()[3] == layout::bool_bit(a.gpa) && b.bit_values()[3] == layout::bool_bit(b.gpa));
        assert(a.join_values()[0] == a.addr && b.join_values()[0] == b.addr);
        assert(a.join_values()[1] == a.mask && b.join_values()[1] == b.mask);
        assert(a.join_values()[2] == a.value && b.join_values()[2] == b.value);
    }

    /// Reading a packet is exact: two packets read from one buffer are equal.
    pub proof fn lemma_read_unique(a: Self, b: Self, buf: Seq<u32>)
        requires
            a.read_from(buf),
            b.read_from(buf),
        ensures
            a == b,
    {
        layout::lemma_reads_determine(
            buf,
            Self::bit_fields(),
            a.bit_values(),
            b.bit_values(),
            Self::join_fields(),
            a.join_values(),
            b.join_values(),
            Self::tail(),
            a.tail_data(),
            b.tail_data(),
        );
        Self::lemma_values_determine(a, b);
    }

    /// A packet reads back from what it was encoded to.
    pub proof fn lemma_roundtrip(self, buf: Seq<u32>)
        requires
            Self::layout_wf(),
            self.fits(),
            buf.len() >= self.size(),
        ensures
            self.read_from(self.spec_encode(buf)),
            Self::decodable(self.spec_encode(buf)),
            self.spec_encode(buf).len() == buf.len(),
    {
        layout::lemma_packet_roundtrip(
            buf,
            Self::bit_fields(),
            self.bit_values(),
            Self::join_fields(),
            self.join_values(),
            Self::tail(),
            self.tail_data(),
            Self::STATIC_DWORDS as nat,
        );
    }
}

/// The `SrbmWrite` packet.
#[derive(Clone, Copy, Default)]
pub struct SrbmWrite {
    pub byte_en: u8,
    pub addr: u32,
    pub data: u32,
}

impl SrbmWrite {
    /// Dwords of the packet before its variable-length tail.
    pub const STATIC_DWORDS: usize = 3;

    pub open spec fn bit_fields() -> Seq<BitField> {
        seq![BitField { dw: 0, mask: 0xf, shift: 28 }, BitField { dw: 1, mask: 0x3ffff, shift: 0 }, BitField { dw: 2, mask: 0xffffffff, shift: 0 }]
    }

    pub open spec fn join_fields() -> Seq<JoinField> {
        Seq::<JoinField>::empty()
    }

    pub open spec fn tail() -> Option<DynField> {
        None
    }

    pub open spec fn bit_values(self) -> Seq<u32> {
        seq![self.byte_en as u32, self.addr, self.data]
    }

    pub open spec fn join_values(self) -> Seq<u64> {
        Seq::<u64>::empty()
    }

    pub open spec fn tail_data(self) -> Seq<u32> {
        Seq::<u32>::empty()
    }

    /// Every field value fits its field.
    pub open spec fn fits(self) -> bool {
        layout::fields_fit(Self::bit_fields(), self.bit_values()) && layout::tail_fits(Self::tail(), self.tail_data())
    }

    pub open spec fn layout_wf() -> bool {
        layout::layout_wf(Self::bit_fields(), Self::join_fields(), Self::tail(), Self::STATIC_DWORDS as nat)
    }

    /// Dwords that the packet takes.
    pub open spec fn size(self) -> nat {
        (Self::STATIC_DWORDS + self.tail_data().len()) as nat
    }

    /// The buffer holds the whole packet.
    pub open spec fn decodable(buf: Seq<u32>) -> bool {
        buf.len() >= Self::STATIC_DWORDS
    }

    pub open spec fn spec_encode(self, buf: Seq<u32>) -> Seq<u32> {
        layout::encode_packet(
            buf,
            Self::bit_fields(),
            self.bit_values(),
            Self::join_fields(),
            self.join_values(),
            Self::tail(),
            self.tail_data(),
        )
    }

    /// `buf` holds this packet.
    pub open spec fn read_from(self, buf: Seq<u32>) -> bool {
        layout::packet_reads(
            buf,
            Self::bit_fields(),
            self.bit_values(),
            Self::join_fields(),
            self.join_values(),
            Self::tail(),
            self.tail_data(),
        )
    }

    fn exec_bit_fields() -> (r: Vec<BitField>)
        ensures
            r@ == Self::bit_fields(),
    {
        vec![BitField { dw: 0, mask: 0xf, shift: 28 }, BitField { dw: 1, mask: 0x3ffff, shift: 0 }, BitField { dw: 2, mask: 0xffffffff, shift: 0 }]
    }

    fn exec_join_fields() -> (r: Vec<JoinField>)
        ensures
            r@ == Self::join_fields(),
    {
        Vec::<JoinField>::new()
    }

    /// Whether the field layout of this packet is well formed.
    pub fn layout_ok() -> (r: bool)
        ensures
            r == Self::layout_wf(),
    {
        layout_is_wf(&Self::exec_bit_fields(), &Self::exec_join_fields(), None, Self::STATIC_DWORDS)
    }

    /// Writes the packet to the start of `buff`, without its header, and
    /// returns how many dwords it took.
    pub fn partial_encode_linear(&self, buff: &mut [u32]) -> (n: usize)
        requires
            old(buff)@.len() >= self.size(),
            self.fits(),
        ensures
            n == self.size(),
            final(buff)@ == self.spec_encode(old(buff)@),
            final(buff)@.len() == old(buff)@.len(),
    {
        let bits = Self::exec_bit_fields();
        let vals: Vec<u32> = vec![layout::widen_u8(self.byte_en), self.addr, self.data];
        let joins = Self::exec_join_fields();
        let jvals: Vec<u64> = Vec::<u64>::new();
        proof {
            assert(vals@ =~= self.bit_values());
            assert(jvals@ =~= self.join_values());
        }
        encode_bit_fields(&bits, &vals, buff);
        encode_join_fields(&joins, &jvals, buff);
        Self::STATIC_DWORDS
    }

    /// Reads the packet at the start of `buff` and returns how many dwords it
    /// took.
    pub fn partial_decode_linear(buff: &[u32]) -> (r: (usize, Self))
        requires
            Self::decodable(buff@),
        ensures
            r.0 == r.1.size(),
            r.1.read_from(buff@),
    {
        let bits = Self::exec_bit_fields();
        let v = decode_bit_fields(&bits, buff);
        let joins = Self::exec_join_fields();
        let j = decode_join_fields(&joins, buff);
        let p = Self { byte_en: layout::narrow_u8(v[0]), addr: v[1], data: v[2] };
        proof {
            assert(p.bit_values() =~= v@);
            assert(p.join_values() =~= j@);
        }
        (Self::STATIC_DWORDS, p)
    }

    /// Where each field stands in a buffer that the packet is read from, as
    /// the packet header lays it out: a bit field under its mask and shift
    /// in its dword, a 64-bit field in two dwords, low half first. By
    /// `lemma_roundtrip`, encoding a packet puts its fields there.
    pub proof fn lemma_field_positions(self, buf: Seq<u32>)
        requires
            self.read_from(buf),
        ensures
            layout::u8_value(self.byte_en) == layout::get_bits(buf[0], 0xf, 28),
            self.addr == layout::get_bits(buf[1], 0x3ffff, 0),
            self.data == layout::get_bits(buf[2], 0xffffffff, 0),
    {
        assert(self.bit_values()[0] == layout::u8_value(self.byte_en));
        assert(layout::decode_bits(buf, Self::bit_fields())[0] == self.bit_values()[0]);
        assert(self.bit_values()[1] == self.addr);
        assert(layout::decode_bits(buf, Self::bit_fields())[1] == self.bit_values()[1]);
        assert(self.bit_values()[2] == self.data);
        assert(layout::decode_bits(buf, Self::bit_fields())[2] == self.bit_values()[2]);
    }

    /// The field values name the packet: two packets with the same values are
    /// equal.
    pub proof fn lemma_values_determine(a: Self, b: Self)
        requires
            a.bit_values() == b.bit_values(),
            a.join_values() == b.join_values(),
            a.tail_data() == b.tail_data(),
        ensures
            a == b,
    {
        assert(a.bit_values()[0] == layout::u8_value(a.byte_en) && b.bit_values()[0] == layout::u8_value(b.byte_en));
        assert(a.bit_values()[1] == a.addr && b.bit_values()[1] == b.addr);
        assert(a.bit_values()[2] == a.data && b.bit_values()[2] == b.data);
    }

    /// Reading a packet is exact: two packets read from one buffer are equal.
    pub proof fn lemma_read_unique(a: Self, b: Self, buf: Seq<u32>)
        requires
            a.read_from(buf),
            b.read_from(buf),
        ensures
            a == b,
    {
        layout::lemma_reads_determine(
            buf,
            Self::bit_fields(),
            a.bit_values(),
            b.bit_values(),
            Self::join_fields(),
            a.join_values(),
            b.join_values(),
            Self::tail(),
            a.tail_data(),
            b.tail_data(),
        );
        Self::lemma_values_determine(a, b);
    }

    /// A packet reads back from what it was encoded to.
    pub proof fn lemma_roundtrip(self, buf: Seq<u32>)
        requires
            Self::layout_wf(),
            self.fits(),
            buf.len() >= self.size(),
        ensures
            self.read_from(self.spec_encode(buf)),
            Self::decodable(self.spec_encode(buf)),
            self.spec_encode(buf).len() == buf.len(),
    {
        layout::lemma_packet_roundtrip(
            buf,
            Self::bit_fields(),
            self.bit_values(),
            Self::join_fields(),
            self.join_values(),
            Self::tail(),
            self.tail_data(),
            Self::STATIC_DWORDS as nat,
        );
    }
}

/// The `DataFillMulti` packet.
#[derive(Clone, Copy, Default)]
pub struct DataFillMulti<'a> {
    pub memlog_clr: bool,
    pub byte_stride: u32,
    pub dma_count: u32,
    pub dst_addr: u64,
    pub data: &'a [u32],
}

impl<'a> DataFillMulti<'a> {
    /// Dwords of the packet before its variable-length tail.
    pub const STATIC_DWORDS: usize = 6;

    pub open spec fn bit_fields() -> Seq<BitField> {
        seq![BitField { dw: 0, mask: 0x1, shift: 31 }, BitField { dw: 1, mask: 0xffffffff, shift: 0 }, BitField { dw: 2, mask: 0xffffffff, shift: 0 }]
    }

    pub open spec fn join_fields() -> Seq<JoinField> {
        seq![JoinField { lo: 3, hi: 4 }]
    }

    pub open spec fn tail() -> Option<DynField> {
        Some(DynField { start: 6, len_dw: 5, mask: 0x3ffffff, shift: 0 })
    }

    pub open spec fn bit_values(self) -> Seq<u32> {
        seq![layout::bool_bit(self.memlog_clr), self.byte_stride, self.dma_count]
    }

    pub open spec fn join_values(self) -> Seq<u64> {
        seq![self.dst_addr]
    }

    pub open spec fn tail_data(self) -> Seq<u32> {
        self.data@
    }

    /// Every field value fits its field.
    pub open spec fn fits(self) -> bool {
        layout::fields_fit(Self::bit_fields(), self.bit_values()) && layout::tail_fits(Self::tail(), self.tail_data())
    }

    pub open spec fn layout_wf() -> bool {
        layout::layout_wf(Self::bit_fields(), Self::join_fields(), Self::tail(), Self::STATIC_DWORDS as nat)
    }

    /// Dwords that the packet takes.
    pub open spec fn size(self) -> nat {
        (Self::STATIC_DWORDS + self.tail_data().len()) as nat
    }

    /// The buffer holds the whole packet, tail included.
    pub open spec fn decodable(buf: Seq<u32>) -> bool {
        buf.len() >= Self::STATIC_DWORDS && Self::STATIC_DWORDS + layout::read_dyn_len(buf, Self::tail().unwrap()) <= buf.len()
    }

    pub open spec fn spec_encode(self, buf: Seq<u32>) -> Seq<u32> {
        layout::encode_packet(
            buf,
            Self::bit_fields(),
            self.bit_values(),
            Self::join_fields(),
            self.join_values(),
            Self::tail(),
            self.tail_data(),
        )
    }

    /// `buf` holds this packet.
    pub open spec fn read_from(self, buf: Seq<u32>) -> bool {
        layout::packet_reads(
            buf,
            Self::bit_fields(),
            self.bit_values(),
            Self::join_fields(),
            self.join_values(),
            Self::tail(),
            self.tail_data(),
        )
    }

    fn exec_bit_fields() -> (r: Vec<BitField>)
        ensures
            r@ == Self::bit_fields(),
    {
        vec![BitField { dw: 0, mask: 0x1, shift: 31 }, BitField { dw: 1, mask: 0xffffffff, shift: 0 }, BitField { dw: 2, mask: 0xffffffff, shift: 0 }]
    }

    fn exec_join_fields() -> (r: Vec<JoinField>)
        ensures
            r@ == Self::join_fields(),
    {
        vec![JoinField { lo: 3, hi: 4 }]
    }

    /// Whether the field layout of this packet is well formed.
    pub fn layout_ok() -> (r: bool)
        ensures
            r == Self::layout_wf(),
    {
        layout_is_wf(&Self::exec_bit_fields(), &Self::exec_join_fields(), Some(DynField { start: 6, len_dw: 5, mask: 0x3ffffff, shift: 0 }), Self::STATIC_DWORDS)
    }

    /// Writes the packet to the start of `buff`, without its header, and
    /// returns how many dwords it took.
    pub fn partial_encode_linear(&self, buff: &mut [u32]) -> (n: usize)
        requires
            old(buff)@.len() >= self.size(),
            self.fits(),
        ensures
            n == self.size(),
            final(buff)@ == self.spec_encode(old(buff)@),
            final(buff)@.len() == old(buff)@.len(),
    {
        let bits = Self::exec_bit_fields();
        let vals: Vec<u32> = vec![to_bit(self.memlog_clr), self.byte_stride, self.dma_count];
        let joins = Self::exec_join_fields();
        let jvals: Vec<u64> = vec![self.dst_addr];
        proof {
            assert(vals@ =~= self.bit_values());
            assert(jvals@ =~= self.join_values());
        }
        encode_bit_fields(&bits, &vals, buff);
        encode_join_fields(&joins, &jvals, buff);
        encode_tail(DynField { start: 6, len_dw: 5, mask: 0x3ffffff, shift: 0 }, self.data, buff);
        Self::STATIC_DWORDS + self.data.len()
    }

    /// Reads the packet at the start of `buff` and returns how many dwords it
    /// took.
    pub fn partial_decode_linear(buff: &'a [u32]) -> (r: (usize, Self))
        requires
            Self::decodable(buff@),
        ensures
            r.0 == r.1.size(),
            r.1.read_from(buff@),
    {
        let bits = Self::exec_bit_fields();
        let v = decode_bit_fields(&bits, buff);
        let joins = Self::exec_join_fields();
        let j = decode_join_fields(&joins, buff);
        let data = decode_tail(DynField { start: 6, len_dw: 5, mask: 0x3ffffff, shift: 0 }, buff);
        let p = Self { memlog_clr: v[0] != 0, byte_stride: v[1], dma_count: v[2], dst_addr: j[0], data };
        proof {
            assert(p.bit_values() =~= v@);
            assert(p.join_values() =~= j@);
        }
        (Self::STATIC_DWORDS + p.data.len(), p)
    }

    /// Where each field stands in a buffer that the packet is read from, as
    /// the packet header lays it out: a bit field under its mask and shift
    /// in its dword, a 64-bit field in two dwords, low half first. By
    /// `lemma_roundtrip`, encoding a packet puts its fields there.
    pub proof fn lemma_field_positions(self, buf: Seq<u32>)
        requires
            self.read_from(buf),
        ensures
            layout::bool_bit(self.memlog_clr) == layout::get_bits(buf[0], 0x1, 31),
            self.byte_stride == layout::get_bits(buf[1], 0xffffffff, 0),
            self.dma_count == layout::get_bits(buf[2], 0xffffffff, 0),
            self.dst_addr == layout::dword_pair(buf[3], buf[4]),
            self.data@ == buf.subrange(6, 6 + layout::get_bits(buf[5], 0x3ffffff, 0)),
    {
        assert(self.bit_values()[0] == layout::bool_bit(self.memlog_clr));
        assert(layout::decode_bits(buf, Self::bit_fields())[0] == self.bit_values()[0]);
        assert(self.bit_values()[1] == self.byte_stride);
        assert(layout::decode_bits(buf, Self::bit_fields())[1] == self.bit_values()[1]);
        assert(self.bit_values()[2] == self.dma_count);
        assert(layout::decode_bits(buf, Self::bit_fields())[2] == self.bit_values()[2]);
        assert(layout::decode_joins(buf, Self::join_fields())[0] == self.join_values()[0]);
    }

    /// The field values name the packet: two packets with the same values are
    /// equal.
    pub proof fn lemma_values_determine(a: Self, b: Self)
        requires
            a.bit_values() == b.bit_values(),
            a.join_values() == b.join_values(),
            a.tail_data() == b.tail_data(),
        ensures
            a == b,
    {
        assert(a.bit_values()[0] == layout::bool_bit(a.memlog_clr) && b.bit_values()[0] == layout::bool_bit(b.memlog_clr));
        assert(a.bit_values()[1] == a.byte_stride && b.bit_values()[1] == b.byte_stride);
        assert(a.bit_values()[2] == a.dma_count && b.bit_values()[2] == b.dma_count);
        assert(a.join_values()[0] == a.dst_addr && b.join_values()[0] == b.dst_addr);
        assert(a.data@ =~= b.data@);
        assert(a.data =~= b.data);
    }

    /// Reading a packet is exact: two packets read from one buffer are equal.
    pub proof fn lemma_read_unique(a: Self, b: Self, buf: Seq<u32>)
        requires
            a.read_from(buf),
            b.read_from(buf),
        ensures
            a == b,
    {
        layout::lemma_reads_determine(
            buf,
            Self::bit_fields(),
            a.bit_values(),
            b.bit_values(),
            Self::join_fields(),
            a.join_values(),
            b.join_values(),
            Self::tail(),
            a.tail_data(),
            b.tail_data(),
        );
        Self::lemma_values_determine(a, b);
    }

    /// A packet reads back from what it was encoded to.
    pub proof fn lemma_roundtrip(self, buf: Seq<u32>)
        requires
            Self::layout_wf(),
            self.fits(),
            buf.len() >= self.size(),
        ensures
            self.read_from(self.spec_encode(buf)),
            Self::decodable(self.spec_encode(buf)),
            self.spec_encode(buf).len() == buf.len(),
    {
        layout::lemma_packet_roundtrip(
            buf,
            Self::bit_fields(),
            self.bit_values(),
            Self::join_fields(),
            self.join_values(),
            Self::tail(),
            self.tail_data(),
            Self::STATIC_DWORDS as nat,
        );
    }
}

/// The `PollRegWriteMem` packet.
#[derive(Clone, Copy, Default)]
pub struct PollRegWriteMem {
    pub src_addr: u32,
    pub dst_addr: u64,
}

impl PollRegWriteMem {
    /// Dwords of the packet before its variable-length tail.
    pub const STATIC_DWORDS: usize = 4;

    pub open spec fn bit_fields() -> Seq<BitField> {
        seq![BitField { dw: 1, mask: 0x3fffffff, shift: 2 }]
    }

    pub open spec fn join_fields() -> Seq<JoinField> {
        seq![JoinField { lo: 2, hi: 3 }]
    }

    pub open spec fn tail() -> Option<DynField> {
        None
    }

    pub open spec fn bit_values(self) -> Seq<u32> {
        seq![self.src_addr]
    }

    pub open spec fn join_values(self) -> Seq<u64> {
        seq![self.dst_addr]
    }

    pub open spec fn tail_data(self) -> Seq<u32> {
        Seq::<u32>::empty()
    }

    /// Every field value fits its field.
    pub open spec fn fits(self) -> bool {
        layout::fields_fit(Self::bit_fields(), self.bit_values()) && layout::tail_fits(Self::tail(), self.tail_data())
    }

    pub open spec fn layout_wf() -> bool {
        layout::layout_wf(Self::bit_fields(), Self::join_fields(), Self::tail(), Self::STATIC_DWORDS as nat)
    }

    /// Dwords that the packet takes.
    pub open spec fn size(self) -> nat {
        (Self::STATIC_DWORDS + self.tail_data().len()) as nat
    }

    /// The buffer holds the whole packet.
    pub open spec fn decodable(buf: Seq<u32>) -> bool {
        buf.len() >= Self::STATIC_DWORDS
    }

    pub open spec fn spec_encode(self, buf: Seq<u32>) -> Seq<u32> {
        layout::encode_packet(
            buf,
            Self::bit_fields(),
            self.bit_values(),
            Self::join_fields(),
            self.join_values(),
            Self::tail(),
            self.tail_data(),
        )
    }

    /// `buf` holds this packet.
    pub open spec fn read_from(self, buf: Seq<u32>) -> bool {
        layout::packet_reads(
            buf,
            Self::bit_fields(),
            self.bit_values(),
            Self::join_fields(),
            self.join_values(),
            Self::tail(),
            self.tail_data(),
        )
    }

    fn exec_bit_fields() -> (r: Vec<BitField>)
        ensures
            r@ == Self::bit_fields(),
    {
        vec![BitField { dw: 1, mask: 0x3fffffff, shift: 2 }]
    }

    fn exec_join_fields() -> (r: Vec<JoinField>)
        ensures
            r@ == Self::join_fields(),
    {
        vec![JoinField { lo: 2, hi: 3 }]
    }

    /// Whether the field layout of this packet is well formed.
    pub fn layout_ok() -> (r: bool)
        ensures
            r == Self::layout_wf(),
    {
        layout_is_wf(&Self::exec_bit_fields(), &Self::exec_join_fields(), None, Self::STATIC_DWORDS)
    }

    /// Writes the packet to the start of `buff`, without its header, and
    /// returns how many dwords it took.
    pub fn partial_encode_linear(&self, buff: &mut [u32]) -> (n: usize)
        requires
            old(buff)@.len() >= self.size(),
            self.fits(),
        ensures
            n == self.size(),
            final(buff)@ == self.spec_encode(old(buff)@),
            final(buff)@.len() == old(buff)@.len(),
    {
        let bits = Self::exec_bit_fields();
        let vals: Vec<u32> = vec![self.src_addr];
        let joins = Self::exec_join_fields();
        let jvals: Vec<u64> = vec![self.dst_addr];
        proof {
            assert(vals@ =~= self.bit_values());
            assert(jvals@ =~= self.join_values());
        }
        encode_bit_fields(&bits, &vals, buff);
        encode_join_fields(&joins, &jvals, buff);
        Self::STATIC_DWORDS
    }

    /// Reads the packet at the start of `buff` and returns how many dwords it
    /// took.
    pub fn partial_decode_linear(buff: &[u32]) -> (r: (usize, Self))
        requires
            Self::decodable(buff@),
        ensures
            r.0 == r.1.size(),
            r.1.read_from(buff@),
    {
        let bits = Self::exec_bit_fields();
        let v = decode_bit_fields(&bits, buff);
        let joins = Self::exec_join_fields();
        let j = decode_join_fields(&joins, buff);
        let p = Self { src_addr: v[0], dst_addr: j[0] };
        proof {
            assert(p.bit_values() =~= v@);
            assert(p.join_values() =~= j@);
        }
        (Self::STATIC_DWORDS, p)
    }

    /// Where each field stands in a buffer that the packet is read from, as
    /// the packet header lays it out: a bit field under its mask and shift
    /// in its dword, a 64-bit field in two dwords, low half first. By
    /// `lemma_roundtrip`, encoding a packet puts its fields there.
    pub proof fn lemma_field_positions(self, buf: Seq<u32>)
        requires
            self.read_from(buf),
        ensures
            self.src_addr == layout::get_bits(buf[1], 0x3fffffff, 2),
            self.dst_addr == layout::dword_pair(buf[2], buf[3]),
    {
        assert(self.bit_values()[0] == self.src_addr);
        assert(layout::decode_bits(buf, Self::bit_fields())[0] == self.bit_values()[0]);
        assert(layout::decode_joins(buf, Self::join_fields())[0] == self.join_values()[0]);
    }

    /// The field values name the packet: two packets with the same values are
    /// equal.
    pub proof fn lemma_values_determine(a: Self, b: Self)
        requires
            a.bit_values() == b.bit_values(),
            a.join_values() == b.join_values(),
            a.tail_data() == b.tail_data(),
        ensures
            a == b,
    {
        assert(a.bit_values()[0] == a.src_addr && b.bit_values()[0] == b.src_addr);
        assert(a.join_values()[0] == a.dst_addr && b.join_values()[0] == b.dst_addr);
    }

    /// Reading a packet is exact: two packets read from one buffer are equal.
    pub proof fn lemma_read_unique(a: Self, b: Self, buf: Seq<u32>)
        requires
            a.read_from(buf),
            b.read_from(buf),
        ensures
            a == b,
    {
        layout::lemma_reads_determine(
            buf,
            Self::bit_fields(),
            a.bit_values(),
            b.bit_values(),
            Self::join_fields(),
            a.join_values(),
            b.join_values(),
            Self::tail(),
            a.tail_data(),
            b.tail_data(),
        );
        Self::lemma_values_determine(a, b);
    }

    /// A packet reads back from what it was encoded to.
    pub proof fn lemma_roundtrip(self, buf: Seq<u32>)
        requires
            Self::layout_wf(),
            self.fits(),
            buf.len() >= self.size(),
        ensures
            self.read_from(self.spec_encode(buf)),
            Self::decodable(self.spec_encode(buf)),
            self.spec_encode(buf).len() == buf.len(),
    {
        layout::lemma_packet_roundtrip(
            buf,
            Self::bit_fields(),
            self.bit_values(),
            Self::join_fields(),
            self.join_values(),
            Self::tail(),
            self.tail_data(),
            Self::STATIC_DWORDS as nat,
        );
    }
}

/// The `PollDbitWriteMem` packet.
#[derive(Clone, Copy, Default)]
pub struct PollDbitWriteMem {
    pub ea: u8,
    pub start_page: u32,
    pub page_num: u32,
    pub dst_addr: u64,
}

impl PollDbitWriteMem {
    /// Dwords of the packet before its variable-length tail.
    pub const STATIC_DWORDS: usize = 5;

    pub open spec fn bit_fields() -> Seq<BitField> {
        seq![BitField { dw: 0, mask: 0x3, shift: 16 }, BitField { dw: 3, mask: 0xfffffff, shift: 4 }, BitField { dw: 4, mask: 0xffffffff, shift: 0 }]
    }

    pub open spec fn join_fields() -> Seq<JoinField> {
        seq![JoinField { lo: 1, hi: 2 }]
    }

    pub open spec fn tail() -> Option<DynField> {
        None
    }

    pub open spec fn bit_values(self) -> Seq<u32> {
        seq![self.ea as u32, self.start_page, self.page_num]
    }

    pub open spec fn join_values(self) -> Seq<u64> {
        seq![self.dst_addr]
    }

    pub open spec fn tail_data(self) -> Seq<u32> {
        Seq::<u32>::empty()
    }

    /// Every field value fits its field.
    pub open spec fn fits(self) -> bool {
        layout::fields_fit(Self::bit_fields(), self.bit_values()) && layout::tail_fits(Self::tail(), self.tail_data())
    }

    pub open spec fn layout_wf() -> bool {
        layout::layout_wf(Self::bit_fields(), Self::join_fields(), Self::tail(), Self::STATIC_DWORDS as nat)
    }

    /// Dwords that the packet takes.
    pub open spec fn size(self) -> nat {
        (Self::STATIC_DWORDS + self.tail_data().len()) as nat
    }

    /// The buffer holds the whole packet.
    pub open spec fn decodable(buf: Seq<u32>) -> bool {
        buf.len() >= Self::STATIC_DWORDS
    }

    pub open spec fn spec_encode(self, buf: Seq<u32>) -> Seq<u32> {
        layout::encode_packet(
            buf,
            Self::bit_fields(),
            self.bit_values(),
            Self::join_fields(),
            self.join_values(),
            Self::tail(),
            self.tail_data(),
        )
    }

    /// `buf` holds this packet.
    pub open spec fn read_from(self, buf: Seq<u32>) -> bool {
        layout::packet_reads(
            buf,
            Self::bit_fields(),
            self.bit_values(),
            Self::join_fields(),
            self.join_values(),
            Self::tail(),
            self.tail_data(),
        )
    }

    fn exec_bit_fields() -> (r: Vec<BitField>)
        ensures
            r@ == Self::bit_fields(),
    {
        vec![BitField { dw: 0, mask: 0x3, shift: 16 }, BitField { dw: 3, mask: 0xfffffff, shift: 4 }, BitField { dw: 4, mask: 0xffffffff, shift: 0 }]
    }

    fn exec_join_fields() -> (r: Vec<JoinField>)
        ensures
            r@ == Self::join_fields(),
    {
        vec![JoinField { lo: 1, hi: 2 }]
    }

    /// Whether the field layout of this packet is well formed.
    pub fn layout_ok() -> (r: bool)
        ensures
            r == Self::layout_wf(),
    {
        layout_is_wf(&Self::exec_bit_fields(), &Self::exec_join_fields(), None, Self::STATIC_DWORDS)
    }

    /// Writes the packet to the start of `buff`, without its header, and
    /// returns how many dwords it took.
    pub fn partial_encode_linear(&self, buff: &mut [u32]) -> (n: usize)
        requires
            old(buff)@.len() >= self.size(),
            self.fits(),
        ensures
            n == self.size(),
            final(buff)@ == self.spec_encode(old(buff)@),
            final(buff)@.len() == old(buff)@.len(),
    {
        let bits = Self::exec_bit_fields();
        let vals: Vec<u32> = vec![layout::widen_u8(self.ea), self.start_page, self.page_num];
        let joins = Self::exec_join_fields();
        let jvals: Vec<u64> = vec![self.dst_addr];
        proof {
            assert(vals@ =~= self.bit_values());
            assert(jvals@ =~= self.join_values());
        }
        encode_bit_fields(&bits, &vals, buff);
        encode_join_fields(&joins, &jvals, buff);
        Self::STATIC_DWORDS
    }

    /// Reads the packet at the start of `buff` and returns how many dwords it
    /// took.
    pub fn partial_decode_linear(buff: &[u32]) -> (r: (usize, Self))
        requires
            Self::decodable(buff@),
        ensures
            r.0 == r.1.size(),
            r.1.read_from(buff@),
    {
        let bits = Self::exec_bit_fields();
        let v = decode_bit_fields(&bits, buff);
        let joins = Self::exec_join_fields();
        let j = decode_join_fields(&joins, buff);
        let p = Self { ea: layout::narrow_u8(v[0]), start_page: v[1], page_num: v[2], dst_addr: j[0] };
        proof {
            assert(p.bit_values() =~= v@);
            assert(p.join_values() =~= j@);
        }
        (Self::STATIC_DWORDS, p)
    }

    /// Where each field stands in a buffer that the packet is read from, as
    /// the packet header lays it out: a bit field under its mask and shift
    /// in its dword, a 64-bit field in two dwords, low half first. By
    /// `lemma_roundtrip`, encoding a packet puts its fields there.
    pub proof fn lemma_field_positions(self, buf: Seq<u32>)
        requires
            self.read_from(buf),
        ensures
            layout::u8_value(self.ea) == layout::get_bits(buf[0], 0x3, 16),
            self.start_page == layout::get_bits(buf[3], 0xfffffff, 4),
            self.page_num == layout::get_bits(buf[4], 0xffffffff, 0),
            self.dst_addr == layout::dword_pair(buf[1], buf[2]),
    {
        assert(self.bit_values()[0] == layout::u8_value(self.ea));
        assert(layout::decode_bits(buf, Self::bit_fields())[0] == self.bit_values()[0]);
        assert(self.bit_values()[1] == self.start_page);
        assert(layout::decode_bits(buf, Self::bit_fields())[1] == self.bit_values()[1]);
        assert(self.bit_values()[2] == self.page_num);
        assert(layout::decode_bits(buf, Self::bit_fields())[2] == self.bit_values()[2]);
        assert(layout::decode_joins(buf, Self::join_fields())[0] == self.join_values()[0]);
    }

    /// The field values name the packet: two packets with the same values are
    /// equal.
    pub proof fn lemma_values_determine(a: Self, b: Self)
        requires
            a.bit_values() == b.bit_values(),
            a.join_values() == b.join_values(),
            a.tail_data() == b.tail_data(),
        ensures
            a == b,
    {
        assert(a.bit_values()[0] == layout::u8_value(a.ea) && b.bit_values()[0] == layout::u8_value(b.ea));
        assert(a.bit_values()[1] == a.start_page && b.bit_values()[1] == b.start_page);
        assert(a.bit_values()[2] == a.page_num && b.bit_values()[2] == b.page_num);
        assert(a.join_values()[0] == a.dst_addr && b.join_values()[0] == b.dst_addr);
    }

    /// Reading a packet is exact: two packets read from one buffer are equal.
    pub proof fn lemma_read_unique(a: Self, b: Self, buf: Seq<u32>)
        requires
            a.read_from(buf),
            b.read_from(buf),
        ensures
            a == b,
    {
        layout::lemma_reads_determine(
            buf,
            Self::bit_fields(),
            a.bit_values(),
            b.bit_values(),
            Self::join_fields(),
            a.join_values(),
            b.join_values(),
            Self::tail(),
            a.tail_data(),
            b.tail_data(),
        );
        Self::lemma_values_determine(a, b);
    }

    /// A packet reads back from what it was encoded to.
    pub proof fn lemma_roundtrip(self, buf: Seq<u32>)
        requires
            Self::layout_wf(),
            self.fits(),
            buf.len() >= self.size(),
        ensures
            self.read_from(self.spec_encode(buf)),
            Self::decodable(self.spec_encode(buf)),
            self.spec_encode(buf).len() == buf.len(),
    {
        layout::lemma_packet_roundtrip(
            buf,
            Self::bit_fields(),
            self.bit_values(),
            Self::join_fields(),
            self.join_values(),
            Self::tail(),
            self.tail_data(),
            Self::STATIC_DWORDS as nat,
        );
    }
}

/// The `PollMemVerify` packet.
#[derive(Clone, Copy, Default)]
pub struct PollMemVerify {
    pub mode: bool,
    pub pattern: u32,
    pub reserved: u32,
    pub cmp0_start: u64,
    pub cmp0_end: u64,
    pub cmp1_start: u64,
    pub cmp1_end: u64,
    pub rec: u64,
}

impl PollMemVerify {
    /// Dwords of the packet before its variable-length tail.
    pub const STATIC_DWORDS: usize = 13;

    pub open spec fn bit_fields() -> Seq<BitField> {
        seq![BitField { dw: 0, mask: 0x1, shift: 31 }, BitField { dw: 1, mask: 0xffffffff, shift: 0 }, BitField { dw: 12, mask: 0xffffffff, shift: 0 }]
    }

    pub open spec fn join_fields() -> Seq<JoinField> {
        seq![JoinField { lo: 2, hi: 3 }, JoinField { lo: 4, hi: 5 }, JoinField { lo: 6, hi: 7 }, JoinField { lo: 8, hi: 9 }, JoinField { lo: 10, hi: 11 }]
    }

    pub open spec fn tail() -> Option<DynField> {
        None
    }

    pub open spec fn bit_values(self) -> Seq<u32> {
        seq![layout::bool_bit(self.mode), self.pattern, self.reserved]
    }

    pub open spec fn join_values(self) -> Seq<u64> {
        seq![self.cmp0_start, self.cmp0_end, self.cmp1_start, self.cmp1_end, self.rec]
    }

    pub open spec fn tail_data(self) -> Seq<u32> {
        Seq::<u32>::empty()
    }

    /// Every field value fits its field.
    pub open spec fn fits(self) -> bool {
        layout::fields_fit(Self::bit_fields(), self.bit_values()) && layout::tail_fits(Self::tail(), self.tail_data())
    }

    pub open spec fn layout_wf() -> bool {
        layout::layout_wf(Self::bit_fields(), Self::join_fields(), Self::tail(), Self::STATIC_DWORDS as nat)
    }

    /// Dwords that the packet takes.
    pub open spec fn size(self) -> nat {
        (Self::STATIC_DWORDS + self.tail_data().len()) as nat
    }

    /// The buffer holds the whole packet.
    pub open spec fn decodable(buf: Seq<u32>) -> bool {
        buf.len() >= Self::STATIC_DWORDS
    }

    pub open spec fn spec_encode(self, buf: Seq<u32>) -> Seq<u32> {
        layout::encode_packet(
            buf,
            Self::bit_fields(),
            self.bit_values(),
            Self::join_fields(),
            self.join_values(),
            Self::tail(),
            self.tail_data(),
        )
    }

    /// `buf` holds this packet.
    pub open spec fn read_from(self, buf: Seq<u32>) -> bool {
        layout::packet_reads(
            buf,
            Self::bit_fields(),
            self.bit_values(),
            Self::join_fields(),
            self.join_values(),
            Self::tail(),
            self.tail_data(),
        )
    }

    fn exec_bit_fields() -> (r: Vec<BitField>)
        ensures
            r@ == Self::bit_fields(),
    {
        vec![BitField { dw: 0, mask: 0x1, shift: 31 }, BitField { dw: 1, mask: 0xffffffff, shift: 0 }, BitField { dw: 12, mask: 0xffffffff, shift: 0 }]
    }

    fn exec_join_fields() -> (r: Vec<JoinField>)
        ensures
            r@ == Self::join_fields(),
    {
        vec![JoinField { lo: 2, hi: 3 }, JoinField { lo: 4, hi: 5 }, JoinField { lo: 6, hi: 7 }, JoinField { lo: 8, hi: 9 }, JoinField { lo: 10, hi: 11 }]
    }

    /// Whether the field layout of this packet is well formed.
    pub fn layout_ok() -> (r: bool)
        ensures
            r == Self::layout_wf(),
    {
        layout_is_wf(&Self::exec_bit_fields(), &Self::exec_join_fields(), None, Self::STATIC_DWORDS)
    }

    /// Writes the packet to the start of `buff`, without its header, and
    /// returns how many dwords it took.
    pub fn partial_encode_linear(&self, buff: &mut [u32]) -> (n: usize)
        requires
            old(buff)@.len() >= self.size(),
            self.fits(),
        ensures
            n == self.size(),
            final(buff)@ == self.spec_encode(old(buff)@),
            final(buff)@.len() == old(buff)@.len(),
    {
        let bits = Self::exec_bit_fields();
        let vals: Vec<u32> = vec![to_bit(self.mode), self.pattern, self.reserved];
        let joins = Self::exec_join_fields();
        let jvals: Vec<u64> = vec![self.cmp0_start, self.cmp0_end, self.cmp1_start, self.cmp1_end, self.rec];
        proof {
            assert(vals@ =~= self.bit_values());
            assert(jvals@ =~= self.join_values());
        }
        encode_bit_fields(&bits, &vals, buff);
        encode_join_fields(&joins, &jvals, buff);
        Self::STATIC_DWORDS
    }

    /// Reads the packet at the start of `buff` and returns how many dwords it
    /// took.
    pub fn partial_decode_linear(buff: &[u32]) -> (r: (usize, Self))
        requires
            Self::decodable(buff@),
        ensures
            r.0 == r.1.size(),
            r.1.read_from(buff@),
    {
        let bits = Self::exec_bit_fields();
        let v = decode_bit_fields(&bits, buff);
        let joins = Self::exec_join_fields();
        let j = decode_join_fields(&joins, buff);
        let p = Self { mode: v[0] != 0, pattern: v[1], reserved: v[2], cmp0_start: j[0], cmp0_end: j[1], cmp1_start: j[2], cmp1_end: j[3], rec: j[4] };
        proof {
            assert(p.bit_values() =~= v@);
            assert(p.join_values() =~= j@);
        }
        (Self::STATIC_DWORDS, p)
    }

    /// Where each field stands in a buffer that the packet is read from, as
    /// the packet header lays it out: a bit field under its mask and shift
    /// in its dword, a 64-bit field in two dwords, low half first. By
    /// `lemma_roundtrip`, encoding a packet puts its fields there.
    pub proof fn lemma_field_positions(self, buf: Seq<u32>)
        requires
            self.read_from(buf),
        ensures
            layout::bool_bit(self.mode) == layout::get_bits(buf[0], 0x1, 31),
            self.pattern == layout::get_bits(buf[1], 0xffffffff, 0),
            self.reserved == layout::get_bits(buf[12], 0xffffffff, 0),
            self.cmp0_start == layout::dword_pair(buf[2], buf[3]),
            self.cmp0_end == layout::dword_pair(buf[4], buf[5]),
            self.cmp1_start == layout::dword_pair(buf[6], buf[7]),
            self.cmp1_end == layout::dword_pair(buf[8], buf[9]),
            self.rec == layout::dword_pair(buf[10], buf[11]),
    {
        assert(self.bit_values()[0] == layout::bool_bit(self.mode));
        assert(layout::decode_bits(buf, Self::bit_fields())[0] == self.bit_values()[0]);
        assert(self.bit_values()[1] == self.pattern);
        assert(layout::decode_bits(buf, Self::bit_fields())[1] == self.bit_values()[1]);
        assert(self.bit_values()[2] == self.reserved);
        assert(layout::decode_bits(buf, Self::bit_fields())[2] == self.bit_values()[2]);
        assert(layout::decode_joins(buf, Self::join_fields())[0] == self.join_values()[0]);
        assert(layout::decode_joins(buf, Self::join_fields())[1] == self.join_values()[1]);
        assert(layout::decode_joins(buf, Self::join_fields())[2] == self.join_values()[2]);
        assert(layout::decode_joins(buf, Self::join_fields())[3] == self.join_values()[3]);
        assert(layout::decode_joins(buf, Self::join_fields())[4] == self.join_values()[4]);
    }

    /// The field values name the packet: two packets with the same values are
    /// equal.
    pub proof fn lemma_values_determine(a: Self, b: Self)
        requires
            a.bit_values() == b.bit_values(),
            a.join_values() == b.join_values(),
            a.tail_data() == b.tail_data(),
        ensures
            a == b,
    {
        assert(a.bit_values()[0] == layout::bool_bit(a.mode) && b.bit_values()[0] == layout::bool_bit(b.mode));
        assert(a.bit_values()[1] == a.pattern && b.bit_values()[1] == b.pattern);
        assert(a.bit_values()[2] == a.reserved && b.bit_values()[2] == b.reserved);
        assert(a.join_values()[0] == a.cmp0_start && b.join_values()[0] == b.cmp0_start);
        assert(a.join_values()[1] == a.cmp0_end && b.join_values()[1] == b.cmp0_end);
        assert(a.join_values()[2] == a.cmp1_start && b.join_values()[2] == b.cmp1_start);
        assert(a.join_values()[3] == a.cmp1_end && b.join_values()[3] == b.cmp1_end);
        assert(a.join_values()[4] == a.rec && b.join_values()[4] == b.rec);
    }

    /// Reading a packet is exact: two packets read from one buffer are equal.
    pub proof fn lemma_read_unique(a: Self, b: Self, buf: Seq<u32>)
        requires
            a.read_from(buf),
            b.read_from(buf),
        ensures
            a == b,
    {
        layout::lemma_reads_determine(
            buf,
            Self::bit_fields(),
            a.bit_values(),
            b.bit_values(),
            Self::join_fields(),
            a.join_values(),
            b.join_values(),
            Self::tail(),
            a.tail_data(),
            b.tail_data(),
        );
        Self::lemma_values_determine(a, b);
    }

    /// A packet reads back from what it was encoded to.
    pub proof fn lemma_roundtrip(self, buf: Seq<u32>)
        requires
            Self::layout_wf(),
            self.fits(),
            buf.len() >= self.size(),
        ensures
            self.read_from(self.spec_encode(buf)),
            Self::decodable(self.spec_encode(buf)),
            self.spec_encode(buf).len() == buf.len(),
    {
        layout::lemma_packet_roundtrip(
            buf,
            Self::bit_fields(),
            self.bit_values(),
            Self::join_fields(),
            self.join_values(),
            Self::tail(),
            self.tail_data(),
            Self::STATIC_DWORDS as nat,
        );
    }
}

/// The `Atomic` packet.
#[derive(Clone, Copy, Default)]
pub struct Atomic {
    pub loop_: bool,
    pub tmz: bool,
    pub atomic_op: u8,
    pub loop_interval: u16,
    pub addr: u64,
    pub src_data: u64,
    pub compare_data: u64,
}

impl Atomic {
    /// Dwords of the packet before its variable-length tail.
    pub const STATIC_DWORDS: usize = 8;

    pub open spec fn bit_fields() -> Seq<BitField> {
        seq![BitField { dw: 0, mask: 0x1, shift: 16 }, BitField { dw: 0, mask: 0x1, shift: 18 }, BitField { dw: 0, mask: 0x7f, shift: 25 }, BitField { dw: 7, mask: 0x1fff, shift: 0 }]
    }

    pub open spec fn join_fields() -> Seq<JoinField> {
        seq![JoinField { lo: 1, hi: 2 }, JoinField { lo: 3, hi: 4 }, JoinField { lo: 5, hi: 6 }]
    }

    pub open spec fn tail() -> Option<DynField> {
        None
    }

    pub open spec fn bit_values(self) -> Seq<u32> {
        seq![layout::bool_bit(self.loop_), layout::bool_bit(self.tmz), self.atomic_op as u32, self.loop_interval as u32]
    }

    pub open spec fn join_values(self) -> Seq<u64> {
        seq![self.addr, self.src_data, self.compare_data]
    }

    pub open spec fn tail_data(self) -> Seq<u32> {
        Seq::<u32>::empty()
    }

    /// Every field value fits its field.
    pub open spec fn fits(self) -> bool {
        layout::fields_fit(Self::bit_fields(), self.bit_values()) && layout::tail_fits(Self::tail(), self.tail_data())
    }

    pub open spec fn layout_wf() -> bool {
        layout::layout_wf(Self::bit_fields(), Self::join_fields(), Self::tail(), Self::STATIC_DWORDS as nat)
    }

    /// Dwords that the packet takes.
    pub open spec fn size(self) -> nat {
        (Self::STATIC_DWORDS + self.tail_data().len()) as nat
    }

    /// The buffer holds the whole packet.
    pub open spec fn decodable(buf: Seq<u32>) -> bool {
        buf.len() >= Self::STATIC_DWORDS
    }

    pub open spec fn spec_encode(self, buf: Seq<u32>) -> Seq<u32> {
        layout::encode_packet(
            buf,
            Self::bit_fields(),
            self.bit_values(),
            Self::join_fields(),
            self.join_values(),
            Self::tail(),
            self.tail_data(),
        )
    }

    /// `buf` holds this packet.
    pub open spec fn read_from(self, buf: Seq<u32>) -> bool {
        layout::packet_reads(
            buf,
            Self::bit_fields(),
            self.bit_values(),
            Self::join_fields(),
            self.join_values(),
            Self::tail(),
            self.tail_data(),
        )
    }

    fn exec_bit_fields() -> (r: Vec<BitField>)
        ensures
            r@ == Self::bit_fields(),
    {
        vec![BitField { dw: 0, mask: 0x1, shift: 16 }, BitField { dw: 0, mask: 0x1, shift: 18 }, BitField { dw: 0, mask: 0x7f, shift: 25 }, BitField { dw: 7, mask: 0x1fff, shift: 0 }]
    }

    fn exec_join_fields() -> (r: Vec<JoinField>)
        ensures
            r@ == Self::join_fields(),
    {
        vec![JoinField { lo: 1, hi: 2 }, JoinField { lo: 3, hi: 4 }, JoinField { lo: 5, hi: 6 }]
    }

    /// Whether the field layout of this packet is well formed.
    pub fn layout_ok() -> (r: bool)
        ensures
            r == Self::layout_wf(),
    {
        layout_is_wf(&Self::exec_bit_fields(), &Self::exec_join_fields(), None, Self::STATIC_DWORDS)
    }

    /// Writes the packet to the start of `buff`, without its header, and
    /// returns how many dwords it took.
    pub fn partial_encode_linear(&self, buff: &mut [u32]) -> (n: usize)
        requires
            old(buff)@.len() >= self.size(),
            self.fits(),
        ensures
            n == self.size(),
            final(buff)@ == self.spec_encode(old(buff)@),
            final(buff)@.len() == old(buff)@.len(),
    {
        let bits = Self::exec_bit_fields();
        let vals: Vec<u32> = vec![to_bit(self.loop_), to_bit(self.tmz), layout::widen_u8(self.atomic_op), layout::widen_u16(self.loop_interval)];
        let joins = Self::exec_join_fields();
        let jvals: Vec<u64> = vec![self.addr, self.src_data, self.compare_data];
        proof {
            assert(vals@ =~= self.bit_values());
            assert(jvals@ =~= self.join_values());
        }
        encode_bit_fields(&bits, &vals, buff);
        encode_join_fields(&joins, &jvals, buff);
        Self::STATIC_DWORDS
    }

    /// Reads the packet at the start of `buff` and returns how many dwords it
    /// took.
    pub fn partial_decode_linear(buff: &[u32]) -> (r: (usize, Self))
        requires
            Self::decodable(buff@),
        ensures
            r.0 == r.1.size(),
            r.1.read_from(buff@),
    {
        let bits = Self::exec_bit_fields();
        let v = decode_bit_fields(&bits, buff);
        let joins = Self::exec_join_fields();
        let j = decode_join_fields(&joins, buff);
        let p = Self { loop_: v[0] != 0, tmz: v[1] != 0, atomic_op: layout::narrow_u8(v[2]), loop_interval: layout::narrow_u16(v[3]), addr: j[0], src_data: j[1], compare_data: j[2] };
        proof {
            assert(p.bit_values() =~= v@);
            assert(p.join_values() =~= j@);
        }
        (Self::STATIC_DWORDS, p)
    }

    /// Where each field stands in a buffer that the packet is read from, as
    /// the packet header lays it out: a bit field under its mask and shift
    /// in its dword, a 64-bit field in two dwords, low half first. By
    /// `lemma_roundtrip`, encoding a packet puts its fields there.
    pub proof fn lemma_field_positions(self, buf: Seq<u32>)
        requires
            self.read_from(buf),
        ensures
            layout::bool_bit(self.loop_) == layout::get_bits(buf[0], 0x1, 16),
            layout::bool_bit(self.tmz) == layout::get_bits(buf[0], 0x1, 18),
            layout::u8_value(self.atomic_op) == layout::get_bits(buf[0], 0x7f, 25),
            layout::u16_value(self.loop_interval) == layout::get_bits(buf[7], 0x1fff, 0),
            self.addr == layout::dword_pair(buf[1], buf[2]),
            self.src_data == layout::dword_pair(buf[3], buf[4]),
            self.compare_data == layout::dword_pair(buf[5], buf[6]),
    {
        assert(self.bit_values()[0] == layout::bool_bit(self.loop_));
        assert(layout::decode_bits(buf, Self::bit_fields())[0] == self.bit_values()[0]);
        assert(self.bit_values()[1] == layout::bool_bit(self.tmz));
        assert(layout::decode_bits(buf, Self::bit_fields())[1] == self.bit_values()[1]);
        assert(self.bit_values()[2] == layout::u8_value(self.atomic_op));
        assert(layout::decode_bits(buf, Self::bit_fields())[2] == self.bit_values()[2]);
        assert(self.bit_values()[3] == layout::u16_value(self.loop_interval));
        assert(layout::decode_bits(buf, Self::bit_fields())[3] == self.bit_values()[3]);
        assert(layout::decode_joins(buf, Self::join_fields())[0] == self.join_values()[0]);
        assert(layout::decode_joins(buf, Self::join_fields())[1] == self.join_values()[1]);
        assert(layout::decode_joins(buf, Self::join_fields())[2] == self.join_values()[2]);
    }

    /// The field values name the packet: two packets with the same values are
    /// equal.
    pub proof fn lemma_values_determine(a: Self, b: Self)
        requires
            a.bit_values() == b.bit_values(),
            a.join_values() == b.join_values(),
            a.tail_data() == b.tail_data(),
        ensures
            a == b,
    {
        assert(a.bit_values()[0] == layout::bool_bit(a.loop_) && b.bit_values()[0] == layout::bool_bit(b.loop_));
        assert(a.bit_values()[1] == layout::bool_bit(a.tmz) && b.bit_values()[1] == layout::bool_bit(b.tmz));
        assert(a.bit_values()[2] == layout::u8_value(a.atomic_op) && b.bit_values()[2] == layout::u8_value(b.atomic_op));
        assert(a.bit_values()[3] == layout::u16_value(a.loop_interval) && b.bit_values()[3] == layout::u16_value(b.loop_interval));
        assert(a.join_values()[0] == a.addr && b.join_values()[0] == b.addr);
        assert(a.join_values()[1] == a.src_data && b.join_values()[1] == b.src_data);
        assert(a.join_values()[2] == a.compare_data && b.join_values()[2] == b.compare_data);
    }

    /// Reading a packet is exact: two packets read from one buffer are equal.
    pub proof fn lemma_read_unique(a: Self, b: Self, buf: Seq<u32>)
        requires
            a.read_from(buf),
            b.read_from(buf),
        ensures
            a == b,
    {
        layout::lemma_reads_determine(
            buf,
            Self::bit_fields(),
            a.bit_values(),
            b.bit_values(),
            Self::join_fields(),
            a.join_values(),
            b.join_values(),
            Self::tail(),
            a.tail_data(),
            b.tail_data(),
        );
        Self::lemma_values_determine(a, b);
    }

    /// A packet reads back from what it was encoded to.
    pub proof fn lemma_roundtrip(self, buf: Seq<u32>)
        requires
            Self::layout_wf(),
            self.fits(),
            buf.len() >= self.size(),
        ensures
            self.read_from(self.spec_encode(buf)),
            Self::decodable(self.spec_encode(buf)),
            self.spec_encode(buf).len() == buf.len(),
    {
        layout::lemma_packet_roundtrip(
            buf,
            Self::bit_fields(),
            self.bit_values(),
            Self::join_fields(),
            self.join_values(),
            Self::tail(),
            self.tail_data(),
            Self::STATIC_DWORDS as nat,
        );
    }
}

/// The `DummyTrap` packet.
#[derive(Clone, Copy, Default)]
pub struct DummyTrap {
    pub int_context: u32,
}

impl DummyTrap {
    /// Dwords of the packet before its variable-length tail.
    pub const STATIC_DWORDS: usize = 2;

    pub open spec fn bit_fields() -> Seq<BitField> {
        seq![BitField { dw: 1, mask: 0xfffffff, shift: 0 }]
    }

    pub open spec fn join_fields() -> Seq<JoinField> {
        Seq::<JoinField>::empty()
    }

    pub open spec fn tail() -> Option<DynField> {
        None
    }

    pub open spec fn bit_values(self) -> Seq<u32> {
        seq![self.int_context]
    }

    pub open spec fn join_values(self) -> Seq<u64> {
        Seq::<u64>::empty()
    }

    pub open spec fn tail_data(self) -> Seq<u32> {
        Seq::<u32>::empty()
    }

    /// Every field value fits its field.
    pub open spec fn fits(self) -> bool {
        layout::fields_fit(Self::bit_fields(), self.bit_values()) && layout::tail_fits(Self::tail(), self.tail_data())
    }

    pub open spec fn layout_wf() -> bool {
        layout::layout_wf(Self::bit_fields(), Self::join_fields(), Self::tail(), Self::STATIC_DWORDS as nat)
    }

    /// Dwords that the packet takes.
    pub open spec fn size(self) -> nat {
        (Self::STATIC_DWORDS + self.tail_data().len()) as nat
    }

    /// The buffer holds the whole packet.
    pub open spec fn decodable(buf: Seq<u32>) -> bool {
        buf.len() >= Self::STATIC_DWORDS
    }

    pub open spec fn spec_encode(self, buf: Seq<u32>) -> Seq<u32> {
        layout::encode_packet(
            buf,
            Self::bit_fields(),
            self.bit_values(),
            Self::join_fields(),
            self.join_values(),
            Self::tail(),
            self.tail_data(),
        )
    }

    /// `buf` holds this packet.
    pub open spec fn read_from(self, buf: Seq<u32>) -> bool {
        layout::packet_reads(
            buf,
            Self::bit_fields(),
            self.bit_values(),
            Self::join_fields(),
            self.join_values(),
            Self::tail(),
            self.tail_data(),
        )
    }

    fn exec_bit_fields() -> (r: Vec<BitField>)
        ensures
            r@ == Self::bit_fields(),
    {
        vec![BitField { dw: 1, mask: 0xfffffff, shift: 0 }]
    }

    fn exec_join_fields() -> (r: Vec<JoinField>)
        ensures
            r@ == Self::join_fields(),
    {
        Vec::<JoinField>::new()
    }

    /// Whether the field layout of this packet is well formed.
    pub fn layout_ok() -> (r: bool)
        ensures
            r == Self::layout_wf(),
    {
        layout_is_wf(&Self::exec_bit_fields(), &Self::exec_join_fields(), None, Self::STATIC_DWORDS)
    }

    /// Writes the packet to the start of `buff`, without its header, and
    /// returns how many dwords it took.
    pub fn partial_encode_linear(&self, buff: &mut [u32]) -> (n: usize)
        requires
            old(buff)@.len() >= self.size(),
            self.fits(),
        ensures
            n == self.size(),
            final(buff)@ == self.spec_encode(old(buff)@),
            final(buff)@.len() == old(buff)@.len(),
    {
        let bits = Self::exec_bit_fields();
        let vals: Vec<u32> = vec![self.int_context];
        let joins = Self::exec_join_fields();
        let jvals: Vec<u64> = Vec::<u64>::new();
        proof {
            assert(vals@ =~= self.bit_values());
            assert(jvals@ =~= self.join_values());
        }
        encode_bit_fields(&bits, &vals, buff);
        encode_join_fields(&joins, &jvals, buff);
        Self::STATIC_DWORDS
    }

    /// Reads the packet at the start of `buff` and returns how many dwords it
    /// took.
    pub fn partial_decode_linear(buff: &[u32]) -> (r: (usize, Self))
        requires
            Self::decodable(buff@),
        ensures
            r.0 == r.1.size(),
            r.1.read_from(buff@),
    {
        let bits = Self::exec_bit_fields();
        let v = decode_bit_fields(&bits, buff);
        let joins = Self::exec_join_fields();
        let j = decode_join_fields(&joins, buff);
        let p = Self { int_context: v[0] };
        proof {
            assert(p.bit_values() =~= v@);
            assert(p.join_values() =~= j@);
        }
        (Self::STATIC_DWORDS, p)
    }

    /// Where each field stands in a buffer that the packet is read from, as
    /// the packet header lays it out: a bit field under its mask and shift
    /// in its dword, a 64-bit field in two dwords, low half first. By
    /// `lemma_roundtrip`, encoding a packet puts its fields there.
    pub proof fn lemma_field_positions(self, buf: Seq<u32>)
        requires
            self.read_from(buf),
        ensures
            self.int_context == layout::get_bits(buf[1], 0xfffffff, 0),
    {
        assert(self.bit_values()[0] == self.int_context);
        assert(layout::decode_bits(buf, Self::bit_fields())[0] == self.bit_values()[0]);
    }

    /// The field values name the packet: two packets with the same values are
    /// equal.
    pub proof fn lemma_values_determine(a: Self, b: Self)
        requires
            a.bit_values() == b.bit_values(),
            a.join_values() == b.join_values(),
            a.tail_data() == b.tail_data(),
        ensures
            a == b,
    {
        assert(a.bit_values()[0] == a.int_context && b.bit_values()[0] == b.int_context);
    }

    /// Reading a packet is exact: two packets read from one buffer are equal.
    pub proof fn lemma_read_unique(a: Self, b: Self, buf: Seq<u32>)
        requires
            a.read_from(buf),
            b.read_from(buf),
        ensures
            a == b,
    {
        layout::lemma_reads_determine(
            buf,
            Self::bit_fields(),
            a.bit_values(),
            b.bit_values(),
            Self::join_fields(),
            a.join_values(),
            b.join_values(),
            Self::tail(),
            a.tail_data(),
            b.tail_data(),
        );
        Self::lemma_values_determine(a, b);
    }

    /// A packet reads back from what it was encoded to.
    pub proof fn lemma_roundtrip(self, buf: Seq<u32>)
        requires
            Self::layout_wf(),
            self.fits(),
            buf.len() >= self.size(),
        ensures
            self.read_from(self.spec_encode(buf)),
            Self::decodable(self.spec_encode(buf)),
            self.spec_encode(buf).len() == buf.len(),
    {
        layout::lemma_packet_roundtrip(
            buf,
            Self::bit_fields(),
            self.bit_values(),
            Self::join_fields(),
            self.join_values(),
            Self::tail(),
            self.tail_data(),
            Self::STATIC_DWORDS as nat,
        );
    }
}

/// Any packet of this engine version, told apart by its header.
pub enum Pkt<'pkt> {
    CopyLinear(CopyLinear),
    CopyBroadcastLinear(CopyBroadcastLinear),
    CopyTiled(CopyTiled),
    CopyL2tBroadcast(CopyL2tBroadcast),
    Nop(Nop<'pkt>),
    CopyStruct(CopyStruct),
    CopyLinearSubwin(CopyLinearSubwin),
    CopyTiledSubwin(CopyTiledSubwin),
    CopyT2t(CopyT2t),
    CopyDirtyPage(CopyDirtyPage),
    CopyPhysicalLinear(CopyPhysicalLinear),
    WriteUntiled(WriteUntiled<'pkt>),
    WriteTiled(WriteTiled<'pkt>),
    IndirectBuffer(IndirectBuffer),
    Fence(Fence),
    Trap(Trap),
    Semaphore(Semaphore),
    PollRegmem(PollRegmem),
    PollRegWriteMem(PollRegWriteMem),
    PollDbitWriteMem(PollDbitWriteMem),
    PollMemVerify(PollMemVerify),
    CondExe(CondExe),
    Atomic(Atomic),
    ConstFill(ConstFill),
    DataFillMulti(DataFillMulti<'pkt>),
    WriteIncr(WriteIncr),
    PtepdeCopy(PtepdeCopy),
    PtepdeRmw(PtepdeRmw),
    PtepdeCopyBackwards(PtepdeCopyBackwards),
    TimestampSet(TimestampSet),
    TimestampGet(TimestampGet),
    TimestampGetGlobal(TimestampGetGlobal),
    SrbmWrite(SrbmWrite),
    PreExe(PreExe),
}

impl<'pkt> Pkt<'pkt> {
    /// The bits of dword 0 that the header takes, and their value.
    pub open spec fn header(self) -> (u32, u32) {
        match self {
            Pkt::CopyLinear(p) => ((0xffffu32 | (1u32 << 27u32)), (1u32 | (0u32 << 8u32) | (0u32 << 27u32))),
            Pkt::CopyBroadcastLinear(p) => ((0xffffu32 | (1u32 << 27u32)), (1u32 | (0u32 << 8u32) | (1u32 << 27u32))),
            Pkt::CopyTiled(p) => ((0xffffu32 | (1u32 << 27u32)), (1u32 | (1u32 << 8u32) | (0u32 << 27u32))),
            Pkt::CopyL2tBroadcast(p) => ((0xffffu32 | (1u32 << 27u32)), (1u32 | (1u32 << 8u32) | (1u32 << 27u32))),
            Pkt::Nop(p) => (0xffffu32, (0u32 | (0u32 << 8u32))),
            Pkt::CopyStruct(p) => (0xffffu32, (1u32 | (3u32 << 8u32))),
            Pkt::CopyLinearSubwin(p) => (0xffffu32, (1u32 | (4u32 << 8u32))),
            Pkt::CopyTiledSubwin(p) => (0xffffu32, (1u32 | (5u32 << 8u32))),
            Pkt::CopyT2t(p) => (0xffffu32, (1u32 | (6u32 << 8u32))),
            Pkt::CopyDirtyPage(p) => (0xffffu32, (1u32 | (7u32 << 8u32))),
            Pkt::CopyPhysicalLinear(p) => (0xffffu32, (1u32 | (8u32 << 8u32))),
            Pkt::WriteUntiled(p) => (0xffffu32, (2u32 | (0u32 << 8u32))),
            Pkt::WriteTiled(p) => (0xffffu32, (2u32 | (1u32 << 8u32))),
            Pkt::IndirectBuffer(p) => (0xffffu32, (4u32 | (0u32 << 8u32))),
            Pkt::Fence(p) => (0xffffu32, (5u32 | (0u32 << 8u32))),
            Pkt::Trap(p) => (0xffffu32, (6u32 | (0u32 << 8u32))),
            Pkt::Semaphore(p) => (0xffffu32, (7u32 | (0u32 << 8u32))),
            Pkt::PollRegmem(p) => (0xffffu32, (8u32 | (0u32 << 8u32))),
            Pkt::PollRegWriteMem(p) => (0xffffu32, (8u32 | (1u32 << 8u32))),
            Pkt::PollDbitWriteMem(p) => (0xffffu32, (8u32 | (2u32 << 8u32))),
            Pkt::PollMemVerify(p) => (0xffffu32, (8u32 | (3u32 << 8u32))),
            Pkt::CondExe(p) => (0xffffu32, (9u32 | (0u32 << 8u32))),
            Pkt::Atomic(p) => (0xffffu32, (10u32 | (0u32 << 8u32))),
            Pkt::ConstFill(p) => (0xffffu32, (11u32 | (0u32 << 8u32))),
            Pkt::DataFillMulti(p) => (0xffffu32, (11u32 | (1u32 << 8u32))),
            Pkt::WriteIncr(p) => (0xffffu32, (12u32 | (0u32 << 8u32))),
            Pkt::PtepdeCopy(p) => (0xffffu32, (12u32 | (1u32 << 8u32))),
            Pkt::PtepdeRmw(p) => (0xffffu32, (12u32 | (2u32 << 8u32))),
            Pkt::PtepdeCopyBackwards(p) => (0xffffu32, (12u32 | (3u32 << 8u32))),
            Pkt::TimestampSet(p) => (0xffffu32, (13u32 | (0u32 << 8u32))),
            Pkt::TimestampGet(p) => (0xffffu32, (13u32 | (1u32 << 8u32))),
            Pkt::TimestampGetGlobal(p) => (0xffffu32, (13u32 | (2u32 << 8u32))),
            Pkt::SrbmWrite(p) => (0xffffu32, (14u32 | (0u32 << 8u32))),
            Pkt::PreExe(p) => (0xffffu32, (15u32 | (0u32 << 8u32))),
        }
    }

    pub open spec fn size(self) -> nat {
        match self {
            Pkt::CopyLinear(p) => p.size(),
            Pkt::CopyBroadcastLinear(p) => p.size(),
            Pkt::CopyTiled(p) => p.size(),
            Pkt::CopyL2tBroadcast(p) => p.size(),
            Pkt::Nop(p) => p.size(),
            Pkt::CopyStruct(p) => p.size(),
            Pkt::CopyLinearSubwin(p) => p.size(),
            Pkt::CopyTiledSubwin(p) => p.size(),
            Pkt::CopyT2t(p) => p.size(),
            Pkt::CopyDirtyPage(p) => p.size(),
            Pkt::CopyPhysicalLinear(p) => p.size(),
            Pkt::WriteUntiled(p) => p.size(),
            Pkt::WriteTiled(p) => p.size(),
            Pkt::IndirectBuffer(p) => p.size(),
            Pkt::Fence(p) => p.size(),
            Pkt::Trap(p) => p.size(),
            Pkt::Semaphore(p) => p.size(),
            Pkt::PollRegmem(p) => p.size(),
            Pkt::PollRegWriteMem(p) => p.size(),
            Pkt::PollDbitWriteMem(p) => p.size(),
            Pkt::PollMemVerify(p) => p.size(),
            Pkt::CondExe(p) => p.size(),
            Pkt::Atomic(p) => p.size(),
            Pkt::ConstFill(p) => p.size(),
            Pkt::DataFillMulti(p) => p.size(),
            Pkt::WriteIncr(p) => p.size(),
            Pkt::PtepdeCopy(p) => p.size(),
            Pkt::PtepdeRmw(p) => p.size(),
            Pkt::PtepdeCopyBackwards(p) => p.size(),
            Pkt::TimestampSet(p) => p.size(),
            Pkt::TimestampGet(p) => p.size(),
            Pkt::TimestampGetGlobal(p) => p.size(),
            Pkt::SrbmWrite(p) => p.size(),
            Pkt::PreExe(p) => p.size(),
        }
    }

    pub open spec fn fits(self) -> bool {
        match self {
            Pkt::CopyLinear(p) => p.fits(),
            Pkt::CopyBroadcastLinear(p) => p.fits(),
            Pkt::CopyTiled(p) => p.fits(),
            Pkt::CopyL2tBroadcast(p) => p.fits(),
            Pkt::Nop(p) => p.fits(),
            Pkt::CopyStruct(p) => p.fits(),
            Pkt::CopyLinearSubwin(p) => p.fits(),
            Pkt::CopyTiledSubwin(p) => p.fits(),
            Pkt::CopyT2t(p) => p.fits(),
            Pkt::CopyDirtyPage(p) => p.fits(),
            Pkt::CopyPhysicalLinear(p) => p.fits(),
            Pkt::WriteUntiled(p) => p.fits(),
            Pkt::WriteTiled(p) => p.fits(),
            Pkt::IndirectBuffer(p) => p.fits(),
            Pkt::Fence(p) => p.fits(),
            Pkt::Trap(p) => p.fits(),
            Pkt::Semaphore(p) => p.fits(),
            Pkt::PollRegmem(p) => p.fits(),
            Pkt::PollRegWriteMem(p) => p.fits(),
            Pkt::PollDbitWriteMem(p) => p.fits(),
            Pkt::PollMemVerify(p) => p.fits(),
            Pkt::CondExe(p) => p.fits(),
            Pkt::Atomic(p) => p.fits(),
            Pkt::ConstFill(p) => p.fits(),
            Pkt::DataFillMulti(p) => p.fits(),
            Pkt::WriteIncr(p) => p.fits(),
            Pkt::PtepdeCopy(p) => p.fits(),
            Pkt::PtepdeRmw(p) => p.fits(),
            Pkt::PtepdeCopyBackwards(p) => p.fits(),
            Pkt::TimestampSet(p) => p.fits(),
            Pkt::TimestampGet(p) => p.fits(),
            Pkt::TimestampGetGlobal(p) => p.fits(),
            Pkt::SrbmWrite(p) => p.fits(),
            Pkt::PreExe(p) => p.fits(),
        }
    }

    pub open spec fn layout_wf(self) -> bool {
        match self {
            Pkt::CopyLinear(p) => CopyLinear::layout_wf(),
            Pkt::CopyBroadcastLinear(p) => CopyBroadcastLinear::layout_wf(),
            Pkt::CopyTiled(p) => CopyTiled::layout_wf(),
            Pkt::CopyL2tBroadcast(p) => CopyL2tBroadcast::layout_wf(),
            Pkt::Nop(p) => Nop::layout_wf(),
            Pkt::CopyStruct(p) => CopyStruct::layout_wf(),
            Pkt::CopyLinearSubwin(p) => CopyLinearSubwin::layout_wf(),
            Pkt::CopyTiledSubwin(p) => CopyTiledSubwin::layout_wf(),
            Pkt::CopyT2t(p) => CopyT2t::layout_wf(),
            Pkt::CopyDirtyPage(p) => CopyDirtyPage::layout_wf(),
            Pkt::CopyPhysicalLinear(p) => CopyPhysicalLinear::layout_wf(),
            Pkt::WriteUntiled(p) => WriteUntiled::layout_wf(),
            Pkt::WriteTiled(p) => WriteTiled::layout_wf(),
            Pkt::IndirectBuffer(p) => IndirectBuffer::layout_wf(),
            Pkt::Fence(p) => Fence::layout_wf(),
            Pkt::Trap(p) => Trap::layout_wf(),
            Pkt::Semaphore(p) => Semaphore::layout_wf(),
            Pkt::PollRegmem(p) => PollRegmem::layout_wf(),
            Pkt::PollRegWriteMem(p) => PollRegWriteMem::layout_wf(),
            Pkt::PollDbitWriteMem(p) => PollDbitWriteMem::layout_wf(),
            Pkt::PollMemVerify(p) => PollMemVerify::layout_wf(),
            Pkt::CondExe(p) => CondExe::layout_wf(),
            Pkt::Atomic(p) => Atomic::layout_wf(),
            Pkt::ConstFill(p) => ConstFill::layout_wf(),
            Pkt::DataFillMulti(p) => DataFillMulti::layout_wf(),
            Pkt::WriteIncr(p) => WriteIncr::layout_wf(),
            Pkt::PtepdeCopy(p) => PtepdeCopy::layout_wf(),
            Pkt::PtepdeRmw(p) => PtepdeRmw::layout_wf(),
            Pkt::PtepdeCopyBackwards(p) => PtepdeCopyBackwards::layout_wf(),
            Pkt::TimestampSet(p) => TimestampSet::layout_wf(),
            Pkt::TimestampGet(p) => TimestampGet::layout_wf(),
            Pkt::TimestampGetGlobal(p) => TimestampGetGlobal::layout_wf(),
            Pkt::SrbmWrite(p) => SrbmWrite::layout_wf(),
            Pkt::PreExe(p) => PreExe::layout_wf(),
        }
    }

    /// No field of the packet is spoiled by its header.
    pub open spec fn header_compatible(self) -> bool {
        match self {
            Pkt::CopyLinear(p) => layout::header_compatible(CopyLinear::bit_fields(), p.bit_values(), CopyLinear::tail(), self.header().0, self.header().1),
            Pkt::CopyBroadcastLinear(p) => layout::header_compatible(CopyBroadcastLinear::bit_fields(), p.bit_values(), CopyBroadcastLinear::tail(), self.header().0, self.header().1),
            Pkt::CopyTiled(p) => layout::header_compatible(CopyTiled::bit_fields(), p.bit_values(), CopyTiled::tail(), self.header().0, self.header().1),
            Pkt::CopyL2tBroadcast(p) => layout::header_compatible(CopyL2tBroadcast::bit_fields(), p.bit_values(), CopyL2tBroadcast::tail(), self.header().0, self.header().1),
            Pkt::Nop(p) => layout::header_compatible(Nop::bit_fields(), p.bit_values(), Nop::tail(), self.header().0, self.header().1),
            Pkt::CopyStruct(p) => layout::header_compatible(CopyStruct::bit_fields(), p.bit_values(), CopyStruct::tail(), self.header().0, self.header().1),
            Pkt::CopyLinearSubwin(p) => layout::header_compatible(CopyLinearSubwin::bit_fields(), p.bit_values(), CopyLinearSubwin::tail(), self.header().0, self.header().1),
            Pkt::CopyTiledSubwin(p) => layout::header_compatible(CopyTiledSubwin::bit_fields(), p.bit_values(), CopyTiledSubwin::tail(), self.header().0, self.header().1),
            Pkt::CopyT2t(p) => layout::header_compatible(CopyT2t::bit_fields(), p.bit_values(), CopyT2t::tail(), self.header().0, self.header().1),
            Pkt::CopyDirtyPage(p) => layout::header_compatible(CopyDirtyPage::bit_fields(), p.bit_values(), CopyDirtyPage::tail(), self.header().0, self.header().1),
            Pkt::CopyPhysicalLinear(p) => layout::header_compatible(CopyPhysicalLinear::bit_fields(), p.bit_values(), CopyPhysicalLinear::tail(), self.header().0, self.header().1),
            Pkt::WriteUntiled(p) => layout::header_compatible(WriteUntiled::bit_fields(), p.bit_values(), WriteUntiled::tail(), self.header().0, self.header().1),
            Pkt::WriteTiled(p) => layout::header_compatible(WriteTiled::bit_fields(), p.bit_values(), WriteTiled::tail(), self.header().0, self.header().1),
            Pkt::IndirectBuffer(p) => layout::header_compatible(IndirectBuffer::bit_fields(), p.bit_values(), IndirectBuffer::tail(), self.header().0, self.header().1),
            Pkt::Fence(p) => layout::header_compatible(Fence::bit_fields(), p.bit_values(), Fence::tail(), self.header().0, self.header().1),
            Pkt::Trap(p) => layout::header_compatible(Trap::bit_fields(), p.bit_values(), Trap::tail(), self.header().0, self.header().1),
            Pkt::Semaphore(p) => layout::header_compatible(Semaphore::bit_fields(), p.bit_values(), Semaphore::tail(), self.header().0, self.header().1),
            Pkt::PollRegmem(p) => layout::header_compatible(PollRegmem::bit_fields(), p.bit_values(), PollRegmem::tail(), self.header().0, self.header().1),
            Pkt::PollRegWriteMem(p) => layout::header_compatible(PollRegWriteMem::bit_fields(), p.bit_values(), PollRegWriteMem::tail(), self.header().0, self.header().1),
            Pkt::PollDbitWriteMem(p) => layout::header_compatible(PollDbitWriteMem::bit_fields(), p.bit_values(), PollDbitWriteMem::tail(), self.header().0, self.header().1),
            Pkt::PollMemVerify(p) => layout::header_compatible(PollMemVerify::bit_fields(), p.bit_values(), PollMemVerify::tail(), self.header().0, self.header().1),
            Pkt::CondExe(p) => layout::header_compatible(CondExe::bit_fields(), p.bit_values(), CondExe::tail(), self.header().0, self.header().1),
            Pkt::Atomic(p) => layout::header_compatible(Atomic::bit_fields(), p.bit_values(), Atomic::tail(), self.header().0, self.header().1),
            Pkt::ConstFill(p) => layout::header_compatible(ConstFill::bit_fields(), p.bit_values(), ConstFill::tail(), self.header().0, self.header().1),
            Pkt::DataFillMulti(p) => layout::header_compatible(DataFillMulti::bit_fields(), p.bit_values(), DataFillMulti::tail(), self.header().0, self.header().1),
            Pkt::WriteIncr(p) => layout::header_compatible(WriteIncr::bit_fields(), p.bit_values(), WriteIncr::tail(), self.header().0, self.header().1),
            Pkt::PtepdeCopy(p) => layout::header_compatible(PtepdeCopy::bit_fields(), p.bit_values(), PtepdeCopy::tail(), self.header().0, self.header().1),
            Pkt::PtepdeRmw(p) => layout::header_compatible(PtepdeRmw::bit_fields(), p.bit_values(), PtepdeRmw::tail(), self.header().0, self.header().1),
            Pkt::PtepdeCopyBackwards(p) => layout::header_compatible(PtepdeCopyBackwards::bit_fields(), p.bit_values(), PtepdeCopyBackwards::tail(), self.header().0, self.header().1),
            Pkt::TimestampSet(p) => layout::header_compatible(TimestampSet::bit_fields(), p.bit_values(), TimestampSet::tail(), self.header().0, self.header().1),
            Pkt::TimestampGet(p) => layout::header_compatible(TimestampGet::bit_fields(), p.bit_values(), TimestampGet::tail(), self.header().0, self.header().1),
            Pkt::TimestampGetGlobal(p) => layout::header_compatible(TimestampGetGlobal::bit_fields(), p.bit_values(), TimestampGetGlobal::tail(), self.header().0, self.header().1),
            Pkt::SrbmWrite(p) => layout::header_compatible(SrbmWrite::bit_fields(), p.bit_values(), SrbmWrite::tail(), self.header().0, self.header().1),
            Pkt::PreExe(p) => layout::header_compatible(PreExe::bit_fields(), p.bit_values(), PreExe::tail(), self.header().0, self.header().1),
        }
    }

    pub open spec fn spec_encode(self, buf: Seq<u32>) -> Seq<u32> {
        match self {
            Pkt::CopyLinear(p) => layout::write_header(p.spec_encode(buf), self.header().0, self.header().1),
            Pkt::CopyBroadcastLinear(p) => layout::write_header(p.spec_encode(buf), self.header().0, self.header().1),
            Pkt::CopyTiled(p) => layout::write_header(p.spec_encode(buf), self.header().0, self.header().1),
            Pkt::CopyL2tBroadcast(p) => layout::write_header(p.spec_encode(buf), self.header().0, self.header().1),
            Pkt::Nop(p) => layout::write_header(p.spec_encode(buf), self.header().0, self.header().1),
            Pkt::CopyStruct(p) => layout::write_header(p.spec_encode(buf), self.header().0, self.header().1),
            Pkt::CopyLinearSubwin(p) => layout::write_header(p.spec_encode(buf), self.header().0, self.header().1),
            Pkt::CopyTiledSubwin(p) => layout::write_header(p.spec_encode(buf), self.header().0, self.header().1),
            Pkt::CopyT2t(p) => layout::write_header(p.spec_encode(buf), self.header().0, self.header().1),
            Pkt::CopyDirtyPage(p) => layout::write_header(p.spec_encode(buf), self.header().0, self.header().1),
            Pkt::CopyPhysicalLinear(p) => layout::write_header(p.spec_encode(buf), self.header().0, self.header().1),
            Pkt::WriteUntiled(p) => layout::write_header(p.spec_encode(buf), self.header().0, self.header().1),
            Pkt::WriteTiled(p) => layout::write_header(p.spec_encode(buf), self.header().0, self.header().1),
            Pkt::IndirectBuffer(p) => layout::write_header(p.spec_encode(buf), self.header().0, self.header().1),
            Pkt::Fence(p) => layout::write_header(p.spec_encode(buf), self.header().0, self.header().1),
            Pkt::Trap(p) => layout::write_header(p.spec_encode(buf), self.header().0, self.header().1),
            Pkt::Semaphore(p) => layout::write_header(p.spec_encode(buf), self.header().0, self.header().1),
            Pkt::PollRegmem(p) => layout::write_header(p.spec_encode(buf), self.header().0, self.header().1),
            Pkt::PollRegWriteMem(p) => layout::write_header(p.spec_encode(buf), self.header().0, self.header().1),
            Pkt::PollDbitWriteMem(p) => layout::write_header(p.spec_encode(buf), self.header().0, self.header().1),
            Pkt::PollMemVerify(p) => layout::write_header(p.spec_encode(buf), self.header().0, self.header().1),
            Pkt::CondExe(p) => layout::write_header(p.spec_encode(buf), self.header().0, self.header().1),
            Pkt::Atomic(p) => layout::write_header(p.spec_encode(buf), self.header().0, self.header().1),
            Pkt::ConstFill(p) => layout::write_header(p.spec_encode(buf), self.header().0, self.header().1),
            Pkt::DataFillMulti(p) => layout::write_header(p.spec_encode(buf), self.header().0, self.header().1),
            Pkt::WriteIncr(p) => layout::write_header(p.spec_encode(buf), self.header().0, self.header().1),
            Pkt::PtepdeCopy(p) => layout::write_header(p.spec_encode(buf), self.header().0, self.header().1),
            Pkt::PtepdeRmw(p) => layout::write_header(p.spec_encode(buf), self.header().0, self.header().1),
            Pkt::PtepdeCopyBackwards(p) => layout::write_header(p.spec_encode(buf), self.header().0, self.header().1),
            Pkt::TimestampSet(p) => layout::write_header(p.spec_encode(buf), self.header().0, self.header().1),
            Pkt::TimestampGet(p) => layout::write_header(p.spec_encode(buf), self.header().0, self.header().1),
            Pkt::TimestampGetGlobal(p) => layout::write_header(p.spec_encode(buf), self.header().0, self.header().1),
            Pkt::SrbmWrite(p) => layout::write_header(p.spec_encode(buf), self.header().0, self.header().1),
            Pkt::PreExe(p) => layout::write_header(p.spec_encode(buf), self.header().0, self.header().1),
        }
    }

    /// `buf` starts with this packet, header included.
    pub open spec fn read_from(self, buf: Seq<u32>) -> bool {
        buf.len() > 0 && {
            let h = buf[0];
            match self {
                Pkt::CopyLinear(p) => layout::header_op(h) == 1 && layout::header_subop(h) == 0 && layout::header_extra(h) == 0 && p.read_from(buf),
                Pkt::CopyBroadcastLinear(p) => layout::header_op(h) == 1 && layout::header_subop(h) == 0 && layout::header_extra(h) == 1 && p.read_from(buf),
                Pkt::CopyTiled(p) => layout::header_op(h) == 1 && layout::header_subop(h) == 1 && layout::header_extra(h) == 0 && p.read_from(buf),
                Pkt::CopyL2tBroadcast(p) => layout::header_op(h) == 1 && layout::header_subop(h) == 1 && layout::header_extra(h) == 1 && p.read_from(buf),
                Pkt::Nop(p) => layout::header_op(h) == 0 && layout::header_subop(h) == 0 && p.read_from(buf),
                Pkt::CopyStruct(p) => layout::header_op(h) == 1 && layout::header_subop(h) == 3 && p.read_from(buf),
                Pkt::CopyLinearSubwin(p) => layout::header_op(h) == 1 && layout::header_subop(h) == 4 && p.read_from(buf),
                Pkt::CopyTiledSubwin(p) => layout::header_op(h) == 1 && layout::header_subop(h) == 5 && p.read_from(buf),
                Pkt::CopyT2t(p) => layout::header_op(h) == 1 && layout::header_subop(h) == 6 && p.read_from(buf),
                Pkt::CopyDirtyPage(p) => layout::header_op(h) == 1 && layout::header_subop(h) == 7 && p.read_from(buf),
                Pkt::CopyPhysicalLinear(p) => layout::header_op(h) == 1 && layout::header_subop(h) == 8 && p.read_from(buf),
                Pkt::WriteUntiled(p) => layout::header_op(h) == 2 && layout::header_subop(h) == 0 && p.read_from(buf),
                Pkt::WriteTiled(p) => layout::header_op(h) == 2 && layout::header_subop(h) == 1 && p.read_from(buf),
                Pkt::IndirectBuffer(p) => layout::header_op(h) == 4 && layout::header_subop(h) == 0 && p.read_from(buf),
                Pkt::Fence(p) => layout::header_op(h) == 5 && layout::header_subop(h) == 0 && p.read_from(buf),
                Pkt::Trap(p) => layout::header_op(h) == 6 && layout::header_subop(h) == 0 && p.read_from(buf),
                Pkt::Semaphore(p) => layout::header_op(h) == 7 && layout::header_subop(h) == 0 && p.read_from(buf),
                Pkt::PollRegmem(p) => layout::header_op(h) == 8 && layout::header_subop(h) == 0 && p.read_from(buf),
                Pkt::PollRegWriteMem(p) => layout::header_op(h) == 8 && layout::header_subop(h) == 1 && p.read_from(buf),
                Pkt::PollDbitWriteMem(p) => layout::header_op(h) == 8 && layout::header_subop(h) == 2 && p.read_from(buf),
                Pkt::PollMemVerify(p) => layout::header_op(h) == 8 && layout::header_subop(h) == 3 && p.read_from(buf),
                Pkt::CondExe(p) => layout::header_op(h) == 9 && layout::header_subop(h) == 0 && p.read_from(buf),
                Pkt::Atomic(p) => layout::header_op(h) == 10 && layout::header_subop(h) == 0 && p.read_from(buf),
                Pkt::ConstFill(p) => layout::header_op(h) == 11 && layout::header_subop(h) == 0 && p.read_from(buf),
                Pkt::DataFillMulti(p) => layout::header_op(h) == 11 && layout::header_subop(h) == 1 && p.read_from(buf),
                Pkt::WriteIncr(p) => layout::header_op(h) == 12 && layout::header_subop(h) == 0 && p.read_from(buf),
                Pkt::PtepdeCopy(p) => layout::header_op(h) == 12 && layout::header_subop(h) == 1 && p.read_from(buf),
                Pkt::PtepdeRmw(p) => layout::header_op(h) == 12 && layout::header_subop(h) == 2 && p.read_from(buf),
                Pkt::PtepdeCopyBackwards(p) => layout::header_op(h) == 12 && layout::header_subop(h) == 3 && p.read_from(buf),
                Pkt::TimestampSet(p) => layout::header_op(h) == 13 && layout::header_subop(h) == 0 && p.read_from(buf),
                Pkt::TimestampGet(p) => layout::header_op(h) == 13 && layout::header_subop(h) == 1 && p.read_from(buf),
                Pkt::TimestampGetGlobal(p) => layout::header_op(h) == 13 && layout::header_subop(h) == 2 && p.read_from(buf),
                Pkt::SrbmWrite(p) => layout::header_op(h) == 14 && layout::header_subop(h) == 0 && p.read_from(buf),
                Pkt::PreExe(p) => layout::header_op(h) == 15 && layout::header_subop(h) == 0 && p.read_from(buf),
            }
        }
    }

    /// The buffer starts with a header this version knows and holds the
    /// whole packet it announces.
    pub open spec fn decodable(buf: Seq<u32>) -> bool {
        buf.len() > 0 && {
            let h = buf[0];
            if layout::header_op(h) == 1 && layout::header_subop(h) == 0 {
                if layout::header_extra(h) == 0 {
                    CopyLinear::decodable(buf)
                } else if layout::header_extra(h) == 1 {
                    CopyBroadcastLinear::decodable(buf)
                } else {
                    false
                }
            } else if layout::header_op(h) == 1 && layout::header_subop(h) == 1 {
                if layout::header_extra(h) == 0 {
                    CopyTiled::decodable(buf)
                } else if layout::header_extra(h) == 1 {
                    CopyL2tBroadcast::decodable(buf)
                } else {
                    false
                }
            } else if layout::header_op(h) == 0 && layout::header_subop(h) == 0 {
                Nop::decodable(buf)
            } else if layout::header_op(h) == 1 && layout::header_subop(h) == 3 {
                CopyStruct::decodable(buf)
            } else if layout::header_op(h) == 1 && layout::header_subop(h) == 4 {
                CopyLinearSubwin::decodable(buf)
            } else if layout::header_op(h) == 1 && layout::header_subop(h) == 5 {
                CopyTiledSubwin::decodable(buf)
            } else if layout::header_op(h) == 1 && layout::header_subop(h) == 6 {
                CopyT2t::decodable(buf)
            } else if layout::header_op(h) == 1 && layout::header_subop(h) == 7 {
                CopyDirtyPage::decodable(buf)
            } else if layout::header_op(h) == 1 && layout::header_subop(h) == 8 {
                CopyPhysicalLinear::decodable(buf)
            } else if layout::header_op(h) == 2 && layout::header_subop(h) == 0 {
                WriteUntiled::decodable(buf)
            } else if layout::header_op(h) == 2 && layout::header_subop(h) == 1 {
                WriteTiled::decodable(buf)
            } else if layout::header_op(h) == 4 && layout::header_subop(h) == 0 {
                IndirectBuffer::decodable(buf)
            } else if layout::header_op(h) == 5 && layout::header_subop(h) == 0 {
                Fence::decodable(buf)
            } else if layout::header_op(h) == 6 && layout::header_subop(h) == 0 {
                Trap::decodable(buf)
            } else if layout::header_op(h) == 7 && layout::header_subop(h) == 0 {
                Semaphore::decodable(buf)
            } else if layout::header_op(h) == 8 && layout::header_subop(h) == 0 {
                PollRegmem::decodable(buf)
            } else if layout::header_op(h) == 8 && layout::header_subop(h) == 1 {
                PollRegWriteMem::decodable(buf)
            } else if layout::header_op(h) == 8 && layout::header_subop(h) == 2 {
                PollDbitWriteMem::decodable(buf)
            } else if layout::header_op(h) == 8 && layout::header_subop(h) == 3 {
                PollMemVerify::decodable(buf)
            } else if layout::header_op(h) == 9 && layout::header_subop(h) == 0 {
                CondExe::decodable(buf)
            } else if layout::header_op(h) == 10 && layout::header_subop(h) == 0 {
                Atomic::decodable(buf)
            } else if layout::header_op(h) == 11 && layout::header_subop(h) == 0 {
                ConstFill::decodable(buf)
            } else if layout::header_op(h) == 11 && layout::header_subop(h) == 1 {
                DataFillMulti::decodable(buf)
            } else if layout::header_op(h) == 12 && layout::header_subop(h) == 0 {
                WriteIncr::decodable(buf)
            } else if layout::header_op(h) == 12 && layout::header_subop(h) == 1 {
                PtepdeCopy::decodable(buf)
            } else if layout::header_op(h) == 12 && layout::header_subop(h) == 2 {
                PtepdeRmw::decodable(buf)
            } else if layout::header_op(h) == 12 && layout::header_subop(h) == 3 {
                PtepdeCopyBackwards::decodable(buf)
            } else if layout::header_op(h) == 13 && layout::header_subop(h) == 0 {
                TimestampSet::decodable(buf)
            } else if layout::header_op(h) == 13 && layout::header_subop(h) == 1 {
                TimestampGet::decodable(buf)
            } else if layout::header_op(h) == 13 && layout::header_subop(h) == 2 {
                TimestampGetGlobal::decodable(buf)
            } else if layout::header_op(h) == 14 && layout::header_subop(h) == 0 {
                SrbmWrite::decodable(buf)
            } else if layout::header_op(h) == 15 && layout::header_subop(h) == 0 {
                PreExe::decodable(buf)
            } else {
                false
            }
        }
    }

    /// Writes the packet, header included, to the start of `buff` and
    /// returns how many dwords it took.
    pub fn encode_linear(&self, buff: &mut [u32]) -> (n: usize)
        requires
            old(buff)@.len() >= self.size(),
            self.fits(),
        ensures
            n == self.size(),
            final(buff)@ == self.spec_encode(old(buff)@),
    {
        match self {
            Pkt::CopyLinear(p) => {
                let n = p.partial_encode_linear(buff);
                put_header(buff, (0xffffu32 | (1u32 << 27u32)), (1u32 | (0u32 << 8u32) | (0u32 << 27u32)));
                n
            },
            Pkt::CopyBroadcastLinear(p) => {
                let n = p.partial_encode_linear(buff);
                put_header(buff, (0xffffu32 | (1u32 << 27u32)), (1u32 | (0u32 << 8u32) | (1u32 << 27u32)));
                n
            },
            Pkt::CopyTiled(p) => {
                let n = p.partial_encode_linear(buff);
                put_header(buff, (0xffffu32 | (1u32 << 27u32)), (1u32 | (1u32 << 8u32) | (0u32 << 27u32)));
                n
            },
            Pkt::CopyL2tBroadcast(p) => {
                let n = p.partial_encode_linear(buff);
                put_header(buff, (0xffffu32 | (1u32 << 27u32)), (1u32 | (1u32 << 8u32) | (1u32 << 27u32)));
                n
            },
            Pkt::Nop(p) => {
                let n = p.partial_encode_linear(buff);
                put_header(buff, 0xffffu32, (0u32 | (0u32 << 8u32)));
                n
            },
            Pkt::CopyStruct(p) => {
                let n = p.partial_encode_linear(buff);
                put_header(buff, 0xffffu32, (1u32 | (3u32 << 8u32)));
                n
            },
            Pkt::CopyLinearSubwin(p) => {
                let n = p.partial_encode_linear(buff);
                put_header(buff, 0xffffu32, (1u32 | (4u32 << 8u32)));
                n
            },
            Pkt::CopyTiledSubwin(p) => {
                let n = p.partial_encode_linear(buff);
                put_header(buff, 0xffffu32, (1u32 | (5u32 << 8u32)));
                n
            },
            Pkt::CopyT2t(p) => {
                let n = p.partial_encode_linear(buff);
                put_header(buff, 0xffffu32, (1u32 | (6u32 << 8u32)));
                n
            },
            Pkt::CopyDirtyPage(p) => {
                let n = p.partial_encode_linear(buff);
                put_header(buff, 0xffffu32, (1u32 | (7u32 << 8u32)));
                n
            },
            Pkt::CopyPhysicalLinear(p) => {
                let n = p.partial_encode_linear(buff);
                put_header(buff, 0xffffu32, (1u32 | (8u32 << 8u32)));
                n
            },
            Pkt::WriteUntiled(p) => {
                let n = p.partial_encode_linear(buff);
                put_header(buff, 0xffffu32, (2u32 | (0u32 << 8u32)));
                n
            },
            Pkt::WriteTiled(p) => {
                let n = p.partial_encode_linear(buff);
                put_header(buff, 0xffffu32, (2u32 | (1u32 << 8u32)));
                n
            },
            Pkt::IndirectBuffer(p) => {
                let n = p.partial_encode_linear(buff);
                put_header(buff, 0xffffu32, (4u32 | (0u32 << 8u32)));
                n
            },
            Pkt::Fence(p) => {
                let n = p.partial_encode_linear(buff);
                put_header(buff, 0xffffu32, (5u32 | (0u32 << 8u32)));
                n
            },
            Pkt::Trap(p) => {
                let n = p.partial_encode_linear(buff);
                put_header(buff, 0xffffu32, (6u32 | (0u32 << 8u32)));
                n
            },
            Pkt::Semaphore(p) => {
                let n = p.partial_encode_linear(buff);
                put_header(buff, 0xffffu32, (7u32 | (0u32 << 8u32)));
                n
            },
            Pkt::PollRegmem(p) => {
                let n = p.partial_encode_linear(buff);
                put_header(buff, 0xffffu32, (8u32 | (0u32 << 8u32)));
                n
            },
            Pkt::PollRegWriteMem(p) => {
                let n = p.partial_encode_linear(buff);
                put_header(buff, 0xffffu32, (8u32 | (1u32 << 8u32)));
                n
            },
            Pkt::PollDbitWriteMem(p) => {
                let n = p.partial_encode_linear(buff);
                put_header(buff, 0xffffu32, (8u32 | (2u32 << 8u32)));
                n
            },
            Pkt::PollMemVerify(p) => {
                let n = p.partial_encode_linear(buff);
                put_header(buff, 0xffffu32, (8u32 | (3u32 << 8u32)));
                n
            },
            Pkt::CondExe(p) => {
                let n = p.partial_encode_linear(buff);
                put_header(buff, 0xffffu32, (9u32 | (0u32 << 8u32)));
                n
            },
            Pkt::Atomic(p) => {
                let n = p.partial_encode_linear(buff);
                put_header(buff, 0xffffu32, (10u32 | (0u32 << 8u32)));
                n
            },
            Pkt::ConstFill(p) => {
                let n = p.partial_encode_linear(buff);
                put_header(buff, 0xffffu32, (11u32 | (0u32 << 8u32)));
                n
            },
            Pkt::DataFillMulti(p) => {
                let n = p.partial_encode_linear(buff);
                put_header(buff, 0xffffu32, (11u32 | (1u32 << 8u32)));
                n
            },
            Pkt::WriteIncr(p) => {
                let n = p.partial_encode_linear(buff);
                put_header(buff, 0xffffu32, (12u32 | (0u32 << 8u32)));
                n
            },
            Pkt::PtepdeCopy(p) => {
                let n = p.partial_encode_linear(buff);
                put_header(buff, 0xffffu32, (12u32 | (1u32 << 8u32)));
                n
            },
            Pkt::PtepdeRmw(p) => {
                let n = p.partial_encode_linear(buff);
                put_header(buff, 0xffffu32, (12u32 | (2u32 << 8u32)));
                n
            },
            Pkt::PtepdeCopyBackwards(p) => {
                let n = p.partial_encode_linear(buff);
                put_header(buff, 0xffffu32, (12u32 | (3u32 << 8u32)));
                n
            },
            Pkt::TimestampSet(p) => {
                let n = p.partial_encode_linear(buff);
                put_header(buff, 0xffffu32, (13u32 | (0u32 << 8u32)));
                n
            },
            Pkt::TimestampGet(p) => {
                let n = p.partial_encode_linear(buff);
                put_header(buff, 0xffffu32, (13u32 | (1u32 << 8u32)));
                n
            },
            Pkt::TimestampGetGlobal(p) => {
                let n = p.partial_encode_linear(buff);
                put_header(buff, 0xffffu32, (13u32 | (2u32 << 8u32)));
                n
            },
            Pkt::SrbmWrite(p) => {
                let n = p.partial_encode_linear(buff);
                put_header(buff, 0xffffu32, (14u32 | (0u32 << 8u32)));
                n
            },
            Pkt::PreExe(p) => {
                let n = p.partial_encode_linear(buff);
                put_header(buff, 0xffffu32, (15u32 | (0u32 << 8u32)));
                n
            },
        }
    }

    /// Reads the packet at the start of `buff`, whichever it is, and returns
    /// how many dwords it took.
    pub fn decode_linear(buff: &'pkt [u32]) -> (r: Option<(usize, Pkt<'pkt>)>)
        requires
            Self::decodable(buff@),
        ensures
            r matches Some((n, p)) && n == p.size() && p.read_from(buff@),
    {
        let header = buff[0];
        let op = header & 0xff;
        let subop = (header >> 8) & 0xff;
        if op == 1 && subop == 0 {
            let extra = (header >> 27) & 1;
            if extra == 0 {
                let (n, p) = CopyLinear::partial_decode_linear(buff);
                Some((n, Pkt::CopyLinear(p)))
            } else if extra == 1 {
                let (n, p) = CopyBroadcastLinear::partial_decode_linear(buff);
                Some((n, Pkt::CopyBroadcastLinear(p)))
            } else {
                None
            }
        } else if op == 1 && subop == 1 {
            let extra = (header >> 27) & 1;
            if extra == 0 {
                let (n, p) = CopyTiled::partial_decode_linear(buff);
                Some((n, Pkt::CopyTiled(p)))
            } else if extra == 1 {
                let (n, p) = CopyL2tBroadcast::partial_decode_linear(buff);
                Some((n, Pkt::CopyL2tBroadcast(p)))
            } else {
                None
            }
        } else if op == 0 && subop == 0 {
            let (n, p) = Nop::partial_decode_linear(buff);
            Some((n, Pkt::Nop(p)))
        } else if op == 1 && subop == 3 {
            let (n, p) = CopyStruct::partial_decode_linear(buff);
            Some((n, Pkt::CopyStruct(p)))
        } else if op == 1 && subop == 4 {
            let (n, p) = CopyLinearSubwin::partial_decode_linear(buff);
            Some((n, Pkt::CopyLinearSubwin(p)))
        } else if op == 1 && subop == 5 {
            let (n, p) = CopyTiledSubwin::partial_decode_linear(buff);
            Some((n, Pkt::CopyTiledSubwin(p)))
        } else if op == 1 && subop == 6 {
            let (n, p) = CopyT2t::partial_decode_linear(buff);
            Some((n, Pkt::CopyT2t(p)))
        } else if op == 1 && subop == 7 {
            let (n, p) = CopyDirtyPage::partial_decode_linear(buff);
            Some((n, Pkt::CopyDirtyPage(p)))
        } else if op == 1 && subop == 8 {
            let (n, p) = CopyPhysicalLinear::partial_decode_linear(buff);
            Some((n, Pkt::CopyPhysicalLinear(p)))
        } else if op == 2 && subop == 0 {
            let (n, p) = WriteUntiled::partial_decode_linear(buff);
            Some((n, Pkt::WriteUntiled(p)))
        } else if op == 2 && subop == 1 {
            let (n, p) = WriteTiled::partial_decode_linear(buff);
            Some((n, Pkt::WriteTiled(p)))
        } else if op == 4 && subop == 0 {
            let (n, p) = IndirectBuffer::partial_decode_linear(buff);
            Some((n, Pkt::IndirectBuffer(p)))
        } else if op == 5 && subop == 0 {
            let (n, p) = Fence::partial_decode_linear(buff);
            Some((n, Pkt::Fence(p)))
        } else if op == 6 && subop == 0 {
            let (n, p) = Trap::partial_decode_linear(buff);
            Some((n, Pkt::Trap(p)))
        } else if op == 7 && subop == 0 {
            let (n, p) = Semaphore::partial_decode_linear(buff);
            Some((n, Pkt::Semaphore(p)))
        } else if op == 8 && subop == 0 {
            let (n, p) = PollRegmem::partial_decode_linear(buff);
            Some((n, Pkt::PollRegmem(p)))
        } else if op == 8 && subop == 1 {
            let (n, p) = PollRegWriteMem::partial_decode_linear(buff);
            Some((n, Pkt::PollRegWriteMem(p)))
        } else if op == 8 && subop == 2 {
            let (n, p) = PollDbitWriteMem::partial_decode_linear(buff);
            Some((n, Pkt::PollDbitWriteMem(p)))
        } else if op == 8 && subop == 3 {
            let (n, p) = PollMemVerify::partial_decode_linear(buff);
            Some((n, Pkt::PollMemVerify(p)))
        } else if op == 9 && subop == 0 {
            let (n, p) = CondExe::partial_decode_linear(buff);
            Some((n, Pkt::CondExe(p)))
        } else if op == 10 && subop == 0 {
            let (n, p) = Atomic::partial_decode_linear(buff);
            Some((n, Pkt::Atomic(p)))
        } else if op == 11 && subop == 0 {
            let (n, p) = ConstFill::partial_decode_linear(buff);
            Some((n, Pkt::ConstFill(p)))
        } else if op == 11 && subop == 1 {
            let (n, p) = DataFillMulti::partial_decode_linear(buff);
            Some((n, Pkt::DataFillMulti(p)))
        } else if op == 12 && subop == 0 {
            let (n, p) = WriteIncr::partial_decode_linear(buff);
            Some((n, Pkt::WriteIncr(p)))
        } else if op == 12 && subop == 1 {
            let (n, p) = PtepdeCopy::partial_decode_linear(buff);
            Some((n, Pkt::PtepdeCopy(p)))
        } else if op == 12 && subop == 2 {
            let (n, p) = PtepdeRmw::partial_decode_linear(buff);
            Some((n, Pkt::PtepdeRmw(p)))
        } else if op == 12 && subop == 3 {
            let (n, p) = PtepdeCopyBackwards::partial_decode_linear(buff);
            Some((n, Pkt::PtepdeCopyBackwards(p)))
        } else if op == 13 && subop == 0 {
            let (n, p) = TimestampSet::partial_decode_linear(buff);
            Some((n, Pkt::TimestampSet(p)))
        } else if op == 13 && subop == 1 {
            let (n, p) = TimestampGet::partial_decode_linear(buff);
            Some((n, Pkt::TimestampGet(p)))
        } else if op == 13 && subop == 2 {
            let (n, p) = TimestampGetGlobal::partial_decode_linear(buff);
            Some((n, Pkt::TimestampGetGlobal(p)))
        } else if op == 14 && subop == 0 {
            let (n, p) = SrbmWrite::partial_decode_linear(buff);
            Some((n, Pkt::SrbmWrite(p)))
        } else if op == 15 && subop == 0 {
            let (n, p) = PreExe::partial_decode_linear(buff);
            Some((n, Pkt::PreExe(p)))
        } else {
            None
        }
    }

    /// Decoding gives back what was encoded: the packet that `encode_linear`
    /// writes is one that `decode_linear` accepts and reads back (and, by
    /// `lemma_read_unique`, the only one).
    #[verifier::spinoff_prover]
    #[verifier::rlimit(80)]
    pub proof fn lemma_roundtrip(self, buf: Seq<u32>)
        requires
            self.layout_wf(),
            self.fits(),
            self.header_compatible(),
            buf.len() >= self.size(),
        ensures
            Self::decodable(self.spec_encode(buf)),
            self.read_from(self.spec_encode(buf)),
    {
        match self {
            Pkt::CopyLinear(p) => {
                layout::lemma_packet_roundtrip(buf, CopyLinear::bit_fields(), p.bit_values(), CopyLinear::join_fields(), p.join_values(), CopyLinear::tail(), p.tail_data(), CopyLinear::STATIC_DWORDS as nat);
                let enc = p.spec_encode(buf);
                layout::lemma_header_keeps_packet(enc, CopyLinear::bit_fields(), p.bit_values(), CopyLinear::join_fields(), p.join_values(), CopyLinear::tail(), p.tail_data(), CopyLinear::STATIC_DWORDS as nat, (0xffffu32 | (1u32 << 27u32)), (1u32 | (0u32 << 8u32) | (0u32 << 27u32)));
                layout::lemma_extra_header(enc[0], 1u32, 0u32, 0u32);
            },
            Pkt::CopyBroadcastLinear(p) => {
                layout::lemma_packet_roundtrip(buf, CopyBroadcastLinear::bit_fields(), p.bit_values(), CopyBroadcastLinear::join_fields(), p.join_values(), CopyBroadcastLinear::tail(), p.tail_data(), CopyBroadcastLinear::STATIC_DWORDS as nat);
                let enc = p.spec_encode(buf);
                layout::lemma_header_keeps_packet(enc, CopyBroadcastLinear::bit_fields(), p.bit_values(), CopyBroadcastLinear::join_fields(), p.join_values(), CopyBroadcastLinear::tail(), p.tail_data(), CopyBroadcastLinear::STATIC_DWORDS as nat, (0xffffu32 | (1u32 << 27u32)), (1u32 | (0u32 << 8u32) | (1u32 << 27u32)));
                layout::lemma_extra_header(enc[0], 1u32, 0u32, 1u32);
            },
            Pkt::CopyTiled(p) => {
                layout::lemma_packet_roundtrip(buf, CopyTiled::bit_fields(), p.bit_values(), CopyTiled::join_fields(), p.join_values(), CopyTiled::tail(), p.tail_data(), CopyTiled::STATIC_DWORDS as nat);
                let enc = p.spec_encode(buf);
                layout::lemma_header_keeps_packet(enc, CopyTiled::bit_fields(), p.bit_values(), CopyTiled::join_fields(), p.join_values(), CopyTiled::tail(), p.tail_data(), CopyTiled::STATIC_DWORDS as nat, (0xffffu32 | (1u32 << 27u32)), (1u32 | (1u32 << 8u32) | (0u32 << 27u32)));
                layout::lemma_extra_header(enc[0], 1u32, 1u32, 0u32);
            },
            Pkt::CopyL2tBroadcast(p) => {
                layout::lemma_packet_roundtrip(buf, CopyL2tBroadcast::bit_fields(), p.bit_values(), CopyL2tBroadcast::join_fields(), p.join_values(), CopyL2tBroadcast::tail(), p.tail_data(), CopyL2tBroadcast::STATIC_DWORDS as nat);
                let enc = p.spec_encode(buf);
                layout::lemma_header_keeps_packet(enc, CopyL2tBroadcast::bit_fields(), p.bit_values(), CopyL2tBroadcast::join_fields(), p.join_values(), CopyL2tBroadcast::tail(), p.tail_data(), CopyL2tBroadcast::STATIC_DWORDS as nat, (0xffffu32 | (1u32 << 27u32)), (1u32 | (1u32 << 8u32) | (1u32 << 27u32)));
                layout::lemma_extra_header(enc[0], 1u32, 1u32, 1u32);
            },
            Pkt::Nop(p) => {
                layout::lemma_packet_roundtrip(buf, Nop::bit_fields(), p.bit_values(), Nop::join_fields(), p.join_values(), Nop::tail(), p.tail_data(), Nop::STATIC_DWORDS as nat);
                let enc = p.spec_encode(buf);
                layout::lemma_header_keeps_packet(enc, Nop::bit_fields(), p.bit_values(), Nop::join_fields(), p.join_values(), Nop::tail(), p.tail_data(), Nop::STATIC_DWORDS as nat, 0xffffu32, (0u32 | (0u32 << 8u32)));
                layout::lemma_plain_header(enc[0], 0u32, 0u32);
            },
            Pkt::CopyStruct(p) => {
                layout::lemma_packet_roundtrip(buf, CopyStruct::bit_fields(), p.bit_values(), CopyStruct::join_fields(), p.join_values(), CopyStruct::tail(), p.tail_data(), CopyStruct::STATIC_DWORDS as nat);
                let enc = p.spec_encode(buf);
                layout::lemma_header_keeps_packet(enc, CopyStruct::bit_fields(), p.bit_values(), CopyStruct::join_fields(), p.join_values(), CopyStruct::tail(), p.tail_data(), CopyStruct::STATIC_DWORDS as nat, 0xffffu32, (1u32 | (3u32 << 8u32)));
                layout::lemma_plain_header(enc[0], 1u32, 3u32);
            },
            Pkt::CopyLinearSubwin(p) => {
                layout::lemma_packet_roundtrip(buf, CopyLinearSubwin::bit_fields(), p.bit_values(), CopyLinearSubwin::join_fields(), p.join_values(), CopyLinearSubwin::tail(), p.tail_data(), CopyLinearSubwin::STATIC_DWORDS as nat);
                let enc = p.spec_encode(buf);
                layout::lemma_header_keeps_packet(enc, CopyLinearSubwin::bit_fields(), p.bit_values(), CopyLinearSubwin::join_fields(), p.join_values(), CopyLinearSubwin::tail(), p.tail_data(), CopyLinearSubwin::STATIC_DWORDS as nat, 0xffffu32, (1u32 | (4u32 << 8u32)));
                layout::lemma_plain_header(enc[0], 1u32, 4u32);
            },
            Pkt::CopyTiledSubwin(p) => {
                layout::lemma_packet_roundtrip(buf, CopyTiledSubwin::bit_fields(), p.bit_values(), CopyTiledSubwin::join_fields(), p.join_values(), CopyTiledSubwin::tail(), p.tail_data(), CopyTiledSubwin::STATIC_DWORDS as nat);
                let enc = p.spec_encode(buf);
                layout::lemma_header_keeps_packet(enc, CopyTiledSubwin::bit_fields(), p.bit_values(), CopyTiledSubwin::join_fields(), p.join_values(), CopyTiledSubwin::tail(), p.tail_data(), CopyTiledSubwin::STATIC_DWORDS as nat, 0xffffu32, (1u32 | (5u32 << 8u32)));
                layout::lemma_plain_header(enc[0], 1u32, 5u32);
            },
            Pkt::CopyT2t(p) => {
                layout::lemma_packet_roundtrip(buf, CopyT2t::bit_fields(), p.bit_values(), CopyT2t::join_fields(), p.join_values(), CopyT2t::tail(), p.tail_data(), CopyT2t::STATIC_DWORDS as nat);
                let enc = p.spec_encode(buf);
                layout::lemma_header_keeps_packet(enc, CopyT2t::bit_fields(), p.bit_values(), CopyT2t::join_fields(), p.join_values(), CopyT2t::tail(), p.tail_data(), CopyT2t::STATIC_DWORDS as nat, 0xffffu32, (1u32 | (6u32 << 8u32)));
                layout::lemma_plain_header(enc[0], 1u32, 6u32);
            },
            Pkt::CopyDirtyPage(p) => {
                layout::lemma_packet_roundtrip(buf, CopyDirtyPage::bit_fields(), p.bit_values(), CopyDirtyPage::join_fields(), p.join_values(), CopyDirtyPage::tail(), p.tail_data(), CopyDirtyPage::STATIC_DWORDS as nat);
                let enc = p.spec_encode(buf);
                layout::lemma_header_keeps_packet(enc, CopyDirtyPage::bit_fields(), p.bit_values(), CopyDirtyPage::join_fields(), p.join_values(), CopyDirtyPage::tail(), p.tail_data(), CopyDirtyPage::STATIC_DWORDS as nat, 0xffffu32, (1u32 | (7u32 << 8u32)));
                layout::lemma_plain_header(enc[0], 1u32, 7u32);
            },
            Pkt::CopyPhysicalLinear(p) => {
                layout::lemma_packet_roundtrip(buf, CopyPhysicalLinear::bit_fields(), p.bit_values(), CopyPhysicalLinear::join_fields(), p.join_values(), CopyPhysicalLinear::tail(), p.tail_data(), CopyPhysicalLinear::STATIC_DWORDS as nat);
                let enc = p.spec_encode(buf);
                layout::lemma_header_keeps_packet(enc, CopyPhysicalLinear::bit_fields(), p.bit_values(), CopyPhysicalLinear::join_fields(), p.join_values(), CopyPhysicalLinear::tail(), p.tail_data(), CopyPhysicalLinear::STATIC_DWORDS as nat, 0xffffu32, (1u32 | (8u32 << 8u32)));
                layout::lemma_plain_header(enc[0], 1u32, 8u32);
            },
            Pkt::WriteUntiled(p) => {
                layout::lemma_packet_roundtrip(buf, WriteUntiled::bit_fields(), p.bit_values(), WriteUntiled::join_fields(), p.join_values(), WriteUntiled::tail(), p.tail_data(), WriteUntiled::STATIC_DWORDS as nat);
                let enc = p.spec_encode(buf);
                layout::lemma_header_keeps_packet(enc, WriteUntiled::bit_fields(), p.bit_values(), WriteUntiled::join_fields(), p.join_values(), WriteUntiled::tail(), p.tail_data(), WriteUntiled::STATIC_DWORDS as nat, 0xffffu32, (2u32 | (0u32 << 8u32)));
                layout::lemma_plain_header(enc[0], 2u32, 0u32);
            },
            Pkt::WriteTiled(p) => {
                layout::lemma_packet_roundtrip(buf, WriteTiled::bit_fields(), p.bit_values(), WriteTiled::join_fields(), p.join_values(), WriteTiled::tail(), p.tail_data(), WriteTiled::STATIC_DWORDS as nat);
                let enc = p.spec_encode(buf);
                layout::lemma_header_keeps_packet(enc, WriteTiled::bit_fields(), p.bit_values(), WriteTiled::join_fields(), p.join_values(), WriteTiled::tail(), p.tail_data(), WriteTiled::STATIC_DWORDS as nat, 0xffffu32, (2u32 | (1u32 << 8u32)));
                layout::lemma_plain_header(enc[0], 2u32, 1u32);
            },
            Pkt::IndirectBuffer(p) => {
                layout::lemma_packet_roundtrip(buf, IndirectBuffer::bit_fields(), p.bit_values(), IndirectBuffer::join_fields(), p.join_values(), IndirectBuffer::tail(), p.tail_data(), IndirectBuffer::STATIC_DWORDS as nat);
                let enc = p.spec_encode(buf);
                layout::lemma_header_keeps_packet(enc, IndirectBuffer::bit_fields(), p.bit_values(), IndirectBuffer::join_fields(), p.join_values(), IndirectBuffer::tail(), p.tail_data(), IndirectBuffer::STATIC_DWORDS as nat, 0xffffu32, (4u32 | (0u32 << 8u32)));
                layout::lemma_plain_header(enc[0], 4u32, 0u32);
            },
            Pkt::Fence(p) => {
                layout::lemma_packet_roundtrip(buf, Fence::bit_fields(), p.bit_values(), Fence::join_fields(), p.join_values(), Fence::tail(), p.tail_data(), Fence::STATIC_DWORDS as nat);
                let enc = p.spec_encode(buf);
                layout::lemma_header_keeps_packet(enc, Fence::bit_fields(), p.bit_values(), Fence::join_fields(), p.join_values(), Fence::tail(), p.tail_data(), Fence::STATIC_DWORDS as nat, 0xffffu32, (5u32 | (0u32 << 8u32)));
                layout::lemma_plain_header(enc[0], 5u32, 0u32);
            },
            Pkt::Trap(p) => {
                layout::lemma_packet_roundtrip(buf, Trap::bit_fields(), p.bit_values(), Trap::join_fields(), p.join_values(), Trap::tail(), p.tail_data(), Trap::STATIC_DWORDS as nat);
                let enc = p.spec_encode(buf);
                layout::lemma_header_keeps_packet(enc, Trap::bit_fields(), p.bit_values(), Trap::join_fields(), p.join_values(), Trap::tail(), p.tail_data(), Trap::STATIC_DWORDS as nat, 0xffffu32, (6u32 | (0u32 << 8u32)));
                layout::lemma_plain_header(enc[0], 6u32, 0u32);
            },
            Pkt::Semaphore(p) => {
                layout::lemma_packet_roundtrip(buf, Semaphore::bit_fields(), p.bit_values(), Semaphore::join_fields(), p.join_values(), Semaphore::tail(), p.tail_data(), Semaphore::STATIC_DWORDS as nat);
                let enc = p.spec_encode(buf);
                layout::lemma_header_keeps_packet(enc, Semaphore::bit_fields(), p.bit_values(), Semaphore::join_fields(), p.join_values(), Semaphore::tail(), p.tail_data(), Semaphore::STATIC_DWORDS as nat, 0xffffu32, (7u32 | (0u32 << 8u32)));
                layout::lemma_plain_header(enc[0], 7u32, 0u32);
            },
            Pkt::PollRegmem(p) => {
                layout::lemma_packet_roundtrip(buf, PollRegmem::bit_fields(), p.bit_values(), PollRegmem::join_fields(), p.join_values(), PollRegmem::tail(), p.tail_data(), PollRegmem::STATIC_DWORDS as nat);
                let enc = p.spec_encode(buf);
                layout::lemma_header_keeps_packet(enc, PollRegmem::bit_fields(), p.bit_values(), PollRegmem::join_fields(), p.join_values(), PollRegmem::tail(), p.tail_data(), PollRegmem::STATIC_DWORDS as nat, 0xffffu32, (8u32 | (0u32 << 8u32)));
                layout::lemma_plain_header(enc[0], 8u32, 0u32);
            },
            Pkt::PollRegWriteMem(p) => {
                layout::lemma_packet_roundtrip(buf, PollRegWriteMem::bit_fields(), p.bit_values(), PollRegWriteMem::join_fields(), p.join_values(), PollRegWriteMem::tail(), p.tail_data(), PollRegWriteMem::STATIC_DWORDS as nat);
                let enc = p.spec_encode(buf);
                layout::lemma_header_keeps_packet(enc, PollRegWriteMem::bit_fields(), p.bit_values(), PollRegWriteMem::join_fields(), p.join_values(), PollRegWriteMem::tail(), p.tail_data(), PollRegWriteMem::STATIC_DWORDS as nat, 0xffffu32, (8u32 | (1u32 << 8u32)));
                layout::lemma_plain_header(enc[0], 8u32, 1u32);
            },
            Pkt::PollDbitWriteMem(p) => {
                layout::lemma_packet_roundtrip(buf, PollDbitWriteMem::bit_fields(), p.bit_values(), PollDbitWriteMem::join_fields(), p.join_values(), PollDbitWriteMem::tail(), p.tail_data(), PollDbitWriteMem::STATIC_DWORDS as nat);
                let enc = p.spec_encode(buf);
                layout::lemma_header_keeps_packet(enc, PollDbitWriteMem::bit_fields(), p.bit_values(), PollDbitWriteMem::join_fields(), p.join_values(), PollDbitWriteMem::tail(), p.tail_data(), PollDbitWriteMem::STATIC_DWORDS as nat, 0xffffu32, (8u32 | (2u32 << 8u32)));
                layout::lemma_plain_header(enc[0], 8u32, 2u32);
            },
            Pkt::PollMemVerify(p) => {
                layout::lemma_packet_roundtrip(buf, PollMemVerify::bit_fields(), p.bit_values(), PollMemVerify::join_fields(), p.join_values(), PollMemVerify::tail(), p.tail_data(), PollMemVerify::STATIC_DWORDS as nat);
                let enc = p.spec_encode(buf);
                layout::lemma_header_keeps_packet(enc, PollMemVerify::bit_fields(), p.bit_values(), PollMemVerify::join_fields(), p.join_values(), PollMemVerify::tail(), p.tail_data(), PollMemVerify::STATIC_DWORDS as nat, 0xffffu32, (8u32 | (3u32 << 8u32)));
                layout::lemma_plain_header(enc[0], 8u32, 3u32);
            },
            Pkt::CondExe(p) => {
                layout::lemma_packet_roundtrip(buf, CondExe::bit_fields(), p.bit_values(), CondExe::join_fields(), p.join_values(), CondExe::tail(), p.tail_data(), CondExe::STATIC_DWORDS as nat);
                let enc = p.spec_encode(buf);
                layout::lemma_header_keeps_packet(enc, CondExe::bit_fields(), p.bit_values(), CondExe::join_fields(), p.join_values(), CondExe::tail(), p.tail_data(), CondExe::STATIC_DWORDS as nat, 0xffffu32, (9u32 | (0u32 << 8u32)));
                layout::lemma_plain_header(enc[0], 9u32, 0u32);
            },
            Pkt::Atomic(p) => {
                layout::lemma_packet_roundtrip(buf, Atomic::bit_fields(), p.bit_values(), Atomic::join_fields(), p.join_values(), Atomic::tail(), p.tail_data(), Atomic::STATIC_DWORDS as nat);
                let enc = p.spec_encode(buf);
                layout::lemma_header_keeps_packet(enc, Atomic::bit_fields(), p.bit_values(), Atomic::join_fields(), p.join_values(), Atomic::tail(), p.tail_data(), Atomic::STATIC_DWORDS as nat, 0xffffu32, (10u32 | (0u32 << 8u32)));
                layout::lemma_plain_header(enc[0], 10u32, 0u32);
            },
            Pkt::ConstFill(p) => {
                layout::lemma_packet_roundtrip(buf, ConstFill::bit_fields(), p.bit_values(), ConstFill::join_fields(), p.join_values(), ConstFill::tail(), p.tail_data(), ConstFill::STATIC_DWORDS as nat);
                let enc = p.spec_encode(buf);
                layout::lemma_header_keeps_packet(enc, ConstFill::bit_fields(), p.bit_values(), ConstFill::join_fields(), p.join_values(), ConstFill::tail(), p.tail_data(), ConstFill::STATIC_DWORDS as nat, 0xffffu32, (11u32 | (0u32 << 8u32)));
                layout::lemma_plain_header(enc[0], 11u32, 0u32);
            },
            Pkt::DataFillMulti(p) => {
                layout::lemma_packet_roundtrip(buf, DataFillMulti::bit_fields(), p.bit_values(), DataFillMulti::join_fields(), p.join_values(), DataFillMulti::tail(), p.tail_data(), DataFillMulti::STATIC_DWORDS as nat);
                let enc = p.spec_encode(buf);
                layout::lemma_header_keeps_packet(enc, DataFillMulti::bit_fields(), p.bit_values(), DataFillMulti::join_fields(), p.join_values(), DataFillMulti::tail(), p.tail_data(), DataFillMulti::STATIC_DWORDS as nat, 0xffffu32, (11u32 | (1u32 << 8u32)));
                layout::lemma_plain_header(enc[0], 11u32, 1u32);
            },
            Pkt::WriteIncr(p) => {
                layout::lemma_packet_roundtrip(buf, WriteIncr::bit_fields(), p.bit_values(), WriteIncr::join_fields(), p.join_values(), WriteIncr::tail(), p.tail_data(), WriteIncr::STATIC_DWORDS as nat);
                let enc = p.spec_encode(buf);
                layout::lemma_header_keeps_packet(enc, WriteIncr::bit_fields(), p.bit_values(), WriteIncr::join_fields(), p.join_values(), WriteIncr::tail(), p.tail_data(), WriteIncr::STATIC_DWORDS as nat, 0xffffu32, (12u32 | (0u32 << 8u32)));
                layout::lemma_plain_header(enc[0], 12u32, 0u32);
            },
            Pkt::PtepdeCopy(p) => {
                layout::lemma_packet_roundtrip(buf, PtepdeCopy::bit_fields(), p.bit_values(), PtepdeCopy::join_fields(), p.join_values(), PtepdeCopy::tail(), p.tail_data(), PtepdeCopy::STATIC_DWORDS as nat);
                let enc = p.spec_encode(buf);
                layout::lemma_header_keeps_packet(enc, PtepdeCopy::bit_fields(), p.bit_values(), PtepdeCopy::join_fields(), p.join_values(), PtepdeCopy::tail(), p.tail_data(), PtepdeCopy::STATIC_DWORDS as nat, 0xffffu32, (12u32 | (1u32 << 8u32)));
                layout::lemma_plain_header(enc[0], 12u32, 1u32);
            },
            Pkt::PtepdeRmw(p) => {
                layout::lemma_packet_roundtrip(buf, PtepdeRmw::bit_fields(), p.bit_values(), PtepdeRmw::join_fields(), p.join_values(), PtepdeRmw::tail(), p.tail_data(), PtepdeRmw::STATIC_DWORDS as nat);
                let enc = p.spec_encode(buf);
                layout::lemma_header_keeps_packet(enc, PtepdeRmw::bit_fields(), p.bit_values(), PtepdeRmw::join_fields(), p.join_values(), PtepdeRmw::tail(), p.tail_data(), PtepdeRmw::STATIC_DWORDS as nat, 0xffffu32, (12u32 | (2u32 << 8u32)));
                layout::lemma_plain_header(enc[0], 12u32, 2u32);
            },
            Pkt::PtepdeCopyBackwards(p) => {
                layout::lemma_packet_roundtrip(buf, PtepdeCopyBackwards::bit_fields(), p.bit_values(), PtepdeCopyBackwards::join_fields(), p.join_values(), PtepdeCopyBackwards::tail(), p.tail_data(), PtepdeCopyBackwards::STATIC_DWORDS as nat);
                let enc = p.spec_encode(buf);
                layout::lemma_header_keeps_packet(enc, PtepdeCopyBackwards::bit_fields(), p.bit_values(), PtepdeCopyBackwards::join_fields(), p.join_values(), PtepdeCopyBackwards::tail(), p.tail_data(), PtepdeCopyBackwards::STATIC_DWORDS as nat, 0xffffu32, (12u32 | (3u32 << 8u32)));
                layout::lemma_plain_header(enc[0], 12u32, 3u32);
            },
            Pkt::TimestampSet(p) => {
                layout::lemma_packet_roundtrip(buf, TimestampSet::bit_fields(), p.bit_values(), TimestampSet::join_fields(), p.join_values(), TimestampSet::tail(), p.tail_data(), TimestampSet::STATIC_DWORDS as nat);
                let enc = p.spec_encode(buf);
                layout::lemma_header_keeps_packet(enc, TimestampSet::bit_fields(), p.bit_values(), TimestampSet::join_fields(), p.join_values(), TimestampSet::tail(), p.tail_data(), TimestampSet::STATIC_DWORDS as nat, 0xffffu32, (13u32 | (0u32 << 8u32)));
                layout::lemma_plain_header(enc[0], 13u32, 0u32);
            },
            Pkt::TimestampGet(p) => {
                layout::lemma_packet_roundtrip(buf, TimestampGet::bit_fields(), p.bit_values(), TimestampGet::join_fields(), p.join_values(), TimestampGet::tail(), p.tail_data(), TimestampGet::STATIC_DWORDS as nat);
                let enc = p.spec_encode(buf);
                layout::lemma_header_keeps_packet(enc, TimestampGet::bit_fields(), p.bit_values(), TimestampGet::join_fields(), p.join_values(), TimestampGet::tail(), p.tail_data(), TimestampGet::STATIC_DWORDS as nat, 0xffffu32, (13u32 | (1u32 << 8u32)));
                layout::lemma_plain_header(enc[0], 13u32, 1u32);
            },
            Pkt::TimestampGetGlobal(p) => {
                layout::lemma_packet_roundtrip(buf, TimestampGetGlobal::bit_fields(), p.bit_values(), TimestampGetGlobal::join_fields(), p.join_values(), TimestampGetGlobal::tail(), p.tail_data(), TimestampGetGlobal::STATIC_DWORDS as nat);
                let enc = p.spec_encode(buf);
                layout::lemma_header_keeps_packet(enc, TimestampGetGlobal::bit_fields(), p.bit_values(), TimestampGetGlobal::join_fields(), p.join_values(), TimestampGetGlobal::tail(), p.tail_data(), TimestampGetGlobal::STATIC_DWORDS as nat, 0xffffu32, (13u32 | (2u32 << 8u32)));
                layout::lemma_plain_header(enc[0], 13u32, 2u32);
            },
            Pkt::SrbmWrite(p) => {
                layout::lemma_packet_roundtrip(buf, SrbmWrite::bit_fields(), p.bit_values(), SrbmWrite::join_fields(), p.join_values(), SrbmWrite::tail(), p.tail_data(), SrbmWrite::STATIC_DWORDS as nat);
                let enc = p.spec_encode(buf);
                layout::lemma_header_keeps_packet(enc, SrbmWrite::bit_fields(), p.bit_values(), SrbmWrite::join_fields(), p.join_values(), SrbmWrite::tail(), p.tail_data(), SrbmWrite::STATIC_DWORDS as nat, 0xffffu32, (14u32 | (0u32 << 8u32)));
                layout::lemma_plain_header(enc[0], 14u32, 0u32);
            },
            Pkt::PreExe(p) => {
                layout::lemma_packet_roundtrip(buf, PreExe::bit_fields(), p.bit_values(), PreExe::join_fields(), p.join_values(), PreExe::tail(), p.tail_data(), PreExe::STATIC_DWORDS as nat);
                let enc = p.spec_encode(buf);
                layout::lemma_header_keeps_packet(enc, PreExe::bit_fields(), p.bit_values(), PreExe::join_fields(), p.join_values(), PreExe::tail(), p.tail_data(), PreExe::STATIC_DWORDS as nat, 0xffffu32, (15u32 | (0u32 << 8u32)));
                layout::lemma_plain_header(enc[0], 15u32, 0u32);
            },
        }
    }

    /// Reading a packet is exact: two packets read from one buffer are equal.
    pub proof fn lemma_read_unique(a: Self, b: Self, buf: Seq<u32>)
        requires
            a.read_from(buf),
            b.read_from(buf),
        ensures
            a == b,
    {
        match a {
            Pkt::CopyLinear(x) => {
                if let Pkt::CopyLinear(y) = b {
                    CopyLinear::lemma_read_unique(x, y, buf);
                }
            },
            Pkt::CopyBroadcastLinear(x) => {
                if let Pkt::CopyBroadcastLinear(y) = b {
                    CopyBroadcastLinear::lemma_read_unique(x, y, buf);
                }
            },
            Pkt::CopyTiled(x) => {
                if let Pkt::CopyTiled(y) = b {
                    CopyTiled::lemma_read_unique(x, y, buf);
                }
            },
            Pkt::CopyL2tBroadcast(x) => {
                if let Pkt::CopyL2tBroadcast(y) = b {
                    CopyL2tBroadcast::lemma_read_unique(x, y, buf);
                }
            },
            Pkt::Nop(x) => {
                if let Pkt::Nop(y) = b {
                    Nop::lemma_read_unique(x, y, buf);
                }
            },
            Pkt::CopyStruct(x) => {
                if let Pkt::CopyStruct(y) = b {
                    CopyStruct::lemma_read_unique(x, y, buf);
                }
            },
            Pkt::CopyLinearSubwin(x) => {
                if let Pkt::CopyLinearSubwin(y) = b {
                    CopyLinearSubwin::lemma_read_unique(x, y, buf);
                }
            },
            Pkt::CopyTiledSubwin(x) => {
                if let Pkt::CopyTiledSubwin(y) = b {
                    CopyTiledSubwin::lemma_read_unique(x, y, buf);
                }
            },
            Pkt::CopyT2t(x) => {
                if let Pkt::CopyT2t(y) = b {
                    CopyT2t::lemma_read_unique(x, y, buf);
                }
            },
            Pkt::CopyDirtyPage(x) => {
                if let Pkt::CopyDirtyPage(y) = b {
                    CopyDirtyPage::lemma_read_unique(x, y, buf);
                }
            },
            Pkt::CopyPhysicalLinear(x) => {
                if let Pkt::CopyPhysicalLinear(y) = b {
                    CopyPhysicalLinear::lemma_read_unique(x, y, buf);
                }
            },
            Pkt::WriteUntiled(x) => {
                if let Pkt::WriteUntiled(y) = b {
                    WriteUntiled::lemma_read_unique(x, y, buf);
                }
            },
            Pkt::WriteTiled(x) => {
                if let Pkt::WriteTiled(y) = b {
                    WriteTiled::lemma_read_unique(x, y, buf);
                }
            },
            Pkt::IndirectBuffer(x) => {
                if let Pkt::IndirectBuffer(y) = b {
                    IndirectBuffer::lemma_read_unique(x, y, buf);
                }
            },
            Pkt::Fence(x) => {
                if let Pkt::Fence(y) = b {
                    Fence::lemma_read_unique(x, y, buf);
                }
            },
            Pkt::Trap(x) => {
                if let Pkt::Trap(y) = b {
                    Trap::lemma_read_unique(x, y, buf);
                }
            },
            Pkt::Semaphore(x) => {
                if let Pkt::Semaphore(y) = b {
                    Semaphore::lemma_read_unique(x, y, buf);
                }
            },
            Pkt::PollRegmem(x) => {
                if let Pkt::PollRegmem(y) = b {
                    PollRegmem::lemma_read_unique(x, y, buf);
                }
            },
            Pkt::PollRegWriteMem(x) => {
                if let Pkt::PollRegWriteMem(y) = b {
                    PollRegWriteMem::lemma_read_unique(x, y, buf);
                }
            },
            Pkt::PollDbitWriteMem(x) => {
                if let Pkt::PollDbitWriteMem(y) = b {
                    PollDbitWriteMem::lemma_read_unique(x, y, buf);
                }
            },
            Pkt::PollMemVerify(x) => {
                if let Pkt::PollMemVerify(y) = b {
                    PollMemVerify::lemma_read_unique(x, y, buf);
                }
            },
            Pkt::CondExe(x) => {
                if let Pkt::CondExe(y) = b {
                    CondExe::lemma_read_unique(x, y, buf);
                }
            },
            Pkt::Atomic(x) => {
                if let Pkt::Atomic(y) = b {
                    Atomic::lemma_read_unique(x, y, buf);
                }
            },
            Pkt::ConstFill(x) => {
                if let Pkt::ConstFill(y) = b {
                    ConstFill::lemma_read_unique(x, y, buf);
                }
            },
            Pkt::DataFillMulti(x) => {
                if let Pkt::DataFillMulti(y) = b {
                    DataFillMulti::lemma_read_unique(x, y, buf);
                }
            },
            Pkt::WriteIncr(x) => {
                if let Pkt::WriteIncr(y) = b {
                    WriteIncr::lemma_read_unique(x, y, buf);
                }
            },
            Pkt::PtepdeCopy(x) => {
                if let Pkt::PtepdeCopy(y) = b {
                    PtepdeCopy::lemma_read_unique(x, y, buf);
                }
            },
            Pkt::PtepdeRmw(x) => {
                if let Pkt::PtepdeRmw(y) = b {
                    PtepdeRmw::lemma_read_unique(x, y, buf);
                }
            },
            Pkt::PtepdeCopyBackwards(x) => {
                if let Pkt::PtepdeCopyBackwards(y) = b {
                    PtepdeCopyBackwards::lemma_read_unique(x, y, buf);
                }
            },
            Pkt::TimestampSet(x) => {
                if let Pkt::TimestampSet(y) = b {
                    TimestampSet::lemma_read_unique(x, y, buf);
                }
            },
            Pkt::TimestampGet(x) => {
                if let Pkt::TimestampGet(y) = b {
                    TimestampGet::lemma_read_unique(x, y, buf);
                }
            },
            Pkt::TimestampGetGlobal(x) => {
                if let Pkt::TimestampGetGlobal(y) = b {
                    TimestampGetGlobal::lemma_read_unique(x, y, buf);
                }
            },
            Pkt::SrbmWrite(x) => {
                if let Pkt::SrbmWrite(y) = b {
                    SrbmWrite::lemma_read_unique(x, y, buf);
                }
            },
            Pkt::PreExe(x) => {
                if let Pkt::PreExe(y) = b {
                    PreExe::lemma_read_unique(x, y, buf);
                }
            },
        }
    }

    /// Whether this packet's layout is well formed.
    pub fn layout_ok(&self) -> (r: bool)
        ensures
            r == self.layout_wf(),
    {
        match self {
            Pkt::CopyLinear(p) => CopyLinear::layout_ok(),
            Pkt::CopyBroadcastLinear(p) => CopyBroadcastLinear::layout_ok(),
            Pkt::CopyTiled(p) => CopyTiled::layout_ok(),
            Pkt::CopyL2tBroadcast(p) => CopyL2tBroadcast::layout_ok(),
            Pkt::Nop(p) => Nop::layout_ok(),
            Pkt::CopyStruct(p) => CopyStruct::layout_ok(),
            Pkt::CopyLinearSubwin(p) => CopyLinearSubwin::layout_ok(),
            Pkt::CopyTiledSubwin(p) => CopyTiledSubwin::layout_ok(),
            Pkt::CopyT2t(p) => CopyT2t::layout_ok(),
            Pkt::CopyDirtyPage(p) => CopyDirtyPage::layout_ok(),
            Pkt::CopyPhysicalLinear(p) => CopyPhysicalLinear::layout_ok(),
            Pkt::WriteUntiled(p) => WriteUntiled::layout_ok(),
            Pkt::WriteTiled(p) => WriteTiled::layout_ok(),
            Pkt::IndirectBuffer(p) => IndirectBuffer::layout_ok(),
            Pkt::Fence(p) => Fence::layout_ok(),
            Pkt::Trap(p) => Trap::layout_ok(),
            Pkt::Semaphore(p) => Semaphore::layout_ok(),
            Pkt::PollRegmem(p) => PollRegmem::layout_ok(),
            Pkt::PollRegWriteMem(p) => PollRegWriteMem::layout_ok(),
            Pkt::PollDbitWriteMem(p) => PollDbitWriteMem::layout_ok(),
            Pkt::PollMemVerify(p) => PollMemVerify::layout_ok(),
            Pkt::CondExe(p) => CondExe::layout_ok(),
            Pkt::Atomic(p) => Atomic::layout_ok(),
            Pkt::ConstFill(p) => ConstFill::layout_ok(),
            Pkt::DataFillMulti(p) => DataFillMulti::layout_ok(),
            Pkt::WriteIncr(p) => WriteIncr::layout_ok(),
            Pkt::PtepdeCopy(p) => PtepdeCopy::layout_ok(),
            Pkt::PtepdeRmw(p) => PtepdeRmw::layout_ok(),
            Pkt::PtepdeCopyBackwards(p) => PtepdeCopyBackwards::layout_ok(),
            Pkt::TimestampSet(p) => TimestampSet::layout_ok(),
            Pkt::TimestampGet(p) => TimestampGet::layout_ok(),
            Pkt::TimestampGetGlobal(p) => TimestampGetGlobal::layout_ok(),
            Pkt::SrbmWrite(p) => SrbmWrite::layout_ok(),
            Pkt::PreExe(p) => PreExe::layout_ok(),
        }
    }

}

} // verus!
