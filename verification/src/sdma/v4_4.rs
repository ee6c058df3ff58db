use vstd::prelude::*;

use super::layout;
use super::layout::{BitField, JoinField, DynField, layout_is_wf, encode_bit_fields, decode_bit_fields, encode_join_fields, decode_join_fields, encode_tail, decode_tail, to_bit, put_header};
pub use super::v4_0::{CopyDirtyPage, CopyPhysicalLinear, CopyBroadcastLinear, CopyLinearSubwin, CopyTiled, CopyL2tBroadcast, CopyT2t, CopyTiledSubwin, CopyStruct, WriteUntiled, WriteTiled, PtepdeCopy, PtepdeCopyBackwards, PtepdeRmw, SrbmWrite, DataFillMulti, PollRegWriteMem, PollDbitWriteMem, PollMemVerify, Atomic, DummyTrap, WriteIncr, IndirectBuffer, Semaphore, Fence, PreExe, CondExe, ConstFill, PollRegmem, Nop, TimestampGet, TimestampGetGlobal, TimestampSet, Trap, Pkt};

verus! {

/// The `CopyLinear` packet.
#[derive(Clone, Copy, Default)]
pub struct CopyLinear {
    pub encrypt: bool,
    pub tmz: bool,
    pub broadcast: bool,
    pub count: u32,
    pub dst_sw: u8,
    pub dst_cache_policy: u8,
    pub src_sw: u8,
    pub src_cache_policy: u8,
    pub src_addr: u64,
    pub dst_addr: u64,
}

impl CopyLinear {
    /// Dwords of the packet before its variable-length tail.
    pub const STATIC_DWORDS: usize = 7;

    pub open spec fn bit_fields() -> Seq<BitField> {
        seq![BitField { dw: 0, mask: 0x1, shift: 16 }, BitField { dw: 0, mask: 0x1, shift: 18 }, BitField { dw: 0, mask: 0x1, shift: 27 }, BitField { dw: 1, mask: 0x3fffff, shift: 0 }, BitField { dw: 2, mask: 0x3, shift: 16 }, BitField { dw: 2, mask: 0xf, shift: 18 }, BitField { dw: 2, mask: 0x3, shift: 24 }, BitField { dw: 2, mask: 0xf, shift: 26 }]
    }

    pub open spec fn join_fields() -> Seq<JoinField> {
        seq![JoinField { lo: 3, hi: 4 }, JoinField { lo: 5, hi: 6 }]
    }

    pub open spec fn tail() -> Option<DynField> {
        None
    }

    pub open spec fn bit_values(self) -> Seq<u32> {
        seq![layout::bool_bit(self.encrypt), layout::bool_bit(self.tmz), layout::bool_bit(self.broadcast), self.count, self.dst_sw as u32, self.dst_cache_policy as u32, self.src_sw as u32, self.src_cache_policy as u32]
    }

    pub open spec fn join_values(self) -> Seq<u64> {
        seq![self.src_addr, self.dst_addr]
    }

    pub open spec fn tail_data(self) -> Seq<u32> {
        Seq::<u32>::empty()
    }

    /// Every field value fits its field.
    pub open spec fn fits(self) -> bool {
        layout::fields_fit(Self::bit_fields(), self.bit_values()) && layout::tail_fits(Self::tail(), self.tail_data())
    }

    pub open spec fn layout_wf() -> bool {
        layout::layout_wf(Self::bit_fields(), Self::join_fields(), Self::tail(), Self::STATIC_DWORDS as nat)
    }

    /// Dwords that the packet takes.
    pub open spec fn size(self) -> nat {
        (Self::STATIC_DWORDS + self.tail_data().len()) as nat
    }

    /// The buffer holds the whole packet.
    pub open spec fn decodable(buf: Seq<u32>) -> bool {
        buf.len() >= Self::STATIC_DWORDS
    }

    pub open spec fn spec_encode(self, buf: Seq<u32>) -> Seq<u32> {
        layout::encode_packet(
            buf,
            Self::bit_fields(),
            self.bit_values(),
            Self::join_fields(),
            self.join_values(),
            Self::tail(),
            self.tail_data(),
        )
    }

    /// `buf` holds this packet.
    pub open spec fn read_from(self, buf: Seq<u32>) -> bool {
        layout::packet_reads(
            buf,
            Self::bit_fields(),
            self.bit_values(),
            Self::join_fields(),
            self.join_values(),
            Self::tail(),
            self.tail_data(),
        )
    }

    fn exec_bit_fields() -> (r: Vec<BitField>)
        ensures
            r@ == Self::bit_fields(),
    {
        vec![BitField { dw: 0, mask: 0x1, shift: 16 }, BitField { dw: 0, mask: 0x1, shift: 18 }, BitField { dw: 0, mask: 0x1, shift: 27 }, BitField { dw: 1, mask: 0x3fffff, shift: 0 }, BitField { dw: 2, mask: 0x3, shift: 16 }, BitField { dw: 2, mask: 0xf, shift: 18 }, BitField { dw: 2, mask: 0x3, shift: 24 }, BitField { dw: 2, mask: 0xf, shift: 26 }]
    }

    fn exec_join_fields() -> (r: Vec<JoinField>)
        ensures
            r@ == Self::join_fields(),
    {
        vec![JoinField { lo: 3, hi: 4 }, JoinField { lo: 5, hi: 6 }]
    }

    /// Whether the field layout of this packet is well formed.
    pub fn layout_ok() -> (r: bool)
        ensures
            r == Self::layout_wf(),
    {
        layout_is_wf(&Self::exec_bit_fields(), &Self::exec_join_fields(), None, Self::STATIC_DWORDS)
    }

    /// Writes the packet to the start of `buff`, without its header, and
    /// returns how many dwords it took.
    pub fn partial_encode_linear(&self, buff: &mut [u32]) -> (n: usize)
        requires
            old(buff)@.len() >= self.size(),
            self.fits(),
        ensures
            n == self.size(),
            final(buff)@ == self.spec_encode(old(buff)@),
            final(buff)@.len() == old(buff)@.len(),
    {
        let bits = Self::exec_bit_fields();
        let vals: Vec<u32> = vec![to_bit(self.encrypt), to_bit(self.tmz), to_bit(self.broadcast), self.count, layout::widen_u8(self.dst_sw), layout::widen_u8(self.dst_cache_policy), layout::widen_u8(self.src_sw), layout::widen_u8(self.src_cache_policy)];
        let joins = Self::exec_join_fields();
        let jvals: Vec<u64> = vec![self.src_addr, self.dst_addr];
        proof {
            assert(vals@ =~= self.bit_values());
            assert(jvals@ =~= self.join_values());
        }
        encode_bit_fields(&bits, &vals, buff);
        encode_join_fields(&joins, &jvals, buff);
        Self::STATIC_DWORDS
    }

    /// Reads the packet at the start of `buff` and returns how many dwords it
    /// took.
    pub fn partial_decode_linear(buff: &[u32]) -> (r: (usize, Self))
        requires
            Self::decodable(buff@),
        ensures
            r.0 == r.1.size(),
            r.1.read_from(buff@),
    {
        let bits = Self::exec_bit_fields();
        let v = decode_bit_fields(&bits, buff);
        let joins = Self::exec_join_fields();
        let j = decode_join_fields(&joins, buff);
        let p = Self { encrypt: v[0] != 0, tmz: v[1] != 0, broadcast: v[2] != 0, count: v[3], dst_sw: layout::narrow_u8(v[4]), dst_cache_policy: layout::narrow_u8(v[5]), src_sw: layout::narrow_u8(v[6]), src_cache_policy: layout::narrow_u8(v[7]), src_addr: j[0], dst_addr: j[1] };
        proof {
            assert(p.bit_values() =~= v@);
            assert(p.join_values() =~= j@);
        }
        (Self::STATIC_DWORDS, p)
    }

    /// Where each field stands in a buffer that the packet is read from, as
    /// the packet header lays it out: a bit field under its mask and shift
    /// in its dword, a 64-bit field in two dwords, low half first. By
    /// `lemma_roundtrip`, encoding a packet puts its fields there.
    pub proof fn lemma_field_positions(self, buf: Seq<u32>)
        requires
            self.read_from(buf),
        ensures
            layout::bool_bit(self.encrypt) == layout::get_bits(buf[0], 0x1, 16),
            layout::bool_bit(self.tmz) == layout::get_bits(buf[0], 0x1, 18),
            layout::bool_bit(self.broadcast) == layout::get_bits(buf[0], 0x1, 27),
            self.count == layout::get_bits(buf[1], 0x3fffff, 0),
            layout::u8_value(self.dst_sw) == layout::get_bits(buf[2], 0x3, 16),
            layout::u8_value(self.dst_cache_policy) == layout::get_bits(buf[2], 0xf, 18),
            layout::u8_value(self.src_sw) == layout::get_bits(buf[2], 0x3, 24),
            layout::u8_value(self.src_cache_policy) == layout::get_bits(buf[2], 0xf, 26),
            self.src_addr == layout::dword_pair(buf[3], buf[4]),
            self.dst_addr == layout::dword_pair(buf[5], buf[6]),
    {
        assert(self.bit_values()[0] == layout::bool_bit(self.encrypt));
        assert(layout::decode_bits(buf, Self::bit_fields())[0] == self.bit_values()[0]);
        assert(self.bit_values()[1] == layout::bool_bit(self.tmz));
        assert(layout::decode_bits(buf, Self::bit_fields())[1] == self.bit_values()[1]);
        assert(self.bit_values()[2] == layout::bool_bit(self.broadcast));
        assert(layout::decode_bits(buf, Self::bit_fields())[2] == self.bit_values()[2]);
        assert(self.bit_values()[3] == self.count);
        assert(layout::decode_bits(buf, Self::bit_fields())[3] == self.bit_values()[3]);
        assert(self.bit_values()[4] == layout::u8_value(self.dst_sw));
        assert(layout::decode_bits(buf, Self::bit_fields())[4] == self.bit_values()[4]);
        assert(self.bit_values()[5] == layout::u8_value(self.dst_cache_policy));
        assert(layout::decode_bits(buf, Self::bit_fields())[5] == self.bit_values()[5]);
        assert(self.bit_values()[6] == layout::u8_value(self.src_sw));
        assert(layout::decode_bits(buf, Self::bit_fields())[6] == self.bit_values()[6]);
        assert(self.bit_values()[7] == layout::u8_value(self.src_cache_policy));
        assert(layout::decode_bits(buf, Self::bit_fields())[7] == self.bit_values()[7]);
        assert(layout::decode_joins(buf, Self::join_fields())[0] == self.join_values()[0]);
        assert(layout::decode_joins(buf, Self::join_fields())[1] == self.join_values()[1]);
    }

    /// The field values name the packet: two packets with the same values are
    /// equal.
    pub proof fn lemma_values_determine(a: Self, b: Self)
        requires
            a.bit_values() == b.bit_values(),
            a.join_values() == b.join_values(),
            a.tail_data() == b.tail_data(),
        ensures
            a == b,
    {
        assert(a.bit_values()[0] == layout::bool_bit(a.encrypt) && b.bit_values()[0] == layout::bool_bit(b.encrypt));
        assert(a.bit_values()[1] == layout::bool_bit(a.tmz) && b.bit_values()[1] == layout::bool_bit(b.tmz));
        assert(a.bit_values()[2] == layout::bool_bit(a.broadcast) && b.bit_values()[2] == layout::bool_bit(b.broadcast));
        assert(a.bit_values()[3] == a.count && b.bit_values()[3] == b.count);
        assert(a.bit_values()[4] == layout::u8_value(a.dst_sw) && b.bit_values()[4] == layout::u8_value(b.dst_sw));
        assert(a.bit_values()[5] == layout::u8_value(a.dst_cache_policy) && b.bit_values()[5] == layout::u8_value(b.dst_cache_policy));
        assert(a.bit_values()[6] == layout::u8_value(a.src_sw) && b.bit_values()[6] == layout::u8_value(b.src_sw));
        assert(a.bit_values()[7] == layout::u8_value(a.src_cache_policy) && b.bit_values()[7] == layout::u8_value(b.src_cache_policy));
        assert(a.join_values()[0] == a.src_addr && b.join_values()[0] == b.src_addr);
        assert(a.join_values()[1] == a.dst_addr && b.join_values()[1] == b.dst_addr);
    }

    /// Reading a packet is exact: two packets read from one buffer are equal.
    pub proof fn lemma_read_unique(a: Self, b: Self, buf: Seq<u32>)
        requires
            a.read_from(buf),
            b.read_from(buf),
        ensures
            a == b,
    {
        layout::lemma_reads_determine(
            buf,
            Self::bit_fields(),
            a.bit_values(),
            b.bit_values(),
            Self::join_fields(),
            a.join_values(),
            b.join_values(),
            Self::tail(),
            a.tail_data(),
            b.tail_data(),
        );
        Self::lemma_values_determine(a, b);
    }

    /// A packet reads back from what it was encoded to.
    pub proof fn lemma_roundtrip(self, buf: Seq<u32>)
        requires
            Self::layout_wf(),
            self.fits(),
            buf.len() >= self.size(),
        ensures
            self.read_from(self.spec_encode(buf)),
            Self::decodable(self.spec_encode(buf)),
            self.spec_encode(buf).len() == buf.len(),
    {
        layout::lemma_packet_roundtrip(
            buf,
            Self::bit_fields(),
            self.bit_values(),
            Self::join_fields(),
            self.join_values(),
            Self::tail(),
            self.tail_data(),
            Self::STATIC_DWORDS as nat,
        );
    }
}

} // verus!
