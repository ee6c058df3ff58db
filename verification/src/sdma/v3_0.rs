use vstd::prelude::*;

use super::layout;
use super::layout::{BitField, JoinField, DynField, layout_is_wf, encode_bit_fields, decode_bit_fields, encode_join_fields, decode_join_fields, encode_tail, decode_tail, to_bit, put_header};
pub use super::v2_4::{ CondExe, ConstFill, CopyLinear, CopyLinearBroadcast, CopyLinearSubWindow, CopyLinearToTiledBroadcast, CopyStruct, CopyTiled, CopyTiledSubWindow, CopyTiledToTiled, Fence, GenPtepde, IndirectBuffer, Nop, PollRegmem, PreExe, Semaphore, SrbmWrite, TimestampGet, TimestampGetGlobal, TimestampSet, Trap, WriteTiled, WriteUntiled, };

verus! {

/// The `Atomic` packet.
#[derive(Clone, Copy, Default)]
pub struct Atomic {
    pub loop_: bool,
    pub op: u8,
    pub loop_interval: u16,
    pub addr: u64,
    pub src_data: u64,
    pub compare_data: u64,
}

impl Atomic {
    /// Dwords of the packet before its variable-length tail.
    pub const STATIC_DWORDS: usize = 8;

    pub open spec fn bit_fields() -> Seq<BitField> {
        seq![BitField { dw: 0, mask: 0x1, shift: 16 }, BitField { dw: 0, mask: 0x7f, shift: 25 }, BitField { dw: 7, mask: 0x1fff, shift: 0 }]
    }

    pub open spec fn join_fields() -> Seq<JoinField> {
        seq![JoinField { lo: 1, hi: 2 }, JoinField { lo: 3, hi: 4 }, JoinField { lo: 5, hi: 6 }]
    }

    pub open spec fn tail() -> Option<DynField> {
        None
    }

    pub open spec fn bit_values(self) -> Seq<u32> {
        seq![layout::bool_bit(self.loop_), self.op as u32, self.loop_interval as u32]
    }

    pub open spec fn join_values(self) -> Seq<u64> {
        seq![self.addr, self.src_data, self.compare_data]
    }

    pub open spec fn tail_data(self) -> Seq<u32> {
        Seq::<u32>::empty()
    }

    /// Every field value fits its field.
    pub open spec fn fits(self) -> bool {
        layout::fields_fit(Self::bit_fields(), self.bit_values()) && layout::tail_fits(Self::tail(), self.tail_data())
    }

    pub open spec fn layout_wf() -> bool {
        layout::layout_wf(Self::bit_fields(), Self::join_fields(), Self::tail(), Self::STATIC_DWORDS as nat)
    }

    /// Dwords that the packet takes.
    pub open spec fn size(self) -> nat {
        (Self::STATIC_DWORDS + self.tail_data().len()) as nat
    }

    /// The buffer holds the whole packet.
    pub open spec fn decodable(buf: Seq<u32>) -> bool {
        buf.len() >= Self::STATIC_DWORDS
    }

    pub open spec fn spec_encode(self, buf: Seq<u32>) -> Seq<u32> {
        layout::encode_packet(
            buf,
            Self::bit_fields(),
            self.bit_values(),
            Self::join_fields(),
            self.join_values(),
            Self::tail(),
            self.tail_data(),
        )
    }

    /// `buf` holds this packet.
    pub open spec fn read_from(self, buf: Seq<u32>) -> bool {
        layout::packet_reads(
            buf,
            Self::bit_fields(),
            self.bit_values(),
            Self::join_fields(),
            self.join_values(),
            Self::tail(),
            self.tail_data(),
        )
    }

    fn exec_bit_fields() -> (r: Vec<BitField>)
        ensures
            r@ == Self::bit_fields(),
    {
        vec![BitField { dw: 0, mask: 0x1, shift: 16 }, BitField { dw: 0, mask: 0x7f, shift: 25 }, BitField { dw: 7, mask: 0x1fff, shift: 0 }]
    }

    fn exec_join_fields() -> (r: Vec<JoinField>)
        ensures
            r@ == Self::join_fields(),
    {
        vec![JoinField { lo: 1, hi: 2 }, JoinField { lo: 3, hi: 4 }, JoinField { lo: 5, hi: 6 }]
    }

    /// Whether the field layout of this packet is well formed.
    pub fn layout_ok() -> (r: bool)
        ensures
            r == Self::layout_wf(),
    {
        layout_is_wf(&Self::exec_bit_fields(), &Self::exec_join_fields(), None, Self::STATIC_DWORDS)
    }

    /// Writes the packet to the start of `buff`, without its header, and
    /// returns how many dwords it took.
    pub fn partial_encode_linear(&self, buff: &mut [u32]) -> (n: usize)
        requires
            old(buff)@.len() >= self.size(),
            self.fits(),
        ensures
            n == self.size(),
            final(buff)@ == self.spec_encode(old(buff)@),
            final(buff)@.len() == old(buff)@.len(),
    {
        let bits = Self::exec_bit_fields();
        let vals: Vec<u32> = vec![to_bit(self.loop_), layout::widen_u8(self.op), layout::widen_u16(self.loop_interval)];
        let joins = Self::exec_join_fields();
        let jvals: Vec<u64> = vec![self.addr, self.src_data, self.compare_data];
        proof {
            assert(vals@ =~= self.bit_values());
            assert(jvals@ =~= self.join_values());
        }
        encode_bit_fields(&bits, &vals, buff);
        encode_join_fields(&joins, &jvals, buff);
        Self::STATIC_DWORDS
    }

    /// Reads the packet at the start of `buff` and returns how many dwords it
    /// took.
    pub fn partial_decode_linear(buff: &[u32]) -> (r: (usize, Self))
        requires
            Self::decodable(buff@),
        ensures
            r.0 == r.1.size(),
            r.1.read_from(buff@),
    {
        let bits = Self::exec_bit_fields();
        let v = decode_bit_fields(&bits, buff);
        let joins = Self::exec_join_fields();
        let j = decode_join_fields(&joins, buff);
        let p = Self { loop_: v[0] != 0, op: layout::narrow_u8(v[1]), loop_interval: layout::narrow_u16(v[2]), addr: j[0], src_data: j[1], compare_data: j[2] };
        proof {
            assert(p.bit_values() =~= v@);
            assert(p.join_values() =~= j@);
        }
        (Self::STATIC_DWORDS, p)
    }

    /// Where each field stands in a buffer that the packet is read from, as
    /// the packet header lays it out: a bit field under its mask and shift
    /// in its dword, a 64-bit field in two dwords, low half first. By
    /// `lemma_roundtrip`, encoding a packet puts its fields there.
    pub proof fn lemma_field_positions(self, buf: Seq<u32>)
        requires
            self.read_from(buf),
        ensures
            layout::bool_bit(self.loop_) == layout::get_bits(buf[0], 0x1, 16),
            layout::u8_value(self.op) == layout::get_bits(buf[0], 0x7f, 25),
            layout::u16_value(self.loop_interval) == layout::get_bits(buf[7], 0x1fff, 0),
            self.addr == layout::dword_pair(buf[1], buf[2]),
            self.src_data == layout::dword_pair(buf[3], buf[4]),
            self.compare_data == layout::dword_pair(buf[5], buf[6]),
    {
        assert(self.bit_values()[0] == layout::bool_bit(self.loop_));
        assert(layout::decode_bits(buf, Self::bit_fields())[0] == self.bit_values()[0]);
        assert(self.bit_values()[1] == layout::u8_value(self.op));
        assert(layout::decode_bits(buf, Self::bit_fields())[1] == self.bit_values()[1]);
        assert(self.bit_values()[2] == layout::u16_value(self.loop_interval));
        assert(layout::decode_bits(buf, Self::bit_fields())[2] == self.bit_values()[2]);
        assert(layout::decode_joins(buf, Self::join_fields())[0] == self.join_values()[0]);
        assert(layout::decode_joins(buf, Self::join_fields())[1] == self.join_values()[1]);
        assert(layout::decode_joins(buf, Self::join_fields())[2] == self.join_values()[2]);
    }

    /// The field values name the packet: two packets with the same values are
    /// equal.
    pub proof fn lemma_values_determine(a: Self, b: Self)
        requires
            a.bit_values() == b.bit_values(),
            a.join_values() == b.join_values(),
            a.tail_data() == b.tail_data(),
        ensures
            a == b,
    {
        assert(a.bit_values()[0] == layout::bool_bit(a.loop_) && b.bit_values()[0] == layout::bool_bit(b.loop_));
        assert(a.bit_values()[1] == layout::u8_value(a.op) && b.bit_values()[1] == layout::u8_value(b.op));
        assert(a.bit_values()[2] == layout::u16_value(a.loop_interval) && b.bit_values()[2] == layout::u16_value(b.loop_interval));
        assert(a.join_values()[0] == a.addr && b.join_values()[0] == b.addr);
        assert(a.join_values()[1] == a.src_data && b.join_values()[1] == b.src_data);
        assert(a.join_values()[2] == a.compare_data && b.join_values()[2] == b.compare_data);
    }

    /// Reading a packet is exact: two packets read from one buffer are equal.
    pub proof fn lemma_read_unique(a: Self, b: Self, buf: Seq<u32>)
        requires
            a.read_from(buf),
            b.read_from(buf),
        ensures
            a == b,
    {
        layout::lemma_reads_determine(
            buf,
            Self::bit_fields(),
            a.bit_values(),
            b.bit_values(),
            Self::join_fields(),
            a.join_values(),
            b.join_values(),
            Self::tail(),
            a.tail_data(),
            b.tail_data(),
        );
        Self::lemma_values_determine(a, b);
    }

    /// A packet reads back from what it was encoded to.
    pub proof fn lemma_roundtrip(self, buf: Seq<u32>)
        requires
            Self::layout_wf(),
            self.fits(),
            buf.len() >= self.size(),
        ensures
            self.read_from(self.spec_encode(buf)),
            Self::decodable(self.spec_encode(buf)),
            self.spec_encode(buf).len() == buf.len(),
    {
        layout::lemma_packet_roundtrip(
            buf,
            Self::bit_fields(),
            self.bit_values(),
            Self::join_fields(),
            self.join_values(),
            Self::tail(),
            self.tail_data(),
            Self::STATIC_DWORDS as nat,
        );
    }
}

/// Any packet of this engine version, told apart by its header.
pub enum Pkt<'pkt> {
    CopyLinear(CopyLinear),
    CopyLinearBroadcast(CopyLinearBroadcast),
    CopyTiled(CopyTiled),
    CopyLinearToTiledBroadcast(CopyLinearToTiledBroadcast),
    Nop(Nop<'pkt>),
    CopyStruct(CopyStruct),
    CopyLinearSubWindow(CopyLinearSubWindow),
    CopyTiledSubWindow(CopyTiledSubWindow),
    CopyTiledToTiled(CopyTiledToTiled),
    WriteUntiled(WriteUntiled<'pkt>),
    WriteTiled(WriteTiled<'pkt>),
    IndirectBuffer(IndirectBuffer),
    Fence(Fence),
    Trap(Trap),
    Semaphore(Semaphore),
    PollRegmem(PollRegmem),
    CondExe(CondExe),
    Atomic(Atomic),
    ConstFill(ConstFill),
    GenPtepde(GenPtepde),
    TimestampSet(TimestampSet),
    TimestampGet(TimestampGet),
    TimestampGetGlobal(TimestampGetGlobal),
    SrbmWrite(SrbmWrite),
    PreExe(PreExe),
}

impl<'pkt> Pkt<'pkt> {
    /// The bits of dword 0 that the header takes, and their value.
    pub open spec fn header(self) -> (u32, u32) {
        match self {
            Pkt::CopyLinear(p) => ((0xffffu32 | (1u32 << 27u32)), (1u32 | (0u32 << 8u32) | (0u32 << 27u32))),
            Pkt::CopyLinearBroadcast(p) => ((0xffffu32 | (1u32 << 27u32)), (1u32 | (0u32 << 8u32) | (1u32 << 27u32))),
            Pkt::CopyTiled(p) => ((0xffffu32 | (1u32 << 27u32)), (1u32 | (1u32 << 8u32) | (0u32 << 27u32))),
            Pkt::CopyLinearToTiledBroadcast(p) => ((0xffffu32 | (1u32 << 27u32)), (1u32 | (1u32 << 8u32) | (1u32 << 27u32))),
            Pkt::Nop(p) => (0xffffu32, (0u32 | (0u32 << 8u32))),
            Pkt::CopyStruct(p) => (0xffffu32, (1u32 | (3u32 << 8u32))),
            Pkt::CopyLinearSubWindow(p) => (0xffffu32, (1u32 | (4u32 << 8u32))),
            Pkt::CopyTiledSubWindow(p) => (0xffffu32, (1u32 | (5u32 << 8u32))),
            Pkt::CopyTiledToTiled(p) => (0xffffu32, (1u32 | (6u32 << 8u32))),
            Pkt::WriteUntiled(p) => (0xffffu32, (2u32 | (0u32 << 8u32))),
            Pkt::WriteTiled(p) => (0xffffu32, (2u32 | (1u32 << 8u32))),
            Pkt::IndirectBuffer(p) => (0xffffu32, (4u32 | (0u32 << 8u32))),
            Pkt::Fence(p) => (0xffffu32, (5u32 | (0u32 << 8u32))),
            Pkt::Trap(p) => (0xffffu32, (6u32 | (0u32 << 8u32))),
            Pkt::Semaphore(p) => (0xffffu32, (7u32 | (0u32 << 8u32))),
            Pkt::PollRegmem(p) => (0xffffu32, (8u32 | (0u32 << 8u32))),
            Pkt::CondExe(p) => (0xffffu32, (9u32 | (0u32 << 8u32))),
            Pkt::Atomic(p) => (0xffffu32, (10u32 | (0u32 << 8u32))),
            Pkt::ConstFill(p) => (0xffffu32, (11u32 | (0u32 << 8u32))),
            Pkt::GenPtepde(p) => (0xffffu32, (12u32 | (0u32 << 8u32))),
            Pkt::TimestampSet(p) => (0xffffu32, (13u32 | (0u32 << 8u32))),
            Pkt::TimestampGet(p) => (0xffffu32, (13u32 | (1u32 << 8u32))),
            Pkt::TimestampGetGlobal(p) => (0xffffu32, (13u32 | (2u32 << 8u32))),
            Pkt::SrbmWrite(p) => (0xffffu32, (14u32 | (0u32 << 8u32))),
            Pkt::PreExe(p) => (0xffffu32, (15u32 | (0u32 << 8u32))),
        }
    }

    pub open spec fn size(self) -> nat {
        match self {
            Pkt::CopyLinear(p) => p.size(),
            Pkt::CopyLinearBroadcast(p) => p.size(),
            Pkt::CopyTiled(p) => p.size(),
            Pkt::CopyLinearToTiledBroadcast(p) => p.size(),
            Pkt::Nop(p) => p.size(),
            Pkt::CopyStruct(p) => p.size(),
            Pkt::CopyLinearSubWindow(p) => p.size(),
            Pkt::CopyTiledSubWindow(p) => p.size(),
            Pkt::CopyTiledToTiled(p) => p.size(),
            Pkt::WriteUntiled(p) => p.size(),
            Pkt::WriteTiled(p) => p.size(),
            Pkt::IndirectBuffer(p) => p.size(),
            Pkt::Fence(p) => p.size(),
            Pkt::Trap(p) => p.size(),
            Pkt::Semaphore(p) => p.size(),
            Pkt::PollRegmem(p) => p.size(),
            Pkt::CondExe(p) => p.size(),
            Pkt::Atomic(p) => p.size(),
            Pkt::ConstFill(p) => p.size(),
            Pkt::GenPtepde(p) => p.size(),
            Pkt::TimestampSet(p) => p.size(),
            Pkt::TimestampGet(p) => p.size(),
            Pkt::TimestampGetGlobal(p) => p.size(),
            Pkt::SrbmWrite(p) => p.size(),
            Pkt::PreExe(p) => p.size(),
        }
    }

    pub open spec fn fits(self) -> bool {
        match self {
            Pkt::CopyLinear(p) => p.fits(),
            Pkt::CopyLinearBroadcast(p) => p.fits(),
            Pkt::CopyTiled(p) => p.fits(),
            Pkt::CopyLinearToTiledBroadcast(p) => p.fits(),
            Pkt::Nop(p) => p.fits(),
            Pkt::CopyStruct(p) => p.fits(),
            Pkt::CopyLinearSubWindow(p) => p.fits(),
            Pkt::CopyTiledSubWindow(p) => p.fits(),
            Pkt::CopyTiledToTiled(p) => p.fits(),
            Pkt::WriteUntiled(p) => p.fits(),
            Pkt::WriteTiled(p) => p.fits(),
            Pkt::IndirectBuffer(p) => p.fits(),
            Pkt::Fence(p) => p.fits(),
            Pkt::Trap(p) => p.fits(),
            Pkt::Semaphore(p) => p.fits(),
            Pkt::PollRegmem(p) => p.fits(),
            Pkt::CondExe(p) => p.fits(),
            Pkt::Atomic(p) => p.fits(),
            Pkt::ConstFill(p) => p.fits(),
            Pkt::GenPtepde(p) => p.fits(),
            Pkt::TimestampSet(p) => p.fits(),
            Pkt::TimestampGet(p) => p.fits(),
            Pkt::TimestampGetGlobal(p) => p.fits(),
            Pkt::SrbmWrite(p) => p.fits(),
            Pkt::PreExe(p) => p.fits(),
        }
    }

    pub open spec fn layout_wf(self) -> bool {
        match self {
            Pkt::CopyLinear(p) => CopyLinear::layout_wf(),
            Pkt::CopyLinearBroadcast(p) => CopyLinearBroadcast::layout_wf(),
            Pkt::CopyTiled(p) => CopyTiled::layout_wf(),
            Pkt::CopyLinearToTiledBroadcast(p) => CopyLinearToTiledBroadcast::layout_wf(),
            Pkt::Nop(p) => Nop::layout_wf(),
            Pkt::CopyStruct(p) => CopyStruct::layout_wf(),
            Pkt::CopyLinearSubWindow(p) => CopyLinearSubWindow::layout_wf(),
            Pkt::CopyTiledSubWindow(p) => CopyTiledSubWindow::layout_wf(),
            Pkt::CopyTiledToTiled(p) => CopyTiledToTiled::layout_wf(),
            Pkt::WriteUntiled(p) => WriteUntiled::layout_wf(),
            Pkt::WriteTiled(p) => WriteTiled::layout_wf(),
            Pkt::IndirectBuffer(p) => IndirectBuffer::layout_wf(),
            Pkt::Fence(p) => Fence::layout_wf(),
            Pkt::Trap(p) => Trap::layout_wf(),
            Pkt::Semaphore(p) => Semaphore::layout_wf(),
            Pkt::PollRegmem(p) => PollRegmem::layout_wf(),
            Pkt::CondExe(p) => CondExe::layout_wf(),
            Pkt::Atomic(p) => Atomic::layout_wf(),
            Pkt::ConstFill(p) => ConstFill::layout_wf(),
            Pkt::GenPtepde(p) => GenPtepde::layout_wf(),
            Pkt::TimestampSet(p) => TimestampSet::layout_wf(),
            Pkt::TimestampGet(p) => TimestampGet::layout_wf(),
            Pkt::TimestampGetGlobal(p) => TimestampGetGlobal::layout_wf(),
            Pkt::SrbmWrite(p) => SrbmWrite::layout_wf(),
            Pkt::PreExe(p) => PreExe::layout_wf(),
        }
    }

    /// No field of the packet is spoiled by its header.
    pub open spec fn header_compatible(self) -> bool {
        match self {
            Pkt::CopyLinear(p) => layout::header_compatible(CopyLinear::bit_fields(), p.bit_values(), CopyLinear::tail(), self.header().0, self.header().1),
            Pkt::CopyLinearBroadcast(p) => layout::header_compatible(CopyLinearBroadcast::bit_fields(), p.bit_values(), CopyLinearBroadcast::tail(), self.header().0, self.header().1),
            Pkt::CopyTiled(p) => layout::header_compatible(CopyTiled::bit_fields(), p.bit_values(), CopyTiled::tail(), self.header().0, self.header().1),
            Pkt::CopyLinearToTiledBroadcast(p) => layout::header_compatible(CopyLinearToTiledBroadcast::bit_fields(), p.bit_values(), CopyLinearToTiledBroadcast::tail(), self.header().0, self.header().1),
            Pkt::Nop(p) => layout::header_compatible(Nop::bit_fields(), p.bit_values(), Nop::tail(), self.header().0, self.header().1),
            Pkt::CopyStruct(p) => layout::header_compatible(CopyStruct::bit_fields(), p.bit_values(), CopyStruct::tail(), self.header().0, self.header().1),
            Pkt::CopyLinearSubWindow(p) => layout::header_compatible(CopyLinearSubWindow::bit_fields(), p.bit_values(), CopyLinearSubWindow::tail(), self.header().0, self.header().1),
            Pkt::CopyTiledSubWindow(p) => layout::header_compatible(CopyTiledSubWindow::bit_fields(), p.bit_values(), CopyTiledSubWindow::tail(), self.header().0, self.header().1),
            Pkt::CopyTiledToTiled(p) => layout::header_compatible(CopyTiledToTiled::bit_fields(), p.bit_values(), CopyTiledToTiled::tail(), self.header().0, self.header().1),
            Pkt::WriteUntiled(p) => layout::header_compatible(WriteUntiled::bit_fields(), p.bit_values(), WriteUntiled::tail(), self.header().0, self.header().1),
            Pkt::WriteTiled(p) => layout::header_compatible(WriteTiled::bit_fields(), p.bit_values(), WriteTiled::tail(), self.header().0, self.header().1),
            Pkt::IndirectBuffer(p) => layout::header_compatible(IndirectBuffer::bit_fields(), p.bit_values(), IndirectBuffer::tail(), self.header().0, self.header().1),
            Pkt::Fence(p) => layout::header_compatible(Fence::bit_fields(), p.bit_values(), Fence::tail(), self.header().0, self.header().1),
            Pkt::Trap(p) => layout::header_compatible(Trap::bit_fields(), p.bit_values(), Trap::tail(), self.header().0, self.header().1),
            Pkt::Semaphore(p) => layout::header_compatible(Semaphore::bit_fields(), p.bit_values(), Semaphore::tail(), self.header().0, self.header().1),
            Pkt::PollRegmem(p) => layout::header_compatible(PollRegmem::bit_fields(), p.bit_values(), PollRegmem::tail(), self.header().0, self.header().1),
            Pkt::CondExe(p) => layout::header_compatible(CondExe::bit_fields(), p.bit_values(), CondExe::tail(), self.header().0, self.header().1),
            Pkt::Atomic(p) => layout::header_compatible(Atomic::bit_fields(), p.bit_values(), Atomic::tail(), self.header().0, self.header().1),
            Pkt::ConstFill(p) => layout::header_compatible(ConstFill::bit_fields(), p.bit_values(), ConstFill::tail(), self.header().0, self.header().1),
            Pkt::GenPtepde(p) => layout::header_compatible(GenPtepde::bit_fields(), p.bit_values(), GenPtepde::tail(), self.header().0, self.header().1),
            Pkt::TimestampSet(p) => layout::header_compatible(TimestampSet::bit_fields(), p.bit_values(), TimestampSet::tail(), self.header().0, self.header().1),
            Pkt::TimestampGet(p) => layout::header_compatible(TimestampGet::bit_fields(), p.bit_values(), TimestampGet::tail(), self.header().0, self.header().1),
            Pkt::TimestampGetGlobal(p) => layout::header_compatible(TimestampGetGlobal::bit_fields(), p.bit_values(), TimestampGetGlobal::tail(), self.header().0, self.header().1),
            Pkt::SrbmWrite(p) => layout::header_compatible(SrbmWrite::bit_fields(), p.bit_values(), SrbmWrite::tail(), self.header().0, self.header().1),
            Pkt::PreExe(p) => layout::header_compatible(PreExe::bit_fields(), p.bit_values(), PreExe::tail(), self.header().0, self.header().1),
        }
    }

    pub open spec fn spec_encode(self, buf: Seq<u32>) -> Seq<u32> {
        match self {
            Pkt::CopyLinear(p) => layout::write_header(p.spec_encode(buf), self.header().0, self.header().1),
            Pkt::CopyLinearBroadcast(p) => layout::write_header(p.spec_encode(buf), self.header().0, self.header().1),
            Pkt::CopyTiled(p) => layout::write_header(p.spec_encode(buf), self.header().0, self.header().1),
            Pkt::CopyLinearToTiledBroadcast(p) => layout::write_header(p.spec_encode(buf), self.header().0, self.header().1),
            Pkt::Nop(p) => layout::write_header(p.spec_encode(buf), self.header().0, self.header().1),
            Pkt::CopyStruct(p) => layout::write_header(p.spec_encode(buf), self.header().0, self.header().1),
            Pkt::CopyLinearSubWindow(p) => layout::write_header(p.spec_encode(buf), self.header().0, self.header().1),
            Pkt::CopyTiledSubWindow(p) => layout::write_header(p.spec_encode(buf), self.header().0, self.header().1),
            Pkt::CopyTiledToTiled(p) => layout::write_header(p.spec_encode(buf), self.header().0, self.header().1),
            Pkt::WriteUntiled(p) => layout::write_header(p.spec_encode(buf), self.header().0, self.header().1),
            Pkt::WriteTiled(p) => layout::write_header(p.spec_encode(buf), self.header().0, self.header().1),
            Pkt::IndirectBuffer(p) => layout::write_header(p.spec_encode(buf), self.header().0, self.header().1),
            Pkt::Fence(p) => layout::write_header(p.spec_encode(buf), self.header().0, self.header().1),
            Pkt::Trap(p) => layout::write_header(p.spec_encode(buf), self.header().0, self.header().1),
            Pkt::Semaphore(p) => layout::write_header(p.spec_encode(buf), self.header().0, self.header().1),
            Pkt::PollRegmem(p) => layout::write_header(p.spec_encode(buf), self.header().0, self.header().1),
            Pkt::CondExe(p) => layout::write_header(p.spec_encode(buf), self.header().0, self.header().1),
            Pkt::Atomic(p) => layout::write_header(p.spec_encode(buf), self.header().0, self.header().1),
            Pkt::ConstFill(p) => layout::write_header(p.spec_encode(buf), self.header().0, self.header().1),
            Pkt::GenPtepde(p) => layout::write_header(p.spec_encode(buf), self.header().0, self.header().1),
            Pkt::TimestampSet(p) => layout::write_header(p.spec_encode(buf), self.header().0, self.header().1),
            Pkt::TimestampGet(p) => layout::write_header(p.spec_encode(buf), self.header().0, self.header().1),
            Pkt::TimestampGetGlobal(p) => layout::write_header(p.spec_encode(buf), self.header().0, self.header().1),
            Pkt::SrbmWrite(p) => layout::write_header(p.spec_encode(buf), self.header().0, self.header().1),
            Pkt::PreExe(p) => layout::write_header(p.spec_encode(buf), self.header().0, self.header().1),
        }
    }

    /// `buf` starts with this packet, header included.
    pub open spec fn read_from(self, buf: Seq<u32>) -> bool {
        buf.len() > 0 && {
            let h = buf[0];
            match self {
                Pkt::CopyLinear(p) => layout::header_op(h) == 1 && layout::header_subop(h) == 0 && layout::header_extra(h) == 0 && p.read_from(buf),
                Pkt::CopyLinearBroadcast(p) => layout::header_op(h) == 1 && layout::header_subop(h) == 0 && layout::header_extra(h) == 1 && p.read_from(buf),
                Pkt::CopyTiled(p) => layout::header_op(h) == 1 && layout::header_subop(h) == 1 && layout::header_extra(h) == 0 && p.read_from(buf),
                Pkt::CopyLinearToTiledBroadcast(p) => layout::header_op(h) == 1 && layout::header_subop(h) == 1 && layout::header_extra(h) == 1 && p.read_from(buf),
                Pkt::Nop(p) => layout::header_op(h) == 0 && layout::header_subop(h) == 0 && p.read_from(buf),
                Pkt::CopyStruct(p) => layout::header_op(h) == 1 && layout::header_subop(h) == 3 && p.read_from(buf),
                Pkt::CopyLinearSubWindow(p) => layout::header_op(h) == 1 && layout::header_subop(h) == 4 && p.read_from(buf),
                Pkt::CopyTiledSubWindow(p) => layout::header_op(h) == 1 && layout::header_subop(h) == 5 && p.read_from(buf),
                Pkt::CopyTiledToTiled(p) => layout::header_op(h) == 1 && layout::header_subop(h) == 6 && p.read_from(buf),
                Pkt::WriteUntiled(p) => layout::header_op(h) == 2 && layout::header_subop(h) == 0 && p.read_from(buf),
                Pkt::WriteTiled(p) => layout::header_op(h) == 2 && layout::header_subop(h) == 1 && p.read_from(buf),
                Pkt::IndirectBuffer(p) => layout::header_op(h) == 4 && layout::header_subop(h) == 0 && p.read_from(buf),
                Pkt::Fence(p) => layout::header_op(h) == 5 && layout::header_subop(h) == 0 && p.read_from(buf),
                Pkt::Trap(p) => layout::header_op(h) == 6 && layout::header_subop(h) == 0 && p.read_from(buf),
                Pkt::Semaphore(p) => layout::header_op(h) == 7 && layout::header_subop(h) == 0 && p.read_from(buf),
                Pkt::PollRegmem(p) => layout::header_op(h) == 8 && layout::header_subop(h) == 0 && p.read_from(buf),
                Pkt::CondExe(p) => layout::header_op(h) == 9 && layout::header_subop(h) == 0 && p.read_from(buf),
                Pkt::Atomic(p) => layout::header_op(h) == 10 && layout::header_subop(h) == 0 && p.read_from(buf),
                Pkt::ConstFill(p) => layout::header_op(h) == 11 && layout::header_subop(h) == 0 && p.read_from(buf),
                Pkt::GenPtepde(p) => layout::header_op(h) == 12 && layout::header_subop(h) == 0 && p.read_from(buf),
                Pkt::TimestampSet(p) => layout::header_op(h) == 13 && layout::header_subop(h) == 0 && p.read_from(buf),
                Pkt::TimestampGet(p) => layout::header_op(h) == 13 && layout::header_subop(h) == 1 && p.read_from(buf),
                Pkt::TimestampGetGlobal(p) => layout::header_op(h) == 13 && layout::header_subop(h) == 2 && p.read_from(buf),
                Pkt::SrbmWrite(p) => layout::header_op(h) == 14 && layout::header_subop(h) == 0 && p.read_from(buf),
                Pkt::PreExe(p) => layout::header_op(h) == 15 && layout::header_subop(h) == 0 && p.read_from(buf),
            }
        }
    }

    /// The buffer starts with a header this version knows and holds the
    /// whole packet it announces.
    pub open spec fn decodable(buf: Seq<u32>) -> bool {
        buf.len() > 0 && {
            let h = buf[0];
            if layout::header_op(h) == 1 && layout::header_subop(h) == 0 {
                if layout::header_extra(h) == 0 {
                    CopyLinear::decodable(buf)
                } else if layout::header_extra(h) == 1 {
                    CopyLinearBroadcast::decodable(buf)
                } else {
                    false
                }
            } else if layout::header_op(h) == 1 && layout::header_subop(h) == 1 {
                if layout::header_extra(h) == 0 {
                    CopyTiled::decodable(buf)
                } else if layout::header_extra(h) == 1 {
                    CopyLinearToTiledBroadcast::decodable(buf)
                } else {
                    false
                }
            } else if layout::header_op(h) == 0 && layout::header_subop(h) == 0 {
                Nop::decodable(buf)
            } else if layout::header_op(h) == 1 && layout::header_subop(h) == 3 {
                CopyStruct::decodable(buf)
            } else if layout::header_op(h) == 1 && layout::header_subop(h) == 4 {
                CopyLinearSubWindow::decodable(buf)
            } else if layout::header_op(h) == 1 && layout::header_subop(h) == 5 {
                CopyTiledSubWindow::decodable(buf)
            } else if layout::header_op(h) == 1 && layout::header_subop(h) == 6 {
                CopyTiledToTiled::decodable(buf)
            } else if layout::header_op(h) == 2 && layout::header_subop(h) == 0 {
                WriteUntiled::decodable(buf)
            } else if layout::header_op(h) == 2 && layout::header_subop(h) == 1 {
                WriteTiled::decodable(buf)
            } else if layout::header_op(h) == 4 && layout::header_subop(h) == 0 {
                IndirectBuffer::decodable(buf)
            } else if layout::header_op(h) == 5 && layout::header_subop(h) == 0 {
                Fence::decodable(buf)
            } else if layout::header_op(h) == 6 && layout::header_subop(h) == 0 {
                Trap::decodable(buf)
            } else if layout::header_op(h) == 7 && layout::header_subop(h) == 0 {
                Semaphore::decodable(buf)
            } else if layout::header_op(h) == 8 && layout::header_subop(h) == 0 {
                PollRegmem::decodable(buf)
            } else if layout::header_op(h) == 9 && layout::header_subop(h) == 0 {
                CondExe::decodable(buf)
            } else if layout::header_op(h) == 10 && layout::header_subop(h) == 0 {
                Atomic::decodable(buf)
            } else if layout::header_op(h) == 11 && layout::header_subop(h) == 0 {
                ConstFill::decodable(buf)
            } else if layout::header_op(h) == 12 && layout::header_subop(h) == 0 {
                GenPtepde::decodable(buf)
            } else if layout::header_op(h) == 13 && layout::header_subop(h) == 0 {
                TimestampSet::decodable(buf)
            } else if layout::header_op(h) == 13 && layout::header_subop(h) == 1 {
                TimestampGet::decodable(buf)
            } else if layout::header_op(h) == 13 && layout::header_subop(h) == 2 {
                TimestampGetGlobal::decodable(buf)
            } else if layout::header_op(h) == 14 && layout::header_subop(h) == 0 {
                SrbmWrite::decodable(buf)
            } else if layout::header_op(h) == 15 && layout::header_subop(h) == 0 {
                PreExe::decodable(buf)
            } else {
                false
            }
        }
    }

    /// Writes the packet, header included, to the start of `buff` and
    /// returns how many dwords it took.
    pub fn encode_linear(&self, buff: &mut [u32]) -> (n: usize)
        requires
            old(buff)@.len() >= self.size(),
            self.fits(),
        ensures
            n == self.size(),
            final(buff)@ == self.spec_encode(old(buff)@),
    {
        match self {
            Pkt::CopyLinear(p) => {
                let n = p.partial_encode_linear(buff);
                put_header(buff, (0xffffu32 | (1u32 << 27u32)), (1u32 | (0u32 << 8u32) | (0u32 << 27u32)));
                n
            },
            Pkt::CopyLinearBroadcast(p) => {
                let n = p.partial_encode_linear(buff);
                put_header(buff, (0xffffu32 | (1u32 << 27u32)), (1u32 | (0u32 << 8u32) | (1u32 << 27u32)));
                n
            },
            Pkt::CopyTiled(p) => {
                let n = p.partial_encode_linear(buff);
                put_header(buff, (0xffffu32 | (1u32 << 27u32)), (1u32 | (1u32 << 8u32) | (0u32 << 27u32)));
                n
            },
            Pkt::CopyLinearToTiledBroadcast(p) => {
                let n = p.partial_encode_linear(buff);
                put_header(buff, (0xffffu32 | (1u32 << 27u32)), (1u32 | (1u32 << 8u32) | (1u32 << 27u32)));
                n
            },
            Pkt::Nop(p) => {
                let n = p.partial_encode_linear(buff);
                put_header(buff, 0xffffu32, (0u32 | (0u32 << 8u32)));
                n
            },
            Pkt::CopyStruct(p) => {
                let n = p.partial_encode_linear(buff);
                put_header(buff, 0xffffu32, (1u32 | (3u32 << 8u32)));
                n
            },
            Pkt::CopyLinearSubWindow(p) => {
                let n = p.partial_encode_linear(buff);
                put_header(buff, 0xffffu32, (1u32 | (4u32 << 8u32)));
                n
            },
            Pkt::CopyTiledSubWindow(p) => {
                let n = p.partial_encode_linear(buff);
                put_header(buff, 0xffffu32, (1u32 | (5u32 << 8u32)));
                n
            },
            Pkt::CopyTiledToTiled(p) => {
                let n = p.partial_encode_linear(buff);
                put_header(buff, 0xffffu32, (1u32 | (6u32 << 8u32)));
                n
            },
            Pkt::WriteUntiled(p) => {
                let n = p.partial_encode_linear(buff);
                put_header(buff, 0xffffu32, (2u32 | (0u32 << 8u32)));
                n
            },
            Pkt::WriteTiled(p) => {
                let n = p.partial_encode_linear(buff);
                put_header(buff, 0xffffu32, (2u32 | (1u32 << 8u32)));
                n
            },
            Pkt::IndirectBuffer(p) => {
                let n = p.partial_encode_linear(buff);
                put_header(buff, 0xffffu32, (4u32 | (0u32 << 8u32)));
                n
            },
            Pkt::Fence(p) => {
                let n = p.partial_encode_linear(buff);
                put_header(buff, 0xffffu32, (5u32 | (0u32 << 8u32)));
                n
            },
            Pkt::Trap(p) => {
                let n = p.partial_encode_linear(buff);
                put_header(buff, 0xffffu32, (6u32 | (0u32 << 8u32)));
                n
            },
            Pkt::Semaphore(p) => {
                let n = p.partial_encode_linear(buff);
                put_header(buff, 0xffffu32, (7u32 | (0u32 << 8u32)));
                n
            },
            Pkt::PollRegmem(p) => {
                let n = p.partial_encode_linear(buff);
                put_header(buff, 0xffffu32, (8u32 | (0u32 << 8u32)));
                n
            },
            Pkt::CondExe(p) => {
                let n = p.partial_encode_linear(buff);
                put_header(buff, 0xffffu32, (9u32 | (0u32 << 8u32)));
                n
            },
            Pkt::Atomic(p) => {
                let n = p.partial_encode_linear(buff);
                put_header(buff, 0xffffu32, (10u32 | (0u32 << 8u32)));
                n
            },
            Pkt::ConstFill(p) => {
                let n = p.partial_encode_linear(buff);
                put_header(buff, 0xffffu32, (11u32 | (0u32 << 8u32)));
                n
            },
            Pkt::GenPtepde(p) => {
                let n = p.partial_encode_linear(buff);
                put_header(buff, 0xffffu32, (12u32 | (0u32 << 8u32)));
                n
            },
            Pkt::TimestampSet(p) => {
                let n = p.partial_encode_linear(buff);
                put_header(buff, 0xffffu32, (13u32 | (0u32 << 8u32)));
                n
            },
            Pkt::TimestampGet(p) => {
                let n = p.partial_encode_linear(buff);
                put_header(buff, 0xffffu32, (13u32 | (1u32 << 8u32)));
                n
            },
            Pkt::TimestampGetGlobal(p) => {
                let n = p.partial_encode_linear(buff);
                put_header(buff, 0xffffu32, (13u32 | (2u32 << 8u32)));
                n
            },
            Pkt::SrbmWrite(p) => {
                let n = p.partial_encode_linear(buff);
                put_header(buff, 0xffffu32, (14u32 | (0u32 << 8u32)));
                n
            },
            Pkt::PreExe(p) => {
                let n = p.partial_encode_linear(buff);
                put_header(buff, 0xffffu32, (15u32 | (0u32 << 8u32)));
                n
            },
        }
    }

    /// Reads the packet at the start of `buff`, whichever it is, and returns
    /// how many dwords it took.
    pub fn decode_linear(buff: &'pkt [u32]) -> (r: Option<(usize, Pkt<'pkt>)>)
        requires
            Self::decodable(buff@),
        ensures
            r matches Some((n, p)) && n == p.size() && p.read_from(buff@),
    {
        let header = buff[0];
        let op = header & 0xff;
        let subop = (header >> 8) & 0xff;
        if op == 1 && subop == 0 {
            let extra = (header >> 27) & 1;
            if extra == 0 {
                let (n, p) = CopyLinear::partial_decode_linear(buff);
                Some((n, Pkt::CopyLinear(p)))
            } else if extra == 1 {
                let (n, p) = CopyLinearBroadcast::partial_decode_linear(buff);
                Some((n, Pkt::CopyLinearBroadcast(p)))
            } else {
                None
            }
        } else if op == 1 && subop == 1 {
            let extra = (header >> 27) & 1;
            if extra == 0 {
                let (n, p) = CopyTiled::partial_decode_linear(buff);
                Some((n, Pkt::CopyTiled(p)))
            } else if extra == 1 {
                let (n, p) = CopyLinearToTiledBroadcast::partial_decode_linear(buff);
                Some((n, Pkt::CopyLinearToTiledBroadcast(p)))
            } else {
                None
            }
        } else if op == 0 && subop == 0 {
            let (n, p) = Nop::partial_decode_linear(buff);
            Some((n, Pkt::Nop(p)))
        } else if op == 1 && subop == 3 {
            let (n, p) = CopyStruct::partial_decode_linear(buff);
            Some((n, Pkt::CopyStruct(p)))
        } else if op == 1 && subop == 4 {
            let (n, p) = CopyLinearSubWindow::partial_decode_linear(buff);
            Some((n, Pkt::CopyLinearSubWindow(p)))
        } else if op == 1 && subop == 5 {
            let (n, p) = CopyTiledSubWindow::partial_decode_linear(buff);
            Some((n, Pkt::CopyTiledSubWindow(p)))
        } else if op == 1 && subop == 6 {
            let (n, p) = CopyTiledToTiled::partial_decode_linear(buff);
            Some((n, Pkt::CopyTiledToTiled(p)))
        } else if op == 2 && subop == 0 {
            let (n, p) = WriteUntiled::partial_decode_linear(buff);
            Some((n, Pkt::WriteUntiled(p)))
        } else if op == 2 && subop == 1 {
            let (n, p) = WriteTiled::partial_decode_linear(buff);
            Some((n, Pkt::WriteTiled(p)))
        } else if op == 4 && subop == 0 {
            let (n, p) = IndirectBuffer::partial_decode_linear(buff);
            Some((n, Pkt::IndirectBuffer(p)))
        } else if op == 5 && subop == 0 {
            let (n, p) = Fence::partial_decode_linear(buff);
            Some((n, Pkt::Fence(p)))
        } else if op == 6 && subop == 0 {
            let (n, p) = Trap::partial_decode_linear(buff);
            Some((n, Pkt::Trap(p)))
        } else if op == 7 && subop == 0 {
            let (n, p) = Semaphore::partial_decode_linear(buff);
            Some((n, Pkt::Semaphore(p)))
        } else if op == 8 && subop == 0 {
            let (n, p) = PollRegmem::partial_decode_linear(buff);
            Some((n, Pkt::PollRegmem(p)))
        } else if op == 9 && subop == 0 {
            let (n, p) = CondExe::partial_decode_linear(buff);
            Some((n, Pkt::CondExe(p)))
        } else if op == 10 && subop == 0 {
            let (n, p) = Atomic::partial_decode_linear(buff);
            Some((n, Pkt::Atomic(p)))
        } else if op == 11 && subop == 0 {
            let (n, p) = ConstFill::partial_decode_linear(buff);
            Some((n, Pkt::ConstFill(p)))
        } else if op == 12 && subop == 0 {
            let (n, p) = GenPtepde::partial_decode_linear(buff);
            Some((n, Pkt::GenPtepde(p)))
        } else if op == 13 && subop == 0 {
            let (n, p) = TimestampSet::partial_decode_linear(buff);
            Some((n, Pkt::TimestampSet(p)))
        } else if op == 13 && subop == 1 {
            let (n, p) = TimestampGet::partial_decode_linear(buff);
            Some((n, Pkt::TimestampGet(p)))
        } else if op == 13 && subop == 2 {
            let (n, p) = TimestampGetGlobal::partial_decode_linear(buff);
            Some((n, Pkt::TimestampGetGlobal(p)))
        } else if op == 14 && subop == 0 {
            let (n, p) = SrbmWrite::partial_decode_linear(buff);
            Some((n, Pkt::SrbmWrite(p)))
        } else if op == 15 && subop == 0 {
            let (n, p) = PreExe::partial_decode_linear(buff);
            Some((n, Pkt::PreExe(p)))
        } else {
            None
        }
    }

    /// Decoding gives back what was encoded: the packet that `encode_linear`
    /// writes is one that `decode_linear` accepts and reads back (and, by
    /// `lemma_read_unique`, the only one).
    #[verifier::spinoff_prover]
    #[verifier::rlimit(80)]
    pub proof fn lemma_roundtrip(self, buf: Seq<u32>)
        requires
            self.layout_wf(),
            self.fits(),
            self.header_compatible(),
            buf.len() >= self.size(),
        ensures
            Self::decodable(self.spec_encode(buf)),
            self.read_from(self.spec_encode(buf)),
    {
        match self {
            Pkt::CopyLinear(p) => {
                layout::lemma_packet_roundtrip(buf, CopyLinear::bit_fields(), p.bit_values(), CopyLinear::join_fields(), p.join_values(), CopyLinear::tail(), p.tail_data(), CopyLinear::STATIC_DWORDS as nat);
                let enc = p.spec_encode(buf);
                layout::lemma_header_keeps_packet(enc, CopyLinear::bit_fields(), p.bit_values(), CopyLinear::join_fields(), p.join_values(), CopyLinear::tail(), p.tail_data(), CopyLinear::STATIC_DWORDS as nat, (0xffffu32 | (1u32 << 27u32)), (1u32 | (0u32 << 8u32) | (0u32 << 27u32)));
                layout::lemma_extra_header(enc[0], 1u32, 0u32, 0u32);
            },
            Pkt::CopyLinearBroadcast(p) => {
                layout::lemma_packet_roundtrip(buf, CopyLinearBroadcast::bit_fields(), p.bit_values(), CopyLinearBroadcast::join_fields(), p.join_values(), CopyLinearBroadcast::tail(), p.tail_data(), CopyLinearBroadcast::STATIC_DWORDS as nat);
                let enc = p.spec_encode(buf);
                layout::lemma_header_keeps_packet(enc, CopyLinearBroadcast::bit_fields(), p.bit_values(), CopyLinearBroadcast::join_fields(), p.join_values(), CopyLinearBroadcast::tail(), p.tail_data(), CopyLinearBroadcast::STATIC_DWORDS as nat, (0xffffu32 | (1u32 << 27u32)), (1u32 | (0u32 << 8u32) | (1u32 << 27u32)));
                layout::lemma_extra_header(enc[0], 1u32, 0u32, 1u32);
            },
            Pkt::CopyTiled(p) => {
                layout::lemma_packet_roundtrip(buf, CopyTiled::bit_fields(), p.bit_values(), CopyTiled::join_fields(), p.join_values(), CopyTiled::tail(), p.tail_data(), CopyTiled::STATIC_DWORDS as nat);
                let enc = p.spec_encode(buf);
                layout::lemma_header_keeps_packet(enc, CopyTiled::bit_fields(), p.bit_values(), CopyTiled::join_fields(), p.join_values(), CopyTiled::tail(), p.tail_data(), CopyTiled::STATIC_DWORDS as nat, (0xffffu32 | (1u32 << 27u32)), (1u32 | (1u32 << 8u32) | (0u32 << 27u32)));
                layout::lemma_extra_header(enc[0], 1u32, 1u32, 0u32);
            },
            Pkt::CopyLinearToTiledBroadcast(p) => {
                layout::lemma_packet_roundtrip(buf, CopyLinearToTiledBroadcast::bit_fields(), p.bit_values(), CopyLinearToTiledBroadcast::join_fields(), p.join_values(), CopyLinearToTiledBroadcast::tail(), p.tail_data(), CopyLinearToTiledBroadcast::STATIC_DWORDS as nat);
                let enc = p.spec_encode(buf);
                layout::lemma_header_keeps_packet(enc, CopyLinearToTiledBroadcast::bit_fields(), p.bit_values(), CopyLinearToTiledBroadcast::join_fields(), p.join_values(), CopyLinearToTiledBroadcast::tail(), p.tail_data(), CopyLinearToTiledBroadcast::STATIC_DWORDS as nat, (0xffffu32 | (1u32 << 27u32)), (1u32 | (1u32 << 8u32) | (1u32 << 27u32)));
                layout::lemma_extra_header(enc[0], 1u32, 1u32, 1u32);
            },
            Pkt::Nop(p) => {
                layout::lemma_packet_roundtrip(buf, Nop::bit_fields(), p.bit_values(), Nop::join_fields(), p.join_values(), Nop::tail(), p.tail_data(), Nop::STATIC_DWORDS as nat);
                let enc = p.spec_encode(buf);
                layout::lemma_header_keeps_packet(enc, Nop::bit_fields(), p.bit_values(), Nop::join_fields(), p.join_values(), Nop::tail(), p.tail_data(), Nop::STATIC_DWORDS as nat, 0xffffu32, (0u32 | (0u32 << 8u32)));
                layout::lemma_plain_header(enc[0], 0u32, 0u32);
            },
            Pkt::CopyStruct(p) => {
                layout::lemma_packet_roundtrip(buf, CopyStruct::bit_fields(), p.bit_values(), CopyStruct::join_fields(), p.join_values(), CopyStruct::tail(), p.tail_data(), CopyStruct::STATIC_DWORDS as nat);
                let enc = p.spec_encode(buf);
                layout::lemma_header_keeps_packet(enc, CopyStruct::bit_fields(), p.bit_values(), CopyStruct::join_fields(), p.join_values(), CopyStruct::tail(), p.tail_data(), CopyStruct::STATIC_DWORDS as nat, 0xffffu32, (1u32 | (3u32 << 8u32)));
                layout::lemma_plain_header(enc[0], 1u32, 3u32);
            },
            Pkt::CopyLinearSubWindow(p) => {
                layout::lemma_packet_roundtrip(buf, CopyLinearSubWindow::bit_fields(), p.bit_values(), CopyLinearSubWindow::join_fields(), p.join_values(), CopyLinearSubWindow::tail(), p.tail_data(), CopyLinearSubWindow::STATIC_DWORDS as nat);
                let enc = p.spec_encode(buf);
                layout::lemma_header_keeps_packet(enc, CopyLinearSubWindow::bit_fields(), p.bit_values(), CopyLinearSubWindow::join_fields(), p.join_values(), CopyLinearSubWindow::tail(), p.tail_data(), CopyLinearSubWindow::STATIC_DWORDS as nat, 0xffffu32, (1u32 | (4u32 << 8u32)));
                layout::lemma_plain_header(enc[0], 1u32, 4u32);
            },
            Pkt::CopyTiledSubWindow(p) => {
                layout::lemma_packet_roundtrip(buf, CopyTiledSubWindow::bit_fields(), p.bit_values(), CopyTiledSubWindow::join_fields(), p.join_values(), CopyTiledSubWindow::tail(), p.tail_data(), CopyTiledSubWindow::STATIC_DWORDS as nat);
                let enc = p.spec_encode(buf);
                layout::lemma_header_keeps_packet(enc, CopyTiledSubWindow::bit_fields(), p.bit_values(), CopyTiledSubWindow::join_fields(), p.join_values(), CopyTiledSubWindow::tail(), p.tail_data(), CopyTiledSubWindow::STATIC_DWORDS as nat, 0xffffu32, (1u32 | (5u32 << 8u32)));
                layout::lemma_plain_header(enc[0], 1u32, 5u32);
            },
            Pkt::CopyTiledToTiled(p) => {
                layout::lemma_packet_roundtrip(buf, CopyTiledToTiled::bit_fields(), p.bit_values(), CopyTiledToTiled::join_fields(), p.join_values(), CopyTiledToTiled::tail(), p.tail_data(), CopyTiledToTiled::STATIC_DWORDS as nat);
                let enc = p.spec_encode(buf);
                layout::lemma_header_keeps_packet(enc, CopyTiledToTiled::bit_fields(), p.bit_values(), CopyTiledToTiled::join_fields(), p.join_values(), CopyTiledToTiled::tail(), p.tail_data(), CopyTiledToTiled::STATIC_DWORDS as nat, 0xffffu32, (1u32 | (6u32 << 8u32)));
                layout::lemma_plain_header(enc[0], 1u32, 6u32);
            },
            Pkt::WriteUntiled(p) => {
                layout::lemma_packet_roundtrip(buf, WriteUntiled::bit_fields(), p.bit_values(), WriteUntiled::join_fields(), p.join_values(), WriteUntiled::tail(), p.tail_data(), WriteUntiled::STATIC_DWORDS as nat);
                let enc = p.spec_encode(buf);
                layout::lemma_header_keeps_packet(enc, WriteUntiled::bit_fields(), p.bit_values(), WriteUntiled::join_fields(), p.join_values(), WriteUntiled::tail(), p.tail_data(), WriteUntiled::STATIC_DWORDS as nat, 0xffffu32, (2u32 | (0u32 << 8u32)));
                layout::lemma_plain_header(enc[0], 2u32, 0u32);
            },
            Pkt::WriteTiled(p) => {
                layout::lemma_packet_roundtrip(buf, WriteTiled::bit_fields(), p.bit_values(), WriteTiled::join_fields(), p.join_values(), WriteTiled::tail(), p.tail_data(), WriteTiled::STATIC_DWORDS as nat);
                let enc = p.spec_encode(buf);
                layout::lemma_header_keeps_packet(enc, WriteTiled::bit_fields(), p.bit_values(), WriteTiled::join_fields(), p.join_values(), WriteTiled::tail(), p.tail_data(), WriteTiled::STATIC_DWORDS as nat, 0xffffu32, (2u32 | (1u32 << 8u32)));
                layout::lemma_plain_header(enc[0], 2u32, 1u32);
            },
            Pkt::IndirectBuffer(p) => {
                layout::lemma_packet_roundtrip(buf, IndirectBuffer::bit_fields(), p.bit_values(), IndirectBuffer::join_fields(), p.join_values(), IndirectBuffer::tail(), p.tail_data(), IndirectBuffer::STATIC_DWORDS as nat);
                let enc = p.spec_encode(buf);
                layout::lemma_header_keeps_packet(enc, IndirectBuffer::bit_fields(), p.bit_values(), IndirectBuffer::join_fields(), p.join_values(), IndirectBuffer::tail(), p.tail_data(), IndirectBuffer::STATIC_DWORDS as nat, 0xffffu32, (4u32 | (0u32 << 8u32)));
                layout::lemma_plain_header(enc[0], 4u32, 0u32);
            },
            Pkt::Fence(p) => {
                layout::lemma_packet_roundtrip(buf, Fence::bit_fields(), p.bit_values(), Fence::join_fields(), p.join_values(), Fence::tail(), p.tail_data(), Fence::STATIC_DWORDS as nat);
                let enc = p.spec_encode(buf);
                layout::lemma_header_keeps_packet(enc, Fence::bit_fields(), p.bit_values(), Fence::join_fields(), p.join_values(), Fence::tail(), p.tail_data(), Fence::STATIC_DWORDS as nat, 0xffffu32, (5u32 | (0u32 << 8u32)));
                layout::lemma_plain_header(enc[0], 5u32, 0u32);
            },
            Pkt::Trap(p) => {
                layout::lemma_packet_roundtrip(buf, Trap::bit_fields(), p.bit_values(), Trap::join_fields(), p.join_values(), Trap::tail(), p.tail_data(), Trap::STATIC_DWORDS as nat);
                let enc = p.spec_encode(buf);
                layout::lemma_header_keeps_packet(enc, Trap::bit_fields(), p.bit_values(), Trap::join_fields(), p.join_values(), Trap::tail(), p.tail_data(), Trap::STATIC_DWORDS as nat, 0xffffu32, (6u32 | (0u32 << 8u32)));
                layout::lemma_plain_header(enc[0], 6u32, 0u32);
            },
            Pkt::Semaphore(p) => {
                layout::lemma_packet_roundtrip(buf, Semaphore::bit_fields(), p.bit_values(), Semaphore::join_fields(), p.join_values(), Semaphore::tail(), p.tail_data(), Semaphore::STATIC_DWORDS as nat);
                let enc = p.spec_encode(buf);
                layout::lemma_header_keeps_packet(enc, Semaphore::bit_fields(), p.bit_values(), Semaphore::join_fields(), p.join_values(), Semaphore::tail(), p.tail_data(), Semaphore::STATIC_DWORDS as nat, 0xffffu32, (7u32 | (0u32 << 8u32)));
                layout::lemma_plain_header(enc[0], 7u32, 0u32);
            },
            Pkt::PollRegmem(p) => {
                layout::lemma_packet_roundtrip(buf, PollRegmem::bit_fields(), p.bit_values(), PollRegmem::join_fields(), p.join_values(), PollRegmem::tail(), p.tail_data(), PollRegmem::STATIC_DWORDS as nat);
                let enc = p.spec_encode(buf);
                layout::lemma_header_keeps_packet(enc, PollRegmem::bit_fields(), p.bit_values(), PollRegmem::join_fields(), p.join_values(), PollRegmem::tail(), p.tail_data(), PollRegmem::STATIC_DWORDS as nat, 0xffffu32, (8u32 | (0u32 << 8u32)));
                layout::lemma_plain_header(enc[0], 8u32, 0u32);
            },
            Pkt::CondExe(p) => {
                layout::lemma_packet_roundtrip(buf, CondExe::bit_fields(), p.bit_values(), CondExe::join_fields(), p.join_values(), CondExe::tail(), p.tail_data(), CondExe::STATIC_DWORDS as nat);
                let enc = p.spec_encode(buf);
                layout::lemma_header_keeps_packet(enc, CondExe::bit_fields(), p.bit_values(), CondExe::join_fields(), p.join_values(), CondExe::tail(), p.tail_data(), CondExe::STATIC_DWORDS as nat, 0xffffu32, (9u32 | (0u32 << 8u32)));
                layout::lemma_plain_header(enc[0], 9u32, 0u32);
            },
            Pkt::Atomic(p) => {
                layout::lemma_packet_roundtrip(buf, Atomic::bit_fields(), p.bit_values(), Atomic::join_fields(), p.join_values(), Atomic::tail(), p.tail_data(), Atomic::STATIC_DWORDS as nat);
                let enc = p.spec_encode(buf);
                layout::lemma_header_keeps_packet(enc, Atomic::bit_fields(), p.bit_values(), Atomic::join_fields(), p.join_values(), Atomic::tail(), p.tail_data(), Atomic::STATIC_DWORDS as nat, 0xffffu32, (10u32 | (0u32 << 8u32)));
                layout::lemma_plain_header(enc[0], 10u32, 0u32);
            },
            Pkt::ConstFill(p) => {
                layout::lemma_packet_roundtrip(buf, ConstFill::bit_fields(), p.bit_values(), ConstFill::join_fields(), p.join_values(), ConstFill::tail(), p.tail_data(), ConstFill::STATIC_DWORDS as nat);
                let enc = p.spec_encode(buf);
                layout::lemma_header_keeps_packet(enc, ConstFill::bit_fields(), p.bit_values(), ConstFill::join_fields(), p.join_values(), ConstFill::tail(), p.tail_data(), ConstFill::STATIC_DWORDS as nat, 0xffffu32, (11u32 | (0u32 << 8u32)));
                layout::lemma_plain_header(enc[0], 11u32, 0u32);
            },
            Pkt::GenPtepde(p) => {
                layout::lemma_packet_roundtrip(buf, GenPtepde::bit_fields(), p.bit_values(), GenPtepde::join_fields(), p.join_values(), GenPtepde::tail(), p.tail_data(), GenPtepde::STATIC_DWORDS as nat);
                let enc = p.spec_encode(buf);
                layout::lemma_header_keeps_packet(enc, GenPtepde::bit_fields(), p.bit_values(), GenPtepde::join_fields(), p.join_values(), GenPtepde::tail(), p.tail_data(), GenPtepde::STATIC_DWORDS as nat, 0xffffu32, (12u32 | (0u32 << 8u32)));
                layout::lemma_plain_header(enc[0], 12u32, 0u32);
            },
            Pkt::TimestampSet(p) => {
                layout::lemma_packet_roundtrip(buf, TimestampSet::bit_fields(), p.bit_values(), TimestampSet::join_fields(), p.join_values(), TimestampSet::tail(), p.tail_data(), TimestampSet::STATIC_DWORDS as nat);
                let enc = p.spec_encode(buf);
                layout::lemma_header_keeps_packet(enc, TimestampSet::bit_fields(), p.bit_values(), TimestampSet::join_fields(), p.join_values(), TimestampSet::tail(), p.tail_data(), TimestampSet::STATIC_DWORDS as nat, 0xffffu32, (13u32 | (0u32 << 8u32)));
                layout::lemma_plain_header(enc[0], 13u32, 0u32);
            },
            Pkt::TimestampGet(p) => {
                layout::lemma_packet_roundtrip(buf, TimestampGet::bit_fields(), p.bit_values(), TimestampGet::join_fields(), p.join_values(), TimestampGet::tail(), p.tail_data(), TimestampGet::STATIC_DWORDS as nat);
                let enc = p.spec_encode(buf);
                layout::lemma_header_keeps_packet(enc, TimestampGet::bit_fields(), p.bit_values(), TimestampGet::join_fields(), p.join_values(), TimestampGet::tail(), p.tail_data(), TimestampGet::STATIC_DWORDS as nat, 0xffffu32, (13u32 | (1u32 << 8u32)));
                layout::lemma_plain_header(enc[0], 13u32, 1u32);
            },
            Pkt::TimestampGetGlobal(p) => {
                layout::lemma_packet_roundtrip(buf, TimestampGetGlobal::bit_fields(), p.bit_values(), TimestampGetGlobal::join_fields(), p.join_values(), TimestampGetGlobal::tail(), p.tail_data(), TimestampGetGlobal::STATIC_DWORDS as nat);
                let enc = p.spec_encode(buf);
                layout::lemma_header_keeps_packet(enc, TimestampGetGlobal::bit_fields(), p.bit_values(), TimestampGetGlobal::join_fields(), p.join_values(), TimestampGetGlobal::tail(), p.tail_data(), TimestampGetGlobal::STATIC_DWORDS as nat, 0xffffu32, (13u32 | (2u32 << 8u32)));
                layout::lemma_plain_header(enc[0], 13u32, 2u32);
            },
            Pkt::SrbmWrite(p) => {
                layout::lemma_packet_roundtrip(buf, SrbmWrite::bit_fields(), p.bit_values(), SrbmWrite::join_fields(), p.join_values(), SrbmWrite::tail(), p.tail_data(), SrbmWrite::STATIC_DWORDS as nat);
                let enc = p.spec_encode(buf);
                layout::lemma_header_keeps_packet(enc, SrbmWrite::bit_fields(), p.bit_values(), SrbmWrite::join_fields(), p.join_values(), SrbmWrite::tail(), p.tail_data(), SrbmWrite::STATIC_DWORDS as nat, 0xffffu32, (14u32 | (0u32 << 8u32)));
                layout::lemma_plain_header(enc[0], 14u32, 0u32);
            },
            Pkt::PreExe(p) => {
                layout::lemma_packet_roundtrip(buf, PreExe::bit_fields(), p.bit_values(), PreExe::join_fields(), p.join_values(), PreExe::tail(), p.tail_data(), PreExe::STATIC_DWORDS as nat);
                let enc = p.spec_encode(buf);
                layout::lemma_header_keeps_packet(enc, PreExe::bit_fields(), p.bit_values(), PreExe::join_fields(), p.join_values(), PreExe::tail(), p.tail_data(), PreExe::STATIC_DWORDS as nat, 0xffffu32, (15u32 | (0u32 << 8u32)));
                layout::lemma_plain_header(enc[0], 15u32, 0u32);
            },
        }
    }

    /// Reading a packet is exact: two packets read from one buffer are equal.
    pub proof fn lemma_read_unique(a: Self, b: Self, buf: Seq<u32>)
        requires
            a.read_from(buf),
            b.read_from(buf),
        ensures
            a == b,
    {
        match a {
            Pkt::CopyLinear(x) => {
                if let Pkt::CopyLinear(y) = b {
                    CopyLinear::lemma_read_unique(x, y, buf);
                }
            },
            Pkt::CopyLinearBroadcast(x) => {
                if let Pkt::CopyLinearBroadcast(y) = b {
                    CopyLinearBroadcast::lemma_read_unique(x, y, buf);
                }
            },
            Pkt::CopyTiled(x) => {
                if let Pkt::CopyTiled(y) = b {
                    CopyTiled::lemma_read_unique(x, y, buf);
                }
            },
            Pkt::CopyLinearToTiledBroadcast(x) => {
                if let Pkt::CopyLinearToTiledBroadcast(y) = b {
                    CopyLinearToTiledBroadcast::lemma_read_unique(x, y, buf);
                }
            },
            Pkt::Nop(x) => {
                if let Pkt::Nop(y) = b {
                    Nop::lemma_read_unique(x, y, buf);
                }
            },
            Pkt::CopyStruct(x) => {
                if let Pkt::CopyStruct(y) = b {
                    CopyStruct::lemma_read_unique(x, y, buf);
                }
            },
            Pkt::CopyLinearSubWindow(x) => {
                if let Pkt::CopyLinearSubWindow(y) = b {
                    CopyLinearSubWindow::lemma_read_unique(x, y, buf);
                }
            },
            Pkt::CopyTiledSubWindow(x) => {
                if let Pkt::CopyTiledSubWindow(y) = b {
                    CopyTiledSubWindow::lemma_read_unique(x, y, buf);
                }
            },
            Pkt::CopyTiledToTiled(x) => {
                if let Pkt::CopyTiledToTiled(y) = b {
                    CopyTiledToTiled::lemma_read_unique(x, y, buf);
                }
            },
            Pkt::WriteUntiled(x) => {
                if let Pkt::WriteUntiled(y) = b {
                    WriteUntiled::lemma_read_unique(x, y, buf);
                }
            },
            Pkt::WriteTiled(x) => {
                if let Pkt::WriteTiled(y) = b {
                    WriteTiled::lemma_read_unique(x, y, buf);
                }
            },
            Pkt::IndirectBuffer(x) => {
                if let Pkt::IndirectBuffer(y) = b {
                    IndirectBuffer::lemma_read_unique(x, y, buf);
                }
            },
            Pkt::Fence(x) => {
                if let Pkt::Fence(y) = b {
                    Fence::lemma_read_unique(x, y, buf);
                }
            },
            Pkt::Trap(x) => {
                if let Pkt::Trap(y) = b {
                    Trap::lemma_read_unique(x, y, buf);
                }
            },
            Pkt::Semaphore(x) => {
                if let Pkt::Semaphore(y) = b {
                    Semaphore::lemma_read_unique(x, y, buf);
                }
            },
            Pkt::PollRegmem(x) => {
                if let Pkt::PollRegmem(y) = b {
                    PollRegmem::lemma_read_unique(x, y, buf);
                }
            },
            Pkt::CondExe(x) => {
                if let Pkt::CondExe(y) = b {
                    CondExe::lemma_read_unique(x, y, buf);
                }
            },
            Pkt::Atomic(x) => {
                if let Pkt::Atomic(y) = b {
                    Atomic::lemma_read_unique(x, y, buf);
                }
            },
            Pkt::ConstFill(x) => {
                if let Pkt::ConstFill(y) = b {
                    ConstFill::lemma_read_unique(x, y, buf);
                }
            },
            Pkt::GenPtepde(x) => {
                if let Pkt::GenPtepde(y) = b {
                    GenPtepde::lemma_read_unique(x, y, buf);
                }
            },
            Pkt::TimestampSet(x) => {
                if let Pkt::TimestampSet(y) = b {
                    TimestampSet::lemma_read_unique(x, y, buf);
                }
            },
            Pkt::TimestampGet(x) => {
                if let Pkt::TimestampGet(y) = b {
                    TimestampGet::lemma_read_unique(x, y, buf);
                }
            },
            Pkt::TimestampGetGlobal(x) => {
                if let Pkt::TimestampGetGlobal(y) = b {
                    TimestampGetGlobal::lemma_read_unique(x, y, buf);
                }
            },
            Pkt::SrbmWrite(x) => {
                if let Pkt::SrbmWrite(y) = b {
                    SrbmWrite::lemma_read_unique(x, y, buf);
                }
            },
            Pkt::PreExe(x) => {
                if let Pkt::PreExe(y) = b {
                    PreExe::lemma_read_unique(x, y, buf);
                }
            },
        }
    }

    /// Whether this packet's layout is well formed.
    pub fn layout_ok(&self) -> (r: bool)
        ensures
            r == self.layout_wf(),
    {
        match self {
            Pkt::CopyLinear(p) => CopyLinear::layout_ok(),
            Pkt::CopyLinearBroadcast(p) => CopyLinearBroadcast::layout_ok(),
            Pkt::CopyTiled(p) => CopyTiled::layout_ok(),
            Pkt::CopyLinearToTiledBroadcast(p) => CopyLinearToTiledBroadcast::layout_ok(),
            Pkt::Nop(p) => Nop::layout_ok(),
            Pkt::CopyStruct(p) => CopyStruct::layout_ok(),
            Pkt::CopyLinearSubWindow(p) => CopyLinearSubWindow::layout_ok(),
            Pkt::CopyTiledSubWindow(p) => CopyTiledSubWindow::layout_ok(),
            Pkt::CopyTiledToTiled(p) => CopyTiledToTiled::layout_ok(),
            Pkt::WriteUntiled(p) => WriteUntiled::layout_ok(),
            Pkt::WriteTiled(p) => WriteTiled::layout_ok(),
            Pkt::IndirectBuffer(p) => IndirectBuffer::layout_ok(),
            Pkt::Fence(p) => Fence::layout_ok(),
            Pkt::Trap(p) => Trap::layout_ok(),
            Pkt::Semaphore(p) => Semaphore::layout_ok(),
            Pkt::PollRegmem(p) => PollRegmem::layout_ok(),
            Pkt::CondExe(p) => CondExe::layout_ok(),
            Pkt::Atomic(p) => Atomic::layout_ok(),
            Pkt::ConstFill(p) => ConstFill::layout_ok(),
            Pkt::GenPtepde(p) => GenPtepde::layout_ok(),
            Pkt::TimestampSet(p) => TimestampSet::layout_ok(),
            Pkt::TimestampGet(p) => TimestampGet::layout_ok(),
            Pkt::TimestampGetGlobal(p) => TimestampGetGlobal::layout_ok(),
            Pkt::SrbmWrite(p) => SrbmWrite::layout_ok(),
            Pkt::PreExe(p) => PreExe::layout_ok(),
        }
    }

}

} // verus!
