use std::marker::PhantomData;
use vstd::prelude::*;

verus! {

/// A packet type which can be used in kfd queue
pub trait PktType {
    fn write_to_rb(&self, first: &mut [u32], second: &mut [u32]);
}

/// Must be a compute packet in PM4
pub trait PM4Pkt: PktType {}

/// Must be an aql compute packet
pub trait AqlPkt: PktType {}

/// Must be a packet type acceptable by a particular SDMA engine
pub trait SdmaPkt: PktType {}

pub struct RingBuffer<T: PktType> {
    _marker: PhantomData<T>,
}

pub struct CpuProducer<T: PktType> {
    _marker: PhantomData<T>,
}

/// An already active consumer
/// needed because cpu must use the doorbell when writing new packets to ring buff
pub struct GpuConsumer<T: PktType> {
    _marker: PhantomData<T>,
}

pub struct GpuProducer {}

impl<T: PktType> RingBuffer<T> {
    /// You can only access it from a single gpu kernel
    pub fn gpu_producer_gpu_consumer() {
    }
}

} // verus!
