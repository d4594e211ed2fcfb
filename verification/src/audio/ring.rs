//! Bounded sample queues that bridge the capture and playback callbacks.
//!
//! Each microphone has one queue of fixed capacity. Its producer end is fed
//! by capture callbacks and its consumer end is drained by the playback
//! callback, on threads of their own. Neither end ever waits: a full queue
//! drops what does not fit, an empty one gives nothing.

use crate::audio::frame::make_silent_frame;
use ringbuf::traits::Consumer;
use ringbuf::traits::Producer;
use ringbuf::traits::Split;
use std::sync::Arc;
use std::sync::Mutex;
use vstd::prelude::*;

verus! {

/// The producer end of one microphone's queue, shared by the capture
/// callbacks that hear the microphone. Holds `ringbuf::HeapProd` behind a
/// lock.
#[verifier::external_body]
#[verifier::reject_recursive_types(S)]
pub struct SampleProducer<S> {
    inner: Arc<Mutex<ringbuf::HeapProd<S>>>,
}

/// The consumer end of one microphone's queue. Holds `ringbuf::HeapCons`
/// behind a lock.
#[verifier::external_body]
#[verifier::reject_recursive_types(S)]
pub struct SampleConsumer<S> {
    inner: Arc<Mutex<ringbuf::HeapCons<S>>>,
}

/// Calls `ringbuf::HeapRb::new` and `split`: a new, empty queue of the given
/// capacity, as its two ends. The outside function panics on a capacity of
/// zero, which is left out.
#[verifier::external_body]
pub(crate) fn sample_ring<S>(capacity: usize) -> (ends: (SampleProducer<S>, SampleConsumer<S>))
    requires
        capacity > 0,
{
    let (producer, consumer) = ringbuf::HeapRb::<S>::new(capacity).split();
    (
        SampleProducer { inner: Arc::new(Mutex::new(producer)) },
        SampleConsumer { inner: Arc::new(Mutex::new(consumer)) },
    )
}

impl<S: Copy> SampleProducer<S> {
    /// Calls `Arc::clone` on the shared end: the result is the same end of
    /// the same queue.
    #[verifier::external_body]
    pub(crate) fn share(&self) -> (shared: Self)
        ensures
            shared == *self,
    {
        SampleProducer { inner: Arc::clone(&self.inner) }
    }

    /// Calls `ringbuf::traits::Producer::push_slice` under the lock. The
    /// outside function appends the leading samples that fit into the free
    /// space and returns how many they were, without waiting; the rest is
    /// not queued. How much space is free depends on the consumer, so only
    /// the bound is claimed. `None` if the lock is poisoned; nothing is
    /// queued then.
    #[verifier::external_body]
    pub(crate) fn push_slice(&self, samples: &Vec<S>) -> (accepted: Option<usize>)
        ensures
            accepted matches Some(count) ==> count <= samples.len(),
    {
        match self.inner.lock() {
            Ok(mut producer) => Some(producer.push_slice(samples.as_slice())),
            Err(_) => None,
        }
    }

    /// Offers `samples` to the queue without waiting. The leading samples
    /// that fit are queued in order; the excess is dropped. Returns how many
    /// were queued: never more than were offered, and none if the queue
    /// cannot be reached.
    pub fn offer(&self, samples: &Vec<S>) -> (accepted: usize)
        ensures
            accepted <= samples.len(),
    {
        match self.push_slice(samples) {
            Some(count) => count,
            None => 0,
        }
    }
}

impl<S: Copy> SampleConsumer<S> {
    /// Calls `ringbuf::traits::Consumer::pop_slice` under the lock. The
    /// outside function moves the oldest queued samples to the front of
    /// `buffer`, as many as are queued and fit, and returns how many they
    /// were, without waiting; the rest of `buffer` is left as it was. What
    /// is queued depends on the producer, so nothing is claimed of the
    /// samples taken. `None` if the lock is poisoned; `buffer` is left as it
    /// was then.
    #[verifier::external_body]
    pub(crate) fn pop_slice(&self, buffer: &mut Vec<S>) -> (taken: Option<usize>)
        ensures
            final(buffer).len() == old(buffer).len(),
            taken matches Some(count) ==> count <= old(buffer).len() && forall|i: int|
                count <= i < old(buffer).len() ==> final(buffer)[i] == old(buffer)[i],
            taken is None ==> final(buffer)@ == old(buffer)@,
    {
        match self.inner.lock() {
            Ok(mut consumer) => Some(consumer.pop_slice(buffer.as_mut_slice())),
            Err(_) => None,
        }
    }

    /// Takes a whole frame from the queue without waiting, and tells how
    /// many samples the queue gave: they stand first, oldest first, and
    /// `silence` fills the rest of the frame. `None` if the queue cannot be
    /// reached.
    pub fn read_frame(&self, frame_size: usize, silence: S) -> (frame: Option<(Vec<S>, usize)>)
        ensures
            frame matches Some((samples, taken)) ==> {
                &&& samples.len() == frame_size
                &&& taken <= frame_size
                &&& forall|i: int| taken <= i < frame_size ==> samples[i] == silence
            },
    {
        let mut buffer = make_silent_frame(frame_size, silence);
        match self.pop_slice(&mut buffer) {
            Some(taken) => Some((pad_underrun(buffer, taken, silence), taken)),
            None => None,
        }
    }

    /// Takes up to `limit` queued samples without waiting, oldest first, and
    /// returns just those. Nothing comes back if nothing is queued or the
    /// queue cannot be reached.
    pub fn read_window(&self, limit: usize, silence: S) -> (window: Vec<S>)
        ensures
            window.len() <= limit,
    {
        let mut buffer = make_silent_frame(limit, silence);
        match self.pop_slice(&mut buffer) {
            Some(taken) => {
                buffer.truncate(taken);
                buffer
            },
            None => Vec::new(),
        }
    }
}

/// Overwrites with `silence` everything in `buffer` from position `taken` on:
/// the part of a frame that an underrun left unfilled.
pub fn pad_underrun<S: Copy>(buffer: Vec<S>, taken: usize, silence: S) -> (frame: Vec<S>)
    ensures
        frame.len() == buffer.len(),
        forall|i: int| 0 <= i < buffer.len() && i < taken ==> frame[i] == buffer[i],
        forall|i: int| taken <= i < buffer.len() ==> frame[i] == silence,
{
    let mut frame = buffer;
    let mut i: usize = taken;
    while i < frame.len()
        invariant
            frame.len() == buffer.len(),
            taken <= i,
            forall|k: int| 0 <= k < buffer.len() && k < taken ==> frame[k] == buffer[k],
            forall|k: int| taken <= k < i && k < buffer.len() ==> frame[k] == silence,
        decreases frame.len() - i,
    {
        frame.set(i, silence);
        i += 1;
    }
    frame
}

} // verus!
