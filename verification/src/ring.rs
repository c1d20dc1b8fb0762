use vstd::prelude::*;
use ringbuf::traits::{Producer, Split};

verus! {

/// The ring buffer that carries mic samples (f32 bit patterns) from the input
/// stream to the voice output stream, before it is split into its two halves.
#[verifier::external_body]
pub struct MicRing {
    rb: ringbuf::HeapRb<u32>,
}

/// The half of the mic ring buffer the input stream pushes into.
#[verifier::external_body]
pub struct MicProducer {
    pub inner: ringbuf::HeapProd<u32>,
}

/// The half of the mic ring buffer the voice output stream pops from.
#[verifier::external_body]
pub struct MicConsumer {
    pub inner: ringbuf::HeapCons<u32>,
}

/// The samples a mic ring buffer holds, oldest first.
pub uninterp spec fn ring_samples(rb: MicRing) -> Seq<u32>;

/// The capacity a mic ring buffer was made with.
pub uninterp spec fn ring_capacity(rb: MicRing) -> nat;

/// The samples the consumer half had to pop, oldest first, when it was split off.
pub uninterp spec fn consumer_samples(c: MicConsumer) -> Seq<u32>;

/// The capacity of the ring buffer a consumer half was split from.
pub uninterp spec fn consumer_capacity(c: MicConsumer) -> nat;

impl MicRing {
    /// Calls `HeapRb::new`: an empty ring buffer of the given capacity (the crate
    /// panics on a zero capacity, which `requires` leaves out).
    #[verifier::external_body]
    fn with_capacity(capacity: usize) -> (r: MicRing)
        requires
            capacity > 0,
        ensures
            ring_samples(r) == Seq::<u32>::empty(),
            ring_capacity(r) == capacity,
    {
        MicRing { rb: ringbuf::HeapRb::<u32>::new(capacity) }
    }

    /// Calls `Producer::try_push` on the whole ring buffer: the sample is appended
    /// when there is room (and `true` returned), else nothing changes.
    #[verifier::external_body]
    fn try_push(&mut self, sample: u32) -> (pushed: bool)
        ensures
            ring_capacity(*final(self)) == ring_capacity(*old(self)),
            ring_samples(*old(self)).len() < ring_capacity(*old(self)) ==> pushed && ring_samples(
                *final(self),
            ) == ring_samples(*old(self)).push(sample),
            ring_samples(*old(self)).len() >= ring_capacity(*old(self)) ==> !pushed && ring_samples(
                *final(self),
            ) == ring_samples(*old(self)),
    {
        self.rb.try_push(sample).is_ok()
    }

    /// Calls `Split::split`: the producer and consumer halves of the ring buffer.
    /// The contract claims that the consumer half starts out with the samples the
    /// buffer held, in order, and with its capacity. What the halves hold later
    /// is not modelled: once split, both streams use them at the same time.
    #[verifier::external_body]
    fn split(self) -> (r: (MicProducer, MicConsumer))
        ensures
            consumer_samples(r.1) == ring_samples(self),
            consumer_capacity(r.1) == ring_capacity(self),
    {
        let (inner_producer, inner_consumer) = self.rb.split();
        (MicProducer { inner: inner_producer }, MicConsumer { inner: inner_consumer })
    }
}

/// The bits of `0.0f32`: a silent sample.
pub const SILENT_SAMPLE: u32 = 0;

/// `n` silent samples.
pub open spec fn silence(n: nat) -> Seq<u32> {
    Seq::new(n, |_i: int| SILENT_SAMPLE)
}

/// Pushes `frames` silent samples, as many as fit; the rest are dropped.
pub fn prefill_silence(ring: &mut MicRing, frames: usize)
    ensures
        ring_capacity(*final(ring)) == ring_capacity(*old(ring)),
        ({
            let room = ring_capacity(*old(ring)) - ring_samples(*old(ring)).len();
            let pushed = if room <= 0 { 0 } else if frames < room { frames as int } else { room };
            ring_samples(*final(ring)) == ring_samples(*old(ring)) + silence(pushed as nat)
        }),
{
    let ghost start = ring_samples(*ring);
    let ghost cap = ring_capacity(*ring);
    let mut i: usize = 0;
    while i < frames
        invariant
            i <= frames,
            ring_capacity(*ring) == cap,
            ({
                let room = cap - start.len();
                let pushed = if room <= 0 { 0 } else if i < room { i as int } else { room };
                ring_samples(*ring) == start + silence(pushed as nat)
            }),
        decreases frames - i,
    {
        let ghost before = ring_samples(*ring);
        let _ = ring.try_push(SILENT_SAMPLE);
        proof {
            let room = cap - start.len();
            if room > 0 && i < room {
                assert(start + silence((i + 1) as nat) =~= (start + silence(i as nat)).push(SILENT_SAMPLE));
            }
        }
        i = i + 1;
    }
}

/// The capacity of the mic ring buffer for a latency of `latency_frames` frames:
/// four times the latency, and at least 1024 samples.
pub open spec fn mic_ring_capacity(latency_frames: nat) -> nat {
    if latency_frames * 4 > 1024 {
        latency_frames * 4
    } else {
        1024
    }
}

/// A mic ring buffer for a latency of `latency_frames` frames, holding that many
/// silent samples so that the output stream does not starve at once.
pub fn new_mic_ring(latency_frames: usize) -> (r: MicRing)
    requires
        latency_frames * 4 <= usize::MAX,
    ensures
        ring_capacity(r) == mic_ring_capacity(latency_frames as nat),
        ring_samples(r) == silence(latency_frames as nat),
{
    let wanted = latency_frames * 4;
    let capacity = if wanted > 1024 {
        wanted
    } else {
        1024
    };
    let mut ring = MicRing::with_capacity(capacity);
    prefill_silence(&mut ring, latency_frames);
    assert(Seq::<u32>::empty() + silence(latency_frames as nat) =~= silence(latency_frames as nat));
    ring
}

/// The two halves of a mic ring buffer made by `new_mic_ring`: the consumer half
/// starts with `latency_frames` silent samples queued.
pub fn mic_ring_halves(latency_frames: usize) -> (r: (MicProducer, MicConsumer))
    requires
        latency_frames * 4 <= usize::MAX,
    ensures
        consumer_samples(r.1) == silence(latency_frames as nat),
        consumer_capacity(r.1) == mic_ring_capacity(latency_frames as nat),
{
    let ring = new_mic_ring(latency_frames);
    ring.split()
}

} // verus!
