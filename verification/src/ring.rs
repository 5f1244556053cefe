//! The fixed-capacity history of samples, kept in a `ringbuffer::AllocRingBuffer`.

use crate::bits::ZERO;
use crate::error::PipelineError;
use crate::pow2::is_next_pow2;
use crate::pow2::is_power_of_two;
use crate::pow2::next_power_of_two;
use ringbuffer::AllocRingBuffer;
use ringbuffer::RingBuffer;
use vstd::arithmetic::power2::is_pow2;
use vstd::prelude::*;

verus! {

/// The largest capacity a ring may have: with four-byte samples the buffer
/// then still fits the largest allocation a 32-bit target allows.
pub const MAX_CAPACITY: usize = 0x1000_0000;

/// `ringbuffer::AllocRingBuffer`, of which nothing is seen but through the
/// three names below.
#[verifier::external_type_specification]
#[verifier::external_body]
#[verifier::reject_recursive_types(T)]
pub struct ExAllocRingBuffer<T>(AllocRingBuffer<T>);

/// The samples a buffer holds, oldest first.
pub uninterp spec fn ring_items(rb: AllocRingBuffer<u32>) -> Seq<u32>;

/// The capacity a buffer was made with.
pub uninterp spec fn ring_limit(rb: AllocRingBuffer<u32>) -> nat;

/// How far the buffer's write position has advanced since it was made or
/// last filled. The buffer counts it in a `usize` and never resets it on a push.
pub uninterp spec fn ring_writes(rb: AllocRingBuffer<u32>) -> nat;

/// Calls `AllocRingBuffer::new`. It panics on a capacity of zero, and on one
/// for which the next power of two of four-byte items has no layout; both are
/// kept out. What it returns holds nothing, both of its positions at zero. The
/// memory is taken to be there: the buffer does not look at what the
/// allocator gave it.
#[verifier::external_body]
fn ring_new(capacity: usize) -> (rb: AllocRingBuffer<u32>)
    requires
        0 < capacity <= MAX_CAPACITY,
    ensures
        ring_items(rb) == Seq::<u32>::empty(),
        ring_limit(rb) == capacity,
        ring_writes(rb) == 0,
{
    AllocRingBuffer::new(capacity)
}

/// Calls `RingBuffer::fill`. The buffer drops what it holds, sets its read
/// position to zero and its write position to the capacity, and writes
/// `value` to each of the `capacity` places between them. Nothing on that
/// way panics.
#[verifier::external_body]
fn ring_fill(rb: &mut AllocRingBuffer<u32>, value: u32)
    ensures
        ring_limit(*final(rb)) == ring_limit(*old(rb)),
        ring_items(*final(rb)) == Seq::new(ring_limit(*old(rb)), |i: int| value),
        ring_writes(*final(rb)) == ring_limit(*old(rb)),
    no_unwind
{
    rb.fill(value);
}

/// Calls `RingBuffer::push`. A buffer that holds `capacity` items first
/// gives up its oldest; then the value is written as the newest item and the
/// write position advances by one. That addition overflows at the largest
/// `usize`, which is kept out; nothing else on that way panics.
#[verifier::external_body]
fn ring_push(rb: &mut AllocRingBuffer<u32>, value: u32)
    requires
        ring_writes(*old(rb)) < usize::MAX,
    ensures
        ring_limit(*final(rb)) == ring_limit(*old(rb)),
        ring_items(*final(rb)) == pushed(ring_items(*old(rb)), ring_limit(*old(rb)), value),
        ring_writes(*final(rb)) == ring_writes(*old(rb)) + 1,
    no_unwind
{
    rb.push(value);
}

/// Calls `RingBuffer::to_vec`: the items, cloned into a vector from the one
/// pushed longest ago to the newest.
#[verifier::external_body]
fn ring_to_vec(rb: &AllocRingBuffer<u32>) -> (v: Vec<u32>)
    ensures
        v@ == ring_items(*rb),
{
    rb.to_vec()
}

/// What a buffer of capacity `limit` holds after one more value is pushed.
pub open spec fn pushed(items: Seq<u32>, limit: nat, value: u32) -> Seq<u32> {
    if items.len() == limit {
        items.drop_first().push(value)
    } else {
        items.push(value)
    }
}

/// `n` samples of silence.
pub open spec fn zeros(n: nat) -> Seq<u32> {
    Seq::new(n, |i: int| ZERO)
}

/// The last `n` items of `s`, or all of `s` where it has no more than `n`.
pub open spec fn keep_last(s: Seq<u32>, n: nat) -> Seq<u32> {
    if s.len() <= n {
        s
    } else {
        s.subrange(s.len() - n, s.len() as int)
    }
}

/// A fixed-capacity history of samples. It always holds exactly `capacity`
/// samples, oldest first; a new sample displaces the oldest.
pub struct SampleRing {
    buf: AllocRingBuffer<u32>,
    capacity: usize,
    /// An upper bound on how far the buffer's write position has advanced.
    written: usize,
}

impl View for SampleRing {
    type V = Seq<u32>;

    closed spec fn view(&self) -> Seq<u32> {
        ring_items(self.buf)
    }
}

impl SampleRing {
    #[verifier::type_invariant]
    spec fn inv(self) -> bool {
        &&& ring_limit(self.buf) == self.capacity
        &&& ring_items(self.buf).len() == self.capacity
        &&& ring_writes(self.buf) <= self.written
        &&& 0 < self.capacity <= MAX_CAPACITY
        &&& is_pow2(self.capacity as int)
    }

    /// The number of samples the ring holds.
    pub closed spec fn spec_capacity(&self) -> nat {
        self.capacity as nat
    }

    /// A ring of `capacity` samples of silence. The capacity has to be a
    /// power of two and at most `MAX_CAPACITY`.
    pub fn create(capacity: usize) -> (r: Result<SampleRing, PipelineError>)
        ensures
            r.is_ok() <==> is_pow2(capacity as int) && capacity <= MAX_CAPACITY,
            r matches Ok(ring) ==> ring@ == zeros(capacity as nat) && ring.spec_capacity()
                == capacity,
            r matches Err(e) ==> e == PipelineError::InvalidConfiguration,
    {
        if capacity > MAX_CAPACITY || !is_power_of_two(capacity) {
            return Err(PipelineError::InvalidConfiguration);
        }
        proof {
            crate::pow2::lemma_pow2_positive(capacity as int);
        }
        let mut buf = ring_new(capacity);
        ring_fill(&mut buf, ZERO);
        Ok(SampleRing { buf, capacity, written: capacity })
    }

    /// The number of samples the ring holds.
    pub fn capacity(&self) -> (n: usize)
        ensures
            n == self.spec_capacity(),
            n == self@.len(),
            is_pow2(n as int),
            n <= MAX_CAPACITY,
    {
        proof {
            use_type_invariant(self);
        }
        self.capacity
    }

    /// A copy of the ring's samples, oldest first.
    pub fn snapshot(&self) -> (v: Vec<u32>)
        ensures
            v@ == self@,
            v@.len() == self.spec_capacity(),
    {
        proof {
            use_type_invariant(self);
        }
        ring_to_vec(&self.buf)
    }

    /// Appends one sample; the oldest one leaves.
    pub fn push(&mut self, sample: u32)
        ensures
            final(self).spec_capacity() == old(self).spec_capacity(),
            final(self)@ == old(self)@.drop_first().push(sample),
            final(self)@.len() == old(self).spec_capacity(),
    {
        proof {
            use_type_invariant(&*self);
        }
        if self.written == usize::MAX {
            self.rewind();
        }
        proof {
            use_type_invariant(&*self);
        }
        self.written = self.written + 1;
        ring_push(&mut self.buf, sample);
    }

    /// Appends the samples in order, each one displacing the oldest: the ring
    /// then holds the last `capacity` samples of its former contents followed
    /// by `samples`.
    pub fn push_many(&mut self, samples: &[u32])
        ensures
            final(self).spec_capacity() == old(self).spec_capacity(),
            final(self)@ == keep_last(old(self)@ + samples@, old(self).spec_capacity()),
            final(self)@.len() == old(self).spec_capacity(),
    {
        proof {
            use_type_invariant(&*self);
            assert(samples@.take(0) =~= Seq::<u32>::empty());
            assert(self@ + Seq::<u32>::empty() =~= self@);
        }
        let mut i: usize = 0;
        while i < samples.len()
            invariant
                i <= samples.len(),
                self.spec_capacity() == old(self).spec_capacity(),
                old(self)@.len() == old(self).spec_capacity(),
                old(self)@.len() > 0,
                self@ == keep_last(
                    old(self)@ + samples@.take(i as int),
                    old(self).spec_capacity(),
                ),
            decreases samples.len() - i,
        {
            proof {
                lemma_keep_last_step(old(self)@, samples@, i as int);
            }
            self.push(samples[i]);
            i = i + 1;
        }
        assert(samples@.take(samples.len() as int) =~= samples@);
    }

    /// Brings the buffer's write position back to twice the capacity without
    /// changing what the ring holds.
    fn rewind(&mut self)
        ensures
            final(self).spec_capacity() == old(self).spec_capacity(),
            final(self)@ == old(self)@,
            final(self).written == 2 * old(self).capacity,
    {
        proof {
            use_type_invariant(&*self);
        }
        let kept = ring_to_vec(&self.buf);
        self.written = usize::MAX;
        ring_fill(&mut self.buf, ZERO);
        let mut i: usize = 0;
        while i < kept.len()
            invariant
                i <= kept.len(),
                kept.len() == self.capacity,
                self.capacity == old(self).capacity,
                0 < self.capacity <= MAX_CAPACITY,
                is_pow2(self.capacity as int),
                self.written == usize::MAX,
                ring_limit(self.buf) == self.capacity,
                ring_writes(self.buf) == self.capacity + i,
                ring_items(self.buf) == zeros((self.capacity - i) as nat) + kept@.take(i as int),
            decreases kept.len() - i,
        {
            ring_push(&mut self.buf, kept[i]);
            assert(kept@.take(i as int + 1) == kept@.take(i as int).push(kept@[i as int]));
            assert((zeros((self.capacity - i) as nat) + kept@.take(i as int)).drop_first().push(
                kept@[i as int],
            ) == zeros((self.capacity - i - 1) as nat) + kept@.take(i as int + 1));
            i = i + 1;
        }
        assert(ring_items(self.buf) == kept@);
        self.written = 2 * self.capacity;
    }
}

/// The seconds of audio that a ring made for a sample rate has room for.
pub const HISTORY_SECONDS: usize = 5;

/// The capacity of the ring for a source of the given sample rate: the least
/// power of two that holds `HISTORY_SECONDS` seconds, or `None` where those
/// seconds are more than `MAX_CAPACITY` samples.
pub fn history_capacity(sampling_rate: usize) -> (r: Option<usize>)
    ensures
        r.is_some() <==> HISTORY_SECONDS * sampling_rate <= MAX_CAPACITY,
        r matches Some(capacity) ==> is_next_pow2(HISTORY_SECONDS * sampling_rate, capacity as int)
            && capacity <= MAX_CAPACITY,
{
    if sampling_rate > MAX_CAPACITY / HISTORY_SECONDS {
        return None;
    }
    proof {
        lemma_max_capacity_is_pow2();
    }
    next_power_of_two(HISTORY_SECONDS * sampling_rate)
}

/// A ring of silence for a source of the given sample rate, of the capacity
/// that `history_capacity` gives; refused where that gives none.
pub fn init_ringbuffer(sampling_rate: usize) -> (r: Result<SampleRing, PipelineError>)
    ensures
        r.is_ok() <==> HISTORY_SECONDS * sampling_rate <= MAX_CAPACITY,
        r matches Ok(ring) ==> is_next_pow2(
            HISTORY_SECONDS * sampling_rate,
            ring.spec_capacity() as int,
        ) && ring@ == zeros(ring.spec_capacity()),
        r matches Err(e) ==> e == PipelineError::InvalidConfiguration,
{
    match history_capacity(sampling_rate) {
        Some(capacity) => SampleRing::create(capacity),
        None => Err(PipelineError::InvalidConfiguration),
    }
}

/// `MAX_CAPACITY` is itself a power of two, so a ring of that size exists.
pub proof fn lemma_max_capacity_is_pow2()
    ensures
        is_pow2(MAX_CAPACITY as int),
{
    reveal_with_fuel(is_pow2, 30);
}

/// One more sample of `samples` taken into a full history shifts the kept
/// window by one.
proof fn lemma_keep_last_step(history: Seq<u32>, samples: Seq<u32>, i: int)
    requires
        0 <= i < samples.len(),
        history.len() > 0,
    ensures
        keep_last(history + samples.take(i + 1), history.len()) == keep_last(
            history + samples.take(i),
            history.len(),
        ).drop_first().push(samples[i]),
{
    let n = history.len();
    let before = history + samples.take(i);
    let after = history + samples.take(i + 1);
    assert(after =~= before.push(samples[i]));
    assert(keep_last(after, n) =~= keep_last(before, n).drop_first().push(samples[i]));
}

/// Fewer samples than the capacity, pushed into a ring of silence, stand at
/// its end in their order, behind the silence that is left.
pub proof fn lemma_short_push_into_silence(samples: Seq<u32>, capacity: nat)
    requires
        samples.len() <= capacity,
    ensures
        keep_last(zeros(capacity) + samples, capacity) == zeros(
            (capacity - samples.len()) as nat,
        ) + samples,
{
    assert(keep_last(zeros(capacity) + samples, capacity) =~= zeros(
        (capacity - samples.len()) as nat,
    ) + samples);
}

/// At least `capacity` samples, pushed into any ring, leave exactly the
/// last `capacity` of them, in their order.
pub proof fn lemma_long_push_keeps_latest(history: Seq<u32>, samples: Seq<u32>, capacity: nat)
    requires
        history.len() == capacity,
        samples.len() >= capacity,
    ensures
        keep_last(history + samples, capacity) == samples.subrange(
            samples.len() - capacity,
            samples.len() as int,
        ),
{
    assert(keep_last(history + samples, capacity) =~= samples.subrange(
        samples.len() - capacity,
        samples.len() as int,
    ));
}

/// Pushing in two parts is pushing the whole.
pub proof fn lemma_push_many_composes(
    history: Seq<u32>,
    first: Seq<u32>,
    second: Seq<u32>,
    capacity: nat,
)
    requires
        history.len() == capacity,
    ensures
        keep_last(keep_last(history + first, capacity) + second, capacity) == keep_last(
            history + (first + second),
            capacity,
        ),
{
    assert(keep_last(keep_last(history + first, capacity) + second, capacity) =~= keep_last(
        history + (first + second),
        capacity,
    ));
}

/// What a ring holds after a run of pushes, one chunk after the other.
pub open spec fn after_chunks(history: Seq<u32>, chunks: Seq<Seq<u32>>, capacity: nat) -> Seq<u32>
    decreases chunks.len(),
{
    if chunks.len() == 0 {
        history
    } else {
        keep_last(after_chunks(history, chunks.drop_last(), capacity) + chunks.last(), capacity)
    }
}

/// The chunks laid end to end.
pub open spec fn joined(chunks: Seq<Seq<u32>>) -> Seq<u32>
    decreases chunks.len(),
{
    if chunks.len() == 0 {
        Seq::empty()
    } else {
        joined(chunks.drop_last()) + chunks.last()
    }
}

/// Whatever is pushed, in however many chunks, the ring holds exactly
/// `capacity` samples: the last `capacity` of all it was ever given.
pub proof fn lemma_any_pushes(history: Seq<u32>, chunks: Seq<Seq<u32>>, capacity: nat)
    requires
        history.len() == capacity,
    ensures
        after_chunks(history, chunks, capacity).len() == capacity,
        after_chunks(history, chunks, capacity) == keep_last(history + joined(chunks), capacity),
    decreases chunks.len(),
{
    if chunks.len() == 0 {
        assert(history + joined(chunks) =~= history);
    } else {
        lemma_any_pushes(history, chunks.drop_last(), capacity);
        lemma_push_many_composes(history, joined(chunks.drop_last()), chunks.last(), capacity);
    }
}

} // verus!
