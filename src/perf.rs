use vstd::prelude::*;
use ringbuffer::{ConstGenericRingBuffer, RingBuffer};

verus! {

/// How many samples each ring keeps.
pub const RING_CAPACITY: usize = 64;

#[verifier::external_type_specification]
#[verifier::external_body]
#[verifier::reject_recursive_types(T)]
pub struct ExConstGenericRingBuffer<T, const CAP: usize>(ConstGenericRingBuffer<T, CAP>);

/// The samples that a ring holds, oldest first.
pub uninterp spec fn ring_samples(r: ConstGenericRingBuffer<u64, 64>) -> Seq<u64>;

/// What a ring holds after `x` is pushed onto `s`: the oldest sample is
/// evicted where the ring is full.
pub open spec fn pushed(s: Seq<u64>, x: u64) -> Seq<u64> {
    if s.len() >= RING_CAPACITY {
        s.drop_first().push(x)
    } else {
        s.push(x)
    }
}

/// Relies on `ConstGenericRingBuffer::default`: a ring with no samples.
#[verifier::external_body]
fn ring_new() -> (r: ConstGenericRingBuffer<u64, 64>)
    ensures
        ring_samples(r) == Seq::<u64>::empty(),
{
    ConstGenericRingBuffer::default()
}

/// Relies on `RingBuffer::enqueue` of `ConstGenericRingBuffer`: where the
/// ring holds its capacity, the oldest sample is dropped; the new sample is
/// appended. A ring never holds more than its capacity.
#[verifier::external_body]
fn ring_push(r: &mut ConstGenericRingBuffer<u64, 64>, x: u64)
    ensures
        ring_samples(*final(r)) == pushed(ring_samples(*old(r)), x),
        ring_samples(*final(r)).len() <= RING_CAPACITY,
{
    let _ = r.enqueue(x);
}

/// Relies on `RingBuffer::len`: the number of samples held.
#[verifier::external_body]
fn ring_len(r: &ConstGenericRingBuffer<u64, 64>) -> (n: usize)
    ensures
        n == ring_samples(*r).len(),
{
    r.len()
}

/// Relies on `RingBuffer::to_vec`: the samples, oldest first.
#[verifier::external_body]
fn ring_to_vec(r: &ConstGenericRingBuffer<u64, 64>) -> (v: Vec<u64>)
    ensures
        v@ == ring_samples(*r),
{
    r.to_vec()
}

/// Sum of a sequence of samples.
pub open spec fn sum(s: Seq<u64>) -> int
    decreases s.len(),
{
    if s.len() == 0 {
        0
    } else {
        sum(s.drop_last()) + s.last()
    }
}

/// Mean of the samples, rounded down; `None` where there are none.
pub open spec fn mean(s: Seq<u64>) -> Option<u64> {
    if s.len() == 0 {
        None
    } else {
        Some((sum(s) / s.len() as int) as u64)
    }
}

proof fn lemma_sum_bounds(s: Seq<u64>)
    ensures
        0 <= sum(s) <= s.len() * u64::MAX,
    decreases s.len(),
{
    if s.len() > 0 {
        lemma_sum_bounds(s.drop_last());
    }
}

/// Recent durations of the three stages of a tick, in nanoseconds, each in
/// a ring of the last 64 samples.
pub struct Performance {
    divergence: ConstGenericRingBuffer<u64, 64>,
    advance: ConstGenericRingBuffer<u64, 64>,
    total: ConstGenericRingBuffer<u64, 64>,
}

impl Performance {
    #[verifier::type_invariant]
    spec fn bounded(self) -> bool {
        &&& ring_samples(self.divergence).len() <= RING_CAPACITY
        &&& ring_samples(self.advance).len() <= RING_CAPACITY
        &&& ring_samples(self.total).len() <= RING_CAPACITY
    }

    /// Samples of the divergence stage, oldest first.
    pub closed spec fn divergence_samples(self) -> Seq<u64> {
        ring_samples(self.divergence)
    }

    /// Samples of the advance stage, oldest first.
    pub closed spec fn advance_samples(self) -> Seq<u64> {
        ring_samples(self.advance)
    }

    /// Samples of whole ticks, oldest first.
    pub closed spec fn total_samples(self) -> Seq<u64> {
        ring_samples(self.total)
    }

    /// Three empty rings.
    pub fn new() -> (r: Performance)
        ensures
            r.divergence_samples() == Seq::<u64>::empty(),
            r.advance_samples() == Seq::<u64>::empty(),
            r.total_samples() == Seq::<u64>::empty(),
    {
        Performance { divergence: ring_new(), advance: ring_new(), total: ring_new() }
    }

    /// Whether all three rings are empty.
    pub fn is_empty(&self) -> (r: bool)
        ensures
            r == (self.divergence_samples().len() == 0 && self.advance_samples().len() == 0
                && self.total_samples().len() == 0),
    {
        ring_len(&self.divergence) == 0 && ring_len(&self.advance) == 0 && ring_len(&self.total)
            == 0
    }

    /// Records one divergence-stage duration.
    pub fn measure_divergence(&mut self, nanos: u64)
        ensures
            final(self).divergence_samples() == pushed(old(self).divergence_samples(), nanos),
            final(self).divergence_samples().len() <= RING_CAPACITY,
            final(self).advance_samples() == old(self).advance_samples(),
            final(self).total_samples() == old(self).total_samples(),
    {
        proof {
            use_type_invariant(&*self);
        }
        let mut ring = ring_new();
        core::mem::swap(&mut self.divergence, &mut ring);
        ring_push(&mut ring, nanos);
        core::mem::swap(&mut self.divergence, &mut ring);
    }

    /// Records one advance-stage duration.
    pub fn measure_advance(&mut self, nanos: u64)
        ensures
            final(self).divergence_samples() == old(self).divergence_samples(),
            final(self).advance_samples() == pushed(old(self).advance_samples(), nanos),
            final(self).advance_samples().len() <= RING_CAPACITY,
            final(self).total_samples() == old(self).total_samples(),
    {
        proof {
            use_type_invariant(&*self);
        }
        let mut ring = ring_new();
        core::mem::swap(&mut self.advance, &mut ring);
        ring_push(&mut ring, nanos);
        core::mem::swap(&mut self.advance, &mut ring);
    }

    /// Records one whole-tick duration.
    pub fn measure_total(&mut self, nanos: u64)
        ensures
            final(self).divergence_samples() == old(self).divergence_samples(),
            final(self).advance_samples() == old(self).advance_samples(),
            final(self).total_samples() == pushed(old(self).total_samples(), nanos),
            final(self).total_samples().len() <= RING_CAPACITY,
    {
        proof {
            use_type_invariant(&*self);
        }
        let mut ring = ring_new();
        core::mem::swap(&mut self.total, &mut ring);
        ring_push(&mut ring, nanos);
        core::mem::swap(&mut self.total, &mut ring);
    }

    /// How many samples each ring holds: divergence, advance, whole tick.
    /// No ring ever holds more than 64.
    pub fn sample_counts(&self) -> (r: (usize, usize, usize))
        ensures
            r.0 == self.divergence_samples().len(),
            r.1 == self.advance_samples().len(),
            r.2 == self.total_samples().len(),
            r.0 <= RING_CAPACITY && r.1 <= RING_CAPACITY && r.2 <= RING_CAPACITY,
    {
        proof {
            use_type_invariant(self);
        }
        (ring_len(&self.divergence), ring_len(&self.advance), ring_len(&self.total))
    }

    /// Mean of the divergence samples, in nanoseconds; `None` while empty.
    pub fn avg_divergence(&self) -> (r: Option<u64>)
        ensures
            r == mean(self.divergence_samples()),
    {
        average(&self.divergence)
    }

    /// Mean of the advance samples, in nanoseconds; `None` while empty.
    pub fn avg_advance(&self) -> (r: Option<u64>)
        ensures
            r == mean(self.advance_samples()),
    {
        average(&self.advance)
    }

    /// Mean of the whole-tick samples, in nanoseconds; `None` while empty.
    pub fn avg_total(&self) -> (r: Option<u64>)
        ensures
            r == mean(self.total_samples()),
    {
        average(&self.total)
    }
}

fn average(r: &ConstGenericRingBuffer<u64, 64>) -> (m: Option<u64>)
    ensures
        m == mean(ring_samples(*r)),
{
    let v = ring_to_vec(r);
    let n = v.len();
    if n == 0 {
        return None;
    }
    let mut total: u128 = 0;
    let mut i: usize = 0;
    while i < n
        invariant
            n == v@.len(),
            0 <= i <= n,
            total == sum(v@.subrange(0, i as int)),
            n <= usize::MAX,
        decreases n - i,
    {
        proof {
            let s = v@.subrange(0, i as int + 1);
            assert(s.drop_last() == v@.subrange(0, i as int));
            lemma_sum_bounds(s);
            assert(n <= 0xffff_ffff_ffff_ffff);
            assert(s.len() * u64::MAX <= 0xffff_ffff_ffff_ffff * 0xffff_ffff_ffff_ffff)
                by (nonlinear_arith)
                requires
                    s.len() <= 0xffff_ffff_ffff_ffff,
            ;
        }
        total = total + v[i] as u128;
        i = i + 1;
    }
    proof {
        assert(v@.subrange(0, n as int) == v@);
        lemma_sum_bounds(v@);
        assert(sum(v@) / (n as int) <= u64::MAX) by (nonlinear_arith)
            requires
                0 <= sum(v@) <= n * u64::MAX,
                n > 0,
        ;
    }
    Some((total / n as u128) as u64)
}

} // verus!
