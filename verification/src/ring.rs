//! The telemetry ring buffer: the single point of coordination between the
//! sampling loop and the forwarding loop.
//!
//! Fixed capacity, overwrite-oldest semantics: a push never fails and never
//! blocks; when the buffer is full it silently evicts the oldest unsent
//! sample. A drain removes and returns up to a requested number of oldest
//! samples in insertion order. Ghost logs account for every sample that
//! ever entered the buffer: the pushed samples are exactly the drained
//! ones, the overwritten ones and the current contents together, so no
//! sample is ever lost except by legitimate overwrite.

use vstd::prelude::*;
use vstd::seq_lib::lemma_multiset_commutative;

use crate::sample::Sample;

verus! {

broadcast use {vstd::seq_lib::group_to_multiset_ensures, vstd::multiset::group_multiset_axioms};

/// Abstract effect of one push on the contents of a buffer of capacity `cap`:
/// append, evicting the oldest element first when the buffer is full.
pub open spec fn model_push(contents: Seq<Sample>, cap: nat, s: Sample) -> Seq<Sample> {
    if contents.len() < cap {
        contents.push(s)
    } else {
        contents.skip(1).push(s)
    }
}

/// Contents after pushing every element of `pushes`, in order, into a buffer
/// of capacity `cap` whose contents started as `init`.
pub open spec fn model_push_all(init: Seq<Sample>, pushes: Seq<Sample>, cap: nat) -> Seq<Sample>
    decreases pushes.len(),
{
    if pushes.len() == 0 {
        init
    } else {
        model_push(model_push_all(init, pushes.drop_last(), cap), cap, pushes.last())
    }
}

/// Fixed-capacity FIFO container of samples that overwrites its oldest entry
/// when full. Shared by the sampler (writer) and the forwarder (reader) for
/// the process lifetime; the surrounding application serializes access.
pub struct TelemetryBuffer {
    samples: Vec<Sample>,
    capacity: usize,
    pushed: Ghost<Seq<Sample>>,
    drained: Ghost<Seq<Sample>>,
    overwritten: Ghost<Seq<Sample>>,
}

impl View for TelemetryBuffer {
    type V = Seq<Sample>;

    closed spec fn view(&self) -> Seq<Sample> {
        self.samples@
    }
}

impl TelemetryBuffer {
    /// The fixed capacity the buffer was created with.
    pub closed spec fn cap(&self) -> nat {
        self.capacity as nat
    }

    /// Every sample ever pushed, in push order.
    pub closed spec fn pushed_log(&self) -> Seq<Sample> {
        self.pushed@
    }

    /// Every sample ever handed out by a drain, in drain order.
    pub closed spec fn drained_log(&self) -> Seq<Sample> {
        self.drained@
    }

    /// Every sample ever evicted by a push into a full buffer, in eviction
    /// order.
    pub closed spec fn overwritten_log(&self) -> Seq<Sample> {
        self.overwritten@
    }

    /// How many samples were ever pushed.
    pub open spec fn pushed_count(&self) -> nat {
        self.pushed_log().len()
    }

    /// How many samples were ever handed out by a drain.
    pub open spec fn drained_count(&self) -> nat {
        self.drained_log().len()
    }

    /// How many samples were ever evicted by a push into a full buffer.
    pub open spec fn overwritten_count(&self) -> nat {
        self.overwritten_log().len()
    }

    /// Well-formedness: the length never exceeds the capacity, and every
    /// sample ever pushed is accounted for — drained, overwritten, or still
    /// in the buffer.
    pub open spec fn wf(&self) -> bool {
        &&& 1 <= self.cap()
        &&& self@.len() <= self.cap()
        &&& self.pushed_log().to_multiset() == self.drained_log().to_multiset().add(
            self.overwritten_log().to_multiset(),
        ).add(self@.to_multiset())
        &&& self.pushed_count() == self.drained_count() + self@.len() + self.overwritten_count()
    }

    /// Create an empty buffer of the given fixed capacity.
    pub fn new(capacity: usize) -> (b: TelemetryBuffer)
        requires
            1 <= capacity,
        ensures
            b.wf(),
            b@ == Seq::<Sample>::empty(),
            b.cap() == capacity,
            b.pushed_log() == Seq::<Sample>::empty(),
            b.drained_log() == Seq::<Sample>::empty(),
            b.overwritten_log() == Seq::<Sample>::empty(),
    {
        let b = TelemetryBuffer {
            samples: Vec::new(),
            capacity,
            pushed: Ghost(Seq::empty()),
            drained: Ghost(Seq::empty()),
            overwritten: Ghost(Seq::empty()),
        };
        proof {
            assert(b.pushed_log().to_multiset() =~= b.drained_log().to_multiset().add(
                b.overwritten_log().to_multiset(),
            ).add(b@.to_multiset()));
        }
        b
    }

    /// How many samples the buffer currently holds.
    pub fn len(&self) -> (n: usize)
        ensures
            n == self@.len(),
    {
        self.samples.len()
    }

    /// The fixed capacity the buffer was created with.
    pub fn capacity(&self) -> (c: usize)
        ensures
            c == self.cap(),
    {
        self.capacity
    }

    /// The sample at position `i`, oldest first.
    pub fn get(&self, i: usize) -> (s: Sample)
        requires
            i < self@.len(),
        ensures
            s == self@[i as int],
    {
        self.samples[i]
    }

    /// Push one sample. Never fails: when the buffer is full, the oldest
    /// sample is silently evicted to make room.
    pub fn push(&mut self, s: Sample)
        requires
            old(self).wf(),
        ensures
            final(self).wf(),
            final(self).cap() == old(self).cap(),
            final(self)@ == model_push(old(self)@, old(self).cap(), s),
            final(self).pushed_log() == old(self).pushed_log().push(s),
            final(self).drained_log() == old(self).drained_log(),
            final(self).overwritten_log() == if old(self)@.len() < old(self).cap() {
                old(self).overwritten_log()
            } else {
                old(self).overwritten_log().push(old(self)@[0])
            },
    {
        if self.samples.len() == self.capacity {
            let ghost c: Seq<Sample> = self.samples@;
            let evicted = self.samples.remove(0);
            self.overwritten = Ghost(self.overwritten@.push(evicted));
            proof {
                assert(c.remove(0) =~= c.skip(1));
                assert(seq![c[0]] =~= Seq::<Sample>::empty().push(c[0]));
                lemma_multiset_commutative(seq![c[0]], c.skip(1));
                assert(c =~= seq![c[0]] + c.skip(1));
                assert(c.to_multiset() =~= c.skip(1).to_multiset().insert(c[0]));
            }
        }
        self.samples.push(s);
        self.pushed = Ghost(self.pushed@.push(s));
        proof {
            assert(self.pushed@.to_multiset() =~= self.drained@.to_multiset().add(
                self.overwritten@.to_multiset(),
            ).add(self.samples@.to_multiset()));
        }
    }

    /// Remove and return up to `n` oldest samples, in insertion order.
    /// Returns exactly `min(n, current length)` samples — possibly none —
    /// and removes exactly the samples it returns.
    pub fn drain_up_to(&mut self, n: usize) -> (batch: Vec<Sample>)
        requires
            old(self).wf(),
        ensures
            final(self).wf(),
            final(self).cap() == old(self).cap(),
            batch@.len() == vstd::math::min(n as int, old(self)@.len() as int),
            batch@ == old(self)@.take(batch@.len() as int),
            final(self)@ == old(self)@.skip(batch@.len() as int),
            old(self)@ == batch@ + final(self)@,
            final(self).drained_log() == old(self).drained_log() + batch@,
            final(self).pushed_log() == old(self).pushed_log(),
            final(self).overwritten_log() == old(self).overwritten_log(),
    {
        let ghost orig: Seq<Sample> = self.samples@;
        let k: usize = if n < self.samples.len() {
            n
        } else {
            self.samples.len()
        };
        let mut batch: Vec<Sample> = Vec::new();
        let mut i: usize = 0;
        while i < k
            invariant
                i <= k,
                k <= orig.len(),
                self.samples@ =~= orig.skip(i as int),
                batch@ =~= orig.take(i as int),
                self.capacity == old(self).capacity,
                self.pushed == old(self).pushed,
                self.drained == old(self).drained,
                self.overwritten == old(self).overwritten,
            decreases k - i,
        {
            let s = self.samples.remove(0);
            proof {
                assert(orig.skip(i as int).remove(0) =~= orig.skip(i + 1));
                assert(orig.take(i as int).push(orig[i as int]) =~= orig.take(i + 1));
            }
            batch.push(s);
            i = i + 1;
        }
        self.drained = Ghost(self.drained@ + batch@);
        proof {
            assert(batch@ + self.samples@ =~= orig);
            lemma_multiset_commutative(batch@, self.samples@);
            lemma_multiset_commutative(old(self).drained@, batch@);
            assert(self.pushed@.to_multiset() =~= self.drained@.to_multiset().add(
                self.overwritten@.to_multiset(),
            ).add(self.samples@.to_multiset()));
        }
        batch
    }
}

/// Law: the buffer never loses a sample except by legitimate overwrite —
/// the samples ever pushed are exactly the samples ever drained, the
/// samples overwritten by later pushes into a full buffer, and the current
/// contents, counted with multiplicity.
pub proof fn lemma_sample_conservation(b: TelemetryBuffer)
    requires
        b.wf(),
    ensures
        b.pushed_log().to_multiset() == b.drained_log().to_multiset().add(
            b.overwritten_log().to_multiset(),
        ).add(b@.to_multiset()),
        b.pushed_count() == b.drained_count() + b@.len() + b.overwritten_count(),
{
}

/// Pushing a sequence into an initially empty buffer leaves exactly the
/// last `min(len, cap)` pushed elements, oldest first.
pub proof fn lemma_push_all_suffix(pushes: Seq<Sample>, cap: nat)
    requires
        1 <= cap,
    ensures
        model_push_all(Seq::<Sample>::empty(), pushes, cap) == if pushes.len() <= cap {
            pushes
        } else {
            pushes.skip(pushes.len() - cap)
        },
    decreases pushes.len(),
{
    if pushes.len() == 0 {
        assert(model_push_all(Seq::<Sample>::empty(), pushes, cap) =~= pushes);
    } else {
        let prefix = pushes.drop_last();
        lemma_push_all_suffix(prefix, cap);
        let prev = model_push_all(Seq::<Sample>::empty(), prefix, cap);
        if prefix.len() < cap {
            assert(prev.push(pushes.last()) =~= pushes);
        } else if prefix.len() == cap {
            assert(prev.skip(1).push(pushes.last()) =~= pushes.skip(1));
        } else {
            assert(prev.skip(1).push(pushes.last()) =~= pushes.skip(pushes.len() - cap));
        }
    }
}

/// Law: a push sequence that fits within the capacity is kept in full, in
/// insertion order — nothing is reordered, dropped, or invented.
pub proof fn lemma_no_overwrite_keeps_all(pushes: Seq<Sample>, cap: nat)
    requires
        1 <= cap,
        pushes.len() <= cap,
    ensures
        model_push_all(Seq::<Sample>::empty(), pushes, cap) == pushes,
{
    lemma_push_all_suffix(pushes, cap);
}

/// Law: a push sequence longer than the capacity leaves exactly the last
/// `cap` pushed elements, oldest first.
pub proof fn lemma_overwrite_keeps_last(pushes: Seq<Sample>, cap: nat)
    requires
        1 <= cap,
        cap < pushes.len(),
    ensures
        model_push_all(Seq::<Sample>::empty(), pushes, cap) == pushes.skip(pushes.len() - cap),
{
    lemma_push_all_suffix(pushes, cap);
}

} // verus!
