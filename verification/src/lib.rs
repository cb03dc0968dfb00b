//! A Lamport-style logical clock: a monotonically non-decreasing counter
//! used to derive a partial causal ordering of events without wall-clock
//! time. Local events advance the clock by one tick; timestamps observed
//! from other actors are merged in with [`Clock::witness`].
//!
//! The clock refuses to advance past `usize::MAX` (fail-fast by
//! precondition) rather than wrapping silently, since wraparound would
//! break monotonicity.

use vstd::prelude::*;

verus! {

/// Logical time: a tick count whose only meaning is its relative order.
pub type Time = usize;

/// A logical clock holding a single counter that never decreases.
///
/// A clock is shared (not copied) among all actors of one causal domain:
/// copying it would create an independent clock with no relation to the
/// first.
pub struct Clock {
    counter: usize,
}

impl View for Clock {
    type V = nat;

    /// The clock's current tick count.
    closed spec fn view(&self) -> nat {
        self.counter as nat
    }
}

/// The clock value after merging an observed timestamp `other` into a
/// clock at `cur`: a stale observation (`other < cur`) leaves the clock
/// unchanged; otherwise the clock moves to one past the observation.
pub open spec fn merged(cur: nat, other: nat) -> nat {
    if other < cur {
        cur
    } else {
        other + 1
    }
}

impl Clock {
    /// A fresh clock at tick zero.
    pub fn new() -> (c: Clock)
        ensures
            c@ == 0,
    {
        Clock { counter: 0 }
    }

    /// Reads the current tick count. Pure: no side effects.
    pub fn time(&self) -> (t: Time)
        ensures
            t as nat == self@,
    {
        self.counter
    }

    /// Advances the clock by exactly one tick and returns the new
    /// (post-increment) value. Called immediately before a local event,
    /// to timestamp it.
    pub fn increment(&mut self) -> (t: Time)
        requires
            old(self)@ < usize::MAX as nat,
        ensures
            final(self)@ == old(self)@ + 1,
            t as nat == final(self)@,
    {
        self.counter = self.counter + 1;
        self.counter
    }

    /// Merges an externally observed timestamp into the clock: if `other`
    /// is already causally behind the clock, nothing changes; otherwise
    /// the clock moves to `other + 1`. Either way the clock ends up
    /// strictly above `other` and never decreases.
    ///
    /// A stale observation is deliberately a no-op, not a local tick: this
    /// is not the classical unconditional `max(local, other) + 1` rule.
    pub fn witness(&mut self, other: Time)
        requires
            other < usize::MAX,
        ensures
            final(self)@ == merged(old(self)@, other as nat),
            other < old(self)@ ==> final(self)@ == old(self)@,
            other >= old(self)@ ==> final(self)@ == other + 1,
            old(self)@ <= final(self)@,
            (other as nat) < final(self)@,
    {
        if other >= self.counter {
            self.counter = other + 1;
        }
    }

    /// One pull from the infinite sequence of fresh timestamps backed by
    /// this clock: performs exactly one increment and yields its result.
    /// The sequence is non-restartable, since every pull permanently
    /// advances the shared counter.
    pub fn next(&mut self) -> (t: Option<Time>)
        requires
            old(self)@ < usize::MAX as nat,
        ensures
            final(self)@ == old(self)@ + 1,
            t matches Some(v) && v as nat == final(self)@,
    {
        Some(self.increment())
    }
}

impl From<usize> for Clock {
    /// A clock seeded at tick `t`, to resume logical time from a
    /// previously observed value.
    fn from(t: usize) -> (c: Clock) {
        Clock { counter: t }
    }
}

impl vstd::std_specs::convert::FromSpecImpl<usize> for Clock {
    open spec fn obeys_from_spec() -> bool {
        true
    }

    closed spec fn from_spec(t: usize) -> Clock {
        Clock { counter: t }
    }
}

/// Seeding law: a clock built from a previously observed tick count
/// resumes logical time at exactly that count.
pub proof fn lemma_from_seeds_time(t: usize)
    ensures
        (<Clock as vstd::std_specs::convert::FromSpec<usize>>::from_spec(t))@ == t as nat,
{
}

/// A mutating clock operation: one local tick, or the merge of an
/// observed timestamp.
pub enum Op {
    Increment,
    Witness(nat),
}

/// The tick count after one operation on a clock at `v`, mirroring the
/// contracts of [`Clock::increment`] and [`Clock::witness`].
pub open spec fn step(v: nat, op: Op) -> nat {
    match op {
        Op::Increment => v + 1,
        Op::Witness(other) => merged(v, other),
    }
}

/// The tick count after a sequence of operations on a clock at `v`.
pub open spec fn run(v: nat, ops: Seq<Op>) -> nat
    decreases ops.len(),
{
    if ops.len() == 0 {
        v
    } else {
        run(step(v, ops[0]), ops.drop_first())
    }
}

/// No sequence of operations ever lowers the tick count.
pub proof fn lemma_run_monotonic(v: nat, ops: Seq<Op>)
    ensures
        v <= run(v, ops),
    decreases ops.len(),
{
    if ops.len() > 0 {
        lemma_run_monotonic(step(v, ops[0]), ops.drop_first());
    }
}

proof fn lemma_run_concat(v: nat, s: Seq<Op>, t: Seq<Op>)
    ensures
        run(v, s + t) == run(run(v, s), t),
    decreases s.len(),
{
    if s.len() == 0 {
        assert(s + t =~= t);
    } else {
        assert((s + t).drop_first() =~= s.drop_first() + t);
        lemma_run_concat(step(v, s[0]), s.drop_first(), t);
    }
}

/// Monotonicity law: under any sequence of operations, a read taken after
/// a later prefix never returns less than a read taken after an earlier
/// prefix.
pub proof fn lemma_reads_monotonic(v: nat, ops: Seq<Op>, i: int, j: int)
    requires
        0 <= i <= j <= ops.len(),
    ensures
        run(v, ops.take(i)) <= run(v, ops.take(j)),
{
    assert(ops.take(j) =~= ops.take(i) + ops.subrange(i, j));
    lemma_run_concat(v, ops.take(i), ops.subrange(i, j));
    lemma_run_monotonic(run(v, ops.take(i)), ops.subrange(i, j));
}

/// Advance law: a run of `n` increments moves a clock at `start` to
/// exactly `start + n`. The values they return along the way are given
/// by [`pulls`].
pub proof fn lemma_increments_advance(start: nat, n: nat)
    ensures
        run(start, Seq::new(n, |i: int| Op::Increment)) == start + n,
    decreases n,
{
    if n > 0 {
        let ops = Seq::new(n, |i: int| Op::Increment);
        assert(ops.drop_first() =~= Seq::new((n - 1) as nat, |i: int| Op::Increment));
        lemma_increments_advance(start + 1, (n - 1) as nat);
    }
}

/// The timestamps that `n` successive pulls yield from a clock at
/// `start`, mirroring the contract of [`Clock::next`]: each pull advances
/// the clock by one tick and returns the new value.
pub open spec fn pulls(start: nat, n: nat) -> Seq<nat>
    decreases n,
{
    if n == 0 {
        Seq::empty()
    } else {
        seq![start + 1] + pulls(start + 1, (n - 1) as nat)
    }
}

/// Sequence production law: `n` successive pulls from a clock at `start`
/// yield `start + 1, start + 2, ..., start + n`, in order, with no
/// repeats and no gaps; from a fresh clock at zero, `1, 2, 3, ...`.
pub proof fn lemma_pulls_consecutive(start: nat, n: nat)
    ensures
        pulls(start, n).len() == n,
        forall|i: int| 0 <= i < n ==> pulls(start, n)[i] == start + i + 1,
        forall|i: int, j: int|
            0 <= i < j < n ==> pulls(start, n)[i] < pulls(start, n)[j],
    decreases n,
{
    if n > 0 {
        lemma_pulls_consecutive(start + 1, (n - 1) as nat);
        assert forall|i: int| 0 <= i < n implies pulls(start, n)[i] == start + i + 1 by {
            if i > 0 {
                assert(pulls(start, n)[i] == pulls(start + 1, (n - 1) as nat)[i - 1]);
            }
        }
    }
}

} // verus!
