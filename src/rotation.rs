//! The time-sliced rotation state machine.
//!
//! Time is measured in nanoseconds elapsed since the selector's epoch and
//! cut into slices of a fixed length. The state remembers the index drawn
//! and the slice it was drawn for; a call that falls into another slice
//! draws anew, a call in the same slice keeps the index.
use vstd::prelude::*;

verus! {

/// The mutable part of a selector: slice length, chosen index and the slice
/// it was chosen for (`None` until the first call, so that it always draws).
#[derive(Clone, Copy, Debug, PartialEq, Eq)]
pub struct Rotation {
    pub slice_nanos: u128,
    pub selected: usize,
    pub last_slice: Option<u128>,
}

/// One call of the selector, as the state machine sees it: the time elapsed
/// since the epoch and the index that a draw would give.
pub type Call = (u128, usize);

impl Rotation {
    pub open spec fn wf(self) -> bool {
        self.slice_nanos > 0
    }

    /// The ordinal of the slice in which `elapsed` falls (truncating division).
    pub open spec fn slice_of(self, elapsed: u128) -> int {
        elapsed as int / self.slice_nanos as int
    }

    /// Whether a call at `elapsed` must draw a new index.
    pub open spec fn rerolls_at(self, elapsed: u128) -> bool {
        self.last_slice != Some(self.slice_of(elapsed) as u128)
    }

    /// The state after a call at `elapsed`, where a draw would give `drawn`.
    pub open spec fn after(self, elapsed: u128, drawn: usize) -> Rotation {
        if self.rerolls_at(elapsed) {
            Rotation { selected: drawn, last_slice: Some(self.slice_of(elapsed) as u128), ..self }
        } else {
            self
        }
    }

    /// The state after the calls of `calls`, in order.
    pub open spec fn run(self, calls: Seq<Call>) -> Rotation
        decreases calls.len(),
    {
        if calls.len() == 0 {
            self
        } else {
            self.run(calls.drop_last()).after(calls.last().0, calls.last().1)
        }
    }

    /// How many of the calls of `calls` drew a new index.
    pub open spec fn reroll_count(self, calls: Seq<Call>) -> nat
        decreases calls.len(),
    {
        if calls.len() == 0 {
            0
        } else {
            self.reroll_count(calls.drop_last()) + if self.run(calls.drop_last()).rerolls_at(
                calls.last().0,
            ) {
                1nat
            } else {
                0nat
            }
        }
    }

    /// A fresh state for slices of `slice_nanos` nanoseconds; its first call draws.
    pub fn new(slice_nanos: u128) -> (r: Rotation)
        requires
            slice_nanos > 0,
        ensures
            r.wf(),
            r.slice_nanos == slice_nanos,
            r.selected == 0,
            r.last_slice is None,
    {
        Rotation { slice_nanos, selected: 0, last_slice: None }
    }

    /// The ordinal of the slice in which `elapsed` falls.
    pub fn slice_at(&self, elapsed: u128) -> (r: u128)
        requires
            self.wf(),
        ensures
            r == self.slice_of(elapsed),
    {
        elapsed / self.slice_nanos
    }

    /// Whether a call at `elapsed` must draw a new index.
    pub fn needs_reroll(&self, elapsed: u128) -> (r: bool)
        requires
            self.wf(),
        ensures
            r == self.rerolls_at(elapsed),
    {
        let slice = self.slice_at(elapsed);
        match self.last_slice {
            Some(last) => last != slice,
            None => true,
        }
    }

    /// Performs one call at `elapsed`: where the slice has changed since the
    /// last call, `drawn` becomes the selected index; otherwise the state is
    /// kept and `drawn` is ignored. Returns the selected index.
    pub fn observe(&mut self, elapsed: u128, drawn: usize) -> (r: usize)
        requires
            old(self).wf(),
        ensures
            *final(self) == old(self).after(elapsed, drawn),
            r == final(self).selected,
            final(self).last_slice == Some(old(self).slice_of(elapsed) as u128),
    {
        if self.needs_reroll(elapsed) {
            self.selected = drawn;
            self.last_slice = Some(self.slice_at(elapsed));
        }
        self.selected
    }
}


/// Within one slice: a run of calls that all fall into slice `s` leaves
/// `last_slice` at `s`, draws once if the state was not yet at `s` and never
/// otherwise, and every call of the run sees the index of the first.
proof fn lemma_run_in_one_slice(r: Rotation, calls: Seq<Call>, s: int)
    requires
        r.wf(),
        calls.len() > 0,
        forall|i: int| 0 <= i < calls.len() ==> r.slice_of(#[trigger] calls[i].0) == s,
    ensures
        r.run(calls).last_slice == Some(s as u128),
        r.run(calls).slice_nanos == r.slice_nanos,
        r.run(calls).selected == r.run(calls.take(1)).selected,
        r.reroll_count(calls) == if r.last_slice == Some(s as u128) { 0nat } else { 1nat },
    decreases calls.len(),
{
    let prefix = calls.drop_last();
    if calls.len() == 1 {
        assert(prefix.len() == 0);
        assert(r.run(prefix) == r);
        assert(r.reroll_count(prefix) == 0);
        assert(calls.take(1) =~= calls);
        assert(r.slice_of(calls[0].0) == s);
    } else {
        assert forall|i: int| 0 <= i < prefix.len() implies r.slice_of(#[trigger] prefix[i].0)
            == s by {
            assert(prefix[i] == calls[i]);
        }
        lemma_run_in_one_slice(r, prefix, s);
        assert(prefix.take(1) =~= calls.take(1));
        assert(r.slice_of(calls[calls.len() - 1].0) == s);
    }
}

/// Two calls whose times fall into the same slice, with no call between
/// them, return the same index: the second call never draws, whatever a draw
/// would have given.
pub proof fn lemma_same_slice_same_index(
    r: Rotation,
    t1: u128,
    d1: usize,
    t2: u128,
    d2: usize,
)
    requires
        r.wf(),
        r.slice_of(t1) == r.slice_of(t2),
    ensures
        !r.after(t1, d1).rerolls_at(t2),
        r.after(t1, d1).after(t2, d2) == r.after(t1, d1),
        r.after(t1, d1).after(t2, d2).selected == r.after(t1, d1).selected,
{
}

/// However many calls are made within one slice, in whatever order the
/// lock lets them in, each one returns the same index as the first.
pub proof fn lemma_one_slice_one_index(r: Rotation, calls: Seq<Call>)
    requires
        r.wf(),
        calls.len() > 0,
        forall|i: int| 0 <= i < calls.len() ==> r.slice_of(#[trigger] calls[i].0) == r.slice_of(
            calls[0].0,
        ),
    ensures
        forall|n: int|
            1 <= n <= calls.len() ==> #[trigger] r.run(calls.take(n)).selected == r.run(
                calls.take(1),
            ).selected,
{
    let s = r.slice_of(calls[0].0);
    assert forall|n: int| 1 <= n <= calls.len() implies #[trigger] r.run(calls.take(n)).selected
        == r.run(calls.take(1)).selected by {
        let pre = calls.take(n);
        assert forall|i: int| 0 <= i < pre.len() implies r.slice_of(#[trigger] pre[i].0) == s by {
            assert(pre[i] == calls[i]);
        }
        lemma_run_in_one_slice(r, pre, s);
        assert(pre.take(1) =~= calls.take(1));
    }
}

/// However many calls race within one slice, exactly one of them draws when
/// the slice is new to the state, and none when the state was already drawn
/// for it; afterwards the state records that slice.
pub proof fn lemma_one_reroll_per_slice(r: Rotation, calls: Seq<Call>)
    requires
        r.wf(),
        calls.len() > 0,
        forall|i: int| 0 <= i < calls.len() ==> r.slice_of(#[trigger] calls[i].0) == r.slice_of(
            calls[0].0,
        ),
    ensures
        r.reroll_count(calls) == if r.last_slice == Some(r.slice_of(calls[0].0) as u128) {
            0nat
        } else {
            1nat
        },
        r.run(calls).last_slice == Some(r.slice_of(calls[0].0) as u128),
{
    lemma_run_in_one_slice(r, calls, r.slice_of(calls[0].0));
}

/// When the time of a call falls into a later slice than the previous call,
/// that call draws: the drawn index becomes the selection, and the recorded
/// slice moves forward by exactly the number of slices elapsed.
pub proof fn lemma_crossing_rerolls(r: Rotation, t1: u128, d1: usize, t2: u128, d2: usize)
    requires
        r.wf(),
        r.slice_of(t1) < r.slice_of(t2),
    ensures
        r.after(t1, d1).rerolls_at(t2),
        r.after(t1, d1).after(t2, d2).selected == d2,
        r.after(t1, d1).after(t2, d2).last_slice->Some_0 - r.after(t1, d1).last_slice->Some_0
            == r.slice_of(t2) - r.slice_of(t1),
{
    assert(r.slice_of(t1) <= t1 as int) by {
        vstd::arithmetic::div_mod::lemma_div_is_ordered_by_denominator(t1 as int, 1, r.slice_nanos as int);
    }
    assert(r.slice_of(t2) <= t2 as int) by {
        vstd::arithmetic::div_mod::lemma_div_is_ordered_by_denominator(t2 as int, 1, r.slice_nanos as int);
    }
}

/// The slice ordinal never goes back while time goes forward: a call later
/// than another records a slice at least as large.
pub proof fn lemma_slices_monotonic(r: Rotation, t1: u128, d1: usize, t2: u128, d2: usize)
    requires
        r.wf(),
        t1 <= t2,
    ensures
        r.after(t1, d1).last_slice->Some_0 <= r.after(t1, d1).after(t2, d2).last_slice->Some_0,
{
    vstd::arithmetic::div_mod::lemma_div_is_ordered(t1 as int, t2 as int, r.slice_nanos as int);
    assert(r.slice_of(t1) <= t1 as int) by {
        vstd::arithmetic::div_mod::lemma_div_is_ordered_by_denominator(t1 as int, 1, r.slice_nanos as int);
    }
    assert(r.slice_of(t2) <= t2 as int) by {
        vstd::arithmetic::div_mod::lemma_div_is_ordered_by_denominator(t2 as int, 1, r.slice_nanos as int);
    }
}

} // verus!
