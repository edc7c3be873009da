//! The shared selector: a record store, the instant that numbers the time
//! slices, and the rotation state. Callers that share it across threads
//! hold it behind one lock, so that each call is one atomic step.
use vstd::prelude::*;
use crate::record::{Fortune, FortuneStore};
use crate::rotation::Rotation;
use rand::distributions::Distribution;
use std::time::Instant;

verus! {

#[verifier::external_type_specification]
#[verifier::external_body]
pub struct ExInstant(Instant);

/// Relies on `Instant::now`: reads the monotonic clock.
#[verifier::external_body]
fn now() -> Instant {
    Instant::now()
}

/// Relies on `Instant::elapsed`: the time since `epoch` in nanoseconds,
/// zero where the clock reads earlier than `epoch` (it saturates).
#[verifier::external_body]
fn nanos_since(epoch: &Instant) -> u128 {
    epoch.elapsed().as_nanos()
}

/// Relies on rand's `Uniform::new` and `thread_rng`: an index drawn
/// uniformly from `[0, len)`; `Uniform::new` panics on an empty range.
#[verifier::external_body]
fn draw_index(len: usize) -> (r: usize)
    requires
        len > 0,
    ensures
        r < len,
{
    rand::distributions::Uniform::new(0, len).sample(&mut rand::thread_rng())
}

/// Nanoseconds in a second.
pub const NANOS_PER_SECOND: u128 = 1_000_000_000;

/// Serves one record of a store, drawing a new one at random once per time
/// slice.
pub struct RotationSelector {
    store: FortuneStore,
    epoch: Instant,
    rotation: Rotation,
}

impl RotationSelector {
    #[verifier::type_invariant]
    spec fn inv(&self) -> bool {
        &&& self.rotation.wf()
        &&& self.rotation.selected < self.store@.len()
    }

    /// The records served.
    pub closed spec fn records(&self) -> Seq<Fortune> {
        self.store@
    }

    /// The rotation state: slice length, selected index, last slice.
    pub closed spec fn state(&self) -> Rotation {
        self.rotation
    }

    /// A selector over `store` with slices of `slice_seconds` seconds, its
    /// epoch the present instant; `None` where `slice_seconds` is zero. The
    /// first call always draws.
    pub fn new(store: FortuneStore, slice_seconds: u64) -> (r: Option<RotationSelector>)
        ensures
            r is None <==> slice_seconds == 0,
            r matches Some(s) ==> {
                &&& s.records() == store@
                &&& s.state().wf()
                &&& s.state().slice_nanos == slice_seconds as u128 * NANOS_PER_SECOND
                &&& s.state().last_slice is None
                &&& s.state().selected < store@.len()
            },
    {
        if slice_seconds == 0 {
            return None;
        }
        // a store is never empty, so the initial index 0 is in range
        let count = store.len();
        proof {
            assert(0 < count);
        }
        let rotation = Rotation::new(slice_seconds as u128 * NANOS_PER_SECOND);
        Some(RotationSelector { store, epoch: now(), rotation })
    }

    /// The index of the record served now.
    pub fn selected(&self) -> (r: usize)
        ensures
            r == self.state().selected,
            r < self.records().len(),
    {
        proof {
            use_type_invariant(self);
        }
        self.rotation.selected
    }

    /// The record served by a call made `elapsed` nanoseconds after the
    /// epoch. Where the slice of `elapsed` is the one last served, the
    /// state is kept; otherwise an index is drawn uniformly at random and
    /// recorded with that slice. Either way the record at the selected index
    /// is returned.
    pub fn current_at(&mut self, elapsed: u128) -> (r: &Fortune)
        ensures
            final(self).records() == old(self).records(),
            final(self).state().slice_nanos == old(self).state().slice_nanos,
            final(self).state().wf(),
            final(self).state().selected < final(self).records().len(),
            final(self).state() == old(self).state().after(elapsed, final(self).state().selected),
            !old(self).state().rerolls_at(elapsed) ==> final(self).state() == old(self).state(),
            final(self).state().last_slice == Some(old(self).state().slice_of(elapsed) as u128),
            *r == final(self).records()[final(self).state().selected as int],
    {
        proof {
            use_type_invariant(&*self);
        }
        let mut rotation = self.rotation;
        let drawn = if rotation.needs_reroll(elapsed) {
            draw_index(self.store.len())
        } else {
            rotation.selected
        };
        let i = rotation.observe(elapsed, drawn);
        self.rotation = rotation;
        self.store.get(i)
    }

    /// The record served now: `current_at` with the time elapsed since the
    /// epoch, read from the monotonic clock.
    pub fn current(&mut self) -> (r: &Fortune)
        ensures
            final(self).records() == old(self).records(),
            final(self).state().slice_nanos == old(self).state().slice_nanos,
            final(self).state().wf(),
            final(self).state().selected < final(self).records().len(),
            exists|e: u128|
                final(self).state() == #[trigger] old(self).state().after(
                    e,
                    final(self).state().selected,
                ),
            *r == final(self).records()[final(self).state().selected as int],
    {
        let elapsed = nanos_since(&self.epoch);
        self.current_at(elapsed)
    }
}

} // verus!
