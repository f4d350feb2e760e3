//! Timer for a limited set of events that are represented by their ordinals,
//! multiplexed over one reprogrammable single-shot alarm.
//!
//! Deadlines are absolute points on the host's monotonic clock, counted in
//! ticks. They are stored in a table of `N` slots indexed by event ordinal,
//! so the maximum supported ordinal is `N - 1`; the design assumes small `N`.
//! Deadlines for the same event are coalesced to the sooner one if it has not
//! yet fired. The mapping between ordinals and events is up to the caller.
//!
//! The host runtime owns the physical alarm and the clock: it programs the
//! alarm to whatever [`MuxTimer::deadline`] reports, and calls
//! [`MuxTimer::wake`] when the alarm elapses.

use vstd::prelude::*;

use crate::model::{accepts, all_empty, is_min, is_soonest, occupied, slot_deadline};

verus! {

/// Multiplexes deadlines for up to `N` events onto one single-shot alarm.
///
/// The armed cursor tracks which ordinal the alarm is programmed for; while
/// armed, its slot holds the programmed deadline, which is the minimum over
/// all occupied slots.
pub struct MuxTimer<const N: usize> {
    deadlines: Vec<Option<u64>>,
    armed_ordinal: usize,
    armed_deadline: u64,
}

impl<const N: usize> MuxTimer<N> {
    /// The table of slots, one optional deadline per event ordinal.
    pub closed spec fn slots(self) -> Seq<Option<u64>> {
        self.deadlines@
    }

    /// Whether the alarm is armed for some event.
    pub closed spec fn armed(self) -> bool {
        self.armed_ordinal < N
    }

    /// The ordinal the alarm is armed for; meaningful only while armed.
    pub closed spec fn cursor(self) -> int {
        self.armed_ordinal as int
    }

    /// The deadline the alarm is programmed to; meaningful only while armed.
    pub closed spec fn armed_at(self) -> u64 {
        self.armed_deadline
    }

    /// Well-formedness: the table has exactly `N` slots; while armed, the
    /// cursor's slot holds the programmed deadline and that deadline is the
    /// minimum over all occupied slots; while unarmed, every slot is empty.
    pub closed spec fn wf(self) -> bool {
        &&& self.slots().len() == N
        &&& self.armed_ordinal <= N
        &&& self.armed() ==> is_min(self.slots(), self.cursor(), self.armed_at())
        &&& !self.armed() ==> all_empty(self.slots())
    }

    /// Armed-minimum invariant: a well-formed timer has `N` slots; whenever
    /// it is armed, the cursor's slot holds the programmed deadline, which
    /// equals the minimum deadline over all occupied slots; and whenever it
    /// is unarmed, every slot is empty.
    pub proof fn lemma_armed_is_min(self)
        requires
            self.wf(),
        ensures
            self.slots().len() == N,
            self.armed() ==> is_min(self.slots(), self.cursor(), self.armed_at()),
            !self.armed() ==> all_empty(self.slots()),
    {
    }

    /// Drain law: once every registered event has fired and all slots are
    /// empty, the timer is unarmed.
    pub proof fn lemma_drained(self)
        requires
            self.wf(),
            all_empty(self.slots()),
        ensures
            !self.armed(),
    {
    }

    /// Fire timer for event with `ordinal` at absolute `deadline`.
    /// Returns `true` if the deadline was recorded, `false` if the event
    /// already has a sooner-or-equal deadline pending. The alarm is
    /// reprogrammed only when this deadline becomes the new global minimum.
    pub fn fire_at(&mut self, ordinal: usize, deadline: u64) -> (accepted: bool)
        requires
            old(self).wf(),
            ordinal < N,
        ensures
            final(self).wf(),
            accepted == accepts(old(self).slots(), ordinal as int, deadline),
            accepted ==> final(self).slots() == old(self).slots().update(
                ordinal as int,
                Some(deadline),
            ),
            !accepted ==> final(self).slots() == old(self).slots(),
            final(self).armed(),
            accepted && (!old(self).armed() || deadline < old(self).armed_at()) ==> {
                &&& final(self).cursor() == ordinal
                &&& final(self).armed_at() == deadline
            },
            !(accepted && (!old(self).armed() || deadline < old(self).armed_at())) ==> {
                &&& final(self).cursor() == old(self).cursor()
                &&& final(self).armed_at() == old(self).armed_at()
                &&& old(self).armed()
            },
    {
        match self.deadlines[ordinal] {
            Some(existing) => {
                if existing <= deadline {
                    return false;
                }
                self.deadlines.set(ordinal, Some(deadline));
            }
            None => {
                self.deadlines.set(ordinal, Some(deadline));
            }
        }
        if self.armed_ordinal == N || deadline < self.armed_deadline {
            proof {
                let s0 = old(self).slots();
                let s1 = self.slots();
                assert forall|j: int| occupied(s1, j) implies deadline <= slot_deadline(
                    s1,
                    j,
                ) by {
                    if j != ordinal as int {
                        assert(occupied(s0, j));
                    }
                }
            }
            self.arm(ordinal, deadline);
        } else {
            proof {
                let s0 = old(self).slots();
                let s1 = self.slots();
                assert(ordinal != self.armed_ordinal) by {
                    assert(s0[self.armed_ordinal as int] == Some(self.armed_deadline));
                }
                assert(s1[self.armed_ordinal as int] == s0[self.armed_ordinal as int]);
                assert forall|j: int| occupied(s1, j) implies self.armed_deadline
                    <= slot_deadline(s1, j) by {
                    if j != ordinal as int {
                        assert(occupied(s0, j));
                    }
                }
            }
        }
        true
    }

    /// Fire timer for event with `ordinal` after `timeout` ticks from `now`,
    /// the host clock's current reading. Equivalent to registering the
    /// absolute deadline `now + timeout`.
    pub fn fire_after(&mut self, ordinal: usize, now: u64, timeout: u64) -> (accepted: bool)
        requires
            old(self).wf(),
            ordinal < N,
            now + timeout <= u64::MAX,
        ensures
            final(self).wf(),
            accepted == accepts(old(self).slots(), ordinal as int, (now + timeout) as u64),
            accepted ==> final(self).slots() == old(self).slots().update(
                ordinal as int,
                Some((now + timeout) as u64),
            ),
            !accepted ==> final(self).slots() == old(self).slots(),
            final(self).armed(),
            accepted && (!old(self).armed() || ((now + timeout) as u64) < old(self).armed_at())
                ==> {
                    &&& final(self).cursor() == ordinal
                    &&& final(self).armed_at() == (now + timeout) as u64
                },
            !(accepted && (!old(self).armed() || ((now + timeout) as u64) < old(self).armed_at()))
                ==> {
                    &&& final(self).cursor() == old(self).cursor()
                    &&& final(self).armed_at() == old(self).armed_at()
                    &&& old(self).armed()
                },
    {
        self.fire_at(ordinal, now + timeout)
    }

    /// Point the alarm at `ordinal` with programmed `deadline`.
    fn arm(&mut self, ordinal: usize, deadline: u64)
        requires
            ordinal < N,
        ensures
            final(self).slots() == old(self).slots(),
            final(self).armed(),
            final(self).cursor() == ordinal,
            final(self).armed_at() == deadline,
    {
        self.armed_ordinal = ordinal;
        self.armed_deadline = deadline;
    }

    /// Returns whether the timer is armed.
    pub fn is_armed(&self) -> (r: bool)
        ensures
            r == self.armed(),
    {
        self.armed_ordinal < N
    }

    /// Returns the alarm's currently programmed deadline, if armed.
    pub fn deadline(&self) -> (r: Option<u64>)
        ensures
            r == (if self.armed() {
                Some(self.armed_at())
            } else {
                None::<u64>
            }),
    {
        if self.armed_ordinal < N {
            Some(self.armed_deadline)
        } else {
            None
        }
    }

    /// Returns all current slots, which can be indexed by event ordinals.
    pub fn deadlines(&self) -> (r: &Vec<Option<u64>>)
        ensures
            r@ == self.slots(),
    {
        &self.deadlines
    }

    /// Scan the table for the occupied slot with the minimum deadline,
    /// breaking ties in favour of the lowest ordinal.
    fn soonest_event(&self) -> (r: Option<(usize, u64)>)
        ensures
            match r {
                Some(p) => p.0 < self.slots().len() && is_soonest(
                    self.slots(),
                    p.0 as int,
                    p.1,
                ),
                None => all_empty(self.slots()),
            },
    {
        let mut best: Option<(usize, u64)> = None;
        let mut i: usize = 0;
        while i < self.deadlines.len()
            invariant
                i <= self.deadlines@.len(),
                match best {
                    Some(p) => {
                        &&& (p.0 as int) < i
                        &&& self.deadlines@[p.0 as int] == Some(p.1)
                        &&& forall|j: int|
                            0 <= j < i && occupied(self.deadlines@, j) ==> p.1 <= slot_deadline(
                                self.deadlines@,
                                j,
                            )
                        &&& forall|j: int|
                            0 <= j < p.0 as int && occupied(self.deadlines@, j) ==> p.1
                                < slot_deadline(self.deadlines@, j)
                    },
                    None => forall|j: int| 0 <= j < i ==> self.deadlines@[j] is None,
                },
            decreases self.deadlines@.len() - i,
        {
            match self.deadlines[i] {
                Some(d) => {
                    match best {
                        None => {
                            best = Some((i, d));
                        }
                        Some(p) => {
                            if d < p.1 {
                                best = Some((i, d));
                            }
                        }
                    }
                }
                None => {}
            }
            i = i + 1;
        }
        best
    }

    /// Resolve the event the alarm fired for: clear the fired slot, rescan
    /// the remainder, re-arm the alarm at the next minimum or disarm if no
    /// deadline remains, and return the fired ordinal. The host calls this
    /// when the alarm elapses; it must not be called while unarmed.
    pub fn wake(&mut self) -> (fired: usize)
        requires
            old(self).wf(),
            old(self).armed(),
        ensures
            final(self).wf(),
            fired == old(self).cursor(),
            fired < N,
            old(self).slots()[fired as int] == Some(old(self).armed_at()),
            final(self).slots() == old(self).slots().update(fired as int, None::<u64>),
            final(self).armed() ==> is_soonest(
                final(self).slots(),
                final(self).cursor(),
                final(self).armed_at(),
            ),
            !final(self).armed() ==> all_empty(final(self).slots()),
    {
        let fired_ordinal = self.armed_ordinal;
        self.armed_ordinal = N;
        self.deadlines.set(fired_ordinal, None);
        match self.soonest_event() {
            Some(p) => {
                self.arm(p.0, p.1);
            }
            None => {}
        }
        fired_ordinal
    }

    /// Firing order law: resolving the soonest event never moves the armed
    /// deadline backwards, and the fired slot is left empty until it is
    /// registered again; hence successive resolutions yield their deadlines
    /// in non-decreasing order, each pending registration firing exactly
    /// once. When no other occupied slot shares the fired deadline, the next
    /// armed deadline is strictly later.
    pub proof fn lemma_firing_order(pre: Self, post: Self, fired: usize)
        requires
            pre.wf(),
            pre.armed(),
            fired == pre.cursor(),
            post.slots() == pre.slots().update(fired as int, None::<u64>),
            post.armed() ==> is_soonest(post.slots(), post.cursor(), post.armed_at()),
        ensures
            post.slots()[fired as int] is None,
            post.armed() ==> pre.armed_at() <= post.armed_at(),
            post.armed() && (forall|j: int|
                0 <= j < pre.slots().len() && j != fired && occupied(pre.slots(), j)
                    ==> pre.armed_at() < slot_deadline(pre.slots(), j)) ==> pre.armed_at()
                < post.armed_at(),
    {
        if post.armed() {
            let c = post.cursor();
            assert(occupied(post.slots(), c));
            assert(c != fired);
            assert(pre.slots()[c] == post.slots()[c]);
            assert(occupied(pre.slots(), c));
            assert(pre.armed_at() <= slot_deadline(pre.slots(), c));
            assert(post.armed_at() == slot_deadline(pre.slots(), c));
        }
    }
}

impl<const N: usize> Default for MuxTimer<N> {
    /// A fresh timer: every slot empty, unarmed.
    fn default() -> (t: Self)
        ensures
            t.wf(),
            !t.armed(),
            t.slots().len() == N,
            all_empty(t.slots()),
    {
        let mut deadlines: Vec<Option<u64>> = Vec::new();
        while deadlines.len() < N
            invariant
                deadlines@.len() <= N,
                all_empty(deadlines@),
            decreases N - deadlines.len(),
        {
            deadlines.push(None);
        }
        MuxTimer { deadlines, armed_ordinal: N, armed_deadline: 0 }
    }
}

} // verus!
