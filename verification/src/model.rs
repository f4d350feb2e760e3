//! Mathematical model of the deadline table: a sequence of optional
//! deadlines, one slot per event ordinal, with earliest-wins coalescing.

use vstd::prelude::*;

verus! {

/// Slot `i` of table `s` holds a deadline.
pub open spec fn occupied(s: Seq<Option<u64>>, i: int) -> bool {
    0 <= i < s.len() && s[i] is Some
}

/// The deadline held in slot `i`.
pub open spec fn slot_deadline(s: Seq<Option<u64>>, i: int) -> u64 {
    s[i].unwrap()
}

/// Earliest-wins coalescing rule: a request to put deadline `d` in slot `i`
/// is accepted when the slot is empty or holds a strictly later deadline;
/// a later-or-equal request is rejected and the slot keeps what it has.
pub open spec fn accepts(s: Seq<Option<u64>>, i: int, d: u64) -> bool {
    s[i] is None || d < slot_deadline(s, i)
}

/// Slot `i` holds deadline `d`, and `d` is no later than the deadline of any
/// occupied slot.
pub open spec fn is_min(s: Seq<Option<u64>>, i: int, d: u64) -> bool {
    &&& occupied(s, i)
    &&& s[i] == Some(d)
    &&& forall|j: int| occupied(s, j) ==> d <= slot_deadline(s, j)
}

/// `i` is the lowest ordinal among the occupied slots that hold the minimum
/// deadline `d`: the deterministic tie-break for equal deadlines.
pub open spec fn is_soonest(s: Seq<Option<u64>>, i: int, d: u64) -> bool {
    &&& is_min(s, i, d)
    &&& forall|j: int| 0 <= j < i && occupied(s, j) ==> d < slot_deadline(s, j)
}

/// No slot of `s` holds a deadline.
pub open spec fn all_empty(s: Seq<Option<u64>>) -> bool {
    forall|j: int| 0 <= j < s.len() ==> s[j] is None
}

/// Coalescing law: once deadline `d1` occupies slot `o`, a later-or-equal
/// request `d2 >= d1` is rejected, leaving the effective deadline at `d1`,
/// while a strictly sooner request `d2 < d1` is accepted and moves the slot
/// to `d2`.
pub proof fn lemma_coalescing(s: Seq<Option<u64>>, o: int, d1: u64, d2: u64)
    requires
        0 <= o < s.len(),
    ensures
        accepts(s.update(o, Some(d1)), o, d2) <==> d2 < d1,
        s.update(o, Some(d1)).update(o, Some(d2))[o] == Some(d2),
{
}

/// Re-arm law: an empty slot, whether never registered or cleared because its
/// event fired, accepts any deadline, so a fired ordinal can be registered
/// again and behaves as a fresh registration.
pub proof fn lemma_rearm(s: Seq<Option<u64>>, o: int, d: u64)
    requires
        0 <= o < s.len(),
        s[o] is None,
    ensures
        accepts(s, o, d),
{
}

} // verus!
