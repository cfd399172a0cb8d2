//! The prefix index and the stalling bisection that searches it.
//!
//! The search keeps two bounds and never moves one past the probed slot; it
//! gives up when the midpoint repeats. That makes it differ from the textbook
//! bisection in one place: an index of a single entry is never probed.

use vstd::prelude::*;

verus! {

/// One slot of the index: a seven-digit prefix, where its record starts in the
/// image, and the carrier code.
#[derive(Debug, Clone, Copy, PartialEq, Eq, Structural)]
pub struct Index {
    /// The first seven digits of the phone numbers this slot covers.
    pub phone_no_prefix: i32,
    /// Where the record starts, counted from the start of the image.
    pub records_offset: i32,
    /// The carrier code, 1 to 8 in a well-formed image.
    pub card_type: u8,
}

/// Prefixes never decrease from one slot to the next.
pub open spec fn ascending(index: Seq<Index>) -> bool {
    forall|i: int, j: int|
        0 <= i <= j < index.len() ==> index[i].phone_no_prefix <= index[j].phone_no_prefix
}

/// Prefixes grow from each slot to the next, so none occurs twice.
pub open spec fn strictly_ascending(index: Seq<Index>) -> bool {
    forall|i: int, j: int|
        0 <= i < j < index.len() ==> index[i].phone_no_prefix < index[j].phone_no_prefix
}

/// Some slot of the index carries `prefix`.
pub open spec fn has_prefix(index: Seq<Index>, prefix: i32) -> bool {
    exists|i: int| 0 <= i < index.len() && #[trigger] index[i].phone_no_prefix == prefix
}

/// The slot probed next between two bounds.
pub open spec fn midpoint(left: int, right: int) -> int {
    (left + right) / 2
}

/// What bounds the number of probes still to come.
pub open spec fn probes_left(left: int, right: int, mid: int) -> int {
    2 * (right - left) + if midpoint(left, right) != mid {
        1int
    } else {
        0int
    }
}

/// The outcome of the search from the bounds `left` and `right`, when `mid` was
/// the slot probed last: the slot found, or `None` once the midpoint repeats.
pub open spec fn probe_from(index: Seq<Index>, prefix: i32, left: int, right: int, mid: int) -> Option<int>
    decreases probes_left(left, right, mid),
{
    let m = midpoint(left, right);
    if m == mid || !(0 <= left < right <= index.len()) {
        None
    } else if index[m].phone_no_prefix > prefix {
        probe_from(index, prefix, left, m, m)
    } else if index[m].phone_no_prefix < prefix {
        probe_from(index, prefix, m, right, m)
    } else {
        Some(m)
    }
}

/// The outcome of the search over the whole index.
pub open spec fn probe(index: Seq<Index>, prefix: i32) -> Option<int> {
    probe_from(index, prefix, 0, index.len() as int, 0)
}

/// A slot that the search returns lies between the bounds and carries the prefix.
pub proof fn lemma_probe_from_sound(index: Seq<Index>, prefix: i32, left: int, right: int, mid: int)
    ensures
        probe_from(index, prefix, left, right, mid) matches Some(i) ==> left <= i < right
            && 0 <= i < index.len() && index[i].phone_no_prefix == prefix,
    decreases probes_left(left, right, mid),
{
    let m = midpoint(left, right);
    if m == mid || !(0 <= left < right <= index.len()) {
    } else if index[m].phone_no_prefix > prefix {
        lemma_probe_from_sound(index, prefix, left, m, m);
    } else if index[m].phone_no_prefix < prefix {
        lemma_probe_from_sound(index, prefix, m, right, m);
    }
}

/// In an ascending index the search finds a prefix that lies between the
/// bounds, as long as the first midpoint is not the slot probed last.
pub proof fn lemma_probe_from_complete(
    index: Seq<Index>,
    prefix: i32,
    left: int,
    right: int,
    mid: int,
    at: int,
)
    requires
        ascending(index),
        0 <= left <= at < right <= index.len(),
        index[at].phone_no_prefix == prefix,
        midpoint(left, right) != mid,
    ensures
        probe_from(index, prefix, left, right, mid) matches Some(i) && index[i].phone_no_prefix
            == prefix,
    decreases probes_left(left, right, mid),
{
    let m = midpoint(left, right);
    if index[m].phone_no_prefix > prefix {
        lemma_probe_from_complete(index, prefix, left, m, m, at);
    } else if index[m].phone_no_prefix < prefix {
        lemma_probe_from_complete(index, prefix, m, right, m, at);
    }
}

/// Whatever the index holds, a slot that the search returns carries the prefix
/// asked for.
pub proof fn lemma_probe_sound(index: Seq<Index>, prefix: i32)
    ensures
        probe(index, prefix) matches Some(i) ==> 0 <= i < index.len() && index[i].phone_no_prefix
            == prefix,
{
    lemma_probe_from_sound(index, prefix, 0, index.len() as int, 0);
}

/// A prefix that no slot carries is never found. This holds of every index,
/// the empty one and the one of a single slot included.
pub proof fn lemma_probe_absent(index: Seq<Index>, prefix: i32)
    requires
        !has_prefix(index, prefix),
    ensures
        probe(index, prefix) is None,
{
    lemma_probe_sound(index, prefix);
}

/// In an index of fewer than two slots the first midpoint is slot 0, which
/// counts as probed already: nothing is ever found.
pub proof fn lemma_probe_short_index(index: Seq<Index>, prefix: i32)
    requires
        index.len() <= 1,
    ensures
        probe(index, prefix) is None,
{
}

/// In an ascending index of at least two slots every prefix that some slot
/// carries is found.
pub proof fn lemma_probe_complete(index: Seq<Index>, prefix: i32)
    requires
        ascending(index),
        index.len() >= 2,
        has_prefix(index, prefix),
    ensures
        probe(index, prefix) matches Some(i) && 0 <= i < index.len() && index[i].phone_no_prefix
            == prefix,
{
    let at = choose|i: int| 0 <= i < index.len() && #[trigger] index[i].phone_no_prefix == prefix;
    lemma_probe_from_complete(index, prefix, 0, index.len() as int, 0, at);
    lemma_probe_sound(index, prefix);
}

/// In a strictly ascending index of at least two slots the search returns
/// exactly the slot that carries the prefix.
pub proof fn lemma_probe_exact(index: Seq<Index>, at: int)
    requires
        strictly_ascending(index),
        index.len() >= 2,
        0 <= at < index.len(),
    ensures
        probe(index, index[at].phone_no_prefix) == Some(at),
{
    let prefix = index[at].phone_no_prefix;
    assert(ascending(index)) by {
        assert forall|i: int, j: int| 0 <= i <= j < index.len() implies index[i].phone_no_prefix
            <= index[j].phone_no_prefix by {
            if i < j {
            }
        }
    }
    lemma_probe_complete(index, prefix);
}

/// Searches the index for `prefix` and returns the slot that carries it.
///
/// The search stops without a result as soon as the midpoint of the bounds is
/// the slot probed last; slot 0 counts as probed before the first step.
pub fn locate(index: &Vec<Index>, prefix: i32) -> (slot: Option<usize>)
    ensures
        match slot {
            Some(i) => probe(index@, prefix) == Some(i as int),
            None => probe(index@, prefix) is None,
        },
{
    let mut left: usize = 0;
    let mut mid: usize = 0;
    let mut right: usize = index.len();
    loop
        invariant
            0 <= left <= right <= index@.len(),
            left == right ==> mid == left,
            probe_from(index@, prefix, left as int, right as int, mid as int) == probe(
                index@,
                prefix,
            ),
        decreases probes_left(left as int, right as int, mid as int),
    {
        let new_mid = left + (right - left) / 2;
        assert(new_mid as int == midpoint(left as int, right as int));
        if new_mid == mid {
            return None;
        }
        mid = new_mid;
        let cur_phone = index[mid].phone_no_prefix;
        if cur_phone > prefix {
            right = mid;
        } else if cur_phone < prefix {
            left = mid;
        } else {
            return Some(mid);
        }
    }
}

} // verus!
