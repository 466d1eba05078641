//! The runtime side of pattern dispatch.
//!
//! A value of a generated union is known to its holder only through an opaque
//! handle: a type tag naming the variant it was constructed as, plus the
//! variant's payload.  A dispatch request tries an ordered list of probes,
//! one per arm, each naming the variant it matches; the first probe whose
//! variant equals the handle's tag wins, and its arm extracts the payload —
//! borrowed, or with ownership transferred.  When no probe matches, the
//! dispatch reports an exhaustiveness failure instead of extracting anything.

use vstd::prelude::*;

verus! {

/// An opaque handle to a constructed variant record: the variant's type tag
/// and its owned payload.
#[derive(Debug)]
pub struct Handle<T> {
    /// The type tag identifying the variant this record was constructed as.
    pub tag: u64,
    /// The variant's field values.
    pub payload: T,
}

/// The probe loop of a dispatch: starting from position `i`, the index of the
/// first probe whose variant tag equals `tag`, if any.
pub open spec fn first_match_from(probes: Seq<u64>, tag: u64, i: int) -> Option<int>
    decreases probes.len() - i,
{
    if i < 0 || i >= probes.len() {
        None
    } else if probes[i] == tag {
        Some(i)
    } else {
        first_match_from(probes, tag, i + 1)
    }
}

/// The index of the first probe matching `tag`, if any.
pub open spec fn first_match_index(probes: Seq<u64>, tag: u64) -> Option<int> {
    first_match_from(probes, tag, 0)
}

/// What `first_match_from` returns: the least matching index at or after `i`,
/// and `None` exactly when no probe at or after `i` matches.
proof fn lemma_first_match_from(probes: Seq<u64>, tag: u64, i: int)
    requires
        0 <= i <= probes.len(),
    ensures
        match first_match_from(probes, tag, i) {
            Some(k) => i <= k < probes.len() && probes[k] == tag && (forall|j: int|
                i <= j < k ==> probes[j] != tag),
            None => forall|j: int| i <= j < probes.len() ==> probes[j] != tag,
        },
    decreases probes.len() - i,
{
    if i < probes.len() && probes[i] != tag {
        lemma_first_match_from(probes, tag, i + 1);
    }
}

/// The dispatch probe order is the arm order: the selected probe is the
/// first one whose variant matches, and a miss is reported exactly when no
/// probe matches.
pub proof fn lemma_first_match_characterization(probes: Seq<u64>, tag: u64)
    ensures
        match first_match_index(probes, tag) {
            Some(k) => 0 <= k < probes.len() && probes[k] == tag && (forall|j: int|
                0 <= j < k ==> probes[j] != tag),
            None => forall|j: int| 0 <= j < probes.len() ==> probes[j] != tag,
        },
{
    lemma_first_match_from(probes, tag, 0);
}

/// A record dispatched against an arm list that contains exactly one probe
/// for its variant reaches exactly that arm, whatever the extraction mode:
/// both `dispatch_ref` and `dispatch_move` select `first_match_index`, and
/// under a unique matching probe that index is the unique one.
pub proof fn lemma_unique_arm_selected(probes: Seq<u64>, tag: u64, i: int)
    requires
        0 <= i < probes.len(),
        probes[i] == tag,
        forall|j: int| 0 <= j < probes.len() && j != i ==> probes[j] != tag,
    ensures
        first_match_index(probes, tag) == Some(i),
{
    lemma_first_match_characterization(probes, tag);
}

/// Arm order determines precedence: of two probes that both match the
/// handle's variant, the earlier one is selected — the dispatch never
/// reaches the later of the two.
pub proof fn lemma_arm_order_precedence(probes: Seq<u64>, tag: u64, i: int, j: int)
    requires
        0 <= i < j < probes.len(),
        probes[i] == tag,
        probes[j] == tag,
    ensures
        first_match_index(probes, tag) matches Some(k) && k <= i && k < j,
{
    lemma_first_match_characterization(probes, tag);
}

/// Runs the probe loop: the index of the first probe in arm order whose
/// variant tag equals `tag`.
pub fn first_match(probes: &Vec<u64>, tag: u64) -> (r: Option<usize>)
    ensures
        match r {
            Some(k) => first_match_index(probes@, tag) == Some(k as int),
            None => first_match_index(probes@, tag) is None,
        },
{
    let mut i: usize = 0;
    while i < probes.len()
        invariant
            0 <= i <= probes.len(),
            first_match_from(probes@, tag, 0) == first_match_from(probes@, tag, i as int),
        decreases probes.len() - i,
    {
        if probes[i] == tag {
            return Some(i);
        }
        i += 1;
    }
    None
}

/// Borrowed dispatch: selects the first matching probe and hands back a
/// borrow of the payload, or reports the miss.
pub fn dispatch_ref<'a, T>(handle: &'a Handle<T>, probes: &Vec<u64>) -> (r: Option<(usize, &'a T)>)
    ensures
        match r {
            Some((k, p)) => first_match_index(probes@, handle.tag) == Some(k as int) && p
                == &handle.payload,
            None => first_match_index(probes@, handle.tag) is None,
        },
{
    match first_match(probes, handle.tag) {
        Some(k) => Some((k, &handle.payload)),
        None => None,
    }
}

/// Ownership-transferring dispatch: selects the first matching probe and
/// moves the payload out of the handle; on a miss the handle comes back
/// unconsumed, as the exhaustiveness-failure outcome.
pub fn dispatch_move<T>(handle: Handle<T>, probes: &Vec<u64>) -> (r: Result<(usize, T), Handle<T>>)
    ensures
        match r {
            Ok((k, p)) => first_match_index(probes@, handle.tag) == Some(k as int) && p
                == handle.payload,
            Err(h) => first_match_index(probes@, handle.tag) is None && h == handle,
        },
{
    match first_match(probes, handle.tag) {
        Some(k) => Ok((k, handle.payload)),
        None => Err(handle),
    }
}

} // verus!
