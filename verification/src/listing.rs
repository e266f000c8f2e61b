//! A map written out as a list, in whatever order.

use vstd::prelude::*;

verus! {

/// `entries` holds each entry of `members` once, and nothing else.
pub open spec fn lists<V>(entries: Seq<(Seq<char>, V)>, members: Map<Seq<char>, V>) -> bool {
    &&& forall|i: int, j: int|
        0 <= i < j < entries.len() ==> (#[trigger] entries[i]).0 != (#[trigger] entries[j]).0
    &&& forall|i: int|
        0 <= i < entries.len() ==> members.contains_pair(
            (#[trigger] entries[i]).0,
            entries[i].1,
        )
    &&& forall|key: Seq<char>| #[trigger]
        members.contains_key(key) ==> exists|i: int|
            0 <= i < entries.len() && (#[trigger] entries[i]).0 == key
}

} // verus!
