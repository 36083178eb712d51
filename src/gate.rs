//! The deduplication gate: present only when the planner says the plan can
//! yield a record more than once, it decides for each result item whether
//! it is emitted.

use vstd::prelude::*;
use crate::tracker::{Processed, SyncDistinct, is_seen, mark};

verus! {

/// The keys carried by a sequence of items, in order.
pub open spec fn keys_view(items: Seq<Processed>) -> Seq<Option<Seq<u8>>> {
    items.map_values(|p: Processed| p@)
}

/// Every key that occurs in `keys`.
pub open spec fn keys_of(keys: Seq<Option<Seq<u8>>>) -> Set<Seq<u8>> {
    Set::new(|k: Seq<u8>| exists|j: int| 0 <= j < keys.len() && keys[j] == Some(k))
}

/// Whether the item at position `i` of a stream is a repeat, for a tracker
/// that started out with the keys `seen`: its key was seen before the stream
/// began or occurs earlier in the stream.
pub open spec fn is_repeat(seen: Set<Seq<u8>>, keys: Seq<Option<Seq<u8>>>, i: int) -> bool {
    is_seen(seen.union(keys_of(keys.take(i))), keys[i])
}

/// Marking the key at position `i` extends the keys of the first `i` items
/// to those of the first `i + 1`.
proof fn lemma_mark_step(seen: Set<Seq<u8>>, keys: Seq<Option<Seq<u8>>>, i: int)
    requires
        0 <= i < keys.len(),
    ensures
        mark(seen.union(keys_of(keys.take(i))), keys[i]) == seen.union(keys_of(keys.take(i + 1))),
{
    let before = keys.take(i);
    let after = keys.take(i + 1);
    assert forall|k: Seq<u8>| #[trigger] keys_of(after).contains(k) <==> (keys_of(before).contains(k)
        || keys[i] == Some(k)) by {
        if keys_of(after).contains(k) {
            let j = choose|j: int| 0 <= j < after.len() && after[j] == Some(k);
            if j < i {
                assert(before[j] == Some(k));
            }
        }
        if keys_of(before).contains(k) {
            let j = choose|j: int| 0 <= j < before.len() && before[j] == Some(k);
            assert(after[j] == Some(k));
        }
        if keys[i] == Some(k) {
            assert(after[i] == Some(k));
        }
    }
    assert(mark(seen.union(keys_of(before)), keys[i]) =~= seen.union(keys_of(after)));
}

/// The first item with a given key on a fresh tracker is emitted, and each
/// later item with that key, whatever came in between, is suppressed.
pub proof fn lemma_idempotent_suppression(keys: Seq<Option<Seq<u8>>>, k: Seq<u8>, i: int, j: int)
    requires
        0 <= i < j < keys.len(),
        keys[i] == Some(k),
        keys[j] == Some(k),
    ensures
        is_repeat(Set::empty(), keys, j),
        (forall|l: int| 0 <= l < i ==> keys[l] != Some(k)) ==> !is_repeat(Set::empty(), keys, i),
{
    assert(keys.take(j)[i] == Some(k));
    if forall|l: int| 0 <= l < i ==> keys[l] != Some(k) {
        if keys_of(keys.take(i)).contains(k) {
            let l = choose|l: int| 0 <= l < i && keys.take(i)[l] == Some(k);
            assert(keys[l] == Some(k));
        }
    }
}

/// An item without a key is never suppressed, however many items came before.
pub proof fn lemma_keyless_items_pass(seen: Set<Seq<u8>>, keys: Seq<Option<Seq<u8>>>, i: int)
    requires
        0 <= i < keys.len(),
        keys[i] is None,
    ensures
        !is_repeat(seen, keys, i),
{
}

/// Whatever order a shared tracker serialises its callers' checks in, each
/// key it had not seen before is let through by exactly one of them.
pub proof fn lemma_exactly_once(seen: Set<Seq<u8>>, keys: Seq<Option<Seq<u8>>>, k: Seq<u8>)
    requires
        !seen.contains(k),
        keys.contains(Some(k)),
    ensures
        exists|i: int|
            0 <= i < keys.len() && keys[i] == Some(k) && !is_repeat(seen, keys, i) && forall|j: int|
                0 <= j < keys.len() && j != i && keys[j] == Some(k) ==> is_repeat(seen, keys, j),
    decreases keys.len(),
{
    let n = keys.len() - 1;
    let prefix = keys.drop_last();
    assert forall|j: int| 0 <= j < n implies is_repeat(seen, keys, j) == is_repeat(seen, prefix, j) by {
        assert(keys.take(j) =~= prefix.take(j));
    }
    if prefix.contains(Some(k)) {
        lemma_exactly_once(seen, prefix, k);
        let i = choose|i: int|
            0 <= i < prefix.len() && prefix[i] == Some(k) && !is_repeat(seen, prefix, i) && forall|j: int|
                0 <= j < prefix.len() && j != i && prefix[j] == Some(k) ==> is_repeat(seen, prefix, j);
        if keys[n] == Some(k) {
            assert(keys.take(n)[i] == Some(k));
            assert(is_repeat(seen, keys, n));
        }
        assert(keys[i] == Some(k) && !is_repeat(seen, keys, i));
    } else {
        let w = choose|w: int| 0 <= w < keys.len() && keys[w] == Some(k);
        if w < n {
            assert(prefix[w] == Some(k));
        }
        assert(keys[n] == Some(k));
        if keys_of(keys.take(n)).contains(k) {
            let l = choose|l: int| 0 <= l < n && keys.take(n)[l] == Some(k);
            assert(prefix[l] == Some(k));
        }
        assert(!is_repeat(seen, keys, n));
        assert forall|j: int| 0 <= j < keys.len() && j != n && keys[j] == Some(k) implies is_repeat(
            seen,
            keys,
            j,
        ) by {
            assert(prefix[j] == Some(k));
        }
    }
}

/// Decides whether one item is emitted. With no gate every item is; with a
/// gate an item is emitted unless its key was seen before, and its key is
/// marked seen.
pub fn should_emit(gate: &mut Option<SyncDistinct>, pro: &Processed) -> (r: bool)
    ensures
        final(gate).is_some() == old(gate).is_some(),
        old(gate).is_none() ==> r,
        old(gate).is_some() ==> r == !is_seen(old(gate).unwrap()@, pro@),
        old(gate).is_some() ==> final(gate).unwrap()@ == mark(old(gate).unwrap()@, pro@),
{
    match gate {
        Some(tracker) => !tracker.check_already_processed(pro),
        None => true,
    }
}

/// Decides, item by item and in order, which items of a sequence are
/// emitted; returns one flag per item.
pub fn filter_stream(gate: &mut Option<SyncDistinct>, items: &Vec<Processed>) -> (r: Vec<bool>)
    ensures
        r@.len() == items@.len(),
        final(gate).is_some() == old(gate).is_some(),
        old(gate).is_none() ==> forall|i: int| 0 <= i < r@.len() ==> r@[i],
        old(gate).is_some() ==> forall|i: int|
            0 <= i < r@.len() ==> r@[i] == !is_repeat(old(gate).unwrap()@, keys_view(items@), i),
        old(gate).is_some() ==> final(gate).unwrap()@ == old(gate).unwrap()@.union(
            keys_of(keys_view(items@)),
        ),
{
    let ghost start = *gate;
    let ghost keys = keys_view(items@);
    let mut r: Vec<bool> = Vec::new();
    let mut i: usize = 0;
    proof {
        if start.is_some() {
            assert(keys_of(keys.take(0)) =~= Set::<Seq<u8>>::empty());
            assert(start.unwrap()@.union(keys_of(keys.take(0))) =~= start.unwrap()@);
        }
    }
    while i < items.len()
        invariant
            i <= items@.len(),
            keys == keys_view(items@),
            r@.len() == i,
            gate.is_some() == start.is_some(),
            start.is_none() ==> forall|j: int| 0 <= j < i ==> r@[j],
            start.is_some() ==> forall|j: int|
                0 <= j < i ==> r@[j] == !is_repeat(start.unwrap()@, keys, j),
            start.is_some() ==> gate.unwrap()@ == start.unwrap()@.union(keys_of(keys.take(i as int))),
        decreases items@.len() - i,
    {
        let emit = should_emit(gate, &items[i]);
        proof {
            assert(keys[i as int] == items@[i as int]@);
            if start.is_some() {
                lemma_mark_step(start.unwrap()@, keys, i as int);
            }
        }
        r.push(emit);
        i = i + 1;
    }
    proof {
        assert(keys.take(i as int) =~= keys);
    }
    r
}

} // verus!
