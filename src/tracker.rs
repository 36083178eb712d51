//! The identity tracker: the set of record keys already surfaced during one
//! query execution, with its single check-and-mark operation.

use vstd::prelude::*;
use crate::trie::{KeyTrie, trie_entries, trie_new, trie_get, trie_insert};

verus! {

/// Whether `key` counts as already surfaced, given the keys in `seen`.
/// An item without a key is never a repeat.
pub open spec fn is_seen(seen: Set<Seq<u8>>, key: Option<Seq<u8>>) -> bool {
    match key {
        Some(k) => seen.contains(k),
        None => false,
    }
}

/// The keys seen after `key` has been checked and marked.
pub open spec fn mark(seen: Set<Seq<u8>>, key: Option<Seq<u8>>) -> Set<Seq<u8>> {
    match key {
        Some(k) => seen.insert(k),
        None => seen,
    }
}

/// Marking one key leaves whether any other key is seen as it was.
pub proof fn lemma_keys_independent(seen: Set<Seq<u8>>, k1: Seq<u8>, k2: Seq<u8>)
    requires
        k1 != k2,
    ensures
        is_seen(mark(seen, Some(k1)), Some(k2)) == is_seen(seen, Some(k2)),
{
}

/// One unit of query output, reduced to what deduplication reads: the key
/// encoded from its record identifier, absent for rows with no identity.
pub struct Processed {
    pub key: Option<Vec<u8>>,
}

impl View for Processed {
    type V = Option<Seq<u8>>;

    open spec fn view(&self) -> Option<Seq<u8>> {
        match self.key {
            Some(k) => Some(k@),
            None => None,
        }
    }
}

/// The keys marked seen during one execution. Keys are only ever added.
pub struct SyncDistinct {
    processed: KeyTrie,
}

impl View for SyncDistinct {
    type V = Set<Seq<u8>>;

    closed spec fn view(&self) -> Set<Seq<u8>> {
        trie_entries(self.processed).dom()
    }
}

impl Default for SyncDistinct {
    fn default() -> (r: Self)
        ensures
            r@ == Set::<Seq<u8>>::empty(),
    {
        let r = SyncDistinct { processed: trie_new() };
        assert(r@ =~= Set::<Seq<u8>>::empty());
        r
    }
}

impl SyncDistinct {
    /// Creates an empty tracker when the planner says the plan can yield a
    /// record more than once, and nothing otherwise.
    pub fn new(requires_distinct: bool) -> (r: Option<Self>)
        ensures
            r.is_some() == requires_distinct,
            r.is_some() ==> r.unwrap()@ == Set::<Seq<u8>>::empty(),
    {
        if requires_distinct {
            Some(Self::default())
        } else {
            None
        }
    }

    /// Returns whether `key` was already seen; if it was not, marks it seen.
    pub fn check_and_mark(&mut self, key: &Vec<u8>) -> (r: bool)
        ensures
            r == old(self)@.contains(key@),
            final(self)@ == old(self)@.insert(key@),
    {
        if trie_get(&self.processed, key).is_some() {
            assert(old(self)@ =~= old(self)@.insert(key@));
            true
        } else {
            let k = key.clone();
            assert(k@ =~= key@);
            trie_insert(&mut self.processed, k, true);
            assert(self@ =~= old(self)@.insert(key@));
            false
        }
    }

    /// Returns whether the item is a repeat that must be suppressed, marking
    /// its key seen. Items without a key are never repeats.
    pub fn check_already_processed(&mut self, pro: &Processed) -> (r: bool)
        ensures
            r == is_seen(old(self)@, pro@),
            final(self)@ == mark(old(self)@, pro@),
    {
        match &pro.key {
            Some(key) => self.check_and_mark(key),
            None => false,
        }
    }
}

} // verus!
