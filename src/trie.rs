//! The prefix tree that holds the keys seen so far, taken from `radix_trie`.

use vstd::prelude::*;

verus! {

/// Byte-string keys, each mapped to a flag.
pub type KeyTrie = radix_trie::Trie<Vec<u8>, bool>;

#[verifier::external_type_specification]
#[verifier::external_body]
#[verifier::reject_recursive_types(K)]
#[verifier::reject_recursive_types(V)]
pub struct ExTrie<K, V>(radix_trie::Trie<K, V>);

/// Stored keys, as bytes, with their values.
pub type TrieEntries = Map<Seq<u8>, bool>;

/// What a trie holds: each stored key, as bytes, with its value.
pub uninterp spec fn trie_entries(t: KeyTrie) -> TrieEntries;

/// Relies on `radix_trie::Trie::new`: a new trie holds no key.
#[verifier::external_body]
pub(crate) fn trie_new() -> (r: KeyTrie)
    ensures
        trie_entries(r) == TrieEntries::empty(),
{
    radix_trie::Trie::new()
}

/// Relies on `radix_trie::Trie::get`: the value stored under `key`, if any.
/// A `Vec<u8>` key encodes as its own bytes, so two keys share a slot only
/// when they are equal, and the lookup's key check never fails.
#[verifier::external_body]
pub(crate) fn trie_get(t: &KeyTrie, key: &Vec<u8>) -> (r: Option<bool>)
    ensures
        r.is_some() == trie_entries(*t).contains_key(key@),
        r.is_some() ==> r.unwrap() == trie_entries(*t)[key@],
{
    t.get(key).copied()
}

/// Relies on `radix_trie::Trie::insert`: stores `value` under `key`,
/// replacing and returning the value that was there before, if any.
#[verifier::external_body]
pub(crate) fn trie_insert(t: &mut KeyTrie, key: Vec<u8>, value: bool) -> (r: Option<bool>)
    ensures
        trie_entries(*final(t)) == trie_entries(*old(t)).insert(key@, value),
        r.is_some() == trie_entries(*old(t)).contains_key(key@),
        r.is_some() ==> r.unwrap() == trie_entries(*old(t))[key@],
{
    t.insert(key, value)
}

} // verus!
