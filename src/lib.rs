//! Result deduplication for query execution: a tracker of the record keys
//! already emitted, and a gate, present only when the planner says that
//! duplicates are possible, that decides which result items are emitted.

pub mod trie;
pub mod tracker;
pub mod gate;
pub mod shared;
pub mod export;
