//! The tracker shared by concurrently running execution branches: one
//! tracker behind an asynchronous mutex, reachable from every handle.

use std::sync::Arc;
use vstd::prelude::*;
use crate::tracker::SyncDistinct;

verus! {

#[verifier::external_type_specification]
#[verifier::external_body]
#[verifier::reject_recursive_types(T)]
pub struct ExMutex<T: ?Sized>(tokio::sync::Mutex<T>);

/// Relies on `tokio::sync::Mutex::new`: an unlocked mutex that owns the
/// tracker from now on. Nothing about the value inside is visible here.
#[verifier::external_body]
fn new_lock(tracker: SyncDistinct) -> tokio::sync::Mutex<SyncDistinct> {
    tokio::sync::Mutex::new(tracker)
}

/// A handle on a tracker shared by several execution branches. Cloning the
/// handle shares the tracker; every check takes the lock for exactly one
/// check-and-mark of the tracker inside.
#[derive(Clone)]
pub struct AsyncDistinct {
    processed: Arc<tokio::sync::Mutex<SyncDistinct>>,
}

impl AsyncDistinct {
    /// Creates a handle on an empty shared tracker when the planner says the
    /// plan can yield a record more than once, and nothing otherwise.
    pub fn new(requires_distinct: bool) -> (r: Option<Self>)
        ensures
            r.is_some() == requires_distinct,
    {
        match SyncDistinct::new(requires_distinct) {
            Some(tracker) => Some(AsyncDistinct { processed: Arc::new(new_lock(tracker)) }),
            None => None,
        }
    }

    /// The lock around the shared tracker, through which each check goes.
    pub fn tracker(&self) -> &Arc<tokio::sync::Mutex<SyncDistinct>> {
        &self.processed
    }
}

} // verus!
