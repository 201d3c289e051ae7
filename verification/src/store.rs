//! The concurrent post store: holds the current snapshot behind an
//! atomically replaceable shared handle. Readers take owned handles that
//! stay valid and internally consistent across later publishes; exactly
//! one writer replaces the snapshot wholesale.

use vstd::prelude::*;

use std::sync::Arc;

use crate::snapshot::{RenderedPost, Snapshot};

verus! {

/// An owned handle to a published snapshot. A handle keeps the snapshot
/// it was taken from alive and unchanged, whatever the store publishes
/// afterwards.
pub type SnapshotHandle = Arc<Snapshot>;

/// Relies on `Arc::clone`: a new handle to the same shared snapshot.
#[verifier::external_body]
fn handle_clone(a: &Arc<Snapshot>) -> (r: Arc<Snapshot>)
    ensures
        *r == **a,
{
    Arc::clone(a)
}

/// Relies on `Arc`'s deref: a handle reads the snapshot it points to.
#[verifier::external_body]
pub fn handle_snapshot(a: &Arc<Snapshot>) -> (r: &Snapshot)
    ensures
        *r == **a,
{
    &*a
}

/// Holds the current snapshot and serves it to readers without blocking
/// them against the writer.
#[derive(Debug)]
pub struct Store {
    current: Arc<Snapshot>,
}

impl Store {
    /// The presently published snapshot.
    pub closed spec fn spec_current(self) -> Snapshot {
        *self.current
    }

    /// A store is well formed when its published snapshot is.
    pub open spec fn wf(self) -> bool {
        self.spec_current().wf()
    }

    /// A new store, publishing the empty snapshot.
    pub fn new() -> (r: Store)
        ensures
            r.spec_current()@ == Seq::<RenderedPost>::empty(),
            r.wf(),
    {
        Store { current: Arc::new(Snapshot::empty()) }
    }

    /// Returns a handle to the presently published snapshot. The handle is
    /// an owned value: a later `publish` cannot reach it, so it keeps
    /// reporting the contents it was taken with.
    pub fn current(&self) -> (r: SnapshotHandle)
        ensures
            *r == self.spec_current(),
    {
        handle_clone(&self.current)
    }

    /// Atomically replaces the published snapshot. Readers already holding
    /// a handle are unaffected; the next `current` call observes `s`.
    pub fn publish(&mut self, s: Snapshot)
        ensures
            final(self).spec_current() == s,
    {
        self.current = Arc::new(s);
    }

    /// Looks a post up in the presently published snapshot. Absence is a
    /// normal not-found result.
    pub fn get_by_id(&self, id: &str) -> (r: Option<&RenderedPost>)
        ensures
            match r {
                Some(p) => self.spec_current().has_post(id@) && self.spec_current()@.contains(*p)
                    && p@.id == id@,
                None => !self.spec_current().has_post(id@),
            },
    {
        handle_snapshot(&self.current).get_by_id(id)
    }

    /// The posts of the presently published snapshot, ordered descending
    /// by publish timestamp with ties broken by ascending id.
    pub fn list_sorted(&self) -> (r: &Vec<RenderedPost>)
        ensures
            r@ == self.spec_current()@,
    {
        handle_snapshot(&self.current).posts()
    }
}

} // verus!
