//! The revision of the chat list view: each change invalidates the view,
//! and the changes made inside a batch invalidate it once, when the batch
//! ends.
use vstd::prelude::*;

verus! {

/// The chat list's revision and the batch of changes under way.
#[derive(Clone, Copy, Debug, PartialEq, Eq, Structural)]
pub struct ChatListRevision {
    pub revision: u64,
    pub depth: u64,
    pub pending: bool,
}

/// The revision after the next one, wrapping around.
pub open spec fn next_revision(r: u64) -> u64 {
    if r == u64::MAX {
        0
    } else {
        (r + 1) as u64
    }
}

/// The state after one change.
pub open spec fn invalidated(s: ChatListRevision) -> ChatListRevision {
    if s.depth > 0 {
        ChatListRevision { pending: true, ..s }
    } else {
        ChatListRevision { revision: next_revision(s.revision), ..s }
    }
}

/// The state after `n` changes.
pub open spec fn invalidated_times(s: ChatListRevision, n: nat) -> ChatListRevision
    decreases n,
{
    if n == 0 {
        s
    } else {
        invalidated(invalidated_times(s, (n - 1) as nat))
    }
}

/// The state once a batch has begun.
pub open spec fn batch_begun(s: ChatListRevision) -> ChatListRevision {
    ChatListRevision { depth: (s.depth + 1) as u64, ..s }
}

/// The state once a batch has ended: the outermost batch publishes the
/// changes made inside it as one new revision.
pub open spec fn batch_ended(s: ChatListRevision) -> ChatListRevision {
    let depth = (s.depth - 1) as u64;
    if depth == 0 && s.pending {
        ChatListRevision { revision: next_revision(s.revision), depth, pending: false }
    } else {
        ChatListRevision { depth, ..s }
    }
}

impl ChatListRevision {
    /// Revision 0, no batch.
    pub fn new() -> (s: ChatListRevision)
        ensures
            s == (ChatListRevision { revision: 0, depth: 0, pending: false }),
    {
        ChatListRevision { revision: 0, depth: 0, pending: false }
    }

    /// Marks the view stale: a new revision, or, inside a batch, one
    /// pending for the batch's end.
    pub fn invalidate_chat_list(&mut self)
        ensures
            *final(self) == invalidated(*old(self)),
    {
        if self.depth > 0 {
            self.pending = true;
        } else {
            self.revision = self.revision.wrapping_add(1);
        }
    }

    /// Begins a batch of changes.
    pub fn begin_chat_list_mutation(&mut self)
        requires
            old(self).depth < u64::MAX,
        ensures
            *final(self) == batch_begun(*old(self)),
    {
        self.depth = self.depth + 1;
    }

    /// Ends a batch of changes.
    pub fn end_chat_list_mutation(&mut self)
        requires
            old(self).depth > 0,
        ensures
            *final(self) == batch_ended(*old(self)),
    {
        self.depth = self.depth - 1;
        if self.depth == 0 && self.pending {
            self.pending = false;
            self.revision = self.revision.wrapping_add(1);
        }
    }
}

proof fn lemma_invalidated_in_batch(s: ChatListRevision, n: nat)
    requires
        s.depth > 0,
    ensures
        invalidated_times(s, n).depth == s.depth,
        invalidated_times(s, n).revision == s.revision,
        invalidated_times(s, n).pending == (s.pending || n > 0),
    decreases n,
{
    if n > 0 {
        lemma_invalidated_in_batch(s, (n - 1) as nat);
    }
}

/// Changes made inside an outermost batch give the view one new revision
/// when the batch ends, however many there were, and none where there was
/// no change.
pub proof fn lemma_batch_publishes_once(s: ChatListRevision, n: nat)
    requires
        s.depth == 0,
        !s.pending,
    ensures
        batch_ended(invalidated_times(batch_begun(s), n)).revision == (if n > 0 {
            next_revision(s.revision)
        } else {
            s.revision
        }),
        batch_ended(invalidated_times(batch_begun(s), n)).depth == 0,
        !batch_ended(invalidated_times(batch_begun(s), n)).pending,
{
    lemma_invalidated_in_batch(batch_begun(s), n);
}

/// What the chat list view needs before it is shown.
#[derive(Clone, Copy, Debug, PartialEq, Eq)]
pub struct ViewRefresh {
    /// Build the rows again from the stores.
    pub rebuild_rows: bool,
    /// Filter the rows again by the search query.
    pub refilter: bool,
}

/// The rows are built again only when no view exists or its revision is
/// not the list's; they are filtered again after a rebuild or when the
/// query changed.
pub fn view_refresh(cached_revision: Option<u64>, revision: u64, cached_query: Option<&str>, query: &str) -> (r:
    ViewRefresh)
    ensures
        r.rebuild_rows == (cached_revision != Some(revision)),
        r.refilter == (r.rebuild_rows || !(cached_query matches Some(q) && q@ == query@)),
{
    let rebuild_rows = match cached_revision {
        Some(c) => c != revision,
        None => true,
    };
    let same_query = match cached_query {
        Some(q) => crate::text_order::compare_text(q, query) == crate::text_order::Comparison::Equal,
        None => false,
    };
    ViewRefresh { rebuild_rows, refilter: rebuild_rows || !same_query }
}

} // verus!
