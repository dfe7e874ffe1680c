//! The record type, the error taxonomy, and the specification-level model of
//! a store's record sequence.

use vstd::prelude::*;

verus! {

/// Logical clock value supplied by the host environment for each call.
/// It is non-decreasing across calls.
pub type Timestamp = u64;

/// Opaque caller/owner identity. The store compares identities only for
/// equality; the inner value also fixes the order of the sorted owner
/// listing.
#[derive(Clone, Copy, PartialEq, Eq, Structural, Debug, Hash)]
pub struct AccountId(pub u64);

/// One error per rejected precondition; every operation checks its
/// preconditions before mutating anything, so an error means the store is
/// unchanged.
#[derive(Clone, Copy, PartialEq, Eq, Structural, Debug)]
pub enum CrudError {
    /// `create_message` while the caller already owns an active record.
    MessageAlreadyCreatedBySender,
    /// Supplied content shorter than [`MIN_MESSAGE_LEN`] characters.
    MessageTooShort,
    /// `update_message` with content equal to the current active content.
    MessageIsIdentical,
    /// No active record exists for the addressed identity, or the
    /// administrator's full listing is empty.
    AnyMessageFound,
    /// An administrator-only operation from another identity.
    Unauthorized,
}

/// Minimum content length, counted in characters.
pub const MIN_MESSAGE_LEN: usize = 10;

/// A stored record. `deleted_at: None` means the record is active; a deleted
/// record stays in the store as an immutable tombstone.
#[derive(Debug, PartialEq, Eq)]
pub struct Message {
    pub sender: AccountId,
    pub message: String,
    pub created_at: Timestamp,
    pub updated_at: Timestamp,
    pub deleted_at: Option<Timestamp>,
}

impl Clone for Message {
    /// Cloning preserves the record exactly.
    fn clone(&self) -> (r: Self)
        ensures
            r == *self,
    {
        Message {
            sender: self.sender,
            message: self.message.clone(),
            created_at: self.created_at,
            updated_at: self.updated_at,
            deleted_at: self.deleted_at,
        }
    }
}

impl Message {
    /// A fresh record starts active, with `updated_at` equal to
    /// `created_at`.
    pub fn new(sender: AccountId, message: String, created_at: Timestamp) -> (m: Self)
        ensures
            m.sender == sender,
            m.message == message,
            m.created_at == created_at,
            m.updated_at == created_at,
            m.deleted_at is None,
    {
        Self { sender, message, created_at, updated_at: created_at, deleted_at: None }
    }

    /// Stamps the record as deleted; every other field is left as it was.
    pub fn delete(&mut self, deleted_at: Timestamp)
        ensures
            final(self).sender == old(self).sender,
            final(self).message == old(self).message,
            final(self).created_at == old(self).created_at,
            final(self).updated_at == old(self).updated_at,
            final(self).deleted_at == Some(deleted_at),
    {
        self.deleted_at = Some(deleted_at);
    }

    /// Replaces the content and refreshes `updated_at`; the owner, the
    /// creation time and the deletion mark are left as they were.
    pub fn update(&mut self, message: String, updated_at: Timestamp)
        ensures
            final(self).sender == old(self).sender,
            final(self).message == message,
            final(self).created_at == old(self).created_at,
            final(self).updated_at == updated_at,
            final(self).deleted_at == old(self).deleted_at,
    {
        self.message = message;
        self.updated_at = updated_at;
    }
}

/// An active record is one that has not been deleted.
pub open spec fn is_active(m: Message) -> bool {
    m.deleted_at is None
}

/// `s[i]` is the active record owned by `who`.
pub open spec fn owns_active_at(s: Seq<Message>, who: AccountId, i: int) -> bool {
    0 <= i < s.len() && s[i].sender == who && is_active(s[i])
}

/// `who` currently owns an active record in `s`.
pub open spec fn has_active(s: Seq<Message>, who: AccountId) -> bool {
    exists|i: int| owns_active_at(s, who, i)
}

/// The position of `who`'s active record. Meaningful only when
/// `has_active(s, who)` holds; under [`unique_active_owners`] that position
/// is unique.
pub open spec fn active_index(s: Seq<Message>, who: AccountId) -> int {
    choose|i: int| owns_active_at(s, who, i)
}

/// `who`'s active record. Meaningful only when `has_active(s, who)` holds.
pub open spec fn active_message(s: Seq<Message>, who: AccountId) -> Message {
    s[active_index(s, who)]
}

/// The content a read addressed to `who` observes: the active record's
/// content, or nothing when `who` has no active record.
pub open spec fn active_content(s: Seq<Message>, who: AccountId) -> Option<Seq<char>> {
    if has_active(s, who) {
        Some(active_message(s, who).message@)
    } else {
        None
    }
}

/// Per-record well-formedness: content long enough, and the timestamps in
/// life-cycle order (created, then last updated, then possibly deleted).
pub open spec fn message_wf(m: Message) -> bool {
    &&& m.message@.len() >= MIN_MESSAGE_LEN as int
    &&& m.created_at <= m.updated_at
    &&& (m.deleted_at matches Some(d) ==> m.updated_at <= d)
}

/// At most one active record per identity.
pub open spec fn unique_active_owners(s: Seq<Message>) -> bool {
    forall|i: int, j: int|
        #![trigger s[i], s[j]]
        0 <= i < s.len() && 0 <= j < s.len() && i != j && is_active(s[i]) && is_active(s[j])
            ==> s[i].sender != s[j].sender
}

/// The store invariant over the record sequence.
pub open spec fn store_wf(s: Seq<Message>) -> bool {
    &&& unique_active_owners(s)
    &&& forall|i: int| 0 <= i < s.len() ==> message_wf(#[trigger] s[i])
}

/// Every timestamp already stored is at or before `now`. The host's clock is
/// non-decreasing across calls, so this holds of the time it supplies to a
/// mutating operation.
pub open spec fn times_le(s: Seq<Message>, now: Timestamp) -> bool {
    forall|i: int|
        0 <= i < s.len() ==> {
            &&& (#[trigger] s[i]).created_at <= now
            &&& s[i].updated_at <= now
            &&& (s[i].deleted_at matches Some(d) ==> d <= now)
        }
}

/// Appending a record whose owner has no active record keeps active owners
/// unique.
pub proof fn lemma_push_keeps_unique(s: Seq<Message>, m: Message)
    requires
        unique_active_owners(s),
        !has_active(s, m.sender),
    ensures
        unique_active_owners(s.push(m)),
{
    let sn = s.push(m);
    assert forall|i: int, j: int|
        0 <= i < sn.len() && 0 <= j < sn.len() && i != j && is_active(sn[i]) && is_active(
            sn[j],
        ) implies sn[i].sender != sn[j].sender by {
        if i < s.len() && j < s.len() {
            assert(sn[i] == s[i] && sn[j] == s[j]);
        } else if i == s.len() {
            assert(sn[j] == s[j]);
            assert(!owns_active_at(s, m.sender, j));
        } else {
            assert(sn[i] == s[i]);
            assert(!owns_active_at(s, m.sender, i));
        }
    }
}

/// Replacing a record in place keeps active owners unique, as long as the
/// replacement is inactive or keeps the owner of the active record it
/// replaces.
pub proof fn lemma_update_keeps_unique(s: Seq<Message>, i: int, m: Message)
    requires
        unique_active_owners(s),
        0 <= i < s.len(),
        is_active(m) ==> is_active(s[i]) && m.sender == s[i].sender,
    ensures
        unique_active_owners(s.update(i, m)),
{
    let sn = s.update(i, m);
    assert forall|p: int, q: int|
        0 <= p < sn.len() && 0 <= q < sn.len() && p != q && is_active(sn[p]) && is_active(
            sn[q],
        ) implies sn[p].sender != sn[q].sender by {
        if p != i && q != i {
            assert(sn[p] == s[p] && sn[q] == s[q]);
        } else if p == i {
            assert(sn[q] == s[q]);
            assert(is_active(s[p]) && sn[p].sender == s[p].sender);
        } else {
            assert(sn[p] == s[p]);
            assert(is_active(s[q]) && sn[q].sender == s[q].sender);
        }
    }
}

/// Under [`unique_active_owners`], any position holding `who`'s active
/// record is the position [`active_index`] denotes.
pub proof fn lemma_active_index_is(s: Seq<Message>, who: AccountId, i: int)
    requires
        unique_active_owners(s),
        owns_active_at(s, who, i),
    ensures
        has_active(s, who),
        active_index(s, who) == i,
{
    assert(has_active(s, who));
    let j = active_index(s, who);
    assert(owns_active_at(s, who, j));
    if i != j {
        assert(s[i].sender != s[j].sender);
        assert(false);
    }
}

} // verus!
