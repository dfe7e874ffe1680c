//! Store-wide laws, stated over the specification model and proved once and
//! for all. Each law is phrased over the same model terms the operations'
//! contracts use: a `create` that succeeds appends its record, an `update`
//! or a `delete` that succeeds replaces the record at [`active_index`], and
//! a read observes [`active_content`].

use vstd::prelude::*;

use crate::record::AccountId;
use crate::record::Message;
use crate::record::active_content;
use crate::record::active_index;
use crate::record::active_message;
use crate::record::has_active;
use crate::record::is_active;
use crate::record::lemma_active_index_is;
use crate::record::lemma_push_keeps_unique;
use crate::record::lemma_update_keeps_unique;
use crate::record::owns_active_at;
use crate::record::unique_active_owners;

verus! {

/// Reading is idempotent: two reads of the same identity against the same
/// store state observe the same content, since a read leaves the state
/// unchanged and its result is a function of that state alone.
pub proof fn lemma_read_one_idempotent(
    s: Seq<Message>,
    who: AccountId,
    r1: Option<Seq<char>>,
    r2: Option<Seq<char>>,
)
    requires
        r1 == active_content(s, who),
        r2 == active_content(s, who),
    ensures
        r1 == r2,
{
}

/// Create-then-read: appending an active record for an identity that had no
/// active record makes a read of that identity observe exactly the new
/// record's content.
pub proof fn lemma_create_then_read(s: Seq<Message>, m: Message)
    requires
        unique_active_owners(s),
        !has_active(s, m.sender),
        is_active(m),
    ensures
        has_active(s.push(m), m.sender),
        active_content(s.push(m), m.sender) == Some(m.message@),
{
    let sn = s.push(m);
    lemma_push_keeps_unique(s, m);
    assert(owns_active_at(sn, m.sender, s.len() as int));
    lemma_active_index_is(sn, m.sender, s.len() as int);
}

/// Double-create rejection: once a record is created, its owner has an
/// active record, so an immediately following `create_message` from the same
/// identity takes the `MessageAlreadyCreatedBySender` branch of the create
/// contract and leaves the store unchanged.
pub proof fn lemma_double_create_rejected(s: Seq<Message>, m: Message)
    requires
        is_active(m),
    ensures
        has_active(s.push(m), m.sender),
{
    assert(owns_active_at(s.push(m), m.sender, s.len() as int));
}

/// Update round-trip: after creating a record and then replacing it (at its
/// active position) with one that keeps the owner and the creation time but
/// carries new content, a read observes the new content while `created_at`
/// still carries the creation time.
pub proof fn lemma_update_round_trip(s: Seq<Message>, m: Message, m2: Message)
    requires
        unique_active_owners(s),
        !has_active(s, m.sender),
        is_active(m),
        m2.sender == m.sender,
        m2.created_at == m.created_at,
        is_active(m2),
    ensures
        ({
            let s1 = s.push(m);
            let s2 = s1.update(active_index(s1, m.sender), m2);
            &&& active_content(s2, m.sender) == Some(m2.message@)
            &&& active_message(s2, m.sender).created_at == m.created_at
        }),
{
    let who = m.sender;
    let s1 = s.push(m);
    lemma_push_keeps_unique(s, m);
    assert(owns_active_at(s1, who, s.len() as int));
    lemma_active_index_is(s1, who, s.len() as int);
    let s2 = s1.update(s.len() as int, m2);
    lemma_update_keeps_unique(s1, s.len() as int, m2);
    assert(owns_active_at(s2, who, s.len() as int));
    lemma_active_index_is(s2, who, s.len() as int);
}

/// Delete then re-create: stamping the identity's active record as deleted
/// leaves the identity with no active record, so a new create is allowed;
/// afterwards the history holds both records, the tombstone and the new one,
/// with only the new one active, and a read observes the new content.
pub proof fn lemma_delete_then_recreate(s: Seq<Message>, who: AccountId, d: Message, m2: Message)
    requires
        unique_active_owners(s),
        has_active(s, who),
        d.sender == who,
        !is_active(d),
        m2.sender == who,
        is_active(m2),
    ensures
        ({
            let i = active_index(s, who);
            let s1 = s.update(i, d);
            let s2 = s1.push(m2);
            &&& !has_active(s1, who)
            &&& has_active(s2, who)
            &&& s2[i] == d
            &&& s2[s2.len() - 1] == m2
            &&& active_content(s2, who) == Some(m2.message@)
        }),
{
    let i = active_index(s, who);
    assert(owns_active_at(s, who, i));
    let s1 = s.update(i, d);
    assert forall|j: int| !owns_active_at(s1, who, j) by {
        if 0 <= j < s1.len() && j != i {
            if owns_active_at(s1, who, j) {
                assert(owns_active_at(s, who, j));
                lemma_active_index_is(s, who, j);
            }
        }
    }
    lemma_update_keeps_unique(s, i, d);
    let s2 = s1.push(m2);
    lemma_push_keeps_unique(s1, m2);
    assert(owns_active_at(s2, who, s1.len() as int));
    lemma_active_index_is(s2, who, s1.len() as int);
}

/// Deleted-owner exclusion: an identity all of whose records are deleted has
/// no active record, so the owner listing — which contains exactly the
/// identities with an active record — never includes it.
pub proof fn lemma_deleted_owner_excluded(s: Seq<Message>, who: AccountId)
    requires
        forall|i: int| 0 <= i < s.len() && s[i].sender == who ==> !is_active(#[trigger] s[i]),
    ensures
        !has_active(s, who),
{
}

} // verus!
