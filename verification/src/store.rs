//! The record store: one append-only sequence of records plus one
//! administrator identity, with the five public operations and the sorted
//! owner listing.

use vstd::prelude::*;
use vstd::string::StrSliceExecFns;

use crate::record::AccountId;
use crate::record::CrudError;
use crate::record::Message;
use crate::record::Timestamp;
use crate::record::MIN_MESSAGE_LEN;
use crate::record::active_content;
use crate::record::active_index;
use crate::record::active_message;
use crate::record::has_active;
use crate::record::is_active;
use crate::record::lemma_active_index_is;
use crate::record::message_wf;
use crate::record::owns_active_at;
use crate::record::store_wf;
use crate::record::times_le;
use crate::record::unique_active_owners;

verus! {

/// Records ordered from the most recently created to the oldest.
pub open spec fn sorted_desc_by_created(s: Seq<Message>) -> bool {
    forall|i: int, j: int|
        #![trigger s[i], s[j]]
        0 <= i < j < s.len() ==> s[i].created_at >= s[j].created_at
}

/// Identities in non-decreasing order.
pub open spec fn sorted_asc_accounts(s: Seq<AccountId>) -> bool {
    forall|i: int, j: int| #![trigger s[i], s[j]] 0 <= i < j < s.len() ==> s[i].0 <= s[j].0
}

/// Identities in strictly increasing order; in particular, no duplicates.
pub open spec fn strictly_sorted_accounts(s: Seq<AccountId>) -> bool {
    forall|i: int, j: int| #![trigger s[i], s[j]] 0 <= i < j < s.len() ==> s[i].0 < s[j].0
}

/// The content of the record the store is seeded with at construction.
pub open spec fn init_message_text() -> Seq<char> {
    "First record: the store is open."@
}

/// Builds the seed content as an owned string.
fn init_message() -> (r: String)
    ensures
        r@ == init_message_text(),
{
    "First record: the store is open.".to_owned()
}

/// The record store. `messages` only ever grows; `creator` is the
/// administrator identity, fixed at construction.
pub struct CrudContract {
    pub messages: Vec<Message>,
    pub creator: AccountId,
}

impl CrudContract {
    /// The store invariant: at most one active record per identity, and
    /// every record individually well-formed.
    pub open spec fn wf(self) -> bool {
        store_wf(self.messages@)
    }

    /// Constructs a store administered by `creator` and seeded with one
    /// active record owned by `creator`.
    pub fn new(creator: AccountId, now: Timestamp) -> (c: Self)
        ensures
            c.wf(),
            c.creator == creator,
            times_le(c.messages@, now),
            c.messages@.len() == 1,
            c.messages@[0].sender == creator,
            c.messages@[0].message@ == init_message_text(),
            c.messages@[0].created_at == now,
            c.messages@[0].updated_at == now,
            is_active(c.messages@[0]),
    {
        let mut messages: Vec<Message> = Vec::new();
        let init_message: String = init_message();
        messages.push(Message::new(creator, init_message, now));
        proof {
            reveal_strlit("First record: the store is open.");
            assert(init_message_text().len() == 32);
        }
        Self { messages, creator }
    }

    /// Finds the position of the first active record owned by `who`.
    fn find_active_index(&self, who: AccountId) -> (r: Option<usize>)
        ensures
            match r {
                Some(i) => owns_active_at(self.messages@, who, i as int) && (forall|j: int|
                    0 <= j < i ==> !owns_active_at(self.messages@, who, j)),
                None => !has_active(self.messages@, who),
            },
    {
        let mut i: usize = 0;
        while i < self.messages.len()
            invariant
                i <= self.messages@.len(),
                forall|j: int| 0 <= j < i ==> !owns_active_at(self.messages@, who, j),
            decreases self.messages@.len() - i,
        {
            let m = &self.messages[i];
            if m.sender == who && m.deleted_at.is_none() {
                return Some(i);
            }
            i += 1;
        }
        None
    }

    /// A copy of the caller's active record, when one exists.
    fn get_caller_message(&self, caller: AccountId) -> (r: Option<Message>)
        requires
            unique_active_owners(self.messages@),
        ensures
            match r {
                Some(m) => has_active(self.messages@, caller) && m == active_message(
                    self.messages@,
                    caller,
                ),
                None => !has_active(self.messages@, caller),
            },
    {
        match self.find_active_index(caller) {
            Some(i) => {
                proof {
                    lemma_active_index_is(self.messages@, caller, i as int);
                }
                Some(self.messages[i].clone())
            },
            None => None,
        }
    }

    /// Passes exactly when `caller` is the administrator.
    fn is_authorized(&self, caller: AccountId) -> (r: Result<(), CrudError>)
        ensures
            (r matches Ok(_)) <==> caller == self.creator,
            (r matches Err(e) ==> e == CrudError::Unauthorized),
    {
        if caller != self.creator {
            return Err(CrudError::Unauthorized);
        }
        Ok(())
    }

    /// Passes exactly when `message` reaches the minimum content length.
    fn is_message_too_short(&self, message: &String) -> (r: Result<(), CrudError>)
        ensures
            (r matches Ok(_)) <==> message@.len() >= MIN_MESSAGE_LEN as int,
            (r matches Err(e) ==> e == CrudError::MessageTooShort),
    {
        if message.as_str().unicode_len() < MIN_MESSAGE_LEN {
            return Err(CrudError::MessageTooShort);
        }
        Ok(())
    }

    /// Passes exactly when `caller` owns an active record, so that an update
    /// or a deletion may address it.
    fn can_edit_message(&self, caller: AccountId) -> (r: Result<(), CrudError>)
        ensures
            (r matches Ok(_)) <==> has_active(self.messages@, caller),
            (r matches Err(e) ==> e == CrudError::AnyMessageFound),
    {
        if self.find_active_index(caller).is_some() {
            Ok(())
        } else {
            Err(CrudError::AnyMessageFound)
        }
    }

    /// Passes exactly when `caller` owns no active record, so that a new one
    /// may be created.
    fn can_create_message(&self, caller: AccountId) -> (r: Result<(), CrudError>)
        ensures
            (r matches Ok(_)) <==> !has_active(self.messages@, caller),
            (r matches Err(e) ==> e == CrudError::MessageAlreadyCreatedBySender),
    {
        if self.find_active_index(caller).is_none() {
            Ok(())
        } else {
            Err(CrudError::MessageAlreadyCreatedBySender)
        }
    }

    /// Appends a new active record owned by `caller`, after checking that
    /// `caller` owns no active record and that the content is long enough.
    /// On any error the store is unchanged.
    pub fn create_message(&mut self, caller: AccountId, message: String, now: Timestamp) -> (r:
        Result<(), CrudError>)
        requires
            old(self).wf(),
        ensures
            final(self).wf(),
            final(self).creator == old(self).creator,
            (r matches Ok(_)) <==> (!has_active(old(self).messages@, caller) && message@.len()
                >= MIN_MESSAGE_LEN as int),
            (r == Err::<(), CrudError>(CrudError::MessageAlreadyCreatedBySender)) <==> has_active(
                old(self).messages@,
                caller,
            ),
            (r == Err::<(), CrudError>(CrudError::MessageTooShort)) <==> (!has_active(
                old(self).messages@,
                caller,
            ) && message@.len() < MIN_MESSAGE_LEN as int),
            (r matches Err(_) ==> *final(self) == *old(self)),
            (r matches Ok(_) ==> final(self).messages@ == old(self).messages@.push(
                (Message {
                    sender: caller,
                    message: message,
                    created_at: now,
                    updated_at: now,
                    deleted_at: None,
                }),
            )),
    {
        match self.can_create_message(caller) {
            Err(e) => {
                return Err(e);
            },
            Ok(()) => {},
        }
        match self.is_message_too_short(&message) {
            Err(e) => {
                return Err(e);
            },
            Ok(()) => {},
        }
        self.messages.push(Message::new(caller, message, now));
        proof {
            let so = old(self).messages@;
            let sn = self.messages@;
            assert(sn[so.len() as int].sender == caller);
            assert forall|i: int, j: int|
                0 <= i < sn.len() && 0 <= j < sn.len() && i != j && is_active(sn[i]) && is_active(
                    sn[j],
                ) implies sn[i].sender != sn[j].sender by {
                if i < so.len() && j < so.len() {
                    assert(sn[i] == so[i] && sn[j] == so[j]);
                } else if i == so.len() {
                    assert(sn[j] == so[j]);
                    assert(!owns_active_at(so, caller, j));
                } else {
                    assert(sn[i] == so[i]);
                    assert(!owns_active_at(so, caller, i));
                }
            }
        }
        Ok(())
    }

    /// Replaces the content of `caller`'s active record and refreshes its
    /// `updated_at`, after checking that such a record exists, that the new
    /// content is long enough, and that it differs from the current content.
    /// The owner and `created_at` are left as they were; on any error the
    /// store is unchanged.
    pub fn update_message(&mut self, caller: AccountId, message: String, now: Timestamp) -> (r:
        Result<(), CrudError>)
        requires
            old(self).wf(),
            times_le(old(self).messages@, now),
        ensures
            final(self).wf(),
            final(self).creator == old(self).creator,
            (r matches Ok(_)) <==> (has_active(old(self).messages@, caller) && message@.len()
                >= MIN_MESSAGE_LEN as int && message@ != active_message(
                old(self).messages@,
                caller,
            ).message@),
            (r == Err::<(), CrudError>(CrudError::AnyMessageFound)) <==> !has_active(
                old(self).messages@,
                caller,
            ),
            (r == Err::<(), CrudError>(CrudError::MessageTooShort)) <==> (has_active(
                old(self).messages@,
                caller,
            ) && message@.len() < MIN_MESSAGE_LEN as int),
            (r == Err::<(), CrudError>(CrudError::MessageIsIdentical)) <==> (has_active(
                old(self).messages@,
                caller,
            ) && message@.len() >= MIN_MESSAGE_LEN as int && message@ == active_message(
                old(self).messages@,
                caller,
            ).message@),
            (r matches Err(_) ==> *final(self) == *old(self)),
            (r matches Ok(_) ==> ({
                let i = active_index(old(self).messages@, caller);
                final(self).messages@ == old(self).messages@.update(
                    i,
                    (Message {
                        sender: old(self).messages@[i].sender,
                        message: message,
                        created_at: old(self).messages@[i].created_at,
                        updated_at: now,
                        deleted_at: old(self).messages@[i].deleted_at,
                    }),
                )
            })),
    {
        match self.can_edit_message(caller) {
            Err(e) => {
                return Err(e);
            },
            Ok(()) => {},
        }
        match self.is_message_too_short(&message) {
            Err(e) => {
                return Err(e);
            },
            Ok(()) => {},
        }
        let idx = match self.find_active_index(caller) {
            Some(i) => i,
            None => {
                return Err(CrudError::AnyMessageFound);
            },
        };
        proof {
            lemma_active_index_is(self.messages@, caller, idx as int);
        }
        if self.messages[idx].message == message {
            return Err(CrudError::MessageIsIdentical);
        }
        let mut m = self.messages.remove(idx);
        m.update(message, now);
        self.messages.insert(idx, m);
        proof {
            let so = old(self).messages@;
            let sn = self.messages@;
            let upd = Message {
                sender: so[idx as int].sender,
                message: message,
                created_at: so[idx as int].created_at,
                updated_at: now,
                deleted_at: so[idx as int].deleted_at,
            };
            assert(sn =~= so.update(idx as int, upd));
            assert forall|i: int, j: int|
                0 <= i < sn.len() && 0 <= j < sn.len() && i != j && is_active(sn[i]) && is_active(
                    sn[j],
                ) implies sn[i].sender != sn[j].sender by {
                assert(sn[i].sender == so[i].sender && is_active(so[i]) == is_active(sn[i]));
                assert(sn[j].sender == so[j].sender && is_active(so[j]) == is_active(sn[j]));
            }
            assert(message_wf(sn[idx as int]));
        }
        Ok(())
    }

    /// Marks `caller`'s active record as deleted at `now`, leaving it in the
    /// store as a tombstone; `AnyMessageFound` (with the store unchanged)
    /// when no active record exists for `caller`.
    pub fn delete_message(&mut self, caller: AccountId, now: Timestamp) -> (r: Result<
        (),
        CrudError,
    >)
        requires
            old(self).wf(),
            times_le(old(self).messages@, now),
        ensures
            final(self).wf(),
            final(self).creator == old(self).creator,
            (r matches Ok(_)) <==> has_active(old(self).messages@, caller),
            (r == Err::<(), CrudError>(CrudError::AnyMessageFound)) <==> !has_active(
                old(self).messages@,
                caller,
            ),
            (r matches Err(_) ==> *final(self) == *old(self)),
            (r matches Ok(_) ==> ({
                let i = active_index(old(self).messages@, caller);
                final(self).messages@ == old(self).messages@.update(
                    i,
                    (Message {
                        sender: old(self).messages@[i].sender,
                        message: old(self).messages@[i].message,
                        created_at: old(self).messages@[i].created_at,
                        updated_at: old(self).messages@[i].updated_at,
                        deleted_at: Some(now),
                    }),
                )
            })),
    {
        match self.can_edit_message(caller) {
            Err(e) => {
                return Err(e);
            },
            Ok(()) => {},
        }
        let idx = match self.find_active_index(caller) {
            Some(i) => i,
            None => {
                return Err(CrudError::AnyMessageFound);
            },
        };
        proof {
            lemma_active_index_is(self.messages@, caller, idx as int);
        }
        let mut m = self.messages.remove(idx);
        m.delete(now);
        self.messages.insert(idx, m);
        proof {
            let so = old(self).messages@;
            let sn = self.messages@;
            let upd = Message {
                sender: so[idx as int].sender,
                message: so[idx as int].message,
                created_at: so[idx as int].created_at,
                updated_at: so[idx as int].updated_at,
                deleted_at: Some(now),
            };
            assert(sn =~= so.update(idx as int, upd));
            assert forall|i: int, j: int|
                0 <= i < sn.len() && 0 <= j < sn.len() && i != j && is_active(sn[i]) && is_active(
                    sn[j],
                ) implies sn[i].sender != sn[j].sender by {
                assert(i != idx && j != idx);
                assert(sn[i] == so[i] && sn[j] == so[j]);
            }
            assert(message_wf(sn[idx as int]));
        }
        Ok(())
    }

    /// Returns the active record's content for `caller`, leaving the store
    /// untouched; `AnyMessageFound` when no active record exists for that
    /// identity.
    pub fn read_message_from(&mut self, caller: AccountId) -> (r: Result<String, CrudError>)
        requires
            old(self).wf(),
        ensures
            *final(self) == *old(self),
            (r matches Ok(_)) <==> has_active(old(self).messages@, caller),
            (r matches Ok(content) ==> active_content(old(self).messages@, caller) == Some(
                content@,
            )),
            (r == Err::<String, CrudError>(CrudError::AnyMessageFound)) <==> !has_active(
                old(self).messages@,
                caller,
            ),
    {
        let caller_message: Option<Message> = self.get_caller_message(caller);
        if caller_message.is_some() {
            Ok(caller_message.unwrap().message)
        } else {
            Err(CrudError::AnyMessageFound)
        }
    }

    /// Copies every record, active and deleted, into a sequence ordered from
    /// the most recently created to the oldest.
    fn get_all_messages_from_storage(&self) -> (r: Vec<Message>)
        ensures
            r@.to_multiset() == self.messages@.to_multiset(),
            sorted_desc_by_created(r@),
    {
        broadcast use vstd::seq_lib::group_to_multiset_ensures;

        let mut all: Vec<Message> = Vec::new();
        let mut i: usize = 0;
        while i < self.messages.len()
            invariant
                i <= self.messages@.len(),
                all@.to_multiset() == self.messages@.subrange(0, i as int).to_multiset(),
                sorted_desc_by_created(all@),
            decreases self.messages@.len() - i,
        {
            let m = self.messages[i].clone();
            let ghost prev = all@;
            let ghost mval = m;
            let mut k: usize = 0;
            while k < all.len() && all[k].created_at >= m.created_at
                invariant
                    k <= all@.len(),
                    all@ == prev,
                    m == mval,
                    forall|j: int| 0 <= j < k ==> prev[j].created_at >= mval.created_at,
                decreases all@.len() - k,
            {
                k += 1;
            }
            all.insert(k, m);
            proof {
                prev.insert_ensures(k as int, mval);
                assert(mval == self.messages@[i as int]);
                assert(all@ == prev.insert(k as int, mval));
                vstd::seq_lib::to_multiset_insert(prev, k as int, mval);
                vstd::seq_lib::to_multiset_build(
                    self.messages@.subrange(0, i as int),
                    self.messages@[i as int],
                );
                assert(self.messages@.subrange(0, i as int + 1) =~= self.messages@.subrange(
                    0,
                    i as int,
                ).push(self.messages@[i as int]));
                assert forall|p: int, q: int|
                    0 <= p < q < all@.len() implies all@[p].created_at >= all@[q].created_at by {
                    if q < k {
                        assert(all@[p] == prev[p] && all@[q] == prev[q]);
                    } else if p > k {
                        assert(all@[p] == prev[p - 1] && all@[q] == prev[q - 1]);
                    } else if p == k {
                        assert(all@[q] == prev[q - 1] && k < prev.len());
                        assert(prev[k as int].created_at < mval.created_at);
                        assert(prev[k as int].created_at >= prev[q - 1].created_at);
                    } else if q == k {
                        assert(all@[p] == prev[p]);
                        assert(prev[p].created_at >= mval.created_at);
                    } else {
                        assert(all@[p] == prev[p] && all@[q] == prev[q - 1]);
                        assert(p < q - 1 || p == q - 1);
                    }
                }
            }
            i += 1;
        }
        proof {
            assert(self.messages@.subrange(0, self.messages@.len() as int) =~= self.messages@);
        }
        all
    }

    /// Returns the full record history, most recently created first, to the
    /// administrator; `Unauthorized` for anyone else, and `AnyMessageFound`
    /// for an administrator reading an empty store. The store is left
    /// untouched.
    pub fn read_all_messages(&mut self, caller: AccountId) -> (r: Result<Vec<Message>, CrudError>)
        ensures
            *final(self) == *old(self),
            (r == Err::<Vec<Message>, CrudError>(CrudError::Unauthorized)) <==> caller != old(
                self,
            ).creator,
            (r == Err::<Vec<Message>, CrudError>(CrudError::AnyMessageFound)) <==> (caller == old(
                self,
            ).creator && old(self).messages@.len() == 0),
            (r matches Ok(_)) <==> (caller == old(self).creator && old(self).messages@.len() > 0),
            (r matches Ok(v) ==> v@.to_multiset() == old(self).messages@.to_multiset()
                && sorted_desc_by_created(v@)),
    {
        broadcast use vstd::seq_lib::group_to_multiset_ensures;

        match self.is_authorized(caller) {
            Err(e) => {
                return Err(e);
            },
            Ok(()) => {},
        }
        let all_messages: Vec<Message> = self.get_all_messages_from_storage();
        proof {
            assert(all_messages@.len() == all_messages@.to_multiset().len());
            assert(self.messages@.len() == self.messages@.to_multiset().len());
        }
        if all_messages.is_empty() {
            return Err(CrudError::AnyMessageFound);
        }
        Ok(all_messages)
    }

    /// The identities that currently own an active record, deduplicated and
    /// in strictly increasing order.
    pub fn get_senders(&self) -> (r: Vec<AccountId>)
        ensures
            strictly_sorted_accounts(r@),
            forall|a: AccountId|
                #![trigger r@.contains(a)]
                #![trigger has_active(self.messages@, a)]
                r@.contains(a) <==> has_active(self.messages@, a),
    {
        let ghost sm = self.messages@;
        let mut senders: Vec<AccountId> = Vec::new();
        let mut i: usize = 0;
        while i < self.messages.len()
            invariant
                sm == self.messages@,
                i <= sm.len(),
                forall|a: AccountId|
                    #[trigger] senders@.contains(a) <==> (exists|j: int|
                        0 <= j < i && owns_active_at(sm, a, j)),
            decreases sm.len() - i,
        {
            broadcast use vstd::seq_lib::lemma_seq_contains_after_push;

            let m = &self.messages[i];
            let ghost prev = senders@;
            if m.deleted_at.is_none() {
                senders.push(m.sender);
                proof {
                    assert forall|a: AccountId| #[trigger] senders@.contains(a) <==> (exists|j: int|
                        0 <= j < i + 1 && owns_active_at(sm, a, j)) by {
                        if senders@.contains(a) {
                            if a == sm[i as int].sender {
                                assert(owns_active_at(sm, a, i as int));
                            } else {
                                assert(prev.contains(a));
                            }
                        }
                        if exists|j: int| 0 <= j < i + 1 && owns_active_at(sm, a, j) {
                            let j = choose|j: int| 0 <= j < i + 1 && owns_active_at(sm, a, j);
                            if j == i {
                                assert(a == sm[i as int].sender);
                            } else {
                                assert(exists|j: int| 0 <= j < i && owns_active_at(sm, a, j));
                                assert(prev.contains(a));
                            }
                        }
                    }
                }
            } else {
                proof {
                    assert forall|a: AccountId| #[trigger] senders@.contains(a) <==> (exists|j: int|
                        0 <= j < i + 1 && owns_active_at(sm, a, j)) by {
                        if exists|j: int| 0 <= j < i + 1 && owns_active_at(sm, a, j) {
                            let j = choose|j: int| 0 <= j < i + 1 && owns_active_at(sm, a, j);
                            assert(j != i);
                            assert(exists|j: int| 0 <= j < i && owns_active_at(sm, a, j));
                        }
                    }
                }
            }
            i += 1;
        }
        let sorted: Vec<AccountId> = sorted_accounts_of(&senders);
        proof {
            assert forall|a: AccountId| #[trigger] sorted@.contains(a) <==> senders@.contains(
                a,
            ) by {
                vstd::seq_lib::to_multiset_contains(sorted@, a);
                vstd::seq_lib::to_multiset_contains(senders@, a);
            }
        }
        let deduped: Vec<AccountId> = dedup_sorted_accounts(&sorted);
        deduped
    }
}

/// A copy of `v` in non-decreasing order of the identity value, with the
/// same elements.
fn sorted_accounts_of(v: &Vec<AccountId>) -> (r: Vec<AccountId>)
    ensures
        r@.to_multiset() == v@.to_multiset(),
        sorted_asc_accounts(r@),
{
    broadcast use vstd::seq_lib::group_to_multiset_ensures;

    let mut out: Vec<AccountId> = Vec::new();
    let mut i: usize = 0;
    while i < v.len()
        invariant
            i <= v@.len(),
            out@.to_multiset() == v@.subrange(0, i as int).to_multiset(),
            sorted_asc_accounts(out@),
        decreases v@.len() - i,
    {
        let a = v[i];
        let ghost prev = out@;
        let mut k: usize = 0;
        while k < out.len() && out[k].0 <= a.0
            invariant
                k <= out@.len(),
                out@ == prev,
                forall|j: int| 0 <= j < k ==> prev[j].0 <= a.0,
            decreases out@.len() - k,
        {
            k += 1;
        }
        out.insert(k, a);
        proof {
            prev.insert_ensures(k as int, a);
            assert(a == v@[i as int]);
            assert(out@ == prev.insert(k as int, a));
            vstd::seq_lib::to_multiset_insert(prev, k as int, a);
            vstd::seq_lib::to_multiset_build(v@.subrange(0, i as int), v@[i as int]);
            assert(v@.subrange(0, i as int + 1) =~= v@.subrange(0, i as int).push(v@[i as int]));
            assert forall|p: int, q: int| 0 <= p < q < out@.len() implies out@[p].0 <= out@[q].0 by {
                if q < k {
                    assert(out@[p] == prev[p] && out@[q] == prev[q]);
                } else if p > k {
                    assert(out@[p] == prev[p - 1] && out@[q] == prev[q - 1]);
                } else if p == k {
                    assert(out@[q] == prev[q - 1] && k < prev.len());
                    assert(prev[k as int].0 > a.0);
                    assert(prev[k as int].0 <= prev[q - 1].0);
                } else if q == k {
                    assert(out@[p] == prev[p]);
                    assert(prev[p].0 <= a.0);
                } else {
                    assert(out@[p] == prev[p] && out@[q] == prev[q - 1]);
                    assert(p < q - 1 || p == q - 1);
                }
            }
        }
        i += 1;
    }
    proof {
        assert(v@.subrange(0, v@.len() as int) =~= v@);
    }
    out
}

/// Removes adjacent duplicates from a sorted identity sequence; the result
/// holds the same identities, each exactly once, in strictly increasing
/// order.
fn dedup_sorted_accounts(v: &Vec<AccountId>) -> (r: Vec<AccountId>)
    requires
        sorted_asc_accounts(v@),
    ensures
        strictly_sorted_accounts(r@),
        forall|a: AccountId| #[trigger] r@.contains(a) <==> v@.contains(a),
{
    broadcast use vstd::seq_lib::lemma_seq_contains_after_push;

    let mut out: Vec<AccountId> = Vec::new();
    let mut i: usize = 0;
    while i < v.len()
        invariant
            sorted_asc_accounts(v@),
            i <= v@.len(),
            strictly_sorted_accounts(out@),
            forall|a: AccountId| #[trigger] out@.contains(a) <==> v@.subrange(
                0,
                i as int,
            ).contains(a),
            i == 0 ==> out@.len() == 0,
            i > 0 ==> out@.len() > 0 && out@.last() == v@[i - 1],
        decreases v@.len() - i,
    {
        broadcast use vstd::seq_lib::lemma_seq_contains_after_push;

        let c = v[i];
        let ghost prev = out@;
        if out.len() == 0 || out[out.len() - 1].0 != c.0 {
            proof {
                if prev.len() > 0 {
                    assert(prev.last().0 <= c.0) by {
                        assert(v@[i as int - 1].0 <= v@[i as int].0);
                    }
                }
            }
            out.push(c);
            proof {
                assert forall|p: int, q: int|
                    0 <= p < q < out@.len() implies out@[p].0 < out@[q].0 by {
                    if q == out@.len() - 1 {
                        assert(out@[p] == prev[p]);
                        if p < prev.len() - 1 {
                            assert(prev[p].0 < prev[prev.len() - 1].0);
                        }
                    } else {
                        assert(out@[p] == prev[p] && out@[q] == prev[q]);
                    }
                }
            }
        } else {
            proof {
                assert(c == AccountId(c.0));
                assert(prev.last() == AccountId(prev.last().0));
                assert(c == prev.last());
                assert(prev.contains(c)) by {
                    assert(prev[prev.len() - 1] == c);
                }
            }
        }
        proof {
            assert(v@.subrange(0, i as int + 1) =~= v@.subrange(0, i as int).push(v@[i as int]));
            assert forall|a: AccountId| #[trigger] out@.contains(a) <==> v@.subrange(
                0,
                i as int + 1,
            ).contains(a) by {
                assert(v@.subrange(0, i as int + 1).contains(a) <==> (a == v@[i as int]
                    || v@.subrange(0, i as int).contains(a)));
            }
        }
        i += 1;
    }
    proof {
        assert(v@.subrange(0, v@.len() as int) =~= v@);
    }
    out
}

} // verus!
