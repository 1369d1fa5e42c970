use vstd::prelude::*;
use crate::identity::Identity;

verus! {

#[derive(Clone, Copy, Debug, PartialEq, Eq, Structural)]
pub enum SessionState {
    Active,
    Rotated,
    Revoked,
}

/// One refresh token as the store knows it: by fingerprint, never by value.
#[derive(Clone, Copy, Debug, PartialEq, Eq, Structural)]
pub struct Session {
    pub identity: u128,
    pub token_hash: u128,
    pub expiry: u64,
    pub state: SessionState,
}

#[derive(Clone, Copy, Debug, PartialEq, Eq, Structural)]
pub enum SessionError {
    /// The fingerprint handed in was exchanged or revoked before, or was
    /// never filed.
    ReuseDetected,
    /// The fingerprint to be filed is on file already.
    AlreadyOnFile,
}

/// The refresh tokens issued so far, oldest first.
pub struct SessionStore {
    pub entries: Vec<Session>,
}

impl View for SessionStore {
    type V = Seq<Session>;

    open spec fn view(&self) -> Seq<Session> {
        self.entries@
    }
}

/// `i` is the oldest entry filed under `hash`.
pub open spec fn is_first(s: Seq<Session>, hash: u128, i: int) -> bool {
    &&& 0 <= i < s.len()
    &&& s[i].token_hash == hash
    &&& forall|j: int| 0 <= j < i ==> (#[trigger] s[j]).token_hash != hash
}

pub open spec fn known(s: Seq<Session>, hash: u128) -> bool {
    exists|i: int| is_first(s, hash, i)
}

pub open spec fn index_of(s: Seq<Session>, hash: u128) -> int {
    choose|i: int| is_first(s, hash, i)
}

/// Whether `hash` may still be exchanged for a new token pair.
pub open spec fn usable(s: Seq<Session>, hash: u128) -> bool {
    known(s, hash) && s[index_of(s, hash)].state == SessionState::Active
}

pub open spec fn with_state(e: Session, state: SessionState) -> Session {
    Session { identity: e.identity, token_hash: e.token_hash, expiry: e.expiry, state }
}

pub open spec fn fresh(identity: u128, token_hash: u128, expiry: u64) -> Session {
    Session { identity, token_hash, expiry, state: SessionState::Active }
}

/// Every entry of `identity` revoked, the others as they were.
pub open spec fn revoke_identity_in(s: Seq<Session>, identity: u128) -> Seq<Session> {
    Seq::new(
        s.len(),
        |i: int|
            if s[i].identity == identity {
                with_state(s[i], SessionState::Revoked)
            } else {
                s[i]
            },
    )
}

/// Every entry filed under `hash` revoked, the others as they were.
pub open spec fn revoke_hash_in(s: Seq<Session>, hash: u128) -> Seq<Session> {
    Seq::new(
        s.len(),
        |i: int|
            if s[i].token_hash == hash {
                with_state(s[i], SessionState::Revoked)
            } else {
                s[i]
            },
    )
}

pub open spec fn record_result(s: Seq<Session>, token_hash: u128) -> Result<(), SessionError> {
    if known(s, token_hash) {
        Err(SessionError::AlreadyOnFile)
    } else {
        Ok(())
    }
}

/// An exchange succeeds where the old fingerprint is usable and the new one
/// is not on file. Reuse is told before anything else.
pub open spec fn rotate_result(s: Seq<Session>, old_hash: u128, new_hash: u128) -> Result<
    (),
    SessionError,
> {
    if !usable(s, old_hash) {
        Err(SessionError::ReuseDetected)
    } else if known(s, new_hash) {
        Err(SessionError::AlreadyOnFile)
    } else {
        Ok(())
    }
}

/// The store after an attempt to exchange `old_hash` for `new_hash`. A usable
/// entry is marked rotated and succeeded by a new active one for the same
/// identity, unless the new fingerprint is on file, which changes nothing.
/// An entry that is no longer usable costs its identity every session. An
/// unknown fingerprint changes nothing.
pub open spec fn rotated_store(s: Seq<Session>, old_hash: u128, new_hash: u128, new_expiry: u64) -> Seq<
    Session,
> {
    if !known(s, old_hash) {
        s
    } else {
        let i = index_of(s, old_hash);
        if s[i].state != SessionState::Active {
            revoke_identity_in(s, s[i].identity)
        } else if known(s, new_hash) {
            s
        } else {
            s.update(i, with_state(s[i], SessionState::Rotated)).push(
                fresh(s[i].identity, new_hash, new_expiry),
            )
        }
    }
}

pub proof fn lemma_first_is_unique(s: Seq<Session>, hash: u128, i: int)
    requires
        is_first(s, hash, i),
    ensures
        known(s, hash),
        index_of(s, hash) == i,
{
    let k = index_of(s, hash);
    assert(is_first(s, hash, k));
    if k < i {
        assert(s[k].token_hash != hash);
    }
    if i < k {
        assert(s[i].token_hash != hash);
    }
}

pub proof fn lemma_absent_is_unknown(s: Seq<Session>, hash: u128)
    requires
        forall|j: int| 0 <= j < s.len() ==> (#[trigger] s[j]).token_hash != hash,
    ensures
        !known(s, hash),
{
    if known(s, hash) {
        let k = index_of(s, hash);
        assert(is_first(s, hash, k));
        assert(s[k].token_hash != hash);
    }
}

/// An active entry filed under a fingerprint that was not on file is usable.
pub proof fn lemma_pushed_is_usable(s: Seq<Session>, e: Session)
    requires
        !known(s, e.token_hash),
        e.state == SessionState::Active,
    ensures
        usable(s.push(e), e.token_hash),
        index_of(s.push(e), e.token_hash) == s.len(),
{
    let after = s.push(e);
    assert forall|j: int| 0 <= j < s.len() implies (#[trigger] after[j]).token_hash != e.token_hash by {
        if s[j].token_hash == e.token_hash {
            lemma_some_is_known(s, e.token_hash, j);
        }
    }
    assert(is_first(after, e.token_hash, s.len() as int));
    lemma_first_is_unique(after, e.token_hash, s.len() as int);
}

/// A fingerprint that some entry carries is known.
pub proof fn lemma_some_is_known(s: Seq<Session>, hash: u128, j: int)
    requires
        0 <= j < s.len(),
        s[j].token_hash == hash,
    ensures
        known(s, hash),
    decreases j,
{
    if forall|k: int| 0 <= k < j ==> (#[trigger] s[k]).token_hash != hash {
        assert(is_first(s, hash, j));
    } else {
        let k = choose|k: int| 0 <= k < j && (#[trigger] s[k]).token_hash == hash;
        lemma_some_is_known(s, hash, k);
    }
}

impl SessionStore {
    pub fn new() -> (store: SessionStore)
        ensures
            store@ == Seq::<Session>::empty(),
    {
        SessionStore { entries: Vec::new() }
    }

    /// Files a new active refresh token for `identity`, unless its
    /// fingerprint is on file already.
    pub fn record(&mut self, identity: Identity, token_hash: u128, expiry: u64) -> (r: Result<
        (),
        SessionError,
    >)
        ensures
            r == record_result(old(self)@, token_hash),
            final(self)@ == (if r.is_ok() {
                old(self)@.push(fresh(identity.id, token_hash, expiry))
            } else {
                old(self)@
            }),
            r.is_ok() ==> usable(final(self)@, token_hash),
    {
        if self.find(token_hash).is_some() {
            return Err(SessionError::AlreadyOnFile);
        }
        self.entries.push(
            Session { identity: identity.id, token_hash, expiry, state: SessionState::Active },
        );
        proof {
            lemma_pushed_is_usable(old(self)@, fresh(identity.id, token_hash, expiry));
        }
        Ok(())
    }

    /// The position of the oldest entry filed under `hash`.
    pub fn find(&self, hash: u128) -> (r: Option<usize>)
        ensures
            r.is_some() == known(self@, hash),
            r.is_some() ==> r.unwrap() as int == index_of(self@, hash) && is_first(
                self@,
                hash,
                r.unwrap() as int,
            ),
    {
        let mut i: usize = 0;
        while i < self.entries.len()
            invariant
                i <= self.entries.len(),
                forall|j: int| 0 <= j < i ==> (#[trigger] self@[j]).token_hash != hash,
            decreases self.entries.len() - i,
        {
            if self.entries[i].token_hash == hash {
                proof {
                    lemma_first_is_unique(self@, hash, i as int);
                }
                return Some(i);
            }
            i = i + 1;
        }
        proof {
            lemma_absent_is_unknown(self@, hash);
        }
        None
    }

    pub fn is_active(&self, hash: u128) -> (b: bool)
        ensures
            b == usable(self@, hash),
    {
        match self.find(hash) {
            Some(i) => self.entries[i].state == SessionState::Active,
            None => false,
        }
    }

    /// Marks every entry of `identity` revoked.
    pub fn revoke_identity(&mut self, identity: Identity)
        ensures
            final(self)@ == revoke_identity_in(old(self)@, identity.id),
    {
        let mut i: usize = 0;
        while i < self.entries.len()
            invariant
                i <= self.entries.len(),
                self@.len() == old(self)@.len(),
                forall|j: int| 0 <= j < i ==> self@[j] == revoke_identity_in(old(self)@, identity.id)[j],
                forall|j: int| i <= j < self@.len() ==> self@[j] == old(self)@[j],
            decreases self.entries.len() - i,
        {
            let e = self.entries[i];
            if e.identity == identity.id {
                self.entries.set(
                    i,
                    Session {
                        identity: e.identity,
                        token_hash: e.token_hash,
                        expiry: e.expiry,
                        state: SessionState::Revoked,
                    },
                );
            }
            i = i + 1;
        }
        proof {
            assert(self@ =~= revoke_identity_in(old(self)@, identity.id));
        }
    }

    /// Marks every entry filed under `hash` revoked.
    pub fn revoke_token(&mut self, hash: u128)
        ensures
            final(self)@ == revoke_hash_in(old(self)@, hash),
    {
        let mut i: usize = 0;
        while i < self.entries.len()
            invariant
                i <= self.entries.len(),
                self@.len() == old(self)@.len(),
                forall|j: int| 0 <= j < i ==> self@[j] == revoke_hash_in(old(self)@, hash)[j],
                forall|j: int| i <= j < self@.len() ==> self@[j] == old(self)@[j],
            decreases self.entries.len() - i,
        {
            let e = self.entries[i];
            if e.token_hash == hash {
                self.entries.set(
                    i,
                    Session {
                        identity: e.identity,
                        token_hash: e.token_hash,
                        expiry: e.expiry,
                        state: SessionState::Revoked,
                    },
                );
            }
            i = i + 1;
        }
        proof {
            assert(self@ =~= revoke_hash_in(old(self)@, hash));
        }
    }

    /// Exchanges `old_hash` for `new_hash` in one step: either the old entry
    /// was usable and is now rotated, or nothing new was filed.
    pub fn rotate(&mut self, old_hash: u128, new_hash: u128, new_expiry: u64) -> (r: Result<
        (),
        SessionError,
    >)
        ensures
            r == rotate_result(old(self)@, old_hash, new_hash),
            final(self)@ == rotated_store(old(self)@, old_hash, new_hash, new_expiry),
    {
        match self.find(old_hash) {
            None => Err(SessionError::ReuseDetected),
            Some(i) => {
                let e = self.entries[i];
                if e.state == SessionState::Active {
                    if self.find(new_hash).is_some() {
                        return Err(SessionError::AlreadyOnFile);
                    }
                    self.entries.set(
                        i,
                        Session {
                            identity: e.identity,
                            token_hash: e.token_hash,
                            expiry: e.expiry,
                            state: SessionState::Rotated,
                        },
                    );
                    self.entries.push(
                        Session {
                            identity: e.identity,
                            token_hash: new_hash,
                            expiry: new_expiry,
                            state: SessionState::Active,
                        },
                    );
                    Ok(())
                } else {
                    self.revoke_identity(Identity { id: e.identity });
                    Err(SessionError::ReuseDetected)
                }
            },
        }
    }
}

/// Revoking the sessions of an identity moves no entry and touches no
/// fingerprint: what was filed under `hash` is found where it was.
pub proof fn lemma_revocation_keeps_positions(s: Seq<Session>, who: u128, hash: u128)
    ensures
        known(revoke_identity_in(s, who), hash) == known(s, hash),
        known(s, hash) ==> index_of(revoke_identity_in(s, who), hash) == index_of(s, hash),
{
    let r = revoke_identity_in(s, who);
    if known(s, hash) {
        let i = index_of(s, hash);
        assert(is_first(s, hash, i));
        assert forall|j: int| 0 <= j < i implies (#[trigger] r[j]).token_hash != hash by {
            assert(s[j].token_hash != hash);
        }
        assert(is_first(r, hash, i));
        lemma_first_is_unique(r, hash, i);
    }
    if known(r, hash) {
        let k = index_of(r, hash);
        assert(is_first(r, hash, k));
        assert forall|j: int| 0 <= j < k implies (#[trigger] s[j]).token_hash != hash by {
            assert(r[j].token_hash != hash);
        }
        assert(is_first(s, hash, k));
    }
}

/// A successful exchange returns something new: the new fingerprint differs
/// from the old one and is usable afterwards, and the old one is not.
pub proof fn law_rotation_replaces(s: Seq<Session>, old_hash: u128, new_hash: u128, new_expiry: u64)
    requires
        rotate_result(s, old_hash, new_hash).is_ok(),
    ensures
        new_hash != old_hash,
        usable(rotated_store(s, old_hash, new_hash, new_expiry), new_hash),
        !usable(rotated_store(s, old_hash, new_hash, new_expiry), old_hash),
        ({
            let after = rotated_store(s, old_hash, new_hash, new_expiry);
            let i = index_of(s, old_hash);
            &&& after[i] == with_state(s[i], SessionState::Rotated)
            &&& after.last() == fresh(s[i].identity, new_hash, new_expiry)
        }),
{
    let i = index_of(s, old_hash);
    assert(is_first(s, old_hash, i));
    let marked = s.update(i, with_state(s[i], SessionState::Rotated));
    let after = rotated_store(s, old_hash, new_hash, new_expiry);
    assert forall|j: int| 0 <= j < i implies (#[trigger] after[j]).token_hash != old_hash by {
        assert(after[j] == s[j]);
    }
    assert(is_first(after, old_hash, i));
    lemma_first_is_unique(after, old_hash, i);
    if known(marked, new_hash) {
        let k = index_of(marked, new_hash);
        assert(is_first(marked, new_hash, k));
        assert(s[k].token_hash == new_hash);
        lemma_some_is_known(s, new_hash, k);
    }
    lemma_pushed_is_usable(marked, fresh(s[i].identity, new_hash, new_expiry));
}

/// Rotation is single-use: once a fingerprint has been exchanged, a second
/// exchange of the same fingerprint is answered with `ReuseDetected`,
/// whatever is offered in its place. It files nothing and revokes every
/// session of that identity, the one filed by the first exchange among them.
/// The sessions of every other identity are as they were, and as usable.
pub proof fn law_rotation_single_use(
    s: Seq<Session>,
    old_hash: u128,
    first_hash: u128,
    first_expiry: u64,
    second_hash: u128,
    second_expiry: u64,
)
    requires
        rotate_result(s, old_hash, first_hash).is_ok(),
    ensures
        ({
            let s1 = rotated_store(s, old_hash, first_hash, first_expiry);
            let s2 = rotated_store(s1, old_hash, second_hash, second_expiry);
            let who = s[index_of(s, old_hash)].identity;
            &&& rotate_result(s1, old_hash, second_hash) == Err::<(), SessionError>(
                SessionError::ReuseDetected,
            )
            &&& s2 == revoke_identity_in(s1, who)
            &&& s2.len() == s1.len()
            &&& forall|k: int|
                0 <= k < s2.len() ==> (#[trigger] s2[k]) == (if s1[k].identity == who {
                    with_state(s1[k], SessionState::Revoked)
                } else {
                    s1[k]
                })
            &&& !usable(s2, first_hash)
            &&& forall|h: u128|
                usable(s2, h) <==> usable(s1, h) && s1[index_of(s1, h)].identity != who
        }),
{
    let i = index_of(s, old_hash);
    assert(is_first(s, old_hash, i));
    let who = s[i].identity;
    let s1 = rotated_store(s, old_hash, first_hash, first_expiry);
    let s2 = rotated_store(s1, old_hash, second_hash, second_expiry);
    law_rotation_replaces(s, old_hash, first_hash, first_expiry);
    assert forall|j: int| 0 <= j < i implies (#[trigger] s1[j]).token_hash != old_hash by {
        assert(s1[j] == s[j]);
    }
    assert(is_first(s1, old_hash, i));
    lemma_first_is_unique(s1, old_hash, i);
    assert(s2 == revoke_identity_in(s1, who));
    assert forall|h: u128| usable(s2, h) <==> usable(s1, h) && s1[index_of(s1, h)].identity != who by {
        lemma_revocation_keeps_positions(s1, who, h);
        if known(s1, h) {
            assert(is_first(s1, h, index_of(s1, h)));
        }
    }
    assert(index_of(s1, first_hash) == s1.len() - 1) by {
        let marked = s.update(i, with_state(s[i], SessionState::Rotated));
        if known(marked, first_hash) {
            let k = index_of(marked, first_hash);
            assert(is_first(marked, first_hash, k));
            assert(s[k].token_hash == first_hash);
            lemma_some_is_known(s, first_hash, k);
        }
        lemma_pushed_is_usable(marked, fresh(who, first_hash, first_expiry));
    }
}

/// Whether `e` is an active session of `identity`, as a number.
pub open spec fn counts(e: Session, identity: u128) -> nat {
    if e.identity == identity && e.state == SessionState::Active {
        1
    } else {
        0
    }
}

/// The number of active sessions of `identity`.
pub open spec fn active_count(s: Seq<Session>, identity: u128) -> nat
    decreases s.len(),
{
    if s.len() == 0 {
        0
    } else {
        active_count(s.drop_last(), identity) + counts(s.last(), identity)
    }
}

pub proof fn lemma_count_after_push(s: Seq<Session>, e: Session, identity: u128)
    ensures
        active_count(s.push(e), identity) == active_count(s, identity) + counts(e, identity),
{
    assert(s.push(e).drop_last() =~= s);
}

pub proof fn lemma_count_after_update(s: Seq<Session>, i: int, e: Session, identity: u128)
    requires
        0 <= i < s.len(),
    ensures
        active_count(s.update(i, e), identity) + counts(s[i], identity) == active_count(s, identity)
            + counts(e, identity),
    decreases s.len(),
{
    if i == s.len() - 1 {
        assert(s.update(i, e).drop_last() =~= s.drop_last());
    } else {
        assert(s.update(i, e).drop_last() =~= s.drop_last().update(i, e));
        lemma_count_after_update(s.drop_last(), i, e, identity);
    }
}

pub proof fn lemma_count_after_revocation(s: Seq<Session>, who: u128, identity: u128)
    ensures
        active_count(revoke_identity_in(s, who), identity) == (if identity == who {
            0
        } else {
            active_count(s, identity)
        }),
    decreases s.len(),
{
    if s.len() > 0 {
        assert(revoke_identity_in(s, who).drop_last() =~= revoke_identity_in(s.drop_last(), who));
        lemma_count_after_revocation(s.drop_last(), who, identity);
    }
}

/// An exchange never adds to the active sessions of any identity: a
/// successful one leaves their number as it was, a refused one leaves it as
/// it was or takes it to zero.
pub proof fn law_rotation_adds_no_session(
    s: Seq<Session>,
    old_hash: u128,
    new_hash: u128,
    new_expiry: u64,
    identity: u128,
)
    ensures
        active_count(rotated_store(s, old_hash, new_hash, new_expiry), identity) <= active_count(
            s,
            identity,
        ),
        usable(s, old_hash) ==> active_count(rotated_store(s, old_hash, new_hash, new_expiry), identity)
            == active_count(s, identity),
{
    if known(s, old_hash) {
        let i = index_of(s, old_hash);
        assert(is_first(s, old_hash, i));
        if s[i].state == SessionState::Active && known(s, new_hash) {
        } else if s[i].state == SessionState::Active {
            let marked = with_state(s[i], SessionState::Rotated);
            lemma_count_after_update(s, i, marked, identity);
            lemma_count_after_push(s.update(i, marked), fresh(s[i].identity, new_hash, new_expiry), identity);
        } else {
            lemma_count_after_revocation(s, s[i].identity, identity);
        }
    }
}

/// A revoked fingerprint can no longer be exchanged.
pub proof fn law_revoked_token_cannot_rotate(s: Seq<Session>, hash: u128, new_hash: u128)
    ensures
        !usable(revoke_hash_in(s, hash), hash),
        revoke_hash_in(s, hash).len() == s.len(),
        rotate_result(revoke_hash_in(s, hash), hash, new_hash) == Err::<(), SessionError>(
            SessionError::ReuseDetected,
        ),
{
    let r = revoke_hash_in(s, hash);
    if known(r, hash) {
        let k = index_of(r, hash);
        assert(is_first(r, hash, k));
        assert(s[k].token_hash == hash);
    }
}

/// After every session of an identity was revoked, none of its fingerprints
/// can be exchanged.
pub proof fn law_revoked_identity_cannot_rotate(s: Seq<Session>, identity: u128, hash: u128, new_hash: u128)
    requires
        known(s, hash),
        s[index_of(s, hash)].identity == identity,
    ensures
        rotate_result(revoke_identity_in(s, identity), hash, new_hash) == Err::<(), SessionError>(
            SessionError::ReuseDetected,
        ),
{
    let r = revoke_identity_in(s, identity);
    let i = index_of(s, hash);
    assert(is_first(s, hash, i));
    assert forall|j: int| 0 <= j < i implies (#[trigger] r[j]).token_hash != hash by {
        assert(s[j].token_hash != hash);
    }
    assert(is_first(r, hash, i));
    lemma_first_is_unique(r, hash, i);
}

} // verus!
