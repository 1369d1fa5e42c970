use vstd::prelude::*;
use crate::error::ApiError;
use crate::identity::Identity;
use crate::session::{
    fresh, index_of, known, law_revoked_token_cannot_rotate, law_rotation_replaces,
    law_rotation_single_use, revoke_hash_in, revoke_identity_in, rotated_store, usable, Session,
    SessionError, SessionStore,
};
use crate::token::{
    fingerprint, fingerprint_of, genuine, hmac_sha256, issue, mac_tag, minted, verdict, verify,
    SigningKey, Token, TokenError, TokenKind, CLOCK_SKEW_SECS,
};

verus! {

/// An account: its identity, its name, and the keyed hash of its secret.
pub struct UserRecord {
    pub id: u128,
    pub username: String,
    pub secret_hash: Vec<u8>,
}

/// The accounts, in the order of registration.
pub struct Directory {
    pub users: Vec<UserRecord>,
}

/// How long each kind of token is good for, in seconds.
#[derive(Clone, Copy, Debug, PartialEq, Eq, Structural)]
pub struct Lifetimes {
    pub access_ttl: u64,
    pub refresh_ttl: u64,
}

/// The refresh token outlives the access token at least ten times.
pub open spec fn proportioned(access_ttl: u64, refresh_ttl: u64) -> bool {
    refresh_ttl >= 10 * access_ttl
}

impl Lifetimes {
    /// The two lifetimes as one value, where they are in proportion.
    pub fn new(access_ttl: u64, refresh_ttl: u64) -> (r: Option<Lifetimes>)
        ensures
            r == (if proportioned(access_ttl, refresh_ttl) {
                Some(Lifetimes { access_ttl, refresh_ttl })
            } else {
                None
            }),
    {
        if access_ttl <= refresh_ttl / 10 {
            Some(Lifetimes { access_ttl, refresh_ttl })
        } else {
            None
        }
    }

    /// Whether tokens issued at `now` expire at an instant that can be
    /// written down.
    pub open spec fn fits(&self, now: u64) -> bool {
        now + self.access_ttl <= u64::MAX && now + self.refresh_ttl <= u64::MAX
    }

    pub fn fit(&self, now: u64) -> (b: bool)
        ensures
            b == self.fits(now),
    {
        self.access_ttl <= u64::MAX - now && self.refresh_ttl <= u64::MAX - now
    }
}

#[derive(Clone, Copy, Debug, PartialEq, Eq, Structural)]
pub struct TokenPair {
    pub access: Token,
    pub refresh: Token,
}

impl View for Directory {
    type V = Seq<UserRecord>;

    open spec fn view(&self) -> Seq<UserRecord> {
        self.users@
    }
}

pub open spec fn named(users: Seq<UserRecord>, name: Seq<char>, i: int) -> bool {
    0 <= i < users.len() && users[i].username@ == name
}

pub open spec fn registered(users: Seq<UserRecord>, name: Seq<char>) -> bool {
    exists|i: int| named(users, name, i)
}

pub open spec fn id_in_use(users: Seq<UserRecord>, id: u128) -> bool {
    exists|i: int| 0 <= i < users.len() && (#[trigger] users[i]).id == id
}

/// No two accounts share a name.
pub open spec fn unique_names(users: Seq<UserRecord>) -> bool {
    forall|i: int, j: int|
        0 <= i < j < users.len() ==> (#[trigger] users[i]).username@ != (#[trigger] users[j]).username@
}

pub open spec fn account_of(users: Seq<UserRecord>, name: Seq<char>) -> int {
    choose|i: int| named(users, name, i)
}

/// The name is registered and the submitted hash is the stored one. Which of
/// the two failed is never told.
pub open spec fn credentials_ok(users: Seq<UserRecord>, name: Seq<char>, secret_hash: Seq<u8>) -> bool {
    registered(users, name) && users[account_of(users, name)].secret_hash@ == secret_hash
}

/// What is stored of a secret: its tag under the key, never the secret.
pub open spec fn secret_hash_of(key: Seq<u8>, secret: Seq<u8>) -> Seq<u8> {
    mac_tag(key, secret)
}

/// The pair minted at `now` under `serial`.
pub open spec fn pair_for(key: Seq<u8>, identity: Identity, ttl: Lifetimes, now: u64, serial: u128) -> TokenPair {
    TokenPair {
        access: minted(key, identity, TokenKind::Access, now, ttl.access_ttl, serial),
        refresh: minted(key, identity, TokenKind::Refresh, now, ttl.refresh_ttl, serial),
    }
}

/// The entry under which the refresh token of `pair` is filed.
pub open spec fn session_for(key: Seq<u8>, pair: TokenPair) -> Session {
    fresh(pair.refresh.claims.sub, fingerprint_of(key, pair.refresh), pair.refresh.claims.exp)
}

pub open spec fn register_result(users: Seq<UserRecord>, name: Seq<char>, id: u128) -> Result<
    Identity,
    ApiError,
> {
    if registered(users, name) {
        Err(ApiError::DuplicateUser)
    } else if id_in_use(users, id) {
        Err(ApiError::PersistenceFault)
    } else {
        Ok(Identity { id })
    }
}

/// A login succeeds where the credentials are good and the fingerprint of
/// the new refresh token is not on file.
pub open spec fn login_result(
    users: Seq<UserRecord>,
    s: Seq<Session>,
    key: Seq<u8>,
    ttl: Lifetimes,
    name: Seq<char>,
    secret: Seq<u8>,
    now: u64,
    serial: u128,
) -> Result<TokenPair, ApiError> {
    if !credentials_ok(users, name, secret_hash_of(key, secret)) {
        Err(ApiError::InvalidCredentials)
    } else {
        let pair = pair_for(key, Identity { id: users[account_of(users, name)].id }, ttl, now, serial);
        if known(s, fingerprint_of(key, pair.refresh)) {
            Err(ApiError::PersistenceFault)
        } else {
            Ok(pair)
        }
    }
}

/// Whether `token` is a refresh token that verifies under `key` at `now`.
pub open spec fn presentable(key: Seq<u8>, token: Token, now: u64) -> bool {
    verdict(token.claims, genuine(key, token), now, Some(TokenKind::Refresh)).is_ok()
}

/// The pair that a refresh with `token` mints.
pub open spec fn successor(key: Seq<u8>, ttl: Lifetimes, token: Token, now: u64, serial: u128) -> TokenPair {
    pair_for(key, Identity { id: token.claims.sub }, ttl, now, serial)
}

/// A refresh succeeds where the token verifies as a refresh token, its
/// fingerprint is usable, and the fingerprint of its successor is not on
/// file. A token that does not verify, or is not usable, is `Unauthorized`.
pub open spec fn refresh_result(
    s: Seq<Session>,
    key: Seq<u8>,
    ttl: Lifetimes,
    token: Token,
    now: u64,
    serial: u128,
) -> Result<TokenPair, ApiError> {
    if !presentable(key, token, now) || !usable(s, fingerprint_of(key, token)) {
        Err(ApiError::Unauthorized)
    } else if known(s, fingerprint_of(key, successor(key, ttl, token, now, serial).refresh)) {
        Err(ApiError::PersistenceFault)
    } else {
        Ok(successor(key, ttl, token, now, serial))
    }
}

/// The sessions after a refresh. A token that does not verify changes
/// nothing; one that verifies is exchanged in the store, which revokes every
/// session of its identity if it was exchanged or revoked before.
pub open spec fn sessions_after_refresh(
    s: Seq<Session>,
    key: Seq<u8>,
    ttl: Lifetimes,
    token: Token,
    now: u64,
    serial: u128,
) -> Seq<Session> {
    if presentable(key, token, now) {
        let next = session_for(key, successor(key, ttl, token, now, serial));
        rotated_store(s, fingerprint_of(key, token), next.token_hash, next.expiry)
    } else {
        s
    }
}

/// Compares two byte strings. Where the lengths agree every byte is read,
/// whatever the outcome.
pub fn constant_time_eq(a: &[u8], b: &[u8]) -> (same: bool)
    ensures
        same == (a@ == b@),
{
    if a.len() != b.len() {
        return false;
    }
    let mut diff: u8 = 0;
    let mut i: usize = 0;
    while i < a.len()
        invariant
            i <= a.len(),
            a.len() == b.len(),
            (diff == 0) == (forall|j: int| 0 <= j < i ==> a@[j] == b@[j]),
        decreases a.len() - i,
    {
        let x: u8 = a[i];
        let y: u8 = b[i];
        let ghost before = diff;
        diff = diff | (x ^ y);
        proof {
            assert(((before | (x ^ y)) == 0u8) == (before == 0u8 && x == y)) by (bit_vector);
            if diff == 0 {
                assert forall|j: int| 0 <= j < i + 1 implies a@[j] == b@[j] by {
                    if j == i {
                    }
                }
            } else if before == 0 {
                assert(a@[i as int] != b@[i as int]);
            }
        }
        i = i + 1;
    }
    proof {
        if diff == 0 {
            assert(a@ =~= b@);
        }
    }
    diff == 0
}

impl Directory {
    pub fn new() -> (dir: Directory)
        ensures
            dir@ == Seq::<UserRecord>::empty(),
            dir.wf(),
    {
        Directory { users: Vec::new() }
    }

    pub open spec fn wf(&self) -> bool {
        unique_names(self@)
    }

    /// A directory of the accounts given, where no two share a name.
    pub fn from_users(users: Vec<UserRecord>) -> (r: Option<Directory>)
        ensures
            r.is_some() == unique_names(users@),
            r.is_some() ==> r.unwrap()@ == users@ && r.unwrap().wf(),
    {
        let mut j: usize = 0;
        while j < users.len()
            invariant
                j <= users.len(),
                forall|a: int, b: int|
                    0 <= a < b < j ==> (#[trigger] users@[a]).username@ != (#[trigger] users@[b]).username@,
            decreases users.len() - j,
        {
            let mut i: usize = 0;
            while i < j
                invariant
                    i <= j < users.len(),
                    forall|a: int| 0 <= a < i ==> (#[trigger] users@[a]).username@ != users@[j as int].username@,
                decreases j - i,
            {
                if users[i].username == users[j].username {
                    return None;
                }
                i = i + 1;
            }
            j = j + 1;
        }
        Some(Directory { users })
    }

    /// The account registered under `name`.
    pub fn find(&self, name: &String) -> (r: Option<usize>)
        requires
            self.wf(),
        ensures
            r.is_some() == registered(self@, name@),
            r.is_some() ==> r.unwrap() as int == account_of(self@, name@) && named(
                self@,
                name@,
                r.unwrap() as int,
            ),
    {
        let mut i: usize = 0;
        while i < self.users.len()
            invariant
                self.wf(),
                i <= self.users.len(),
                forall|j: int| 0 <= j < i ==> !named(self@, name@, j),
            decreases self.users.len() - i,
        {
            if self.users[i].username == *name {
                proof {
                    let k = account_of(self@, name@);
                    assert(named(self@, name@, i as int));
                    assert(named(self@, name@, k));
                    if k < i {
                        assert(self@[k].username@ != self@[i as int].username@);
                    }
                    if i < k {
                        assert(self@[i as int].username@ != self@[k].username@);
                    }
                }
                return Some(i);
            }
            i = i + 1;
        }
        None
    }

    pub fn has_id(&self, id: u128) -> (b: bool)
        ensures
            b == id_in_use(self@, id),
    {
        let mut i: usize = 0;
        while i < self.users.len()
            invariant
                i <= self.users.len(),
                forall|j: int| 0 <= j < i ==> (#[trigger] self@[j]).id != id,
            decreases self.users.len() - i,
        {
            if self.users[i].id == id {
                return true;
            }
            i = i + 1;
        }
        false
    }
}

/// Opens an account under a name that is not taken yet, and stores the
/// keyed hash of `secret`. `id` is the new identity.
pub fn register(dir: &mut Directory, key: &SigningKey, username: String, secret: &[u8], id: u128) -> (r:
    Result<Identity, ApiError>)
    requires
        old(dir).wf(),
    ensures
        final(dir).wf(),
        r == register_result(old(dir)@, username@, id),
        r.is_err() ==> final(dir)@ == old(dir)@,
        r.is_ok() ==> {
            &&& final(dir)@.len() == old(dir)@.len() + 1
            &&& final(dir)@.drop_last() == old(dir)@
            &&& final(dir)@.last().id == id
            &&& final(dir)@.last().username == username
            &&& final(dir)@.last().secret_hash@ == secret_hash_of(key.secret@, secret@)
        },
{
    if dir.find(&username).is_some() {
        return Err(ApiError::DuplicateUser);
    }
    if dir.has_id(id) {
        return Err(ApiError::PersistenceFault);
    }
    let secret_hash = hmac_sha256(key.secret.as_slice(), secret);
    proof {
        let after = dir@.push(UserRecord { id, username, secret_hash });
        assert forall|i: int, j: int| 0 <= i < j < after.len() implies (#[trigger] after[i]).username@ != (
        #[trigger] after[j]).username@ by {
            if j == after.len() - 1 {
                assert(!named(dir@, username@, i));
            }
        }
        assert(after.drop_last() =~= dir@);
    }
    dir.users.push(UserRecord { id, username, secret_hash });
    Ok(Identity { id })
}

/// Checks a name and a secret, and on success mints a token pair under
/// `serial` and files its refresh token.
pub fn login(
    dir: &Directory,
    sessions: &mut SessionStore,
    key: &SigningKey,
    ttl: &Lifetimes,
    username: &String,
    secret: &[u8],
    now: u64,
    serial: u128,
) -> (r: Result<TokenPair, ApiError>)
    requires
        dir.wf(),
        ttl.fits(now),
    ensures
        r == login_result(dir@, old(sessions)@, key.secret@, *ttl, username@, secret@, now, serial),
        final(sessions)@ == (if r.is_ok() {
            old(sessions)@.push(session_for(key.secret@, r.unwrap()))
        } else {
            old(sessions)@
        }),
        r.is_ok() ==> usable(final(sessions)@, fingerprint_of(key.secret@, r.unwrap().refresh)),
{
    match dir.find(username) {
        None => Err(ApiError::InvalidCredentials),
        Some(i) => {
            let submitted = hmac_sha256(key.secret.as_slice(), secret);
            if !constant_time_eq(dir.users[i].secret_hash.as_slice(), submitted.as_slice()) {
                return Err(ApiError::InvalidCredentials);
            }
            let who = Identity { id: dir.users[i].id };
            let pair = TokenPair {
                access: issue(key, who, TokenKind::Access, now, ttl.access_ttl, serial),
                refresh: issue(key, who, TokenKind::Refresh, now, ttl.refresh_ttl, serial),
            };
            match sessions.record(who, fingerprint(key, &pair.refresh), pair.refresh.claims.exp) {
                Ok(()) => Ok(pair),
                Err(_) => Err(ApiError::PersistenceFault),
            }
        },
    }
}

/// Exchanges a refresh token for a new pair, minted under `serial`. The
/// token handed in is spent: the pair that comes back holds another, and
/// only that one is usable afterwards. A token that does not verify, or was
/// spent or revoked before, is answered with `Unauthorized` and nothing
/// more.
pub fn refresh(
    sessions: &mut SessionStore,
    key: &SigningKey,
    ttl: &Lifetimes,
    token: &Token,
    now: u64,
    serial: u128,
) -> (r: Result<TokenPair, ApiError>)
    requires
        ttl.fits(now),
    ensures
        r == refresh_result(old(sessions)@, key.secret@, *ttl, *token, now, serial),
        final(sessions)@ == sessions_after_refresh(old(sessions)@, key.secret@, *ttl, *token, now, serial),
        r.is_ok() ==> {
            &&& r.unwrap().refresh != *token
            &&& usable(final(sessions)@, fingerprint_of(key.secret@, r.unwrap().refresh))
            &&& !usable(final(sessions)@, fingerprint_of(key.secret@, *token))
        },
{
    match verify(key, token, now, Some(TokenKind::Refresh)) {
        Err(_) => Err(ApiError::Unauthorized),
        Ok(who) => {
            let pair = TokenPair {
                access: issue(key, who, TokenKind::Access, now, ttl.access_ttl, serial),
                refresh: issue(key, who, TokenKind::Refresh, now, ttl.refresh_ttl, serial),
            };
            let old_hash = fingerprint(key, token);
            let new_hash = fingerprint(key, &pair.refresh);
            match sessions.rotate(old_hash, new_hash, pair.refresh.claims.exp) {
                Ok(()) => {
                    proof {
                        law_rotation_replaces(old(sessions)@, old_hash, new_hash, pair.refresh.claims.exp);
                    }
                    Ok(pair)
                },
                Err(SessionError::ReuseDetected) => Err(ApiError::Unauthorized),
                Err(SessionError::AlreadyOnFile) => Err(ApiError::PersistenceFault),
            }
        },
    }
}

/// Revokes the refresh token that the caller hands in.
pub fn logout(sessions: &mut SessionStore, key: &SigningKey, token: &Token)
    ensures
        final(sessions)@ == revoke_hash_in(old(sessions)@, fingerprint_of(key.secret@, *token)),
        !usable(final(sessions)@, fingerprint_of(key.secret@, *token)),
{
    let hash = fingerprint(key, token);
    sessions.revoke_token(hash);
    proof {
        law_revoked_token_cannot_rotate(old(sessions)@, hash, 0);
    }
}

/// The access token of a successful login verifies to the identity of the
/// account that logged in, at the instant of the login and at every later
/// instant before its expiry.
pub proof fn law_login_then_verify(
    users: Seq<UserRecord>,
    s: Seq<Session>,
    key: Seq<u8>,
    ttl: Lifetimes,
    name: Seq<char>,
    secret: Seq<u8>,
    now: u64,
    serial: u128,
    at: u64,
)
    requires
        ttl.fits(now),
        login_result(users, s, key, ttl, name, secret, now, serial).is_ok(),
        at < now + ttl.access_ttl + CLOCK_SKEW_SECS,
    ensures
        ({
            let access = login_result(users, s, key, ttl, name, secret, now, serial).unwrap().access;
            let who = Identity { id: users[account_of(users, name)].id };
            &&& verdict(access.claims, genuine(key, access), at, Some(TokenKind::Access)) == Ok::<
                Identity,
                TokenError,
            >(who)
            &&& verdict(access.claims, genuine(key, access), now, Some(TokenKind::Access)) == Ok::<
                Identity,
                TokenError,
            >(who)
        }),
{
}

/// A failed check of credentials reads the same whether the name is unknown
/// or the secret is wrong.
pub proof fn law_login_failure_is_uniform(
    users: Seq<UserRecord>,
    s: Seq<Session>,
    key: Seq<u8>,
    ttl: Lifetimes,
    name: Seq<char>,
    secret: Seq<u8>,
    now: u64,
    serial: u128,
)
    requires
        !registered(users, name) || users[account_of(users, name)].secret_hash@ != secret_hash_of(
            key,
            secret,
        ),
    ensures
        login_result(users, s, key, ttl, name, secret, now, serial) == Err::<TokenPair, ApiError>(
            ApiError::InvalidCredentials,
        ),
{
}

/// A successful refresh returns a new pair for the identity of the token
/// handed in: its refresh token is another token, it is usable afterwards,
/// and the token handed in is not.
pub proof fn law_refresh_returns_new_pair(
    s: Seq<Session>,
    key: Seq<u8>,
    ttl: Lifetimes,
    token: Token,
    now: u64,
    serial: u128,
)
    requires
        refresh_result(s, key, ttl, token, now, serial).is_ok(),
    ensures
        ({
            let pair = refresh_result(s, key, ttl, token, now, serial).unwrap();
            let after = sessions_after_refresh(s, key, ttl, token, now, serial);
            &&& pair.refresh != token
            &&& pair.access.claims.sub == token.claims.sub
            &&& pair.refresh.claims.sub == token.claims.sub
            &&& genuine(key, pair.access) && genuine(key, pair.refresh)
            &&& usable(after, fingerprint_of(key, pair.refresh))
            &&& !usable(after, fingerprint_of(key, token))
        }),
{
    let next = session_for(key, successor(key, ttl, token, now, serial));
    law_rotation_replaces(s, fingerprint_of(key, token), next.token_hash, next.expiry);
}

/// A refresh token is good for one exchange. After a successful refresh, a
/// second refresh with the same token is answered with `Unauthorized` at
/// every instant and under every serial, and issues nothing. Where the token
/// still verifies at that instant, every session of its identity is revoked,
/// the one filed by the first refresh among them, and the sessions of every
/// other identity are as usable as they were.
pub proof fn law_refresh_single_use(
    s: Seq<Session>,
    key: Seq<u8>,
    ttl: Lifetimes,
    token: Token,
    first: u64,
    first_serial: u128,
    second: u64,
    second_serial: u128,
)
    requires
        refresh_result(s, key, ttl, token, first, first_serial).is_ok(),
    ensures
        ({
            let pair = refresh_result(s, key, ttl, token, first, first_serial).unwrap();
            let s1 = sessions_after_refresh(s, key, ttl, token, first, first_serial);
            let s2 = sessions_after_refresh(s1, key, ttl, token, second, second_serial);
            let who = s[index_of(s, fingerprint_of(key, token))].identity;
            &&& refresh_result(s1, key, ttl, token, second, second_serial) == Err::<TokenPair, ApiError>(
                ApiError::Unauthorized,
            )
            &&& s2.len() == s1.len()
            &&& presentable(key, token, second) ==> {
                &&& s2 == revoke_identity_in(s1, who)
                &&& !usable(s2, fingerprint_of(key, pair.refresh))
                &&& forall|h: u128| usable(s2, h) <==> usable(s1, h) && s1[index_of(s1, h)].identity != who
            }
        }),
{
    let old_hash = fingerprint_of(key, token);
    let n1 = session_for(key, successor(key, ttl, token, first, first_serial));
    let n2 = session_for(key, successor(key, ttl, token, second, second_serial));
    law_rotation_single_use(s, old_hash, n1.token_hash, n1.expiry, n2.token_hash, n2.expiry);
}

/// After a logout the refresh token buys nothing: a refresh with it is
/// answered with `Unauthorized` at every instant, issues nothing, and files
/// nothing.
pub proof fn law_logout_then_refresh(
    s: Seq<Session>,
    key: Seq<u8>,
    ttl: Lifetimes,
    token: Token,
    now: u64,
    serial: u128,
)
    ensures
        ({
            let out = revoke_hash_in(s, fingerprint_of(key, token));
            &&& !usable(out, fingerprint_of(key, token))
            &&& refresh_result(out, key, ttl, token, now, serial) == Err::<TokenPair, ApiError>(
                ApiError::Unauthorized,
            )
            &&& sessions_after_refresh(out, key, ttl, token, now, serial).len() == s.len()
        }),
{
    let hash = fingerprint_of(key, token);
    let out = revoke_hash_in(s, hash);
    let next = session_for(key, successor(key, ttl, token, now, serial));
    law_revoked_token_cannot_rotate(s, hash, next.token_hash);
}

} // verus!
