use todo_api::credential::{
    constant_time_eq, login, logout, refresh, register, Directory, Lifetimes, TokenPair,
};
use todo_api::error::ApiError;
use todo_api::gate::{advance, authorize, GateState};
use todo_api::identity::{Identity, RequestContext};
use todo_api::session::{SessionState, SessionStore};
use todo_api::token::{fingerprint, issue, verify, SigningKey, Token, TokenKind};

const NOW: u64 = 1_700_000_000;

fn key() -> SigningKey {
    SigningKey { secret: b"top-secret-key".to_vec() }
}

fn ttl() -> Lifetimes {
    Lifetimes { access_ttl: 900, refresh_ttl: 86_400 }
}

fn directory() -> Directory {
    let mut dir = Directory::new();
    assert_eq!(register(&mut dir, &key(), "ada".to_string(), b"pw-ada", 11), Ok(Identity { id: 11 }));
    assert_eq!(register(&mut dir, &key(), "bob".to_string(), b"pw-bob", 22), Ok(Identity { id: 22 }));
    dir
}

fn logged_in(dir: &Directory, sessions: &mut SessionStore, at: u64, serial: u128) -> TokenPair {
    login(dir, sessions, &key(), &ttl(), &"ada".to_string(), b"pw-ada", at, serial).unwrap()
}

#[test]
fn register_keeps_what_it_was_given() {
    let dir = directory();
    assert_eq!(dir.users.len(), 2);
    assert_eq!(dir.users[1].id, 22);
    assert_eq!(dir.users[1].username, "bob");
    assert_eq!(
        dir.users[0].secret_hash,
        vec![
            133, 97, 230, 104, 188, 65, 81, 95, 123, 3, 143, 40, 16, 205, 65, 152, 26, 10, 208, 126, 23,
            138, 217, 134, 245, 151, 254, 87, 118, 253, 239, 75
        ]
    );
    assert_ne!(dir.users[1].secret_hash, dir.users[0].secret_hash);
    assert_eq!(dir.find(&"bob".to_string()), Some(1));
    assert_eq!(dir.find(&"eve".to_string()), None);
}

#[test]
fn register_refuses_a_taken_name() {
    let mut dir = directory();
    assert_eq!(register(&mut dir, &key(), "ada".to_string(), b"other", 33), Err(ApiError::DuplicateUser));
    assert_eq!(dir.users.len(), 2);
}

#[test]
fn register_refuses_a_taken_id() {
    let mut dir = directory();
    assert_eq!(register(&mut dir, &key(), "eve".to_string(), b"other", 11), Err(ApiError::PersistenceFault));
    assert_eq!(dir.users.len(), 2);
}

#[test]
fn login_tells_nothing_about_which_field_was_wrong() {
    let dir = directory();
    let mut sessions = SessionStore::new();
    let wrong_secret = login(&dir, &mut sessions, &key(), &ttl(), &"ada".to_string(), b"pw-adb", NOW, 1);
    let wrong_name = login(&dir, &mut sessions, &key(), &ttl(), &"eve".to_string(), b"pw-ada", NOW, 2);
    let others_secret = login(&dir, &mut sessions, &key(), &ttl(), &"ada".to_string(), b"pw-bob", NOW, 3);
    let empty_secret = login(&dir, &mut sessions, &key(), &ttl(), &"ada".to_string(), b"", NOW, 4);
    assert_eq!(empty_secret, Err(ApiError::InvalidCredentials));
    assert_eq!(wrong_secret, Err(ApiError::InvalidCredentials));
    assert_eq!(wrong_name, Err(ApiError::InvalidCredentials));
    assert_eq!(others_secret, Err(ApiError::InvalidCredentials));
    assert!(sessions.entries.is_empty());
}

#[test]
fn login_then_verify_yields_the_identity() {
    let dir = directory();
    let mut sessions = SessionStore::new();
    let pair = logged_in(&dir, &mut sessions, NOW, 1);
    assert_eq!(verify(&key(), &pair.access, NOW, Some(TokenKind::Access)), Ok(Identity { id: 11 }));
    assert_eq!(verify(&key(), &pair.refresh, NOW, Some(TokenKind::Refresh)), Ok(Identity { id: 11 }));
    assert_eq!(pair.access, issue(&key(), Identity { id: 11 }, TokenKind::Access, NOW, 900, 1));
    assert_eq!(pair.refresh, issue(&key(), Identity { id: 11 }, TokenKind::Refresh, NOW, 86_400, 1));
    assert_eq!(pair.access.claims.exp, NOW + 900);
    assert_eq!(pair.refresh.claims.exp, NOW + 86_400);
}

#[test]
fn login_files_the_fingerprint_not_the_token() {
    let dir = directory();
    let mut sessions = SessionStore::new();
    let pair = logged_in(&dir, &mut sessions, NOW, 1);
    assert_eq!(sessions.entries.len(), 1);
    let filed = sessions.entries[0];
    assert_eq!(filed.identity, 11);
    assert_eq!(filed.token_hash, fingerprint(&key(), &pair.refresh));
    assert_ne!(filed.token_hash, pair.refresh.signature);
    assert_eq!(filed.expiry, NOW + 86_400);
    assert_eq!(filed.state, SessionState::Active);
}

#[test]
fn refresh_is_single_use() {
    let dir = directory();
    let mut sessions = SessionStore::new();
    let first = logged_in(&dir, &mut sessions, NOW, 1);
    let other_device = logged_in(&dir, &mut sessions, NOW + 1, 2);
    let second = refresh(&mut sessions, &key(), &ttl(), &first.refresh, NOW + 10, 3).unwrap();
    assert_eq!(second.access, issue(&key(), Identity { id: 11 }, TokenKind::Access, NOW + 10, 900, 3));
    assert_eq!(second.refresh, issue(&key(), Identity { id: 11 }, TokenKind::Refresh, NOW + 10, 86_400, 3));
    assert_eq!(sessions.entries.len(), 3);
    assert_eq!(sessions.entries[0].state, SessionState::Rotated);
    assert_eq!(sessions.entries[2].token_hash, fingerprint(&key(), &second.refresh));

    let replay = refresh(&mut sessions, &key(), &ttl(), &first.refresh, NOW + 20, 4);
    assert_eq!(replay, Err(ApiError::Unauthorized));
    assert_eq!(sessions.entries.len(), 3);
    for e in sessions.entries.iter() {
        assert_eq!(e.state, SessionState::Revoked);
    }
    assert_eq!(
        refresh(&mut sessions, &key(), &ttl(), &second.refresh, NOW + 30, 5),
        Err(ApiError::Unauthorized)
    );
    assert_eq!(
        refresh(&mut sessions, &key(), &ttl(), &other_device.refresh, NOW + 30, 6),
        Err(ApiError::Unauthorized)
    );
}

#[test]
fn refresh_wants_a_genuine_unexpired_refresh_token() {
    let dir = directory();
    let mut sessions = SessionStore::new();
    let pair = logged_in(&dir, &mut sessions, NOW, 1);
    let before = sessions.entries.clone();
    assert_eq!(
        refresh(&mut sessions, &key(), &ttl(), &pair.access, NOW + 10, 7),
        Err(ApiError::Unauthorized)
    );
    let forged = Token { claims: pair.refresh.claims, signature: pair.refresh.signature ^ 1 };
    assert_eq!(refresh(&mut sessions, &key(), &ttl(), &forged, NOW + 10, 7), Err(ApiError::Unauthorized));
    assert_eq!(
        refresh(&mut sessions, &key(), &ttl(), &pair.refresh, NOW + 86_400 + 5, 7),
        Err(ApiError::Unauthorized)
    );
    assert_eq!(sessions.entries, before);
    assert!(refresh(&mut sessions, &key(), &ttl(), &pair.refresh, NOW + 86_400 + 4, 7).is_ok());
}

#[test]
fn logout_revokes_the_refresh_token() {
    let dir = directory();
    let mut sessions = SessionStore::new();
    let pair = logged_in(&dir, &mut sessions, NOW, 1);
    logout(&mut sessions, &key(), &pair.refresh);
    assert_eq!(sessions.entries[0].state, SessionState::Revoked);
    assert_eq!(
        refresh(&mut sessions, &key(), &ttl(), &pair.refresh, NOW + 10, 9),
        Err(ApiError::Unauthorized)
    );
    assert_eq!(sessions.entries.len(), 1);
}

#[test]
fn refresh_in_the_second_of_the_login_returns_a_live_pair() {
    let dir = directory();
    let mut sessions = SessionStore::new();
    let first = logged_in(&dir, &mut sessions, NOW, 1);
    let second = refresh(&mut sessions, &key(), &ttl(), &first.refresh, NOW, 2).unwrap();
    assert_ne!(second.refresh, first.refresh);
    assert_ne!(second.access, first.access);
    assert_eq!(second.refresh.claims.sub, 11);
    assert!(sessions.is_active(fingerprint(&key(), &second.refresh)));
    assert!(!sessions.is_active(fingerprint(&key(), &first.refresh)));
    assert_eq!(sessions.entries[0].state, SessionState::Rotated);
    assert_eq!(sessions.entries[1].state, SessionState::Active);
    let third = refresh(&mut sessions, &key(), &ttl(), &second.refresh, NOW + 1, 3).unwrap();
    assert_eq!(verify(&key(), &third.access, NOW + 1, Some(TokenKind::Access)), Ok(Identity { id: 11 }));
    assert!(sessions.is_active(fingerprint(&key(), &third.refresh)));
    assert_eq!(sessions.entries.len(), 3);
}

#[test]
fn refresh_under_a_spent_serial_files_nothing() {
    let dir = directory();
    let mut sessions = SessionStore::new();
    let first = logged_in(&dir, &mut sessions, NOW, 1);
    let before = sessions.entries.clone();
    assert_eq!(
        refresh(&mut sessions, &key(), &ttl(), &first.refresh, NOW, 1),
        Err(ApiError::PersistenceFault)
    );
    assert_eq!(sessions.entries, before);
    assert!(refresh(&mut sessions, &key(), &ttl(), &first.refresh, NOW, 2).is_ok());
}

#[test]
fn two_logins_in_one_second_get_two_tokens() {
    let dir = directory();
    let mut sessions = SessionStore::new();
    let a = logged_in(&dir, &mut sessions, NOW, 1);
    let b = logged_in(&dir, &mut sessions, NOW, 2);
    assert_ne!(a.refresh, b.refresh);
    assert_eq!(sessions.entries.len(), 2);
    assert_eq!(
        login(&dir, &mut sessions, &key(), &ttl(), &"ada".to_string(), b"pw-ada", NOW, 1),
        Err(ApiError::PersistenceFault)
    );
    assert_eq!(sessions.entries.len(), 2);
    assert!(refresh(&mut sessions, &key(), &ttl(), &a.refresh, NOW + 5, 3).is_ok());
    assert!(refresh(&mut sessions, &key(), &ttl(), &b.refresh, NOW + 5, 4).is_ok());
}

#[test]
fn replay_leaves_other_identities_alone() {
    let dir = directory();
    let mut sessions = SessionStore::new();
    let ada = logged_in(&dir, &mut sessions, NOW, 1);
    let bob = login(&dir, &mut sessions, &key(), &ttl(), &"bob".to_string(), b"pw-bob", NOW, 2).unwrap();
    let next = refresh(&mut sessions, &key(), &ttl(), &ada.refresh, NOW + 1, 3).unwrap();
    assert_eq!(
        refresh(&mut sessions, &key(), &ttl(), &ada.refresh, NOW + 2, 4),
        Err(ApiError::Unauthorized)
    );
    assert_eq!(
        refresh(&mut sessions, &key(), &ttl(), &next.refresh, NOW + 3, 5),
        Err(ApiError::Unauthorized)
    );
    let bobs = refresh(&mut sessions, &key(), &ttl(), &bob.refresh, NOW + 3, 6).unwrap();
    assert_eq!(bobs.refresh.claims.sub, 22);
}

#[test]
fn directory_is_made_of_accounts_with_distinct_names() {
    let users = directory().users;
    let mut twice = directory().users;
    twice.extend(directory().users);
    assert_eq!(Directory::from_users(users).map(|d| d.users.len()), Some(2));
    assert!(Directory::from_users(twice).is_none());
    assert_eq!(Directory::from_users(Vec::new()).map(|d| d.users.len()), Some(0));
}

#[test]
fn lifetimes_fit_where_expiry_can_be_written() {
    let t = ttl();
    assert!(t.fit(NOW));
    assert!(t.fit(u64::MAX - 86_400));
    assert!(!t.fit(u64::MAX - 86_399));
    assert!(!t.fit(u64::MAX));
    assert!(Lifetimes { access_ttl: 0, refresh_ttl: 0 }.fit(u64::MAX));
}

#[test]
fn constant_time_eq_compares_whole_strings() {
    assert!(constant_time_eq(&[], &[]));
    assert!(constant_time_eq(&[1, 2, 3], &[1, 2, 3]));
    assert!(!constant_time_eq(&[1, 2, 3], &[1, 2, 4]));
    assert!(!constant_time_eq(&[0, 2, 3], &[1, 2, 3]));
    assert!(!constant_time_eq(&[1, 2, 3], &[1, 2]));
    assert!(!constant_time_eq(&[0x0f], &[0xf0]));
}

#[test]
fn request_with_access_token_gets_the_identity_of_an_access_token() {
    let access = issue(&key(), Identity { id: 11 }, TokenKind::Access, NOW, 900, 1);
    assert_eq!(
        authorize(Some(access), &key(), NOW + 1),
        Ok(RequestContext { identity: Identity { id: 11 } })
    );
}

#[test]
fn every_rejection_reads_the_same() {
    let access = issue(&key(), Identity { id: 11 }, TokenKind::Access, NOW, 900, 1);
    let refresh_token = issue(&key(), Identity { id: 11 }, TokenKind::Refresh, NOW, 86_400, 1);
    let forged = Token { claims: access.claims, signature: access.signature ^ 0x100 };
    assert_eq!(authorize(None, &key(), NOW), Err(ApiError::Unauthorized));
    assert_eq!(authorize(Some(forged), &key(), NOW), Err(ApiError::Unauthorized));
    assert_eq!(authorize(Some(access), &key(), NOW + 905), Err(ApiError::Unauthorized));
    assert_eq!(authorize(Some(refresh_token), &key(), NOW), Err(ApiError::Unauthorized));
}

#[test]
fn states_follow_in_order() {
    let access = issue(&key(), Identity { id: 11 }, TokenKind::Access, NOW, 900, 1);
    let s1 = advance(GateState::Unauthenticated, Some(access), &key(), NOW);
    assert_eq!(s1, GateState::TokenExtracted(access));
    let s2 = advance(s1, Some(access), &key(), NOW);
    assert_eq!(s2, GateState::Verified(Identity { id: 11 }));
    let s3 = advance(s2, Some(access), &key(), NOW);
    assert_eq!(s3, GateState::Attached(RequestContext { identity: Identity { id: 11 } }));
    assert_eq!(advance(s3, None, &key(), NOW), s3);
    let rejected = advance(GateState::Unauthenticated, None, &key(), NOW);
    assert_eq!(rejected, GateState::Rejected(ApiError::Unauthorized));
    assert_eq!(advance(rejected, Some(access), &key(), NOW), rejected);
    let late = advance(GateState::TokenExtracted(access), None, &key(), NOW + 905);
    assert_eq!(late, GateState::Rejected(ApiError::Unauthorized));
}

#[test]
fn lifetimes_must_be_in_proportion() {
    assert_eq!(Lifetimes::new(900, 9000), Some(Lifetimes { access_ttl: 900, refresh_ttl: 9000 }));
    assert_eq!(Lifetimes::new(900, 8999), None);
    assert_eq!(Lifetimes::new(0, 0), Some(Lifetimes { access_ttl: 0, refresh_ttl: 0 }));
    assert_eq!(Lifetimes::new(u64::MAX, u64::MAX), None);
    assert_eq!(Lifetimes::new(1, 9), None);
    assert_eq!(Lifetimes::new(1, 10), Some(Lifetimes { access_ttl: 1, refresh_ttl: 10 }));
}
