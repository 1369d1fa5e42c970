use todo_api::identity::Identity;
use todo_api::session::{Session, SessionError, SessionState, SessionStore};

fn entry(identity: u128, token_hash: u128, expiry: u64, state: SessionState) -> Session {
    Session { identity, token_hash, expiry, state }
}

#[test]
fn record_files_an_active_entry() {
    let mut store = SessionStore::new();
    assert!(store.entries.is_empty());
    assert_eq!(store.record(Identity { id: 1 }, 100, 5000), Ok(()));
    assert_eq!(store.entries, vec![entry(1, 100, 5000, SessionState::Active)]);
    assert!(store.is_active(100));
    assert!(!store.is_active(101));
    assert_eq!(store.find(100), Some(0));
    assert_eq!(store.find(101), None);
}

#[test]
fn rotate_marks_the_old_and_files_the_new() {
    let mut store = SessionStore::new();
    store.record(Identity { id: 1 }, 100, 5000).unwrap();
    store.record(Identity { id: 2 }, 200, 5000).unwrap();
    assert_eq!(store.rotate(100, 101, 6000), Ok(()));
    assert_eq!(
        store.entries,
        vec![
            entry(1, 100, 5000, SessionState::Rotated),
            entry(2, 200, 5000, SessionState::Active),
            entry(1, 101, 6000, SessionState::Active),
        ]
    );
}

#[test]
fn second_rotate_of_one_token_is_reuse() {
    let mut store = SessionStore::new();
    store.record(Identity { id: 1 }, 100, 5000).unwrap();
    store.record(Identity { id: 1 }, 150, 5000).unwrap();
    store.record(Identity { id: 2 }, 200, 5000).unwrap();
    assert_eq!(store.rotate(100, 101, 6000), Ok(()));
    assert_eq!(store.rotate(100, 102, 7000), Err(SessionError::ReuseDetected));
    assert_eq!(
        store.entries,
        vec![
            entry(1, 100, 5000, SessionState::Revoked),
            entry(1, 150, 5000, SessionState::Revoked),
            entry(2, 200, 5000, SessionState::Active),
            entry(1, 101, 6000, SessionState::Revoked),
        ]
    );
    assert_eq!(store.rotate(101, 103, 8000), Err(SessionError::ReuseDetected));
    assert_eq!(store.rotate(200, 201, 8000), Ok(()));
}

#[test]
fn rotate_of_an_unknown_token_changes_nothing() {
    let mut store = SessionStore::new();
    store.record(Identity { id: 1 }, 100, 5000).unwrap();
    assert_eq!(store.rotate(999, 101, 6000), Err(SessionError::ReuseDetected));
    assert_eq!(store.entries, vec![entry(1, 100, 5000, SessionState::Active)]);
}

#[test]
fn record_refuses_a_fingerprint_on_file() {
    let mut store = SessionStore::new();
    assert_eq!(store.record(Identity { id: 1 }, 100, 5000), Ok(()));
    assert_eq!(store.record(Identity { id: 2 }, 100, 6000), Err(SessionError::AlreadyOnFile));
    assert_eq!(store.record(Identity { id: 1 }, 100, 5000), Err(SessionError::AlreadyOnFile));
    assert_eq!(store.entries, vec![entry(1, 100, 5000, SessionState::Active)]);
}

#[test]
fn rotate_refuses_a_new_fingerprint_on_file() {
    let mut store = SessionStore::new();
    store.record(Identity { id: 1 }, 100, 5000).unwrap();
    store.record(Identity { id: 2 }, 200, 5000).unwrap();
    assert_eq!(store.rotate(100, 100, 6000), Err(SessionError::AlreadyOnFile));
    assert_eq!(store.rotate(100, 200, 6000), Err(SessionError::AlreadyOnFile));
    assert_eq!(
        store.entries,
        vec![entry(1, 100, 5000, SessionState::Active), entry(2, 200, 5000, SessionState::Active)]
    );
    assert!(store.is_active(100));
    assert_eq!(store.rotate(100, 101, 6000), Ok(()));
    assert!(store.is_active(101));
    assert!(!store.is_active(100));
}

#[test]
fn reuse_is_told_before_a_fingerprint_on_file() {
    let mut store = SessionStore::new();
    store.record(Identity { id: 1 }, 100, 5000).unwrap();
    store.record(Identity { id: 1 }, 150, 5000).unwrap();
    store.revoke_token(100);
    assert_eq!(store.rotate(100, 150, 6000), Err(SessionError::ReuseDetected));
    assert!(!store.is_active(150));
}

#[test]
fn revoke_token_revokes_that_token_only() {
    let mut store = SessionStore::new();
    store.record(Identity { id: 1 }, 100, 5000).unwrap();
    store.record(Identity { id: 1 }, 150, 5000).unwrap();
    store.revoke_token(100);
    assert_eq!(
        store.entries,
        vec![entry(1, 100, 5000, SessionState::Revoked), entry(1, 150, 5000, SessionState::Active)]
    );
    assert_eq!(store.rotate(100, 101, 6000), Err(SessionError::ReuseDetected));
}

#[test]
fn revoke_identity_revokes_all_of_its_sessions() {
    let mut store = SessionStore::new();
    store.record(Identity { id: 1 }, 100, 5000).unwrap();
    store.record(Identity { id: 2 }, 200, 5000).unwrap();
    store.record(Identity { id: 1 }, 150, 5000).unwrap();
    store.revoke_identity(Identity { id: 1 });
    assert_eq!(
        store.entries,
        vec![
            entry(1, 100, 5000, SessionState::Revoked),
            entry(2, 200, 5000, SessionState::Active),
            entry(1, 150, 5000, SessionState::Revoked),
        ]
    );
    assert!(!store.is_active(150));
    assert!(store.is_active(200));
}
