use dim_auth::credentials::hash_secret;
use dim_auth::credentials::verify;
use dim_auth::model::HASH_SEED;
use dim_auth::token::issue;
use dim_auth::types::AuthError;
use dim_auth::types::Role;

#[test]
fn error_kinds_are_stable() {
    assert_eq!(AuthError::InvalidCredentials.kind(), "invalid credentials");
    assert_eq!(AuthError::NoToken.kind(), "no token");
    assert_eq!(AuthError::DatabaseError.kind(), "database error");
}

#[test]
fn hash_of_empty_is_seed() {
    assert_eq!(hash_secret(""), HASH_SEED);
}

#[test]
fn hash_follows_rotate_xor_scheme() {
    // one accumulator step per character: rotate left by 7, xor the character
    let mut expected = HASH_SEED;
    for c in "hunter2".chars() {
        expected = ((expected << 7) | (expected >> 57)) ^ (c as u64);
    }
    assert_eq!(hash_secret("hunter2"), expected);
}

#[test]
fn verify_accepts_matching_secret() {
    let stored = hash_secret("hunter2");
    assert!(verify("alice", stored, "hunter2"));
}

#[test]
fn verify_rejects_mismatch() {
    let stored = hash_secret("hunter2");
    assert!(!verify("alice", stored, "hunter3"));
    assert!(!verify("alice", stored, ""));
}

#[test]
fn issued_claims_are_deterministic() {
    let a = issue("alice".to_string(), vec![Role::User]);
    let b = issue("alice".to_string(), vec![Role::User]);
    assert_eq!(a, b);
    let other = issue("alice".to_string(), vec![Role::Owner]);
    assert_ne!(a.signature, other.signature);
}
