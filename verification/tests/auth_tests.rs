use dim_auth::auth::login;
use dim_auth::auth::register;
use dim_auth::auth::RegistrationRequest;
use dim_auth::store::Store;
use dim_auth::types::AuthError;
use dim_auth::types::Role;

fn request(username: &str, password: &str, invite_token: Option<u64>) -> RegistrationRequest {
    RegistrationRequest {
        username: username.to_string(),
        password: password.to_string(),
        invite_token,
    }
}

#[test]
fn bootstrap_creates_owner() {
    let mut store = Store::new();
    let result = register(&mut store, &request("admin", "s3cret", None), 7);
    assert_eq!(result, Ok("admin".to_string()));
    assert_eq!(store.account_count(), 1);
    let account = store.lookup_account("admin").expect("bootstrap account must exist");
    assert_eq!(account.roles, vec![Role::Owner]);
}

#[test]
fn single_bootstrap_among_many() {
    let mut store = Store::new();
    let first = register(&mut store, &request("one", "p1", None), 7);
    let second = register(&mut store, &request("two", "p2", None), 7);
    let third = register(&mut store, &request("three", "p3", None), 7);
    assert_eq!(first, Ok("one".to_string()));
    assert_eq!(second, Err(AuthError::NoToken));
    assert_eq!(third, Err(AuthError::NoToken));
    assert_eq!(store.account_count(), 1);
    let account = store.lookup_account("one").expect("the single account must exist");
    assert_eq!(account.roles, vec![Role::Owner]);
    assert!(store.lookup_account("two").is_none());
    assert!(store.lookup_account("three").is_none());
}

#[test]
fn no_double_claim() {
    let mut store = Store::new();
    register(&mut store, &request("root", "p", None), 7).expect("bootstrap");
    let token = store.mint_invite(8);
    let first = register(&mut store, &request("amy", "pa", Some(token)), 7);
    let second = register(&mut store, &request("ben", "pb", Some(token)), 7);
    assert_eq!(first, Ok("amy".to_string()));
    assert_eq!(second, Err(AuthError::NoToken));
    assert_eq!(store.account_count(), 2);
}

#[test]
fn indistinguishable_failure() {
    let empty = Store::new();
    let ghost_result = login(&empty, "ghost", "x");
    let mut store = Store::new();
    register(&mut store, &request("real_user", "right_password", None), 7).expect("bootstrap");
    let wrong_result = login(&store, "real_user", "wrong_password");
    let ghost_err = ghost_result.expect_err("unknown user must not log in");
    let wrong_err = wrong_result.expect_err("wrong password must not log in");
    assert_eq!(ghost_err, AuthError::InvalidCredentials);
    assert_eq!(wrong_err, AuthError::InvalidCredentials);
    assert_eq!(ghost_err, wrong_err);
}

#[test]
fn happy_path_login() {
    let mut store = Store::new();
    register(&mut store, &request("root", "p", None), 7).expect("bootstrap");
    let token = store.mint_invite(8);
    register(&mut store, &request("alice", "hunter2", Some(token)), 7).expect("invited");
    let issued = login(&store, "alice", "hunter2").expect("valid credentials must log in");
    assert_eq!(issued.claims.subject, "alice");
    assert_eq!(issued.claims.roles, vec![Role::User]);
}

#[test]
fn invited_registration() {
    let mut store = Store::new();
    register(&mut store, &request("root", "p", None), 7).expect("bootstrap");
    let token = store.mint_invite(8);
    let first = register(&mut store, &request("bob", "p", Some(token)), 7);
    assert_eq!(first, Ok("bob".to_string()));
    let account = store.lookup_account("bob").expect("bob must exist");
    assert_eq!(account.roles, vec![Role::User]);
    let second = register(&mut store, &request("dora", "p", Some(token)), 7);
    assert_eq!(second, Err(AuthError::NoToken));
    assert!(store.lookup_account("dora").is_none());
}

#[test]
fn missing_token_on_non_bootstrap() {
    let mut store = Store::new();
    register(&mut store, &request("root", "p", None), 7).expect("bootstrap");
    let result = register(&mut store, &request("carol", "p", None), 7);
    assert_eq!(result, Err(AuthError::NoToken));
    assert_eq!(store.account_count(), 1);
}

#[test]
fn unknown_token_is_no_token() {
    let mut store = Store::new();
    register(&mut store, &request("root", "p", None), 7).expect("bootstrap");
    let result = register(&mut store, &request("carol", "p", Some(12345)), 7);
    assert_eq!(result, Err(AuthError::NoToken));
}

#[test]
fn duplicate_username_is_database_error() {
    let mut store = Store::new();
    register(&mut store, &request("root", "p", None), 7).expect("bootstrap");
    let token = store.mint_invite(8);
    let result = register(&mut store, &request("root", "q", Some(token)), 7);
    assert_eq!(result, Err(AuthError::DatabaseError));
    // the failed attempt aborted as a whole: the invite is still unclaimed
    assert!(store.validate_invite(token));
    assert_eq!(store.account_count(), 1);
}

#[test]
fn bootstrap_ignores_supplied_token() {
    let mut store = Store::new();
    let result = register(&mut store, &request("admin", "p", Some(999)), 7);
    assert_eq!(result, Ok("admin".to_string()));
    let account = store.lookup_account("admin").expect("bootstrap account must exist");
    assert_eq!(account.roles, vec![Role::Owner]);
}

#[test]
fn minted_invite_validates() {
    let mut store = Store::new();
    let token = store.mint_invite(8);
    assert!(store.validate_invite(token));
    assert!(!store.validate_invite(token + 1));
}

#[test]
fn claimed_invite_keeps_creation_time() {
    let mut store = Store::new();
    register(&mut store, &request("root", "p", None), 7).expect("bootstrap");
    let token = store.mint_invite(8);
    let minted = store.lookup_invite(token).expect("minted invite must exist");
    assert_eq!(minted.created_at, 8);
    assert_eq!(minted.claimed_by, None);
    register(&mut store, &request("bob", "p", Some(token)), 9).expect("invited");
    let claimed = store.lookup_invite(token).expect("claimed invite must remain");
    assert_eq!(claimed.created_at, 8);
    assert_eq!(claimed.claimed_by, Some("bob".to_string()));
}

#[test]
fn bootstrap_invite_is_claimed_by_owner() {
    let mut store = Store::new();
    register(&mut store, &request("admin", "p", None), 7).expect("bootstrap");
    let account = store.lookup_account("admin").expect("bootstrap account must exist");
    let invite = store
        .lookup_invite(account.claimed_invite)
        .expect("the bootstrap account is linked to a minted invite");
    assert_eq!(invite.created_at, 7);
    assert_eq!(invite.claimed_by, Some("admin".to_string()));
}
