//! The authentication service and the registration coordinator.
//!
//! `login` is read-only and may run concurrently with anything. `register`
//! mutates the store and must be executed under the caller's process-wide
//! write-serialization lock, one registration at a time; its contract gives
//! the whole serialized transaction as one step of [`register_model`].

use vstd::prelude::*;

use crate::credentials::hash_secret;
use crate::credentials::verify;
use crate::model::bootstrap_requested;
use crate::model::bootstrap_roles;
use crate::model::bootstrap_step;
use crate::model::invite_index;
use crate::model::invited_step;
use crate::model::lemma_invite_index;
use crate::model::lemma_register_preserves_wf;
use crate::model::login_model;
use crate::model::member_roles;
use crate::model::mint_step;
use crate::model::new_account;
use crate::model::register_model;
use crate::model::request_token_valid;
use crate::model::store_wf;
use crate::model::InviteModel;
use crate::model::RequestModel;
use crate::model::TokenModel;
use crate::store::Account;
use crate::store::Store;
use crate::token::issue;
use crate::token::Token;
use crate::types::AuthError;
use crate::types::Role;

verus! {

/// A transient registration request; never persisted.
#[derive(Debug, Clone)]
pub struct RegistrationRequest {
    pub username: String,
    /// The plaintext secret; only its hash is ever stored.
    pub password: String,
    /// The invite token reference, required on every non-bootstrap path.
    pub invite_token: Option<u64>,
}

impl View for RegistrationRequest {
    type V = RequestModel;

    open spec fn view(&self) -> RequestModel {
        RequestModel {
            username: self.username@,
            password: self.password@,
            invite_token: self.invite_token,
        }
    }
}

/// The resolved admission policy of one registration: decided once, at the
/// emptiness check, instead of branching through the transaction body.
enum RegistrationPath {
    /// First account ever: invite requirement waived, owner role granted.
    Bootstrap,
    /// Later account: admitted through this validated invite token.
    Invited(u64),
}

/// Copies a role snapshot out of a stored account.
fn copy_roles(roles: &Vec<Role>) -> (r: Vec<Role>)
    ensures
        r@ == roles@,
{
    let mut out: Vec<Role> = Vec::new();
    let n = roles.len();
    let mut i: usize = 0;
    while i < n
        invariant
            n == roles.len(),
            i <= n,
            out@ =~= roles@.take(i as int),
        decreases n - i,
    {
        out.push(roles[i]);
        i = i + 1;
    }
    proof {
        assert(roles@.take(n as int) =~= roles@);
    }
    out
}

/// Logs a user in and returns a bearer token for authenticating other
/// requests.
///
/// An unknown username and a secret mismatch return the very same
/// `InvalidCredentials` value, so the response never reveals whether the
/// username exists. Nothing is mutated and no lock is needed.
pub fn login(store: &Store, username: &str, password: &str) -> (result: Result<Token, AuthError>)
    requires
        store_wf(store@),
    ensures
        (match result {
            Ok(t) => login_model(store@, username@, password@) == Ok::<TokenModel, AuthError>(t@),
            Err(e) => login_model(store@, username@, password@) == Err::<TokenModel, AuthError>(e),
        }),
{
    match store.lookup_account(username) {
        None => Err(AuthError::InvalidCredentials),
        Some(account) => {
            if verify(username, account.secret_hash, password) {
                let roles = copy_roles(&account.roles);
                Ok(issue(String::from_str(username), roles))
            } else {
                Err(AuthError::InvalidCredentials)
            }
        },
    }
}

/// Registers a new account and returns its username.
///
/// The caller must hold the process-wide write-serialization lock for the
/// whole call: the emptiness check, the invite claim and the account
/// insertion here form the one serialized transaction of the subsystem. On
/// an empty table the request takes the bootstrap path: the invite
/// requirement is waived, a fresh invite is minted and immediately claimed,
/// and the owner role is granted. Otherwise the request must carry a token
/// naming an existing unclaimed invite, or it fails with `NoToken`; a taken
/// username fails with `DatabaseError`. Every failure leaves the store
/// exactly as it was. The clock reading `now` only stamps an invite minted on
/// the bootstrap path; no decision depends on it.
pub fn register(store: &mut Store, request: &RegistrationRequest, now: u64) -> (result: Result<
    String,
    AuthError,
>)
    requires
        store_wf(old(store)@),
        bootstrap_requested(old(store)@) ==> old(store)@.next_token < u64::MAX,
    ensures
        store_wf(final(store)@),
        final(store)@ == register_model(old(store)@, request@, now).0,
        (match result {
            Ok(u) => register_model(old(store)@, request@, now).1 == Ok::<Seq<char>, AuthError>(
                u@,
            ),
            Err(e) => register_model(old(store)@, request@, now).1 == Err::<Seq<char>, AuthError>(
                e,
            ),
        }),
{
    proof {
        lemma_register_preserves_wf(old(store)@, request@, now);
    }
    let path: RegistrationPath;
    if store.account_count() == 0 {
        path = RegistrationPath::Bootstrap;
    } else {
        match request.invite_token {
            None => {
                return Err(AuthError::NoToken);
            },
            Some(token) => {
                if !store.validate_invite(token) {
                    return Err(AuthError::NoToken);
                }
                if store.lookup_account(request.username.as_str()).is_some() {
                    return Err(AuthError::DatabaseError);
                }
                path = RegistrationPath::Invited(token);
            },
        }
    }
    match path {
        RegistrationPath::Bootstrap => {
            let token = store.mint_invite(now);
            store.claim_invite(token, request.username.as_str());
            proof {
                let s0 = old(store)@;
                let minted = mint_step(s0, now);
                lemma_invite_index(minted, token);
                assert(invite_index(minted, token) == s0.invites.len());
                assert(store@.invites =~= s0.invites.push(
                    InviteModel { token, created_at: now, claimed_by: Some(request@.username) },
                ));
            }
            let mut roles: Vec<Role> = Vec::new();
            roles.push(Role::Owner);
            let account = Account {
                username: request.username.clone(),
                secret_hash: hash_secret(request.password.as_str()),
                roles,
                prefs: String::new(),
                claimed_invite: token,
            };
            proof {
                assert(account@.roles =~= bootstrap_roles());
                assert(account@ =~= new_account(request@, bootstrap_roles(), token));
            }
            store.insert_account(account);
            proof {
                assert(store@ =~= bootstrap_step(old(store)@, request@, now));
            }
            Ok(request.username.clone())
        },
        RegistrationPath::Invited(token) => {
            store.claim_invite(token, request.username.as_str());
            let mut roles: Vec<Role> = Vec::new();
            roles.push(Role::User);
            let account = Account {
                username: request.username.clone(),
                secret_hash: hash_secret(request.password.as_str()),
                roles,
                prefs: String::new(),
                claimed_invite: token,
            };
            proof {
                assert(account@.roles =~= member_roles());
                assert(account@ =~= new_account(request@, member_roles(), token));
            }
            store.insert_account(account);
            proof {
                assert(request_token_valid(old(store)@, request@));
                assert(store@ =~= invited_step(old(store)@, request@, token));
            }
            Ok(request.username.clone())
        },
    }
}

} // verus!
