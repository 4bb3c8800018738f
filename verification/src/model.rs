//! The mathematical model of the subsystem.
//!
//! Every executable operation is specified against the ghost state in this
//! module: a [`StoreModel`] holds the abstract account and invite tables, and
//! the spec functions here say what each operation computes on it.

use vstd::prelude::*;

use crate::types::AuthError;
use crate::types::Role;

verus! {

/// Abstract value of a stored account.
#[verifier::ext_equal]
pub ghost struct AccountModel {
    /// Unique, case-sensitive primary key.
    pub username: Seq<char>,
    /// Hash of the account's secret, as [`hash_of`] gives it.
    pub secret_hash: u64,
    /// Privilege roles; always non-empty.
    pub roles: Seq<Role>,
    /// Free-form preference blob; empty at registration.
    pub prefs: Seq<char>,
    /// The token of the one invite this account claimed when it registered.
    pub claimed_invite: u64,
}

/// Abstract value of a single-use invite.
#[verifier::ext_equal]
pub ghost struct InviteModel {
    /// Unique opaque identifier.
    pub token: u64,
    /// When the invite was created, as the caller's clock gave it.
    pub created_at: u64,
    /// The username of the account that claimed this invite, once claimed.
    pub claimed_by: Option<Seq<char>>,
}

/// Abstract state of the datastore: the account table, the invite table, and
/// the next fresh invite token.
#[verifier::ext_equal]
pub ghost struct StoreModel {
    pub accounts: Seq<AccountModel>,
    pub invites: Seq<InviteModel>,
    /// Strictly above every token in `invites`, so minting at it is fresh.
    pub next_token: u64,
}

/// Abstract value of a registration request.
#[verifier::ext_equal]
pub ghost struct RequestModel {
    pub username: Seq<char>,
    pub password: Seq<char>,
    pub invite_token: Option<u64>,
}

/// Abstract claims carried by an issued session token.
#[verifier::ext_equal]
pub ghost struct ClaimsModel {
    pub subject: Seq<char>,
    pub roles: Seq<Role>,
}

/// Abstract value of an issued session token.
#[verifier::ext_equal]
pub ghost struct TokenModel {
    pub claims: ClaimsModel,
    pub signature: u64,
}

/// Seed of the secret-hashing scheme.
pub const HASH_SEED: u64 = 0xcbf2_9ce4_8422_2325;

/// One step of the rotate-and-xor accumulator behind hashing and signing.
pub open spec fn mix(h: u64, v: u64) -> u64 {
    ((h << 7) | (h >> 57)) ^ v
}

/// The hash this subsystem stores in place of a plaintext secret.
pub open spec fn hash_of(s: Seq<char>) -> u64
    decreases s.len(),
{
    if s.len() == 0 {
        HASH_SEED
    } else {
        mix(hash_of(s.drop_last()), s.last() as u64)
    }
}

/// Numeric code of a role inside a token signature.
pub open spec fn role_code(r: Role) -> u64 {
    match r {
        Role::Owner => 1,
        Role::User => 2,
    }
}

/// Folds a sequence of roles into an accumulated signature value.
pub open spec fn mix_roles(h: u64, roles: Seq<Role>) -> u64
    decreases roles.len(),
{
    if roles.len() == 0 {
        h
    } else {
        mix(mix_roles(h, roles.drop_last()), role_code(roles.last()))
    }
}

/// Signature of a token over its claims: deterministic in subject and roles.
pub open spec fn sig_of(subject: Seq<char>, roles: Seq<Role>) -> u64 {
    mix_roles(hash_of(subject), roles)
}

/// The token issued for a subject with a snapshot of its roles.
pub open spec fn token_model(subject: Seq<char>, roles: Seq<Role>) -> TokenModel {
    TokenModel { claims: ClaimsModel { subject, roles }, signature: sig_of(subject, roles) }
}

/// Usernames are pairwise distinct: the primary key of the account table.
pub open spec fn usernames_unique(accounts: Seq<AccountModel>) -> bool {
    forall|i: int, j: int|
        0 <= i < j < accounts.len() ==> accounts[i].username != accounts[j].username
}

/// Invite tokens are pairwise distinct.
pub open spec fn invites_unique(invites: Seq<InviteModel>) -> bool {
    forall|i: int, j: int| 0 <= i < j < invites.len() ==> invites[i].token != invites[j].token
}

/// Every stored invite token lies strictly below the next fresh token.
pub open spec fn tokens_below_next(s: StoreModel) -> bool {
    forall|i: int| 0 <= i < s.invites.len() ==> s.invites[i].token < s.next_token
}

/// Some account holds this username.
pub open spec fn has_account(s: StoreModel, username: Seq<char>) -> bool {
    exists|i: int| 0 <= i < s.accounts.len() && s.accounts[i].username == username
}

/// The index of the account holding this username (meaningful under
/// [`has_account`] and [`usernames_unique`]).
pub open spec fn account_index(s: StoreModel, username: Seq<char>) -> int {
    choose|i: int| 0 <= i < s.accounts.len() && s.accounts[i].username == username
}

/// The account holding this username.
pub open spec fn account_of(s: StoreModel, username: Seq<char>) -> AccountModel {
    s.accounts[account_index(s, username)]
}

/// Some invite carries this token.
pub open spec fn has_invite(s: StoreModel, token: u64) -> bool {
    exists|i: int| 0 <= i < s.invites.len() && s.invites[i].token == token
}

/// The index of the invite carrying this token (meaningful under
/// [`has_invite`] and [`invites_unique`]).
pub open spec fn invite_index(s: StoreModel, token: u64) -> int {
    choose|i: int| 0 <= i < s.invites.len() && s.invites[i].token == token
}

/// The token names an invite that exists and is not yet claimed.
pub open spec fn invite_valid(s: StoreModel, token: u64) -> bool {
    has_invite(s, token) && s.invites[invite_index(s, token)].claimed_by is None
}

/// Roles of the bootstrap (first) account.
pub open spec fn bootstrap_roles() -> Seq<Role> {
    seq![Role::Owner]
}

/// Roles of every invited (later) account.
pub open spec fn member_roles() -> Seq<Role> {
    seq![Role::User]
}

/// The very first account holds exactly the owner role; every later account
/// holds exactly the user role.
pub open spec fn roles_by_position(accounts: Seq<AccountModel>) -> bool {
    forall|i: int|
        0 <= i < accounts.len() ==> accounts[i].roles == (if i == 0 {
            bootstrap_roles()
        } else {
            member_roles()
        })
}

/// Account `i` is linked to the one invite it claimed: that invite exists and
/// records this account as its claimant.
pub open spec fn account_linked(s: StoreModel, i: int) -> bool {
    &&& has_invite(s, s.accounts[i].claimed_invite)
    &&& s.invites[invite_index(s, s.accounts[i].claimed_invite)].claimed_by == Some(
        s.accounts[i].username,
    )
}

/// Every account, the bootstrap one included, is linked to exactly one invite.
pub open spec fn accounts_linked(s: StoreModel) -> bool {
    forall|i: int| 0 <= i < s.accounts.len() ==> #[trigger] account_linked(s, i)
}

/// Invite `i` is either unclaimed or claimed by an existing account.
pub open spec fn invite_claim_ok(s: StoreModel, i: int) -> bool {
    match s.invites[i].claimed_by {
        Some(u) => has_account(s, u),
        None => true,
    }
}

/// A claimed invite always names an existing account.
pub open spec fn claims_are_accounts(s: StoreModel) -> bool {
    forall|i: int| 0 <= i < s.invites.len() ==> #[trigger] invite_claim_ok(s, i)
}

/// Well-formedness of the datastore. Constructors establish it, and every
/// mutating operation preserves it.
pub open spec fn store_wf(s: StoreModel) -> bool {
    &&& usernames_unique(s.accounts)
    &&& invites_unique(s.invites)
    &&& tokens_below_next(s)
    &&& roles_by_position(s.accounts)
    &&& accounts_linked(s)
    &&& claims_are_accounts(s)
}

/// The state of a freshly opened datastore.
pub open spec fn empty_store() -> StoreModel {
    StoreModel { accounts: Seq::empty(), invites: Seq::empty(), next_token: 0 }
}

/// The account table is empty, so registration takes the bootstrap path.
pub open spec fn bootstrap_requested(s: StoreModel) -> bool {
    s.accounts.len() == 0
}

/// The request carries a token naming a valid unclaimed invite.
pub open spec fn request_token_valid(s: StoreModel, r: RequestModel) -> bool {
    match r.invite_token {
        Some(t) => invite_valid(s, t),
        None => false,
    }
}

/// The account a request persists, with its resolved roles and claimed token.
pub open spec fn new_account(r: RequestModel, roles: Seq<Role>, token: u64) -> AccountModel {
    AccountModel {
        username: r.username,
        secret_hash: hash_of(r.password),
        roles,
        prefs: Seq::empty(),
        claimed_invite: token,
    }
}

/// The bootstrap path: mint a fresh invite, mark it claimed by the new
/// account, and persist the account with the owner role.
pub open spec fn bootstrap_step(s: StoreModel, r: RequestModel, now: u64) -> StoreModel {
    let t = s.next_token;
    StoreModel {
        accounts: s.accounts.push(new_account(r, bootstrap_roles(), t)),
        invites: s.invites.push(
            InviteModel { token: t, created_at: now, claimed_by: Some(r.username) },
        ),
        next_token: (s.next_token + 1) as u64,
    }
}

/// Minting alone: a fresh unclaimed invite appears and the next token moves
/// past it.
pub open spec fn mint_step(s: StoreModel, now: u64) -> StoreModel {
    StoreModel {
        accounts: s.accounts,
        invites: s.invites.push(
            InviteModel { token: s.next_token, created_at: now, claimed_by: None },
        ),
        next_token: (s.next_token + 1) as u64,
    }
}

/// Minting preserves well-formedness, and the minted invite is valid.
pub proof fn lemma_mint_wf(s: StoreModel, now: u64)
    requires
        store_wf(s),
        s.next_token < u64::MAX,
    ensures
        store_wf(mint_step(s, now)),
        invite_valid(mint_step(s, now), s.next_token),
{
    let s2 = mint_step(s, now);
    let t = s.next_token;
    let m = s.invites.len() as int;
    assert(s2.invites.len() == m + 1);
    assert(s2.invites[m] == InviteModel { token: t, created_at: now, claimed_by: None });
    assert(forall|i: int| 0 <= i < m ==> s2.invites[i] == s.invites[i]);
    assert(invites_unique(s2.invites)) by {
        assert forall|i: int, j: int|
            0 <= i < j < s2.invites.len() implies s2.invites[i].token != s2.invites[j].token by {
            if j < m {
                assert(s.invites[i].token != s.invites[j].token);
            } else {
                assert(s.invites[i].token < t);
            }
        }
    }
    assert(tokens_below_next(s2)) by {
        assert forall|i: int| 0 <= i < s2.invites.len() implies s2.invites[i].token
            < s2.next_token by {
            if i < m {
                assert(s.invites[i].token < t);
            }
        }
    }
    assert(accounts_linked(s2)) by {
        assert forall|i: int| 0 <= i < s2.accounts.len() implies account_linked(s2, i) by {
            assert(account_linked(s, i));
            let ti = s.accounts[i].claimed_invite;
            lemma_invite_index(s, ti);
            let ki = invite_index(s, ti);
            assert(0 <= ki < s2.invites.len() && s2.invites[ki].token == ti);
            assert(has_invite(s2, ti));
            lemma_invite_index(s2, ti);
            assert(invite_index(s2, ti) == ki);
        }
    }
    assert(claims_are_accounts(s2)) by {
        assert forall|i: int| 0 <= i < s2.invites.len() implies invite_claim_ok(s2, i) by {
            if i < m {
                assert(invite_claim_ok(s, i));
                if s.invites[i].claimed_by is Some {
                    let u = s.invites[i].claimed_by->0;
                    assert(has_account(s, u));
                    let k = choose|k: int|
                        0 <= k < s.accounts.len() && s.accounts[k].username == u;
                    assert(0 <= k < s2.accounts.len() && s2.accounts[k].username == u);
                    assert(has_account(s2, u));
                }
            }
        }
    }
    assert(invite_valid(s2, t)) by {
        assert(0 <= m < s2.invites.len() && s2.invites[m].token == t);
        assert(has_invite(s2, t));
        lemma_invite_index(s2, t);
        assert(invite_index(s2, t) == m);
    }
}

/// The invited path: claim the referenced invite and persist the account with
/// the user role.
pub open spec fn invited_step(s: StoreModel, r: RequestModel, t: u64) -> StoreModel {
    StoreModel {
        accounts: s.accounts.push(new_account(r, member_roles(), t)),
        invites: s.invites.update(
            invite_index(s, t),
            InviteModel {
                token: t,
                created_at: s.invites[invite_index(s, t)].created_at,
                claimed_by: Some(r.username),
            },
        ),
        next_token: s.next_token,
    }
}

/// What one registration does to the datastore, and what it returns.
///
/// On an empty table the invite requirement is waived and the request's token,
/// if any, is ignored. On a non-empty table a missing, unknown or
/// already-claimed token terminates the attempt with `NoToken`; a taken
/// username violates the table's key constraint and surfaces as
/// `DatabaseError`. Either error leaves the datastore unchanged.
pub open spec fn register_model(s: StoreModel, r: RequestModel, now: u64) -> (StoreModel, Result<
    Seq<char>,
    AuthError,
>) {
    if bootstrap_requested(s) {
        (bootstrap_step(s, r, now), Ok(r.username))
    } else if !request_token_valid(s, r) {
        (s, Err(AuthError::NoToken))
    } else if has_account(s, r.username) {
        (s, Err(AuthError::DatabaseError))
    } else {
        (invited_step(s, r, r.invite_token->0), Ok(r.username))
    }
}

/// What one login returns: the token issued on the account's current roles,
/// or the single indistinguishable failure for an unknown username and for a
/// secret mismatch alike.
pub open spec fn login_model(s: StoreModel, username: Seq<char>, password: Seq<char>) -> Result<
    TokenModel,
    AuthError,
> {
    if !has_account(s, username) {
        Err(AuthError::InvalidCredentials)
    } else if hash_of(password) == account_of(s, username).secret_hash {
        Ok(token_model(username, account_of(s, username).roles))
    } else {
        Err(AuthError::InvalidCredentials)
    }
}

/// Under unique usernames, the chosen account index is the one index holding
/// the username.
pub proof fn lemma_account_index(s: StoreModel, username: Seq<char>)
    requires
        usernames_unique(s.accounts),
        has_account(s, username),
    ensures
        0 <= account_index(s, username) < s.accounts.len(),
        s.accounts[account_index(s, username)].username == username,
        forall|i: int|
            0 <= i < s.accounts.len() && s.accounts[i].username == username ==> i == account_index(
                s,
                username,
            ),
{
    let idx = account_index(s, username);
    assert(0 <= idx < s.accounts.len() && s.accounts[idx].username == username);
    assert forall|i: int|
        0 <= i < s.accounts.len() && s.accounts[i].username == username implies i == idx by {
        if i < idx {
            assert(s.accounts[i].username != s.accounts[idx].username);
        } else if idx < i {
            assert(s.accounts[idx].username != s.accounts[i].username);
        }
    }
}

/// Under unique tokens, the chosen invite index is the one index carrying the
/// token.
pub proof fn lemma_invite_index(s: StoreModel, token: u64)
    requires
        invites_unique(s.invites),
        has_invite(s, token),
    ensures
        0 <= invite_index(s, token) < s.invites.len(),
        s.invites[invite_index(s, token)].token == token,
        forall|i: int|
            0 <= i < s.invites.len() && s.invites[i].token == token ==> i == invite_index(s, token),
{
    let idx = invite_index(s, token);
    assert(0 <= idx < s.invites.len() && s.invites[idx].token == token);
    assert forall|i: int|
        0 <= i < s.invites.len() && s.invites[i].token == token implies i == idx by {
        if i < idx {
            assert(s.invites[i].token != s.invites[idx].token);
        } else if idx < i {
            assert(s.invites[idx].token != s.invites[i].token);
        }
    }
}

/// The bootstrap path preserves well-formedness.
pub proof fn lemma_bootstrap_wf(s: StoreModel, r: RequestModel, now: u64)
    requires
        store_wf(s),
        bootstrap_requested(s),
        s.next_token < u64::MAX,
    ensures
        store_wf(bootstrap_step(s, r, now)),
{
    let s2 = bootstrap_step(s, r, now);
    let t = s.next_token;
    let m = s.invites.len() as int;
    assert(s2.accounts.len() == 1);
    assert(s2.invites.len() == m + 1);
    assert(s2.invites[m] == InviteModel { token: t, created_at: now, claimed_by: Some(r.username) });
    assert(s2.next_token == t + 1);
    assert(invites_unique(s2.invites)) by {
        assert forall|i: int, j: int|
            0 <= i < j < s2.invites.len() implies s2.invites[i].token != s2.invites[j].token by {
            if j < m {
                assert(s.invites[i].token != s.invites[j].token);
            } else {
                assert(s2.invites[j].token == t);
                assert(s2.invites[i].token == s.invites[i].token);
                assert(s.invites[i].token < t);
            }
        }
    }
    assert(tokens_below_next(s2)) by {
        assert forall|i: int| 0 <= i < s2.invites.len() implies s2.invites[i].token
            < s2.next_token by {
            if i < m {
                assert(s.invites[i].token < t);
            }
        }
    }
    assert(roles_by_position(s2.accounts)) by {
        assert(s2.accounts[0].roles == bootstrap_roles());
    }
    assert(has_account(s2, r.username)) by {
        assert(0 <= 0 < s2.accounts.len() && s2.accounts[0].username == r.username);
    }
    assert(accounts_linked(s2)) by {
        assert(s2.invites[m].token == t);
        assert(has_invite(s2, t));
        lemma_invite_index(s2, t);
        assert(invite_index(s2, t) == m);
        assert(account_linked(s2, 0));
    }
    assert(claims_are_accounts(s2)) by {
        assert forall|i: int| 0 <= i < s2.invites.len() implies invite_claim_ok(s2, i) by {
            if i < m {
                assert(invite_claim_ok(s, i));
                if s.invites[i].claimed_by is Some {
                    let u = s.invites[i].claimed_by->0;
                    assert(has_account(s, u));
                    let k = choose|k: int|
                        0 <= k < s.accounts.len() && s.accounts[k].username == u;
                    assert(false);
                }
                assert(s2.invites[i] == s.invites[i]);
            } else {
                assert(s2.invites[i].claimed_by == Some(r.username));
            }
        }
    }
}

/// The invited path preserves well-formedness.
pub proof fn lemma_invited_wf(s: StoreModel, r: RequestModel, t: u64)
    requires
        store_wf(s),
        !bootstrap_requested(s),
        invite_valid(s, t),
        !has_account(s, r.username),
    ensures
        store_wf(invited_step(s, r, t)),
{
    let s2 = invited_step(s, r, t);
    lemma_invite_index(s, t);
    let idx = invite_index(s, t);
    let n = s.accounts.len() as int;
    let m = s.invites.len() as int;
    assert(s2.accounts.len() == n + 1);
    assert(s2.invites.len() == m);
    assert(forall|i: int| 0 <= i < n ==> s2.accounts[i] == s.accounts[i]);
    assert(s2.accounts[n] == new_account(r, member_roles(), t));
    assert(forall|i: int| 0 <= i < m && i != idx ==> s2.invites[i] == s.invites[i]);
    assert(s2.invites[idx] == InviteModel {
        token: t,
        created_at: s.invites[idx].created_at,
        claimed_by: Some(r.username),
    });
    assert(forall|i: int| 0 <= i < m ==> s2.invites[i].token == s.invites[i].token);
    assert(usernames_unique(s2.accounts)) by {
        assert forall|i: int, j: int|
            0 <= i < j < s2.accounts.len() implies s2.accounts[i].username
            != s2.accounts[j].username by {
            if j == n {
                if s.accounts[i].username == r.username {
                    assert(has_account(s, r.username));
                }
            } else {
                assert(s.accounts[i].username != s.accounts[j].username);
            }
        }
    }
    assert(invites_unique(s2.invites)) by {
        assert forall|i: int, j: int|
            0 <= i < j < s2.invites.len() implies s2.invites[i].token != s2.invites[j].token by {
            assert(s.invites[i].token != s.invites[j].token);
        }
    }
    assert(tokens_below_next(s2)) by {
        assert forall|i: int| 0 <= i < s2.invites.len() implies s2.invites[i].token
            < s2.next_token by {
            assert(s.invites[i].token < s.next_token);
        }
    }
    assert(roles_by_position(s2.accounts)) by {
        assert forall|i: int|
            0 <= i < s2.accounts.len() implies s2.accounts[i].roles == (if i == 0 {
            bootstrap_roles()
        } else {
            member_roles()
        }) by {
            if i < n {
                assert(s.accounts[i].roles == (if i == 0 {
                    bootstrap_roles()
                } else {
                    member_roles()
                }));
            }
        }
    }
    assert(has_account(s2, r.username)) by {
        assert(0 <= n < s2.accounts.len() && s2.accounts[n].username == r.username);
    }
    assert(accounts_linked(s2)) by {
        assert forall|i: int| 0 <= i < s2.accounts.len() implies account_linked(s2, i) by {
            if i < n {
                assert(account_linked(s, i));
                let ti = s.accounts[i].claimed_invite;
                lemma_invite_index(s, ti);
                let ki = invite_index(s, ti);
                assert(s.invites[ki].claimed_by == Some(s.accounts[i].username));
                assert(s.invites[idx].claimed_by is None);
                assert(ki != idx);
                assert(s2.invites[ki] == s.invites[ki]);
                assert(0 <= ki < s2.invites.len() && s2.invites[ki].token == ti);
                assert(has_invite(s2, ti));
                lemma_invite_index(s2, ti);
                assert(invite_index(s2, ti) == ki);
                assert(s2.accounts[i].claimed_invite == ti);
            } else {
                assert(s2.accounts[i].claimed_invite == t);
                assert(0 <= idx < s2.invites.len() && s2.invites[idx].token == t);
                assert(has_invite(s2, t));
                lemma_invite_index(s2, t);
                assert(invite_index(s2, t) == idx);
            }
        }
    }
    assert(claims_are_accounts(s2)) by {
        assert forall|i: int| 0 <= i < s2.invites.len() implies invite_claim_ok(s2, i) by {
            if i != idx {
                assert(invite_claim_ok(s, i));
                if s.invites[i].claimed_by is Some {
                    let u = s.invites[i].claimed_by->0;
                    assert(has_account(s, u));
                    let k = choose|k: int|
                        0 <= k < s.accounts.len() && s.accounts[k].username == u;
                    assert(0 <= k < s2.accounts.len() && s2.accounts[k].username == u);
                    assert(has_account(s2, u));
                }
            } else {
                assert(s2.invites[i].claimed_by == Some(r.username));
                assert(has_account(s2, r.username));
            }
        }
    }
}

/// Registration preserves well-formedness on every path, success or failure.
pub proof fn lemma_register_preserves_wf(s: StoreModel, r: RequestModel, now: u64)
    requires
        store_wf(s),
        bootstrap_requested(s) ==> s.next_token < u64::MAX,
    ensures
        store_wf(register_model(s, r, now).0),
{
    if bootstrap_requested(s) {
        lemma_bootstrap_wf(s, r, now);
    } else if request_token_valid(s, r) && !has_account(s, r.username) {
        lemma_invited_wf(s, r, r.invite_token->0);
    }
}

} // verus!
