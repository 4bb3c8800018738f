//! The central guarantees of the subsystem, proved over the model.
//!
//! Registrations are fully serialized by the coordinator's write lock, so an
//! arbitrary set of concurrent attempts executes as some sequence of
//! [`register_model`] steps. The lemmas here therefore quantify over such
//! sequences: one bootstrap account ever, no invite claimed twice, and login
//! failures that carry no information.

use vstd::prelude::*;

use crate::model::bootstrap_requested;
use crate::model::bootstrap_roles;
use crate::model::has_account;
use crate::model::has_invite;
use crate::model::invite_index;
use crate::model::invite_valid;
use crate::model::invited_step;
use crate::model::invites_unique;
use crate::model::lemma_invite_index;
use crate::model::login_model;
use crate::model::register_model;
use crate::model::request_token_valid;
use crate::model::store_wf;
use crate::model::RequestModel;
use crate::model::StoreModel;
use crate::model::TokenModel;
use crate::types::AuthError;

verus! {

/// The store left after running a sequence of registrations in serialization
/// order; `times[i]` is the clock reading of request `i`.
pub open spec fn run_registrations(s: StoreModel, reqs: Seq<RequestModel>, times: Seq<u64>) -> StoreModel
    decreases reqs.len(),
{
    if reqs.len() == 0 {
        s
    } else {
        run_registrations(
            register_model(s, reqs[0], times[0]).0,
            reqs.drop_first(),
            times.drop_first(),
        )
    }
}

/// The per-request results of running a sequence of registrations in
/// serialization order.
pub open spec fn registration_outcomes(
    s: StoreModel,
    reqs: Seq<RequestModel>,
    times: Seq<u64>,
) -> Seq<Result<Seq<char>, AuthError>>
    decreases reqs.len(),
{
    if reqs.len() == 0 {
        Seq::empty()
    } else {
        seq![register_model(s, reqs[0], times[0]).1] + registration_outcomes(
            register_model(s, reqs[0], times[0]).0,
            reqs.drop_first(),
            times.drop_first(),
        )
    }
}

/// On a non-empty table, token-less registrations all fail with `NoToken` and
/// leave the store untouched.
pub proof fn lemma_tokenless_registrations_stall(
    s: StoreModel,
    reqs: Seq<RequestModel>,
    times: Seq<u64>,
)
    requires
        s.accounts.len() >= 1,
        times.len() == reqs.len(),
        forall|i: int| 0 <= i < reqs.len() ==> reqs[i].invite_token is None,
    ensures
        run_registrations(s, reqs, times) == s,
        registration_outcomes(s, reqs, times).len() == reqs.len(),
        forall|i: int|
            0 <= i < reqs.len() ==> registration_outcomes(s, reqs, times)[i] == Err::<
                Seq<char>,
                AuthError,
            >(AuthError::NoToken),
    decreases reqs.len(),
{
    if reqs.len() > 0 {
        let head = reqs[0];
        assert(head.invite_token is None);
        assert(!request_token_valid(s, head));
        let rest = reqs.drop_first();
        let rest_times = times.drop_first();
        assert forall|i: int| 0 <= i < rest.len() implies rest[i].invite_token is None by {
            assert(rest[i] == reqs[i + 1]);
        }
        lemma_tokenless_registrations_stall(s, rest, rest_times);
        let outs = registration_outcomes(s, reqs, times);
        assert forall|i: int| 0 <= i < reqs.len() implies outs[i] == Err::<Seq<char>, AuthError>(
            AuthError::NoToken,
        ) by {
            if i > 0 {
                assert(outs[i] == registration_outcomes(s, rest, rest_times)[i - 1]);
            }
        }
    }
}

/// Single-bootstrap invariant: however many registration requests race on an
/// empty table, none of them carrying an invite token, serialization lets
/// exactly the first one through. It creates the single account, which holds
/// the owner role; every later request fails with `NoToken`, because the
/// table is no longer empty and the request has no token.
pub proof fn lemma_single_bootstrap(s0: StoreModel, reqs: Seq<RequestModel>, times: Seq<u64>)
    requires
        store_wf(s0),
        bootstrap_requested(s0),
        s0.next_token < u64::MAX,
        reqs.len() >= 1,
        times.len() == reqs.len(),
        forall|i: int| 0 <= i < reqs.len() ==> reqs[i].invite_token is None,
    ensures
        run_registrations(s0, reqs, times).accounts.len() == 1,
        run_registrations(s0, reqs, times).accounts[0].username == reqs[0].username,
        run_registrations(s0, reqs, times).accounts[0].roles == bootstrap_roles(),
        registration_outcomes(s0, reqs, times).len() == reqs.len(),
        registration_outcomes(s0, reqs, times)[0] == Ok::<Seq<char>, AuthError>(reqs[0].username),
        forall|i: int|
            1 <= i < reqs.len() ==> registration_outcomes(s0, reqs, times)[i] == Err::<
                Seq<char>,
                AuthError,
            >(AuthError::NoToken),
{
    let s1 = register_model(s0, reqs[0], times[0]).0;
    assert(s1.accounts.len() == 1);
    let rest = reqs.drop_first();
    let rest_times = times.drop_first();
    assert forall|i: int| 0 <= i < rest.len() implies rest[i].invite_token is None by {
        assert(rest[i] == reqs[i + 1]);
    }
    lemma_tokenless_registrations_stall(s1, rest, rest_times);
    assert(run_registrations(s0, reqs, times) == s1);
    let outs = registration_outcomes(s0, reqs, times);
    assert forall|i: int| 1 <= i < reqs.len() implies outs[i] == Err::<Seq<char>, AuthError>(
        AuthError::NoToken,
    ) by {
        assert(outs[i] == registration_outcomes(s1, rest, rest_times)[i - 1]);
    }
}

/// No double-claim: once a registration has gone through on an invite token,
/// any later registration referencing the same token fails with `NoToken`,
/// whatever the rest of its request says. Two racing registrations on one
/// valid token therefore end as exactly one success and one `NoToken`.
pub proof fn lemma_no_double_claim(
    s0: StoreModel,
    first: RequestModel,
    second: RequestModel,
    t: u64,
    time_first: u64,
    time_second: u64,
)
    requires
        store_wf(s0),
        !bootstrap_requested(s0),
        first.invite_token == Some(t),
        second.invite_token == Some(t),
        invite_valid(s0, t),
        !has_account(s0, first.username),
    ensures
        register_model(s0, first, time_first).1 == Ok::<Seq<char>, AuthError>(first.username),
        register_model(register_model(s0, first, time_first).0, second, time_second).1 == Err::<
            Seq<char>,
            AuthError,
        >(AuthError::NoToken),
{
    assert(request_token_valid(s0, first));
    let s1 = register_model(s0, first, time_first).0;
    assert(s1 == invited_step(s0, first, t));
    lemma_invite_index(s0, t);
    let idx = invite_index(s0, t);
    assert(s1.invites.len() == s0.invites.len());
    assert(forall|i: int| 0 <= i < s1.invites.len() ==> s1.invites[i].token == s0.invites[i].token);
    assert(invites_unique(s1.invites)) by {
        assert forall|i: int, j: int|
            0 <= i < j < s1.invites.len() implies s1.invites[i].token != s1.invites[j].token by {
            assert(s0.invites[i].token != s0.invites[j].token);
        }
    }
    assert(0 <= idx < s1.invites.len() && s1.invites[idx].token == t);
    assert(has_invite(s1, t));
    lemma_invite_index(s1, t);
    assert(invite_index(s1, t) == idx);
    assert(s1.invites[idx].claimed_by == Some(first.username));
    assert(!invite_valid(s1, t));
    assert(!request_token_valid(s1, second));
    assert(s1.accounts.len() == s0.accounts.len() + 1);
}

/// Claims are permanent: a registration never removes an invite, never
/// rewrites a token or a creation time, and never touches the claimant of an
/// invite that is already claimed. Together with the no-double-claim lemma
/// this is the single-use discipline of the ledger: an invite is claimed at
/// most once, and once claimed its claimant is immutable.
pub proof fn lemma_claims_are_permanent(s: StoreModel, r: RequestModel, now: u64)
    requires
        store_wf(s),
    ensures
        register_model(s, r, now).0.invites.len() >= s.invites.len(),
        forall|i: int|
            0 <= i < s.invites.len() ==> {
                let after = #[trigger] register_model(s, r, now).0.invites[i];
                after.token == s.invites[i].token && after.created_at == s.invites[i].created_at
            },
        forall|i: int|
            0 <= i < s.invites.len() && s.invites[i].claimed_by is Some
                ==> #[trigger] register_model(s, r, now).0.invites[i].claimed_by
                == s.invites[i].claimed_by,
{
    let s2 = register_model(s, r, now).0;
    if bootstrap_requested(s) {
        assert(forall|i: int| 0 <= i < s.invites.len() ==> s2.invites[i] == s.invites[i]);
    } else if request_token_valid(s, r) && !has_account(s, r.username) {
        let t = r.invite_token->0;
        lemma_invite_index(s, t);
        let idx = invite_index(s, t);
        assert(s.invites[idx].claimed_by is None);
        assert(forall|i: int|
            0 <= i < s.invites.len() && i != idx ==> s2.invites[i] == s.invites[i]);
        assert(s2.invites[idx].token == s.invites[idx].token);
        assert(s2.invites[idx].created_at == s.invites[idx].created_at);
    }
}

/// Indistinguishable failure: every failed login, whether the username does
/// not exist or the secret does not match, returns the one identical
/// `InvalidCredentials` value. Two failed logins are indistinguishable.
pub proof fn lemma_indistinguishable_failure(
    store_a: StoreModel,
    name_a: Seq<char>,
    pass_a: Seq<char>,
    store_b: StoreModel,
    name_b: Seq<char>,
    pass_b: Seq<char>,
)
    requires
        login_model(store_a, name_a, pass_a) is Err,
        login_model(store_b, name_b, pass_b) is Err,
    ensures
        login_model(store_a, name_a, pass_a) == Err::<TokenModel, AuthError>(
            AuthError::InvalidCredentials,
        ),
        login_model(store_a, name_a, pass_a) == login_model(store_b, name_b, pass_b),
{
}

} // verus!
