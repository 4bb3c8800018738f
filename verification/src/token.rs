//! Bearer session token issuance.
//!
//! `issue` produces a signed token whose claims are deterministic in the
//! subject and the snapshot of its roles. Verifying previously issued tokens
//! is consumed elsewhere in the surrounding system; only issuance lives here.

use vstd::prelude::*;

use crate::credentials::hash_secret;
use crate::model::hash_of;
use crate::model::mix_roles;
use crate::model::role_code;
use crate::model::sig_of;
use crate::model::token_model;
use crate::model::ClaimsModel;
use crate::model::TokenModel;
use crate::types::Role;

verus! {

/// The claims carried inside an issued token.
#[derive(Debug, Clone, PartialEq, Eq)]
pub struct Claims {
    /// The authenticated username.
    pub subject: String,
    /// The account's roles at issuance time.
    pub roles: Vec<Role>,
}

impl View for Claims {
    type V = ClaimsModel;

    open spec fn view(&self) -> ClaimsModel {
        ClaimsModel { subject: self.subject@, roles: self.roles@ }
    }
}

/// An issued bearer token: claims plus their signature.
#[derive(Debug, Clone, PartialEq, Eq)]
pub struct Token {
    pub claims: Claims,
    pub signature: u64,
}

impl View for Token {
    type V = TokenModel;

    open spec fn view(&self) -> TokenModel {
        TokenModel { claims: self.claims@, signature: self.signature }
    }
}

/// The numeric code a role contributes to a signature.
pub fn encode_role(r: Role) -> (c: u64)
    ensures
        c == role_code(r),
{
    match r {
        Role::Owner => 1,
        Role::User => 2,
    }
}

/// Signs a subject together with its roles.
pub fn sign(subject: &str, roles: &Vec<Role>) -> (s: u64)
    ensures
        s == sig_of(subject@, roles@),
{
    let mut h = hash_secret(subject);
    proof {
        assert(roles@.take(0) =~= Seq::<Role>::empty());
    }
    let n = roles.len();
    let mut i: usize = 0;
    while i < n
        invariant
            n == roles.len(),
            i <= n,
            h == mix_roles(hash_of(subject@), roles@.take(i as int)),
        decreases n - i,
    {
        let c = encode_role(roles[i]);
        proof {
            let done = roles@.take(i as int + 1);
            assert(done.drop_last() =~= roles@.take(i as int));
            assert(done.last() == roles@[i as int]);
        }
        h = ((h << 7) | (h >> 57)) ^ c;
        i = i + 1;
    }
    proof {
        assert(roles@.take(n as int) =~= roles@);
    }
    h
}

/// Issues a token for a subject with a snapshot of its roles.
pub fn issue(username: String, roles: Vec<Role>) -> (t: Token)
    ensures
        t@ == token_model(username@, roles@),
{
    let signature = sign(username.as_str(), &roles);
    Token { claims: Claims { subject: username, roles }, signature }
}

} // verus!
