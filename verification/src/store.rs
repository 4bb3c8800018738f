//! The account/invite datastore and the invite ledger over it.
//!
//! `Store` is the one shared mutable resource of the subsystem. Its abstract
//! value is a [`StoreModel`]; every method's contract is stated against that
//! model, and every mutating method preserves [`store_wf`].

use vstd::prelude::*;

use crate::model::account_of;
use crate::model::has_account;
use crate::model::has_invite;
use crate::model::invite_index;
use crate::model::invite_valid;
use crate::model::invites_unique;
use crate::model::lemma_account_index;
use crate::model::lemma_invite_index;
use crate::model::lemma_mint_wf;
use crate::model::empty_store;
use crate::model::mint_step;
use crate::model::store_wf;
use crate::model::AccountModel;
use crate::model::InviteModel;
use crate::model::StoreModel;
use crate::types::Role;
use vstd::pervasive::VecAdditionalExecFns;

verus! {

/// A stored account row.
#[derive(Debug)]
pub struct Account {
    /// Unique, case-sensitive primary key.
    pub username: String,
    /// Hash of the account's secret.
    pub secret_hash: u64,
    /// Privilege roles; always non-empty.
    pub roles: Vec<Role>,
    /// Free-form preference blob.
    pub prefs: String,
    /// The token of the one invite this account claimed when it registered.
    pub claimed_invite: u64,
}

impl View for Account {
    type V = AccountModel;

    open spec fn view(&self) -> AccountModel {
        AccountModel {
            username: self.username@,
            secret_hash: self.secret_hash,
            roles: self.roles@,
            prefs: self.prefs@,
            claimed_invite: self.claimed_invite,
        }
    }
}

/// A stored invite row.
#[derive(Debug)]
pub struct Invite {
    /// Unique opaque identifier.
    pub token: u64,
    /// When the invite was created, as the caller's clock gave it.
    pub created_at: u64,
    /// The username of the account that claimed this invite, once claimed.
    pub claimed_by: Option<String>,
}

impl View for Invite {
    type V = InviteModel;

    open spec fn view(&self) -> InviteModel {
        InviteModel {
            token: self.token,
            created_at: self.created_at,
            claimed_by: match self.claimed_by {
                Option::Some(u) => Option::Some(u@),
                Option::None => Option::None,
            },
        }
    }
}

/// The transactional datastore holding the account and invite tables.
#[derive(Debug)]
pub struct Store {
    accounts: Vec<Account>,
    invites: Vec<Invite>,
    next_token: u64,
}

impl View for Store {
    type V = StoreModel;

    closed spec fn view(&self) -> StoreModel {
        StoreModel {
            accounts: self.accounts@.map_values(|a: Account| a@),
            invites: self.invites@.map_values(|iv: Invite| iv@),
            next_token: self.next_token,
        }
    }
}

impl Store {
    /// Opens an empty, well-formed datastore.
    pub fn new() -> (s: Store)
        ensures
            s@ == empty_store(),
            store_wf(s@),
    {
        let s = Store { accounts: Vec::new(), invites: Vec::new(), next_token: 0 };
        proof {
            assert(s@.accounts =~= empty_store().accounts);
            assert(s@.invites =~= empty_store().invites);
            assert(s@ =~= empty_store());
        }
        s
    }

    /// The number of accounts; zero exactly while bootstrap is still open.
    pub fn account_count(&self) -> (n: usize)
        ensures
            n == self@.accounts.len(),
    {
        self.accounts.len()
    }

    /// Whether a fresh invite token can still be minted.
    pub fn can_mint(&self) -> (r: bool)
        ensures
            r == (self@.next_token < u64::MAX),
    {
        self.next_token < u64::MAX
    }

    /// Looks an account up by its username.
    pub fn lookup_account(&self, username: &str) -> (r: Option<&Account>)
        requires
            store_wf(self@),
        ensures
            match r {
                Some(account) => has_account(self@, username@) && account@ == account_of(
                    self@,
                    username@,
                ),
                None => !has_account(self@, username@),
            },
    {
        let uname = String::from_str(username);
        let n = self.accounts.len();
        let mut i: usize = 0;
        while i < n
            invariant
                n == self.accounts.len(),
                i <= n,
                uname@ == username@,
                store_wf(self@),
                forall|j: int| 0 <= j < i ==> self@.accounts[j].username != username@,
            decreases n - i,
        {
            let account = &self.accounts[i];
            if account.username == uname {
                proof {
                    assert(0 <= i < self@.accounts.len() && self@.accounts[i as int].username
                        == username@);
                    assert(has_account(self@, username@));
                    lemma_account_index(self@, username@);
                }
                return Some(account);
            }
            i = i + 1;
        }
        proof {
            if has_account(self@, username@) {
                let k = choose|k: int|
                    0 <= k < self@.accounts.len() && self@.accounts[k].username == username@;
                assert(self@.accounts[k].username != username@);
            }
        }
        None
    }

    /// Looks an invite up by its token.
    pub fn lookup_invite(&self, token: u64) -> (r: Option<&Invite>)
        requires
            store_wf(self@),
        ensures
            match r {
                Some(invite) => has_invite(self@, token) && invite@ == self@.invites[invite_index(
                    self@,
                    token,
                )],
                None => !has_invite(self@, token),
            },
    {
        let n = self.invites.len();
        let mut i: usize = 0;
        while i < n
            invariant
                n == self.invites.len(),
                i <= n,
                store_wf(self@),
                forall|j: int| 0 <= j < i ==> self@.invites[j].token != token,
            decreases n - i,
        {
            let invite = &self.invites[i];
            if invite.token == token {
                proof {
                    assert(0 <= i < self@.invites.len() && self@.invites[i as int].token == token);
                    assert(has_invite(self@, token));
                    lemma_invite_index(self@, token);
                    assert(invite_index(self@, token) == i as int);
                }
                return Some(invite);
            }
            i = i + 1;
        }
        proof {
            if has_invite(self@, token) {
                let k = choose|k: int|
                    0 <= k < self@.invites.len() && self@.invites[k].token == token;
                assert(self@.invites[k].token != token);
            }
        }
        None
    }

    /// Reports whether a token names an existing, still unclaimed invite.
    ///
    /// A missing token is simply "not valid"; nothing is propagated.
    pub fn validate_invite(&self, token: u64) -> (r: bool)
        requires
            store_wf(self@),
        ensures
            r == invite_valid(self@, token),
    {
        let n = self.invites.len();
        let mut i: usize = 0;
        while i < n
            invariant
                n == self.invites.len(),
                i <= n,
                store_wf(self@),
                forall|j: int| 0 <= j < i ==> self@.invites[j].token != token,
            decreases n - i,
        {
            let invite = &self.invites[i];
            if invite.token == token {
                proof {
                    assert(0 <= i < self@.invites.len() && self@.invites[i as int].token == token);
                    assert(has_invite(self@, token));
                    lemma_invite_index(self@, token);
                    assert(invite_index(self@, token) == i as int);
                }
                return invite.claimed_by.is_none();
            }
            i = i + 1;
        }
        proof {
            if has_invite(self@, token) {
                let k = choose|k: int|
                    0 <= k < self@.invites.len() && self@.invites[k].token == token;
                assert(self@.invites[k].token != token);
            }
        }
        false
    }

    /// Mints a fresh unclaimed invite, created at the given clock reading,
    /// and returns its token.
    pub fn mint_invite(&mut self, now: u64) -> (t: u64)
        requires
            store_wf(old(self)@),
            old(self)@.next_token < u64::MAX,
        ensures
            store_wf(final(self)@),
            t == old(self)@.next_token,
            final(self)@ == mint_step(old(self)@, now),
            invite_valid(final(self)@, t),
    {
        let t = self.next_token;
        self.invites.push(Invite { token: t, created_at: now, claimed_by: None });
        self.next_token = t + 1;
        proof {
            assert(self@.invites =~= mint_step(old(self)@, now).invites);
            assert(self@ =~= mint_step(old(self)@, now));
            lemma_mint_wf(old(self)@, now);
        }
        t
    }

    /// Marks the invite carrying this token as claimed by the given username.
    ///
    /// Called only inside a registration, after the token was validated in
    /// the same serialized span, and together with the matching account
    /// insertion; on its own it does not keep the claim/account linkage.
    pub(crate) fn claim_invite(&mut self, token: u64, username: &str)
        requires
            invites_unique(old(self)@.invites),
            invite_valid(old(self)@, token),
        ensures
            final(self)@.accounts == old(self)@.accounts,
            final(self)@.next_token == old(self)@.next_token,
            final(self)@.invites == old(self)@.invites.update(
                invite_index(old(self)@, token),
                InviteModel {
                    token,
                    created_at: old(self)@.invites[invite_index(old(self)@, token)].created_at,
                    claimed_by: Some(username@),
                },
            ),
    {
        proof {
            lemma_invite_index(old(self)@, token);
        }
        let n = self.invites.len();
        let mut i: usize = 0;
        while i < n
            invariant
                self == old(self),
                n == self.invites.len(),
                i <= n,
                invites_unique(self@.invites),
                invite_valid(self@, token),
                forall|j: int| 0 <= j < i ==> self@.invites[j].token != token,
            decreases n - i,
        {
            if self.invites[i].token == token {
                proof {
                    assert(0 <= i < self@.invites.len() && self@.invites[i as int].token == token);
                    lemma_invite_index(self@, token);
                    assert(invite_index(self@, token) == i as int);
                }
                let kept = self.invites[i].created_at;
                let claimed = Invite {
                    token,
                    created_at: kept,
                    claimed_by: Some(String::from_str(username)),
                };
                self.invites.set(i, claimed);
                proof {
                    assert(self@.invites =~= old(self)@.invites.update(
                        invite_index(old(self)@, token),
                        InviteModel {
                            token,
                            created_at: old(self)@.invites[invite_index(old(self)@, token)].created_at,
                            claimed_by: Some(username@),
                        },
                    ));
                }
                return ;
            }
            i = i + 1;
        }
        proof {
            let k = invite_index(self@, token);
            assert(self@.invites[k].token != token);
            assert(false);
        }
    }

    /// Persists one new account row.
    ///
    /// Called only inside a registration, together with the claim of the
    /// invite the row references.
    pub(crate) fn insert_account(&mut self, account: Account)
        ensures
            final(self)@.accounts == old(self)@.accounts.push(account@),
            final(self)@.invites == old(self)@.invites,
            final(self)@.next_token == old(self)@.next_token,
    {
        let ghost a = account@;
        self.accounts.push(account);
        proof {
            assert(self@.accounts =~= old(self)@.accounts.push(a));
        }
    }
}

} // verus!
