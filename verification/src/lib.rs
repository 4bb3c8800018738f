//! Authentication and invite-gated account bootstrap.
//!
//! The library keeps an account/invite table (`store::Store`), authenticates
//! users against it (`auth::login`) and admits new accounts under two mutually
//! exclusive policies (`auth::register`): an unrestricted first-account
//! bootstrap that grants the `Owner` role, and an invite-token-gated flow for
//! every later account. The abstract behaviour of both operations is given by
//! the transition functions in `model`, and the central guarantees (a single
//! bootstrap account, no invite claimed twice, indistinguishable login
//! failures) are proved in `laws`.

pub mod auth;
pub mod credentials;
pub mod model;
pub mod laws;
pub mod store;
pub mod token;
pub mod types;
