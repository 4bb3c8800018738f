//! Secret hashing and verification.
//!
//! The subsystem never stores a plaintext secret: registration stores
//! [`hash_secret`] of it, and login compares through [`verify`].

use vstd::prelude::*;

use crate::model::hash_of;
use crate::model::HASH_SEED;

verus! {

/// Hashes a submitted secret for storage or comparison.
pub fn hash_secret(secret: &str) -> (h: u64)
    ensures
        h == hash_of(secret@),
{
    let len = secret.unicode_len();
    let mut h: u64 = HASH_SEED;
    let mut i: usize = 0;
    while i < len
        invariant
            i <= len,
            len == secret@.len(),
            h == hash_of(secret@.take(i as int)),
        decreases len - i,
    {
        let c = secret.get_char(i);
        proof {
            let done = secret@.take(i as int + 1);
            assert(done.drop_last() =~= secret@.take(i as int));
            assert(done.last() == secret@[i as int]);
        }
        h = ((h << 7) | (h >> 57)) ^ (c as u64);
        i = i + 1;
    }
    proof {
        assert(secret@.take(len as int) =~= secret@);
    }
    h
}

/// Reports whether a candidate secret matches a stored hash.
///
/// The username is part of the interface of the surrounding system's
/// verification primitive but does not enter this hashing scheme.
pub fn verify(_username: &str, stored_hash: u64, candidate: &str) -> (r: bool)
    ensures
        r == (hash_of(candidate@) == stored_hash),
{
    hash_secret(candidate) == stored_hash
}

} // verus!
