//! Deck commitments: a SHA-256 digest binds a private deck and salt.

use vstd::prelude::*;
use sha2::Digest;

verus! {

/// The SHA-256 digest of a byte sequence, as the sha2 crate computes it.
pub uninterp spec fn sha256_of(bytes: Seq<u8>) -> Seq<u8>;

/// A commitment binds a deck and a salt by hashing the deck's bytes followed
/// by the salt's bytes.
pub open spec fn spec_commit(deck: Seq<u8>, salt: Seq<u8>) -> Seq<u8> {
    sha256_of(deck + salt)
}

/// Relies on sha2::Sha256 through the digest crate's `Digest` trait: `new`,
/// repeated `update` and `finalize` return the SHA-256 digest of the
/// concatenation of all bytes fed to `update`, a 32-byte value that is a
/// function of those bytes alone.
#[verifier::external_body]
fn sha256_concat(first: &Vec<u8>, second: &Vec<u8>) -> (r: [u8; 32])
    ensures
        r@ == sha256_of(first@ + second@),
{
    let mut hasher = sha2::Sha256::new();
    hasher.update(first.as_slice());
    hasher.update(second.as_slice());
    hasher.finalize().into()
}

/// The commitment function: the digest that binds `deck` and `salt`, published
/// before play so that later reveals can be checked against it.
pub fn commit(deck: &Vec<u8>, salt: &Vec<u8>) -> (r: [u8; 32])
    ensures
        r@ == spec_commit(deck@, salt@),
{
    sha256_concat(deck, salt)
}

/// The commitment is deterministic: it depends on nothing but the deck bytes
/// and the salt bytes, so recomputing it for the same pair gives the same
/// digest on any machine.
pub proof fn lemma_commit_deterministic(
    deck1: Seq<u8>,
    salt1: Seq<u8>,
    deck2: Seq<u8>,
    salt2: Seq<u8>,
)
    requires
        deck1 == deck2,
        salt1 == salt2,
    ensures
        spec_commit(deck1, salt1) == spec_commit(deck2, salt2),
{
}

/// Byte-for-byte equality of two 32-byte digests.
pub fn digest_eq(a: &[u8; 32], b: &[u8; 32]) -> (r: bool)
    ensures
        r == (a@ == b@),
{
    let mut i: usize = 0;
    while i < 32
        invariant
            0 <= i <= 32,
            forall|j: int| 0 <= j < i ==> a@[j] == b@[j],
        decreases 32 - i,
    {
        if a[i] != b[i] {
            return false;
        }
        i += 1;
    }
    proof {
        assert(a@ =~= b@);
    }
    true
}

} // verus!
