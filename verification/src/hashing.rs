//! BLAKE2b-256 hashing: the one-way derivation behind registration
//! commitments and subnode identifiers.

use vstd::prelude::*;
use crate::bytes::append_bytes;

verus! {

/// The BLAKE2b digest of `data` with a 32-byte output, a function of the
/// input bytes alone.
pub uninterp spec fn blake2b_256_of(data: Seq<u8>) -> Seq<u8>;

/// Relies on `blake2b_simd::Params::hash` with `hash_length(32)`: the
/// BLAKE2b-256 digest of the input, 32 bytes long, depending on the input
/// bytes alone.
#[verifier::external_body]
pub fn blake2_256(data: &Vec<u8>) -> (r: Vec<u8>)
    ensures
        r@ == blake2b_256_of(data@),
        r@.len() == 32,
{
    blake2b_simd::Params::new().hash_length(32).hash(data.as_slice()).as_bytes().to_vec()
}

/// The blinded preimage a registrant hashes before committing: the name, the
/// prospective owner, a secret and a salt, in that order.
pub open spec fn commit_preimage(
    name: Seq<u8>,
    owner: Seq<u8>,
    secret: Seq<u8>,
    salt: Seq<u8>,
) -> Seq<u8> {
    name + owner + secret + salt
}

/// The commitment hash for a reveal of these four inputs.
pub open spec fn commitment_of(
    name: Seq<u8>,
    owner: Seq<u8>,
    secret: Seq<u8>,
    salt: Seq<u8>,
) -> Seq<u8> {
    blake2b_256_of(commit_preimage(name, owner, secret, salt))
}

/// The identifier of the child of `parent` named by a 256-bit `label`:
/// the hash of the fixed 64-byte preimage `parent ‖ label`.
pub open spec fn subnode_of(parent: Seq<u8>, label: Seq<u8>) -> Seq<u8> {
    blake2b_256_of(parent + label)
}

/// Computes the commitment hash a client submits before revealing
/// `name`, `owner`, `secret` and `salt`.
pub fn make_commitment(
    name: &Vec<u8>,
    owner: &Vec<u8>,
    secret: &Vec<u8>,
    salt: &Vec<u8>,
) -> (r: Vec<u8>)
    ensures
        r@ == commitment_of(name@, owner@, secret@, salt@),
        r@.len() == 32,
{
    let mut preimage: Vec<u8> = Vec::new();
    append_bytes(&mut preimage, name);
    append_bytes(&mut preimage, owner);
    append_bytes(&mut preimage, secret);
    append_bytes(&mut preimage, salt);
    proof {
        assert(preimage@ =~= commit_preimage(name@, owner@, secret@, salt@));
    }
    blake2_256(&preimage)
}

/// Derives the subnode identifier for `label` under `parent`.
pub fn derive_subnode(parent: &Vec<u8>, label: &Vec<u8>) -> (r: Vec<u8>)
    ensures
        r@ == subnode_of(parent@, label@),
        r@.len() == 32,
{
    let mut preimage: Vec<u8> = Vec::new();
    append_bytes(&mut preimage, parent);
    append_bytes(&mut preimage, label);
    proof {
        assert(preimage@ =~= parent@ + label@);
    }
    blake2_256(&preimage)
}

/// Subnode derivation is deterministic: identical parent and label inputs
/// always yield the identical subnode identifier.
pub proof fn lemma_subnode_deterministic(p1: Seq<u8>, l1: Seq<u8>, p2: Seq<u8>, l2: Seq<u8>)
    requires
        p1 == p2,
        l1 == l2,
    ensures
        subnode_of(p1, l1) == subnode_of(p2, l2),
{
}

} // verus!
