//! SHA-256 digests.

use vstd::prelude::*;

verus! {

/// What `Sha256::digest` computes of a message.
pub uninterp spec fn sha256(message: Seq<u8>) -> Seq<u8>;

/// `Sha256::digest`: the digest of a message, which is thirty-two bytes long.
#[verifier::external_body]
pub(crate) fn sha256_of(message: &Vec<u8>) -> (r: Vec<u8>)
    ensures
        r@ == sha256(message@),
        r@.len() == 32,
{
    <sha2::Sha256 as sha2::Digest>::digest(message).to_vec()
}

} // verus!
