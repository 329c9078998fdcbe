use vstd::prelude::*;

verus! {

/// The Keccak-256 digest of a byte string. The digest is a function of the
/// input bytes alone; what it is on given values is not stated here.
pub uninterp spec fn keccak_of(b: Seq<u8>) -> Seq<u8>;

/// Relies on ethers_core::utils::keccak256: the 32-byte Keccak-256 digest of
/// the input bytes, and of nothing else.
#[verifier::external_body]
pub fn keccak256_digest(b: &Vec<u8>) -> (r: Vec<u8>)
    ensures
        r@ == keccak_of(b@),
        r@.len() == 32,
{
    ethers_core::utils::keccak256(b).to_vec()
}

} // verus!
