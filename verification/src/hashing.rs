//! The hash under which large proposals are reported.
use sp_runtime::traits::BlakeTwo256;
use vstd::prelude::*;

verus! {

/// The BLAKE2b digest, of 256 bits, of `data`, as `sp_runtime::traits::BlakeTwo256` computes it.
pub uninterp spec fn blake_two_256(data: Seq<u8>) -> Seq<u8>;

/// Calls `sp_runtime::traits::BlakeTwo256::hash`. It is taken on trust that the 32 bytes of its
/// answer depend on the bytes of `data` alone; nothing is said of what they are.
#[verifier::external_body]
pub(crate) fn hash_blake_two_256(data: &[u8]) -> (digest: [u8; 32])
    ensures
        digest@ == blake_two_256(data@),
{
    <BlakeTwo256 as sp_runtime::traits::Hash>::hash(data).to_fixed_bytes()
}

} // verus!
