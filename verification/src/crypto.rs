//! Keys and hashes of the host blockchain.

use vstd::prelude::*;
use crate::transaction::hash_eq;

verus! {

/// A public key by which the host blockchain knows a validator.
#[derive(Clone, Copy, Debug)]
pub struct PublicKey(pub [u8; 32]);

impl View for PublicKey {
    type V = Seq<u8>;

    open spec fn view(&self) -> Seq<u8> {
        self.0@
    }
}

impl PublicKey {
    /// Whether two keys are the same.
    pub fn same(&self, other: &PublicKey) -> (same: bool)
        ensures
            same == (self@ == other@),
    {
        hash_eq(&self.0, &other.0)
    }
}

/// A hash of the host blockchain: 32 bytes.
#[derive(Clone, Copy, Debug)]
pub struct Hash(pub [u8; 32]);

impl View for Hash {
    type V = Seq<u8>;

    open spec fn view(&self) -> Seq<u8> {
        self.0@
    }
}

impl Hash {
    /// Whether two hashes are the same.
    pub fn same(&self, other: &Hash) -> (same: bool)
        ensures
            same == (self@ == other@),
    {
        hash_eq(&self.0, &other.0)
    }
}

/// The SHA-256 digest of a byte string, as `bitcoin::hashes::sha256` computes it.
pub uninterp spec fn sha256(data: Seq<u8>) -> Seq<u8>;

/// Calls `bitcoin::hashes::sha256::Hash::hash`, the SHA-256 digest.
#[verifier::external_body]
fn sha256_digest(data: &Vec<u8>) -> (digest: [u8; 32])
    ensures
        digest@ == sha256(data@),
{
    bitcoin::hashes::Hash::into_inner(<bitcoin::hashes::sha256::Hash as bitcoin::hashes::Hash>::hash(data))
}

/// The content hash of a byte string.
pub fn hash(data: &Vec<u8>) -> (digest: Hash)
    ensures
        digest@ == sha256(data@),
{
    Hash(sha256_digest(data))
}

} // verus!
