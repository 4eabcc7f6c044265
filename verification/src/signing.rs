//! Signatures of transaction inputs.

use vstd::prelude::*;
use crate::btc::{public_key_is_valid, PublicKey};

verus! {

/// Whether `signature`, a DER signature followed by the byte of its sighash
/// type, is accepted for the digest under the key by `Secp256k1::verify`.
pub uninterp spec fn input_signature_is_valid(
    sighash: Seq<u8>,
    key: Seq<u8>,
    signature: Seq<u8>,
) -> bool;

/// Reads the signature with `InputSignatureRef::from_bytes` of
/// btc-transaction-utils and `Signature::from_der`, and calls
/// `Secp256k1::verify` on it, the digest and the key. Whatever fails on the
/// way makes the signature invalid.
#[verifier::external_body]
fn verify_digest(sighash: &[u8; 32], key: &Vec<u8>, signature: &Vec<u8>) -> (ok: bool)
    requires
        public_key_is_valid(key@),
    ensures
        ok == input_signature_is_valid(sighash@, key@, signature@),
{
    let key = bitcoin::PublicKey::from_slice(key).unwrap().key;
    btc_transaction_utils::InputSignatureRef::from_bytes(signature)
        .and_then(|s| bitcoin::secp256k1::Signature::from_der(s.content()))
        .and_then(|s| bitcoin::secp256k1::Message::from_slice(sighash).map(|m| (m, s)))
        .and_then(|(m, s)| bitcoin::secp256k1::Secp256k1::verification_only().verify(&m, &s, &key))
        .is_ok()
}

/// The signature that `Secp256k1::sign` makes of the digest with the secret
/// key, in DER and followed by the byte of the sighash type `All`; `None`
/// where the bytes are no secret key or no digest that can be signed.
pub uninterp spec fn input_signature(sighash: Seq<u8>, secret_key: Seq<u8>) -> Option<Seq<u8>>;

/// Calls `Secp256k1::sign` on the digest with the secret key and writes the
/// signature as `InputSignature::new` of btc-transaction-utils does.
#[verifier::external_body]
fn sign_digest(sighash: &[u8; 32], secret_key: &[u8; 32]) -> (signature: Option<Vec<u8>>)
    ensures
        signature is Some <==> input_signature(sighash@, secret_key@) is Some,
        signature matches Some(s) ==> input_signature(sighash@, secret_key@) == Some(s@),
{
    let message = bitcoin::secp256k1::Message::from_slice(sighash).ok()?;
    let key = bitcoin::secp256k1::SecretKey::from_slice(secret_key).ok()?;
    let der = bitcoin::secp256k1::Secp256k1::signing_only().sign(&message, &key).serialize_der();
    Some(btc_transaction_utils::InputSignature::new(der.to_vec(), bitcoin::SigHashType::All).into())
}

/// Checks a signature of an input against the digest and the key.
pub fn verify_input_signature(sighash: &[u8; 32], key: &PublicKey, signature: &Vec<u8>) -> (ok:
    bool)
    ensures
        ok == input_signature_is_valid(sighash@, key@, signature@),
{
    verify_digest(sighash, &key.to_bytes(), signature)
}

/// Signs the digest of an input.
pub fn sign_input(sighash: &[u8; 32], secret_key: &[u8; 32]) -> (signature: Option<Vec<u8>>)
    ensures
        signature is Some <==> input_signature(sighash@, secret_key@) is Some,
        signature matches Some(s) ==> input_signature(sighash@, secret_key@) == Some(s@),
{
    sign_digest(sighash, secret_key)
}

} // verus!
