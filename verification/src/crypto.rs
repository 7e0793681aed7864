//! Agent credentials: signature checking over bytes, and key generation.
//! Reading binaries and signature files from disk stays with the embedding
//! program.

use vstd::prelude::*;

verus! {

/// Key generation could not draw randomness.
#[derive(Debug, PartialEq, Eq, Structural, Clone, Copy)]
pub enum CryptoError {
    RandomUnavailable,
}

/// Whether `signature` is a valid Ed25519 signature of `message` under
/// `public_key`: a function of the three alone.
pub uninterp spec fn ed25519_verifies(
    public_key: Seq<u8>,
    message: Seq<u8>,
    signature: Seq<u8>,
) -> bool;

/// Relies on ring's UnparsedPublicKey::verify with ED25519: acceptance
/// depends on the key, the message and the signature alone.
#[verifier::external_body]
fn ed25519_verify(public_key: &Vec<u8>, message: &Vec<u8>, signature: &Vec<u8>) -> (r: bool)
    ensures
        r == ed25519_verifies(public_key@, message@, signature@),
{
    let key = ring::signature::UnparsedPublicKey::new(&ring::signature::ED25519, public_key);
    key.verify(message, signature).is_ok()
}

/// Relies on ring's SystemRandom::fill: on success the buffer is filled
/// whole, so the bytes come back with the requested length.
#[verifier::external_body]
fn random_bytes(n: usize) -> (r: Result<Vec<u8>, ()>)
    ensures
        r matches Ok(b) ==> b@.len() == n,
{
    let rng = ring::rand::SystemRandom::new();
    let mut buf = vec![0u8; n];
    match ring::rand::SecureRandom::fill(&rng, &mut buf) {
        Ok(()) => Ok(buf),
        Err(_) => Err(()),
    }
}

/// The standard base64 rendering of `data`, padded: a function of the bytes
/// alone.
pub uninterp spec fn base64_of(data: Seq<u8>) -> Seq<char>;

/// Relies on base64's standard engine encode: the text depends on the bytes
/// alone, and padded standard base64 of n bytes is 4*ceil(n/3) characters.
#[verifier::external_body]
fn base64_encode(data: &Vec<u8>) -> (r: String)
    ensures
        r@ == base64_of(data@),
        r@.len() == 4 * ((data@.len() + 2) / 3),
{
    base64::Engine::encode(&base64::engine::general_purpose::STANDARD, data)
}

/// Checks a binary's detached Ed25519 signature, as `ed25519_verifies`
/// says: true for a valid signature, false for anything else, never an
/// error.
pub fn verify_signature(binary_data: &Vec<u8>, signature_data: &Vec<u8>, public_key: &Vec<u8>) -> (
    r: bool)
    ensures
        r == ed25519_verifies(public_key@, binary_data@, signature_data@),
{
    ed25519_verify(public_key, binary_data, signature_data)
}

/// Draws a fresh 32-byte agent key and renders it in base64: 44 characters,
/// or the error where no randomness could be drawn.
pub fn generate_agent_key() -> (r: Result<String, CryptoError>)
    ensures
        r matches Ok(k) ==> k@.len() == 44,
{
    match random_bytes(32) {
        Ok(bytes) => {
            let k = base64_encode(&bytes);
            Ok(k)
        },
        Err(_) => Err(CryptoError::RandomUnavailable),
    }
}

} // verus!
