//! Ed25519 record signing and verification over hex-encoded keys and
//! signatures. The node verifies signatures over the canonical signing
//! string of a record's data; key generation and signing are offered
//! for clients and tests.

use vstd::prelude::*;
use ed25519_dalek::Signature;
use ed25519_dalek::Signer;
use ed25519_dalek::SigningKey;
use ed25519_dalek::VerifyingKey;
use crate::text::hex_bytes;
use crate::text::hex_decode;
use crate::text::hex_encode;
use crate::text::hex_encode_spec;
use crate::text::lemma_hex_roundtrip;
use crate::text::valid_hex;

verus! {

/// Whether 32 bytes decode to a valid Ed25519 verifying key
/// (`ed25519_dalek::VerifyingKey::from_bytes` succeeds).
pub uninterp spec fn ed25519_key_valid(pk: Seq<u8>) -> bool;

/// Whether strict Ed25519 verification accepts the signature over the
/// UTF-8 bytes of the message
/// (`ed25519_dalek::VerifyingKey::verify_strict` returns `Ok`).
pub uninterp spec fn ed25519_verifies(pk: Seq<u8>, sig: Seq<u8>, msg: Seq<char>) -> bool;

/// The 64-byte Ed25519 signature produced from a 32-byte secret key over
/// the UTF-8 bytes of the message (`ed25519_dalek::SigningKey` signing is
/// deterministic).
pub uninterp spec fn ed25519_signature_of(sk: Seq<u8>, msg: Seq<char>) -> Seq<u8>;

/// The 32-byte verifying key derived from a 32-byte secret key.
pub uninterp spec fn ed25519_public_key_of(sk: Seq<u8>) -> Seq<u8>;

/// Why a record signature was rejected.
#[derive(Debug, Clone, Copy, PartialEq, Eq, Structural)]
pub enum ValidationError {
    HexDecodeError,
    InvalidPublicKeyLength,
    InvalidSignatureLength,
    InvalidPublicKey,
    SignatureVerificationFailed,
}

/// The descriptive message of each validation error.
pub open spec fn spec_message(e: ValidationError) -> Seq<char> {
    match e {
        ValidationError::HexDecodeError => "Failed to decode hex."@,
        ValidationError::InvalidPublicKeyLength => "Invalid public key length"@,
        ValidationError::InvalidSignatureLength => "Invalid signature length"@,
        ValidationError::InvalidPublicKey => "Invalid public key"@,
        ValidationError::SignatureVerificationFailed => "Signature verification failed"@,
    }
}

impl ValidationError {
    /// A descriptive message, as surfaced to callers.
    pub fn message(&self) -> (r: String)
        ensures
            r@ == spec_message(*self),
    {
        match self {
            ValidationError::HexDecodeError => "Failed to decode hex.".to_owned(),
            ValidationError::InvalidPublicKeyLength => "Invalid public key length".to_owned(),
            ValidationError::InvalidSignatureLength => "Invalid signature length".to_owned(),
            ValidationError::InvalidPublicKey => "Invalid public key".to_owned(),
            ValidationError::SignatureVerificationFailed => "Signature verification failed".to_owned(),
        }
    }
}

/// The public key hex decodes to exactly 32 bytes.
pub open spec fn pubkey_hex_ok(pk: Seq<char>) -> bool {
    valid_hex(pk) && hex_bytes(pk).len() == 32
}

/// The signature hex decodes to exactly 64 bytes.
pub open spec fn sig_hex_ok(sig: Seq<char>) -> bool {
    valid_hex(sig) && hex_bytes(sig).len() == 64
}

/// The whole acceptance condition for a hex public key, hex signature
/// and message.
pub open spec fn signature_accepted(pk: Seq<char>, sig: Seq<char>, msg: Seq<char>) -> bool {
    &&& pubkey_hex_ok(pk)
    &&& ed25519_key_valid(hex_bytes(pk))
    &&& sig_hex_ok(sig)
    &&& ed25519_verifies(hex_bytes(pk), hex_bytes(sig), msg)
}

/// Which error `validate_signature` reports when the acceptance
/// condition fails: the checks run in this order.
pub open spec fn sig_error_variant(pk: Seq<char>, sig: Seq<char>, msg: Seq<char>) -> ValidationError
    recommends
        !signature_accepted(pk, sig, msg),
{
    if !valid_hex(pk) {
        ValidationError::HexDecodeError
    } else if hex_bytes(pk).len() != 32 {
        ValidationError::InvalidPublicKeyLength
    } else if !ed25519_key_valid(hex_bytes(pk)) {
        ValidationError::InvalidPublicKey
    } else if !valid_hex(sig) {
        ValidationError::HexDecodeError
    } else if hex_bytes(sig).len() != 64 {
        ValidationError::InvalidSignatureLength
    } else {
        ValidationError::SignatureVerificationFailed
    }
}

/// Relies on `ed25519_dalek::VerifyingKey::from_bytes`: point
/// decompression, a function of the 32 bytes alone.
#[verifier::external_body]
fn ed25519_key_parses(pk: &Vec<u8>) -> (r: bool)
    requires
        pk@.len() == 32,
    ensures
        r == ed25519_key_valid(pk@),
{
    let bytes: &[u8; 32] = pk.as_slice().try_into().unwrap();
    VerifyingKey::from_bytes(bytes).is_ok()
}

/// Relies on `ed25519_dalek::VerifyingKey::verify_strict` (together with
/// `VerifyingKey::from_bytes` and `Signature::from_bytes` to rebuild the
/// arguments): strict verification is a function of key, signature and
/// message bytes.
#[verifier::external_body]
fn ed25519_verify(pk: &Vec<u8>, sig: &Vec<u8>, msg: &str) -> (r: bool)
    requires
        pk@.len() == 32,
        sig@.len() == 64,
        ed25519_key_valid(pk@),
    ensures
        r == ed25519_verifies(pk@, sig@, msg@),
{
    let key_bytes: &[u8; 32] = pk.as_slice().try_into().unwrap();
    let key = VerifyingKey::from_bytes(key_bytes).unwrap();
    let sig_bytes: &[u8; 64] = sig.as_slice().try_into().unwrap();
    let signature = Signature::from_bytes(sig_bytes);
    key.verify_strict(msg.as_bytes(), &signature).is_ok()
}

/// Relies on `ed25519_dalek::SigningKey::from_bytes` and `Signer::sign`:
/// Ed25519 signing is deterministic in the secret key and message, a
/// signature is 64 bytes, and strict verification recomputes the very
/// point equation signing satisfies, so `VerifyingKey::verify_strict`
/// accepts the result under the verifying key derived from the same
/// secret key.
#[verifier::external_body]
fn ed25519_sign(sk: &Vec<u8>, msg: &str) -> (r: Vec<u8>)
    requires
        sk@.len() == 32,
    ensures
        r@ == ed25519_signature_of(sk@, msg@),
        r@.len() == 64,
        ed25519_verifies(ed25519_public_key_of(sk@), r@, msg@),
{
    let key_bytes: &[u8; 32] = sk.as_slice().try_into().unwrap();
    let key = SigningKey::from_bytes(key_bytes);
    key.sign(msg.as_bytes()).to_vec()
}

/// Relies on `ed25519_dalek::SigningKey::from_bytes` and
/// `SigningKey::verifying_key`: the verifying key is derived from the
/// secret key alone, is 32 bytes, and (by the `VerifyingKey` invariant
/// that its compressed form decompresses to its point) parses back with
/// `VerifyingKey::from_bytes`.
#[verifier::external_body]
fn ed25519_derive_public_key(sk: &Vec<u8>) -> (r: Vec<u8>)
    requires
        sk@.len() == 32,
    ensures
        r@ == ed25519_public_key_of(sk@),
        r@.len() == 32,
        ed25519_key_valid(r@),
{
    let key_bytes: &[u8; 32] = sk.as_slice().try_into().unwrap();
    let key = SigningKey::from_bytes(key_bytes);
    key.verifying_key().to_bytes().to_vec()
}

/// Relies on `rand::random`: fills an array from the thread-local RNG.
/// Nothing is promised of the values beyond the length.
#[verifier::external_body]
fn random_bytes_32() -> (r: Vec<u8>)
    ensures
        r@.len() == 32,
{
    rand::random::<[u8; 32]>().to_vec()
}

/// Verify a hex signature by a hex public key over a message.
///
/// Decodes the public key, checks its length, parses the key, decodes
/// the signature, checks its length, then verifies strictly; the first
/// failing step names the error.
pub fn validate_signature(public_key: &str, signature: &str, message: &str) -> (r: Result<
    (),
    ValidationError,
>)
    ensures
        r is Ok <==> signature_accepted(public_key@, signature@, message@),
        r matches Err(e) ==> e == sig_error_variant(public_key@, signature@, message@),
{
    let pk = match hex_decode(public_key) {
        Some(v) => v,
        None => {
            return Err(ValidationError::HexDecodeError);
        },
    };
    if pk.len() != 32 {
        return Err(ValidationError::InvalidPublicKeyLength);
    }
    if !ed25519_key_parses(&pk) {
        return Err(ValidationError::InvalidPublicKey);
    }
    let sig = match hex_decode(signature) {
        Some(v) => v,
        None => {
            return Err(ValidationError::HexDecodeError);
        },
    };
    if sig.len() != 64 {
        return Err(ValidationError::InvalidSignatureLength);
    }
    if !ed25519_verify(&pk, &sig, message) {
        return Err(ValidationError::SignatureVerificationFailed);
    }
    Ok(())
}

/// Generate a fresh keypair: the hex secret key and hex verifying key.
pub fn generate_keypair() -> (r: (String, String))
    ensures
        valid_hex(r.0@),
        hex_bytes(r.0@).len() == 32,
        r.1@ == hex_encode_spec(ed25519_public_key_of(hex_bytes(r.0@))),
        pubkey_hex_ok(r.1@),
        ed25519_key_valid(hex_bytes(r.1@)),
{
    let sk = random_bytes_32();
    let pk = ed25519_derive_public_key(&sk);
    let sk_hex = hex_encode(&sk);
    let pk_hex = hex_encode(&pk);
    proof {
        lemma_hex_roundtrip(sk@);
        lemma_hex_roundtrip(pk@);
    }
    (sk_hex, pk_hex)
}

/// Sign a message with a hex secret key; `None` when the key is not
/// 32 bytes of hex.
pub fn sign_message(secret_key: &str, message: &str) -> (r: Option<String>)
    ensures
        r is Some <==> valid_hex(secret_key@) && hex_bytes(secret_key@).len() == 32,
        r matches Some(s) ==> s@ == hex_encode_spec(
            ed25519_signature_of(hex_bytes(secret_key@), message@),
        ) && sig_hex_ok(s@) && hex_bytes(s@) == ed25519_signature_of(
            hex_bytes(secret_key@),
            message@,
        ) && ed25519_verifies(
            ed25519_public_key_of(hex_bytes(secret_key@)),
            hex_bytes(s@),
            message@,
        ),
{
    let sk = match hex_decode(secret_key) {
        Some(v) => v,
        None => {
            return None;
        },
    };
    if sk.len() != 32 {
        return None;
    }
    let sig = ed25519_sign(&sk, message);
    let encoded = hex_encode(&sig);
    proof {
        lemma_hex_roundtrip(sig@);
    }
    Some(encoded)
}

} // verus!
