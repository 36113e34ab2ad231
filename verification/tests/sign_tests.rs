//! Key generation, signing, verification and hex codecs.

use cryptogram::sign::generate_keypair;
use cryptogram::sign::sign_message;
use cryptogram::sign::validate_signature;
use cryptogram::sign::ValidationError;
use cryptogram::text::hex_decode;
use cryptogram::text::hex_encode;

#[test]
fn test_sign_verify_roundtrip() {
    let (sk, pk) = generate_keypair();
    let sig = sign_message(&sk, "hello world").unwrap();
    assert!(validate_signature(&pk, &sig, "hello world").is_ok());
}

#[test]
fn test_wrong_message_rejected() {
    let (sk, pk) = generate_keypair();
    let sig = sign_message(&sk, "hello world").unwrap();
    assert!(matches!(
        validate_signature(&pk, &sig, "hello worle"),
        Err(ValidationError::SignatureVerificationFailed)
    ));
}

#[test]
fn test_bad_hex_rejected() {
    let (sk, pk) = generate_keypair();
    let sig = sign_message(&sk, "m").unwrap();
    assert!(matches!(
        validate_signature("zz", &sig, "m"),
        Err(ValidationError::HexDecodeError)
    ));
    assert!(matches!(
        validate_signature(&pk, "not hex", "m"),
        Err(ValidationError::HexDecodeError)
    ));
}

#[test]
fn test_bad_public_key_length() {
    let (sk, _pk) = generate_keypair();
    let sig = sign_message(&sk, "m").unwrap();
    assert!(matches!(
        validate_signature("aabb", &sig, "m"),
        Err(ValidationError::InvalidPublicKeyLength)
    ));
}

#[test]
fn test_bad_signature_length() {
    let (_sk, pk) = generate_keypair();
    assert!(matches!(
        validate_signature(&pk, "aabb", "m"),
        Err(ValidationError::InvalidSignatureLength)
    ));
}

#[test]
fn test_invalid_public_key_detected() {
    let (sk, _pk) = generate_keypair();
    let sig = sign_message(&sk, "m").unwrap();
    let mut seen_invalid = false;
    for b in 0u8..=255 {
        let candidate = hex_encode(&vec![b; 32]);
        if matches!(
            validate_signature(&candidate, &sig, "m"),
            Err(ValidationError::InvalidPublicKey)
        ) {
            seen_invalid = true;
            break;
        }
    }
    assert!(seen_invalid);
}

#[test]
fn test_error_messages() {
    assert_eq!(ValidationError::HexDecodeError.message(), "Failed to decode hex.");
    assert_eq!(ValidationError::InvalidPublicKeyLength.message(), "Invalid public key length");
    assert_eq!(ValidationError::InvalidSignatureLength.message(), "Invalid signature length");
    assert_eq!(ValidationError::InvalidPublicKey.message(), "Invalid public key");
    assert_eq!(
        ValidationError::SignatureVerificationFailed.message(),
        "Signature verification failed"
    );
}

#[test]
fn test_hex_encode_matches_reference() {
    let bytes = vec![0xde, 0xad, 0xbe, 0xef, 0x00, 0x7f];
    assert_eq!(hex_encode(&bytes), "deadbeef007f");
    assert_eq!(hex_encode(&bytes), hex::encode(&bytes));
    assert_eq!(hex_encode(&Vec::new()), "");
}

#[test]
fn test_hex_decode_roundtrip_and_errors() {
    assert_eq!(hex_decode("deadBEEF").unwrap(), vec![0xde, 0xad, 0xbe, 0xef]);
    assert_eq!(hex_decode("abc"), None);
    assert_eq!(hex_decode("gg"), None);
    assert_eq!(hex_decode("").unwrap(), Vec::<u8>::new());
    let bytes: Vec<u8> = (0u8..=255).collect();
    assert_eq!(hex_decode(&hex_encode(&bytes)).unwrap(), bytes);
    assert_eq!(hex::decode(hex_encode(&bytes)).unwrap(), bytes);
}

#[test]
fn test_generated_keypair_shape() {
    let (sk, pk) = generate_keypair();
    assert_eq!(sk.len(), 64);
    assert_eq!(pk.len(), 64);
    assert_eq!(hex_decode(&sk).unwrap().len(), 32);
    assert_eq!(hex_decode(&pk).unwrap().len(), 32);
    assert_eq!(sign_message("zz", "m"), None);
    assert_eq!(sign_message("aabb", "m"), None);
}
