use bllvm_sdk::governance::{GovernanceError, GovernanceKeypair, Signature};
use bllvm_sdk::{sign_message, verify_signature};

const ORDER: [u8; 32] = [
    0xff, 0xff, 0xff, 0xff, 0xff, 0xff, 0xff, 0xff, 0xff, 0xff, 0xff, 0xff, 0xff, 0xff, 0xff, 0xfe,
    0xba, 0xae, 0xdc, 0xe6, 0xaf, 0x48, 0xa0, 0x3b, 0xbf, 0xd2, 0x5e, 0x8c, 0xd0, 0x36, 0x41, 0x41,
];

fn compact(r: &[u8; 32], s: &[u8; 32]) -> [u8; 64] {
    let mut bytes = [0u8; 64];
    bytes[..32].copy_from_slice(r);
    bytes[32..].copy_from_slice(s);
    bytes
}

#[test]
fn test_compact_halves_must_be_below_the_order() {
    let mut below = ORDER;
    below[31] = 0x40;
    let one = {
        let mut bytes = [0u8; 32];
        bytes[31] = 1;
        bytes
    };
    assert!(Signature::from_bytes(&compact(&below, &below)).is_ok());
    assert!(Signature::from_bytes(&compact(&one, &one)).is_ok());
    assert!(Signature::from_bytes(&compact(&ORDER, &one)).is_err());
    assert!(Signature::from_bytes(&compact(&one, &ORDER)).is_err());
    assert!(Signature::from_bytes(&compact(&[0xff; 32], &one)).is_err());
    assert!(Signature::from_bytes(&[0u8; 64]).is_ok());
}

#[test]
fn test_signature_format_error() {
    match Signature::from_bytes(&[0u8; 63]) {
        Err(GovernanceError::InvalidSignatureFormat(text)) => {
            assert_eq!(text, "Invalid signature: malformed signature")
        }
        other => panic!("unexpected outcome: {:?}", other),
    }
    assert!(matches!(
        Signature::from_bytes(&compact(&ORDER, &ORDER)),
        Err(GovernanceError::InvalidSignatureFormat(_))
    ));
}

#[test]
fn test_signature_round_trip_keeps_the_bytes() {
    let mut bytes = [0u8; 64];
    for (index, byte) in bytes.iter_mut().enumerate() {
        *byte = index as u8;
    }
    let signature = Signature::from_bytes(&bytes).unwrap();
    assert_eq!(signature.to_bytes(), bytes);
    assert_eq!(Signature::from_bytes(&signature.to_bytes()).unwrap(), signature);
    let mut other = bytes;
    other[63] ^= 1;
    assert_ne!(Signature::from_bytes(&other).unwrap(), signature);
}

#[test]
fn test_signature_text_is_hex_of_its_bytes() {
    let mut bytes = [0u8; 64];
    bytes[0] = 0x0a;
    bytes[1] = 0xf0;
    bytes[63] = 0x9c;
    let signature = Signature::from_bytes(&bytes).unwrap();
    let mut expected = String::from("0af0");
    expected.push_str(&"00".repeat(61));
    expected.push_str("9c");
    assert_eq!(signature.to_string(), expected);
}

#[test]
fn test_der_of_small_signatures() {
    let zero = Signature::from_bytes(&[0u8; 64]).unwrap();
    assert_eq!(zero.to_der_bytes(), vec![0x30, 0x06, 0x02, 0x01, 0x00, 0x02, 0x01, 0x00]);
    let mut bytes = [0u8; 64];
    bytes[31] = 0x01;
    bytes[62] = 0x01;
    bytes[63] = 0x80;
    let small = Signature::from_bytes(&bytes).unwrap();
    assert_eq!(
        small.to_der_bytes(),
        vec![0x30, 0x07, 0x02, 0x01, 0x01, 0x02, 0x02, 0x01, 0x80]
    );
}

#[test]
fn test_der_agrees_with_the_curve_library() {
    let keypair = GovernanceKeypair::from_secret_key(&[3u8; 32]).unwrap();
    let signature = sign_message(&keypair.secret_key, b"der").unwrap();
    let theirs = secp256k1::ecdsa::Signature::from_compact(&signature.to_bytes()).unwrap();
    assert_eq!(signature.to_der_bytes(), theirs.serialize_der().to_vec());
}

#[test]
fn test_signature_is_over_the_sha256_digest() {
    let keypair = GovernanceKeypair::from_secret_key(&[3u8; 32]).unwrap();
    let message = b"what is signed";
    let signature = sign_message(&keypair.secret_key, message).unwrap();
    let digest: [u8; 32] = <sha2::Sha256 as sha2::Digest>::digest(message).into();
    let context = secp256k1::Secp256k1::new();
    let theirs = secp256k1::ecdsa::Signature::from_compact(&signature.to_bytes()).unwrap();
    let key = secp256k1::PublicKey::from_slice(&keypair.public_key().to_bytes()).unwrap();
    assert!(context
        .verify_ecdsa(&secp256k1::Message::from_digest(digest), &theirs, &key)
        .is_ok());
}

#[test]
fn test_foreign_signature_verifies() {
    let secret = [11u8; 32];
    let keypair = GovernanceKeypair::from_secret_key(&secret).unwrap();
    let message = b"signed elsewhere";
    let digest: [u8; 32] = <sha2::Sha256 as sha2::Digest>::digest(message).into();
    let context = secp256k1::Secp256k1::new();
    let theirs = context.sign_ecdsa(
        &secp256k1::Message::from_digest(digest),
        &secp256k1::SecretKey::from_slice(&secret).unwrap(),
    );
    let signature = Signature::from_bytes(&theirs.serialize_compact()).unwrap();
    assert!(verify_signature(&signature, message, &keypair.public_key()).unwrap());
    assert!(!verify_signature(&signature, b"signed here", &keypair.public_key()).unwrap());
}

#[test]
fn test_high_s_twin_is_not_accepted() {
    // the curve library accepts only the lower of the two values of s
    let keypair = GovernanceKeypair::from_secret_key(&[3u8; 32]).unwrap();
    let message = b"m";
    let signature = sign_message(&keypair.secret_key, message).unwrap();
    let bytes = signature.to_bytes();
    // order - s, by subtraction with borrow
    let mut twin = bytes;
    let mut borrow = 0i16;
    for index in (0..32).rev() {
        let difference = ORDER[index] as i16 - bytes[32 + index] as i16 - borrow;
        twin[32 + index] = difference.rem_euclid(256) as u8;
        borrow = if difference < 0 { 1 } else { 0 };
    }
    let twin = Signature::from_bytes(&twin).unwrap();
    assert!(verify_signature(&signature, message, &keypair.public_key()).unwrap());
    assert!(!verify_signature(&twin, message, &keypair.public_key()).unwrap());
}

#[test]
fn test_sign_then_verify_for_many_keys_and_messages() {
    for seed in 1u8..=8 {
        let keypair = GovernanceKeypair::from_secret_key(&[seed; 32]).unwrap();
        for length in [0usize, 1, 31, 32, 33, 1000] {
            let message = vec![seed; length];
            let signature = sign_message(&keypair.secret_key, &message).unwrap();
            assert!(verify_signature(&signature, &message, &keypair.public_key()).unwrap());
            let mut changed = message.clone();
            changed.push(0);
            assert!(!verify_signature(&signature, &changed, &keypair.public_key()).unwrap());
        }
    }
}
