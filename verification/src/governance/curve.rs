//! The secp256k1 and SHA-256 primitives the governance layer rests on.
//!
//! Everything here crosses into code that is not verified: each function
//! states what the rest of the crate relies on, and nothing in this crate
//! proves it.  Keys, digests and signatures cross the boundary as plain byte
//! arrays.

use vstd::prelude::*;

verus! {

/// Order of the secp256k1 group.
pub open spec fn curve_order() -> nat {
    0xFFFFFFFFFFFFFFFFFFFFFFFFFFFFFFFEBAAEDCE6AF48A03BBFD25E8CD0364141nat
}

/// The number a byte string denotes, most significant byte first.
pub open spec fn be_value(bytes: Seq<u8>) -> nat
    decreases bytes.len(),
{
    if bytes.len() == 0 {
        0
    } else {
        be_value(bytes.drop_last()) * 256 + bytes.last() as nat
    }
}

/// A secret key is a 32-byte scalar strictly between zero and the group order.
pub open spec fn is_secret_key(bytes: Seq<u8>) -> bool {
    bytes.len() == 32 && 0 < be_value(bytes) < curve_order()
}

/// A compact signature is two 32-byte scalars, each below the group order.
pub open spec fn is_compact_signature(bytes: Seq<u8>) -> bool {
    &&& bytes.len() == 64
    &&& be_value(bytes.subrange(0, 32)) < curve_order()
    &&& be_value(bytes.subrange(32, 64)) < curve_order()
}

/// A compressed point encoding has 33 bytes and begins with 2 or 3, for an
/// even or an odd second coordinate.
pub open spec fn has_compressed_form(bytes: Seq<u8>) -> bool {
    bytes.len() == 33 && (bytes[0] == 2 || bytes[0] == 3)
}

/// The SHA-256 digest of a message.
pub uninterp spec fn sha256(message: Seq<u8>) -> Seq<u8>;

/// Whether a byte string is an SEC1 encoding of a point on the curve.
pub uninterp spec fn is_point_encoding(bytes: Seq<u8>) -> bool;

/// The compressed encoding of the public point that belongs to a secret key.
pub uninterp spec fn public_key_of(secret: Seq<u8>) -> Seq<u8>;

/// The 65-byte uncompressed encoding of the point with the given compressed
/// encoding.
pub uninterp spec fn uncompressed_encoding(compressed: Seq<u8>) -> Seq<u8>;

/// The DER encoding of the signature with the given compact encoding.
pub uninterp spec fn der_encoding(compact: Seq<u8>) -> Seq<u8>;

/// Whether the curve accepts `signature` as an ECDSA signature over `digest`
/// under `public_key`.
pub uninterp spec fn ecdsa_accepts(signature: Seq<u8>, digest: Seq<u8>, public_key: Seq<u8>) -> bool;

#[verifier::external_type_specification]
#[verifier::external_body]
pub struct ExCurveError(secp256k1::Error);

/// `sha2::Sha256::digest`: the digest is a function of the message alone.
#[verifier::external_body]
pub(crate) fn sha256_digest(message: &[u8]) -> (digest: [u8; 32])
    ensures
        digest@ == sha256(message@),
{
    <sha2::Sha256 as sha2::Digest>::digest(message).into()
}

/// `secp256k1::SecretKey::from_slice`: accepts exactly the 32-byte strings
/// whose big-endian value is nonzero and below the group order.
#[verifier::external_body]
pub(crate) fn check_secret_key(bytes: &[u8]) -> (outcome: Result<(), secp256k1::Error>)
    ensures
        outcome is Ok <==> is_secret_key(bytes@),
{
    match secp256k1::SecretKey::from_slice(bytes) {
        Ok(_) => Ok(()),
        Err(error) => Err(error),
    }
}

/// `secp256k1::SecretKey::new` on the operating system's random source:
/// whatever is drawn, the bytes handed back form a secret key.  It does not
/// return where the source fails.
#[verifier::external_body]
pub(crate) fn fresh_secret_key() -> (secret: [u8; 32])
    ensures
        is_secret_key(secret@),
{
    secp256k1::SecretKey::new(&mut rand::rngs::OsRng).secret_bytes()
}

/// `secp256k1::SecretKey::public_key`, serialized in compressed form: the
/// public point is a function of the secret alone, and its serialization is
/// an encoding of a point, in compressed form.
#[verifier::external_body]
pub(crate) fn derive_public_key(secret: &[u8; 32]) -> (public: [u8; 33])
    requires
        is_secret_key(secret@),
    ensures
        public@ == public_key_of(secret@),
        is_point_encoding(public@),
        has_compressed_form(public@),
{
    let context = secp256k1::Secp256k1::new();
    let secret = secp256k1::SecretKey::from_slice(secret).expect("a secret key");
    secret.public_key(&context).serialize()
}

/// `secp256k1::PublicKey::from_slice`: accepts exactly the encodings of curve
/// points.  One of 33 bytes that it accepts begins with 2 or 3.
#[verifier::external_body]
pub(crate) fn check_public_key(bytes: &[u8]) -> (outcome: Result<(), secp256k1::Error>)
    ensures
        outcome is Ok <==> is_point_encoding(bytes@),
        outcome is Ok && bytes@.len() == 33 ==> has_compressed_form(bytes@),
{
    match secp256k1::PublicKey::from_slice(bytes) {
        Ok(_) => Ok(()),
        Err(error) => Err(error),
    }
}

/// `secp256k1::PublicKey::serialize_uncompressed`: the encoding is a function
/// of the point, and begins with 4.
#[verifier::external_body]
pub(crate) fn uncompressed_public_key(public: &[u8; 33]) -> (encoding: [u8; 65])
    requires
        is_point_encoding(public@),
    ensures
        encoding@ == uncompressed_encoding(public@),
        encoding@[0] == 4,
{
    secp256k1::PublicKey::from_slice(public).expect("a public key").serialize_uncompressed()
}

/// `secp256k1::ecdsa::Signature::from_compact`: accepts exactly the 64-byte
/// strings whose two halves are both below the group order.
#[verifier::external_body]
pub(crate) fn check_compact_signature(bytes: &[u8]) -> (outcome: Result<(), secp256k1::Error>)
    ensures
        outcome is Ok <==> is_compact_signature(bytes@),
{
    match secp256k1::ecdsa::Signature::from_compact(bytes) {
        Ok(_) => Ok(()),
        Err(error) => Err(error),
    }
}

/// `secp256k1::ecdsa::Signature::serialize_der`.
#[verifier::external_body]
pub(crate) fn der_signature(signature: &[u8; 64]) -> (encoding: Vec<u8>)
    requires
        is_compact_signature(signature@),
    ensures
        encoding@ == der_encoding(signature@),
{
    let signature = secp256k1::ecdsa::Signature::from_compact(signature).expect("a signature");
    signature.serialize_der().to_vec()
}

/// `secp256k1::Message::from_digest_slice`: accepts exactly the 32-byte
/// strings.
#[verifier::external_body]
pub(crate) fn check_digest(digest: &[u8]) -> (outcome: Result<(), secp256k1::Error>)
    ensures
        outcome is Ok <==> digest@.len() == 32,
{
    match secp256k1::Message::from_digest_slice(digest) {
        Ok(_) => Ok(()),
        Err(error) => Err(error),
    }
}

/// `secp256k1::Secp256k1::sign_ecdsa`: the signature it hands back is in
/// compact form and is accepted over the same digest under the public key
/// that belongs to the secret.  Nothing is said of which signature it is.
#[verifier::external_body]
pub(crate) fn ecdsa_sign(secret: &[u8; 32], digest: &[u8; 32]) -> (signature: [u8; 64])
    requires
        is_secret_key(secret@),
    ensures
        is_compact_signature(signature@),
        ecdsa_accepts(signature@, digest@, public_key_of(secret@)),
{
    let context = secp256k1::Secp256k1::new();
    let secret = secp256k1::SecretKey::from_slice(secret).expect("a secret key");
    let message = secp256k1::Message::from_digest(*digest);
    context.sign_ecdsa(&message, &secret).serialize_compact()
}

/// `secp256k1::Secp256k1::verify_ecdsa`: whether it accepts is a function of
/// the signature, the digest and the public key.
#[verifier::external_body]
pub(crate) fn ecdsa_verify(signature: &[u8; 64], digest: &[u8; 32], public: &[u8; 33]) -> (accepted: bool)
    requires
        is_compact_signature(signature@),
        is_point_encoding(public@),
    ensures
        accepted == ecdsa_accepts(signature@, digest@, public@),
{
    let context = secp256k1::Secp256k1::new();
    let signature = secp256k1::ecdsa::Signature::from_compact(signature).expect("a signature");
    let public = secp256k1::PublicKey::from_slice(public).expect("a public key");
    let message = secp256k1::Message::from_digest(*digest);
    context.verify_ecdsa(&message, &signature, &public).is_ok()
}

/// `secp256k1::Error` as it displays, through `to_string`.  Nothing is said
/// of the text.
#[verifier::external_body]
pub(crate) fn curve_error_text(error: &secp256k1::Error) -> (text: String) {
    error.to_string()
}

} // verus!
