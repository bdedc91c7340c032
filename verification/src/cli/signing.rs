//! What the release signer computes once a file has been read: the digest of
//! the file, the message that names it, and the signature over that message.

use vstd::prelude::*;
use vstd::string::StringExecFns;
use vstd::utf8::encode_utf8;
use crate::cli::input::InputError;
use crate::governance::curve::{sha256, sha256_digest};
use crate::governance::error::GovernanceError;
use crate::governance::keys::GovernanceKeypair;
use crate::governance::signatures::{sign_message, signed_by, Signature};
use crate::hexadecimal::{hex_bytes, hex_decode, hex_encode, hex_error_text, hex_text, is_hex};

verus! {

/// A signature over a file, with what was signed.
#[derive(Debug)]
pub struct SignedFile {
    /// The signature over the UTF-8 bytes of `message`.
    pub signature: Signature,
    /// The SHA-256 digest of the file in lower-case hexadecimal.
    pub file_hash: String,
    /// The message that names the file.
    pub message: String,
}

/// Why a key file's secret could not be used.
#[derive(Debug)]
pub enum KeyFileError {
    /// The secret is not hexadecimal text.
    Encoding(InputError),
    /// The secret is not a key.
    Key(GovernanceError),
}

/// A field that is added to a message only when it is given.
pub open spec fn optional_field(field: Option<&str>) -> Seq<char> {
    match field {
        Some(value) => ":"@ + value@,
        None => Seq::empty(),
    }
}

/// The message for a binary: its type and digest, then the version and the
/// commit where they are given.
pub open spec fn binary_message_text(
    binary_type: Seq<char>,
    file_hash: Seq<char>,
    version: Option<&str>,
    commit: Option<&str>,
) -> Seq<char> {
    "binary:"@ + binary_type + ":"@ + file_hash + optional_field(version) + optional_field(commit)
}

/// The message for a verification bundle: its digest, then the digests of the
/// source, the build configuration and the specification where they are
/// given.
pub open spec fn bundle_message_text(
    file_hash: Seq<char>,
    source_hash: Option<&str>,
    build_config_hash: Option<&str>,
    spec_hash: Option<&str>,
) -> Seq<char> {
    "bundle:"@ + file_hash + optional_field(source_hash) + optional_field(build_config_hash)
        + optional_field(spec_hash)
}

/// The message for a file of checksums: its digest, then the version where it
/// is given.
pub open spec fn checksums_message_text(file_hash: Seq<char>, version: Option<&str>) -> Seq<char> {
    "checksums:"@ + file_hash + optional_field(version)
}

/// What the signer prints in text form.
pub open spec fn signature_report_text(
    kind: Seq<char>,
    file_path: Seq<char>,
    file_hash: Seq<char>,
    signature: Seq<char>,
    output: Seq<char>,
) -> Seq<char> {
    "Signed "@ + kind + " successfully\nFile: "@ + file_path + "\nHash: "@ + file_hash
        + "\nSignature: "@ + signature + "\nSaved to: "@ + output + "\n"@
}

fn push_optional(message: &mut String, field: Option<&str>)
    ensures
        final(message)@ == old(message)@ + optional_field(field),
{
    match field {
        Some(value) => {
            message.append(":");
            message.append(value);
            assert(old(message)@ + ":"@ + value@ =~= old(message)@ + (":"@ + value@));
        },
        None => {
            assert(old(message)@ + Seq::<char>::empty() =~= old(message)@);
        },
    }
}

/// The SHA-256 digest of a file's bytes in lower-case hexadecimal.
pub fn file_digest(data: &[u8]) -> (file_hash: String)
    ensures
        file_hash@ == hex_text(sha256(data@)),
{
    let digest = sha256_digest(data);
    hex_encode(digest.as_slice())
}

/// The message that names a binary.
pub fn binary_message(
    binary_type: &str,
    file_hash: &str,
    version: Option<&str>,
    commit: Option<&str>,
) -> (message: String)
    ensures
        message@ == binary_message_text(binary_type@, file_hash@, version, commit),
{
    let mut message = "binary:".to_owned();
    message.append(binary_type);
    message.append(":");
    message.append(file_hash);
    push_optional(&mut message, version);
    push_optional(&mut message, commit);
    message
}

/// The message that names a verification bundle.
pub fn bundle_message(
    file_hash: &str,
    source_hash: Option<&str>,
    build_config_hash: Option<&str>,
    spec_hash: Option<&str>,
) -> (message: String)
    ensures
        message@ == bundle_message_text(file_hash@, source_hash, build_config_hash, spec_hash),
{
    let mut message = "bundle:".to_owned();
    message.append(file_hash);
    push_optional(&mut message, source_hash);
    push_optional(&mut message, build_config_hash);
    push_optional(&mut message, spec_hash);
    message
}

/// The message that names a file of checksums.
pub fn checksums_message(file_hash: &str, version: Option<&str>) -> (message: String)
    ensures
        message@ == checksums_message_text(file_hash@, version),
{
    let mut message = "checksums:".to_owned();
    message.append(file_hash);
    push_optional(&mut message, version);
    message
}

fn sign_named(keypair: &GovernanceKeypair, file_hash: String, message: String) -> (r: Result<
    SignedFile,
    GovernanceError,
>)
    ensures
        r matches Ok(signed) && signed.file_hash == file_hash && signed.message == message
            && signed_by(signed.signature@, keypair.secret_key@, encode_utf8(message@)),
{
    match sign_message(&keypair.secret_key, message.as_str().as_bytes()) {
        Ok(signature) => Ok(SignedFile { signature, file_hash, message }),
        Err(error) => Err(error),
    }
}

/// Signs the message that names a binary with the given contents.
pub fn sign_binary(
    keypair: &GovernanceKeypair,
    binary_data: &[u8],
    binary_type: &str,
    version: Option<&str>,
    commit: Option<&str>,
) -> (r: Result<SignedFile, GovernanceError>)
    ensures
        r matches Ok(signed) && signed.file_hash@ == hex_text(sha256(binary_data@))
            && signed.message@ == binary_message_text(
            binary_type@,
            signed.file_hash@,
            version,
            commit,
        ) && signed_by(signed.signature@, keypair.secret_key@, encode_utf8(signed.message@)),
{
    let file_hash = file_digest(binary_data);
    let message = binary_message(binary_type, file_hash.as_str(), version, commit);
    sign_named(keypair, file_hash, message)
}

/// Signs the message that names a verification bundle with the given
/// contents.
pub fn sign_bundle(
    keypair: &GovernanceKeypair,
    bundle_data: &[u8],
    source_hash: Option<&str>,
    build_config_hash: Option<&str>,
    spec_hash: Option<&str>,
) -> (r: Result<SignedFile, GovernanceError>)
    ensures
        r matches Ok(signed) && signed.file_hash@ == hex_text(sha256(bundle_data@))
            && signed.message@ == bundle_message_text(
            signed.file_hash@,
            source_hash,
            build_config_hash,
            spec_hash,
        ) && signed_by(signed.signature@, keypair.secret_key@, encode_utf8(signed.message@)),
{
    let file_hash = file_digest(bundle_data);
    let message = bundle_message(file_hash.as_str(), source_hash, build_config_hash, spec_hash);
    sign_named(keypair, file_hash, message)
}

/// Signs the message that names a file of checksums with the given contents.
pub fn sign_checksums(keypair: &GovernanceKeypair, checksums_data: &[u8], version: Option<&str>) -> (r:
    Result<SignedFile, GovernanceError>)
    ensures
        r matches Ok(signed) && signed.file_hash@ == hex_text(sha256(checksums_data@))
            && signed.message@ == checksums_message_text(signed.file_hash@, version) && signed_by(
            signed.signature@,
            keypair.secret_key@,
            encode_utf8(signed.message@),
        ),
{
    let file_hash = file_digest(checksums_data);
    let message = checksums_message(file_hash.as_str(), version);
    sign_named(keypair, file_hash, message)
}

/// The keypair of a secret key given in hexadecimal, as key files hold it.
pub fn load_keypair(secret_key_hex: &str) -> (r: Result<GovernanceKeypair, KeyFileError>)
    ensures
        match r {
            Ok(pair) => is_hex(encode_utf8(secret_key_hex@)) && pair.consistent()
                && pair.secret_key@ == hex_bytes(encode_utf8(secret_key_hex@)),
            Err(KeyFileError::Encoding(e)) => !is_hex(encode_utf8(secret_key_hex@))
                && e is InvalidFormat,
            Err(KeyFileError::Key(e)) => is_hex(encode_utf8(secret_key_hex@))
                && !crate::governance::curve::is_secret_key(
                hex_bytes(encode_utf8(secret_key_hex@)),
            ) && e is InvalidKey,
        },
{
    match hex_decode(secret_key_hex) {
        Ok(secret_key_bytes) => match GovernanceKeypair::from_secret_key(
            secret_key_bytes.as_slice(),
        ) {
            Ok(pair) => Ok(pair),
            Err(error) => Err(KeyFileError::Key(error)),
        },
        Err(error) => {
            let mut text = "Invalid hex string: ".to_owned();
            text.append(hex_error_text(&error).as_str());
            Err(KeyFileError::Encoding(InputError::InvalidFormat(text)))
        },
    }
}

/// What the signer prints in text form once a file is signed.
pub fn format_signature_output(
    kind: &str,
    file_path: &str,
    file_hash: &str,
    signature: &Signature,
    output: &str,
) -> (text: String)
    ensures
        text@ == signature_report_text(
            kind@,
            file_path@,
            file_hash@,
            hex_text(signature@),
            output@,
        ),
{
    let mut text = "Signed ".to_owned();
    text.append(kind);
    text.append(" successfully\nFile: ");
    text.append(file_path);
    text.append("\nHash: ");
    text.append(file_hash);
    text.append("\nSignature: ");
    text.append(signature.to_string().as_str());
    text.append("\nSaved to: ");
    text.append(output);
    text.append("\n");
    text
}

} // verus!
