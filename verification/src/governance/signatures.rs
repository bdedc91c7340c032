//! Signatures: how they are made, held and checked.

use vstd::prelude::*;
use vstd::string::StringExecFns;
use vstd::std_specs::cmp::PartialEqSpecImpl;
use crate::governance::curve::{
    check_compact_signature, curve_error_text, der_encoding, der_signature, ecdsa_accepts,
    ecdsa_sign, ecdsa_verify, is_compact_signature, public_key_of, sha256, sha256_digest,
};
use crate::governance::error::{GovernanceError, GovernanceResult};
use crate::governance::keys::{array_from_slice, PublicKey, SecretKey};
use crate::hexadecimal::{hex_encode, hex_text};

verus! {

/// An ECDSA signature, held in its 64-byte compact encoding.
#[derive(Debug, Clone, Copy, Eq)]
pub struct Signature {
    bytes: [u8; 64],
}

/// Whether `signature` is accepted for `message` under `public_key`: the
/// curve accepts it over the SHA-256 digest of the message.
pub open spec fn signature_verifies(signature: Seq<u8>, message: Seq<u8>, public_key: Seq<u8>) -> bool {
    ecdsa_accepts(signature, sha256(message), public_key)
}

/// What holds of every signature that `sign_message` hands back for
/// `message` under `secret`.
pub open spec fn signed_by(signature: Seq<u8>, secret: Seq<u8>, message: Seq<u8>) -> bool {
    &&& is_compact_signature(signature)
    &&& signature_verifies(signature, message, public_key_of(secret))
}

impl View for Signature {
    type V = Seq<u8>;

    closed spec fn view(&self) -> Seq<u8> {
        self.bytes@
    }
}

impl PartialEq for Signature {
    fn eq(&self, other: &Self) -> (r: bool) {
        let mut i: usize = 0;
        while i < 64
            invariant
                i <= 64,
                forall|j: int| 0 <= j < i ==> self.bytes@[j] == other.bytes@[j],
            decreases 64 - i,
        {
            if self.bytes[i] != other.bytes[i] {
                return false;
            }
            i += 1;
        }
        assert(self.bytes@ =~= other.bytes@);
        true
    }
}

impl PartialEqSpecImpl for Signature {
    open spec fn obeys_eq_spec() -> bool {
        true
    }

    open spec fn eq_spec(&self, other: &Self) -> bool {
        self@ == other@
    }
}

impl Signature {
    #[verifier::type_invariant]
    spec fn well_formed(&self) -> bool {
        is_compact_signature(self.bytes@)
    }

    /// Every signature that exists at run time satisfies this.
    pub open spec fn valid(&self) -> bool {
        is_compact_signature(self@)
    }

    /// Reads a signature from its 64-byte compact encoding.
    pub fn from_bytes(bytes: &[u8]) -> (r: GovernanceResult<Signature>)
        ensures
            r is Ok <==> is_compact_signature(bytes@),
            r matches Ok(signature) ==> signature@ == bytes@ && signature.valid(),
            r matches Err(e) ==> e is InvalidSignatureFormat,
    {
        match check_compact_signature(bytes) {
            Ok(()) => Ok(Signature { bytes: array_from_slice(bytes) }),
            Err(error) => {
                let mut text = "Invalid signature: ".to_owned();
                text.append(curve_error_text(&error).as_str());
                Err(GovernanceError::InvalidSignatureFormat(text))
            },
        }
    }

    /// The compact encoding.
    pub fn to_bytes(&self) -> (bytes: [u8; 64])
        ensures
            bytes@ == self@,
            is_compact_signature(bytes@),
    {
        proof {
            use_type_invariant(self);
        }
        self.bytes
    }

    /// The DER encoding.
    pub fn to_der_bytes(&self) -> (bytes: Vec<u8>)
        ensures
            bytes@ == der_encoding(self@),
    {
        proof {
            use_type_invariant(self);
        }
        der_signature(&self.bytes)
    }

    /// The compact encoding in lower-case hexadecimal.
    pub fn to_string(&self) -> (text: String)
        ensures
            text@ == hex_text(self@),
    {
        hex_encode(self.bytes.as_slice())
    }

    /// Whether the curve accepts this signature over `digest` under
    /// `public_key`.
    pub(crate) fn accepted_over(&self, digest: &[u8; 32], public_key: &PublicKey) -> (accepted: bool)
        ensures
            accepted == ecdsa_accepts(self@, digest@, public_key@),
    {
        proof {
            use_type_invariant(self);
        }
        let key = public_key.to_bytes();
        ecdsa_verify(&self.bytes, digest, &key)
    }
}

/// Signs the SHA-256 digest of `message`.  The signature verifies for the
/// same message under the public key that belongs to `secret_key`.
pub fn sign_message(secret_key: &SecretKey, message: &[u8]) -> (r: GovernanceResult<Signature>)
    ensures
        r matches Ok(signature) && signature.valid() && signed_by(
            signature@,
            secret_key@,
            message@,
        ),
{
    let digest = sha256_digest(message);
    let secret = secret_key.secret_bytes();
    Ok(Signature { bytes: ecdsa_sign(&secret, &digest) })
}

/// Checks a signature against the SHA-256 digest of `message`.  A signature
/// that does not match is `Ok(false)`, never an error.
pub fn verify_signature(signature: &Signature, message: &[u8], public_key: &PublicKey) -> (r:
    GovernanceResult<bool>)
    ensures
        r matches Ok(verified) && verified == signature_verifies(
            signature@,
            message@,
            public_key@,
        ),
{
    let digest = sha256_digest(message);
    Ok(signature.accepted_over(&digest, public_key))
}

/// A signature made by `sign_message` verifies for the message it was made
/// for, under the public key that belongs to the signing key.
pub proof fn lemma_signed_message_verifies(signature: Seq<u8>, secret: Seq<u8>, message: Seq<u8>)
    requires
        signed_by(signature, secret, message),
    ensures
        signature_verifies(signature, message, public_key_of(secret)),
{
}

/// Decoding the encoding of a signature gives the signature back: its
/// encoding is accepted, and a signature is determined by its encoding.
pub proof fn lemma_signature_round_trip(signature: Signature, decoded: Signature)
    requires
        signature.valid(),
        decoded@ == signature@,
    ensures
        is_compact_signature(signature@),
        decoded == signature,
{
    vstd::array::axiom_array_ext_equal(signature.bytes, decoded.bytes);
}

} // verus!
