//! Checking signatures against one key or a set of keys.

use vstd::prelude::*;
use vstd::string::StringExecFns;
use crate::governance::curve::{
    check_digest, curve_error_text, ecdsa_accepts, sha256, sha256_digest,
};
use crate::governance::error::{GovernanceError, GovernanceResult};
use crate::governance::keys::{array_from_slice, PublicKey};
use crate::governance::signatures::{signature_verifies, Signature};

verus! {

/// Whether `signature` verifies for `message` under at least one of `keys`.
pub open spec fn verifies_under_any(signature: Signature, message: Seq<u8>, keys: Seq<PublicKey>) -> bool {
    exists|j: int| 0 <= j < keys.len() && signature_verifies(signature@, message, #[trigger] keys[j]@)
}

/// Checks a signature against the SHA-256 digest of `message`.
pub fn verify_signature(signature: &Signature, message: &[u8], public_key: &PublicKey) -> (r:
    GovernanceResult<bool>)
    ensures
        r matches Ok(verified) && verified == signature_verifies(
            signature@,
            message@,
            public_key@,
        ),
{
    crate::governance::signatures::verify_signature(signature, message, public_key)
}

/// Checks a signature against a digest that the caller has computed.  The
/// digest must have 32 bytes; any other length is a `Cryptographic` error.
pub fn verify_signature_hash(signature: &Signature, message_hash: &[u8], public_key: &PublicKey) -> (r:
    GovernanceResult<bool>)
    ensures
        r is Ok <==> message_hash@.len() == 32,
        r matches Ok(verified) ==> verified == ecdsa_accepts(
            signature@,
            message_hash@,
            public_key@,
        ),
        r matches Err(e) ==> e is Cryptographic,
{
    match check_digest(message_hash) {
        Ok(()) => {
            let digest: [u8; 32] = array_from_slice(message_hash);
            Ok(signature.accepted_over(&digest, public_key))
        },
        Err(error) => {
            let mut text = "Invalid message hash: ".to_owned();
            text.append(curve_error_text(&error).as_str());
            Err(GovernanceError::Cryptographic(text))
        },
    }
}

/// For each signature, in order, whether it verifies for `message` under at
/// least one of `public_keys`.
pub fn verify_multiple_signatures(
    signatures: &[Signature],
    message: &[u8],
    public_keys: &[PublicKey],
) -> (r: GovernanceResult<Vec<bool>>)
    ensures
        r matches Ok(results) && results@.len() == signatures@.len() && forall|i: int|
            0 <= i < signatures@.len() ==> results@[i] == verifies_under_any(
                #[trigger] signatures@[i],
                message@,
                public_keys@,
            ),
{
    let digest = sha256_digest(message);
    let mut results: Vec<bool> = Vec::new();
    let mut i: usize = 0;
    while i < signatures.len()
        invariant
            i <= signatures@.len(),
            digest@ == sha256(message@),
            results@.len() == i,
            forall|k: int|
                0 <= k < i ==> results@[k] == verifies_under_any(
                    #[trigger] signatures@[k],
                    message@,
                    public_keys@,
                ),
        decreases signatures@.len() - i,
    {
        let mut verified = false;
        let mut j: usize = 0;
        while j < public_keys.len() && !verified
            invariant
                j <= public_keys@.len(),
                i < signatures@.len(),
                digest@ == sha256(message@),
                verified ==> verifies_under_any(signatures@[i as int], message@, public_keys@),
                !verified ==> forall|k: int|
                    0 <= k < j ==> !signature_verifies(
                        signatures@[i as int]@,
                        message@,
                        #[trigger] public_keys@[k]@,
                    ),
            decreases public_keys@.len() - j,
        {
            if signatures[i].accepted_over(&digest, &public_keys[j]) {
                verified = true;
            }
            j += 1;
        }
        results.push(verified);
        i += 1;
    }
    Ok(results)
}

/// Checks a signature against one given key.
pub fn verify_signature_with_key(signature: &Signature, message: &[u8], public_key: &PublicKey) -> (r:
    GovernanceResult<bool>)
    ensures
        r matches Ok(verified) && verified == signature_verifies(
            signature@,
            message@,
            public_key@,
        ),
{
    verify_signature(signature, message, public_key)
}

} // verus!
