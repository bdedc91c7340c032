//! Secret keys, public keys and keypairs.

use vstd::prelude::*;
use vstd::string::StringExecFns;
use vstd::std_specs::cmp::PartialEqSpecImpl;
use crate::governance::curve::{
    check_public_key, check_secret_key, curve_error_text, derive_public_key, fresh_secret_key,
    has_compressed_form, is_point_encoding, is_secret_key, public_key_of, uncompressed_encoding,
    uncompressed_public_key,
};
use crate::governance::error::{GovernanceError, GovernanceResult};
use crate::hexadecimal::{hex_encode, hex_text};

verus! {

/// A secret scalar of the curve, held as its 32 bytes.  `Debug` prints the
/// bytes.
#[derive(Debug, Clone, Copy)]
pub struct SecretKey {
    bytes: [u8; 32],
}

/// A public point of the curve, held in its 33-byte compressed encoding.
#[derive(Debug, Clone, Copy, Eq, Hash)]
pub struct PublicKey {
    bytes: [u8; 33],
}

/// A secret key together with the public key that belongs to it.
#[derive(Debug, Clone, Copy)]
pub struct GovernanceKeypair {
    pub secret_key: SecretKey,
    pub public_key: PublicKey,
}

/// Whether a byte string is the compressed encoding of a curve point: 33
/// bytes that begin with 2 or 3 and encode a point.
pub open spec fn is_public_key(bytes: Seq<u8>) -> bool {
    has_compressed_form(bytes) && is_point_encoding(bytes)
}

/// Copies the first `N` bytes of a slice into an array.
pub(crate) fn array_from_slice<const N: usize>(bytes: &[u8]) -> (out: [u8; N])
    requires
        bytes@.len() == N,
    ensures
        out@ == bytes@,
{
    let mut out: [u8; N] = vstd::array::array_fill_for_copy_types(0u8);
    let mut i: usize = 0;
    while i < N
        invariant
            i <= N,
            bytes@.len() == N,
            out@.len() == N,
            forall|j: int| 0 <= j < i ==> out@[j] == bytes@[j],
        decreases N - i,
    {
        out[i] = bytes[i];
        i += 1;
    }
    assert(out@ =~= bytes@);
    out
}

impl View for SecretKey {
    type V = Seq<u8>;

    closed spec fn view(&self) -> Seq<u8> {
        self.bytes@
    }
}

impl SecretKey {
    #[verifier::type_invariant]
    spec fn well_formed(&self) -> bool {
        is_secret_key(self.bytes@)
    }

    /// Every secret key that exists at run time satisfies this.
    pub open spec fn valid(&self) -> bool {
        is_secret_key(self@)
    }

    /// Reads a secret key from its 32 bytes.
    pub fn from_slice(bytes: &[u8]) -> (r: GovernanceResult<SecretKey>)
        ensures
            r is Ok <==> is_secret_key(bytes@),
            r matches Ok(key) ==> key@ == bytes@ && key.valid(),
            r matches Err(e) ==> e is InvalidKey,
    {
        match check_secret_key(bytes) {
            Ok(()) => Ok(SecretKey { bytes: array_from_slice(bytes) }),
            Err(error) => {
                let mut text = "Invalid secret key: ".to_owned();
                text.append(curve_error_text(&error).as_str());
                Err(GovernanceError::InvalidKey(text))
            },
        }
    }

    /// The 32 bytes of the key.
    pub fn secret_bytes(&self) -> (bytes: [u8; 32])
        ensures
            bytes@ == self@,
            is_secret_key(bytes@),
    {
        proof {
            use_type_invariant(self);
        }
        self.bytes
    }

    /// The public key that belongs to this secret key.
    pub fn public_key(&self) -> (public: PublicKey)
        ensures
            public@ == public_key_of(self@),
            public.valid(),
    {
        proof {
            use_type_invariant(self);
        }
        PublicKey { bytes: derive_public_key(&self.bytes) }
    }
}

impl View for PublicKey {
    type V = Seq<u8>;

    closed spec fn view(&self) -> Seq<u8> {
        self.bytes@
    }
}

impl PartialEq for PublicKey {
    fn eq(&self, other: &Self) -> (r: bool) {
        let mut i: usize = 0;
        while i < 33
            invariant
                i <= 33,
                forall|j: int| 0 <= j < i ==> self.bytes@[j] == other.bytes@[j],
            decreases 33 - i,
        {
            if self.bytes[i] != other.bytes[i] {
                return false;
            }
            i += 1;
        }
        assert(self.bytes@ =~= other.bytes@);
        true
    }
}

impl PartialEqSpecImpl for PublicKey {
    open spec fn obeys_eq_spec() -> bool {
        true
    }

    open spec fn eq_spec(&self, other: &Self) -> bool {
        self@ == other@
    }
}

impl PublicKey {
    #[verifier::type_invariant]
    spec fn well_formed(&self) -> bool {
        is_public_key(self.bytes@)
    }

    /// Every public key that exists at run time satisfies this.
    pub open spec fn valid(&self) -> bool {
        is_public_key(self@)
    }

    /// Reads a public key from its compressed encoding.
    pub fn from_bytes(bytes: &[u8]) -> (r: GovernanceResult<PublicKey>)
        ensures
            r is Ok <==> is_public_key(bytes@),
            r matches Ok(key) ==> key@ == bytes@ && key.valid(),
            r matches Err(e) ==> e is InvalidKey,
    {
        if bytes.len() != 33 {
            return Err(GovernanceError::InvalidKey(
                "Invalid public key: malformed public key".to_owned(),
            ));
        }
        match check_public_key(bytes) {
            Ok(()) => Ok(PublicKey { bytes: array_from_slice(bytes) }),
            Err(error) => {
                let mut text = "Invalid public key: ".to_owned();
                text.append(curve_error_text(&error).as_str());
                Err(GovernanceError::InvalidKey(text))
            },
        }
    }

    /// The compressed encoding.
    pub fn to_bytes(&self) -> (bytes: [u8; 33])
        ensures
            bytes@ == self@,
            is_public_key(bytes@),
    {
        proof {
            use_type_invariant(self);
        }
        self.bytes
    }

    /// The compressed encoding.
    pub fn to_compressed_bytes(&self) -> (bytes: [u8; 33])
        ensures
            bytes@ == self@,
            is_public_key(bytes@),
    {
        self.to_bytes()
    }

    /// The uncompressed encoding, for display and export.
    pub fn to_uncompressed_bytes(&self) -> (bytes: [u8; 65])
        ensures
            bytes@ == uncompressed_encoding(self@),
            bytes@[0] == 4,
    {
        proof {
            use_type_invariant(self);
        }
        uncompressed_public_key(&self.bytes)
    }

    /// The compressed encoding in lower-case hexadecimal.
    pub fn to_string(&self) -> (text: String)
        ensures
            text@ == hex_text(self@),
    {
        hex_encode(self.bytes.as_slice())
    }
}

/// Decoding the encoding of a public key gives the key back: its encoding is
/// accepted, and a key is determined by its encoding.
pub proof fn lemma_public_key_round_trip(key: PublicKey, decoded: PublicKey)
    requires
        key.valid(),
        decoded@ == key@,
    ensures
        is_public_key(key@),
        decoded == key,
{
    vstd::array::axiom_array_ext_equal(key.bytes, decoded.bytes);
}

impl GovernanceKeypair {
    /// The public key is the one that belongs to the secret key.
    pub open spec fn consistent(&self) -> bool {
        &&& self.secret_key.valid()
        &&& self.public_key.valid()
        &&& self.public_key@ == public_key_of(self.secret_key@)
    }

    /// Draws a new secret key from the operating system's random source.  A
    /// source that fails is fatal: the call does not return.
    pub fn generate() -> (r: GovernanceResult<GovernanceKeypair>)
        ensures
            r matches Ok(pair) && pair.consistent(),
    {
        let drawn = fresh_secret_key();
        GovernanceKeypair::from_secret_key(drawn.as_slice())
    }

    /// Builds the keypair of a secret key given as 32 bytes.
    pub fn from_secret_key(secret_bytes: &[u8]) -> (r: GovernanceResult<GovernanceKeypair>)
        ensures
            r is Ok <==> is_secret_key(secret_bytes@),
            r matches Ok(pair) ==> pair.consistent() && pair.secret_key@ == secret_bytes@,
            r matches Err(e) ==> e is InvalidKey,
    {
        match SecretKey::from_slice(secret_bytes) {
            Ok(secret_key) => {
                let public_key = secret_key.public_key();
                Ok(GovernanceKeypair { secret_key, public_key })
            },
            Err(error) => Err(error),
        }
    }

    /// The public half.
    pub fn public_key(&self) -> (public: PublicKey)
        ensures
            public == self.public_key,
    {
        self.public_key
    }

    /// The 32 bytes of the secret half.
    pub fn secret_key_bytes(&self) -> (bytes: [u8; 32])
        ensures
            bytes@ == self.secret_key@,
    {
        self.secret_key.secret_bytes()
    }

    /// The compressed encoding of the public half.
    pub fn public_key_bytes(&self) -> (bytes: [u8; 33])
        ensures
            bytes@ == self.public_key@,
    {
        self.public_key.to_bytes()
    }

    /// The keypair as it displays: by its public key, never by its secret.
    pub fn to_string(&self) -> (text: String)
        ensures
            text@ == "GovernanceKeypair(pubkey: "@ + hex_text(self.public_key@) + ")"@,
    {
        let mut text = "GovernanceKeypair(pubkey: ".to_owned();
        text.append(self.public_key.to_string().as_str());
        text.append(")");
        text
    }
}

} // verus!
