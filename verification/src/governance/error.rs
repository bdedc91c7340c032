//! Errors of the governance layer.

use vstd::prelude::*;
use vstd::string::StringExecFns;
use crate::text::{decimal_text, push_decimal};

verus! {

/// What can go wrong when building or checking governance material.
#[derive(Debug)]
pub enum GovernanceError {
    /// Key bytes are malformed or out of range.
    InvalidKey(String),
    /// A signature could not be checked.
    SignatureVerification(String),
    /// A key list does not fit the policy it was given for.
    InvalidMultisig(String),
    /// A message could not be encoded or decoded.
    MessageFormat(String),
    /// A digest could not be formed or signed.
    Cryptographic(String),
    /// A value could not be serialized.
    Serialization(String),
    /// A threshold is zero or larger than the number it is taken from.
    InvalidThreshold { threshold: usize, total: usize },
    /// Fewer signatures were handed in than the threshold asks for.
    InsufficientSignatures { got: usize, need: usize },
    /// Signature bytes are malformed.
    InvalidSignatureFormat(String),
}

pub type GovernanceResult<T> = Result<T, GovernanceError>;

fn with_detail(heading: &str, detail: &String) -> (text: String)
    ensures
        text@ == heading@ + detail@,
{
    let mut text = heading.to_owned();
    text.append(detail.as_str());
    text
}

impl GovernanceError {
    /// The sentence that tells a reader of the error.
    pub open spec fn text(&self) -> Seq<char> {
        match self {
            GovernanceError::InvalidKey(detail) => "Invalid key: "@ + detail@,
            GovernanceError::SignatureVerification(detail) => "Signature verification failed: "@
                + detail@,
            GovernanceError::InvalidMultisig(detail) => "Invalid multisig configuration: "@
                + detail@,
            GovernanceError::MessageFormat(detail) => "Invalid message format: "@ + detail@,
            GovernanceError::Cryptographic(detail) => "Cryptographic error: "@ + detail@,
            GovernanceError::Serialization(detail) => "Serialization error: "@ + detail@,
            GovernanceError::InvalidThreshold { threshold, total } => "Invalid threshold: "@
                + decimal_text(*threshold as nat) + " of "@ + decimal_text(*total as nat),
            GovernanceError::InsufficientSignatures { got, need } => "Insufficient signatures: got "@
                + decimal_text(*got as nat) + ", need "@ + decimal_text(*need as nat),
            GovernanceError::InvalidSignatureFormat(detail) => "Invalid signature format: "@
                + detail@,
        }
    }

    /// The sentence that tells a reader of the error.
    pub fn to_string(&self) -> (text: String)
        ensures
            text@ == self.text(),
    {
        match self {
            GovernanceError::InvalidKey(detail) => with_detail("Invalid key: ", detail),
            GovernanceError::SignatureVerification(detail) => with_detail(
                "Signature verification failed: ",
                detail,
            ),
            GovernanceError::InvalidMultisig(detail) => with_detail(
                "Invalid multisig configuration: ",
                detail,
            ),
            GovernanceError::MessageFormat(detail) => with_detail(
                "Invalid message format: ",
                detail,
            ),
            GovernanceError::Cryptographic(detail) => with_detail("Cryptographic error: ", detail),
            GovernanceError::Serialization(detail) => with_detail("Serialization error: ", detail),
            GovernanceError::InvalidThreshold { threshold, total } => {
                let mut text = "Invalid threshold: ".to_owned();
                push_decimal(&mut text, *threshold as u64);
                text.append(" of ");
                push_decimal(&mut text, *total as u64);
                text
            },
            GovernanceError::InsufficientSignatures { got, need } => {
                let mut text = "Insufficient signatures: got ".to_owned();
                push_decimal(&mut text, *got as u64);
                text.append(", need ");
                push_decimal(&mut text, *need as u64);
                text
            },
            GovernanceError::InvalidSignatureFormat(detail) => with_detail(
                "Invalid signature format: ",
                detail,
            ),
        }
    }
}

} // verus!
