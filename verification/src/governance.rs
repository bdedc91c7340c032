//! Keys, signatures and threshold policies for governance decisions.

pub mod curve;
pub mod error;
pub mod keys;
pub mod messages;
pub mod multisig;
pub mod nested_multisig;
pub mod signatures;
pub mod verification;

pub use error::{GovernanceError, GovernanceResult};
pub use keys::{GovernanceKeypair, PublicKey, SecretKey};
pub use messages::GovernanceMessage;
pub use multisig::Multisig;
pub use nested_multisig::{
    NestedMultisig, NestedMultisigResult, Team, TeamApprovalStatus, TeamMaintainer,
};
pub use signatures::{sign_message, Signature};
pub use verification::{
    verify_multiple_signatures, verify_signature, verify_signature_hash, verify_signature_with_key,
};
