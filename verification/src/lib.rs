//! Governance signing primitives for a project run by its maintainers.
//!
//! A fixed set of maintainers authorizes releases, module approvals and
//! budget decisions by signing a canonical encoding of the decision; anyone
//! can check that enough of them did.
//!
//! * [`governance::messages`]: the decisions and their canonical bytes.
//! * [`governance::keys`] and [`governance::signatures`]: secp256k1 keys and
//!   ECDSA signatures over SHA-256 digests.
//! * [`governance::multisig`]: N-of-M threshold policies.
//! * [`governance::nested_multisig`]: thresholds of teams, each with a
//!   threshold of its own maintainers.
//! * [`cli`]: what the command-line tools read, compute and print.
//!
//! The curve arithmetic, the digest and a few encodings are done by other
//! crates.  [`governance::curve`] lists what is relied on of them; the rest
//! is proved.

pub mod cli;
pub mod governance;
pub mod hexadecimal;
pub mod text;

pub use governance::signatures::sign_message;
pub use governance::verification::verify_signature;
