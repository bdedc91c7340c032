//! The actions that maintainers sign, and their canonical encoding.

use vstd::prelude::*;
use vstd::string::{StrSliceExecFns, StringExecFns};
use vstd::utf8::encode_utf8;
use crate::text::{decimal_text, push_decimal};

verus! {

/// A governance action that can be signed.  Two messages with the same
/// fields are the same message.
#[derive(Debug, PartialEq, Eq)]
pub enum GovernanceMessage {
    /// A release of the software at a commit.
    Release { version: String, commit_hash: String },
    /// The approval of a version of a module.
    ModuleApproval { module_name: String, version: String },
    /// A decision to spend an amount for a purpose.
    BudgetDecision { amount: u64, purpose: String },
}

impl Clone for GovernanceMessage {
    fn clone(&self) -> (copy: Self)
        ensures
            copy == *self,
    {
        match self {
            GovernanceMessage::Release { version, commit_hash } => GovernanceMessage::Release {
                version: version.clone(),
                commit_hash: commit_hash.clone(),
            },
            GovernanceMessage::ModuleApproval {
                module_name,
                version,
            } => GovernanceMessage::ModuleApproval {
                module_name: module_name.clone(),
                version: version.clone(),
            },
            GovernanceMessage::BudgetDecision { amount, purpose } => {
                GovernanceMessage::BudgetDecision { amount: *amount, purpose: purpose.clone() }
            },
        }
    }
}

impl GovernanceMessage {
    /// The canonical text: a tag and the fields in declared order, joined by
    /// colons.  Field values are taken as they are.
    pub open spec fn signing_text(&self) -> Seq<char> {
        match self {
            GovernanceMessage::Release { version, commit_hash } => "RELEASE:"@ + version@ + ":"@
                + commit_hash@,
            GovernanceMessage::ModuleApproval { module_name, version } => "MODULE:"@
                + module_name@ + ":"@ + version@,
            GovernanceMessage::BudgetDecision { amount, purpose } => "BUDGET:"@ + decimal_text(
                *amount as nat,
            ) + ":"@ + purpose@,
        }
    }

    /// The bytes that are signed: the canonical text in UTF-8.
    pub open spec fn signing_bytes(&self) -> Seq<u8> {
        encode_utf8(self.signing_text())
    }

    /// A sentence that describes the action to a reader.
    pub open spec fn description_text(&self) -> Seq<char> {
        match self {
            GovernanceMessage::Release { version, commit_hash } => "Release "@ + version@
                + " (commit: "@ + commit_hash@ + ")"@,
            GovernanceMessage::ModuleApproval { module_name, version } => "Approve module "@
                + module_name@ + " version "@ + version@,
            GovernanceMessage::BudgetDecision { amount, purpose } => "Budget decision: "@
                + decimal_text(*amount as nat) + " satoshis for "@ + purpose@,
        }
    }

    fn signing_string(&self) -> (text: String)
        ensures
            text@ == self.signing_text(),
    {
        match self {
            GovernanceMessage::Release { version, commit_hash } => {
                let mut text = "RELEASE:".to_owned();
                text.append(version.as_str());
                text.append(":");
                text.append(commit_hash.as_str());
                text
            },
            GovernanceMessage::ModuleApproval { module_name, version } => {
                let mut text = "MODULE:".to_owned();
                text.append(module_name.as_str());
                text.append(":");
                text.append(version.as_str());
                text
            },
            GovernanceMessage::BudgetDecision { amount, purpose } => {
                let mut text = "BUDGET:".to_owned();
                push_decimal(&mut text, *amount);
                text.append(":");
                text.append(purpose.as_str());
                text
            },
        }
    }

    /// The canonical bytes to sign.
    pub fn to_signing_bytes(&self) -> (bytes: Vec<u8>)
        ensures
            bytes@ == self.signing_bytes(),
    {
        self.signing_string().as_str().as_bytes_vec()
    }

    /// A sentence that describes the action to a reader.
    pub fn description(&self) -> (text: String)
        ensures
            text@ == self.description_text(),
    {
        match self {
            GovernanceMessage::Release { version, commit_hash } => {
                let mut text = "Release ".to_owned();
                text.append(version.as_str());
                text.append(" (commit: ");
                text.append(commit_hash.as_str());
                text.append(")");
                text
            },
            GovernanceMessage::ModuleApproval { module_name, version } => {
                let mut text = "Approve module ".to_owned();
                text.append(module_name.as_str());
                text.append(" version ");
                text.append(version.as_str());
                text
            },
            GovernanceMessage::BudgetDecision { amount, purpose } => {
                let mut text = "Budget decision: ".to_owned();
                push_decimal(&mut text, *amount);
                text.append(" satoshis for ");
                text.append(purpose.as_str());
                text
            },
        }
    }

    /// The description, as the message displays.
    pub fn to_string(&self) -> (text: String)
        ensures
            text@ == self.description_text(),
    {
        self.description()
    }
}

} // verus!
