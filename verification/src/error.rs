//! One error type for the engine, and the rule that every failure names the
//! thing that failed rather than the layer that noticed.

use crate::capability::{capability_phrase, Capability};
use crate::config::{tier_label, TrustTier};
use crate::text::push_text;
use vstd::prelude::*;

verus! {

/// Everything that can go wrong, each naming what failed.
///
/// Causes that come from outside the library (an I/O error, a JSON error)
/// are carried as their message.
#[derive(Debug)]
pub enum Error {
    NoProject(String),
    Io { path: String, reason: String },
    Config(String),
    /// A finding was constructed citing no evidence. This is the grounding
    /// invariant and it is a bug in the caller, never a model failure.
    Ungrounded(String),
    /// A finding cited an evidence id the store never issued: the airlock
    /// rejecting a claim.
    UnknownEvidence { finding: String, evidence: String },
    ToolUnavailable { tool: String, reason: String },
    TierTooLow { action: String, required: TrustTier, current: TrustTier },
    Unsupported(Capability),
    Cancelled,
    Serialization { context: String, reason: String },
    Other(String),
}

/// The result of anything that can fail.
pub type Result<T> = std::result::Result<T, Error>;

/// What an error says, naming the thing that failed.
pub open spec fn error_message(e: Error) -> Seq<char> {
    match e {
        Error::NoProject(path) => "no cargo project at "@ + path@,
        Error::Io { path, reason } => path@ + " is not readable: "@ + reason@,
        Error::Config(message) => message@,
        Error::Ungrounded(finding) => "finding `"@ + finding@ + "` cites no evidence"@,
        Error::UnknownEvidence { finding, evidence } => "finding `"@ + finding@ + "` cites evidence `"@
            + evidence@ + "`, which was never issued"@,
        Error::ToolUnavailable { tool, reason } => "`"@ + tool@ + "` is not available: "@ + reason@,
        Error::TierTooLow { action, required, current } => action@ + " requires trust tier "@
            + tier_label(required) + "; the session is at "@ + tier_label(current),
        Error::Unsupported(c) => "the target does not support "@ + capability_phrase(c),
        Error::Cancelled => "cancelled"@,
        Error::Serialization { context, reason } => context@ + ": "@ + reason@,
        Error::Other(message) => message@,
    }
}

impl Error {
    /// An I/O failure on `path`.
    pub fn io(path: String, reason: String) -> (e: Error)
        ensures
            e == (Error::Io { path, reason }),
    {
        Error::Io { path, reason }
    }

    /// A failure to read or write structured data, in `context`.
    pub fn serialization(context: String, reason: String) -> (e: Error)
        ensures
            e == (Error::Serialization { context, reason }),
    {
        Error::Serialization { context, reason }
    }

    /// The message, naming the thing that failed.
    pub fn to_string(&self) -> (s: String)
        ensures
            s@ == error_message(*self),
    {
        let mut s = String::new();
        match self {
            Error::NoProject(path) => {
                push_text(&mut s, "no cargo project at ");
                push_text(&mut s, path.as_str());
            },
            Error::Io { path, reason } => {
                push_text(&mut s, path.as_str());
                push_text(&mut s, " is not readable: ");
                push_text(&mut s, reason.as_str());
            },
            Error::Config(message) => {
                push_text(&mut s, message.as_str());
            },
            Error::Ungrounded(finding) => {
                push_text(&mut s, "finding `");
                push_text(&mut s, finding.as_str());
                push_text(&mut s, "` cites no evidence");
            },
            Error::UnknownEvidence { finding, evidence } => {
                push_text(&mut s, "finding `");
                push_text(&mut s, finding.as_str());
                push_text(&mut s, "` cites evidence `");
                push_text(&mut s, evidence.as_str());
                push_text(&mut s, "`, which was never issued");
            },
            Error::ToolUnavailable { tool, reason } => {
                push_text(&mut s, "`");
                push_text(&mut s, tool.as_str());
                push_text(&mut s, "` is not available: ");
                push_text(&mut s, reason.as_str());
            },
            Error::TierTooLow { action, required, current } => {
                push_text(&mut s, action.as_str());
                push_text(&mut s, " requires trust tier ");
                push_text(&mut s, required.label());
                push_text(&mut s, "; the session is at ");
                push_text(&mut s, current.label());
            },
            Error::Unsupported(c) => {
                push_text(&mut s, "the target does not support ");
                push_text(&mut s, c.describe());
            },
            Error::Cancelled => {
                push_text(&mut s, "cancelled");
            },
            Error::Serialization { context, reason } => {
                push_text(&mut s, context.as_str());
                push_text(&mut s, ": ");
                push_text(&mut s, reason.as_str());
            },
            Error::Other(message) => {
                push_text(&mut s, message.as_str());
            },
        }
        assert(s@ =~= error_message(*self));
        s
    }
}

} // verus!
