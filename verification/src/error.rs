//! The errors of the queue engine.

use crate::json::json_error_text;
use vstd::prelude::*;
use vstd::string::StringExecFns;

verus! {

/// Why an operation of the engine failed. Failures of the store itself never pass through the
/// engine: whoever talks to the store reports them.
#[derive(Debug)]
pub enum FdbError {
    /// A stored value, or a value to store, is not the JSON that the engine expects.
    Serialization(serde_json::Error),
    /// Anything else: a key handle that is not base64, an answer that the engine did not ask
    /// for, a clock before 1970.
    Other(String),
}

/// The kind of a failure, which is all that the contracts say of one.
pub enum Failure {
    Serialization,
    Other,
}

impl FdbError {
    /// The kind of the failure.
    pub open spec fn kind(&self) -> Failure {
        match self {
            FdbError::Serialization(_) => Failure::Serialization,
            FdbError::Other(_) => Failure::Other,
        }
    }

    /// A failure of the other kind, with its reason.
    pub fn other(reason: &str) -> (e: FdbError)
        ensures
            e matches FdbError::Other(text) && text@ == reason@,
            e.kind() == Failure::Other,
    {
        FdbError::Other(reason.to_owned())
    }

    /// The error as a line of text: its kind, and what it or `serde_json` says of it.
    pub fn message(&self) -> (line: String)
        ensures
            match self {
                FdbError::Serialization(_) => exists|text: Seq<char>|
                    line@ == "Serialization error: "@ + text,
                FdbError::Other(reason) => line@ == "Other error: "@ + reason@,
            },
    {
        match self {
            FdbError::Serialization(e) => {
                let text = json_error_text(e);
                let mut line = "Serialization error: ".to_owned();
                line.append(text.as_str());
                assert(line@ == "Serialization error: "@ + text@);
                line
            },
            FdbError::Other(reason) => {
                let mut line = "Other error: ".to_owned();
                line.append(reason.as_str());
                line
            },
        }
    }
}

} // verus!
