//! Test cases of the stand-in server.

use crate::text::{str_equal, LabelError};
use vstd::prelude::*;
use vstd::string::StringExecFns;

verus! {

/// The verdict on a test case.
#[derive(Clone, Copy, Debug, PartialEq, Eq, Structural, PartialOrd, Ord)]
pub enum PassFail {
    Fail,
    Pass,
    Skip,
    Unknown,
}

impl PassFail {
    /// The text that stands for this verdict on the wire.
    pub open spec fn label(&self) -> Seq<char> {
        match self {
            PassFail::Fail => "fail"@,
            PassFail::Pass => "pass"@,
            PassFail::Skip => "skip"@,
            PassFail::Unknown => "unknown"@,
        }
    }

    /// Renders this verdict as the server spells it.
    pub fn to_string(&self) -> (text: String)
        ensures
            text@ == self.label(),
    {
        match self {
            PassFail::Fail => String::from_str("fail"),
            PassFail::Pass => String::from_str("pass"),
            PassFail::Skip => String::from_str("skip"),
            PassFail::Unknown => String::from_str("unknown"),
        }
    }

    /// Reads a verdict from the server's spelling, which must match exactly.
    pub fn from_str(text: &str) -> (parsed: Result<PassFail, LabelError>)
        ensures
            match parsed {
                Ok(value) => value.label() == text@,
                Err(_) => forall|value: PassFail| value.label() != text@,
            },
    {
        if str_equal(text, "fail") {
            Ok(PassFail::Fail)
        } else if str_equal(text, "pass") {
            Ok(PassFail::Pass)
        } else if str_equal(text, "skip") {
            Ok(PassFail::Skip)
        } else if str_equal(text, "unknown") {
            Ok(PassFail::Unknown)
        } else {
            Err(LabelError::VariantNotFound)
        }
    }
}

} // verus!
