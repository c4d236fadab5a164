//! Device types of the stand-in server.

use crate::text::{str_equal, LabelError};
use vstd::prelude::*;
use vstd::string::StringExecFns;

verus! {

/// The unit in which the interval between health checks is counted.
#[derive(Clone, Copy, Debug, PartialEq, Eq, Structural, PartialOrd, Ord)]
pub enum HealthDenominator {
    Hours,
    Jobs,
}

impl HealthDenominator {
    /// The text that stands for this unit on the wire.
    pub open spec fn label(&self) -> Seq<char> {
        match self {
            HealthDenominator::Hours => "hours"@,
            HealthDenominator::Jobs => "jobs"@,
        }
    }

    /// Renders this unit as the server spells it.
    pub fn to_string(&self) -> (text: String)
        ensures
            text@ == self.label(),
    {
        match self {
            HealthDenominator::Hours => String::from_str("hours"),
            HealthDenominator::Jobs => String::from_str("jobs"),
        }
    }

    /// Reads a unit from the server's spelling, which must match exactly.
    pub fn from_str(text: &str) -> (parsed: Result<HealthDenominator, LabelError>)
        ensures
            match parsed {
                Ok(value) => value.label() == text@,
                Err(_) => forall|value: HealthDenominator| value.label() != text@,
            },
    {
        if str_equal(text, "hours") {
            Ok(HealthDenominator::Hours)
        } else if str_equal(text, "jobs") {
            Ok(HealthDenominator::Jobs)
        } else {
            Err(LabelError::VariantNotFound)
        }
    }
}

} // verus!
