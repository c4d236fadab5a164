//! Jobs of the stand-in server.

use crate::text::{str_equal, LabelError};
use vstd::prelude::*;
use vstd::string::StringExecFns;

verus! {

/// How a job ended.
#[derive(Clone, Copy, Debug, PartialEq, Eq, Structural)]
pub enum Health {
    Unknown,
    Complete,
    Incomplete,
    Canceled,
}

impl Health {
    /// The text that stands for this health on the wire.
    pub open spec fn label(&self) -> Seq<char> {
        match self {
            Health::Unknown => "Unknown"@,
            Health::Complete => "Complete"@,
            Health::Incomplete => "Incomplete"@,
            Health::Canceled => "Canceled"@,
        }
    }

    /// Renders this health as the server spells it.
    pub fn to_string(&self) -> (text: String)
        ensures
            text@ == self.label(),
    {
        match self {
            Health::Unknown => String::from_str("Unknown"),
            Health::Complete => String::from_str("Complete"),
            Health::Incomplete => String::from_str("Incomplete"),
            Health::Canceled => String::from_str("Canceled"),
        }
    }

    /// Reads a health from the server's spelling, which must match exactly.
    pub fn from_str(text: &str) -> (parsed: Result<Health, LabelError>)
        ensures
            match parsed {
                Ok(value) => value.label() == text@,
                Err(_) => forall|value: Health| value.label() != text@,
            },
    {
        if str_equal(text, "Unknown") {
            Ok(Health::Unknown)
        } else if str_equal(text, "Complete") {
            Ok(Health::Complete)
        } else if str_equal(text, "Incomplete") {
            Ok(Health::Incomplete)
        } else if str_equal(text, "Canceled") {
            Ok(Health::Canceled)
        } else {
            Err(LabelError::VariantNotFound)
        }
    }
}

/// How far a job has got.
#[derive(Clone, Copy, Debug, PartialEq, Eq, Structural)]
pub enum State {
    Submitted,
    Scheduling,
    Scheduled,
    Running,
    Canceling,
    Finished,
}

impl State {
    /// The text that stands for this state on the wire.
    pub open spec fn label(&self) -> Seq<char> {
        match self {
            State::Submitted => "Submitted"@,
            State::Scheduling => "Scheduling"@,
            State::Scheduled => "Scheduled"@,
            State::Running => "Running"@,
            State::Canceling => "Canceling"@,
            State::Finished => "Finished"@,
        }
    }

    /// Renders this state as the server spells it.
    pub fn to_string(&self) -> (text: String)
        ensures
            text@ == self.label(),
    {
        match self {
            State::Submitted => String::from_str("Submitted"),
            State::Scheduling => String::from_str("Scheduling"),
            State::Scheduled => String::from_str("Scheduled"),
            State::Running => String::from_str("Running"),
            State::Canceling => String::from_str("Canceling"),
            State::Finished => String::from_str("Finished"),
        }
    }

    /// Reads a state from the server's spelling, which must match exactly.
    pub fn from_str(text: &str) -> (parsed: Result<State, LabelError>)
        ensures
            match parsed {
                Ok(value) => value.label() == text@,
                Err(_) => forall|value: State| value.label() != text@,
            },
    {
        if str_equal(text, "Submitted") {
            Ok(State::Submitted)
        } else if str_equal(text, "Scheduling") {
            Ok(State::Scheduling)
        } else if str_equal(text, "Scheduled") {
            Ok(State::Scheduled)
        } else if str_equal(text, "Running") {
            Ok(State::Running)
        } else if str_equal(text, "Canceling") {
            Ok(State::Canceling)
        } else if str_equal(text, "Finished") {
            Ok(State::Finished)
        } else {
            Err(LabelError::VariantNotFound)
        }
    }
}

} // verus!
