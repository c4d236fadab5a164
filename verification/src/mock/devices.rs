//! Devices of the stand-in server.

use crate::text::{str_equal, LabelError};
use vstd::prelude::*;
use vstd::string::StringExecFns;

verus! {

/// The condition of a device.
#[derive(Clone, Copy, Debug, PartialEq, Eq, Structural, PartialOrd, Ord)]
pub enum Health {
    Unknown,
    Maintenance,
    Good,
    Bad,
    Looping,
    Retired,
}

impl Health {
    /// The text that stands for this health on the wire.
    pub open spec fn label(&self) -> Seq<char> {
        match self {
            Health::Unknown => "Unknown"@,
            Health::Maintenance => "Maintenance"@,
            Health::Good => "Good"@,
            Health::Bad => "Bad"@,
            Health::Looping => "Looping"@,
            Health::Retired => "Retired"@,
        }
    }

    /// Renders this health as the server spells it.
    pub fn to_string(&self) -> (text: String)
        ensures
            text@ == self.label(),
    {
        match self {
            Health::Unknown => String::from_str("Unknown"),
            Health::Maintenance => String::from_str("Maintenance"),
            Health::Good => String::from_str("Good"),
            Health::Bad => String::from_str("Bad"),
            Health::Looping => String::from_str("Looping"),
            Health::Retired => String::from_str("Retired"),
        }
    }

    /// Reads a health from the server's spelling, which must match exactly.
    pub fn from_str(text: &str) -> (parsed: Result<Health, LabelError>)
        ensures
            match parsed {
                Ok(value) => value.label() == text@,
                Err(_) => forall|value: Health| value.label() != text@,
            },
    {
        if str_equal(text, "Unknown") {
            Ok(Health::Unknown)
        } else if str_equal(text, "Maintenance") {
            Ok(Health::Maintenance)
        } else if str_equal(text, "Good") {
            Ok(Health::Good)
        } else if str_equal(text, "Bad") {
            Ok(Health::Bad)
        } else if str_equal(text, "Looping") {
            Ok(Health::Looping)
        } else if str_equal(text, "Retired") {
            Ok(Health::Retired)
        } else {
            Err(LabelError::VariantNotFound)
        }
    }
}

/// What a device is doing.
#[derive(Clone, Copy, Debug, PartialEq, Eq, Structural, PartialOrd, Ord)]
pub enum State {
    Idle,
    Reserved,
    Running,
}

impl State {
    /// The text that stands for this state on the wire.
    pub open spec fn label(&self) -> Seq<char> {
        match self {
            State::Idle => "Idle"@,
            State::Reserved => "Reserved"@,
            State::Running => "Running"@,
        }
    }

    /// Renders this state as the server spells it.
    pub fn to_string(&self) -> (text: String)
        ensures
            text@ == self.label(),
    {
        match self {
            State::Idle => String::from_str("Idle"),
            State::Reserved => String::from_str("Reserved"),
            State::Running => String::from_str("Running"),
        }
    }

    /// Reads a state from the server's spelling, which must match exactly.
    pub fn from_str(text: &str) -> (parsed: Result<State, LabelError>)
        ensures
            match parsed {
                Ok(value) => value.label() == text@,
                Err(_) => forall|value: State| value.label() != text@,
            },
    {
        if str_equal(text, "Idle") {
            Ok(State::Idle)
        } else if str_equal(text, "Reserved") {
            Ok(State::Reserved)
        } else if str_equal(text, "Running") {
            Ok(State::Running)
        } else {
            Err(LabelError::VariantNotFound)
        }
    }
}

} // verus!
