//! Workers of the stand-in server.

use crate::text::{str_equal, LabelError};
use vstd::prelude::*;
use vstd::string::StringExecFns;

verus! {

/// Whether a worker is in service.
#[derive(Clone, Copy, Debug, PartialEq, Eq, Structural, PartialOrd, Ord)]
pub enum Health {
    Active,
    Maintenance,
    Retired,
}

impl Health {
    /// The text that stands for this health on the wire.
    pub open spec fn label(&self) -> Seq<char> {
        match self {
            Health::Active => "Active"@,
            Health::Maintenance => "Maintenance"@,
            Health::Retired => "Retired"@,
        }
    }

    /// Renders this health as the server spells it.
    pub fn to_string(&self) -> (text: String)
        ensures
            text@ == self.label(),
    {
        match self {
            Health::Active => String::from_str("Active"),
            Health::Maintenance => String::from_str("Maintenance"),
            Health::Retired => String::from_str("Retired"),
        }
    }

    /// Reads a health from the server's spelling, which must match exactly.
    pub fn from_str(text: &str) -> (parsed: Result<Health, LabelError>)
        ensures
            match parsed {
                Ok(value) => value.label() == text@,
                Err(_) => forall|value: Health| value.label() != text@,
            },
    {
        if str_equal(text, "Active") {
            Ok(Health::Active)
        } else if str_equal(text, "Maintenance") {
            Ok(Health::Maintenance)
        } else if str_equal(text, "Retired") {
            Ok(Health::Retired)
        } else {
            Err(LabelError::VariantNotFound)
        }
    }
}

/// Whether a worker is reachable.
#[derive(Clone, Copy, Debug, PartialEq, Eq, Structural, PartialOrd, Ord)]
pub enum State {
    Online,
    Offline,
}

impl State {
    /// The text that stands for this state on the wire.
    pub open spec fn label(&self) -> Seq<char> {
        match self {
            State::Online => "Online"@,
            State::Offline => "Offline"@,
        }
    }

    /// Renders this state as the server spells it.
    pub fn to_string(&self) -> (text: String)
        ensures
            text@ == self.label(),
    {
        match self {
            State::Online => String::from_str("Online"),
            State::Offline => String::from_str("Offline"),
        }
    }

    /// Reads a state from the server's spelling, which must match exactly.
    pub fn from_str(text: &str) -> (parsed: Result<State, LabelError>)
        ensures
            match parsed {
                Ok(value) => value.label() == text@,
                Err(_) => forall|value: State| value.label() != text@,
            },
    {
        if str_equal(text, "Online") {
            Ok(State::Online)
        } else if str_equal(text, "Offline") {
            Ok(State::Offline)
        } else {
            Err(LabelError::VariantNotFound)
        }
    }
}

} // verus!
