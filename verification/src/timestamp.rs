//! Instants, as the library carries them, and their text in query strings.

use vstd::prelude::*;

verus! {

/// An instant in UTC: whole seconds since the start of 1970, and the
/// nanoseconds into that second.
#[derive(Clone, Copy, Debug, PartialEq, Eq, Structural, PartialOrd, Ord, Hash)]
pub struct Timestamp {
    pub seconds: i64,
    pub nanoseconds: u32,
}

/// The text that `chrono::DateTime::to_rfc3339` gives for the instant that
/// `chrono::DateTime::from_timestamp` makes of the two numbers, or `None`
/// where chrono cannot hold such an instant.
pub uninterp spec fn rfc3339_text(seconds: int, nanoseconds: int) -> Option<Seq<char>>;

/// Builds the instant with `chrono::DateTime::from_timestamp` and renders
/// it with `chrono::DateTime::to_rfc3339`. The contract only gives the
/// result its name, [`rfc3339_text`].
#[verifier::external_body]
pub(crate) fn rfc3339(seconds: i64, nanoseconds: u32) -> (text: Option<String>)
    ensures
        match text {
            Some(rendered) => rfc3339_text(seconds as int, nanoseconds as int) == Some(rendered@),
            None => rfc3339_text(seconds as int, nanoseconds as int) is None,
        },
{
    match chrono::DateTime::from_timestamp(seconds, nanoseconds) {
        Some(instant) => Some(instant.to_rfc3339()),
        None => None,
    }
}

impl Timestamp {
    /// The text of this instant in a query string.
    pub open spec fn text(&self) -> Option<Seq<char>> {
        rfc3339_text(self.seconds as int, self.nanoseconds as int)
    }

    /// Renders this instant in the RFC 3339 form, which reads back as the
    /// same instant. `None` where the instant lies outside the calendar
    /// that can be written down.
    pub fn to_rfc3339(&self) -> (text: Option<String>)
        ensures
            match text {
                Some(rendered) => self.text() == Some(rendered@),
                None => self.text() is None,
            },
    {
        rfc3339(self.seconds, self.nanoseconds)
    }
}

} // verus!
