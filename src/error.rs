//! The errors that decoding and retrieval report.

use vstd::prelude::*;
use vstd::string::*;

verus! {

/// Why a report could not be produced.
#[derive(Debug)]
pub enum Error {
    /// The line does not follow the report grammar, or a station code is refused.
    Invalid(String),
    /// No report exists for the station.
    NotFound(String),
    /// A field's raw text breaks that field's encoding: the field's name, then the text.
    Field(String, String),
    /// The report could not be retrieved.
    Fetch(String),
}

/// `e` reports that the raw text `raw` of the field named `field` is malformed.
pub open spec fn is_field_error(e: Error, field: Seq<char>, raw: Seq<char>) -> bool {
    &&& e is Field
    &&& e->Field_0@ == field
    &&& e->Field_1@ == raw
}

/// The error for the raw text `raw` of the field named `field`.
pub fn field_error(field: &str, raw: &str) -> (r: Error)
    ensures
        is_field_error(r, field@, raw@),
{
    Error::Field(String::from_str(field), String::from_str(raw))
}

/// The text shown for each kind of error.
pub open spec fn message_of(e: Error) -> Seq<char> {
    match e {
        Error::Invalid(m) => m@,
        Error::NotFound(m) => m@,
        Error::Field(f, raw) => "invalid "@ + f@ + ": "@ + raw@,
        Error::Fetch(m) => m@,
    }
}

impl Error {
    /// A readable description of the error.
    pub fn message(&self) -> (r: String)
        ensures
            r@ == message_of(*self),
    {
        match self {
            Error::Invalid(m) => m.clone(),
            Error::NotFound(m) => m.clone(),
            Error::Field(f, raw) => {
                let mut s = String::from_str("invalid ");
                s.append(f.as_str());
                s.append(": ");
                s.append(raw.as_str());
                s
            },
            Error::Fetch(m) => m.clone(),
        }
    }
}

} // verus!
