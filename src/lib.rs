//! Decoding of U.S. routine aviation weather reports (METAR) into typed records.
//!
//! A report line is split into words and matched against the report grammar
//! ([`report`]); each field is then decoded by its own decoder ([`fields`]).
//! Both are verified against specification functions over the line's
//! characters, and [`laws`] proves properties that hold of every decode.

pub mod clock;
pub mod error;
pub mod fields;
pub mod laws;
pub mod report;
pub mod station;
pub mod text;

pub use error::Error;
pub use fields::{ObservationTime, StationType, Wind};
pub use report::ParsedMetar;
pub use station::Metar;
