//! Reads opaque strings (numbers, hex digits, UUIDs, ULIDs) as possible
//! date-times under a catalogue of timestamp conventions.

pub mod bank;
pub mod calendar;
pub mod scalar;
pub mod survey;
pub mod text;
pub mod ulid;
pub mod uuid;
