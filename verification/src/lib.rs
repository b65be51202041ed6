//! A table-driven generator for ISO country and language code
//! enumerations.
//!
//! The crate parses two reference datasets — a JSON array of country
//! records and a tab-separated table of language records — and, driven by
//! a small directive language, emits the text of enumeration declarations
//! and of total or partial match constructs converting between the coding
//! standards. A value-level lookup layer gives the emitted constructs
//! their meaning and carries the proofs about them: total conversions
//! between country standards, partial conversions between language
//! standards, and parse/format round trips.

pub mod country;
pub mod emit;
pub mod errors;
pub mod language;
pub mod lookup;
pub mod normalize;
pub mod request;
pub mod schema;
pub mod text;
