//! Typed, schema-driven querying of a WMI-style provider: query text
//! generation, one-at-a-time result enumeration and property decoding.

pub mod enumerator;
pub mod error;
pub mod lex;
pub mod object;
pub mod query;
pub mod variant;
