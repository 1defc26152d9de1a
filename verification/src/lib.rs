//! A codec for the Basic Encoding Rules (BER) of ASN.1.
//!
//! The crate turns a byte stream into a tree of typed, length-delimited
//! values (`parse`) and turns such a tree back into the canonical byte
//! stream (`encode_into`).  Every operation is specified against a
//! mathematical model of the wire format (`model`) and verified: the
//! parser and the writer are proved to agree with the spec-level codec,
//! and the round-trip laws are proved in `laws`.

pub mod common;
pub mod model;
pub mod parse;
pub mod write;
pub mod structure;
pub mod laws;
pub mod structures;
pub mod traits;
pub mod universal;
pub mod specific;
