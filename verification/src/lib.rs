//! Encoder for ARCANE hub configuration frames.
//!
//! The hub is configured over a byte-oriented serial link. An operator types
//! a textual command such as `write 1 2 567`; this library turns it into the
//! fixed 11-byte wire frame the hub expects, or rejects it with a typed
//! error. It also classifies raw input lines into the small command set of
//! the console session. All I/O (port discovery, the read-eval-print loop,
//! terminal styling) stays outside the library.

pub mod command;
pub mod errors;
pub mod frame;
pub mod numbers;
pub mod tokens;
