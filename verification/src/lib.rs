//! A safe, verified model of the configuration layer of a native terminal
//! emulator binding: a process-wide runtime guard, build-info decoding, and a
//! configuration handle with a typed field registry, raw-value decoding and
//! diagnostics.
//!
//! The native library itself is reached only from the unverified shell around
//! this crate; everything here works on plain values (bytes, strings,
//! integers) and carries a proved contract.

pub mod config;
pub mod fields;
pub mod runtime;
pub mod text;
