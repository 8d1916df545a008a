//! Bulk generation of cryptographically random fixed-length secrets.
//!
//! The crate generates batches of random passwords or passphrases, encodes
//! them as plain lines, CSV or a JSON array, and proves that the produced
//! bytes are exactly the chosen framing around payloads drawn from the
//! selected alphabet or dictionary.
//!
//! Output is assembled strictly in ascending chunk-index order, so the byte
//! stream for a given sequence of payloads is deterministic.

use vstd::prelude::*;

pub mod alphabet;
pub mod args;
pub mod chunks;
pub mod dict;
pub mod encode;
pub mod generator;
pub mod i18n;
pub mod laws;
pub mod sampler;
pub mod stream;
pub mod writer;

verus! {

/// Errors that abort a run before or during generation.
#[derive(PartialEq, Eq, Structural, Clone, Copy, Debug)]
pub enum GenError {
    /// The operating system's entropy facility reported a failure; the run
    /// must abort rather than fall back to predictable seed material.
    Entropy,
    /// The requested record length is zero.
    BadLength,
    /// The requested record count is zero.
    BadCount,
    /// The security-round parameter is not one of the supported values.
    BadRounds,
}

} // verus!
