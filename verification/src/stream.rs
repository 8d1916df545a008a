//! Random streams: ChaCha-based pseudo-random generators seeded from the
//! operating system's entropy facility.
//!
//! Each worker owns one stream for the whole of its chunk; streams are never
//! shared. The round count (8, 12 or 20) is a security/throughput policy
//! knob; all three variants expose the same draw primitives.

use vstd::prelude::*;

use crate::GenError;

verus! {

#[verifier::external_type_specification]
#[verifier::external_body]
pub struct ExChaCha8Rng(rand_chacha::ChaCha8Rng);

#[verifier::external_type_specification]
#[verifier::external_body]
pub struct ExChaCha12Rng(rand_chacha::ChaCha12Rng);

#[verifier::external_type_specification]
#[verifier::external_body]
pub struct ExChaCha20Rng(rand_chacha::ChaCha20Rng);

#[verifier::external_type_specification]
#[verifier::external_body]
pub struct ExGetrandomError(getrandom::Error);

/// Relies on getrandom::fill: on success the buffer is filled with bytes
/// from the operating system's cryptographic entropy facility; the values
/// are unpredictable, so nothing is stated about them. On failure the OS
/// error is handed back so the caller can abort the run.
#[verifier::external_body]
fn os_entropy_seed() -> Result<[u8; 32], getrandom::Error> {
    let mut seed = [0u8; 32];
    match getrandom::fill(&mut seed) {
        Ok(()) => Ok(seed),
        Err(e) => Err(e),
    }
}

/// Relies on rand_chacha::ChaCha8Rng::from_seed (SeedableRng): builds the
/// 8-round generator deterministically from the 256-bit seed.
#[verifier::external_body]
fn chacha8_from_seed(seed: [u8; 32]) -> rand_chacha::ChaCha8Rng {
    <rand_chacha::ChaCha8Rng as rand_core::SeedableRng>::from_seed(seed)
}

/// Relies on rand_chacha::ChaCha12Rng::from_seed (SeedableRng): builds the
/// 12-round generator deterministically from the 256-bit seed.
#[verifier::external_body]
fn chacha12_from_seed(seed: [u8; 32]) -> rand_chacha::ChaCha12Rng {
    <rand_chacha::ChaCha12Rng as rand_core::SeedableRng>::from_seed(seed)
}

/// Relies on rand_chacha::ChaCha20Rng::from_seed (SeedableRng): builds the
/// 20-round generator deterministically from the 256-bit seed.
#[verifier::external_body]
fn chacha20_from_seed(seed: [u8; 32]) -> rand_chacha::ChaCha20Rng {
    <rand_chacha::ChaCha20Rng as rand_core::SeedableRng>::from_seed(seed)
}

/// Relies on rand_core::Rng::next_u32 for ChaCha8Rng: an infallible draw of
/// one 32-bit word; the value is pseudo-random, so nothing is stated of it.
#[verifier::external_body]
fn chacha8_next_u32(rng: &mut rand_chacha::ChaCha8Rng) -> u32 {
    rand_core::Rng::next_u32(rng)
}

/// Relies on rand_core::Rng::next_u32 for ChaCha12Rng.
#[verifier::external_body]
fn chacha12_next_u32(rng: &mut rand_chacha::ChaCha12Rng) -> u32 {
    rand_core::Rng::next_u32(rng)
}

/// Relies on rand_core::Rng::next_u32 for ChaCha20Rng.
#[verifier::external_body]
fn chacha20_next_u32(rng: &mut rand_chacha::ChaCha20Rng) -> u32 {
    rand_core::Rng::next_u32(rng)
}

/// Relies on rand_core::Rng::next_u64 for ChaCha8Rng: an infallible draw of
/// one 64-bit word.
#[verifier::external_body]
fn chacha8_next_u64(rng: &mut rand_chacha::ChaCha8Rng) -> u64 {
    rand_core::Rng::next_u64(rng)
}

/// Relies on rand_core::Rng::next_u64 for ChaCha12Rng.
#[verifier::external_body]
fn chacha12_next_u64(rng: &mut rand_chacha::ChaCha12Rng) -> u64 {
    rand_core::Rng::next_u64(rng)
}

/// Relies on rand_core::Rng::next_u64 for ChaCha20Rng.
#[verifier::external_body]
fn chacha20_next_u64(rng: &mut rand_chacha::ChaCha20Rng) -> u64 {
    rand_core::Rng::next_u64(rng)
}

/// Relies on rand_core::Rng::fill_bytes for ChaCha8Rng: fills the whole
/// buffer with pseudo-random bytes; only the length is stated, the values
/// are unpredictable.
#[verifier::external_body]
fn chacha8_fill(rng: &mut rand_chacha::ChaCha8Rng, buf: &mut Vec<u8>)
    ensures
        final(buf)@.len() == old(buf)@.len(),
{
    rand_core::Rng::fill_bytes(rng, buf.as_mut_slice())
}

/// Relies on rand_core::Rng::fill_bytes for ChaCha12Rng.
#[verifier::external_body]
fn chacha12_fill(rng: &mut rand_chacha::ChaCha12Rng, buf: &mut Vec<u8>)
    ensures
        final(buf)@.len() == old(buf)@.len(),
{
    rand_core::Rng::fill_bytes(rng, buf.as_mut_slice())
}

/// Relies on rand_core::Rng::fill_bytes for ChaCha20Rng.
#[verifier::external_body]
fn chacha20_fill(rng: &mut rand_chacha::ChaCha20Rng, buf: &mut Vec<u8>)
    ensures
        final(buf)@.len() == old(buf)@.len(),
{
    rand_core::Rng::fill_bytes(rng, buf.as_mut_slice())
}

/// A seekless pseudo-random word stream: one ChaCha generator with the
/// chosen round count, owned by a single worker for a single chunk.
pub enum RandomStream {
    Rounds8(rand_chacha::ChaCha8Rng),
    Rounds12(rand_chacha::ChaCha12Rng),
    Rounds20(rand_chacha::ChaCha20Rng),
}

impl RandomStream {
    /// Builds a stream from a seed; `rounds` selects the ChaCha variant,
    /// with 8 rounds the default for unrecognised values.
    pub fn from_seed(seed: [u8; 32], rounds: u8) -> (r: RandomStream)
        ensures
            rounds == 12 ==> r is Rounds12,
            rounds == 20 ==> r is Rounds20,
            rounds != 12 && rounds != 20 ==> r is Rounds8,
    {
        match rounds {
            12 => RandomStream::Rounds12(chacha12_from_seed(seed)),
            20 => RandomStream::Rounds20(chacha20_from_seed(seed)),
            _ => RandomStream::Rounds8(chacha8_from_seed(seed)),
        }
    }

    /// Draws the next 32-bit word. The value is pseudo-random: every caller
    /// must be correct whatever comes back.
    pub fn next_u32(&mut self) -> u32 {
        match self {
            RandomStream::Rounds8(rng) => chacha8_next_u32(rng),
            RandomStream::Rounds12(rng) => chacha12_next_u32(rng),
            RandomStream::Rounds20(rng) => chacha20_next_u32(rng),
        }
    }

    /// Draws the next 64-bit word.
    pub fn next_u64(&mut self) -> u64 {
        match self {
            RandomStream::Rounds8(rng) => chacha8_next_u64(rng),
            RandomStream::Rounds12(rng) => chacha12_next_u64(rng),
            RandomStream::Rounds20(rng) => chacha20_next_u64(rng),
        }
    }

    /// Bulk-fills the buffer with pseudo-random bytes, leaving its length
    /// unchanged.
    pub fn fill_bytes(&mut self, buf: &mut Vec<u8>)
        ensures
            final(buf)@.len() == old(buf)@.len(),
    {
        match self {
            RandomStream::Rounds8(rng) => chacha8_fill(rng, buf),
            RandomStream::Rounds12(rng) => chacha12_fill(rng, buf),
            RandomStream::Rounds20(rng) => chacha20_fill(rng, buf),
        }
    }

    /// Seeds a fresh stream from the operating system's entropy facility.
    /// Entropy failure is fatal for the run: no fixed or zero seed is ever
    /// substituted, the error is reported instead.
    pub fn from_entropy(rounds: u8) -> (r: Result<RandomStream, GenError>)
        ensures
            r is Err ==> r == Err::<RandomStream, GenError>(GenError::Entropy),
            r matches Ok(s) ==> {
                &&& rounds == 12 ==> s is Rounds12
                &&& rounds == 20 ==> s is Rounds20
                &&& rounds != 12 && rounds != 20 ==> s is Rounds8
            },
    {
        match os_entropy_seed() {
            Ok(seed) => Ok(RandomStream::from_seed(seed, rounds)),
            Err(_) => Err(GenError::Entropy),
        }
    }
}

} // verus!
