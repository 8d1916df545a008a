//! Drawing symbols and word indices from a random stream.

use vstd::prelude::*;

use crate::GenError;
use crate::alphabet::{charset, standard_symbol, word_index};
use crate::dict::DICT_LEN;
use crate::stream::RandomStream;

verus! {

/// How many rejected draws in a row are tolerated before the stream is
/// considered broken. A single draw is rejected with probability below
/// `2^-28`, so a healthy stream reaches this bound with probability far
/// below `2^-1000`; only a failed generator can.
pub const MAX_REJECT_DRAWS: usize = 64;

/// Draws one symbol of the full alphabet with rejection sampling: draws at
/// or above the limit are discarded and redrawn, so every symbol comes
/// from a full equal-sized bucket of draws and is exactly equally likely.
pub fn sample_standard(rng: &mut RandomStream, table: &Vec<u8>) -> (r: Result<u8, GenError>)
    requires
        table@ == charset(),
    ensures
        r matches Ok(s) ==> charset().contains(s),
        r is Err ==> r == Err::<u8, GenError>(GenError::Entropy),
{
    let mut attempts: usize = 0;
    while attempts < MAX_REJECT_DRAWS
        invariant
            table@ == charset(),
        decreases MAX_REJECT_DRAWS - attempts,
    {
        let draw: u32 = rng.next_u32();
        match standard_symbol(table, draw) {
            Some(s) => {
                proof {
                    assert(charset().contains(s)) by {
                        assert(charset()[draw as int % 92] == s);
                    }
                }
                return Ok(s);
            },
            None => {
                attempts = attempts + 1;
            },
        }
    }
    Err(GenError::Entropy)
}

/// Draws one dictionary index, always in range.
pub fn sample_word(rng: &mut RandomStream) -> (i: usize)
    ensures
        i < DICT_LEN,
{
    let draw: u32 = rng.next_u32();
    word_index(draw, DICT_LEN as u32)
}

} // verus!
