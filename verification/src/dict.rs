//! The passphrase dictionary.
//!
//! A fixed list of 64 short lowercase words. Word-mode payloads are
//! dictionary entries joined by the separator; every word is made of plain
//! lowercase letters, so it is safe inside every output framing.

use vstd::prelude::*;

verus! {

/// Number of entries in the dictionary.
pub const DICT_LEN: usize = 64;

/// The byte separator written between the words of a passphrase.
pub const WORD_SEP: u8 = 45;

/// The dictionary as a mathematical sequence of words.
pub open spec fn dict_spec() -> Seq<Seq<u8>> {
    seq![
        seq!['a' as u8, 'c' as u8, 'o' as u8, 'r' as u8, 'n' as u8],
        seq!['a' as u8, 'm' as u8, 'b' as u8, 'e' as u8, 'r' as u8],
        seq!['a' as u8, 'p' as u8, 'p' as u8, 'l' as u8, 'e' as u8],
        seq!['a' as u8, 'r' as u8, 'r' as u8, 'o' as u8, 'w' as u8],
        seq!['b' as u8, 'a' as u8, 's' as u8, 'i' as u8, 'l' as u8],
        seq!['b' as u8, 'e' as u8, 'a' as u8, 'c' as u8, 'h' as u8],
        seq!['b' as u8, 'e' as u8, 'r' as u8, 'r' as u8, 'y' as u8],
        seq!['b' as u8, 'i' as u8, 'r' as u8, 'c' as u8, 'h' as u8],
        seq!['b' as u8, 'l' as u8, 'a' as u8, 'z' as u8, 'e' as u8],
        seq!['b' as u8, 'l' as u8, 'o' as u8, 'o' as u8, 'm' as u8],
        seq!['b' as u8, 'r' as u8, 'a' as u8, 'v' as u8, 'e' as u8],
        seq!['b' as u8, 'r' as u8, 'o' as u8, 'o' as u8, 'k' as u8],
        seq!['c' as u8, 'e' as u8, 'd' as u8, 'a' as u8, 'r' as u8],
        seq!['c' as u8, 'h' as u8, 'a' as u8, 'r' as u8, 't' as u8],
        seq!['c' as u8, 'l' as u8, 'i' as u8, 'f' as u8, 'f' as u8],
        seq!['c' as u8, 'l' as u8, 'o' as u8, 'u' as u8, 'd' as u8],
        seq!['c' as u8, 'o' as u8, 'r' as u8, 'a' as u8, 'l' as u8],
        seq!['c' as u8, 'r' as u8, 'a' as u8, 'n' as u8, 'e' as u8],
        seq!['d' as u8, 'a' as u8, 'w' as u8, 'n' as u8],
        seq!['d' as u8, 'e' as u8, 'l' as u8, 't' as u8, 'a' as u8],
        seq!['d' as u8, 'r' as u8, 'i' as u8, 'f' as u8, 't' as u8],
        seq!['e' as u8, 'a' as u8, 'g' as u8, 'l' as u8, 'e' as u8],
        seq!['e' as u8, 'm' as u8, 'b' as u8, 'e' as u8, 'r' as u8],
        seq!['f' as u8, 'a' as u8, 'b' as u8, 'l' as u8, 'e' as u8],
        seq!['f' as u8, 'e' as u8, 'r' as u8, 'n' as u8],
        seq!['f' as u8, 'l' as u8, 'a' as u8, 'm' as u8, 'e' as u8],
        seq!['f' as u8, 'l' as u8, 'i' as u8, 'n' as u8, 't' as u8],
        seq!['f' as u8, 'r' as u8, 'o' as u8, 's' as u8, 't' as u8],
        seq!['g' as u8, 'a' as u8, 'l' as u8, 'e' as u8],
        seq!['g' as u8, 'l' as u8, 'a' as u8, 'd' as u8, 'e' as u8],
        seq!['g' as u8, 'r' as u8, 'a' as u8, 'i' as u8, 'n' as u8],
        seq!['g' as u8, 'r' as u8, 'o' as u8, 'v' as u8, 'e' as u8],
        seq!['h' as u8, 'a' as u8, 'z' as u8, 'e' as u8, 'l' as u8],
        seq!['h' as u8, 'e' as u8, 'r' as u8, 'o' as u8, 'n' as u8],
        seq!['i' as u8, 'v' as u8, 'o' as u8, 'r' as u8, 'y' as u8],
        seq!['j' as u8, 'a' as u8, 's' as u8, 'p' as u8, 'e' as u8, 'r' as u8],
        seq!['k' as u8, 'n' as u8, 'o' as u8, 'l' as u8, 'l' as u8],
        seq!['l' as u8, 'a' as u8, 'g' as u8, 'o' as u8, 'o' as u8, 'n' as u8],
        seq!['l' as u8, 'a' as u8, 'r' as u8, 'c' as u8, 'h' as u8],
        seq!['l' as u8, 'o' as u8, 't' as u8, 'u' as u8, 's' as u8],
        seq!['m' as u8, 'a' as u8, 'p' as u8, 'l' as u8, 'e' as u8],
        seq!['m' as u8, 'a' as u8, 'r' as u8, 's' as u8, 'h' as u8],
        seq!['m' as u8, 'e' as u8, 'a' as u8, 'd' as u8, 'o' as u8, 'w' as u8],
        seq!['m' as u8, 'i' as u8, 's' as u8, 't' as u8],
        seq!['m' as u8, 'o' as u8, 's' as u8, 's' as u8],
        seq!['n' as u8, 'o' as u8, 'r' as u8, 't' as u8, 'h' as u8],
        seq!['o' as u8, 'c' as u8, 'e' as u8, 'a' as u8, 'n' as u8],
        seq!['o' as u8, 'l' as u8, 'i' as u8, 'v' as u8, 'e' as u8],
        seq!['o' as u8, 'n' as u8, 'y' as u8, 'x' as u8],
        seq!['o' as u8, 'p' as u8, 'a' as u8, 'l' as u8],
        seq!['o' as u8, 't' as u8, 't' as u8, 'e' as u8, 'r' as u8],
        seq!['p' as u8, 'e' as u8, 'a' as u8, 'r' as u8, 'l' as u8],
        seq!['p' as u8, 'e' as u8, 'b' as u8, 'b' as u8, 'l' as u8, 'e' as u8],
        seq!['p' as u8, 'i' as u8, 'n' as u8, 'e' as u8],
        seq!['p' as u8, 'l' as u8, 'u' as u8, 'm' as u8, 'e' as u8],
        seq!['q' as u8, 'u' as u8, 'a' as u8, 'r' as u8, 't' as u8, 'z' as u8],
        seq!['r' as u8, 'a' as u8, 'v' as u8, 'e' as u8, 'n' as u8],
        seq!['r' as u8, 'e' as u8, 'e' as u8, 'f' as u8],
        seq!['r' as u8, 'i' as u8, 'd' as u8, 'g' as u8, 'e' as u8],
        seq!['r' as u8, 'i' as u8, 'v' as u8, 'e' as u8, 'r' as u8],
        seq!['r' as u8, 'o' as u8, 'b' as u8, 'i' as u8, 'n' as u8],
        seq!['s' as u8, 'l' as u8, 'a' as u8, 't' as u8, 'e' as u8],
        seq!['s' as u8, 'p' as u8, 'r' as u8, 'u' as u8, 'c' as u8, 'e' as u8],
        seq!['s' as u8, 't' as u8, 'o' as u8, 'n' as u8, 'e' as u8],
    ]
}

/// Every dictionary word is non-empty and made of lowercase letters only,
/// so it is safe inside every output framing and never contains the
/// separator.
pub proof fn lemma_dict_wf()
    ensures
        forall|i: int| 0 <= i < DICT_LEN ==> (#[trigger] dict_spec()[i]).len() >= 1,
        forall|i: int, j: int|
            0 <= i < DICT_LEN && 0 <= j < (#[trigger] dict_spec()[i]).len() ==> 97
                <= #[trigger] dict_spec()[i][j] <= 122,
{
}

/// The executable dictionary; built once per chunk.
#[verifier::rlimit(50)]
pub fn dictionary() -> (d: Vec<Vec<u8>>)
    ensures
        d@.len() == DICT_LEN,
        forall|i: int| 0 <= i < DICT_LEN ==> (#[trigger] d@[i])@ == dict_spec()[i],
{
    let mut d: Vec<Vec<u8>> = Vec::new();
    let w: Vec<u8> = vec!['a' as u8, 'c' as u8, 'o' as u8, 'r' as u8, 'n' as u8];
    d.push(w);
    let w: Vec<u8> = vec!['a' as u8, 'm' as u8, 'b' as u8, 'e' as u8, 'r' as u8];
    d.push(w);
    let w: Vec<u8> = vec!['a' as u8, 'p' as u8, 'p' as u8, 'l' as u8, 'e' as u8];
    d.push(w);
    let w: Vec<u8> = vec!['a' as u8, 'r' as u8, 'r' as u8, 'o' as u8, 'w' as u8];
    d.push(w);
    let w: Vec<u8> = vec!['b' as u8, 'a' as u8, 's' as u8, 'i' as u8, 'l' as u8];
    d.push(w);
    let w: Vec<u8> = vec!['b' as u8, 'e' as u8, 'a' as u8, 'c' as u8, 'h' as u8];
    d.push(w);
    let w: Vec<u8> = vec!['b' as u8, 'e' as u8, 'r' as u8, 'r' as u8, 'y' as u8];
    d.push(w);
    let w: Vec<u8> = vec!['b' as u8, 'i' as u8, 'r' as u8, 'c' as u8, 'h' as u8];
    d.push(w);
    let w: Vec<u8> = vec!['b' as u8, 'l' as u8, 'a' as u8, 'z' as u8, 'e' as u8];
    d.push(w);
    let w: Vec<u8> = vec!['b' as u8, 'l' as u8, 'o' as u8, 'o' as u8, 'm' as u8];
    d.push(w);
    let w: Vec<u8> = vec!['b' as u8, 'r' as u8, 'a' as u8, 'v' as u8, 'e' as u8];
    d.push(w);
    let w: Vec<u8> = vec!['b' as u8, 'r' as u8, 'o' as u8, 'o' as u8, 'k' as u8];
    d.push(w);
    let w: Vec<u8> = vec!['c' as u8, 'e' as u8, 'd' as u8, 'a' as u8, 'r' as u8];
    d.push(w);
    let w: Vec<u8> = vec!['c' as u8, 'h' as u8, 'a' as u8, 'r' as u8, 't' as u8];
    d.push(w);
    let w: Vec<u8> = vec!['c' as u8, 'l' as u8, 'i' as u8, 'f' as u8, 'f' as u8];
    d.push(w);
    let w: Vec<u8> = vec!['c' as u8, 'l' as u8, 'o' as u8, 'u' as u8, 'd' as u8];
    d.push(w);
    let w: Vec<u8> = vec!['c' as u8, 'o' as u8, 'r' as u8, 'a' as u8, 'l' as u8];
    d.push(w);
    let w: Vec<u8> = vec!['c' as u8, 'r' as u8, 'a' as u8, 'n' as u8, 'e' as u8];
    d.push(w);
    let w: Vec<u8> = vec!['d' as u8, 'a' as u8, 'w' as u8, 'n' as u8];
    d.push(w);
    let w: Vec<u8> = vec!['d' as u8, 'e' as u8, 'l' as u8, 't' as u8, 'a' as u8];
    d.push(w);
    let w: Vec<u8> = vec!['d' as u8, 'r' as u8, 'i' as u8, 'f' as u8, 't' as u8];
    d.push(w);
    let w: Vec<u8> = vec!['e' as u8, 'a' as u8, 'g' as u8, 'l' as u8, 'e' as u8];
    d.push(w);
    let w: Vec<u8> = vec!['e' as u8, 'm' as u8, 'b' as u8, 'e' as u8, 'r' as u8];
    d.push(w);
    let w: Vec<u8> = vec!['f' as u8, 'a' as u8, 'b' as u8, 'l' as u8, 'e' as u8];
    d.push(w);
    let w: Vec<u8> = vec!['f' as u8, 'e' as u8, 'r' as u8, 'n' as u8];
    d.push(w);
    let w: Vec<u8> = vec!['f' as u8, 'l' as u8, 'a' as u8, 'm' as u8, 'e' as u8];
    d.push(w);
    let w: Vec<u8> = vec!['f' as u8, 'l' as u8, 'i' as u8, 'n' as u8, 't' as u8];
    d.push(w);
    let w: Vec<u8> = vec!['f' as u8, 'r' as u8, 'o' as u8, 's' as u8, 't' as u8];
    d.push(w);
    let w: Vec<u8> = vec!['g' as u8, 'a' as u8, 'l' as u8, 'e' as u8];
    d.push(w);
    let w: Vec<u8> = vec!['g' as u8, 'l' as u8, 'a' as u8, 'd' as u8, 'e' as u8];
    d.push(w);
    let w: Vec<u8> = vec!['g' as u8, 'r' as u8, 'a' as u8, 'i' as u8, 'n' as u8];
    d.push(w);
    let w: Vec<u8> = vec!['g' as u8, 'r' as u8, 'o' as u8, 'v' as u8, 'e' as u8];
    d.push(w);
    let w: Vec<u8> = vec!['h' as u8, 'a' as u8, 'z' as u8, 'e' as u8, 'l' as u8];
    d.push(w);
    let w: Vec<u8> = vec!['h' as u8, 'e' as u8, 'r' as u8, 'o' as u8, 'n' as u8];
    d.push(w);
    let w: Vec<u8> = vec!['i' as u8, 'v' as u8, 'o' as u8, 'r' as u8, 'y' as u8];
    d.push(w);
    let w: Vec<u8> = vec!['j' as u8, 'a' as u8, 's' as u8, 'p' as u8, 'e' as u8, 'r' as u8];
    d.push(w);
    let w: Vec<u8> = vec!['k' as u8, 'n' as u8, 'o' as u8, 'l' as u8, 'l' as u8];
    d.push(w);
    let w: Vec<u8> = vec!['l' as u8, 'a' as u8, 'g' as u8, 'o' as u8, 'o' as u8, 'n' as u8];
    d.push(w);
    let w: Vec<u8> = vec!['l' as u8, 'a' as u8, 'r' as u8, 'c' as u8, 'h' as u8];
    d.push(w);
    let w: Vec<u8> = vec!['l' as u8, 'o' as u8, 't' as u8, 'u' as u8, 's' as u8];
    d.push(w);
    let w: Vec<u8> = vec!['m' as u8, 'a' as u8, 'p' as u8, 'l' as u8, 'e' as u8];
    d.push(w);
    let w: Vec<u8> = vec!['m' as u8, 'a' as u8, 'r' as u8, 's' as u8, 'h' as u8];
    d.push(w);
    let w: Vec<u8> = vec!['m' as u8, 'e' as u8, 'a' as u8, 'd' as u8, 'o' as u8, 'w' as u8];
    d.push(w);
    let w: Vec<u8> = vec!['m' as u8, 'i' as u8, 's' as u8, 't' as u8];
    d.push(w);
    let w: Vec<u8> = vec!['m' as u8, 'o' as u8, 's' as u8, 's' as u8];
    d.push(w);
    let w: Vec<u8> = vec!['n' as u8, 'o' as u8, 'r' as u8, 't' as u8, 'h' as u8];
    d.push(w);
    let w: Vec<u8> = vec!['o' as u8, 'c' as u8, 'e' as u8, 'a' as u8, 'n' as u8];
    d.push(w);
    let w: Vec<u8> = vec!['o' as u8, 'l' as u8, 'i' as u8, 'v' as u8, 'e' as u8];
    d.push(w);
    let w: Vec<u8> = vec!['o' as u8, 'n' as u8, 'y' as u8, 'x' as u8];
    d.push(w);
    let w: Vec<u8> = vec!['o' as u8, 'p' as u8, 'a' as u8, 'l' as u8];
    d.push(w);
    let w: Vec<u8> = vec!['o' as u8, 't' as u8, 't' as u8, 'e' as u8, 'r' as u8];
    d.push(w);
    let w: Vec<u8> = vec!['p' as u8, 'e' as u8, 'a' as u8, 'r' as u8, 'l' as u8];
    d.push(w);
    let w: Vec<u8> = vec!['p' as u8, 'e' as u8, 'b' as u8, 'b' as u8, 'l' as u8, 'e' as u8];
    d.push(w);
    let w: Vec<u8> = vec!['p' as u8, 'i' as u8, 'n' as u8, 'e' as u8];
    d.push(w);
    let w: Vec<u8> = vec!['p' as u8, 'l' as u8, 'u' as u8, 'm' as u8, 'e' as u8];
    d.push(w);
    let w: Vec<u8> = vec!['q' as u8, 'u' as u8, 'a' as u8, 'r' as u8, 't' as u8, 'z' as u8];
    d.push(w);
    let w: Vec<u8> = vec!['r' as u8, 'a' as u8, 'v' as u8, 'e' as u8, 'n' as u8];
    d.push(w);
    let w: Vec<u8> = vec!['r' as u8, 'e' as u8, 'e' as u8, 'f' as u8];
    d.push(w);
    let w: Vec<u8> = vec!['r' as u8, 'i' as u8, 'd' as u8, 'g' as u8, 'e' as u8];
    d.push(w);
    let w: Vec<u8> = vec!['r' as u8, 'i' as u8, 'v' as u8, 'e' as u8, 'r' as u8];
    d.push(w);
    let w: Vec<u8> = vec!['r' as u8, 'o' as u8, 'b' as u8, 'i' as u8, 'n' as u8];
    d.push(w);
    let w: Vec<u8> = vec!['s' as u8, 'l' as u8, 'a' as u8, 't' as u8, 'e' as u8];
    d.push(w);
    let w: Vec<u8> = vec!['s' as u8, 'p' as u8, 'r' as u8, 'u' as u8, 'c' as u8, 'e' as u8];
    d.push(w);
    let w: Vec<u8> = vec!['s' as u8, 't' as u8, 'o' as u8, 'n' as u8, 'e' as u8];
    d.push(w);
    assert(forall|i: int| 0 <= i < DICT_LEN ==> (#[trigger] d@[i])@ =~= dict_spec()[i]);
    d
}

} // verus!
