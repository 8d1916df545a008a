//! The symbol alphabets and the pure draw-to-symbol mappings.
//!
//! Two alphabets are supported: the full 92-symbol printable set, sampled
//! with rejection so that every symbol is exactly equally likely, and the
//! 64-symbol set whose power-of-two size lets any 6 random bits pick a
//! symbol with no rejection at all.

use vstd::prelude::*;
use vstd::arithmetic::div_mod::lemma_multiply_divide_lt;
use vstd::arithmetic::mul::lemma_mul_strict_inequality;

verus! {

/// Number of symbols in the full alphabet.
pub const CHARSET_LEN: usize = 92;

/// Number of symbols in the fast alphabet; exactly a power of two.
pub const CHARSET_FAST_LEN: usize = 64;

/// Draws at or above this limit are rejected when sampling the full
/// alphabet: the limit is the largest multiple of 92 that fits in 32 bits,
/// so the kept draws split into equal-sized buckets and `draw % 92` is
/// exactly uniform.
pub const CHARSET_LIMIT: u32 = (u32::MAX / 92) * 92;

/// The full 92-symbol alphabet: digits, upper case, lower case, then the
/// printable punctuation except the double quote and the backslash.
pub open spec fn charset() -> Seq<u8> {
    seq![
        '0' as u8, '1' as u8, '2' as u8, '3' as u8, '4' as u8, '5' as u8, '6' as u8, '7' as u8,
        '8' as u8, '9' as u8, 'A' as u8, 'B' as u8, 'C' as u8, 'D' as u8, 'E' as u8, 'F' as u8,
        'G' as u8, 'H' as u8, 'I' as u8, 'J' as u8, 'K' as u8, 'L' as u8, 'M' as u8, 'N' as u8,
        'O' as u8, 'P' as u8, 'Q' as u8, 'R' as u8, 'S' as u8, 'T' as u8, 'U' as u8, 'V' as u8,
        'W' as u8, 'X' as u8, 'Y' as u8, 'Z' as u8, 'a' as u8, 'b' as u8, 'c' as u8, 'd' as u8,
        'e' as u8, 'f' as u8, 'g' as u8, 'h' as u8, 'i' as u8, 'j' as u8, 'k' as u8, 'l' as u8,
        'm' as u8, 'n' as u8, 'o' as u8, 'p' as u8, 'q' as u8, 'r' as u8, 's' as u8, 't' as u8,
        'u' as u8, 'v' as u8, 'w' as u8, 'x' as u8, 'y' as u8, 'z' as u8, '!' as u8, '#' as u8,
        '$' as u8, '%' as u8, '&' as u8, '\'' as u8, '(' as u8, ')' as u8, '*' as u8, '+' as u8,
        ',' as u8, '-' as u8, '.' as u8, '/' as u8, ':' as u8, ';' as u8, '<' as u8, '=' as u8,
        '>' as u8, '?' as u8, '@' as u8, '[' as u8, ']' as u8, '^' as u8, '_' as u8, '`' as u8,
        '{' as u8, '|' as u8, '}' as u8, '~' as u8,
    ]
}

/// The 64-symbol fast alphabet: letters, digits, underscore and hyphen.
pub open spec fn charset_fast() -> Seq<u8> {
    seq![
        'A' as u8, 'B' as u8, 'C' as u8, 'D' as u8, 'E' as u8, 'F' as u8, 'G' as u8, 'H' as u8,
        'I' as u8, 'J' as u8, 'K' as u8, 'L' as u8, 'M' as u8, 'N' as u8, 'O' as u8, 'P' as u8,
        'Q' as u8, 'R' as u8, 'S' as u8, 'T' as u8, 'U' as u8, 'V' as u8, 'W' as u8, 'X' as u8,
        'Y' as u8, 'Z' as u8, 'a' as u8, 'b' as u8, 'c' as u8, 'd' as u8, 'e' as u8, 'f' as u8,
        'g' as u8, 'h' as u8, 'i' as u8, 'j' as u8, 'k' as u8, 'l' as u8, 'm' as u8, 'n' as u8,
        'o' as u8, 'p' as u8, 'q' as u8, 'r' as u8, 's' as u8, 't' as u8, 'u' as u8, 'v' as u8,
        'w' as u8, 'x' as u8, 'y' as u8, 'z' as u8, '0' as u8, '1' as u8, '2' as u8, '3' as u8,
        '4' as u8, '5' as u8, '6' as u8, '7' as u8, '8' as u8, '9' as u8, '_' as u8, '-' as u8,
    ]
}

/// A payload byte that can be embedded in every output framing: printable,
/// not a newline, not a double quote, not a backslash.
pub open spec fn frame_safe(b: u8) -> bool {
    33 <= b <= 126 && b != 34 && b != 92
}

/// Every symbol of the full alphabet is safe inside every framing.
pub proof fn lemma_charset_frame_safe()
    ensures
        forall|i: int| 0 <= i < 92 ==> frame_safe(#[trigger] charset()[i]),
{
}

/// Every symbol of the fast alphabet is safe inside every framing.
pub proof fn lemma_charset_fast_frame_safe()
    ensures
        forall|i: int| 0 <= i < 64 ==> frame_safe(#[trigger] charset_fast()[i]),
{
}

/// The executable full-alphabet table; built once per chunk.
pub fn charset_table() -> (t: Vec<u8>)
    ensures
        t@ == charset(),
{
    let t: Vec<u8> = vec![
        '0' as u8, '1' as u8, '2' as u8, '3' as u8, '4' as u8, '5' as u8, '6' as u8, '7' as u8,
        '8' as u8, '9' as u8, 'A' as u8, 'B' as u8, 'C' as u8, 'D' as u8, 'E' as u8, 'F' as u8,
        'G' as u8, 'H' as u8, 'I' as u8, 'J' as u8, 'K' as u8, 'L' as u8, 'M' as u8, 'N' as u8,
        'O' as u8, 'P' as u8, 'Q' as u8, 'R' as u8, 'S' as u8, 'T' as u8, 'U' as u8, 'V' as u8,
        'W' as u8, 'X' as u8, 'Y' as u8, 'Z' as u8, 'a' as u8, 'b' as u8, 'c' as u8, 'd' as u8,
        'e' as u8, 'f' as u8, 'g' as u8, 'h' as u8, 'i' as u8, 'j' as u8, 'k' as u8, 'l' as u8,
        'm' as u8, 'n' as u8, 'o' as u8, 'p' as u8, 'q' as u8, 'r' as u8, 's' as u8, 't' as u8,
        'u' as u8, 'v' as u8, 'w' as u8, 'x' as u8, 'y' as u8, 'z' as u8, '!' as u8, '#' as u8,
        '$' as u8, '%' as u8, '&' as u8, '\'' as u8, '(' as u8, ')' as u8, '*' as u8, '+' as u8,
        ',' as u8, '-' as u8, '.' as u8, '/' as u8, ':' as u8, ';' as u8, '<' as u8, '=' as u8,
        '>' as u8, '?' as u8, '@' as u8, '[' as u8, ']' as u8, '^' as u8, '_' as u8, '`' as u8,
        '{' as u8, '|' as u8, '}' as u8, '~' as u8,
    ];
    assert(t@ =~= charset());
    t
}

/// The executable fast-alphabet table; built once per chunk.
pub fn charset_fast_table() -> (t: Vec<u8>)
    ensures
        t@ == charset_fast(),
{
    let t: Vec<u8> = vec![
        'A' as u8, 'B' as u8, 'C' as u8, 'D' as u8, 'E' as u8, 'F' as u8, 'G' as u8, 'H' as u8,
        'I' as u8, 'J' as u8, 'K' as u8, 'L' as u8, 'M' as u8, 'N' as u8, 'O' as u8, 'P' as u8,
        'Q' as u8, 'R' as u8, 'S' as u8, 'T' as u8, 'U' as u8, 'V' as u8, 'W' as u8, 'X' as u8,
        'Y' as u8, 'Z' as u8, 'a' as u8, 'b' as u8, 'c' as u8, 'd' as u8, 'e' as u8, 'f' as u8,
        'g' as u8, 'h' as u8, 'i' as u8, 'j' as u8, 'k' as u8, 'l' as u8, 'm' as u8, 'n' as u8,
        'o' as u8, 'p' as u8, 'q' as u8, 'r' as u8, 's' as u8, 't' as u8, 'u' as u8, 'v' as u8,
        'w' as u8, 'x' as u8, 'y' as u8, 'z' as u8, '0' as u8, '1' as u8, '2' as u8, '3' as u8,
        '4' as u8, '5' as u8, '6' as u8, '7' as u8, '8' as u8, '9' as u8, '_' as u8, '-' as u8,
    ];
    assert(t@ =~= charset_fast());
    t
}

/// The symbol selected by a kept draw: the draw reduced into the alphabet.
pub open spec fn standard_symbol_spec(draw: u32) -> u8 {
    charset()[draw as int % 92]
}

/// The fast-alphabet symbol selected by 6 random bits.
pub open spec fn fast_symbol_spec(bits: u64) -> u8 {
    charset_fast()[(bits & 63) as int]
}

/// The fast-alphabet symbol selected by one random byte.
pub open spec fn fast_symbol_of(b: u8) -> u8 {
    charset_fast()[(b & 63) as int]
}

/// A random byte masked to 6 bits always lands inside the fast alphabet.
pub proof fn lemma_mask6_in_range_u8(b: u8)
    ensures
        0 <= (b & 63) < 64,
{
    assert(b & 63 < 64) by (bit_vector);
}

/// Any 64-bit draw masked to 6 bits lands inside the fast alphabet.
pub proof fn lemma_mask6_in_range_u64(bits: u64)
    ensures
        0 <= (bits & 63) < 64,
{
    assert(bits & 63 < 64) by (bit_vector);
}

/// Rejection sampling decision for the full alphabet: a draw below the
/// limit is reduced to its symbol, a draw at or above it is discarded.
/// Only full equal-sized buckets of 92 draws are kept, so no symbol is
/// favoured (no modulo bias).
pub fn standard_symbol(table: &Vec<u8>, draw: u32) -> (r: Option<u8>)
    requires
        table@ == charset(),
    ensures
        draw < CHARSET_LIMIT ==> r == Some(standard_symbol_spec(draw)),
        draw >= CHARSET_LIMIT ==> r is None,
{
    if draw < CHARSET_LIMIT {
        let idx: usize = (draw % 92) as usize;
        Some(table[idx])
    } else {
        None
    }
}

/// The fast-alphabet symbol for 6 bits of a 64-bit draw; total, no
/// rejection path exists.
pub fn fast_symbol(table: &Vec<u8>, bits: u64) -> (s: u8)
    requires
        table@ == charset_fast(),
    ensures
        s == fast_symbol_spec(bits),
        charset_fast().contains(s),
{
    proof {
        lemma_mask6_in_range_u64(bits);
    }
    let idx: usize = (bits & 63) as usize;
    let s = table[idx];
    proof {
        assert(charset_fast().contains(s)) by {
            assert(charset_fast()[(bits & 63) as int] == s);
        }
    }
    s
}

/// The dictionary index selected by a 32-bit draw: the high 32 bits of the
/// 64-bit product of the draw and the dictionary length. Avoids division
/// and modulo entirely; the bias is bounded by `dict_len / 2^32`.
pub open spec fn word_index_spec(draw: u32, dict_len: u32) -> int {
    (draw * dict_len) / 0x1_0000_0000
}

/// Computes the word index for a draw; always in range for a non-empty
/// dictionary.
pub fn word_index(draw: u32, dict_len: u32) -> (i: usize)
    requires
        1 <= dict_len,
    ensures
        i == word_index_spec(draw, dict_len),
        i < dict_len,
{
    proof {
        assert(draw * dict_len <= 0xffff_ffffu64 * 0xffff_ffffu64) by (nonlinear_arith)
            requires
                draw <= 0xffff_ffffu64 && dict_len <= 0xffff_ffffu64,
        ;
    }
    let wide: u64 = (draw as u64) * (dict_len as u64);
    let shifted: u64 = wide >> 32;
    proof {
        assert(shifted == wide / 0x1_0000_0000) by (bit_vector)
            requires
                shifted == wide >> 32u64,
        ;
        lemma_mul_strict_inequality(draw as int, 0x1_0000_0000, dict_len as int);
        lemma_multiply_divide_lt(wide as int, dict_len as int, 0x1_0000_0000);
    }
    shifted as usize
}

/// The scalar semantics of the batched 32-byte mapping pass: each random
/// byte, masked to 6 bits, indexes the fast alphabet.
pub open spec fn map_fast(bytes: Seq<u8>) -> Seq<u8> {
    bytes.map_values(|b: u8| fast_symbol_of(b))
}

/// Every byte the batched pass produces is a member of the fast alphabet.
pub proof fn lemma_map_fast_members(bytes: Seq<u8>)
    ensures
        map_fast(bytes).len() == bytes.len(),
        forall|i: int|
            0 <= i < bytes.len() ==> charset_fast().contains(#[trigger] map_fast(bytes)[i]),
{
    assert forall|i: int| 0 <= i < bytes.len() implies charset_fast().contains(
        #[trigger] map_fast(bytes)[i],
    ) by {
        lemma_mask6_in_range_u8(bytes[i]);
        assert(map_fast(bytes)[i] == charset_fast()[(bytes[i] & 63) as int]);
        assert(charset_fast().contains(charset_fast()[(bytes[i] & 63) as int]));
    }
}

/// Maps blocks of 32 random bytes to 32 fast-alphabet symbols in one pass.
///
/// A hardware-accelerated implementation of the same mapping may be
/// selected by a capability probe outside the library; this function is
/// its reference semantics, and any replacement must be byte-for-byte
/// identical to it.
pub struct Avx2Mapper;

impl Avx2Mapper {
    /// Appends the 32 symbols selected by 32 random bytes to `out`.
    pub fn map_64_symbols(table: &Vec<u8>, random_data: &Vec<u8>, out: &mut Vec<u8>)
        requires
            table@ == charset_fast(),
            random_data@.len() == 32,
        ensures
            final(out)@ == old(out)@ + map_fast(random_data@),
    {
        let mut j: usize = 0;
        while j < 32
            invariant
                table@ == charset_fast(),
                random_data@.len() == 32,
                0 <= j <= 32,
                out@ == old(out)@ + map_fast(random_data@.take(j as int)),
            decreases 32 - j,
        {
            let b: u8 = random_data[j];
            proof {
                lemma_mask6_in_range_u8(b);
            }
            let idx: usize = (b & 63) as usize;
            out.push(table[idx]);
            proof {
                assert(map_fast(random_data@.take(j + 1 as int)) =~= map_fast(
                    random_data@.take(j as int),
                ).push(fast_symbol_of(b)));
            }
            j = j + 1;
        }
        proof {
            assert(random_data@.take(32) =~= random_data@);
        }
    }
}

} // verus!
