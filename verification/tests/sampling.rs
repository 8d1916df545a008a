use passwg::alphabet::{
    charset_fast_table, charset_table, fast_symbol, standard_symbol, word_index, Avx2Mapper,
    CHARSET_LIMIT,
};
use passwg::dict::{dictionary, DICT_LEN};
use passwg::sampler::{sample_standard, sample_word};
use passwg::stream::RandomStream;

#[test]
fn charset_tables_have_expected_sizes_and_content() {
    let full = charset_table();
    let fast = charset_fast_table();
    assert_eq!(full.len(), 92);
    assert_eq!(fast.len(), 64);
    let full_expected: &[u8] =
        b"0123456789ABCDEFGHIJKLMNOPQRSTUVWXYZabcdefghijklmnopqrstuvwxyz!#$%&'()*+,-./:;<=>?@[]^_`{|}~";
    let fast_expected: &[u8] =
        b"ABCDEFGHIJKLMNOPQRSTUVWXYZabcdefghijklmnopqrstuvwxyz0123456789_-";
    assert_eq!(full.as_slice(), full_expected);
    assert_eq!(fast.as_slice(), fast_expected);
    // Neither alphabet may hold a newline, a double quote or a backslash.
    for &b in full.iter().chain(fast.iter()) {
        assert!(b != b'\n' && b != b'"' && b != b'\\');
    }
}

#[test]
fn standard_symbol_keeps_draws_below_the_limit() {
    let table = charset_table();
    // 4294967284 is the largest multiple of 92 that fits in 32 bits.
    assert_eq!(CHARSET_LIMIT, 4294967284);
    assert_eq!(standard_symbol(&table, 0), Some(b'0'));
    assert_eq!(standard_symbol(&table, 91), Some(b'~'));
    assert_eq!(standard_symbol(&table, 92), Some(b'0'));
    assert_eq!(standard_symbol(&table, CHARSET_LIMIT - 1), Some(table[(CHARSET_LIMIT - 1) as usize % 92]));
    // Draws in the truncated final bucket are rejected, never mapped.
    assert_eq!(standard_symbol(&table, CHARSET_LIMIT), None);
    assert_eq!(standard_symbol(&table, u32::MAX), None);
}

#[test]
fn fast_symbol_masks_six_bits() {
    let fast = charset_fast_table();
    assert_eq!(fast_symbol(&fast, 0), b'A');
    assert_eq!(fast_symbol(&fast, 63), b'-');
    // Only the low six bits select the symbol.
    assert_eq!(fast_symbol(&fast, 64), b'A');
    assert_eq!(fast_symbol(&fast, u64::MAX), b'-');
}

#[test]
fn word_index_is_the_high_half_of_the_product() {
    // (draw * dict_len) >> 32, exactly.
    assert_eq!(word_index(0, 64), 0);
    assert_eq!(word_index(u32::MAX, 64), 63);
    // 2^26 * 64 = 2^32, so the draw just below maps to 0 and this one to 1.
    assert_eq!(word_index(1 << 26, 64), 1);
    assert_eq!(word_index((1 << 26) - 1, 64), 0);
}

#[test]
fn batched_mapping_matches_the_scalar_formula() {
    let fast = charset_fast_table();
    let mut input: Vec<u8> = Vec::new();
    for i in 0..32u8 {
        input.push(i.wrapping_mul(5).wrapping_add(200));
    }
    let mut out: Vec<u8> = Vec::new();
    Avx2Mapper::map_64_symbols(&fast, &input, &mut out);
    assert_eq!(out.len(), 32);
    for i in 0..32 {
        assert_eq!(out[i], fast[(input[i] & 63) as usize]);
    }
}

#[test]
fn sampler_draws_stay_inside_their_ranges() {
    let table = charset_table();
    let mut rng = RandomStream::from_seed([7u8; 32], 8);
    for _ in 0..1000 {
        let s = sample_standard(&mut rng, &table).expect("a healthy stream never exhausts retries");
        assert!(table.contains(&s));
    }
    for _ in 0..1000 {
        let i = sample_word(&mut rng);
        assert!(i < DICT_LEN);
    }
}

#[test]
fn dictionary_words_are_lowercase_and_nonempty() {
    let d = dictionary();
    assert_eq!(d.len(), DICT_LEN);
    for w in &d {
        assert!(!w.is_empty());
        for &b in w {
            assert!(b.is_ascii_lowercase());
        }
    }
    // Entries are distinct.
    for i in 0..d.len() {
        for j in (i + 1)..d.len() {
            assert_ne!(d[i], d[j]);
        }
    }
}

#[test]
fn standard_frequencies_are_roughly_uniform() {
    // Over a large sample each of the 92 symbols should appear close to
    // the average; the bounds below are dozens of standard deviations
    // wide, so a correct sampler fails this with negligible probability.
    let table = charset_table();
    let mut rng = RandomStream::from_entropy(8).expect("entropy available");
    let per_symbol = 2000u32;
    let total = 92 * per_symbol;
    let mut counts = [0u32; 256];
    for _ in 0..total {
        let s = sample_standard(&mut rng, &table).expect("stream healthy");
        counts[s as usize] += 1;
    }
    // Chi-square goodness of fit against the uniform distribution, with
    // 91 degrees of freedom. The 99%-confidence critical value is about
    // 125; the bound below sits a dozen standard deviations beyond it,
    // so a correct sampler fails with negligible probability while a
    // biased mapping (for example a plain modulo without rejection over
    // a skewed source) still shows up.
    let expected = per_symbol as f64;
    let mut chi2 = 0.0f64;
    for &b in table.iter() {
        let c = counts[b as usize] as f64;
        let d = c - expected;
        chi2 += d * d / expected;
    }
    assert!(chi2 < 250.0, "chi-square statistic {} is far from uniform", chi2);
}
