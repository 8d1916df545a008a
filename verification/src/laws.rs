//! The crate's headline guarantees, stated and proved over the same spec
//! functions that the executable functions' contracts use.

use vstd::prelude::*;
use vstd::arithmetic::div_mod::{
    lemma_div_denominator, lemma_div_multiples_vanish, lemma_fundamental_div_mod,
    lemma_fundamental_div_mod_converse,
};
use vstd::relations::injective_on;
use vstd::set_lib::{lemma_int_range, lemma_map_size, set_int_range};

use crate::alphabet::{
    CHARSET_LIMIT, charset, charset_fast, fast_symbol_spec, frame_safe, lemma_charset_fast_frame_safe,
    lemma_charset_frame_safe, lemma_mask6_in_range_u64, standard_symbol_spec,
};
use crate::chunks::{CHUNK_SIZE, Chunk, plan_ok};
use crate::dict::{DICT_LEN, WORD_SEP, dict_spec, lemma_dict_wf};
use crate::encode::{
    AlphabetMode, chunk_bytes, dec_spec, lemma_dec_spec_digits, payload_ok, payloads_ok,
    record_bytes, words_payload,
};
use crate::generator::output_bytes;
use crate::writer::{OutputFormat, footer_spec, header_spec};

verus! {

// ---------------------------------------------------------------------------
// Record ids: a chunk plan covers the id range [1, count] exactly.
// ---------------------------------------------------------------------------
/// The ids a single chunk owns.
pub open spec fn chunk_id_set(c: Chunk) -> Set<int> {
    set_int_range(c.start_id as int, c.start_id + c.size)
}

/// The ids a whole plan owns.
pub open spec fn plan_ids(v: Seq<Chunk>) -> Set<int>
    decreases v.len(),
{
    if v.len() == 0 {
        Set::empty()
    } else {
        plan_ids(v.drop_last()).union(chunk_id_set(v.last()))
    }
}

/// A valid plan for `count` records covers the id set `{1, ..., count}`
/// exactly: no duplicates (the chunks are disjoint ranges) and no gaps.
/// Together with the generation contracts, which encode one record per id
/// of each chunk, exactly `count` records are produced, with ids dense
/// over `[1, count]`.
pub proof fn lemma_plan_ids_exact(v: Seq<Chunk>, count: nat)
    requires
        plan_ok(v, count),
    ensures
        plan_ids(v) =~= set_int_range(1, count as int + 1),
    decreases v.len(),
{
    if v.len() == 0 {
    } else {
        let prefix = v.drop_last();
        let prior: nat = (CHUNK_SIZE * (v.len() - 1)) as nat;
        assert(v.last().start_id == 1 + CHUNK_SIZE * (v.len() - 1));
        assert(plan_ok(prefix, prior)) by {
            if prefix.len() > 0 {
                assert(prefix.last() == v[v.len() - 2]);
                assert(prefix.last().size == CHUNK_SIZE);
                assert(prefix.last().start_id == 1 + CHUNK_SIZE * (v.len() - 2));
            }
        }
        lemma_plan_ids_exact(prefix, prior);
        assert(v.last().start_id + v.last().size == count + 1);
        assert(plan_ids(v) =~= set_int_range(1, count as int + 1));
    }
}

// ---------------------------------------------------------------------------
// Standard mode uniformity: rejection sampling leaves equal buckets.
// ---------------------------------------------------------------------------
/// The kept draws that select alphabet index `j`.
pub open spec fn standard_bucket(j: int) -> Set<int> {
    Set::new(|d: int| 0 <= d < CHARSET_LIMIT && d % 92 == j)
}

/// Every kept draw selects the symbol of its own bucket: the buckets
/// partition the kept draws by selected alphabet index.
pub proof fn lemma_bucket_selects_symbol(d: int)
    requires
        0 <= d < CHARSET_LIMIT,
    ensures
        standard_bucket(d % 92).contains(d),
        standard_symbol_spec(d as u32) == charset()[d % 92],
        forall|j: int| 0 <= j < 92 && j != d % 92 ==> !standard_bucket(j).contains(d),
{
}

/// Each alphabet index is selected by exactly `CHARSET_LIMIT / 92` of the
/// kept draws: the bucket of index `j` is the image of `[0, CHARSET_LIMIT/92)`
/// under `k |-> 92k + j`.
pub proof fn lemma_standard_bucket_size(j: int)
    requires
        0 <= j < 92,
    ensures
        standard_bucket(j).finite(),
        standard_bucket(j).len() == CHARSET_LIMIT as int / 92,
{
    let m: int = CHARSET_LIMIT as int / 92;
    let f = |k: int| 92 * k + j;
    let x = set_int_range(0, m);
    assert(92 * m == CHARSET_LIMIT);
    assert forall|d: int| standard_bucket(j).contains(d) implies x.map(f).contains(d) by {
        let k = d / 92;
        lemma_fundamental_div_mod(d, 92);
        assert(d == 92 * k + j);
        assert(0 <= k < m);
        assert(x.contains(k) && f(k) == d);
    }
    assert forall|d: int| x.map(f).contains(d) implies standard_bucket(j).contains(d) by {
        let k = choose|k: int| x.contains(k) && f(k) == d;
        lemma_fundamental_div_mod_converse(d, 92, k, j);
        assert(0 <= d < CHARSET_LIMIT);
    }
    assert(x.map(f) =~= standard_bucket(j));
    assert(injective_on(f, x));
    lemma_int_range(0, m);
    lemma_map_size(x, standard_bucket(j), f);
}

/// No alphabet index is favoured: any two indices are selected by exactly
/// as many kept draws as each other. Rejection leaves no modulo bias.
pub proof fn lemma_standard_uniform(j1: int, j2: int)
    requires
        0 <= j1 < 92,
        0 <= j2 < 92,
    ensures
        standard_bucket(j1).len() == standard_bucket(j2).len(),
{
    lemma_standard_bucket_size(j1);
    lemma_standard_bucket_size(j2);
}

/// The full alphabet holds 92 distinct symbols: no byte value appears
/// twice, so uniformity over indices is uniformity over symbols.
pub proof fn lemma_charset_distinct()
    ensures
        forall|i: int, j: int|
            0 <= i < 92 && 0 <= j < 92 && i != j ==> charset()[i] != charset()[j],
{
}

/// The fast alphabet holds 64 distinct symbols.
pub proof fn lemma_charset_fast_distinct()
    ensures
        forall|i: int, j: int|
            0 <= i < 64 && 0 <= j < 64 && i != j ==> charset_fast()[i] != charset_fast()[j],
{
}

/// The kept draws that select the symbol `b` itself.
pub open spec fn symbol_draws(b: u8) -> Set<int> {
    Set::new(|d: int| 0 <= d < CHARSET_LIMIT && standard_symbol_spec(d as u32) == b)
}

/// No symbol of the full alphabet is favoured: every symbol is selected
/// by exactly `CHARSET_LIMIT / 92` of the kept draws.
pub proof fn lemma_symbol_uniform(b: u8)
    requires
        charset().contains(b),
    ensures
        symbol_draws(b).finite(),
        symbol_draws(b).len() == CHARSET_LIMIT as int / 92,
{
    let j = choose|j: int| 0 <= j < 92 && charset()[j] == b;
    lemma_charset_distinct();
    assert forall|d: int| symbol_draws(b).contains(d) implies standard_bucket(j).contains(d) by {
        assert(0 <= d % 92 < 92);
        assert(charset()[d % 92] == b);
    }
    assert(symbol_draws(b) =~= standard_bucket(j));
    lemma_standard_bucket_size(j);
}

// ---------------------------------------------------------------------------
// Fast mode: every draw yields a symbol, no rejection path exists.
// ---------------------------------------------------------------------------
/// Any 64-bit draw whatsoever yields a member of the fast alphabet: the
/// 64-symbol size divides the draw space evenly, so the sampler is total
/// and never discards a draw.
pub proof fn lemma_fast_total(bits: u64)
    ensures
        charset_fast().contains(fast_symbol_spec(bits)),
{
    lemma_mask6_in_range_u64(bits);
    assert(charset_fast()[(bits & 63) as int] == fast_symbol_spec(bits));
}

/// The batched byte mapping and the scalar draw mapping agree: a byte
/// mapped by the batch pass yields exactly the symbol the scalar path
/// would select from the same bits. The batch pass is an optimisation,
/// never a semantic change.
pub proof fn lemma_batch_matches_scalar(b: u8)
    ensures
        crate::alphabet::fast_symbol_of(b) == fast_symbol_spec(b as u64),
{
    assert((b & 63) == ((b as u64) & 63) as u8) by (bit_vector);
}

// ---------------------------------------------------------------------------
// Word mode: payload shape.
// ---------------------------------------------------------------------------
/// A passphrase of at least one word is non-empty, starts with a word
/// byte and ends with a word byte: there is no leading and no trailing
/// separator.
pub proof fn lemma_words_payload_shape(ws: Seq<int>)
    requires
        ws.len() >= 1,
        forall|k: int| 0 <= k < ws.len() ==> 0 <= #[trigger] ws[k] < DICT_LEN,
    ensures
        words_payload(ws).len() >= 1,
        words_payload(ws).first() != WORD_SEP,
        words_payload(ws).last() != WORD_SEP,
    decreases ws.len(),
{
    lemma_dict_wf();
    if ws.len() == 1 {
        assert(words_payload(ws) == dict_spec()[ws[0]]);
    } else {
        lemma_words_payload_shape(ws.drop_last());
        let rest = words_payload(ws.drop_last());
        let last_word = dict_spec()[ws.last()];
        assert(words_payload(ws) == rest + seq![WORD_SEP] + last_word);
        assert(words_payload(ws).first() == rest.first());
        assert(words_payload(ws).last() == last_word.last());
    }
}

// ---------------------------------------------------------------------------
// Payload cleanliness: no payload byte collides with the framing.
// ---------------------------------------------------------------------------
/// Every byte of every valid payload is frame-safe: printable, never a
/// newline, a double quote or a backslash.
pub proof fn lemma_payload_frame_safe(p: Seq<u8>, mode: AlphabetMode, length: nat)
    requires
        payload_ok(p, mode, length),
    ensures
        forall|i: int| 0 <= i < p.len() ==> frame_safe(#[trigger] p[i]),
{
    match mode {
        AlphabetMode::Standard => {
            lemma_charset_frame_safe();
            assert forall|i: int| 0 <= i < p.len() implies frame_safe(#[trigger] p[i]) by {
                let k = choose|k: int| 0 <= k < charset().len() && charset()[k] == p[i];
            }
        },
        AlphabetMode::Fast => {
            lemma_charset_fast_frame_safe();
            assert forall|i: int| 0 <= i < p.len() implies frame_safe(#[trigger] p[i]) by {
                let k = choose|k: int| 0 <= k < charset_fast().len() && charset_fast()[k] == p[i];
            }
        },
        AlphabetMode::Words => {
            let ws = choose|ws: Seq<int>|
                crate::encode::words_indices_ok(ws, length) && p == words_payload(ws);
            lemma_words_payload_safe(ws);
        },
    }
}

/// Every byte of a passphrase is frame-safe: word bytes are lowercase
/// letters and the separator is a hyphen.
pub proof fn lemma_words_payload_safe(ws: Seq<int>)
    requires
        forall|k: int| 0 <= k < ws.len() ==> 0 <= #[trigger] ws[k] < DICT_LEN,
    ensures
        forall|i: int| 0 <= i < words_payload(ws).len() ==> frame_safe(
            #[trigger] words_payload(ws)[i],
        ),
    decreases ws.len(),
{
    lemma_dict_wf();
    if ws.len() == 0 {
    } else if ws.len() == 1 {
        assert(words_payload(ws) == dict_spec()[ws[0]]);
    } else {
        lemma_words_payload_safe(ws.drop_last());
        let rest = words_payload(ws.drop_last());
        let last_word = dict_spec()[ws.last()];
        assert(words_payload(ws) == rest + seq![WORD_SEP] + last_word);
        assert forall|i: int| 0 <= i < words_payload(ws).len() implies frame_safe(
            #[trigger] words_payload(ws)[i],
        ) by {
            if i < rest.len() {
                assert(words_payload(ws)[i] == rest[i]);
            } else if i == rest.len() {
                assert(words_payload(ws)[i] == WORD_SEP);
            } else {
                assert(words_payload(ws)[i] == last_word[i - rest.len() - 1]);
            }
        }
    }
}

// ---------------------------------------------------------------------------
// CSV round trip: line structure of the output.
// ---------------------------------------------------------------------------
/// How many bytes equal to `t` a byte sequence holds.
pub open spec fn byte_count(s: Seq<u8>, t: u8) -> nat
    decreases s.len(),
{
    if s.len() == 0 {
        0
    } else {
        byte_count(s.drop_last(), t) + (if s.last() == t {
            1nat
        } else {
            0nat
        })
    }
}

/// How many newline bytes a byte sequence holds.
pub open spec fn newline_count(s: Seq<u8>) -> nat {
    byte_count(s, 10)
}

/// How many double-quote bytes a byte sequence holds.
pub open spec fn quote_count(s: Seq<u8>) -> nat {
    byte_count(s, 34)
}

/// Byte counting distributes over concatenation.
pub proof fn lemma_byte_count_concat(a: Seq<u8>, b: Seq<u8>, t: u8)
    ensures
        byte_count(a + b, t) == byte_count(a, t) + byte_count(b, t),
    decreases b.len(),
{
    if b.len() == 0 {
        assert(a + b =~= a);
    } else {
        lemma_byte_count_concat(a, b.drop_last(), t);
        assert((a + b).drop_last() =~= a + b.drop_last());
        assert((a + b).last() == b.last());
    }
}

/// A sequence without the byte counts zero of it.
pub proof fn lemma_byte_count_none(s: Seq<u8>, t: u8)
    requires
        forall|i: int| 0 <= i < s.len() ==> #[trigger] s[i] != t,
    ensures
        byte_count(s, t) == 0,
    decreases s.len(),
{
    if s.len() > 0 {
        lemma_byte_count_none(s.drop_last(), t);
    }
}

/// One CSV record is exactly one line: its only newline is its last byte.
pub proof fn lemma_csv_record_one_line(id: nat, p: Seq<u8>, mode: AlphabetMode, length: nat)
    requires
        payload_ok(p, mode, length),
    ensures
        newline_count(record_bytes(id, p, OutputFormat::Csv)) == 1,
        record_bytes(id, p, OutputFormat::Csv).last() == 10,
{
    let body = dec_spec(id) + seq![',' as u8] + p;
    lemma_dec_spec_digits(id);
    lemma_payload_frame_safe(p, mode, length);
    lemma_byte_count_none(body, 10);
    lemma_byte_count_concat(body, seq!['\n' as u8], 10);
    assert(record_bytes(id, p, OutputFormat::Csv) =~= body + seq!['\n' as u8]);
    assert(newline_count(seq!['\n' as u8]) == 1) by {
        assert(seq!['\n' as u8].last() == 10);
        assert(seq!['\n' as u8].drop_last() =~= Seq::<u8>::empty());
        assert(newline_count(Seq::<u8>::empty()) == 0);
    }
}

/// A run of CSV records holds one newline per record, as its final byte
/// of each record.
pub proof fn lemma_csv_chunk_lines(
    start_id: nat,
    ps: Seq<Seq<u8>>,
    mode: AlphabetMode,
    length: nat,
)
    requires
        payloads_ok(ps, mode, length),
    ensures
        newline_count(chunk_bytes(start_id, ps, OutputFormat::Csv)) == ps.len(),
        ps.len() > 0 ==> chunk_bytes(start_id, ps, OutputFormat::Csv).last() == 10,
    decreases ps.len(),
{
    if ps.len() > 0 {
        lemma_csv_chunk_lines(start_id, ps.drop_last(), mode, length);
        let rec = record_bytes((start_id + ps.len() - 1) as nat, ps.last(), OutputFormat::Csv);
        lemma_csv_record_one_line((start_id + ps.len() - 1) as nat, ps.last(), mode, length);
        lemma_byte_count_concat(
            chunk_bytes(start_id, ps.drop_last(), OutputFormat::Csv),
            rec,
            10,
        );
    }
}

/// CSV round trip: the output for `N` records splits into exactly `N + 1`
/// newline-terminated lines — the header line and one line per record.
pub proof fn lemma_csv_line_count(ps: Seq<Seq<u8>>, mode: AlphabetMode, length: nat)
    requires
        payloads_ok(ps, mode, length),
    ensures
        newline_count(output_bytes(ps, OutputFormat::Csv)) == ps.len() + 1,
        output_bytes(ps, OutputFormat::Csv).last() == 10,
{
    let body = chunk_bytes(1, ps, OutputFormat::Csv);
    lemma_csv_chunk_lines(1, ps, mode, length);
    assert(newline_count(header_spec(OutputFormat::Csv)) == 1) by {
        assert(header_spec(OutputFormat::Csv).last() == 10);
        assert(header_spec(OutputFormat::Csv).drop_last() =~= seq![
            'i' as u8, 'd' as u8, ',' as u8, 'p' as u8, 'a' as u8, 's' as u8, 's' as u8,
            'w' as u8, 'o' as u8, 'r' as u8, 'd' as u8,
        ]);
        lemma_byte_count_none(header_spec(OutputFormat::Csv).drop_last(), 10);
    }
    lemma_byte_count_concat(header_spec(OutputFormat::Csv), body, 10);
    assert(output_bytes(ps, OutputFormat::Csv) =~= header_spec(OutputFormat::Csv) + body);
    if ps.len() == 0 {
        assert(output_bytes(ps, OutputFormat::Csv).last() == 10) by {
            assert(body =~= Seq::<u8>::empty());
            assert(output_bytes(ps, OutputFormat::Csv) =~= header_spec(OutputFormat::Csv));
        }
    }
}


// ---------------------------------------------------------------------------
// JSON round trip: quote structure of the output.
// ---------------------------------------------------------------------------
/// One JSON record holds exactly two double quotes: the pair around its
/// payload string.
pub proof fn lemma_json_record_quotes(id: nat, p: Seq<u8>, mode: AlphabetMode, length: nat)
    requires
        payload_ok(p, mode, length),
    ensures
        quote_count(record_bytes(id, p, OutputFormat::Json)) == 2,
{
    let prefix = if id == 1 {
        seq![' ' as u8, ' ' as u8, '"' as u8]
    } else {
        seq![',' as u8, '\n' as u8, ' ' as u8, ' ' as u8, '"' as u8]
    };
    lemma_payload_frame_safe(p, mode, length);
    lemma_byte_count_none(p, 34);
    assert(byte_count(prefix, 34) == 1) by {
        reveal_with_fuel(byte_count, 8);
    }
    assert(byte_count(seq!['"' as u8], 34) == 1) by {
        reveal_with_fuel(byte_count, 3);
    }
    lemma_byte_count_concat(prefix, p, 34);
    lemma_byte_count_concat(prefix + p, seq!['"' as u8], 34);
    assert(record_bytes(id, p, OutputFormat::Json) =~= (prefix + p) + seq!['"' as u8]);
}

/// A run of JSON records holds exactly two double quotes per record.
pub proof fn lemma_json_chunk_quotes(
    start_id: nat,
    ps: Seq<Seq<u8>>,
    mode: AlphabetMode,
    length: nat,
)
    requires
        payloads_ok(ps, mode, length),
    ensures
        quote_count(chunk_bytes(start_id, ps, OutputFormat::Json)) == 2 * ps.len(),
    decreases ps.len(),
{
    if ps.len() > 0 {
        lemma_json_chunk_quotes(start_id, ps.drop_last(), mode, length);
        let rec = record_bytes((start_id + ps.len() - 1) as nat, ps.last(), OutputFormat::Json);
        lemma_json_record_quotes((start_id + ps.len() - 1) as nat, ps.last(), mode, length);
        lemma_byte_count_concat(
            chunk_bytes(start_id, ps.drop_last(), OutputFormat::Json),
            rec,
            34,
        );
    }
}

/// JSON round trip: the output for `N` records is one bracketed array
/// holding exactly `N` quoted strings — it opens with the bracket, closes
/// with it, and holds exactly `2 N` double quotes, none of which comes
/// from a payload.
pub proof fn lemma_json_array_shape(ps: Seq<Seq<u8>>, mode: AlphabetMode, length: nat)
    requires
        payloads_ok(ps, mode, length),
    ensures
        quote_count(output_bytes(ps, OutputFormat::Json)) == 2 * ps.len(),
        output_bytes(ps, OutputFormat::Json).first() == '[' as u8,
        output_bytes(ps, OutputFormat::Json).last() == ']' as u8,
{
    let body = chunk_bytes(1, ps, OutputFormat::Json);
    lemma_json_chunk_quotes(1, ps, mode, length);
    assert(byte_count(header_spec(OutputFormat::Json), 34) == 0) by {
        reveal_with_fuel(byte_count, 4);
    }
    assert(byte_count(footer_spec(OutputFormat::Json), 34) == 0) by {
        reveal_with_fuel(byte_count, 4);
    }
    lemma_byte_count_concat(header_spec(OutputFormat::Json), body, 34);
    lemma_byte_count_concat(header_spec(OutputFormat::Json) + body, footer_spec(OutputFormat::Json), 34);
    assert(output_bytes(ps, OutputFormat::Json) =~= (header_spec(OutputFormat::Json) + body)
        + footer_spec(OutputFormat::Json));
}


/// The position of the last byte equal to `t` in `s`, or `-1` if there
/// is none.
pub open spec fn rfind_byte(s: Seq<u8>, t: u8) -> int
    decreases s.len(),
{
    if s.len() == 0 {
        -1
    } else if s.last() == t {
        s.len() - 1
    } else {
        rfind_byte(s.drop_last(), t)
    }
}

/// The position of the last double quote in `s`, or `-1` if there is none.
pub open spec fn rfind_quote(s: Seq<u8>) -> int {
    rfind_byte(s, 34)
}

/// A tail free of the byte does not move its last position.
pub proof fn lemma_rfind_clean_tail(a: Seq<u8>, b: Seq<u8>, t: u8)
    requires
        forall|i: int| 0 <= i < b.len() ==> #[trigger] b[i] != t,
    ensures
        rfind_byte(a + b, t) == rfind_byte(a, t),
    decreases b.len(),
{
    if b.len() == 0 {
        assert(a + b =~= a);
    } else {
        assert((a + b).last() == b.last());
        assert((a + b).drop_last() =~= a + b.drop_last());
        lemma_rfind_clean_tail(a, b.drop_last(), t);
    }
}

/// Reads one JSON array body from the back: the closing quote, the
/// payload, the opening quote with its indent, and — for every record but
/// the first — the separator, then the records before it.
pub open spec fn parse_json_body(s: Seq<u8>) -> Option<Seq<Seq<u8>>>
    decreases s.len(),
{
    if s.len() == 0 {
        Some(Seq::empty())
    } else if s.last() != 34 {
        None
    } else {
        let body = s.drop_last();
        let open = rfind_quote(body);
        if open < 0 || open >= body.len() {
            None
        } else {
            let p = body.subrange(open + 1, body.len() as int);
            let before = body.subrange(0, open + 1);
            if before == seq![' ' as u8, ' ' as u8, '"' as u8] {
                Some(seq![p])
            } else if open >= 4 && before.subrange(open - 4, open + 1) == seq![
                ',' as u8,
                '\n' as u8,
                ' ' as u8,
                ' ' as u8,
                '"' as u8,
            ] {
                match parse_json_body(before.subrange(0, open - 4)) {
                    Some(ps) => if ps.len() >= 1 {
                        Some(ps.push(p))
                    } else {
                        None
                    },
                    None => None,
                }
            } else {
                None
            }
        }
    }
}

/// Reads a whole JSON output: the bracket framing, then the body.
pub open spec fn parse_json_output(s: Seq<u8>) -> Option<Seq<Seq<u8>>> {
    if s.len() >= 4 && s[0] == '[' as u8 && s[1] == '\n' as u8 && s[s.len() - 2] == '\n' as u8
        && s[s.len() - 1] == ']' as u8 {
        parse_json_body(s.subrange(2, s.len() - 2))
    } else {
        None
    }
}

/// Parsing a run of JSON records starting at id 1 recovers exactly the
/// payloads that were encoded.
pub proof fn lemma_json_body_round_trip(ps: Seq<Seq<u8>>, mode: AlphabetMode, length: nat)
    requires
        payloads_ok(ps, mode, length),
        ps.len() >= 1,
    ensures
        parse_json_body(chunk_bytes(1, ps, OutputFormat::Json)) == Some(ps),
    decreases ps.len(),
{
    let s = chunk_bytes(1, ps, OutputFormat::Json);
    let p = ps.last();
    lemma_payload_frame_safe(p, mode, length);
    if ps.len() == 1 {
        let prefix = seq![' ' as u8, ' ' as u8, '"' as u8];
        assert(s =~= (prefix + p) + seq!['"' as u8]);
        assert(s.last() == 34);
        let body = s.drop_last();
        assert(body =~= prefix + p);
        lemma_rfind_clean_tail(prefix, p, 34);
        assert(rfind_quote(prefix) == 2);
        assert(rfind_quote(body) == 2);
        assert(body.subrange(3, body.len() as int) =~= p);
        assert(body.subrange(0, 3) =~= prefix);
        assert(parse_json_body(s) == Some(seq![p]));
        assert(seq![p] =~= ps);
    } else {
        let prev = chunk_bytes(1, ps.drop_last(), OutputFormat::Json);
        let sep = seq![',' as u8, '\n' as u8, ' ' as u8, ' ' as u8, '"' as u8];
        assert(ps.len() >= 2);
        assert(record_bytes((ps.len()) as nat, p, OutputFormat::Json) =~= (sep + p) + seq![
            '"' as u8,
        ]);
        assert(s =~= (prev + sep + p) + seq!['"' as u8]);
        assert(s.last() == 34);
        let body = s.drop_last();
        assert(body =~= prev + sep + p);
        lemma_rfind_clean_tail(prev + sep, p, 34);
        assert(body =~= (prev + sep) + p);
        assert((prev + sep).last() == 34);
        let open = rfind_quote(body);
        assert(open == prev.len() + 4);
        assert(body.subrange(open + 1, body.len() as int) =~= p);
        let before = body.subrange(0, open + 1);
        assert(before =~= prev + sep);
        // The first-record shape cannot match: a record is at least four
        // bytes long, so `before` is longer than three bytes.
        lemma_json_record_nonempty(1, ps.drop_last());
        assert(before.len() >= 5 + 1);
        assert(before != seq![' ' as u8, ' ' as u8, '"' as u8]);
        assert(before.subrange(open - 4, open + 1) =~= sep);
        assert(before.subrange(0, open - 4) =~= prev);
        lemma_json_body_round_trip(ps.drop_last(), mode, length);
        assert(parse_json_body(s) == Some(ps.drop_last().push(p)));
        assert(ps.drop_last().push(p) =~= ps);
    }
}

/// A non-empty run of records encodes to at least one byte.
pub proof fn lemma_json_record_nonempty(start_id: nat, ps: Seq<Seq<u8>>)
    requires
        ps.len() >= 1,
    ensures
        chunk_bytes(start_id, ps, OutputFormat::Json).len() >= 1,
{
    let rec = record_bytes((start_id + ps.len() - 1) as nat, ps.last(), OutputFormat::Json);
    assert(rec.len() >= 1);
}

/// JSON round trip, in full: parsing the output of a run recovers
/// exactly the payloads that were generated, each in its id's position.
pub proof fn lemma_json_round_trip(ps: Seq<Seq<u8>>, mode: AlphabetMode, length: nat)
    requires
        payloads_ok(ps, mode, length),
    ensures
        parse_json_output(output_bytes(ps, OutputFormat::Json)) == Some(ps),
{
    let s = output_bytes(ps, OutputFormat::Json);
    let chunk = chunk_bytes(1, ps, OutputFormat::Json);
    assert(s =~= seq!['[' as u8, '\n' as u8] + chunk + seq!['\n' as u8, ']' as u8]);
    assert(s.len() == chunk.len() + 4);
    assert(s[0] == '[' as u8 && s[1] == '\n' as u8);
    assert(s[s.len() - 2] == '\n' as u8 && s[s.len() - 1] == ']' as u8);
    assert(s.subrange(2, s.len() - 2) =~= chunk);
    if ps.len() == 0 {
        assert(chunk =~= Seq::<u8>::empty());
        assert(Some(Seq::<Seq<u8>>::empty()) == Some(ps)) by {
            assert(Seq::<Seq<u8>>::empty() =~= ps);
        }
    } else {
        lemma_json_body_round_trip(ps, mode, length);
    }
}


// ---------------------------------------------------------------------------
// Word mode: exact uniformity for the power-of-two dictionary.
// ---------------------------------------------------------------------------
/// The 32-bit draws that select dictionary index `j`.
pub open spec fn word_bucket(j: int) -> Set<int> {
    Set::new(|d: int| 0 <= d < 0x1_0000_0000 && (d * DICT_LEN) / 0x1_0000_0000 == j)
}

/// With the 64-entry dictionary the multiply-shift sampler is exactly
/// uniform, not merely near-uniform: the draws selecting index `j` are
/// exactly the contiguous range `[j * 2^26, (j + 1) * 2^26)`, so every
/// index is selected by exactly `2^26` of the `2^32` draws.
pub proof fn lemma_word_bucket_size(j: int)
    requires
        0 <= j < DICT_LEN,
    ensures
        word_bucket(j).finite(),
        word_bucket(j).len() == 0x400_0000,
{
    assert forall|d: int| word_bucket(j).contains(d) implies set_int_range(
        j * 0x400_0000,
        (j + 1) * 0x400_0000,
    ).contains(d) by {
        lemma_div_denominator(d * 64, 64, 0x400_0000);
        lemma_div_multiples_vanish(d, 64);
        assert((d * 64) / 64 == d);
        assert(d / 0x400_0000 == j);
        lemma_fundamental_div_mod(d, 0x400_0000);
    }
    assert forall|d: int| set_int_range(j * 0x400_0000, (j + 1) * 0x400_0000).contains(d) implies
        word_bucket(j).contains(d) by {
        assert(0 <= d < 0x1_0000_0000);
        lemma_div_denominator(d * 64, 64, 0x400_0000);
        lemma_div_multiples_vanish(d, 64);
        assert((d * 64) / 64 == d);
        assert((d * DICT_LEN) / 0x1_0000_0000 == d / 0x400_0000);
        lemma_fundamental_div_mod_converse(d, 0x400_0000, j, d - j * 0x400_0000);
    }
    assert(word_bucket(j) =~= set_int_range(j * 0x400_0000, (j + 1) * 0x400_0000));
    lemma_int_range(j * 0x400_0000, (j + 1) * 0x400_0000);
}

/// No dictionary index is favoured.
pub proof fn lemma_word_uniform(j1: int, j2: int)
    requires
        0 <= j1 < DICT_LEN,
        0 <= j2 < DICT_LEN,
    ensures
        word_bucket(j1).len() == word_bucket(j2).len(),
{
    lemma_word_bucket_size(j1);
    lemma_word_bucket_size(j2);
}


// ---------------------------------------------------------------------------
// CSV round trip, in full: parsing recovers the ids and the payloads.
// ---------------------------------------------------------------------------
/// The position of the first byte equal to `t` in `s`, or `-1` if there
/// is none.
pub open spec fn ffind_byte(s: Seq<u8>, t: u8) -> int
    decreases s.len(),
{
    if s.len() == 0 {
        -1
    } else if s[0] == t {
        0
    } else if ffind_byte(s.drop_first(), t) < 0 {
        -1
    } else {
        ffind_byte(s.drop_first(), t) + 1
    }
}

/// A head free of the byte puts its first position right after the head.
pub proof fn lemma_ffind_skip_clean_head(a: Seq<u8>, b: Seq<u8>, t: u8)
    requires
        forall|i: int| 0 <= i < a.len() ==> #[trigger] a[i] != t,
        b.len() >= 1,
        b[0] == t,
    ensures
        ffind_byte(a + b, t) == a.len(),
    decreases a.len(),
{
    if a.len() == 0 {
        assert(a + b =~= b);
    } else {
        assert((a + b)[0] == a[0]);
        assert((a + b).drop_first() =~= a.drop_first() + b);
        lemma_ffind_skip_clean_head(a.drop_first(), b, t);
    }
}

/// A non-empty run of decimal digit bytes.
pub open spec fn is_digit_bytes(s: Seq<u8>) -> bool {
    s.len() >= 1 && forall|i: int| 0 <= i < s.len() ==> 48 <= #[trigger] s[i] <= 57
}

/// The number a run of digit bytes spells, most significant first.
pub open spec fn dec_value(s: Seq<u8>) -> int
    decreases s.len(),
{
    if s.len() == 0 {
        0
    } else {
        dec_value(s.drop_last()) * 10 + (s.last() - 48)
    }
}

/// Reading back a decimal encoding yields the encoded number.
pub proof fn lemma_dec_value_inverse(n: nat)
    ensures
        dec_value(dec_spec(n)) == n,
    decreases n,
{
    if n < 10 {
        assert(dec_spec(n) == seq![(48 + n) as u8]);
        assert(dec_spec(n).last() == (48 + n) as u8);
        assert(dec_spec(n).drop_last() =~= Seq::<u8>::empty());
        assert(dec_value(Seq::<u8>::empty()) == 0);
    } else {
        lemma_dec_value_inverse(n / 10);
        assert(dec_spec(n) == dec_spec(n / 10).push((48 + n % 10) as u8));
        assert(dec_spec(n).last() == (48 + n % 10) as u8);
        assert(dec_spec(n).drop_last() =~= dec_spec(n / 10));
    }
}

/// Reads one CSV record line (without its newline): the decimal id up to
/// the first comma, then the payload.
pub open spec fn parse_csv_record(line: Seq<u8>) -> Option<(int, Seq<u8>)> {
    let c = ffind_byte(line, 44);
    if c <= 0 {
        None
    } else {
        let digits = line.subrange(0, c);
        let payload = line.subrange(c + 1, line.len() as int);
        if is_digit_bytes(digits) {
            Some((dec_value(digits), payload))
        } else {
            None
        }
    }
}

/// Reads a whole CSV output from the back: the header record alone ends
/// the recursion, and each record line must carry the id that equals its
/// one-based position.
pub open spec fn parse_csv_output(s: Seq<u8>) -> Option<Seq<Seq<u8>>>
    decreases s.len(),
{
    if s == header_spec(OutputFormat::Csv) {
        Some(Seq::empty())
    } else if s.len() == 0 || s.last() != 10 {
        None
    } else {
        let body = s.drop_last();
        let nl = rfind_byte(body, 10);
        if nl < 0 || nl >= body.len() {
            None
        } else {
            let line = body.subrange(nl + 1, body.len() as int);
            let before = body.subrange(0, nl + 1);
            match parse_csv_record(line) {
                Some((id, p)) => match parse_csv_output(before) {
                    Some(ps) => if id == ps.len() + 1 {
                        Some(ps.push(p))
                    } else {
                        None
                    },
                    None => None,
                },
                None => None,
            }
        }
    }
}

/// CSV round trip, in full: parsing the output of a run recovers exactly
/// the payloads that were generated, and checks on the way that the
/// embedded ids are dense from 1 — one line per record, in id order.
#[verifier::rlimit(100)]
pub proof fn lemma_csv_round_trip(ps: Seq<Seq<u8>>, mode: AlphabetMode, length: nat)
    requires
        payloads_ok(ps, mode, length),
    ensures
        parse_csv_output(output_bytes(ps, OutputFormat::Csv)) == Some(ps),
    decreases ps.len(),
{
    let header = header_spec(OutputFormat::Csv);
    let s = output_bytes(ps, OutputFormat::Csv);
    assert(s =~= header + chunk_bytes(1, ps, OutputFormat::Csv));
    if ps.len() == 0 {
        assert(s =~= header);
        assert(Some(Seq::<Seq<u8>>::empty()) == Some(ps)) by {
            assert(Seq::<Seq<u8>>::empty() =~= ps);
        }
    } else {
        let p = ps.last();
        let id: nat = ps.len() as nat;
        lemma_payload_frame_safe(p, mode, length);
        lemma_dec_spec_digits(id);
        let prev = header + chunk_bytes(1, ps.drop_last(), OutputFormat::Csv);
        let tail = dec_spec(id) + seq![',' as u8] + p;
        assert(record_bytes(id, p, OutputFormat::Csv) =~= tail + seq!['\n' as u8]);
        assert(s =~= (prev + tail) + seq!['\n' as u8]);
        assert(s.len() == prev.len() + tail.len() + 1);
        assert(prev.len() >= header.len());
        assert(tail.len() >= 2);
        assert(s != header) by {
            assert(s.len() > header.len());
        }
        assert(s.last() == 10);
        let body = s.drop_last();
        assert(body =~= prev + tail);
        assert(prev.last() == 10) by {
            if ps.drop_last().len() == 0 {
                assert(prev =~= header);
            } else {
                lemma_csv_chunk_lines(1, ps.drop_last(), mode, length);
                assert(prev.last() == chunk_bytes(1, ps.drop_last(), OutputFormat::Csv).last());
            }
        }
        assert forall|i: int| 0 <= i < tail.len() implies #[trigger] tail[i] != 10 by {
            if i < dec_spec(id).len() {
                assert(tail[i] == dec_spec(id)[i]);
            } else if i == dec_spec(id).len() {
                assert(tail[i] == ',' as u8);
            } else {
                assert(tail[i] == p[i - dec_spec(id).len() - 1]);
            }
        }
        lemma_rfind_clean_tail(prev, tail, 10);
        let nl = rfind_byte(body, 10);
        assert(nl == prev.len() - 1);
        let line = body.subrange(nl + 1, body.len() as int);
        let before = body.subrange(0, nl + 1);
        assert(line =~= tail);
        assert(before =~= prev);
        lemma_ffind_skip_clean_head(dec_spec(id), seq![',' as u8] + p, 44);
        assert(dec_spec(id) + (seq![',' as u8] + p) =~= tail);
        let c = ffind_byte(line, 44);
        assert(c == dec_spec(id).len());
        assert(c >= 1);
        assert(line.subrange(0, c) =~= dec_spec(id));
        assert(line.subrange(c + 1, line.len() as int) =~= p);
        lemma_dec_value_inverse(id);
        assert(parse_csv_record(line) == Some((id as int, p)));
        lemma_csv_round_trip(ps.drop_last(), mode, length);
        assert(output_bytes(ps.drop_last(), OutputFormat::Csv) =~= prev);
        assert(parse_csv_output(s) == Some(ps.drop_last().push(p)));
        assert(ps.drop_last().push(p) =~= ps);
    }
}

} // verus!
