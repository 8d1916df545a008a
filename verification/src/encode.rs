//! Record encoding: rendering one logical record (optional id + payload)
//! into the chosen text framing, appended to a worker's buffer.
//!
//! The specification side pins the exact bytes of every record: the
//! decimal id, the framing around the payload, and the payload's shape
//! (symbols from the selected alphabet, or dictionary words joined by the
//! separator).

use vstd::prelude::*;

use crate::GenError;
use crate::alphabet::{
    charset, charset_fast, charset_table, charset_fast_table, frame_safe, map_fast,
};
use crate::dict::{DICT_LEN, WORD_SEP, dict_spec, dictionary};
use crate::sampler::{sample_standard, sample_word};
use crate::stream::RandomStream;
use crate::writer::OutputFormat;

verus! {

/// How payload symbols are drawn.
#[derive(PartialEq, Eq, Structural, Clone, Copy, Debug)]
pub enum AlphabetMode {
    /// The full 92-symbol alphabet, sampled with rejection.
    Standard,
    /// The 64-symbol alphabet, sampled by masking 6 bits.
    Fast,
    /// Dictionary words joined by the separator.
    Words,
}

/// The decimal digits of `n`, most significant first, no leading zeros
/// (a single `0` for zero).
pub open spec fn dec_spec(n: nat) -> Seq<u8>
    decreases n,
{
    if n < 10 {
        seq![(48 + n) as u8]
    } else {
        dec_spec(n / 10).push((48 + n % 10) as u8)
    }
}

/// Decimal encodings are non-empty and hold digit bytes only.
pub proof fn lemma_dec_spec_digits(n: nat)
    ensures
        dec_spec(n).len() >= 1,
        forall|i: int| 0 <= i < dec_spec(n).len() ==> 48 <= #[trigger] dec_spec(n)[i] <= 57,
    decreases n,
{
    if n >= 10 {
        lemma_dec_spec_digits(n / 10);
    }
}

/// Appends the decimal digits of `id` to `buf`.
pub fn append_decimal(buf: &mut Vec<u8>, id: u64)
    ensures
        final(buf)@ == old(buf)@ + dec_spec(id as nat),
    decreases id,
{
    if id >= 10 {
        append_decimal(buf, id / 10);
    }
    buf.push(48 + (id % 10) as u8);
    proof {
        if id < 10 {
            assert(buf@ =~= old(buf)@ + dec_spec(id as nat));
        }
    }
}

/// A payload of `length` symbols, each a member of the alphabet `alpha`.
pub open spec fn symbol_payload_ok(p: Seq<u8>, alpha: Seq<u8>, length: nat) -> bool {
    p.len() == length && forall|i: int| 0 <= i < p.len() ==> alpha.contains(#[trigger] p[i])
}

/// The bytes of a passphrase: the dictionary words selected by `ws`,
/// joined by the separator, with no leading or trailing separator.
pub open spec fn words_payload(ws: Seq<int>) -> Seq<u8>
    decreases ws.len(),
{
    if ws.len() == 0 {
        Seq::empty()
    } else if ws.len() == 1 {
        dict_spec()[ws[0]]
    } else {
        words_payload(ws.drop_last()) + seq![WORD_SEP] + dict_spec()[ws.last()]
    }
}

/// A well-formed selection of `length` dictionary indices.
pub open spec fn words_indices_ok(ws: Seq<int>, length: nat) -> bool {
    ws.len() == length && forall|k: int| 0 <= k < ws.len() ==> 0 <= #[trigger] ws[k] < DICT_LEN
}

/// What a payload of the given mode and length looks like.
pub open spec fn payload_ok(p: Seq<u8>, mode: AlphabetMode, length: nat) -> bool {
    match mode {
        AlphabetMode::Standard => symbol_payload_ok(p, charset(), length),
        AlphabetMode::Fast => symbol_payload_ok(p, charset_fast(), length),
        AlphabetMode::Words => exists|ws: Seq<int>|
            words_indices_ok(ws, length) && p == words_payload(ws),
    }
}

/// The lookup tables a worker uses while encoding one chunk: both symbol
/// alphabets and the passphrase dictionary, built once per chunk.
pub struct Tables {
    pub standard: Vec<u8>,
    pub fast: Vec<u8>,
    pub dict: Vec<Vec<u8>>,
}

impl Tables {
    /// The tables hold exactly the alphabets and dictionary of the
    /// specification.
    pub open spec fn wf(&self) -> bool {
        &&& self.standard@ == charset()
        &&& self.fast@ == charset_fast()
        &&& self.dict@.len() == DICT_LEN
        &&& forall|i: int| 0 <= i < DICT_LEN ==> (#[trigger] self.dict@[i])@ == dict_spec()[i]
    }

    /// Builds the tables.
    pub fn new() -> (t: Tables)
        ensures
            t.wf(),
    {
        Tables { standard: charset_table(), fast: charset_fast_table(), dict: dictionary() }
    }
}

/// Appends every byte of `w` to `buf`.
pub fn append_bytes(buf: &mut Vec<u8>, w: &Vec<u8>)
    ensures
        final(buf)@ == old(buf)@ + w@,
{
    let ghost start = buf@;
    let mut i: usize = 0;
    while i < w.len()
        invariant
            i <= w@.len(),
            buf@ == start + w@.take(i as int),
        decreases w@.len() - i,
    {
        let b: u8 = w[i];
        buf.push(b);
        proof {
            assert(w@.take(i + 1 as int) =~= w@.take(i as int).push(b));
            assert(start + w@.take(i as int).push(b) =~= (start + w@.take(i as int)).push(b));
        }
        i = i + 1;
    }
    proof {
        assert(w@.take(w@.len() as int) =~= w@);
    }
}

/// Appends `length` symbols of the full alphabet, drawn with rejection
/// sampling. Fails only if the stream keeps producing rejected draws,
/// which is treated as a stream failure.
pub fn append_standard_payload(
    buf: &mut Vec<u8>,
    rng: &mut RandomStream,
    tables: &Tables,
    length: usize,
) -> (r: Result<(), GenError>)
    requires
        tables.wf(),
    ensures
        r is Ok ==> exists|p: Seq<u8>|
            symbol_payload_ok(p, charset(), length as nat) && final(buf)@ == old(buf)@ + p,
        r is Err ==> r == Err::<(), GenError>(GenError::Entropy),
{
    let ghost start = buf@;
    let mut k: usize = 0;
    while k < length
        invariant
            tables.wf(),
            k <= length,
            buf@.len() == start.len() + k,
            buf@.take(start.len() as int) == start,
            forall|i: int|
                start.len() <= i < buf@.len() ==> charset().contains(#[trigger] buf@[i]),
        decreases length - k,
    {
        match sample_standard(rng, &tables.standard) {
            Ok(s) => {
                buf.push(s);
                proof {
                    assert(buf@.take(start.len() as int) =~= start);
                }
            },
            Err(_) => {
                return Err(GenError::Entropy);
            },
        }
        k = k + 1;
    }
    proof {
        let p = buf@.subrange(start.len() as int, buf@.len() as int);
        assert(buf@ =~= start + p);
        assert(symbol_payload_ok(p, charset(), length as nat));
    }
    Ok(())
}

/// Appends `length` symbols of the fast alphabet. Total: the power-of-two
/// alphabet needs no rejection, so no draw is ever retried and no failure
/// path exists. Symbols are produced in three tiers, largest first: a
/// batched 32-byte mapping pass, ten symbols per 64-bit draw, then single
/// symbols from the remaining bits.
pub fn append_fast_payload(
    buf: &mut Vec<u8>,
    rng: &mut RandomStream,
    tables: &Tables,
    length: usize,
)
    requires
        tables.wf(),
    ensures
        exists|p: Seq<u8>|
            symbol_payload_ok(p, charset_fast(), length as nat) && final(buf)@ == old(buf)@ + p,
{
    let ghost start = buf@;
    let mut remaining: usize = length;

    if remaining >= 32 {
        let mut rnd: Vec<u8> = Vec::new();
        let mut z: usize = 0;
        while z < 32
            invariant
                rnd@.len() == z,
                z <= 32,
            decreases 32 - z,
        {
            rnd.push(0);
            z = z + 1;
        }
        while remaining >= 32
            invariant
                tables.wf(),
                rnd@.len() == 32,
                remaining <= length,
                buf@.len() == start.len() + (length - remaining),
                buf@.take(start.len() as int) == start,
                forall|i: int|
                    start.len() <= i < buf@.len() ==> charset_fast().contains(#[trigger] buf@[i]),
            decreases remaining,
        {
            rng.fill_bytes(&mut rnd);
            crate::alphabet::Avx2Mapper::map_64_symbols(&tables.fast, &rnd, buf);
            proof {
                crate::alphabet::lemma_map_fast_members(rnd@);
                assert(buf@.take(start.len() as int) =~= start);
            }
            remaining = remaining - 32;
        }
    }

    while remaining >= 10
        invariant
            tables.wf(),
            remaining <= length,
            buf@.len() == start.len() + (length - remaining),
            buf@.take(start.len() as int) == start,
            forall|i: int|
                start.len() <= i < buf@.len() ==> charset_fast().contains(#[trigger] buf@[i]),
        decreases remaining,
    {
        let r: u64 = rng.next_u64();
        let mut shift: u32 = 0;
        let mut done: usize = 0;
        while done < 10
            invariant
                tables.wf(),
                done <= 10,
                shift == 6 * done,
                buf@.len() == start.len() + (length - remaining) + done,
                buf@.take(start.len() as int) == start,
                forall|i: int|
                    start.len() <= i < buf@.len() ==> charset_fast().contains(#[trigger] buf@[i]),
                remaining <= length,
                10 <= remaining,
            decreases 10 - done,
        {
            let s: u8 = crate::alphabet::fast_symbol(&tables.fast, r >> shift);
            buf.push(s);
            proof {
                assert(buf@.take(start.len() as int) =~= start);
            }
            shift = shift + 6;
            done = done + 1;
        }
        remaining = remaining - 10;
    }

    if remaining > 0 {
        let mut r: u64 = rng.next_u64();
        while remaining > 0
            invariant
                tables.wf(),
                remaining <= length,
                buf@.len() == start.len() + (length - remaining),
                buf@.take(start.len() as int) == start,
                forall|i: int|
                    start.len() <= i < buf@.len() ==> charset_fast().contains(#[trigger] buf@[i]),
            decreases remaining,
        {
            let s: u8 = crate::alphabet::fast_symbol(&tables.fast, r);
            buf.push(s);
            proof {
                assert(buf@.take(start.len() as int) =~= start);
            }
            r = r >> 6;
            remaining = remaining - 1;
        }
    }

    proof {
        let p = buf@.subrange(start.len() as int, buf@.len() as int);
        assert(buf@ =~= start + p);
        assert(symbol_payload_ok(p, charset_fast(), length as nat));
    }
}

/// Appends a passphrase: `length` dictionary words joined by the
/// separator, the separator written before every word but the first.
pub fn append_words_payload(
    buf: &mut Vec<u8>,
    rng: &mut RandomStream,
    tables: &Tables,
    length: usize,
)
    requires
        tables.wf(),
    ensures
        exists|ws: Seq<int>|
            words_indices_ok(ws, length as nat) && final(buf)@ == old(buf)@ + words_payload(ws),
{
    let ghost start = buf@;
    let ghost mut ws: Seq<int> = Seq::empty();
    let mut k: usize = 0;
    while k < length
        invariant
            tables.wf(),
            k <= length,
            ws.len() == k,
            forall|j: int| 0 <= j < ws.len() ==> 0 <= #[trigger] ws[j] < DICT_LEN,
            buf@ == start + words_payload(ws),
        decreases length - k,
    {
        if k > 0 {
            buf.push(WORD_SEP);
        }
        let idx: usize = sample_word(rng);
        append_bytes(buf, &tables.dict[idx]);
        proof {
            let ws2 = ws.push(idx as int);
            assert(ws2.drop_last() =~= ws);
            if k == 0 {
                assert(words_payload(ws2) == dict_spec()[idx as int]);
                assert(start + words_payload(ws) =~= start);
                assert(buf@ =~= start + words_payload(ws2));
            } else {
                assert(words_payload(ws2) == words_payload(ws) + seq![WORD_SEP]
                    + dict_spec()[idx as int]);
                assert(buf@ =~= start + words_payload(ws2));
            }
            ws = ws2;
        }
        k = k + 1;
    }
    proof {
        assert(words_indices_ok(ws, length as nat));
    }
}

/// The exact bytes of one record in the given framing.
pub open spec fn record_bytes(id: nat, p: Seq<u8>, format: OutputFormat) -> Seq<u8> {
    match format {
        OutputFormat::Plain => p + seq!['\n' as u8],
        OutputFormat::Csv => dec_spec(id) + seq![',' as u8] + p + seq!['\n' as u8],
        OutputFormat::Json => (if id == 1 {
            seq![' ' as u8, ' ' as u8, '"' as u8]
        } else {
            seq![',' as u8, '\n' as u8, ' ' as u8, ' ' as u8, '"' as u8]
        }) + p + seq!['"' as u8],
    }
}

/// The exact bytes of a run of records with consecutive ids starting at
/// `start_id`, one record per payload.
pub open spec fn chunk_bytes(start_id: nat, ps: Seq<Seq<u8>>, format: OutputFormat) -> Seq<u8>
    decreases ps.len(),
{
    if ps.len() == 0 {
        Seq::empty()
    } else {
        chunk_bytes(start_id, ps.drop_last(), format) + record_bytes(
            (start_id + ps.len() - 1) as nat,
            ps.last(),
            format,
        )
    }
}

/// Every payload of `ps` fits the mode and length.
pub open spec fn payloads_ok(ps: Seq<Seq<u8>>, mode: AlphabetMode, length: nat) -> bool {
    forall|i: int| 0 <= i < ps.len() ==> payload_ok(#[trigger] ps[i], mode, length)
}

/// Concatenating two runs of records encodes like one run, the second
/// starting where the first left off.
pub proof fn lemma_chunk_bytes_concat(
    start_id: nat,
    a: Seq<Seq<u8>>,
    b: Seq<Seq<u8>>,
    format: OutputFormat,
)
    ensures
        chunk_bytes(start_id, a + b, format) == chunk_bytes(start_id, a, format) + chunk_bytes(
            (start_id + a.len()) as nat,
            b,
            format,
        ),
    decreases b.len(),
{
    if b.len() == 0 {
        assert(a + b =~= a);
        assert(chunk_bytes(start_id, a, format) + chunk_bytes(
            (start_id + a.len()) as nat,
            b,
            format,
        ) =~= chunk_bytes(start_id, a, format));
    } else {
        lemma_chunk_bytes_concat(start_id, a, b.drop_last(), format);
        assert((a + b).drop_last() =~= a + b.drop_last());
        assert((a + b).last() == b.last());
        assert(chunk_bytes(start_id, a + b, format) =~= chunk_bytes(start_id, a, format)
            + chunk_bytes((start_id + a.len()) as nat, b, format));
    }
}

/// Appends one full record: the framing prefix for `format`, a payload of
/// the requested mode and length, and the framing suffix.
#[verifier::rlimit(50)]
pub fn append_record(
    buf: &mut Vec<u8>,
    rng: &mut RandomStream,
    tables: &Tables,
    id: u64,
    length: usize,
    mode: AlphabetMode,
    format: OutputFormat,
) -> (r: Result<(), GenError>)
    requires
        tables.wf(),
    ensures
        r is Ok ==> exists|p: Seq<u8>|
            payload_ok(p, mode, length as nat) && final(buf)@ == old(buf)@ + record_bytes(
                id as nat,
                p,
                format,
            ),
        r is Err ==> r == Err::<(), GenError>(GenError::Entropy),
        !(mode is Standard) ==> r is Ok,
{
    let ghost start = buf@;

    match format {
        OutputFormat::Csv => {
            append_decimal(buf, id);
            buf.push(',' as u8);
        },
        OutputFormat::Json => {
            if id == 1 {
                buf.push(' ' as u8);
                buf.push(' ' as u8);
                buf.push('"' as u8);
            } else {
                buf.push(',' as u8);
                buf.push('\n' as u8);
                buf.push(' ' as u8);
                buf.push(' ' as u8);
                buf.push('"' as u8);
            }
        },
        OutputFormat::Plain => {},
    }
    let ghost prefix = buf@.subrange(start.len() as int, buf@.len() as int);
    proof {
        assert(buf@ =~= start + prefix);
        match format {
            OutputFormat::Csv => {
                assert(prefix =~= dec_spec(id as nat) + seq![',' as u8]);
            },
            OutputFormat::Json => {
                if id == 1 {
                    assert(prefix =~= seq![' ' as u8, ' ' as u8, '"' as u8]);
                } else {
                    assert(prefix =~= seq![',' as u8, '\n' as u8, ' ' as u8, ' ' as u8, '"' as u8]);
                }
            },
            OutputFormat::Plain => {
                assert(prefix =~= Seq::<u8>::empty());
            },
        }
    }

    let ghost before_payload = buf@;
    match mode {
        AlphabetMode::Standard => {
            match append_standard_payload(buf, rng, tables, length) {
                Ok(()) => {},
                Err(_) => {
                    return Err(GenError::Entropy);
                },
            }
        },
        AlphabetMode::Fast => {
            append_fast_payload(buf, rng, tables, length);
        },
        AlphabetMode::Words => {
            append_words_payload(buf, rng, tables, length);
        },
    }
    let ghost p = buf@.subrange(before_payload.len() as int, buf@.len() as int);
    proof {
        assert(payload_ok(p, mode, length as nat) && buf@ == before_payload + p) by {
            match mode {
                AlphabetMode::Standard => {
                    let q = choose|q: Seq<u8>|
                        symbol_payload_ok(q, charset(), length as nat) && buf@ == before_payload
                            + q;
                    assert(p =~= q);
                },
                AlphabetMode::Fast => {
                    let q = choose|q: Seq<u8>|
                        symbol_payload_ok(q, charset_fast(), length as nat) && buf@
                            == before_payload + q;
                    assert(p =~= q);
                },
                AlphabetMode::Words => {
                    let ws = choose|ws: Seq<int>|
                        words_indices_ok(ws, length as nat) && buf@ == before_payload
                            + words_payload(ws);
                    assert(p =~= words_payload(ws));
                },
            }
        }
    }

    match format {
        OutputFormat::Json => {
            buf.push('"' as u8);
        },
        _ => {
            buf.push('\n' as u8);
        },
    }
    proof {
        match format {
            OutputFormat::Csv => {
                assert(buf@ =~= start + record_bytes(id as nat, p, format));
            },
            OutputFormat::Json => {
                assert(buf@ =~= start + record_bytes(id as nat, p, format));
            },
            OutputFormat::Plain => {
                assert(buf@ =~= start + record_bytes(id as nat, p, format));
            },
        }
    }
    Ok(())
}


/// Copies `buf[from..to]` into a fresh vector.
fn copy_range(buf: &Vec<u8>, from: usize, to: usize) -> (v: Vec<u8>)
    requires
        from <= to <= buf@.len(),
    ensures
        v@ == buf@.subrange(from as int, to as int),
{
    let mut v: Vec<u8> = Vec::new();
    let mut i: usize = from;
    while i < to
        invariant
            from <= i <= to,
            to <= buf@.len(),
            v@ == buf@.subrange(from as int, i as int),
        decreases to - i,
    {
        let b: u8 = buf[i];
        v.push(b);
        proof {
            assert(buf@.subrange(from as int, i + 1 as int) =~= buf@.subrange(
                from as int,
                i as int,
            ).push(b));
        }
        i = i + 1;
    }
    v
}

/// Extracts the payload of a buffer that holds exactly the record with
/// id 1 in the given framing: the bytes between the framing prefix and
/// suffix. Used to capture the first generated record (for example for a
/// clipboard) without re-parsing in unverified code.
pub fn first_payload(buf: &Vec<u8>, format: OutputFormat) -> (r: Option<Vec<u8>>)
    ensures
        forall|p: Seq<u8>|
            buf@ == #[trigger] record_bytes(1, p, format) && (forall|i: int|
                0 <= i < p.len() ==> frame_safe(#[trigger] p[i])) ==> (r matches Some(v) && v@
                == p),
{
    let n = buf.len();
    let mut nl: usize = 0;
    while nl < n && buf[nl] != 10
        invariant
            nl <= n,
            n == buf@.len(),
            forall|j: int| 0 <= j < nl ==> buf@[j] != 10,
        decreases n - nl,
    {
        nl = nl + 1;
    }
    match format {
        OutputFormat::Plain => {
            let v = copy_range(buf, 0, nl);
            proof {
                assert forall|p: Seq<u8>|
                    buf@ == #[trigger] record_bytes(1, p, format) && (forall|i: int|
                        0 <= i < p.len() ==> frame_safe(#[trigger] p[i])) implies v@ == p by {
                    assert(buf@ =~= p + seq![10u8]);
                    assert(buf@[p.len() as int] == 10);
                    assert(nl == p.len());
                    assert(v@ =~= p);
                }
            }
            Some(v)
        },
        OutputFormat::Csv => {
            let mut c: usize = 0;
            while c < nl && buf[c] != 44
                invariant
                    c <= nl,
                    nl <= n,
                    n == buf@.len(),
                    forall|j: int| 0 <= j < c ==> buf@[j] != 44,
                decreases nl - c,
            {
                c = c + 1;
            }
            if c < nl {
                let v = copy_range(buf, c + 1, nl);
                proof {
                    assert forall|p: Seq<u8>|
                        buf@ == #[trigger] record_bytes(1, p, format) && (forall|i: int|
                            0 <= i < p.len() ==> frame_safe(#[trigger] p[i])) implies v@ == p by {
                        assert(dec_spec(1) == seq![49u8]);
                        assert(buf@ =~= seq![49u8, 44u8] + p + seq![10u8]);
                        assert(buf@[p.len() as int + 2] == 10);
                        assert(nl == p.len() + 2);
                        assert(buf@[1] == 44);
                        assert(c == 1);
                        assert(v@ =~= p);
                    }
                }
                Some(v)
            } else {
                proof {
                    assert forall|p: Seq<u8>|
                        buf@ == #[trigger] record_bytes(1, p, format) && (forall|i: int|
                            0 <= i < p.len() ==> frame_safe(#[trigger] p[i])) implies false by {
                        assert(dec_spec(1) == seq![49u8]);
                        assert(buf@ =~= seq![49u8, 44u8] + p + seq![10u8]);
                        assert(buf@[p.len() as int + 2] == 10);
                        assert(nl == p.len() + 2);
                        assert(buf@[1] == 44);
                        assert(c == 1);
                    }
                }
                None
            }
        },
        OutputFormat::Json => {
            let shaped = n >= 4 && nl == n;
            if shaped {
                let v = copy_range(buf, 3, n - 1);
                proof {
                    assert forall|p: Seq<u8>|
                        buf@ == #[trigger] record_bytes(1, p, format) && (forall|i: int|
                            0 <= i < p.len() ==> frame_safe(#[trigger] p[i])) implies v@ == p by {
                        assert(buf@ =~= seq![32u8, 32u8, 34u8] + p + seq![34u8]);
                        assert(v@ =~= p);
                    }
                }
                Some(v)
            } else {
                proof {
                    assert forall|p: Seq<u8>|
                        buf@ == #[trigger] record_bytes(1, p, format) && (forall|i: int|
                            0 <= i < p.len() ==> frame_safe(#[trigger] p[i])) implies false by {
                        assert(buf@ =~= seq![32u8, 32u8, 34u8] + p + seq![34u8]);
                        assert(forall|j: int| 0 <= j < buf@.len() ==> buf@[j] != 10);
                        assert(nl == n);
                        assert(n == p.len() + 4);
                    }
                }
                None
            }
        },
    }
}

} // verus!
