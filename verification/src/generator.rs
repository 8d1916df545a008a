//! The generation engine: per-chunk record production and the sequential
//! whole-run driver.
//!
//! Each chunk seeds its own random stream from the operating system's
//! entropy facility; entropy failure aborts the run rather than falling
//! back to predictable seed material. The whole-run driver assembles
//! chunk buffers strictly in ascending chunk-index order, so the output
//! for a given payload sequence is deterministic.

use vstd::prelude::*;

use crate::GenError;
use crate::chunks::{CHUNK_SIZE, plan_chunks, plan_ok};
use crate::encode::{
    AlphabetMode, Tables, append_record, chunk_bytes, lemma_chunk_bytes_concat, payload_ok,
    payloads_ok, record_bytes,
};
use crate::stream::RandomStream;
use crate::writer::{OutputFormat, append_footer, append_header, footer_spec, header_spec};

verus! {

/// One immutable request: how many records, their length, the alphabet,
/// the ChaCha round count, and the output framing.
#[derive(PartialEq, Eq, Structural, Clone, Copy, Debug)]
pub struct GenerationRequest {
    pub length: usize,
    pub count: u64,
    pub mode: AlphabetMode,
    pub rounds: u8,
    pub format: OutputFormat,
}

/// The supported security-round counts of the stream cipher.
pub open spec fn valid_rounds(rounds: u8) -> bool {
    rounds == 8 || rounds == 12 || rounds == 20
}

/// A request the engine accepts: at least one record of at least one
/// symbol, with a supported round count.
pub open spec fn request_valid(req: GenerationRequest) -> bool {
    req.length >= 1 && req.count >= 1 && valid_rounds(req.rounds)
}

/// Checks a request before any generation starts: reports exactly which
/// configuration value is invalid, the length first, then the count, then
/// the rounds.
pub fn validate(req: &GenerationRequest) -> (r: Result<(), GenError>)
    ensures
        req.length == 0 ==> r == Err::<(), GenError>(GenError::BadLength),
        req.length >= 1 && req.count == 0 ==> r == Err::<(), GenError>(GenError::BadCount),
        req.length >= 1 && req.count >= 1 && !valid_rounds(req.rounds) ==> r == Err::<
            (),
            GenError,
        >(GenError::BadRounds),
        request_valid(*req) ==> r is Ok,
{
    if req.length == 0 {
        Err(GenError::BadLength)
    } else if req.count == 0 {
        Err(GenError::BadCount)
    } else if !(req.rounds == 8 || req.rounds == 12 || req.rounds == 20) {
        Err(GenError::BadRounds)
    } else {
        Ok(())
    }
}

/// The alphabet mode selected by the two mode flags; the word flag wins
/// over the fast flag.
pub open spec fn mode_of(fast_mode: bool, word_mode: bool) -> AlphabetMode {
    if word_mode {
        AlphabetMode::Words
    } else if fast_mode {
        AlphabetMode::Fast
    } else {
        AlphabetMode::Standard
    }
}

/// Executable counterpart of [`mode_of`].
pub fn mode_from_flags(fast_mode: bool, word_mode: bool) -> (m: AlphabetMode)
    ensures
        m == mode_of(fast_mode, word_mode),
{
    if word_mode {
        AlphabetMode::Words
    } else if fast_mode {
        AlphabetMode::Fast
    } else {
        AlphabetMode::Standard
    }
}

/// An empty buffer whose capacity is reserved up front for a whole chunk
/// (the worst-case record payload plus a conservative fixed overhead for
/// the id and the framing), so encoding rarely reallocates mid-chunk.
/// The capacity is only a reservation: it is clamped rather than failing
/// when the worst-case product does not fit a machine word.
fn reserve_chunk_buffer(size: u64, length: usize, mode: AlphabetMode) -> (buf: Vec<u8>)
    ensures
        buf@ == Seq::<u8>::empty(),
{
    // A symbol is one byte; a word with its separator is at most eight.
    let worst: usize = match mode {
        AlphabetMode::Words => match length.checked_mul(8) {
            Some(w) => w,
            None => usize::MAX,
        },
        _ => length,
    };
    let per: usize = match worst.checked_add(40) {
        Some(p) => p,
        None => usize::MAX,
    };
    if size <= usize::MAX as u64 {
        match (size as usize).checked_mul(per) {
            Some(cap) => Vec::with_capacity(cap),
            None => Vec::new(),
        }
    } else {
        Vec::new()
    }
}

/// Encodes one chunk of records with the given stream: ids
/// `start_id, start_id + 1, ...`, one freshly sampled payload each.
/// Returns the filled buffer, or aborts on a stream failure.
pub fn fill_chunk(
    rng: &mut RandomStream,
    start_id: u64,
    size: u64,
    length: usize,
    mode: AlphabetMode,
    format: OutputFormat,
) -> (r: Result<Vec<u8>, GenError>)
    requires
        1 <= start_id,
        start_id + size <= u64::MAX as int + 1,
    ensures
        r matches Ok(buf) ==> exists|ps: Seq<Seq<u8>>|
            ps.len() == size && payloads_ok(ps, mode, length as nat) && buf@ == chunk_bytes(
                start_id as nat,
                ps,
                format,
            ),
        r is Err ==> r == Err::<Vec<u8>, GenError>(GenError::Entropy),
        !(mode is Standard) ==> r is Ok,
{
    let tables = Tables::new();
    let mut buf: Vec<u8> = reserve_chunk_buffer(size, length, mode);
    let ghost mut ps: Seq<Seq<u8>> = Seq::empty();
    let mut i: u64 = 0;
    while i < size
        invariant
            tables.wf(),
            1 <= start_id,
            start_id + size <= u64::MAX as int + 1,
            i <= size,
            ps.len() == i,
            payloads_ok(ps, mode, length as nat),
            buf@ == chunk_bytes(start_id as nat, ps, format),
        decreases size - i,
    {
        let id: u64 = start_id + i;
        let ghost prev = buf@;
        match append_record(&mut buf, rng, &tables, id, length, mode, format) {
            Ok(()) => {},
            Err(_) => {
                return Err(GenError::Entropy);
            },
        }
        proof {
            let p = choose|p: Seq<u8>|
                payload_ok(p, mode, length as nat) && buf@ == prev + record_bytes(
                    id as nat,
                    p,
                    format,
                );
            let ps2 = ps.push(p);
            assert(ps2.drop_last() =~= ps);
            assert(start_id + ps2.len() - 1 == id);
            assert(buf@ == chunk_bytes(start_id as nat, ps2, format));
            ps = ps2;
        }
        i = i + 1;
    }
    Ok(buf)
}

/// Produces one chunk end to end: seeds a fresh stream from the entropy
/// facility, selects the alphabet from the two mode flags, and encodes
/// `size` records starting at `start_id`. Entropy failure aborts the
/// chunk; no records are produced in that case.
pub fn generate_chunk(
    start_id: u64,
    size: u64,
    length: usize,
    fast_mode: bool,
    word_mode: bool,
    format: OutputFormat,
    rounds: u8,
) -> (r: Result<Vec<u8>, GenError>)
    requires
        1 <= start_id,
        start_id + size <= u64::MAX as int + 1,
    ensures
        r matches Ok(buf) ==> exists|ps: Seq<Seq<u8>>|
            ps.len() == size && payloads_ok(ps, mode_of(fast_mode, word_mode), length as nat)
                && buf@ == chunk_bytes(start_id as nat, ps, format),
        r is Err ==> r == Err::<Vec<u8>, GenError>(GenError::Entropy),
{
    let mode = mode_from_flags(fast_mode, word_mode);
    match RandomStream::from_entropy(rounds) {
        Ok(mut rng) => fill_chunk(&mut rng, start_id, size, length, mode, format),
        Err(_) => Err(GenError::Entropy),
    }
}

/// The exact bytes of a whole run: the global header, every record in
/// ascending id order starting at 1, and the global footer.
pub open spec fn output_bytes(ps: Seq<Seq<u8>>, format: OutputFormat) -> Seq<u8> {
    header_spec(format) + chunk_bytes(1, ps, format) + footer_spec(format)
}

/// Runs a whole generation sequentially: validates the request, plans the
/// chunks, seeds one fresh stream per chunk and flushes the chunk buffers
/// in ascending chunk-index order between the global header and footer.
///
/// On any error nothing is handed to the caller: a run either delivers
/// the complete output or no bytes at all.
pub fn generate_all(req: &GenerationRequest) -> (r: Result<Vec<u8>, GenError>)
    ensures
        req.length == 0 ==> r == Err::<Vec<u8>, GenError>(GenError::BadLength),
        req.length >= 1 && req.count == 0 ==> r == Err::<Vec<u8>, GenError>(GenError::BadCount),
        req.length >= 1 && req.count >= 1 && !valid_rounds(req.rounds) ==> r == Err::<
            Vec<u8>,
            GenError,
        >(GenError::BadRounds),
        request_valid(*req) ==> {
            &&& (r matches Ok(out) ==> exists|ps: Seq<Seq<u8>>|
                ps.len() == req.count && payloads_ok(ps, req.mode, req.length as nat) && out@
                    == output_bytes(ps, req.format))
            &&& (r is Err ==> r == Err::<Vec<u8>, GenError>(GenError::Entropy))
        },
{
    match validate(req) {
        Ok(()) => {},
        Err(e) => {
            return Err(e);
        },
    }
    let plan = plan_chunks(req.count);
    let mut out: Vec<u8> = Vec::new();
    append_header(&mut out, req.format);
    let ghost mut all_ps: Seq<Seq<u8>> = Seq::empty();
    let mut ci: usize = 0;
    while ci < plan.len()
        invariant
            request_valid(*req),
            plan_ok(plan@, req.count as nat),
            ci <= plan@.len(),
            ci < plan@.len() ==> all_ps.len() == plan@[ci as int].start_id - 1,
            ci == plan@.len() ==> all_ps.len() == req.count,
            payloads_ok(all_ps, req.mode, req.length as nat),
            out@ == header_spec(req.format) + chunk_bytes(1, all_ps, req.format),
        decreases plan@.len() - ci,
    {
        let chunk = plan[ci];
        proof {
            assert(chunk.start_id == 1 + CHUNK_SIZE * ci);
            if ci + 1 < plan@.len() {
                assert(plan@[ci + 1].start_id == 1 + CHUNK_SIZE * (ci + 1));
                assert(chunk.size == CHUNK_SIZE);
            } else {
                assert(plan@.last() == chunk);
            }
            assert(chunk.start_id + chunk.size <= req.count + 1);
        }
        let mut rng = match RandomStream::from_entropy(req.rounds) {
            Ok(rng) => rng,
            Err(_) => {
                return Err(GenError::Entropy);
            },
        };
        let mut piece = match fill_chunk(
            &mut rng,
            chunk.start_id,
            chunk.size,
            req.length,
            req.mode,
            req.format,
        ) {
            Ok(piece) => piece,
            Err(_) => {
                return Err(GenError::Entropy);
            },
        };
        let ghost piece_view = piece@;
        out.append(&mut piece);
        proof {
            let cps = choose|cps: Seq<Seq<u8>>|
                cps.len() == chunk.size && payloads_ok(cps, req.mode, req.length as nat)
                    && piece_view == chunk_bytes(chunk.start_id as nat, cps, req.format);
            lemma_chunk_bytes_concat(1, all_ps, cps, req.format);
            assert(1 + all_ps.len() == chunk.start_id);
            let all2 = all_ps + cps;
            assert(out@ =~= header_spec(req.format) + chunk_bytes(1, all2, req.format));
            assert(payloads_ok(all2, req.mode, req.length as nat));
            all_ps = all2;
            if ci + 1 < plan@.len() {
                assert(plan@[ci + 1].start_id == 1 + CHUNK_SIZE * (ci + 1));
            }
        }
        ci = ci + 1;
    }
    append_footer(&mut out, req.format);
    proof {
        assert(out@ =~= output_bytes(all_ps, req.format));
    }
    Ok(out)
}

} // verus!
