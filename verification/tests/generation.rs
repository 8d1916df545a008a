use passwg::chunks::{plan_chunks, CHUNK_SIZE};
use passwg::dict::dictionary;
use passwg::encode::{first_payload, AlphabetMode};
use passwg::generator::{generate_all, generate_chunk, GenerationRequest};
use passwg::writer::OutputFormat;
use passwg::GenError;

const FAST: &[u8] = b"ABCDEFGHIJKLMNOPQRSTUVWXYZabcdefghijklmnopqrstuvwxyz0123456789_-";
const FULL: &[u8] =
    b"0123456789ABCDEFGHIJKLMNOPQRSTUVWXYZabcdefghijklmnopqrstuvwxyz!#$%&'()*+,-./:;<=>?@[]^_`{|}~";

fn request(
    length: usize,
    count: u64,
    mode: AlphabetMode,
    format: OutputFormat,
) -> GenerationRequest {
    GenerationRequest { length, count, mode, rounds: 8, format }
}

#[test]
fn chunk_plan_is_dense_and_disjoint() {
    assert_eq!(plan_chunks(0).len(), 0);

    let one = plan_chunks(1);
    assert_eq!(one.len(), 1);
    assert_eq!((one[0].start_id, one[0].size), (1, 1));

    let exact = plan_chunks(CHUNK_SIZE);
    assert_eq!(exact.len(), 1);
    assert_eq!((exact[0].start_id, exact[0].size), (1, CHUNK_SIZE));

    let plan = plan_chunks(2 * CHUNK_SIZE + 123);
    assert_eq!(plan.len(), 3);
    let mut next_id = 1u64;
    for (i, c) in plan.iter().enumerate() {
        assert_eq!(c.start_id, next_id, "chunk {} starts where the last ended", i);
        assert!(c.size >= 1);
        if i + 1 < plan.len() {
            assert_eq!(c.size, CHUNK_SIZE);
        }
        next_id += c.size;
    }
    assert_eq!(next_id, 2 * CHUNK_SIZE + 123 + 1);
}

#[test]
fn ids_are_dense_across_chunk_boundaries() {
    // A count above two chunks exercises the scheduler and the id
    // numbering together.
    let count = 2 * CHUNK_SIZE + 7;
    let req = request(3, count, AlphabetMode::Fast, OutputFormat::Csv);
    let out = generate_all(&req).expect("generation succeeds");
    let text = String::from_utf8(out).expect("output is ASCII");
    let lines: Vec<&str> = text.split_terminator('\n').collect();
    assert_eq!(lines.len() as u64, count + 1);
    assert_eq!(lines[0], "id,password");
    for (i, line) in lines[1..].iter().enumerate() {
        let (id, payload) = line.split_once(',').expect("a CSV record");
        assert_eq!(id.parse::<u64>().expect("a decimal id"), i as u64 + 1);
        assert_eq!(payload.len(), 3);
    }
}

#[test]
fn standard_payload_uses_only_the_full_alphabet() {
    let req = request(50, 20, AlphabetMode::Standard, OutputFormat::Plain);
    let out = generate_all(&req).expect("generation succeeds");
    let text = String::from_utf8(out).expect("output is ASCII");
    let lines: Vec<&str> = text.split_terminator('\n').collect();
    assert_eq!(lines.len(), 20);
    for line in lines {
        assert_eq!(line.len(), 50);
        for b in line.bytes() {
            assert!(FULL.contains(&b), "byte {} outside the alphabet", b);
        }
    }
}

#[test]
fn fast_payload_uses_only_the_fast_alphabet() {
    // Length 77 exercises all three tiers: two batched 32-byte passes,
    // one ten-symbol draw and a three-symbol remainder.
    let req = request(77, 10, AlphabetMode::Fast, OutputFormat::Plain);
    let out = generate_all(&req).expect("generation succeeds");
    let text = String::from_utf8(out).expect("output is ASCII");
    let lines: Vec<&str> = text.split_terminator('\n').collect();
    assert_eq!(lines.len(), 10);
    for line in lines {
        assert_eq!(line.len(), 77);
        for b in line.bytes() {
            assert!(FAST.contains(&b), "byte {} outside the fast alphabet", b);
        }
    }
}

#[test]
fn words_payload_joins_dictionary_entries() {
    let dict: Vec<String> = dictionary()
        .into_iter()
        .map(|w| String::from_utf8(w).expect("words are ASCII"))
        .collect();
    let req = request(5, 8, AlphabetMode::Words, OutputFormat::Plain);
    let out = generate_all(&req).expect("generation succeeds");
    let text = String::from_utf8(out).expect("output is ASCII");
    let lines: Vec<&str> = text.split_terminator('\n').collect();
    assert_eq!(lines.len(), 8);
    for line in lines {
        assert!(!line.starts_with('-') && !line.ends_with('-'));
        let words: Vec<&str> = line.split('-').collect();
        assert_eq!(words.len(), 5);
        for w in words {
            assert!(dict.iter().any(|d| d == w), "{} is not a dictionary word", w);
        }
    }
}

#[test]
fn csv_round_trip_three_records() {
    // request = { length: 10, count: 3, fast alphabet, CSV } gives the
    // header plus one record per id.
    let req = request(10, 3, AlphabetMode::Fast, OutputFormat::Csv);
    let out = generate_all(&req).expect("generation succeeds");
    let text = String::from_utf8(out).expect("output is ASCII");
    assert!(text.ends_with('\n'));
    let lines: Vec<&str> = text.split_terminator('\n').collect();
    assert_eq!(lines.len(), 4);
    assert_eq!(lines[0], "id,password");
    for (i, line) in lines[1..].iter().enumerate() {
        let (id, payload) = line.split_once(',').expect("a CSV record");
        assert_eq!(id.parse::<u64>().expect("a decimal id"), i as u64 + 1);
        assert_eq!(payload.len(), 10);
        for b in payload.bytes() {
            assert!(FAST.contains(&b));
        }
    }
}

#[test]
fn json_output_is_an_array_of_exactly_n_strings() {
    let n = 4u64;
    let req = request(12, n, AlphabetMode::Standard, OutputFormat::Json);
    let out = generate_all(&req).expect("generation succeeds");
    let text = String::from_utf8(out).expect("output is ASCII");
    assert!(text.starts_with("[\n"));
    assert!(text.ends_with("\n]"));
    assert_eq!(text.bytes().filter(|&b| b == b'"').count() as u64, 2 * n);
    // Hand-parse the array: the payloads never hold quotes, brackets,
    // commas-after-quotes or backslashes, so splitting on the quote
    // pairs recovers exactly the strings.
    let body = &text[2..text.len() - 2];
    let records: Vec<&str> = body.split(",\n").collect();
    assert_eq!(records.len() as u64, n);
    for rec in records {
        let rec = rec.strip_prefix("  \"").expect("record opens with the indent and quote");
        let payload = rec.strip_suffix('"').expect("record closes with the quote");
        assert_eq!(payload.len(), 12);
        assert!(!payload.contains('"') && !payload.contains('\\'));
    }
}

#[test]
fn plain_single_passphrase_line() {
    // request = { length: 4, count: 1, words, plain } gives exactly one
    // line: four words joined by three separators.
    let req = request(4, 1, AlphabetMode::Words, OutputFormat::Plain);
    let out = generate_all(&req).expect("generation succeeds");
    let text = String::from_utf8(out).expect("output is ASCII");
    assert!(text.ends_with('\n'));
    let lines: Vec<&str> = text.split_terminator('\n').collect();
    assert_eq!(lines.len(), 1);
    assert_eq!(lines[0].matches('-').count(), 3);
    assert_eq!(lines[0].split('-').count(), 4);
}

#[test]
fn invalid_requests_are_rejected_before_generation() {
    let bad_length = request(0, 3, AlphabetMode::Fast, OutputFormat::Plain);
    assert_eq!(generate_all(&bad_length), Err(GenError::BadLength));

    let bad_count = request(8, 0, AlphabetMode::Fast, OutputFormat::Plain);
    assert_eq!(generate_all(&bad_count), Err(GenError::BadCount));

    let mut bad_rounds = request(8, 1, AlphabetMode::Fast, OutputFormat::Plain);
    bad_rounds.rounds = 10;
    assert_eq!(generate_all(&bad_rounds), Err(GenError::BadRounds));
}

#[test]
fn all_round_counts_generate() {
    for rounds in [8u8, 12, 20] {
        let mut req = request(16, 2, AlphabetMode::Standard, OutputFormat::Plain);
        req.rounds = rounds;
        let out = generate_all(&req).expect("generation succeeds");
        assert_eq!(out.iter().filter(|&&b| b == b'\n').count(), 2);
    }
}

#[test]
fn json_prefix_depends_on_the_global_first_id() {
    // A chunk that does not contain id 1 must open its first record with
    // the separator, so that concatenated chunks form one valid array.
    let head = generate_chunk(1, 2, 6, true, false, OutputFormat::Json, 8)
        .expect("generation succeeds");
    let tail = generate_chunk(3, 2, 6, true, false, OutputFormat::Json, 8)
        .expect("generation succeeds");
    let head = String::from_utf8(head).unwrap();
    let tail = String::from_utf8(tail).unwrap();
    assert!(head.starts_with("  \""));
    assert!(tail.starts_with(",\n  \""));
}

#[test]
fn independent_runs_differ() {
    // Two runs with independent entropy must never produce the same
    // output for lengths this large (overwhelming probability).
    let req = request(32, 1, AlphabetMode::Fast, OutputFormat::Plain);
    let a = generate_all(&req).expect("generation succeeds");
    let b = generate_all(&req).expect("generation succeeds");
    assert_ne!(a, b);
}

#[test]
fn first_record_payload_is_extracted_for_every_format() {
    for format in [OutputFormat::Plain, OutputFormat::Csv, OutputFormat::Json] {
        let buf = generate_chunk(1, 1, 12, true, false, format, 8).expect("generation succeeds");
        let payload = first_payload(&buf, format).expect("the first payload is recovered");
        assert_eq!(payload.len(), 12);
        for b in &payload {
            assert!(FAST.contains(b));
        }
    }
    // A word-mode record round-trips through the extractor too.
    let buf = generate_chunk(1, 1, 3, false, true, OutputFormat::Csv, 8).expect("generation succeeds");
    let payload = first_payload(&buf, OutputFormat::Csv).expect("the first payload is recovered");
    assert_eq!(payload.iter().filter(|&&b| b == b'-').count(), 2);
}
