//! Command-line argument parsing: from a raw argument list to a checked
//! configuration, with every rule of the grammar pinned by a
//! specification-level model of the parse.
//!
//! The executable parser returns a structured result; printing messages
//! and exiting is left to the caller.

use vstd::prelude::*;
use vstd::string::StrSliceExecFns;

use crate::writer::OutputFormat;

verus! {

/// A run configuration assembled from the command line.
#[derive(Debug, Clone)]
pub struct Config {
    pub length: usize,
    pub count: u64,
    pub rounds: u8,
    pub show_stats: bool,
    pub fast_mode: bool,
    pub copy_mode: bool,
    pub word_mode: bool,
    pub out_file: Option<String>,
    pub format: OutputFormat,
}

/// Why an argument list is rejected.
#[derive(PartialEq, Eq, Structural, Clone, Copy, Debug)]
pub enum ArgError {
    /// The help flag was given; the caller should print usage and stop.
    HelpRequested,
    /// The output-file flag came last, with no file name after it.
    MissingFileName,
    /// The rounds flag came last, with no value after it.
    MissingRounds,
    /// The rounds value is not one of the supported counts.
    BadRounds,
    /// An argument starting with a dash is not a known flag.
    UnknownFlag,
    /// A positional argument is not a number.
    BadArgument,
    /// The requested length is zero.
    ZeroLength,
    /// The requested count is zero.
    ZeroCount,
}

/// A condition worth reporting that does not stop the run.
#[derive(PartialEq, Eq, Structural, Clone, Copy, Debug)]
pub enum ArgWarning {
    /// The copy flag is ignored when an output file is given.
    CopyIgnored,
    /// The fast flag is ignored in word mode.
    FastIgnored,
    /// Word mode with an unusually large word count.
    ManyWords,
}

/// A successful parse: the configuration and the warnings to report.
#[derive(Debug, Clone)]
pub struct ParseOutcome {
    pub config: Config,
    pub warnings: Vec<ArgWarning>,
}

/// The parser's running state, as the specification models it.
pub struct ArgState {
    pub length: u64,
    pub count: u64,
    pub rounds: u8,
    pub show_stats: bool,
    pub fast_mode: bool,
    pub copy_mode: bool,
    pub word_mode: bool,
    pub out_file: Option<Seq<char>>,
    pub format: OutputFormat,
    pub nums: Seq<u64>,
}

/// The finished parse, as the specification models it.
pub struct ParsedModel {
    pub length: u64,
    pub count: u64,
    pub rounds: u8,
    pub show_stats: bool,
    pub fast_mode: bool,
    pub copy_mode: bool,
    pub word_mode: bool,
    pub out_file: Option<Seq<char>>,
    pub format: OutputFormat,
    pub warn_copy_ignored: bool,
    pub warn_fast_ignored: bool,
    pub warn_many_words: bool,
}

/// The defaults before any argument is read: one 16-symbol record, 8
/// rounds, plain output.
pub open spec fn init_state() -> ArgState {
    ArgState {
        length: 16,
        count: 1,
        rounds: 8,
        show_stats: false,
        fast_mode: false,
        copy_mode: false,
        word_mode: false,
        out_file: None,
        format: OutputFormat::Plain,
        nums: Seq::empty(),
    }
}

/// The views of the raw arguments.
pub open spec fn arg_views(args: Seq<String>) -> Seq<Seq<char>> {
    args.map_values(|s: String| s@)
}

/// A non-empty run of decimal digit characters.
pub open spec fn is_digits(s: Seq<char>) -> bool {
    s.len() >= 1 && forall|i: int| 0 <= i < s.len() ==> 48 <= #[trigger] s[i] as u32 <= 57
}

/// The number the digit characters spell, most significant first.
pub open spec fn digits_value(s: Seq<char>) -> int
    decreases s.len(),
{
    if s.len() == 0 {
        0
    } else {
        digits_value(s.drop_last()) * 10 + (s.last() as u32 - 48)
    }
}

/// What parsing an argument as a number yields: its value if it is all
/// digits and fits, nothing otherwise.
pub open spec fn parse_u64_spec(s: Seq<char>) -> Option<u64> {
    if is_digits(s) && digits_value(s) <= u64::MAX {
        Some(digits_value(s) as u64)
    } else {
        None
    }
}

/// One step of the parse: how the state changes at argument `i`, or which
/// error ends the parse there.
pub open spec fn parse_step(args: Seq<Seq<char>>, i: int, st: ArgState) -> Result<
    ArgState,
    ArgError,
>
    decreases args.len() - i,
{
    if i >= args.len() {
        Ok(st)
    } else {
        let a = args[i];
        if a == "-s"@ || a == "--stats"@ {
            parse_step(args, i + 1, ArgState { show_stats: true, ..st })
        } else if a == "-f"@ || a == "--fast"@ {
            parse_step(args, i + 1, ArgState { fast_mode: true, ..st })
        } else if a == "-c"@ || a == "--copy"@ {
            parse_step(args, i + 1, ArgState { copy_mode: true, ..st })
        } else if a == "-w"@ || a == "--words"@ {
            parse_step(
                args,
                i + 1,
                ArgState {
                    word_mode: true,
                    length: if st.length == 16 {
                        4
                    } else {
                        st.length
                    },
                    ..st
                },
            )
        } else if a == "--json"@ {
            parse_step(args, i + 1, ArgState { format: OutputFormat::Json, ..st })
        } else if a == "--csv"@ {
            parse_step(args, i + 1, ArgState { format: OutputFormat::Csv, ..st })
        } else if a == "-o"@ {
            if i + 1 < args.len() {
                parse_step(args, i + 2, ArgState { out_file: Some(args[i + 1]), ..st })
            } else {
                Err(ArgError::MissingFileName)
            }
        } else if a == "-h"@ || a == "--help"@ {
            Err(ArgError::HelpRequested)
        } else if a == "-r"@ || a == "--rounds"@ {
            if i + 1 < args.len() {
                match parse_u64_spec(args[i + 1]) {
                    Some(v) => if v == 8 || v == 12 || v == 20 {
                        parse_step(args, i + 2, ArgState { rounds: v as u8, ..st })
                    } else {
                        Err(ArgError::BadRounds)
                    },
                    None => Err(ArgError::BadRounds),
                }
            } else {
                Err(ArgError::MissingRounds)
            }
        } else if a.len() > 0 && a[0] == '-' {
            Err(ArgError::UnknownFlag)
        } else {
            match parse_u64_spec(a) {
                Some(n) => parse_step(args, i + 1, ArgState { nums: st.nums.push(n), ..st }),
                None => Err(ArgError::BadArgument),
            }
        }
    }
}

/// The checks and adjustments after the last argument: the copy flag is
/// dropped when a file is given, positional numbers override length and
/// count and must be non-zero, and the warnings are decided.
pub open spec fn finalize_spec(st: ArgState) -> Result<ParsedModel, ArgError> {
    let warn_copy = st.copy_mode && st.out_file is Some;
    let copy2 = if warn_copy {
        false
    } else {
        st.copy_mode
    };
    let warn_fast = st.fast_mode && st.word_mode;
    if st.nums.len() >= 1 && st.nums[0] == 0 {
        Err(ArgError::ZeroLength)
    } else {
        let length2 = if st.nums.len() >= 1 {
            st.nums[0]
        } else {
            st.length
        };
        if st.nums.len() >= 2 && st.nums[1] == 0 {
            Err(ArgError::ZeroCount)
        } else {
            let count2 = if st.nums.len() >= 2 {
                st.nums[1]
            } else {
                st.count
            };
            Ok(
                ParsedModel {
                    length: length2,
                    count: count2,
                    rounds: st.rounds,
                    show_stats: st.show_stats,
                    fast_mode: st.fast_mode,
                    copy_mode: copy2,
                    word_mode: st.word_mode,
                    out_file: st.out_file,
                    format: st.format,
                    warn_copy_ignored: warn_copy,
                    warn_fast_ignored: warn_fast,
                    warn_many_words: st.word_mode && length2 > 20,
                },
            )
        }
    }
}

/// The whole parse: every argument after the program name, then the
/// final checks.
pub open spec fn parse_model(args: Seq<Seq<char>>) -> Result<ParsedModel, ArgError> {
    match parse_step(args, 1, init_state()) {
        Ok(st) => finalize_spec(st),
        Err(e) => Err(e),
    }
}

/// The warnings a finished parse reports, in a fixed order.
pub open spec fn warn_seq(warn_copy: bool, warn_fast: bool, warn_many: bool) -> Seq<ArgWarning> {
    (if warn_copy {
        seq![ArgWarning::CopyIgnored]
    } else {
        Seq::empty()
    }) + (if warn_fast {
        seq![ArgWarning::FastIgnored]
    } else {
        Seq::empty()
    }) + (if warn_many {
        seq![ArgWarning::ManyWords]
    } else {
        Seq::empty()
    })
}

/// The executable outcome carries exactly what the model says.
pub open spec fn outcome_matches(out: ParseOutcome, m: ParsedModel) -> bool {
    &&& out.config.length == m.length as usize
    &&& out.config.count == m.count
    &&& out.config.rounds == m.rounds
    &&& out.config.show_stats == m.show_stats
    &&& out.config.fast_mode == m.fast_mode
    &&& out.config.copy_mode == m.copy_mode
    &&& out.config.word_mode == m.word_mode
    &&& match (out.config.out_file, m.out_file) {
        (Option::None, Option::None) => true,
        (Option::Some(s), Option::Some(v)) => s@ == v,
        _ => false,
    }
    &&& out.config.format == m.format
    &&& out.warnings@ == warn_seq(m.warn_copy_ignored, m.warn_fast_ignored, m.warn_many_words)
}

/// The model state the executable parser's locals stand for.
pub open spec fn exec_state(
    length: u64,
    count: u64,
    rounds: u8,
    show_stats: bool,
    fast_mode: bool,
    copy_mode: bool,
    word_mode: bool,
    out_file: Option<String>,
    format: OutputFormat,
    nums: Seq<u64>,
) -> ArgState {
    ArgState {
        length,
        count,
        rounds,
        show_stats,
        fast_mode,
        copy_mode,
        word_mode,
        out_file: match out_file {
            Option::None => None,
            Option::Some(f) => Some(f@),
        },
        format,
        nums,
    }
}

/// Compares two string slices character by character.
pub fn str_eq(a: &str, b: &str) -> (r: bool)
    ensures
        r == (a@ == b@),
{
    let la = a.unicode_len();
    let lb = b.unicode_len();
    if la != lb {
        return false;
    }
    let mut i: usize = 0;
    while i < la
        invariant
            i <= la,
            la == a@.len(),
            la == b@.len(),
            forall|j: int| 0 <= j < i ==> a@[j] == b@[j],
        decreases la - i,
    {
        if a.get_char(i) != b.get_char(i) {
            return false;
        }
        i = i + 1;
    }
    proof {
        assert(a@ =~= b@);
    }
    true
}

/// Nothing but digits spells a non-negative value.
proof fn lemma_digits_value_nonneg(s: Seq<char>)
    requires
        forall|i: int| 0 <= i < s.len() ==> 48 <= #[trigger] s[i] as u32 <= 57,
    ensures
        digits_value(s) >= 0,
    decreases s.len(),
{
    if s.len() > 0 {
        lemma_digits_value_nonneg(s.drop_last());
    }
}

/// A digit string's value only grows as more digits are read.
proof fn lemma_digits_value_prefix_le(s: Seq<char>, i: int)
    requires
        0 <= i <= s.len(),
        forall|j: int| 0 <= j < s.len() ==> 48 <= #[trigger] s[j] as u32 <= 57,
    ensures
        digits_value(s.take(i)) <= digits_value(s),
    decreases s.len() - i,
{
    if i == s.len() {
        assert(s.take(i) =~= s);
    } else {
        lemma_digits_value_prefix_le(s, i + 1);
        assert(s.take(i + 1).drop_last() =~= s.take(i));
        assert(s.take(i + 1).last() == s[i]);
        lemma_digits_value_nonneg(s.take(i));
    }
}

/// Parses a run of decimal digits as an unsigned 64-bit number; values
/// that overflow and strings holding anything but digits are rejected.
pub fn parse_u64_str(s: &str) -> (r: Option<u64>)
    ensures
        r == parse_u64_spec(s@),
{
    let n = s.unicode_len();
    if n == 0 {
        return None;
    }
    let mut acc: u64 = 0;
    let mut i: usize = 0;
    while i < n
        invariant
            i <= n,
            n == s@.len(),
            n >= 1,
            forall|j: int| 0 <= j < i ==> 48 <= #[trigger] s@[j] as u32 <= 57,
            acc == digits_value(s@.take(i as int)),
        decreases n - i,
    {
        let c = s.get_char(i);
        let u = c as u32;
        if u < 48 || u > 57 {
            return None;
        }
        let d = (u - 48) as u64;
        proof {
            assert(s@.take(i + 1 as int).drop_last() =~= s@.take(i as int));
            assert(s@.take(i + 1 as int).last() == s@[i as int]);
        }
        let next = match acc.checked_mul(10) {
            Some(x) => x.checked_add(d),
            None => None,
        };
        match next {
            Some(y) => {
                acc = y;
            },
            None => {
                proof {
                    if is_digits(s@) {
                        lemma_digits_value_prefix_le(s@, i + 1);
                    }
                }
                return None;
            },
        }
        i = i + 1;
    }
    proof {
        assert(s@.take(n as int) =~= s@);
    }
    Some(acc)
}

/// Reads every argument after the program name and builds the run
/// configuration, exactly as the specification-level model prescribes:
/// flags may come in any order, the first two plain numbers are the
/// record length and the count, the output-file and rounds flags consume
/// the following argument, and anything unrecognised stops the parse.
pub fn parse_args(args: &Vec<String>) -> (r: Result<ParseOutcome, ArgError>)
    ensures
        match r {
            Ok(out) => parse_model(arg_views(args@)) matches Ok(m) && outcome_matches(out, m),
            Err(e) => parse_model(arg_views(args@)) == Err::<ParsedModel, ArgError>(e),
        },
{
    let ghost views = arg_views(args@);
    let mut length: u64 = 16;
    let mut count: u64 = 1;
    let mut rounds: u8 = 8;
    let mut show_stats: bool = false;
    let mut fast_mode: bool = false;
    let mut copy_mode: bool = false;
    let mut word_mode: bool = false;
    let mut out_file: Option<String> = None;
    let mut format: OutputFormat = OutputFormat::Plain;
    let mut nums: Vec<u64> = Vec::new();
    let mut i: usize = 1;

    while i < args.len()
        invariant
            1 <= i,
            views == arg_views(args@),
            views.len() == args@.len(),
            parse_step(views, 1, init_state()) == parse_step(
                views,
                i as int,
                exec_state(
                    length,
                    count,
                    rounds,
                    show_stats,
                    fast_mode,
                    copy_mode,
                    word_mode,
                    out_file,
                    format,
                    nums@,
                ),
            ),
        decreases args@.len() - i,
    {
        let arg: &str = args[i].as_str();
        proof {
            assert(views[i as int] == args@[i as int]@);
        }
        if str_eq(arg, "-s") || str_eq(arg, "--stats") {
            show_stats = true;
        } else if str_eq(arg, "-f") || str_eq(arg, "--fast") {
            fast_mode = true;
        } else if str_eq(arg, "-c") || str_eq(arg, "--copy") {
            copy_mode = true;
        } else if str_eq(arg, "-w") || str_eq(arg, "--words") {
            word_mode = true;
            if length == 16 {
                length = 4;
            }
        } else if str_eq(arg, "--json") {
            format = OutputFormat::Json;
        } else if str_eq(arg, "--csv") {
            format = OutputFormat::Csv;
        } else if str_eq(arg, "-o") {
            if i + 1 < args.len() {
                out_file = Some(args[i + 1].clone());
                i = i + 1;
            } else {
                return Err(ArgError::MissingFileName);
            }
        } else if str_eq(arg, "-h") || str_eq(arg, "--help") {
            return Err(ArgError::HelpRequested);
        } else if str_eq(arg, "-r") || str_eq(arg, "--rounds") {
            if i + 1 < args.len() {
                match parse_u64_str(args[i + 1].as_str()) {
                    Some(v) => {
                        if v == 8 || v == 12 || v == 20 {
                            rounds = v as u8;
                            i = i + 1;
                        } else {
                            return Err(ArgError::BadRounds);
                        }
                    },
                    None => {
                        return Err(ArgError::BadRounds);
                    },
                }
            } else {
                return Err(ArgError::MissingRounds);
            }
        } else {
            let starts_dash = if arg.unicode_len() > 0 {
                arg.get_char(0) == '-'
            } else {
                false
            };
            if starts_dash {
                return Err(ArgError::UnknownFlag);
            } else {
                match parse_u64_str(arg) {
                    Some(n) => {
                        nums.push(n);
                    },
                    None => {
                        return Err(ArgError::BadArgument);
                    },
                }
            }
        }
        i = i + 1;
    }

    // The final checks mirror finalize_spec step by step.
    let warn_copy = copy_mode && out_file.is_some();
    if warn_copy {
        copy_mode = false;
    }
    let warn_fast = fast_mode && word_mode;
    if nums.len() >= 1 {
        let l0 = nums[0];
        if l0 == 0 {
            return Err(ArgError::ZeroLength);
        }
        length = l0;
    }
    if nums.len() >= 2 {
        let c1 = nums[1];
        if c1 == 0 {
            return Err(ArgError::ZeroCount);
        }
        count = c1;
    }
    let warn_many = word_mode && length > 20;

    let mut warnings: Vec<ArgWarning> = Vec::new();
    if warn_copy {
        warnings.push(ArgWarning::CopyIgnored);
    }
    if warn_fast {
        warnings.push(ArgWarning::FastIgnored);
    }
    if warn_many {
        warnings.push(ArgWarning::ManyWords);
    }
    proof {
        assert(warnings@ =~= warn_seq(warn_copy, warn_fast, warn_many));
    }

    #[verifier::truncate]
    let length_usize: usize = length as usize;
    let config = Config {
        length: length_usize,
        count,
        rounds,
        show_stats,
        fast_mode,
        copy_mode,
        word_mode,
        out_file,
        format,
    };
    Ok(ParseOutcome { config, warnings })
}

} // verus!
