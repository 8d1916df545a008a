use passwg::args::{parse_args, parse_u64_str, str_eq, ArgError, ArgWarning};
use passwg::writer::OutputFormat;

fn argv(parts: &[&str]) -> Vec<String> {
    let mut v = vec!["passwg".to_string()];
    for p in parts {
        v.push(p.to_string());
    }
    v
}

#[test]
fn defaults_without_arguments() {
    let out = parse_args(&argv(&[])).expect("parse succeeds");
    let c = &out.config;
    assert_eq!(c.length, 16);
    assert_eq!(c.count, 1);
    assert_eq!(c.rounds, 8);
    assert!(!c.show_stats && !c.fast_mode && !c.copy_mode && !c.word_mode);
    assert!(c.out_file.is_none());
    assert_eq!(c.format, OutputFormat::Plain);
    assert!(out.warnings.is_empty());
}

#[test]
fn positional_numbers_set_length_and_count() {
    let out = parse_args(&argv(&["20", "5", "-s"])).expect("parse succeeds");
    assert_eq!(out.config.length, 20);
    assert_eq!(out.config.count, 5);
    assert!(out.config.show_stats);
}

#[test]
fn flags_select_modes_and_formats() {
    let out = parse_args(&argv(&["--fast", "--csv"])).expect("parse succeeds");
    assert!(out.config.fast_mode);
    assert_eq!(out.config.format, OutputFormat::Csv);

    let out = parse_args(&argv(&["--json", "-c"])).expect("parse succeeds");
    assert_eq!(out.config.format, OutputFormat::Json);
    assert!(out.config.copy_mode);
}

#[test]
fn word_mode_defaults_to_four_words() {
    let out = parse_args(&argv(&["-w"])).expect("parse succeeds");
    assert!(out.config.word_mode);
    assert_eq!(out.config.length, 4);

    // An explicit number still wins.
    let out = parse_args(&argv(&["-w", "6"])).expect("parse succeeds");
    assert_eq!(out.config.length, 6);
}

#[test]
fn output_file_is_captured() {
    let out = parse_args(&argv(&["-o", "list.txt"])).expect("parse succeeds");
    assert_eq!(out.config.out_file.as_deref(), Some("list.txt"));
}

#[test]
fn rounds_flag_accepts_only_supported_counts() {
    for r in [8u8, 12, 20] {
        let out = parse_args(&argv(&["-r", &r.to_string()])).expect("parse succeeds");
        assert_eq!(out.config.rounds, r);
    }
    assert!(matches!(parse_args(&argv(&["-r", "7"])), Err(ArgError::BadRounds)));
    assert!(matches!(parse_args(&argv(&["-r", "abc"])), Err(ArgError::BadRounds)));
    assert!(matches!(parse_args(&argv(&["-r"])), Err(ArgError::MissingRounds)));
}

#[test]
fn error_cases() {
    assert!(matches!(parse_args(&argv(&["0"])), Err(ArgError::ZeroLength)));
    assert!(matches!(parse_args(&argv(&["5", "0"])), Err(ArgError::ZeroCount)));
    assert!(matches!(parse_args(&argv(&["-x"])), Err(ArgError::UnknownFlag)));
    assert!(matches!(parse_args(&argv(&["abc"])), Err(ArgError::BadArgument)));
    assert!(matches!(parse_args(&argv(&["-o"])), Err(ArgError::MissingFileName)));
    assert!(matches!(parse_args(&argv(&["-h"])), Err(ArgError::HelpRequested)));
    assert!(matches!(parse_args(&argv(&["--help"])), Err(ArgError::HelpRequested)));
}

#[test]
fn copy_with_file_is_dropped_with_a_warning() {
    let out = parse_args(&argv(&["-c", "-o", "x.txt"])).expect("parse succeeds");
    assert!(!out.config.copy_mode, "the copy flag is ignored with a file");
    assert_eq!(out.warnings, vec![ArgWarning::CopyIgnored]);
}

#[test]
fn fast_with_words_warns_and_words_win() {
    let out = parse_args(&argv(&["-f", "-w"])).expect("parse succeeds");
    assert!(out.config.fast_mode && out.config.word_mode);
    assert_eq!(out.warnings, vec![ArgWarning::FastIgnored]);
}

#[test]
fn many_words_warns() {
    let out = parse_args(&argv(&["-w", "25"])).expect("parse succeeds");
    assert_eq!(out.config.length, 25);
    assert_eq!(out.warnings, vec![ArgWarning::ManyWords]);
}

#[test]
fn number_parsing_is_exact() {
    assert_eq!(parse_u64_str("0"), Some(0));
    assert_eq!(parse_u64_str("00"), Some(0));
    assert_eq!(parse_u64_str("42"), Some(42));
    assert_eq!(parse_u64_str("18446744073709551615"), Some(u64::MAX));
    assert_eq!(parse_u64_str("18446744073709551616"), None);
    assert_eq!(parse_u64_str(""), None);
    assert_eq!(parse_u64_str("+5"), None);
    assert_eq!(parse_u64_str("4x"), None);
}

#[test]
fn string_equality_helper() {
    assert!(str_eq("--stats", "--stats"));
    assert!(!str_eq("--stats", "--stat"));
    assert!(!str_eq("", "a"));
    assert!(str_eq("", ""));
}
