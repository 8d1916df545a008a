//! Localised user-facing text, and the rule that selects a locale.
//!
//! Printing is left to the caller; this module only carries the strings
//! and decides which set the environment's locale tag selects.

use vstd::prelude::*;
use vstd::string::StrSliceExecFns;

verus! {

/// The user-facing strings of one locale.
pub struct I18n {
    pub help_usage: &'static str,
    pub help_args: &'static str,
    pub help_len: &'static str,
    pub help_count: &'static str,
    pub help_flags: &'static str,
    pub help_out: &'static str,
    pub help_json: &'static str,
    pub help_csv: &'static str,
    pub help_stats: &'static str,
    pub help_fast: &'static str,
    pub help_copy: &'static str,
    pub help_words: &'static str,
    pub help_rounds: &'static str,
    pub help_h: &'static str,
    pub stat_title: &'static str,
    pub stat_time: &'static str,
    pub stat_speed: &'static str,
    pub stat_perf: &'static str,
}

/// Every field holds the English string.
pub open spec fn english_strings(l: I18n) -> bool {
    &&& l.help_usage@ == "Usage: passwg [length] [count] [flags]"@
    &&& l.help_args@ == "Arguments:"@
    &&& l.help_len@ == "  length         Password length (default 16)"@
    &&& l.help_count@ == "  count          Number of passwords (default 1)"@
    &&& l.help_flags@ == "Flags:"@
    &&& l.help_out@ == "  -o <file>      Write output to file"@
    &&& l.help_json@ == "  --json         Output as JSON array"@
    &&& l.help_csv@ == "  --csv          Output as CSV"@
    &&& l.help_stats@ == "  -s, --stats    Show performance statistics"@
    &&& l.help_fast@ == "  -f, --fast     Max speed mode (A-Z, a-z, 0-9, _, -)"@
    &&& l.help_copy@ == "  -c, --copy     Copy one password to clipboard (Wayland only)"@
    &&& l.help_words@ == "  -w, --words    Passphrase mode (length = number of words)"@
    &&& l.help_rounds@ == "  -r, --rounds   Stream cipher rounds: 8, 12 or 20 (default 8)"@
    &&& l.help_h@ == "  -h, --help     Show this help"@
    &&& l.stat_title@ == "STATISTICS"@
    &&& l.stat_time@ == "Execution time:   "@
    &&& l.stat_speed@ == "Stream speed:     "@
    &&& l.stat_perf@ == "Performance:      "@
}

/// Every field holds the Russian string.
pub open spec fn russian_strings(l: I18n) -> bool {
    &&& l.help_usage@ == "Использование: passwg [длина] [количество] [флаги]"@
    &&& l.help_args@ == "Аргументы:"@
    &&& l.help_len@ == "  длина          Длина пароля (по умолчанию 16)"@
    &&& l.help_count@ == "  количество     Количество паролей (по умолчанию 1)"@
    &&& l.help_flags@ == "Флаги:"@
    &&& l.help_out@ == "  -o <file>      Записать вывод в файл"@
    &&& l.help_json@ == "  --json         Вывод в формате JSON массив"@
    &&& l.help_csv@ == "  --csv          Вывод в формате CSV"@
    &&& l.help_stats@ == "  -s, --stats    Показать статистику скорости"@
    &&& l.help_fast@ == "  -f, --fast     Режим макс. скорости (A-Z, a-z, 0-9, _, -)"@
    &&& l.help_copy@ == "  -c, --copy     Копировать один пароль в буфер (только Wayland)"@
    &&& l.help_words@ == "  -w, --words    Режим фраз (длина = количество слов)"@
    &&& l.help_rounds@ == "  -r, --rounds   Раунды потокового шифра: 8, 12 или 20"@
    &&& l.help_h@ == "  -h, --help     Показать эту справку"@
    &&& l.stat_title@ == "СТАТИСТИКА"@
    &&& l.stat_time@ == "Время выполнения:  "@
    &&& l.stat_speed@ == "Скорость потока:   "@
    &&& l.stat_perf@ == "Производительность: "@
}

/// The English strings.
pub fn english() -> (l: I18n)
    ensures
        english_strings(l),
{
    I18n {
        help_usage: "Usage: passwg [length] [count] [flags]",
        help_args: "Arguments:",
        help_len: "  length         Password length (default 16)",
        help_count: "  count          Number of passwords (default 1)",
        help_flags: "Flags:",
        help_out: "  -o <file>      Write output to file",
        help_json: "  --json         Output as JSON array",
        help_csv: "  --csv          Output as CSV",
        help_stats: "  -s, --stats    Show performance statistics",
        help_fast: "  -f, --fast     Max speed mode (A-Z, a-z, 0-9, _, -)",
        help_copy: "  -c, --copy     Copy one password to clipboard (Wayland only)",
        help_words: "  -w, --words    Passphrase mode (length = number of words)",
        help_rounds: "  -r, --rounds   Stream cipher rounds: 8, 12 or 20 (default 8)",
        help_h: "  -h, --help     Show this help",
        stat_title: "STATISTICS",
        stat_time: "Execution time:   ",
        stat_speed: "Stream speed:     ",
        stat_perf: "Performance:      ",
    }
}

/// The Russian strings.
pub fn russian() -> (l: I18n)
    ensures
        russian_strings(l),
{
    I18n {
        help_usage: "Использование: passwg [длина] [количество] [флаги]",
        help_args: "Аргументы:",
        help_len: "  длина          Длина пароля (по умолчанию 16)",
        help_count: "  количество     Количество паролей (по умолчанию 1)",
        help_flags: "Флаги:",
        help_out: "  -o <file>      Записать вывод в файл",
        help_json: "  --json         Вывод в формате JSON массив",
        help_csv: "  --csv          Вывод в формате CSV",
        help_stats: "  -s, --stats    Показать статистику скорости",
        help_fast: "  -f, --fast     Режим макс. скорости (A-Z, a-z, 0-9, _, -)",
        help_copy: "  -c, --copy     Копировать один пароль в буфер (только Wayland)",
        help_words: "  -w, --words    Режим фраз (длина = количество слов)",
        help_rounds: "  -r, --rounds   Раунды потокового шифра: 8, 12 или 20",
        help_h: "  -h, --help     Показать эту справку",
        stat_title: "СТАТИСТИКА",
        stat_time: "Время выполнения:  ",
        stat_speed: "Скорость потока:   ",
        stat_perf: "Производительность: ",
    }
}

/// A locale tag selects the Russian strings exactly when it starts with
/// the letters `ru`.
pub open spec fn is_russian_locale(lang: Seq<char>) -> bool {
    lang.len() >= 2 && lang[0] == 'r' && lang[1] == 'u'
}

/// Selects the strings for a locale tag, as taken from the environment:
/// every field of the result is the matching locale's string.
pub fn get_locale(lang: &str) -> (l: I18n)
    ensures
        is_russian_locale(lang@) ==> russian_strings(l),
        !is_russian_locale(lang@) ==> english_strings(l),
{
    let ru = if lang.unicode_len() >= 2 {
        lang.get_char(0) == 'r' && lang.get_char(1) == 'u'
    } else {
        false
    };
    if ru {
        russian()
    } else {
        english()
    }
}

} // verus!
