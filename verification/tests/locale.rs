use passwg::i18n::{english, get_locale, russian};

#[test]
fn locale_tag_starting_with_ru_selects_russian() {
    assert_eq!(get_locale("ru_RU.UTF-8").stat_title, russian().stat_title);
    assert_eq!(get_locale("ru").stat_title, russian().stat_title);
}

#[test]
fn other_locale_tags_select_english() {
    assert_eq!(get_locale("en_US.UTF-8").stat_title, english().stat_title);
    assert_eq!(get_locale("").stat_title, english().stat_title);
    assert_eq!(get_locale("r").stat_title, english().stat_title);
    assert_eq!(get_locale("de_DE").stat_title, english().stat_title);
}

#[test]
fn the_two_locales_differ() {
    assert_ne!(english().stat_title, russian().stat_title);
    assert_eq!(english().stat_title, "STATISTICS");
}
