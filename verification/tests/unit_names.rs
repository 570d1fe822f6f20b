use crr_server::metadata::name::{digit_of, parse_version};

#[test]
fn version_is_the_three_digit_prefix() {
    assert_eq!(parse_version("003_add_tokens.sql"), Some(3));
    assert_eq!(parse_version("000_init.sql"), Some(0));
    assert_eq!(parse_version("010_users.sql"), Some(10));
    assert_eq!(parse_version("999_last.sql"), Some(999));
    assert_eq!(parse_version("120_a.sql"), Some(120));
}

#[test]
fn version_needs_no_descriptive_text() {
    assert_eq!(parse_version("123.sql"), Some(123));
}

#[test]
fn only_the_first_three_characters_count() {
    assert_eq!(parse_version("1234.sql"), Some(123));
    assert_eq!(parse_version("0071_late.sql"), Some(7));
}

#[test]
fn names_without_sql_suffix_have_no_version() {
    assert_eq!(parse_version("003_add_tokens.txt"), None);
    assert_eq!(parse_version("003_add_tokens.sql.bak"), None);
    assert_eq!(parse_version("003_add_tokens"), None);
    assert_eq!(parse_version("003_add_tokens.SQL"), None);
    assert_eq!(parse_version("003sql"), None);
}

#[test]
fn names_without_three_digits_have_no_version() {
    assert_eq!(parse_version("12_x.sql"), None);
    assert_eq!(parse_version("abc.sql"), None);
    assert_eq!(parse_version("1a2_x.sql"), None);
    assert_eq!(parse_version("_01_x.sql"), None);
    assert_eq!(parse_version("12.sql"), None);
    assert_eq!(parse_version("readme.md"), None);
}

#[test]
fn signs_are_not_digits() {
    assert_eq!(parse_version("+12_x.sql"), None);
    assert_eq!(parse_version("-12_x.sql"), None);
}

#[test]
fn short_names_have_no_version() {
    assert_eq!(parse_version(""), None);
    assert_eq!(parse_version(".sql"), None);
    assert_eq!(parse_version("1.sql"), None);
    assert_eq!(parse_version("sql"), None);
}

#[test]
fn digits_of_other_scripts_are_not_digits() {
    assert_eq!(parse_version("\u{0663}\u{0663}\u{0663}_x.sql"), None);
    assert_eq!(parse_version("\u{00e9}12_x.sql"), None);
    assert_eq!(parse_version("00\u{00e9}_x.sql"), None);
}

#[test]
fn text_of_any_script_may_follow_the_version() {
    assert_eq!(parse_version("042_caf\u{00e9}.sql"), Some(42));
}

#[test]
fn digit_of_reads_decimal_digits_only() {
    assert_eq!(digit_of('0'), Some(0));
    assert_eq!(digit_of('7'), Some(7));
    assert_eq!(digit_of('9'), Some(9));
    assert_eq!(digit_of('/'), None);
    assert_eq!(digit_of(':'), None);
    assert_eq!(digit_of('a'), None);
    assert_eq!(digit_of('\u{0663}'), None);
}
