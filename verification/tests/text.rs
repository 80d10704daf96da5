use mlua_util::text::bracketed;
use mlua_util::text::chain_text;
use mlua_util::text::decimal;
use mlua_util::text::ends_with;
use mlua_util::text::find;
use mlua_util::text::panic_text;
use mlua_util::value::PanicPayload;

fn chain(texts: &[&str]) -> String {
    chain_text(&texts.iter().map(|t| t.to_string()).collect())
}

#[test]
fn decimal_of_numbers() {
    assert_eq!(decimal(0), "0");
    assert_eq!(decimal(-120), "-120");
    assert_eq!(decimal(i64::MAX), "9223372036854775807");
    assert_eq!(decimal(i64::MIN), "-9223372036854775808");
}

#[test]
fn bracketed_addresses() {
    assert_eq!(bracketed("table", 0), "<table 0x0>");
    assert_eq!(bracketed("userdata", 0xbeef01), "<userdata 0xbeef01>");
    assert_eq!(bracketed("thread", u64::MAX), "<thread 0xffffffffffffffff>");
}

#[test]
fn find_gives_the_first_position_in_characters() {
    assert_eq!(find("äbcbc", "bc"), Some(1));
    assert_eq!(find("abc", "d"), None);
    assert_eq!(find("a", "ab"), None);
    assert_eq!(find("", ""), Some(0));
}

#[test]
fn ends_with_a_suffix() {
    assert!(ends_with("near <eof>", "<eof>"));
    assert!(!ends_with("<eof> near", "<eof>"));
    assert!(!ends_with("f>", "<eof>"));
}

#[test]
fn panic_texts() {
    assert_eq!(panic_text(&PanicPayload::Literal("a".to_string())), "a");
    assert_eq!(panic_text(&PanicPayload::Message("b".to_string())), "b");
    assert_eq!(panic_text(&PanicPayload::Opaque(3)), "<panic>");
}

#[test]
fn chain_of_one() {
    assert_eq!(chain(&["outer"]), "outer");
}

#[test]
fn chain_of_two_shows_the_source() {
    assert_eq!(
        chain(&["outer", "inner\nstack traceback:\nx"]),
        "outer\ncaused by: inner\nstack traceback:\nx"
    );
}

#[test]
fn chain_shows_the_last_source() {
    assert_eq!(chain(&["a", "b", "c", "d"]), "a\ncaused by: d");
}

#[test]
fn chain_borrows_the_traceback_of_the_source_before() {
    assert_eq!(
        chain(&["a", "b", "c\nstack traceback:\none\nstack traceback:\ntwo", "d"]),
        "a\ncaused by: d\nstack traceback:\none\nstack traceback:\ntwo"
    );
}

#[test]
fn chain_does_not_borrow_where_there_is_a_traceback() {
    assert_eq!(
        chain(&["a", "b\nstack traceback:\none", "c\nstack traceback:\ntwo"]),
        "a\ncaused by: c\nstack traceback:\ntwo"
    );
}
