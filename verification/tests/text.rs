//! Text helpers: trimming, splitting, numbers and padding.

use os101::color;
use os101::keys::KeyCode;
use os101::text;
use os101::theme;
use os101::words;

fn strings(v: &[&str]) -> Vec<String> {
    v.iter().map(|s| s.to_string()).collect()
}

#[test]
fn trimming_takes_white_space_off_both_ends() {
    assert_eq!(text::trim("  a b\t\n"), "a b");
    assert_eq!(text::trim("\u{a0}x\u{3000}"), "x");
    assert_eq!(text::trim_front("  a "), "a ");
    assert_eq!(text::trim_end_matches("/a//", '/'), "/a");
    assert_eq!(text::trim_start_matches("ababc", "ab"), "c");
}

#[test]
fn prefixes_and_suffixes() {
    assert!(text::starts_with("abc", "ab"));
    assert!(!text::starts_with("abc", "bc"));
    assert!(text::ends_with("abc", "bc"));
    assert!(text::contains("abc", "b"));
    assert!(!text::contains("abc", "d"));
    assert_eq!(text::strip_prefix("abc", "ab"), Some("c".to_string()));
    assert_eq!(text::strip_prefix("abc", "b"), None);
}

#[test]
fn splitting_and_joining_go_both_ways() {
    let parts = text::split_text("a,,b", ',');
    assert_eq!(parts, strings(&["a", "", "b"]));
    assert_eq!(text::join(&parts, ","), "a,,b");
    assert_eq!(text::join(&strings(&[]), ","), "");
    assert_eq!(words::split_words("  a\tb  c "), strings(&["a", "b", "c"]));
    assert_eq!(words::cut_text("run  it now"), ("run".to_string(), Some(" it now".to_string())));
    assert_eq!(words::cut_text("run"), ("run".to_string(), None));
    assert_eq!(words::second_word("wget x y"), Some("x".to_string()));
}

#[test]
fn numerals_are_read_back() {
    for n in [0i64, 7, -1, 42, i64::MAX, i64::MIN, 1_000_000] {
        let mut s = String::new();
        text::push_signed(&mut s, n);
        assert_eq!(s, format!("{}", n));
        assert_eq!(text::parse_integer(&s), Some(n));
    }
    assert_eq!(text::parse_integer("9223372036854775808"), None);
    assert_eq!(text::parse_integer("+5"), Some(5));
    assert_eq!(text::parse_integer(""), None);
    assert_eq!(text::parse_integer("1x"), None);
    assert_eq!(text::parse_natural("255", 255), Some(255));
    assert_eq!(text::parse_natural("256", 255), None);
}

#[test]
fn numbers_are_printed_and_padded() {
    let mut s = String::new();
    text::push_decimal(&mut s, u64::MAX);
    assert_eq!(s, "18446744073709551615");
    let mut s = String::new();
    text::push_two_digits(&mut s, 7);
    assert_eq!(s, "07");
    let mut s = String::from("[");
    words::push_padded(&mut s, "ab", 4);
    words::push_aligned(&mut s, 12, 5);
    words::push_hex(&mut s, 0xbeef, 6);
    assert_eq!(s, "[ab     1200beef");
}

#[test]
fn text_is_cut_between_characters() {
    assert_eq!(text::clip("aéb", 2), "a");
    assert_eq!(text::clip("aéb", 3), "aé");
    assert_eq!(text::first_chars("aéb", 2), "aé");
    assert_eq!(text::width_of('€'), 3);
    assert_eq!(text::lowercase("AbC-É"), "abc-É");
    assert_eq!(text::count_char("a\nb\n", '\n'), 2);
    assert_eq!(words::replace("a.b.c", ".", "--"), "a--b--c");
}

#[test]
fn text_is_edited_in_place() {
    let mut s = String::from("hello world");
    text::remove_range(&mut s, 5, 11);
    assert_eq!(s, "hello");
    text::insert_text(&mut s, 0, ">> ");
    assert_eq!(s, ">> hello");
    text::pop_char(&mut s);
    assert_eq!(s, ">> hell");
}

#[test]
fn colours_mix_channel_by_channel() {
    assert_eq!(color::lerp(0x000000, 0xff8000, 255), 0xff8000);
    assert_eq!(color::lerp(0x000000, 0xff8000, 0), 0);
    assert_eq!(color::lerp(0x102030, 0x102030, 99), 0x102030);
    assert_eq!(color::darken(0x646464, 50), 0x323232);
    assert_eq!(color::lighten(0x000000, 100), 0xffffff);
    assert_eq!(color::luma(0xffffff), 255);
    assert_eq!(color::gray(0x11), 0x111111);
    assert_eq!(color::red(0x123456), 0x12);
    assert_eq!(color::green(0x123456), 0x34);
    assert_eq!(color::blue(0x123456), 0x56);
}

#[test]
fn accents_repeat() {
    assert_eq!(theme::app_accent(3), theme::app_accent(11));
    assert_eq!(theme::app_accent(0), theme::APP_ACCENTS[0]);
}

#[test]
fn keys_have_names() {
    assert_eq!(KeyCode::ArrowUp.name(), "ArrowUp");
    assert_eq!(KeyCode::Escape.name(), "Escape");
}
