use ocr_jobs::decimal::{
    all_digits_in, decimal_string, digit_str, is_digit_char, parse_u32_in, push_decimal,
    push_padded,
};
use ocr_jobs::recent::{file_kind, FileKind};
use ocr_jobs::text::{
    chars_of, clone_names, contains, ends_with, field_end, find_text, is_space_char, join_names,
    matches_at, rfind_text, same_str, same_text, skip_spaces, split_two_in, starts_with,
    trim_window, word_end,
};

fn cs(s: &str) -> Vec<char> {
    s.chars().collect()
}

fn parse(s: &str) -> Option<u32> {
    let v = cs(s);
    parse_u32_in(&v, 0, v.len())
}

#[test]
fn characters_are_taken_one_by_one() {
    assert_eq!(chars_of("a〜é"), vec!['a', '〜', 'é']);
    assert_eq!(chars_of(""), Vec::<char>::new());
}

#[test]
fn patterns_are_found_by_character_offset() {
    let s = cs("処理_p1_p2");
    let p = cs("_p");
    assert!(matches_at(&s, &p, 2));
    assert!(!matches_at(&s, &p, 3));
    assert!(!matches_at(&s, &p, 7));
    assert!(!matches_at(&s, &p, 100));
    assert_eq!(find_text(&s, &p), Some(2));
    assert_eq!(rfind_text(&s, &p), Some(5));
    assert_eq!(find_text(&s, &cs("x")), None);
    assert_eq!(rfind_text(&s, &cs("x")), None);
    assert_eq!(find_text(&s, &cs("")), Some(0));
    assert_eq!(rfind_text(&s, &cs("")), Some(8));
    assert_eq!(find_text(&cs(""), &p), None);
    assert!(contains(&s, &cs("p2")));
    assert!(!contains(&s, &cs("p3")));
}

#[test]
fn prefixes_and_suffixes() {
    let s = cs("report.docx");
    assert!(starts_with(&s, &cs("report")));
    assert!(starts_with(&s, &cs("")));
    assert!(!starts_with(&s, &cs("eport")));
    assert!(!starts_with(&cs("re"), &cs("report")));
    assert!(ends_with(&s, &cs(".docx")));
    assert!(ends_with(&s, &cs("")));
    assert!(!ends_with(&s, &cs(".doc")));
    assert!(!ends_with(&cs("x"), &cs(".docx")));
}

#[test]
fn texts_are_the_same_when_all_characters_are() {
    assert!(same_text(&cs("abc"), &cs("abc")));
    assert!(!same_text(&cs("abc"), &cs("abd")));
    assert!(!same_text(&cs("abc"), &cs("ab")));
    assert!(same_text(&cs(""), &cs("")));
    assert!(same_str("csv", "csv"));
    assert!(!same_str("csv", "CSV"));
}

#[test]
fn white_space_is_what_unicode_says() {
    for c in [' ', '\t', '\n', '\u{b}', '\u{c}', '\r', '\u{85}', '\u{a0}', '\u{1680}', '\u{2000}',
        '\u{200a}', '\u{2028}', '\u{2029}', '\u{202f}', '\u{205f}', '\u{3000}']
    {
        assert!(is_space_char(c), "{:?}", c);
        assert_eq!(is_space_char(c), c.is_whitespace());
    }
    for c in ['a', '0', '\u{8}', '\u{e}', '\u{200b}', '\u{feff}', '〜', '\u{180e}'] {
        assert!(!is_space_char(c), "{:?}", c);
        assert_eq!(is_space_char(c), c.is_whitespace());
    }
}

#[test]
fn white_space_agrees_with_the_standard_library_everywhere() {
    for u in 0..=0x3100u32 {
        if let Some(c) = char::from_u32(u) {
            assert_eq!(is_space_char(c), c.is_whitespace(), "{:x}", u);
        }
    }
}

#[test]
fn windows_are_trimmed_on_both_sides() {
    let s = cs("ab \u{3000} 12 3\t\n cd");
    assert_eq!(trim_window(&s, 2, 12), (5, 9));
    assert_eq!(trim_window(&s, 2, 5), (5, 5));
    assert_eq!(trim_window(&s, 0, s.len()), (0, s.len()));
    assert_eq!(trim_window(&s, 3, 3), (3, 3));
    assert_eq!(skip_spaces(&s, 2, 12), 5);
    assert_eq!(skip_spaces(&s, 9, 12), 12);
    assert_eq!(word_end(&s, 5, s.len()), 7);
    assert_eq!(word_end(&s, 12, s.len()), s.len());
}

#[test]
fn fields_are_cut_at_the_separator() {
    let s = cs("x:3/9/27");
    assert_eq!(field_end(&s, 2, s.len(), '/'), 3);
    assert_eq!(field_end(&s, 6, s.len(), '/'), s.len());
    assert_eq!(split_two_in(&s, 2, s.len(), '/'), Some((3, 5)));
    assert_eq!(split_two_in(&s, 4, s.len(), '/'), Some((5, 8)));
    assert_eq!(split_two_in(&s, 6, s.len(), '/'), None);
    assert_eq!(split_two_in(&cs("3/"), 0, 2, '/'), Some((1, 2)));
    assert_eq!(split_two_in(&cs("/"), 0, 1, '/'), Some((0, 1)));
    assert_eq!(split_two_in(&cs(""), 0, 0, '/'), None);
}

#[test]
fn numbers_are_read_as_the_standard_library_reads_them() {
    for text in ["0", "7", "42", "007", "+5", "+0", "4294967295", "4294967296", "99999999999", "",
        "+", "-", "-1", "++1", "+-1", "1+", " 1", "1 ", "1_000", "0x10", "１２", "1.0", "a"]
    {
        assert_eq!(parse(text), text.parse::<u32>().ok(), "{:?}", text);
    }
}

#[test]
fn numbers_are_read_within_their_window() {
    let s = cs("ab123cd");
    assert_eq!(parse_u32_in(&s, 2, 5), Some(123));
    assert_eq!(parse_u32_in(&s, 2, 6), None);
    assert_eq!(parse_u32_in(&s, 3, 3), None);
    assert!(all_digits_in(&s, 2, 5));
    assert!(all_digits_in(&s, 3, 3));
    assert!(!all_digits_in(&s, 1, 5));
    assert!(is_digit_char('0') && is_digit_char('9'));
    assert!(!is_digit_char('/') && !is_digit_char(':') && !is_digit_char('٣'));
}

#[test]
fn numbers_are_written_in_their_shortest_form() {
    for n in [0u64, 1, 9, 10, 11, 99, 100, 4294967295, 4294967296, u64::MAX] {
        assert_eq!(decimal_string(n), n.to_string());
    }
    let mut out = String::from("n=");
    push_decimal(&mut out, 305);
    assert_eq!(out, "n=305");
    assert_eq!(digit_str(0), "0");
    assert_eq!(digit_str(9), "9");
}

#[test]
fn what_is_written_is_read_back() {
    for n in [0u32, 1, 9, 10, 1234, 99999, u32::MAX] {
        assert_eq!(parse(&decimal_string(n as u64)), Some(n));
    }
}

#[test]
fn padded_numbers_have_exactly_their_width() {
    let mut out = String::new();
    push_padded(&mut out, 42, 6);
    assert_eq!(out, "000042");
    let mut out = String::new();
    push_padded(&mut out, 1234567, 6);
    assert_eq!(out, "234567");
    let mut out = String::from("x");
    push_padded(&mut out, 7, 0);
    assert_eq!(out, "x");
}

#[test]
fn lists_of_texts_are_copied_and_joined() {
    let a = vec!["x".to_string(), "y".to_string()];
    let mut b = clone_names(&a);
    assert_eq!(a, b);
    let mut c = vec!["z".to_string()];
    join_names(&mut b, &mut c);
    assert_eq!(b, vec!["x".to_string(), "y".to_string(), "z".to_string()]);
    assert!(c.is_empty());
}

#[test]
fn kind_of_a_file_is_told_by_the_end_of_its_name() {
    assert_eq!(file_kind("a.docx"), Some(FileKind::Word));
    assert_eq!(file_kind("a.xlsx"), Some(FileKind::Sheet));
    assert_eq!(file_kind("a.csv"), Some(FileKind::Table));
    assert_eq!(file_kind("a.md"), Some(FileKind::Text));
    assert_eq!(file_kind(".md"), Some(FileKind::Text));
    assert_eq!(file_kind("a.docx.md"), Some(FileKind::Text));
    assert_eq!(file_kind("a.DOCX"), None);
    assert_eq!(file_kind("docx"), None);
    assert_eq!(file_kind("a.txt"), None);
    assert_eq!(file_kind(""), None);
}
