use lt_ai_coach_exporter::text::{
    blank, chars_of, decimal_text, eq_ignore_ascii_case, join, parse_u64, part_before, same_text,
    sanitize, starts_with,
};

#[test]
fn sanitize_replaces_breaks_by_spaces() {
    assert_eq!(sanitize("a\tb\nc\rd"), "a b c d");
    assert_eq!(sanitize("\r\n\t"), "   ");
    assert_eq!(sanitize("Über Team"), "Über Team");
    assert_eq!(sanitize(""), "");
}

#[test]
fn sanitize_agrees_with_replace() {
    let names = ["", "a", "\t\t", "x\ny", "é\r", "日本\t語", "no breaks at all"];
    for name in names {
        assert_eq!(sanitize(name), name.replace(['\t', '\n', '\r'], " "));
    }
}

#[test]
fn decimal_text_prints_numbers() {
    for n in [0u128, 1, 9, 10, 42, 999, 1000, u64::MAX as u128, u128::MAX] {
        assert_eq!(decimal_text(n), n.to_string());
    }
}

#[test]
fn white_space_is_that_of_unicode() {
    for n in 0u32..=0x10ffff {
        if let Some(c) = char::from_u32(n) {
            let mut s = String::new();
            s.push(c);
            assert_eq!(blank(&s), s.trim().is_empty(), "U+{n:04X}");
        }
    }
}

#[test]
fn blank_needs_white_space_alone() {
    assert!(blank(""));
    assert!(blank(" \t\u{3000}"));
    assert!(!blank(" a "));
}

#[test]
fn case_is_ignored_for_ascii_letters_only() {
    let words = ["melee", "MELEE", "MeLeE", "meleé", "MELEÉ", "Range", "range", "ranged", "", "[", "{", "@", "`"];
    for a in words {
        for b in words {
            assert_eq!(eq_ignore_ascii_case(a, b), a.eq_ignore_ascii_case(b), "{a} {b}");
        }
    }
}

#[test]
fn numbers_are_read_as_the_standard_library_reads_them() {
    let words = [
        "", "+", "-", "0", "00", "+0", "2000", "02000", "+2026", "-2026", " 2026", "2026 ", "20x6", "18446744073709551615",
        "18446744073709551616", "99999999999999999999999", "++1", "1+", "１２",
    ];
    for word in words {
        assert_eq!(parse_u64(&chars_of(word)), word.parse::<u64>().ok(), "{word}");
    }
}

#[test]
fn part_before_ends_at_the_first_separator() {
    let part = |s: &str| part_before(s, '.').into_iter().collect::<String>();
    assert_eq!(part("2026.1.3"), "2026");
    assert_eq!(part("2026"), "2026");
    assert_eq!(part(".5"), "");
    assert_eq!(part(""), "");
}

#[test]
fn texts_are_compared_whole() {
    assert!(same_text("café", "café"));
    assert!(!same_text("cafe", "café"));
    assert!(!same_text("a", "ab"));
    assert!(same_text("", ""));
}

#[test]
fn beginnings_are_recognised() {
    assert!(starts_with("asset#anim", "asset#"));
    assert!(starts_with("é#", "é"));
    assert!(starts_with("a", ""));
    assert!(!starts_with("asset", "asset#"));
    assert!(!starts_with("axset#", "asset#"));
}

#[test]
fn join_puts_separators_between() {
    let list = |items: &[&str]| items.iter().map(|s| s.to_string()).collect::<Vec<String>>();
    assert_eq!(join(&list(&[]), "\n"), "");
    assert_eq!(join(&list(&["a"]), "\n"), "a");
    assert_eq!(join(&list(&["a", "", "b"]), "\n"), "a\n\nb");
}

#[test]
fn decimal_texts_are_read_back() {
    for n in [0u64, 7, 10, 2026, u64::MAX] {
        assert_eq!(parse_u64(&chars_of(&decimal_text(n as u128))), Some(n));
    }
}
