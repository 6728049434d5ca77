use sve::number::float_literal;
use sve::text::{chars_of, decimal_text, trim_text, white_space};

#[test]
fn trims_white_space_at_both_ends() {
    assert_eq!(trim_text("  12.5\n"), "12.5");
    assert_eq!(trim_text("\t a b \r\n"), "a b");
    assert_eq!(trim_text(""), "");
    assert_eq!(trim_text(" \n\t "), "");
    assert_eq!(trim_text("\u{3000}x\u{a0}"), "x");
    assert_eq!(trim_text("no-space"), "no-space");
}

#[test]
fn white_space_matches_std() {
    for c in ['\t', '\n', '\u{b}', '\u{c}', '\r', ' ', '\u{85}', '\u{a0}', '\u{1680}', '\u{2000}', '\u{200a}', '\u{2028}', '\u{2029}', '\u{202f}', '\u{205f}', '\u{3000}', 'a', '0', '\u{200b}', '_'] {
        assert_eq!(white_space(c), c.is_whitespace(), "{:?}", c);
    }
}

#[test]
fn accepts_float_literals() {
    for s in ["0", "12.5", "1e5", "1E-5", ".5", "5.", "+3.25", "-0.0", "1.e3", ".5e+2", "inf", "-Infinity", "NaN", "+nan", "INF", "007", "1e99999", "-1E-99999", "iNfInItY"] {
        assert!(float_literal(s), "{}", s);
        assert!(s.parse::<f64>().is_ok(), "{}", s);
    }
}

#[test]
fn rejects_other_texts() {
    for s in ["", ".", "+", "-", "e5", "1e", "1e+", "1.2.3", " 1", "1 ", "abc", "N/A", "infinit", "1,5", "0x10", "1e5.0", "--1", "+-1", ".e1", "in", "infinityy", "nann", "\u{663}", "1_000", "1e5e5"] {
        assert!(!float_literal(s), "{}", s);
        assert!(s.parse::<f64>().is_err(), "{}", s);
    }
}

#[test]
fn splits_into_characters() {
    assert_eq!(chars_of("año"), vec!['a', 'ñ', 'o']);
    assert_eq!(chars_of(""), Vec::<char>::new());
}

#[test]
fn decimal_notation() {
    for n in [0usize, 7, 10, 99, 100, 1920, 1234567890, usize::MAX] {
        assert_eq!(decimal_text(n), n.to_string());
    }
}
