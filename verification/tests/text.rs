use hyperspace::text::{chars_of, decimal_text, drop_white_space, is_blank, trim};

#[test]
fn trim_removes_surrounding_white_space() {
    assert_eq!(trim("  Work  "), "Work");
    assert_eq!(trim("\t a b \n"), "a b");
    assert_eq!(trim("   "), "");
    assert_eq!(trim(""), "");
    assert_eq!(trim("\u{3000}x\u{a0}"), "x");
}

#[test]
fn blank_means_only_white_space() {
    assert!(is_blank(""));
    assert!(is_blank(" \t\n"));
    assert!(!is_blank(" a "));
}

#[test]
fn white_space_is_dropped_from_characters() {
    let cs = chars_of("a b\tc");
    assert_eq!(cs, vec!['a', ' ', 'b', '\t', 'c']);
    assert_eq!(drop_white_space(&cs), vec!['a', 'b', 'c']);
}

#[test]
fn decimal_text_matches_display() {
    for n in [0usize, 7, 10, 42, 100, 12345, usize::MAX] {
        assert_eq!(decimal_text(n), n.to_string());
    }
}
