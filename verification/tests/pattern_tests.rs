use pdf_grep::pattern::Pattern;

#[test]
fn find_all_scans_from_offset() {
    let p = Pattern::compile("ab").unwrap();
    assert_eq!(p.find_all(b"ab ab ab", 0), vec![(0, 2), (3, 5), (6, 8)]);
    assert_eq!(p.find_all(b"ab ab ab", 1), vec![(3, 5), (6, 8)]);
    assert_eq!(p.find_all(b"ab ab ab", 4), vec![(6, 8)]);
    assert_eq!(p.find_all(b"ab ab ab", 8), vec![]);
}

#[test]
fn find_first_is_leftmost() {
    let p = Pattern::compile("o").unwrap();
    assert_eq!(p.find_first(b"foo"), Some((1, 2)));
    assert_eq!(p.find_first(b"xyz"), None);
}

#[test]
fn matching_is_case_insensitive_both_ways() {
    let upper = Pattern::compile("THEORY").unwrap();
    assert_eq!(upper.find_first(b"a theory"), Some((2, 8)));
    let mixed = Pattern::compile("ThEoRy").unwrap();
    assert_eq!(mixed.find_first(b"THEORY"), Some((0, 6)));
}

#[test]
fn empty_matches_advance_one_byte() {
    let p = Pattern::compile("x*").unwrap();
    assert_eq!(p.find_all(b"ax", 0), vec![(0, 0), (1, 2), (2, 2)]);
}

#[test]
fn multibyte_text_matches_on_byte_spans() {
    let p = Pattern::compile("\u{00e9}").unwrap();
    let hay = "caf\u{00e9} latte".as_bytes();
    assert_eq!(p.find_first(hay), Some((3, 5)));
}

#[test]
fn compile_error_carries_the_pattern() {
    let err = Pattern::compile("(unclosed").unwrap_err();
    assert_eq!(err.pattern, "(unclosed".to_string());
    assert!(!err.message.is_empty());
}
