use agent_browser_core::source::{
    bounded_match_context, javascript_source_lines, javascript_source_lines_with_offsets,
    utf16_offset_at, utf16_offset_for_location,
};

#[test]
fn javascript_lines_and_utf16_offsets_use_ecmascript_line_terminators() {
    let source = "a\r\nb😀\u{2028}c\u{2029}";
    assert_eq!(javascript_source_lines(source), vec!["a", "b😀", "c", ""]);
    assert_eq!(utf16_offset_for_location(source, 1, 3), Some(6));
    assert_eq!(utf16_offset_for_location(source, 1, 4), None);

    let line = "😀abMATCHcd😀";
    let start = line.find("MATCH").unwrap();
    assert_eq!(
        bounded_match_context(line, start, start + "MATCH".len(), 2),
        "abMATCHcd"
    );
}

#[test]
fn lines_carry_their_byte_offsets() {
    let lines = javascript_source_lines_with_offsets("é\r\nx\n\ny");
    assert_eq!(
        lines,
        vec![
            (0, "é".to_string()),
            (4, "x".to_string()),
            (6, String::new()),
            (7, "y".to_string()),
        ]
    );
}

#[test]
fn locations_outside_the_source_have_no_offset() {
    assert_eq!(utf16_offset_at("ab\ncd", 0, 2), Some(2));
    assert_eq!(utf16_offset_at("ab\ncd", 0, 3), None);
    assert_eq!(utf16_offset_at("ab\ncd", 1, 0), Some(3));
    assert_eq!(utf16_offset_at("ab\ncd", 2, 0), None);
    assert_eq!(utf16_offset_at("ab\ncd", u64::MAX, 0), None);
    assert_eq!(utf16_offset_at("ab\ncd", 0, u64::MAX), None);
}

#[test]
fn context_stops_at_the_ends_of_the_line() {
    assert_eq!(bounded_match_context("xMy", 1, 2, 160), "xMy");
    assert_eq!(bounded_match_context("abcMdef", 3, 4, 1), "cMd");
    assert_eq!(bounded_match_context("abcMdef", 3, 4, 0), "M");
}
