// BidiParagraphs splits at every UAX #9 class-B character, with CR LF as
// one separator and no trailing empty paragraph.

use kalamos::BidiParagraphs;

fn paragraphs(text: &str) -> Vec<&str> {
    let mut it = BidiParagraphs::new(text);
    let mut out = Vec::new();
    while let Some(p) = it.next() {
        out.push(p);
    }
    out
}

#[test]
fn crlf_is_one_separator() {
    assert_eq!(paragraphs("abc\r\ndef"), ["abc", "def"]);
}

#[test]
fn crlf_with_non_ascii_content_matches_ascii_behavior() {
    assert_eq!(paragraphs("ابجد\r\nabc"), ["ابجد", "abc"]);
}

#[test]
fn lone_cr_splits() {
    assert_eq!(paragraphs("a\rb"), ["a", "b"]);
}

#[test]
fn lf_then_crlf_is_two_paragraphs() {
    assert_eq!(paragraphs("\n\r\n"), ["", ""]);
}

#[test]
fn every_class_b_separator_splits() {
    assert_eq!(paragraphs("a\u{2029}b\u{0085}c"), ["a", "b", "c"]);
}

#[test]
fn trailing_separator_yields_no_empty_paragraph() {
    assert_eq!(paragraphs("a\n"), ["a"]);
    assert_eq!(paragraphs("a\n\n"), ["a", ""]);
    assert_eq!(paragraphs(""), Vec::<&str>::new());
}

#[test]
fn information_separators_split_and_line_separator_does_not() {
    assert_eq!(paragraphs("a\u{1c}b\u{1d}c\u{1e}d"), ["a", "b", "c", "d"]);
    // U+2028 LINE SEPARATOR is class WS, not B; U+000B and U+001F are class S.
    assert_eq!(paragraphs("a\u{2028}b\u{b}c\u{1f}d"), ["a\u{2028}b\u{b}c\u{1f}d"]);
}

#[test]
fn lf_cr_is_two_separators() {
    assert_eq!(paragraphs("a\n\rb"), ["a", "", "b"]);
    assert_eq!(paragraphs("a\r\r\nb"), ["a", "", "b"]);
}

#[test]
fn paragraphs_and_separators_rebuild_the_text() {
    let text = "שלום\r\nעולם\u{2029}مرحبا\n\nend";
    let joined = paragraphs(text).join("|");
    assert_eq!(joined, "שלום|עולם|مرحبا||end");
    let mut it = BidiParagraphs::new(text);
    assert_eq!(it.next(), Some("שלום"));
    assert_eq!(it.next(), Some("עולם"));
    assert_eq!(it.next(), Some("مرحبا"));
    assert_eq!(it.next(), Some(""));
    assert_eq!(it.next(), Some("end"));
    assert_eq!(it.next(), None);
    assert_eq!(it.next(), None);
}

#[test]
fn none_stays_none_after_the_last_paragraph() {
    let mut it = BidiParagraphs::new("x\r\n");
    assert_eq!(it.next(), Some("x"));
    for _ in 0..3 {
        assert_eq!(it.next(), None);
    }
}
