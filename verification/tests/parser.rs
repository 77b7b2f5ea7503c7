//! Tests of the `desc` record parser and the tag/value text grammar.

use checkupgrades::desc::{encode_pairs, parse_desc, DescIter};

fn pairs(v: &[(&str, &str)]) -> Vec<(String, String)> {
    v.iter().map(|(t, s)| (t.to_string(), s.to_string())).collect()
}

#[test]
fn parse_basic_records() {
    let text = "%NAME%\nfoo\n\n%CSIZE%\n42\n\n";
    assert_eq!(parse_desc(text), pairs(&[("NAME", "foo"), ("CSIZE", "42")]));
}

#[test]
fn parse_multiline_value() {
    let text = "%DESC%\nline one\nline two\n\n";
    assert_eq!(parse_desc(text), pairs(&[("DESC", "line one\nline two")]));
}

#[test]
fn parse_empty_value() {
    let text = "%X%\n\n\n";
    assert_eq!(parse_desc(text), pairs(&[("X", "")]));
}

#[test]
fn parse_tag_line_followed_by_blank_line() {
    // a value of zero lines: the blank line comes right after the tag line
    assert_eq!(parse_desc("%TAG%\n\n"), pairs(&[("TAG", "")]));
    assert_eq!(
        parse_desc("%A%\n\n%B%\nv\n\n"),
        pairs(&[("A", ""), ("B", "v")])
    );
}

#[test]
fn parse_skips_leading_text() {
    let text = "junk before\nany tag\n%NAME%\nfoo\n\n";
    assert_eq!(parse_desc(text), pairs(&[("NAME", "foo")]));
}

#[test]
fn parse_unterminated_record_yields_nothing() {
    assert_eq!(parse_desc("%NAME%\nfoo\n"), pairs(&[]));
    assert_eq!(parse_desc("%NAME%"), pairs(&[]));
    assert_eq!(parse_desc(""), pairs(&[]));
}

#[test]
fn parse_tag_line_inside_value_is_captured() {
    // the value runs to the first blank line, swallowing later tag lines
    let text = "%a%\nx\n%b%\ny\n\n";
    assert_eq!(parse_desc(text), pairs(&[("a", "x\n%b%\ny")]));
}

#[test]
fn parse_rejects_malformed_tag_lines() {
    // empty tag, unclosed tag, and a stray % inside the tag
    assert_eq!(parse_desc("%%\nv\n\n"), pairs(&[]));
    assert_eq!(parse_desc("%tag\nv\n\n"), pairs(&[]));
    assert_eq!(parse_desc("%a%b%\nv\n\n"), pairs(&[]));
}

#[test]
fn desc_iter_yields_in_order() {
    let text = "%A%\n1\n\n%B%\n2\n\n%C%\n3\n\n";
    let mut it = DescIter::new(text);
    assert_eq!(it.next(), Some(("A", "1")));
    assert_eq!(it.next(), Some(("B", "2")));
    assert_eq!(it.next(), Some(("C", "3")));
    assert_eq!(it.next(), None);
    assert_eq!(it.next(), None);
}

#[test]
fn round_trip_encode_then_parse() {
    let original = pairs(&[
        ("NAME", "foo-bar"),
        ("DESC", "a longer\ndescription"),
        ("EMPTY", ""),
        ("CSIZE", "12345"),
    ]);
    let text = encode_pairs(&original);
    assert_eq!(parse_desc(&text), original);
}

#[test]
fn parse_twice_is_identical() {
    let text = "%NAME%\nfoo\n\n%SIZE%\n10\n\nsome trailing junk";
    let first = parse_desc(text);
    let second = parse_desc(text);
    assert_eq!(first, second);
}
