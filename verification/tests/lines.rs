use xcopr::lines::decode_lines;
use xcopr::XcoprError;

fn all_lines(bytes: &[u8]) -> Result<Vec<String>, XcoprError> {
    decode_lines(bytes, bytes.len())
}

fn texts(items: &[&str]) -> Vec<String> {
    items.iter().map(|p| p.to_string()).collect()
}

fn not_utf8() -> XcoprError {
    XcoprError::InvalidUtf8("stream did not contain valid UTF-8".to_string())
}

#[test]
fn lines_end_at_line_feeds() {
    assert_eq!(all_lines(b"foo\nbar\nbaz\n"), Ok(texts(&["foo", "bar", "baz"])));
}

#[test]
fn last_line_needs_no_line_feed() {
    assert_eq!(all_lines(b"foo\nbar"), Ok(texts(&["foo", "bar"])));
    assert_eq!(all_lines(b"foo"), Ok(texts(&["foo"])));
}

#[test]
fn empty_stream_has_no_lines() {
    assert_eq!(all_lines(b""), Ok(texts(&[])));
}

#[test]
fn empty_lines_are_kept() {
    assert_eq!(all_lines(b"\n"), Ok(texts(&[""])));
    assert_eq!(all_lines(b"a\n\nb\n"), Ok(texts(&["a", "", "b"])));
    assert_eq!(all_lines(b"\n\n"), Ok(texts(&["", ""])));
}

#[test]
fn carriage_return_before_line_feed_is_dropped() {
    assert_eq!(all_lines(b"a\r\nb\r\n"), Ok(texts(&["a", "b"])));
    assert_eq!(all_lines(b"\r\n"), Ok(texts(&[""])));
    assert_eq!(all_lines(b"a\r\r\n"), Ok(texts(&["a\r"])));
}

#[test]
fn other_carriage_returns_are_kept() {
    assert_eq!(all_lines(b"a\rb\n"), Ok(texts(&["a\rb"])));
    assert_eq!(all_lines(b"abc\r"), Ok(texts(&["abc\r"])));
}

#[test]
fn blanks_around_a_line_are_kept() {
    assert_eq!(all_lines(b"  a \t\n b\n"), Ok(texts(&["  a \t", " b"])));
}

#[test]
fn text_beyond_ascii_is_decoded() {
    assert_eq!(all_lines("héllo\nwörld €\n".as_bytes()), Ok(texts(&["héllo", "wörld €"])));
    assert_eq!(all_lines("日本語".as_bytes()), Ok(texts(&["日本語"])));
}

#[test]
fn bytes_that_are_not_utf8_are_refused() {
    assert_eq!(all_lines(&[0xff, 0x0a]), Err(not_utf8()));
    assert_eq!(all_lines(&[b'a', 0x0a, 0xc3, 0x28, 0x0a]), Err(not_utf8()));
    assert_eq!(all_lines(&[b'a', 0x0a, 0xc3]), Err(not_utf8()));
    assert_eq!(all_lines(&[0xed, 0xa0, 0x80]), Err(not_utf8()));
}

#[test]
fn only_the_first_lines_are_looked_at() {
    assert_eq!(decode_lines(b"a\nb\nc\n", 2), Ok(texts(&["a", "b"])));
    assert_eq!(decode_lines(b"a\nb\nc\n", 0), Ok(texts(&[])));
    assert_eq!(decode_lines(b"a\nb", 5), Ok(texts(&["a", "b"])));
    assert_eq!(decode_lines(&[b'a', 0x0a, 0xff, 0x0a], 1), Ok(texts(&["a"])));
    assert_eq!(decode_lines(&[b'a', 0x0a, 0xff, 0x0a], 2), Err(not_utf8()));
    assert_eq!(decode_lines(&[b'a', 0x0a, 0xff], 2), Err(not_utf8()));
}

#[test]
fn lines_with_line_feeds_are_read_back() {
    let lines = texts(&["", "a", " b ", "c\rd", "é", ""]);
    let mut stream: Vec<u8> = Vec::new();
    for line in &lines {
        stream.extend_from_slice(line.as_bytes());
        stream.push(b'\n');
    }
    assert_eq!(all_lines(&stream), Ok(lines));
}
