use async_echo::lines::{LinePoll, LineReader};

fn line(s: &str) -> LinePoll {
    LinePoll::Line(s.as_bytes().to_vec())
}

#[test]
fn splits_on_newline() {
    let mut r = LineReader::new();
    r.receive(b"hello\nworld\n");
    assert_eq!(r.next_line(), line("hello"));
    assert_eq!(r.next_line(), line("world"));
    assert_eq!(r.next_line(), LinePoll::NeedMore);
}

#[test]
fn line_split_across_chunks() {
    let mut r = LineReader::new();
    r.receive(b"hel");
    assert_eq!(r.next_line(), LinePoll::NeedMore);
    r.receive(b"lo\nwo");
    assert_eq!(r.next_line(), line("hello"));
    assert_eq!(r.next_line(), LinePoll::NeedMore);
    r.receive(b"rld\n");
    assert_eq!(r.next_line(), line("world"));
}

#[test]
fn carriage_return_before_newline_is_kept() {
    let mut r = LineReader::new();
    r.receive(b"a\r\nb\r\r\n\r\n");
    assert_eq!(r.next_line(), line("a\r"));
    assert_eq!(r.next_line(), line("b\r\r"));
    assert_eq!(r.next_line(), line("\r"));
    assert_eq!(r.next_line(), LinePoll::NeedMore);
}

#[test]
fn empty_lines_are_lines() {
    let mut r = LineReader::new();
    r.receive(b"\n\n");
    assert_eq!(r.next_line(), line(""));
    assert_eq!(r.next_line(), line(""));
    assert_eq!(r.next_line(), LinePoll::NeedMore);
}

#[test]
fn partial_last_line_is_handed_out_at_end() {
    let mut r = LineReader::new();
    r.receive(b"one\ntwo\r");
    r.finish();
    assert!(r.has_ended());
    assert_eq!(r.next_line(), line("one"));
    assert_eq!(r.next_line(), line("two\r"));
    assert_eq!(r.next_line(), LinePoll::End);
    assert_eq!(r.next_line(), LinePoll::End);
}

#[test]
fn empty_stream_ends_at_once() {
    let mut r = LineReader::new();
    assert!(!r.has_ended());
    r.finish();
    assert_eq!(r.next_line(), LinePoll::End);
}

#[test]
fn invalid_utf8_line_is_refused_and_consumed() {
    let mut r = LineReader::new();
    r.receive(&[0x61, 0xff, 0x0a, 0x62, 0x0a]);
    assert_eq!(r.next_line(), LinePoll::InvalidData);
    assert_eq!(r.next_line(), line("b"));
}

#[test]
fn multibyte_utf8_line_is_kept() {
    let mut r = LineReader::new();
    r.receive("héllo ✓\n".as_bytes());
    assert_eq!(r.next_line(), line("héllo ✓"));
}

#[test]
fn utf8_sequence_split_across_chunks() {
    let bytes = "é\n".as_bytes();
    let mut r = LineReader::new();
    r.receive(&bytes[..1]);
    assert_eq!(r.next_line(), LinePoll::NeedMore);
    r.receive(&bytes[1..]);
    assert_eq!(r.next_line(), line("é"));
}
