use unixsockmon::{ByteStream, FrameError, Framing, SockMonitor};

fn stream(bytes: &[u8]) -> ByteStream {
    ByteStream::new(bytes.to_vec())
}

#[test]
fn stream_reads_exactly() {
    let mut s = stream(b"abcdef");
    assert_eq!(s.remaining(), 6);
    assert_eq!(s.read_exact(2), Some(b"ab".to_vec()));
    assert_eq!(s.remaining(), 4);
    assert_eq!(s.read_exact(0), Some(Vec::new()));
    assert_eq!(s.read_exact(4), Some(b"cdef".to_vec()));
    assert_eq!(s.remaining(), 0);
    assert_eq!(s.read_exact(0), Some(Vec::new()));
}

#[test]
fn stream_that_ends_early_is_left_at_its_end() {
    let mut s = stream(b"abc");
    assert_eq!(s.read_exact(4), None);
    assert_eq!(s.remaining(), 0);
    assert_eq!(s.read_exact(1), None);
}

#[test]
fn stream_reads_until_a_delimiter() {
    let mut s = stream(b"ab,cd,,e");
    assert_eq!(s.read_until(b','), b"ab,".to_vec());
    assert_eq!(s.read_until(b','), b"cd,".to_vec());
    assert_eq!(s.read_until(b','), b",".to_vec());
    assert_eq!(s.read_until(b','), b"e".to_vec());
    assert_eq!(s.read_until(b','), Vec::<u8>::new());
    assert_eq!(s.remaining(), 0);
}

#[test]
fn stream_reads_to_its_end() {
    let mut s = stream(b"abcdef");
    assert_eq!(s.read_exact(2), Some(b"ab".to_vec()));
    assert_eq!(s.read_to_end(), b"cdef".to_vec());
    assert_eq!(s.read_to_end(), Vec::<u8>::new());
    assert_eq!(s.remaining(), 0);
}

#[test]
fn line_is_read_without_its_newline() {
    let mut s = stream(b"a fox jumps over the lazy dog\n");
    assert_eq!(SockMonitor::read_line(&mut s), Ok("a fox jumps over the lazy dog".to_string()));
    assert_eq!(s.remaining(), 0);
}

#[test]
fn line_ends_at_the_first_newline() {
    let mut s = stream(b"first\nsecond\nrest");
    assert_eq!(SockMonitor::read_line(&mut s), Ok("first".to_string()));
    assert_eq!(s.remaining(), 11);
    assert_eq!(SockMonitor::read_line(&mut s), Ok("second".to_string()));
    assert_eq!(SockMonitor::read_line(&mut s), Ok("rest".to_string()));
    assert_eq!(SockMonitor::read_line(&mut s), Ok(String::new()));
    assert_eq!(s.remaining(), 0);
}

#[test]
fn line_without_a_newline_is_all_that_was_sent() {
    let mut s = stream(b"no newline here");
    assert_eq!(SockMonitor::read_line(&mut s), Ok("no newline here".to_string()));
    assert_eq!(s.remaining(), 0);
}

#[test]
fn line_of_an_empty_stream_is_empty() {
    let mut s = stream(b"");
    assert_eq!(SockMonitor::read_line(&mut s), Ok(String::new()));
}

#[test]
fn line_of_one_newline_is_empty() {
    let mut s = stream(b"\nmore");
    assert_eq!(SockMonitor::read_line(&mut s), Ok(String::new()));
    assert_eq!(s.remaining(), 4);
}

#[test]
fn line_loses_one_newline_only() {
    let mut s = stream(b"text\r\n\n");
    assert_eq!(SockMonitor::read_line(&mut s), Ok("text\r".to_string()));
    assert_eq!(s.remaining(), 1);
}

#[test]
fn line_of_wide_characters() {
    let mut s = stream("sn\u{f6} \u{2603} \u{1F600}\n".as_bytes());
    assert_eq!(SockMonitor::read_line(&mut s), Ok("sn\u{f6} \u{2603} \u{1F600}".to_string()));
}

#[test]
fn line_that_is_not_text_is_refused() {
    let mut s = stream(&[b'a', 0xFF, b'\n', b'b']);
    assert_eq!(SockMonitor::read_line(&mut s), Err(FrameError::Decode));
    assert_eq!(s.remaining(), 1);
}

#[test]
fn line_cut_within_a_character_is_refused() {
    let mut s = stream(&[0xE2, 0x98]);
    assert_eq!(SockMonitor::read_line(&mut s), Err(FrameError::Decode));
}

#[test]
fn line_with_an_overlong_encoding_is_refused() {
    let mut s = stream(&[0xC0, 0x8A, b'\n']);
    assert_eq!(SockMonitor::read_line(&mut s), Err(FrameError::Decode));
}

#[test]
fn framed_request_is_read_back() {
    let mut wire = vec![0u8, 0, 0, 29];
    wire.extend_from_slice(b"a fox jumps over the lazy dog");
    let mut s = stream(&wire);
    assert_eq!(SockMonitor::read_bytes(&mut s), Ok("a fox jumps over the lazy dog".to_string()));
    assert_eq!(s.remaining(), 0);
}

#[test]
fn framed_request_leaves_what_follows() {
    let mut s = stream(&[0, 0, 0, 2, b'h', b'i', 0, 0, 0, 1, b'!']);
    assert_eq!(SockMonitor::read_bytes(&mut s), Ok("hi".to_string()));
    assert_eq!(s.remaining(), 5);
    assert_eq!(SockMonitor::read_bytes(&mut s), Ok("!".to_string()));
    assert_eq!(s.remaining(), 0);
}

#[test]
fn framed_request_may_hold_newlines() {
    let mut s = stream(&[0, 0, 0, 3, b'a', b'\n', b'b']);
    assert_eq!(SockMonitor::read_bytes(&mut s), Ok("a\nb".to_string()));
}

#[test]
fn framed_request_of_length_zero_is_empty() {
    let mut s = stream(&[0, 0, 0, 0]);
    assert_eq!(SockMonitor::read_bytes(&mut s), Ok(String::new()));
    assert_eq!(s.remaining(), 0);
}

#[test]
fn framed_request_length_is_big_endian() {
    let mut wire = vec![0u8, 0, 1, 2];
    wire.extend(std::iter::repeat(b'z').take(258));
    wire.push(b'!');
    let mut s = stream(&wire);
    assert_eq!(SockMonitor::read_bytes(&mut s), Ok("z".repeat(258)));
    assert_eq!(s.remaining(), 1);
}

#[test]
fn framed_request_with_a_short_prefix_is_truncated() {
    let prefix = [0u8, 0, 0, 9];
    for kept in [0usize, 1, 2, 3] {
        let mut s = stream(&prefix[..kept]);
        assert_eq!(SockMonitor::read_bytes(&mut s), Err(FrameError::Truncated));
        assert_eq!(s.remaining(), 0);
    }
}

#[test]
fn framed_request_with_a_short_payload_is_truncated() {
    let mut s = stream(&[0, 0, 0, 5, b'a', b'b', b'c', b'd']);
    assert_eq!(SockMonitor::read_bytes(&mut s), Err(FrameError::Truncated));
    assert_eq!(s.remaining(), 0);
}

#[test]
fn framed_request_announcing_far_too_much_is_truncated() {
    let mut s = stream(&[0xFF, 0xFF, 0xFF, 0xFF, b'a']);
    assert_eq!(SockMonitor::read_bytes(&mut s), Err(FrameError::Truncated));
    assert_eq!(s.remaining(), 0);
}

#[test]
fn framed_request_that_is_not_text_is_refused() {
    let mut s = stream(&[0, 0, 0, 2, 0xC3, 0x28, b'x']);
    assert_eq!(SockMonitor::read_bytes(&mut s), Err(FrameError::Decode));
    assert_eq!(s.remaining(), 1);
}

#[test]
fn framed_request_of_a_surrogate_is_refused() {
    let mut s = stream(&[0, 0, 0, 3, 0xED, 0xA0, 0x80]);
    assert_eq!(SockMonitor::read_bytes(&mut s), Err(FrameError::Decode));
}

#[test]
fn strategies_read_as_the_functions_of_their_names() {
    let wire = [0u8, 0, 0, 2, b'h', b'\n', b'x'];
    let mut a = stream(&wire);
    let mut b = stream(&wire);
    assert_eq!(Framing::LengthPrefixed.read(&mut a), SockMonitor::read_bytes(&mut b));
    assert_eq!(a.remaining(), b.remaining());
    let mut a = stream(&wire);
    let mut b = stream(&wire);
    assert_eq!(Framing::Line.read(&mut a), SockMonitor::read_line(&mut b));
    assert_eq!(a.remaining(), 1);
    assert_eq!(b.remaining(), 1);
}
