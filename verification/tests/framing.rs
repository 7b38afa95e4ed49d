use ud_co2s::framing::{LineBuffer, CARRIAGE_RETURN, LINE_FEED};

fn lines(items: &[&[u8]]) -> Vec<Vec<u8>> {
    items.iter().map(|item| item.to_vec()).collect()
}

#[test]
fn terminator_bytes_are_cr_and_lf() {
    assert_eq!(CARRIAGE_RETURN, b'\r');
    assert_eq!(LINE_FEED, b'\n');
}

#[test]
fn new_buffer_has_nothing_pending() {
    let buffer = LineBuffer::new();
    assert_eq!(buffer.len(), 0);
}

#[test]
fn crlf_lines_come_out_without_terminator() {
    let mut buffer = LineBuffer::new();
    assert_eq!(buffer.push(b"123\r\n456\r\n"), lines(&[b"123", b"456"]));
    assert_eq!(buffer.len(), 0);
}

#[test]
fn bare_line_feed_ends_a_line() {
    let mut buffer = LineBuffer::new();
    assert_eq!(buffer.push(b"a\nb\n"), lines(&[b"a", b"b"]));
}

#[test]
fn unterminated_bytes_stay_pending() {
    let mut buffer = LineBuffer::new();
    assert_eq!(buffer.push(b"400"), lines(&[]));
    assert_eq!(buffer.len(), 3);
    assert_eq!(buffer.push(b"12\r\n7"), lines(&[b"40012"]));
    assert_eq!(buffer.len(), 1);
    assert_eq!(buffer.take(), b"7".to_vec());
    assert_eq!(buffer.len(), 0);
}

#[test]
fn empty_chunk_changes_nothing() {
    let mut buffer = LineBuffer::new();
    assert_eq!(buffer.push(b"ab"), lines(&[]));
    assert_eq!(buffer.push(b""), lines(&[]));
    assert_eq!(buffer.len(), 2);
}

#[test]
fn empty_lines_are_lines() {
    let mut buffer = LineBuffer::new();
    assert_eq!(buffer.push(b"\n\r\n\n"), lines(&[b"", b"", b""]));
}

#[test]
fn only_one_carriage_return_is_dropped() {
    let mut buffer = LineBuffer::new();
    assert_eq!(buffer.push(b"a\r\r\n"), lines(&[b"a\r"]));
}

#[test]
fn carriage_return_inside_a_line_stays() {
    let mut buffer = LineBuffer::new();
    assert_eq!(buffer.push(b"a\rb\n"), lines(&[b"a\rb"]));
}

#[test]
fn terminator_split_across_chunks() {
    let mut buffer = LineBuffer::new();
    assert_eq!(buffer.push(b"abc\r"), lines(&[]));
    assert_eq!(buffer.len(), 4);
    assert_eq!(buffer.push(b"\ndef"), lines(&[b"abc"]));
    assert_eq!(buffer.take(), b"def".to_vec());
}

#[test]
fn cutting_the_stream_does_not_change_the_lines() {
    let stream: &[u8] = b"12\r\n\r\n345\n6\r\n78";
    let mut whole = LineBuffer::new();
    let expected = whole.push(stream);
    assert_eq!(expected, lines(&[b"12", b"", b"345", b"6"]));
    for cut in 0..=stream.len() {
        let mut buffer = LineBuffer::new();
        let mut got = buffer.push(&stream[..cut]);
        got.extend(buffer.push(&stream[cut..]));
        assert_eq!(got, expected);
        assert_eq!(buffer.take(), b"78".to_vec());
    }
}

#[test]
fn byte_by_byte_gives_the_same_lines() {
    let stream: &[u8] = b"410\r\n415\r\n";
    let mut buffer = LineBuffer::new();
    let mut got: Vec<Vec<u8>> = Vec::new();
    for byte in stream {
        got.extend(buffer.push(&[*byte]));
    }
    assert_eq!(got, lines(&[b"410", b"415"]));
    assert_eq!(buffer.len(), 0);
}
