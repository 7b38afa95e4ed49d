use ud_co2s::text::keep_text;

fn lines(items: &[&[u8]]) -> Vec<Vec<u8>> {
    items.iter().map(|item| item.to_vec()).collect()
}

#[test]
fn keep_text_keeps_lines_that_are_all_text() {
    let mut all = lines(&[b"1", b"", "\u{e9}".as_bytes()]);
    assert!(keep_text(&mut all));
    assert_eq!(all, lines(&[b"1", b"", "\u{e9}".as_bytes()]));
}

#[test]
fn keep_text_cuts_before_the_first_damaged_line() {
    let mut some = lines(&[b"1", b"2", b"\xFF", b"4", b"\xFE"]);
    assert!(!keep_text(&mut some));
    assert_eq!(some, lines(&[b"1", b"2"]));
}

#[test]
fn keep_text_may_cut_everything() {
    let mut none = lines(&[b"\x80", b"ok"]);
    assert!(!keep_text(&mut none));
    assert_eq!(none, lines(&[]));
}

#[test]
fn keep_text_accepts_no_lines() {
    let mut empty = lines(&[]);
    assert!(keep_text(&mut empty));
    assert_eq!(empty, lines(&[]));
}
