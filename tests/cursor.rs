use recoil::{Collection, Cursor, Slice, Span};

const COMPOSE: &str = "version: '3.9'\nservices:\n  web:\n    image: \"nginx:latest\"\n";

#[test]
fn sequence_remaining_length() {
    let input = &br#"In the previous section we tried running our unsafe
singly-linked queue under miri, and it said we had broken the rules of
stacked borrows, and linked us some documentation.
"#[..];
    let mut cursor = Cursor::new(input);

    cursor.advance(7);
    let mut scan = cursor;
    let mut end = 0;
    while let Some((pos, b)) = scan.next_item() {
        if *b == b' ' {
            break;
        }
        end = pos;
    }
    let actual = cursor.view(0..end);
    let expected = input.view(7..7 + end);

    assert_eq!(
        actual, expected,
        "Expected `{:?}` bytes, but got: `{:?}`",
        expected, actual
    );
}

#[test]
fn bytes_to_text() {
    let buf = b"version: '3.9'";
    let len = buf.len();
    assert!(len > 0, "buffer must contain at least one byte.");

    let input: &[u8] = core::str::from_utf8(buf.as_slice()).unwrap().as_ref();
    assert!(
        !input.is_empty(),
        "The `Bytes` container should not be empty. Length should be greater than 0."
    );

    let mut cursor = Cursor::new(input);
    cursor.advance(7);
    let bytes = core::str::from_utf8(cursor.get_ref()).unwrap();

    assert_eq!(bytes, ": '3.9'");
}

#[test]
fn compose_remainder_splits_at_first_space() {
    let mut cursor = Cursor::new(b"version: '3.9'");
    cursor.advance(7);
    assert_eq!(cursor.get_ref(), b": '3.9'");
    let rest = cursor.get_ref();
    let (head, tail) = rest.split_when(|b| b == b' ').unwrap();
    assert_eq!(head, b":");
    assert_eq!(tail, b" '3.9'");
}

#[test]
fn next_item_reports_positions_after_each_byte() {
    let mut cursor = Cursor::new(b"Package");
    let expected = [(1, b'P'), (2, b'a'), (3, b'c'), (4, b'k'), (5, b'a')];
    for (pos, byte) in expected {
        assert_eq!(cursor.next_item(), Some((pos, &byte)));
    }
    assert_eq!(cursor.position(), 5);
    assert_eq!(cursor.remaining(), 2);
}

#[test]
fn next_item_on_exhausted_cursor() {
    let mut cursor = Cursor::new(b"a");
    assert_eq!(cursor.next(), Some((1, &b'a')));
    assert_eq!(cursor.next(), None);
    assert!(!cursor.has_remaining());
    assert_eq!(cursor.position(), 1);
}

#[test]
fn advance_reduces_remaining_exactly() {
    let mut cursor = Cursor::new(b"abcdef");
    cursor.next_item();
    assert_eq!(cursor.remaining(), 5);
    cursor.advance(2);
    assert_eq!(cursor.remaining(), 3);
    assert_eq!(cursor.get_ref(), b"def");
    assert_eq!(cursor.position(), 0);
    cursor.advance(3);
    assert_eq!(cursor.remaining(), 0);
    assert!(!cursor.has_remaining());
}

#[test]
fn advance_past_end_leaves_cursor() {
    let mut cursor = Cursor::new(b"abc");
    cursor.next_item();
    cursor.advance(3);
    assert_eq!(cursor.remaining(), 2);
    assert_eq!(cursor.position(), 1);
    assert_eq!(cursor.get_ref(), b"abc");
}

#[test]
fn peek_to_reports_shortage() {
    let mut cursor = Cursor::new(b"abcd");
    cursor.next_item();
    assert_eq!(cursor.peek_to(2), Some(&b"bc"[..]));
    assert_eq!(cursor.peek_to(3), Some(&b"bcd"[..]));
    assert_eq!(cursor.peek_to(4), None);
    assert_eq!(cursor.peek_to(0), Some(&b""[..]));
    assert_eq!(cursor.position(), 1);
}

#[test]
fn split_at_consumes_head() {
    let mut cursor = Cursor::new(b"abcdef");
    cursor.next_item();
    let (head, tail) = cursor.split_at(2);
    assert_eq!(head, b"bc");
    assert_eq!(tail, b"def");
    assert_eq!(cursor.position(), 3);
    let (head, tail) = cursor.split_at(9);
    assert_eq!(head, b"");
    assert_eq!(tail, b"def");
    assert_eq!(cursor.position(), 3);
}

#[test]
fn offset_skips_then_reads() {
    let mut cursor = Cursor::new(b"abcdef");
    assert_eq!(cursor.offset(2), Some((1, &b'c')));
    assert_eq!(cursor.get_ref(), b"cdef");
    assert_eq!(cursor.offset(9), None);
    assert_eq!(cursor.remaining(), 3);
    assert_eq!(cursor.offset(3), None);
    assert_eq!(cursor.remaining(), 0);
}

#[test]
fn item_at_moves_position() {
    let mut cursor = Cursor::new(b"abcdef");
    assert_eq!(cursor.item_at(2), Some((3, &b'c')));
    assert_eq!(cursor.position(), 3);
    assert_eq!(cursor.item_at(7), None);
    assert_eq!(cursor.position(), 3);
    assert_eq!(cursor.item_at(3), None);
    assert_eq!(cursor.position(), 6);
}

#[test]
fn cursor_views_and_listing() {
    let cursor = Cursor::new(b"hello");
    assert_eq!(cursor.view(1..3), b"el");
    assert_eq!(cursor.view_from(3), b"lo");
    assert_eq!(cursor.view_to(2), b"he");
    assert_eq!(cursor.size_hint(), (5, Some(5)));
    assert_eq!(cursor.as_iter(), b"hello".to_vec());
    assert_eq!(cursor.as_enum()[4], (4, b'o'));
    assert_eq!(
        cursor.into_vec(),
        vec![(0, b'h'), (1, b'e'), (2, b'l'), (3, b'l'), (4, b'o')]
    );
}

#[test]
fn bytes_docker_compose_file() {
    let buffer = match core::str::from_utf8(COMPOSE.as_bytes()) {
        Ok(inner) => inner,
        Err(error) => panic!("bytes should be valid UTF-8; error = {error:?}"),
    };

    let mut bytes = recoil::Bytes::new(buffer.as_bytes());
    assert!(
        bytes.len() > 0,
        "cursor inner value should be greater than 0"
    );

    assert_eq!(bytes.next(), Some(&b'v'));
    assert_eq!(bytes.next(), Some(&b"e"[0]));
    assert_eq!(bytes.next(), Some(&b'r'));
    assert_eq!(bytes.next(), Some(&b"s"[0]));
    assert_eq!(bytes.next(), Some(&b'i'));
}

#[test]
fn cursors_compare_by_position_over_same_bytes() {
    let a = Cursor::new(b"abc");
    let mut b = Cursor::new(b"abc");
    assert_eq!(a, b);
    b.next_item();
    assert_ne!(a, b);
    assert!(a < b);
    assert_eq!(a.partial_cmp(&b), Some(core::cmp::Ordering::Less));
    let other = Cursor::new(b"xyz");
    assert_eq!(a.partial_cmp(&other), None);
    assert_ne!(a, other);
}
