use recoil::collection::is_ascii_space;
use recoil::{Bytes, Collection, Input};

#[test]
fn unified_input_type() {
    let old = "foo ☃☃☃ foo foo quux foo";

    let new = old.replace("foo", "hello");
    assert_eq!(new, "hello ☃☃☃ hello hello quux hello");
}

#[test]
fn collection_tokens() {
    let mut input = Bytes::new(
        &br#"01 234   56\n\t789\r\nAaZ    z
        {
            \"age\":31,
            \"name\":\"unknown\"
        }"#[..],
    );

    assert_eq!(input.next_token(), Some(&b"01"[..]));

    let indices: Vec<usize> = input.as_enum().iter().map(|(i, _)| *i).collect();

    assert_ne!(indices.len(), 0, "indices should not be equal to zero (0).");
}

#[test]
fn tokens_follow_whitespace() {
    let mut input = Bytes::new(&b"  ab \t\r\ncd\x0Cef  "[..]);
    assert_eq!(input.next_token(), Some(&b"ab"[..]));
    assert_eq!(input.inner(), &b" \t\r\ncd\x0Cef  "[..]);
    assert_eq!(input.next_token(), Some(&b"cd"[..]));
    assert_eq!(input.next_token(), Some(&b"ef"[..]));
    assert_eq!(input.next_token(), None);
    assert_eq!(input.inner(), &b"  "[..]);
}

#[test]
fn tokens_of_empty_input() {
    let mut input = Bytes::new(&b""[..]);
    assert_eq!(input.next_token(), None);
    assert!(input.is_empty());
}

#[test]
fn ascii_space_bytes() {
    for b in [b' ', b'\t', b'\n', 0x0C, b'\r'] {
        assert!(is_ascii_space(b));
    }
    for b in [b'a', 0x0B, 0x00, 0xA0] {
        assert!(!is_ascii_space(b));
    }
}

#[test]
fn bytes_read_one_by_one() {
    let mut bytes = Bytes::new(&b"ab"[..]);
    assert_eq!(bytes.len(), 2);
    assert_eq!(bytes.next(), Some(&b'a'));
    assert_eq!(bytes.next(), Some(&b'b'));
    assert_eq!(bytes.next(), None);
    assert_eq!(bytes.len(), 0);
}

#[test]
fn bytes_clear_drops_rest() {
    let mut bytes = Bytes::new(&b"abc"[..]);
    bytes.clear();
    assert!(bytes.is_empty());
    assert_eq!(bytes.inner(), &b""[..]);
}

#[test]
fn bytes_deref_to_slice() {
    let bytes = Bytes::new(&b"xyz"[..]);
    let slice: &[u8] = *bytes;
    assert_eq!(slice, b"xyz");
}

#[test]
fn byte_enumeration_uses_indices() {
    let input: &[u8] = b"abc";
    assert_eq!(input.as_iter(), vec![b'a', b'b', b'c']);
    assert_eq!(input.as_enum(), vec![(0, b'a'), (1, b'b'), (2, b'c')]);
    let bytes = Bytes::new(input);
    assert_eq!(bytes.as_enum(), vec![(0, b'a'), (1, b'b'), (2, b'c')]);
}

#[test]
fn text_enumeration_uses_byte_offsets() {
    let input: &str = "a☃é𝄞b";
    assert_eq!(input.as_iter(), vec!['a', '☃', 'é', '𝄞', 'b']);
    let offsets: Vec<usize> = input.as_enum().iter().map(|(i, _)| *i).collect();
    assert_eq!(offsets, vec![0, 1, 4, 6, 10]);
    for (offset, c) in input.as_enum() {
        assert_eq!(input[offset..].chars().next(), Some(c));
    }
    let empty: &str = "";
    assert!(empty.as_enum().is_empty());
}

#[test]
fn input_as_slice_is_whole_input() {
    let bytes: &[u8] = b"whole";
    assert_eq!(bytes.as_slice(), b"whole");
    let text: &str = "wh☃le";
    assert_eq!(text.as_slice(), "wh☃le");
}
