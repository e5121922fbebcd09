use recoil::slice::BytesView;
use recoil::{ByteSpan, Slice, Span, StrSpan};

fn resume_buffer() -> Vec<u8> {
    let mut buffer = b"%PDF-1.4\n".to_vec();
    let mut i: u32 = 0;
    while buffer.len() < 2048 {
        buffer.extend_from_slice(format!("{} 0 obj\n<< /Length {} >>\nendobj\n", i, i * 7).as_bytes());
        i += 1;
    }
    buffer
}

#[test]
fn spans_allow_input_inspection() {
    let buffer = resume_buffer();
    let n = buffer.len();
    assert!(n > 0, "buffer must contain at least one byte.");

    let input = recoil::Bytes::new(&buffer[..]);

    let input = input.inner().view(0..1024);

    if input.len() % 512 == 0 && !input.is_empty() {
        let view1 = &input[..256];
        let view2 = &input[256..512];
        assert!(!view1.is_empty());
        assert_eq!(
            view1.len(),
            256,
            "view 1 should be equal to range length (..256)"
        );
        assert_eq!(
            view2.len(),
            256,
            "view 1 should be equal to range length (256..512)"
        );
        assert!(!view2.is_empty());
    }

    assert!(!input.is_empty());
    assert_eq!(input.len(), 1024);
}

#[test]
fn view_then_prefix_gives_range() {
    let b: &[u8] = b"0123456789";
    for i in 0..=b.len() {
        for j in i..=b.len() {
            let v = b.view(i..j);
            assert_eq!(v.view_to(j - i), &b[i..j]);
        }
    }
    assert_eq!(b.view_from(7), b"789");
    assert_eq!(b.view_to(3), b"012");
    assert_eq!(b.view(10..10), b"");
}

#[test]
fn text_views_use_byte_offsets() {
    let t: &str = "a☃b";
    assert_eq!(t.view(1..4), "☃");
    assert_eq!(t.view_from(4), "b");
    assert_eq!(t.view_to(1), "a");
    assert_eq!(t.view(0..5).view_to(4), "a☃");
}

#[test]
fn split_when_finds_first_match() {
    let b: &[u8] = b"key=value=x";
    assert_eq!(b.split_when(|c| c == b'='), Some((&b"key"[..], &b"=value=x"[..])));
    assert_eq!(b.split_when(|c| c == b'k'), Some((&b""[..], &b"key=value=x"[..])));
    assert_eq!(b.split_when(|c| c == b'#'), None);
    let empty: &[u8] = b"";
    assert_eq!(empty.split_when(|_| true), None);
}

#[test]
fn split_when_on_text() {
    let t: &str = "ab☃cd";
    assert_eq!(t.split_when(|c| c == '☃'), Some(("ab", "☃cd")));
    assert_eq!(t.split_when(|c| c == 'd'), Some(("ab☃c", "d")));
    assert_eq!(t.split_when(|c| c == 'a'), Some(("", "ab☃cd")));
    assert_eq!(t.split_when(|c| c.is_ascii_digit()), None);
}

#[test]
fn byte_span_tracks_offsets() {
    let mut span = ByteSpan::new(b"hi!");
    assert_eq!((span.start(), span.end()), (0, 3));
    assert_eq!(span.next(), Some(&b'h'));
    assert_eq!((span.start(), span.end()), (1, 3));
    assert_eq!(span.as_bytes(), b"i!");
    assert_eq!(span.as_str(), "i!");
    span.next();
    span.next();
    assert_eq!(span.next(), None);
    assert_eq!((span.start(), span.end()), (3, 3));
    let from: ByteSpan = ByteSpan::from(&b"xy"[..]);
    assert_eq!((from.start(), from.end()), (0, 2));
}

#[test]
fn byte_span_reads_utf8_text() {
    let span = ByteSpan::new("né☃".as_bytes());
    assert_eq!(span.as_str(), "né☃");
    assert_eq!(span.as_str().chars().count(), 3);
}

#[test]
fn str_span_steps_by_character() {
    let mut span = StrSpan::new("☃x");
    assert_eq!((span.start(), span.end()), (0, 4));
    assert_eq!(span.next(), Some('☃'));
    assert_eq!((span.start(), span.end()), (3, 4));
    assert_eq!(span.as_str(), "x");
    assert_eq!(span.as_bytes(), b"x");
    assert_eq!(span.next(), Some('x'));
    assert_eq!(span.next(), None);
    assert_eq!((span.start(), span.end()), (4, 4));
    let from: StrSpan = StrSpan::from("ab");
    assert_eq!(from.end(), 2);
}

#[test]
fn bytes_view_keeps_bounds() {
    let v = BytesView::new(2, 5);
    assert_eq!(v.start(), 2);
    assert_eq!(v.end(), 5);
}
