use recoil::parser::AResult;
use recoil::{Complete, ErrorKind, ErrorWithContext, Error, Parser};

type Res<'a, O> = AResult<&'a [u8], O, ErrorWithContext<&'a [u8]>>;

fn digits(input: &[u8]) -> Res<'_, u32> {
    let n = input.iter().take_while(|b| b.is_ascii_digit()).count();
    if n == 0 {
        return Err(ErrorWithContext::from_error_kind(input, ErrorKind::MalformedData));
    }
    let value = input[..n].iter().fold(0u32, |acc, b| acc * 10 + u32::from(b - b'0'));
    Ok((&input[n..], value))
}

#[test]
fn functions_are_parsers() {
    let mut p = digits;
    assert_eq!(p.exec(b"42rest"), Ok((&b"rest"[..], 42)));
    let err = p.exec(b"x").unwrap_err();
    assert_eq!(err.kind(), ErrorKind::MalformedData);
}

#[test]
fn map_transforms_output_only() {
    let mut p = digits.map(|n| n * 2);
    assert_eq!(p.exec(b"21;"), Ok((&b";"[..], 42)));
    let err = p.exec(b";").unwrap_err();
    assert_eq!(err.kind(), ErrorKind::MalformedData);
    assert_eq!(*err.input(), &b";"[..]);
}

#[test]
fn map_twice_equals_composed_map() {
    let f = |n: u32| n + 1;
    let g = |n: u32| n * 10;
    let mut twice = digits.map(f).map(g);
    let mut once = digits.map(move |n| g(f(n)));
    for input in [&b"7x"[..], &b"123"[..], &b"abc"[..], &b""[..]] {
        assert_eq!(twice.exec(input), once.exec(input));
    }
    assert_eq!(twice.exec(b"7x"), Ok((&b"x"[..], 80)));
}

#[test]
fn complete_passes_result_through() {
    let mut p = Complete::new(digits);
    assert_eq!(p.exec(b"9 "), Ok((&b" "[..], 9)));
    assert!(p.exec(b" ").is_err());
}
