//! Byte offsets of the characters of a text buffer.
use vstd::prelude::*;
use vstd::utf8::{
    char_is_scalar, encode_scalar, encode_utf8, encode_utf8_decode_utf8, encode_utf8_first_scalar,
    encode_utf8_valid_utf8, is_char_boundary, length_of_first_scalar, pop_first_scalar,
};

verus! {

/// Number of bytes in the UTF-8 encoding of `c`.
pub open spec fn width_of(c: char) -> nat {
    encode_scalar(c as u32).len()
}

/// Byte offset of the `i`-th character of `s`: the length of the encoding
/// of the characters before it.
pub open spec fn char_offset(s: Seq<char>, i: int) -> int {
    encode_utf8(s.take(i)).len() as int
}

/// Returns the number of bytes in the UTF-8 encoding of `c`.
pub fn char_width(c: char) -> (r: usize)
    ensures
        r == width_of(c),
        1 <= r <= 4,
{
    proof {
        char_is_scalar(c);
    }
    let u = c as u32;
    if u < 0x80 {
        1
    } else if u < 0x800 {
        2
    } else if u < 0x10000 {
        3
    } else {
        4
    }
}

/// The encoding of a concatenation is the concatenation of the encodings.
pub proof fn lemma_encode_concat(a: Seq<char>, b: Seq<char>)
    ensures
        encode_utf8(a + b) == encode_utf8(a) + encode_utf8(b),
    decreases a.len(),
{
    if a.len() == 0 {
        assert(a + b =~= b);
        assert(encode_utf8(a) =~= Seq::<u8>::empty());
        assert(encode_utf8(a) + encode_utf8(b) =~= encode_utf8(b));
    } else {
        lemma_encode_concat(a.drop_first(), b);
        assert((a + b).drop_first() =~= a.drop_first() + b);
        assert((a + b)[0] == a[0]);
        assert(encode_utf8(a + b) =~= encode_scalar(a[0] as u32) + encode_utf8(
            a.drop_first() + b,
        ));
        assert(encode_utf8(a + b) =~= encode_utf8(a) + encode_utf8(b));
    }
}

/// Every character takes between one and four bytes.
pub proof fn lemma_width_bounds(c: char)
    ensures
        1 <= width_of(c) <= 4,
{
}

/// The offset of the character after the `i`-th is the offset of the
/// `i`-th plus its width.
pub proof fn lemma_char_offset_step(s: Seq<char>, i: int)
    requires
        0 <= i < s.len(),
    ensures
        char_offset(s, i + 1) == char_offset(s, i) + width_of(s[i]),
{
    assert(s.take(i + 1) =~= s.take(i) + seq![s[i]]);
    lemma_encode_concat(s.take(i), seq![s[i]]);
    assert(seq![s[i]].drop_first() =~= Seq::<char>::empty());
    assert(encode_utf8(seq![s[i]]) =~= encode_scalar(s[i] as u32) + encode_utf8(
        Seq::<char>::empty(),
    ));
}

/// The offset of the first character is zero.
pub proof fn lemma_char_offset_zero(s: Seq<char>)
    ensures
        char_offset(s, 0) == 0,
{
    assert(s.take(0) =~= Seq::<char>::empty());
}

/// Character offsets grow strictly with the character index.
pub proof fn lemma_char_offset_increasing(s: Seq<char>, i: int, j: int)
    requires
        0 <= i < j <= s.len(),
    ensures
        char_offset(s, i) < char_offset(s, j),
    decreases j - i,
{
    lemma_char_offset_step(s, j - 1);
    lemma_width_bounds(s[j - 1]);
    if i < j - 1 {
        lemma_char_offset_increasing(s, i, j - 1);
    }
}

/// A character offset never exceeds the length of the whole encoding.
pub proof fn lemma_char_offset_bound(s: Seq<char>, i: int)
    requires
        0 <= i <= s.len(),
    ensures
        0 <= char_offset(s, i) <= encode_utf8(s).len(),
{
    assert(s =~= s.take(i) + s.skip(i));
    lemma_encode_concat(s.take(i), s.skip(i));
}

/// The offset of every character of a text is a character boundary of its
/// encoding.
pub proof fn lemma_char_offset_is_boundary(s: Seq<char>, k: int)
    requires
        0 <= k <= s.len(),
    ensures
        is_char_boundary(encode_utf8(s), char_offset(s, k)),
    decreases k,
{
    lemma_char_offset_zero(s);
    encode_utf8_valid_utf8(s);
    if k > 0 {
        let b = encode_utf8(s);
        let rest = s.drop_first();
        encode_utf8_first_scalar(s);
        assert(pop_first_scalar(b) =~= encode_utf8(rest));
        lemma_char_offset_is_boundary(rest, k - 1);
        assert(s.take(k) =~= seq![s[0]] + rest.take(k - 1));
        lemma_encode_concat(seq![s[0]], rest.take(k - 1));
        assert(seq![s[0]].drop_first() =~= Seq::<char>::empty());
        assert(encode_utf8(seq![s[0]]) =~= encode_scalar(s[0] as u32) + encode_utf8(
            Seq::<char>::empty(),
        ));
        let w = width_of(s[0]) as int;
        assert(char_offset(s, k) == w + char_offset(rest, k - 1));
        lemma_width_bounds(s[0]);
        lemma_char_offset_bound(s, k);
        assert(length_of_first_scalar(b) == w);
        assert(is_char_boundary(b, char_offset(s, k)) == is_char_boundary(
            pop_first_scalar(b),
            char_offset(s, k) - w,
        ));
    }
}

/// Two texts with the same encoding are the same text.
pub proof fn lemma_encoding_determines_text(t: Seq<char>, u: Seq<char>)
    requires
        encode_utf8(t) == encode_utf8(u),
    ensures
        t == u,
{
    encode_utf8_decode_utf8(t);
    encode_utf8_decode_utf8(u);
}

/// Splitting a text's encoding at the offset of its `k`-th character splits
/// the text after `k` characters.
pub proof fn lemma_split_encoding(s: Seq<char>, k: int)
    requires
        0 <= k <= s.len(),
    ensures
        encode_utf8(s).subrange(0, char_offset(s, k)) == encode_utf8(s.take(k)),
        encode_utf8(s).subrange(char_offset(s, k), encode_utf8(s).len() as int) == encode_utf8(
            s.skip(k),
        ),
{
    assert(s =~= s.take(k) + s.skip(k));
    lemma_encode_concat(s.take(k), s.skip(k));
    assert(encode_utf8(s).subrange(0, char_offset(s, k)) =~= encode_utf8(s.take(k)));
    assert(encode_utf8(s).subrange(char_offset(s, k), encode_utf8(s).len() as int)
        =~= encode_utf8(s.skip(k)));
}

} // verus!
