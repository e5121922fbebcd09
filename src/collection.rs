//! Iteration and byte-offset enumeration over byte and text buffers.
use vstd::prelude::*;
use vstd::std_specs::iter::IteratorSpec;
use crate::slice::Slice;
use crate::span::Span;
use crate::text::{
    char_offset, char_width, lemma_char_offset_bound, lemma_char_offset_increasing,
    lemma_char_offset_step, lemma_char_offset_zero,
};

verus! {

/// A read-only buffer of items (bytes or characters) that can be listed in
/// order, each item paired with the byte offset at which it starts.
pub trait Collection: Sized {
    /// The type of the items, such as `u8` or `char`.
    type Item;

    /// The items of the buffer, in order.
    spec fn items(&self) -> Seq<Self::Item>;

    /// Byte offset, within the buffer, of the first encoding unit of item `i`.
    spec fn offset_of(&self, i: int) -> int;

    /// Returns the items of the buffer, in order. Each call starts afresh at
    /// the buffer's first item.
    fn as_iter(&self) -> (r: Vec<Self::Item>)
        ensures
            r@ == self.items(),
    ;

    /// Returns each item paired with its byte offset. The offsets grow
    /// strictly from one item to the next.
    fn as_enum(&self) -> (r: Vec<(usize, Self::Item)>)
        ensures
            r@.len() == self.items().len(),
            forall|i: int|
                0 <= i < r@.len() ==> (#[trigger] r@[i]).1 == self.items()[i] && r@[i].0
                    == self.offset_of(i),
            forall|i: int, j: int| 0 <= i < j < r@.len() ==> (#[trigger] r@[i]).0 < (#[trigger] r@[j]).0,
    ;
}

/// Returns the bytes of `b` paired with their indices.
pub fn enumerate_bytes(b: &[u8]) -> (r: Vec<(usize, u8)>)
    ensures
        r@.len() == b@.len(),
        forall|i: int| 0 <= i < r@.len() ==> (#[trigger] r@[i]).0 == i && r@[i].1 == b@[i],
{
    let mut r: Vec<(usize, u8)> = Vec::new();
    let mut i: usize = 0;
    while i < b.len()
        invariant
            i <= b@.len(),
            r@.len() == i,
            forall|k: int| 0 <= k < i ==> (#[trigger] r@[k]).0 == k && r@[k].1 == b@[k],
        decreases b@.len() - i,
    {
        r.push((i, b[i]));
        i = i + 1;
    }
    r
}

impl<'a> Collection for &'a [u8] {
    type Item = u8;

    open spec fn items(&self) -> Seq<u8> {
        (*self)@
    }

    open spec fn offset_of(&self, i: int) -> int {
        i
    }

    fn as_iter(&self) -> (r: Vec<u8>) {
        vstd::slice::slice_to_vec(*self)
    }

    fn as_enum(&self) -> (r: Vec<(usize, u8)>) {
        enumerate_bytes(*self)
    }
}

impl<'a> Collection for &'a str {
    type Item = char;

    open spec fn items(&self) -> Seq<char> {
        (*self)@
    }

    open spec fn offset_of(&self, i: int) -> int {
        char_offset((*self)@, i)
    }

    fn as_iter(&self) -> (r: Vec<char>) {
        let mut r: Vec<char> = Vec::new();
        let mut chars = self.chars();
        let ghost s = (*self)@;
        loop
            invariant
                r@.len() <= s.len(),
                s == r@ + chars.remaining(),
                chars.decrease() is Some,
            ensures
                s == r@,
            decreases chars.decrease()->0,
        {
            match chars.next() {
                Some(c) => {
                    r.push(c);
                },
                None => {
                    assert(s =~= r@);
                    break;
                },
            }
        }
        r
    }

    fn as_enum(&self) -> (r: Vec<(usize, char)>) {
        let mut r: Vec<(usize, char)> = Vec::new();
        let mut chars = self.chars();
        let ghost s = (*self)@;
        let mut offset: usize = 0;
        let total = self.as_bytes().len();
        proof {
            lemma_char_offset_zero(s);
        }
        loop
            invariant
                r@.len() <= s.len(),
                s == s.take(r@.len() as int) + chars.remaining(),
                offset == char_offset(s, r@.len() as int),
                total == vstd::utf8::encode_utf8(s).len(),
                forall|k: int|
                    0 <= k < r@.len() ==> (#[trigger] r@[k]).0 == char_offset(s, k) && r@[k].1
                        == s[k],
                chars.decrease() is Some,
            ensures
                r@.len() == s.len(),
                forall|k: int|
                    0 <= k < r@.len() ==> (#[trigger] r@[k]).0 == char_offset(s, k) && r@[k].1
                        == s[k],
            decreases chars.decrease()->0,
        {
            match chars.next() {
                Some(c) => {
                    let ghost n = r@.len() as int;
                    proof {
                        lemma_char_offset_step(s, n);
                        lemma_char_offset_bound(s, n + 1);
                    }
                    r.push((offset, c));
                    offset = offset + char_width(c);
                },
                None => {
                    assert(s =~= s.take(r@.len() as int));
                    assert(r@.len() == s.len());
                    break;
                },
            }
        }
        proof {
            assert forall|i: int, j: int| 0 <= i < j < r@.len() implies (#[trigger] r@[i]).0 < (
            #[trigger] r@[j]).0 by {
                lemma_char_offset_increasing(s, i, j);
                lemma_char_offset_bound(s, j);
            }
        }
        r
    }
}

/// Buffer handles that parsers take as input, with tokens of type `T`:
/// byte slices, whose tokens are bytes, and text slices, whose tokens are
/// characters.
pub trait Input<T>: Span + Collection<Item = T> + Copy {
    /// Returns a handle on the whole input.
    fn as_slice(&self) -> (r: Self)
        ensures
            r.byte_seq() == self.byte_seq(),
            r.items() == self.items(),
    ;
}

impl<'a> Input<u8> for &'a [u8] {
    fn as_slice(&self) -> (r: Self) {
        *self
    }
}

impl<'a> Input<char> for &'a str {
    fn as_slice(&self) -> (r: Self) {
        *self
    }
}

/// Whether `b` is ASCII whitespace: space, tab, line feed, form feed or
/// carriage return.
pub open spec fn is_space(b: u8) -> bool {
    b == 0x20 || b == 0x09 || b == 0x0A || b == 0x0C || b == 0x0D
}

/// Returns whether `b` is ASCII whitespace.
pub fn is_ascii_space(b: u8) -> (r: bool)
    ensures
        r == is_space(b),
{
    b == 0x20 || b == 0x09 || b == 0x0A || b == 0x0C || b == 0x0D
}

/// Whether `s[a..b]` is the first token of `s`: a non-empty run of
/// non-whitespace bytes preceded only by whitespace and followed by
/// whitespace or the end.
pub open spec fn is_first_token(s: Seq<u8>, a: int, b: int) -> bool {
    &&& 0 <= a < b <= s.len()
    &&& forall|i: int| 0 <= i < a ==> is_space(#[trigger] s[i])
    &&& forall|i: int| a <= i < b ==> !is_space(#[trigger] s[i])
    &&& b == s.len() || is_space(s[b])
}

/// A byte buffer read from the front, item by item or token by token.
#[derive(Clone, Copy, Debug)]
pub struct Bytes<'a> {
    inner: &'a [u8],
}

impl<'a> Bytes<'a> {
    /// The bytes not yet read.
    pub closed spec fn spec_inner(self) -> Seq<u8> {
        self.inner@
    }

    /// Creates a reader over `inner`.
    pub fn new(inner: &'a [u8]) -> (r: Self)
        ensures
            r.spec_inner() == inner@,
    {
        Bytes { inner }
    }

    /// Returns the bytes not yet read.
    pub fn inner(&self) -> (r: &'a [u8])
        ensures
            r@ == self.spec_inner(),
    {
        self.inner
    }

    /// Returns the number of bytes not yet read.
    pub fn len(&self) -> (r: usize)
        ensures
            r == self.spec_inner().len(),
    {
        self.inner.len()
    }

    /// Returns true if every byte has been read.
    pub fn is_empty(&self) -> (r: bool)
        ensures
            r == (self.spec_inner().len() == 0),
    {
        self.inner.len() == 0
    }

    /// Drops every byte not yet read.
    pub fn clear(&mut self)
        ensures
            final(self).spec_inner().len() == 0,
    {
        self.inner = vstd::slice::slice_subrange(self.inner, 0, 0);
    }

    /// Reads the next token: skips leading ASCII whitespace and returns the
    /// run of non-whitespace bytes that follows, leaving the reader just
    /// after it. Returns `None`, leaving the reader as it is, when only
    /// whitespace is left.
    pub fn next_token(&mut self) -> (r: Option<&'a [u8]>)
        ensures
            r is None <==> forall|i: int|
                0 <= i < old(self).spec_inner().len() ==> is_space(
                    #[trigger] old(self).spec_inner()[i],
                ),
            r is None ==> *final(self) == *old(self),
            r matches Some(t) ==> exists|a: int, b: int|
                is_first_token(old(self).spec_inner(), a, b) && t@ == old(self).spec_inner().subrange(
                    a,
                    b,
                ) && final(self).spec_inner() == old(self).spec_inner().subrange(
                    b,
                    old(self).spec_inner().len() as int,
                ),
    {
        let s = self.inner;
        let ghost s0 = self.spec_inner();
        let n = s.len();
        let mut a: usize = 0;
        while a < n && is_ascii_space(s[a])
            invariant
                a <= n == s@.len(),
                forall|i: int| 0 <= i < a ==> is_space(#[trigger] s@[i]),
            decreases n - a,
        {
            a = a + 1;
        }
        if a == n {
            return None;
        }
        assert(!is_space(s@[a as int]));
        assert(s0 == s@);
        assert(!is_space(s0[a as int]));
        let mut b: usize = a + 1;
        while b < n && !is_ascii_space(s[b])
            invariant
                a < b <= n == s@.len(),
                forall|i: int| a <= i < b ==> !is_space(#[trigger] s@[i]),
            decreases n - b,
        {
            b = b + 1;
        }
        let token = vstd::slice::slice_subrange(s, a, b);
        self.inner = vstd::slice::slice_subrange(s, b, n);
        assert(is_first_token(s@, a as int, b as int));
        assert(token@ == s@.subrange(a as int, b as int));
        assert(self.inner@ == s@.subrange(b as int, n as int));
        Some(token)
    }

    /// Reads the next byte, or returns `None` when every byte has been read.
    pub fn next(&mut self) -> (r: Option<&'a u8>)
        ensures
            old(self).spec_inner().len() == 0 ==> r is None && *final(self) == *old(self),
            old(self).spec_inner().len() > 0 ==> {
                &&& r matches Some(b) && *b == old(self).spec_inner()[0]
                &&& final(self).spec_inner() == old(self).spec_inner().drop_first()
            },
    {
        let s = self.inner;
        if s.len() == 0 {
            return None;
        }
        let first: &'a u8 = &s[0];
        let rest = vstd::slice::slice_subrange(s, 1, s.len());
        assert(rest@ =~= s@.drop_first());
        self.inner = rest;
        Some(first)
    }
}

impl<'a> core::ops::Deref for Bytes<'a> {
    type Target = &'a [u8];

    fn deref(&self) -> &&'a [u8] {
        &self.inner
    }
}

impl<'a> Collection for Bytes<'a> {
    type Item = u8;

    open spec fn items(&self) -> Seq<u8> {
        self.spec_inner()
    }

    open spec fn offset_of(&self, i: int) -> int {
        i
    }

    fn as_iter(&self) -> (r: Vec<u8>) {
        vstd::slice::slice_to_vec(self.inner)
    }

    fn as_enum(&self) -> (r: Vec<(usize, u8)>) {
        enumerate_bytes(self.inner)
    }
}

} // verus!
