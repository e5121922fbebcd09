//! Scanning spans: splitting a buffer at the first item that satisfies a
//! predicate, and span types that remember their offsets.
use vstd::prelude::*;
use vstd::string::StringSliceAdditionalSpecFns;
use vstd::utf8::{valid_utf8, encode_utf8};
use vstd::std_specs::iter::IteratorSpec;
use crate::collection::Collection;
use crate::slice::Slice;
use crate::text::{
    char_offset, char_width, width_of, lemma_char_offset_bound, lemma_char_offset_is_boundary,
    lemma_char_offset_step, lemma_char_offset_zero, lemma_encoding_determines_text,
    lemma_split_encoding,
};

verus! {

/// Whether `r` is a correct outcome of scanning `items` with `when`: `None`
/// when every item was rejected, otherwise the split before the first item
/// that was accepted, every earlier item having been rejected.
pub open spec fn is_split_outcome<T, W: Fn(T) -> bool>(
    items: Seq<T>,
    when: W,
    r: Option<(Seq<T>, Seq<T>)>,
) -> bool {
    match r {
        None => forall|i: int| 0 <= i < items.len() ==> when.ensures((items[i],), false),
        Some((head, tail)) => {
            let k = head.len() as int;
            &&& k < items.len()
            &&& head == items.take(k)
            &&& tail == items.skip(k)
            &&& when.ensures((items[k],), true)
            &&& forall|i: int| 0 <= i < k ==> when.ensures((items[i],), false)
        },
    }
}

/// The item sequences of an optional split.
pub open spec fn split_items<S: Collection>(r: Option<(S, S)>) -> Option<(Seq<S::Item>, Seq<S::Item>)> {
    match r {
        None => None,
        Some((head, tail)) => Some((head.items(), tail.items())),
    }
}

/// A buffer handle that can be split at the first item satisfying a
/// predicate.
pub trait Span: Collection + Slice {
    /// Scans forward, applying `when` to successive items. On the first
    /// item for which it holds, returns the part before that item and the
    /// part from that item on; returns `None` if it holds for no item.
    fn split_when<W: Fn(Self::Item) -> bool>(&self, when: W) -> (r: Option<(Self, Self)>)
        requires
            forall|i: int| 0 <= i < self.items().len() ==> when.requires((self.items()[i],)),
        ensures
            is_split_outcome(self.items(), when, split_items(r)),
            r matches Some((head, tail)) ==> head.byte_seq() + tail.byte_seq() == self.byte_seq(),
            (forall|i: int, b: bool|
                0 <= i < self.items().len() && #[trigger] when.ensures((self.items()[i],), b)
                    ==> !b) ==> r is None,
            self.items().len() > 0 && (forall|b: bool| #[trigger] when.ensures((self.items()[0],), b) ==> b)
                ==> (r matches Some((head, _)) && head.items().len() == 0),
    ;
}

impl<'a> Span for &'a [u8] {
    fn split_when<W: Fn(u8) -> bool>(&self, when: W) -> (r: Option<(Self, Self)>) {
        let ghost items = self.items();
        let mut i: usize = 0;
        while i < self.len()
            invariant
                i <= items.len(),
                items == self.items(),
                items == (*self)@,
                forall|k: int| 0 <= k < self.items().len() ==> when.requires((self.items()[k],)),
                forall|k: int| 0 <= k < i ==> when.ensures((self.items()[k],), false),
            decreases items.len() - i,
        {
            if when(self[i]) {
                let (head, tail) = self.split_at(i);
                assert(head@ + tail@ =~= items);
                assert(when.ensures((self.items()[i as int],), true));
                if i > 0 {
                    assert(when.ensures((self.items()[0],), false));
                }
                return Some((head, tail));
            }
            i = i + 1;
        }
        if i > 0 {
            assert(when.ensures((self.items()[0],), false));
        }
        None
    }
}

impl<'a> Span for &'a str {
    fn split_when<W: Fn(char) -> bool>(&self, when: W) -> (r: Option<(Self, Self)>) {
        let ghost s = self.items();
        let mut chars = self.chars();
        let mut k: usize = 0;
        let mut offset: usize = 0;
        let total = self.as_bytes().len();
        proof {
            lemma_char_offset_zero(s);
        }
        loop
            invariant
                k <= s.len(),
                s == self.items(),
                s == (*self)@,
                s == s.take(k as int) + chars.remaining(),
                offset == char_offset(s, k as int),
                k <= offset,
                total == encode_utf8(s).len(),
                forall|j: int| 0 <= j < s.len() ==> when.requires((self.items()[j],)),
                forall|j: int| 0 <= j < k ==> when.ensures((self.items()[j],), false),
                chars.decrease() is Some,
            ensures
                forall|j: int| 0 <= j < s.len() ==> when.ensures((self.items()[j],), false),
            decreases chars.decrease()->0,
        {
            match chars.next() {
                Some(c) => {
                    assert(c == s[k as int]);
                    if when(c) {
                        proof {
                            lemma_char_offset_is_boundary(s, k as int);
                            lemma_char_offset_bound(s, k as int);
                            lemma_split_encoding(s, k as int);
                        }
                        let (head, tail) = (*self).split_at(offset);
                        proof {
                            lemma_encoding_determines_text(head@, s.take(k as int));
                            lemma_encoding_determines_text(tail@, s.skip(k as int));
                            assert(head.spec_bytes() == encode_utf8(s).subrange(0, offset as int));
                            assert(head.spec_bytes() + tail.spec_bytes() =~= encode_utf8(s));
                            assert(when.ensures((self.items()[k as int],), true));
                            if k > 0 {
                                assert(when.ensures((self.items()[0],), false));
                            }
                        }
                        return Some((head, tail));
                    }
                    proof {
                        lemma_char_offset_step(s, k as int);
                        lemma_char_offset_bound(s, k + 1);
                    }
                    offset = offset + char_width(c);
                    k = k + 1;
                },
                None => {
                    assert(s =~= s.take(k as int));
                    break;
                },
            }
        }
        proof {
            if s.len() > 0 {
                assert(when.ensures((self.items()[0],), false));
            }
        }
        None
    }
}

/// Relies on `core::str::from_utf8`: it accepts exactly the byte sequences
/// that are valid UTF-8, and then returns a text with the same bytes.
#[verifier::external_body]
fn text_from_utf8<'b>(bytes: &'b [u8]) -> (r: Option<&'b str>)
    ensures
        r is Some <==> valid_utf8(bytes@),
        r matches Some(t) ==> t.spec_bytes() == bytes@,
{
    core::str::from_utf8(bytes).ok()
}

/// A byte slice together with the offsets `start..end` it covers in the
/// buffer it was taken from.
#[derive(Clone, Copy, Debug)]
pub struct ByteSpan<'a> {
    slice: &'a [u8],
    start: usize,
    end: usize,
}

impl<'a> ByteSpan<'a> {
    #[verifier::type_invariant]
    spec fn well_formed(self) -> bool {
        &&& self.start <= self.end
        &&& self.slice@.len() == self.end - self.start
    }

    /// The bytes of the span.
    pub closed spec fn spec_bytes(self) -> Seq<u8> {
        self.slice@
    }

    /// The offset of the span's first byte.
    pub closed spec fn spec_start(self) -> usize {
        self.start
    }

    /// The offset one past the span's last byte.
    pub closed spec fn spec_end(self) -> usize {
        self.end
    }

    /// Creates a span over the whole of `slice`, at offsets `0..slice.len()`.
    pub fn new(slice: &'a [u8]) -> (r: Self)
        ensures
            r.spec_bytes() == slice@,
            r.spec_start() == 0,
            r.spec_end() == slice@.len(),
    {
        ByteSpan { start: 0, end: slice.len(), slice }
    }

    /// Returns the bytes of the span.
    pub fn as_bytes(&self) -> (r: &'a [u8])
        ensures
            r@ == self.spec_bytes(),
    {
        self.slice
    }

    /// Returns the bytes of the span read as text. The bytes must be valid
    /// UTF-8; they are not decoded anew, only checked.
    pub fn as_str(&self) -> (r: &'a str)
        requires
            valid_utf8(self.spec_bytes()),
        ensures
            r.spec_bytes() == self.spec_bytes(),
    {
        match text_from_utf8(self.slice) {
            Some(text) => text,
            None => {
                assert(false);
                ""
            },
        }
    }

    /// Returns the offset of the span's first byte.
    pub fn start(&self) -> (r: usize)
        ensures
            r == self.spec_start(),
            r + self.spec_bytes().len() == self.spec_end(),
    {
        proof {
            use_type_invariant(self);
        }
        self.start
    }

    /// Returns the offset one past the span's last byte.
    pub fn end(&self) -> (r: usize)
        ensures
            r == self.spec_end(),
            self.spec_start() + self.spec_bytes().len() == r,
    {
        proof {
            use_type_invariant(self);
        }
        self.end
    }

    /// Takes the first byte off the span, moving its start one byte on;
    /// returns `None`, leaving the span as it is, when it is empty.
    pub fn next(&mut self) -> (r: Option<&'a u8>)
        ensures
            old(self).spec_bytes().len() == 0 ==> r is None && *final(self) == *old(self),
            old(self).spec_bytes().len() > 0 ==> {
                &&& r matches Some(b) && *b == old(self).spec_bytes()[0]
                &&& final(self).spec_bytes() == old(self).spec_bytes().drop_first()
                &&& final(self).spec_start() == old(self).spec_start() + 1
                &&& final(self).spec_end() == old(self).spec_end()
            },
    {
        proof {
            use_type_invariant(&*self);
        }
        let s = self.slice;
        if s.len() == 0 {
            return None;
        }
        let first: &'a u8 = &s[0];
        let rest = vstd::slice::slice_subrange(s, 1, s.len());
        assert(rest@ =~= s@.drop_first());
        *self = ByteSpan { slice: rest, start: self.start + 1, end: self.end };
        Some(first)
    }
}

impl<'a> core::ops::Deref for ByteSpan<'a> {
    type Target = [u8];

    fn deref(&self) -> &[u8] {
        self.slice
    }
}

impl<'a> From<&'a [u8]> for ByteSpan<'a> {
    fn from(slice: &'a [u8]) -> (r: ByteSpan<'a>) {
        ByteSpan { start: 0, end: slice.len(), slice }
    }
}

impl<'a> vstd::std_specs::convert::FromSpecImpl<&'a [u8]> for ByteSpan<'a> {
    open spec fn obeys_from_spec() -> bool {
        true
    }

    closed spec fn from_spec(slice: &'a [u8]) -> ByteSpan<'a> {
        ByteSpan { slice, start: 0, end: slice@.len() as usize }
    }
}

/// A text slice together with the byte offsets `start..end` it covers in
/// the buffer it was taken from.
#[derive(Clone, Copy, Debug)]
pub struct StrSpan<'a> {
    slice: &'a str,
    start: usize,
    end: usize,
}

impl<'a> StrSpan<'a> {
    #[verifier::type_invariant]
    spec fn well_formed(self) -> bool {
        &&& self.start <= self.end
        &&& self.slice.spec_bytes().len() == self.end - self.start
    }

    /// The characters of the span.
    pub closed spec fn spec_text(self) -> Seq<char> {
        self.slice@
    }

    /// The byte offset of the span's first character.
    pub closed spec fn spec_start(self) -> usize {
        self.start
    }

    /// The byte offset one past the span's last character.
    pub closed spec fn spec_end(self) -> usize {
        self.end
    }

    /// Creates a span over the whole of `slice`, at byte offsets
    /// `0..slice.len()`.
    pub fn new(slice: &'a str) -> (r: Self)
        ensures
            r.spec_text() == slice@,
            r.spec_start() == 0,
            r.spec_end() == encode_utf8(slice@).len(),
    {
        StrSpan { start: 0, end: slice.as_bytes().len(), slice }
    }

    /// Returns the UTF-8 bytes of the span.
    pub fn as_bytes(&self) -> (r: &'a [u8])
        ensures
            r@ == encode_utf8(self.spec_text()),
    {
        self.slice.as_bytes()
    }

    /// Returns the text of the span.
    pub fn as_str(&self) -> (r: &'a str)
        ensures
            r@ == self.spec_text(),
    {
        self.slice
    }

    /// Returns the byte offset of the span's first character.
    pub fn start(&self) -> (r: usize)
        ensures
            r == self.spec_start(),
            r + encode_utf8(self.spec_text()).len() == self.spec_end(),
    {
        proof {
            use_type_invariant(self);
        }
        self.start
    }

    /// Returns the byte offset one past the span's last character.
    pub fn end(&self) -> (r: usize)
        ensures
            r == self.spec_end(),
            self.spec_start() + encode_utf8(self.spec_text()).len() == r,
    {
        proof {
            use_type_invariant(self);
        }
        self.end
    }

    /// Takes the first character off the span, moving its start on by the
    /// character's width in bytes; returns `None`, leaving the span as it
    /// is, when it is empty.
    pub fn next(&mut self) -> (r: Option<char>)
        ensures
            old(self).spec_text().len() == 0 ==> r is None && *final(self) == *old(self),
            old(self).spec_text().len() > 0 ==> {
                &&& r == Some(old(self).spec_text()[0])
                &&& final(self).spec_text() == old(self).spec_text().drop_first()
                &&& final(self).spec_start() == old(self).spec_start() + width_of(
                    old(self).spec_text()[0],
                )
                &&& final(self).spec_end() == old(self).spec_end()
            },
    {
        proof {
            use_type_invariant(&*self);
        }
        let text = self.slice;
        let ghost s = text@;
        let mut chars = text.chars();
        match chars.next() {
            None => None,
            Some(c) => {
                let w = char_width(c);
                proof {
                    lemma_char_offset_zero(s);
                    lemma_char_offset_step(s, 0);
                    lemma_char_offset_is_boundary(s, 1);
                    lemma_char_offset_bound(s, 1);
                    lemma_split_encoding(s, 1);
                }
                let (_, rest) = text.split_at(w);
                proof {
                    lemma_encoding_determines_text(rest@, s.skip(1));
                    assert(s.skip(1) =~= s.drop_first());
                }
                *self = StrSpan { slice: rest, start: self.start + w, end: self.end };
                Some(c)
            },
        }
    }
}

impl<'a> core::ops::Deref for StrSpan<'a> {
    type Target = str;

    fn deref(&self) -> &str {
        self.slice
    }
}

impl<'a> From<&'a str> for StrSpan<'a> {
    fn from(slice: &'a str) -> (r: StrSpan<'a>) {
        StrSpan { start: 0, end: slice.as_bytes().len(), slice }
    }
}

impl<'a> vstd::std_specs::convert::FromSpecImpl<&'a str> for StrSpan<'a> {
    open spec fn obeys_from_spec() -> bool {
        true
    }

    closed spec fn from_spec(slice: &'a str) -> StrSpan<'a> {
        StrSpan { slice, start: 0, end: encode_utf8(slice@).len() as usize }
    }
}

} // verus!
