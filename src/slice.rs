//! Bounds-checked views into byte and text buffers.
use core::ops::Range;
use vstd::prelude::*;
use vstd::string::StringSliceAdditionalSpecFns;
use vstd::utf8::{
    encode_utf8_valid_utf8, is_char_boundary, is_char_boundary_iff_not_is_continuation_byte,
    is_char_boundary_start_end_of_seq, valid_utf8, valid_utf8_split,
};

verus! {

/// A handle on a contiguous region of a buffer from which narrower handles
/// on the same memory can be taken. Offsets are byte offsets, and every
/// view lies within the handle it was taken from: a bound that is not a
/// valid position of the handle is refused before the call.
pub trait Slice: Sized {
    /// The bytes the handle covers.
    spec fn byte_seq(&self) -> Seq<u8>;

    /// Whether byte offset `i` may bound a view: it lies within the handle
    /// and, for text, falls on a character boundary.
    spec fn is_bound(&self, i: int) -> bool;

    /// Every valid bound lies within the handle.
    proof fn lemma_bound_within(&self, i: int)
        requires
            self.is_bound(i),
        ensures
            0 <= i <= self.byte_seq().len(),
    ;

    /// Returns a view of the bytes in `range.start..range.end`.
    fn view(&self, range: Range<usize>) -> (r: Self)
        requires
            range.start <= range.end,
            self.is_bound(range.start as int),
            self.is_bound(range.end as int),
        ensures
            r.byte_seq() == self.byte_seq().subrange(range.start as int, range.end as int),
    ;

    /// Returns a view of the bytes from `from` to the end.
    fn view_from(&self, from: usize) -> (r: Self)
        requires
            self.is_bound(from as int),
        ensures
            r.byte_seq() == self.byte_seq().subrange(from as int, self.byte_seq().len() as int),
    ;

    /// Returns a view of the bytes before `to`.
    fn view_to(&self, to: usize) -> (r: Self)
        requires
            self.is_bound(to as int),
        ensures
            r.byte_seq() == self.byte_seq().subrange(0, to as int),
    ;
}

impl<'a> Slice for &'a [u8] {
    open spec fn byte_seq(&self) -> Seq<u8> {
        (*self)@
    }

    open spec fn is_bound(&self, i: int) -> bool {
        0 <= i <= (*self)@.len()
    }

    proof fn lemma_bound_within(&self, i: int) {
    }

    fn view(&self, range: Range<usize>) -> (r: Self) {
        vstd::slice::slice_subrange(*self, range.start, range.end)
    }

    fn view_from(&self, from: usize) -> (r: Self) {
        vstd::slice::slice_subrange(*self, from, self.len())
    }

    fn view_to(&self, to: usize) -> (r: Self) {
        vstd::slice::slice_subrange(*self, 0, to)
    }
}

/// A character boundary of a text stays one in the part of the text that
/// starts at an earlier boundary.
pub proof fn lemma_boundary_in_suffix(b: Seq<u8>, s: int, e: int)
    requires
        valid_utf8(b),
        s <= e,
        is_char_boundary(b, s),
        is_char_boundary(b, e),
    ensures
        valid_utf8(b.subrange(s, b.len() as int)),
        is_char_boundary(b.subrange(s, b.len() as int), e - s),
{
    lemma_boundary_range(b, s);
    lemma_boundary_range(b, e);
    valid_utf8_split(b, s);
    let t = b.subrange(s, b.len() as int);
    is_char_boundary_start_end_of_seq(t);
    if e < b.len() {
        is_char_boundary_iff_not_is_continuation_byte(b, e);
        assert(t[e - s] == b[e]);
        is_char_boundary_iff_not_is_continuation_byte(t, e - s);
    }
}

/// A character boundary lies within the text.
pub proof fn lemma_boundary_range(b: Seq<u8>, i: int)
    requires
        valid_utf8(b),
        is_char_boundary(b, i),
    ensures
        0 <= i <= b.len(),
{
}

impl<'a> Slice for &'a str {
    open spec fn byte_seq(&self) -> Seq<u8> {
        (*self).spec_bytes()
    }

    open spec fn is_bound(&self, i: int) -> bool {
        is_char_boundary((*self).spec_bytes(), i)
    }

    proof fn lemma_bound_within(&self, i: int) {
        encode_utf8_valid_utf8((*self)@);
        lemma_boundary_range((*self).spec_bytes(), i);
    }

    fn view(&self, range: Range<usize>) -> (r: Self) {
        let ghost b = (*self).spec_bytes();
        proof {
            encode_utf8_valid_utf8((*self)@);
            lemma_boundary_in_suffix(b, range.start as int, range.end as int);
        }
        let (_, tail) = (*self).split_at(range.start);
        let (mid, _) = tail.split_at(range.end - range.start);
        assert(mid.spec_bytes() =~= b.subrange(range.start as int, range.end as int));
        mid
    }

    fn view_from(&self, from: usize) -> (r: Self) {
        proof {
            encode_utf8_valid_utf8((*self)@);
        }
        let (_, tail) = (*self).split_at(from);
        tail
    }

    fn view_to(&self, to: usize) -> (r: Self) {
        proof {
            encode_utf8_valid_utf8((*self)@);
        }
        let (head, _) = (*self).split_at(to);
        head
    }
}

/// A view followed by a prefix view of its whole length gives back the
/// bytes of the first view, and those are the bytes between the two bounds
/// of the buffer.
pub proof fn lemma_view_then_view_to(b: Seq<u8>, i: int, j: int)
    requires
        0 <= i <= j <= b.len(),
    ensures
        b.subrange(i, j).subrange(0, j - i) == b.subrange(i, j),
        b.subrange(i, j).len() == j - i,
        forall|k: int| 0 <= k < j - i ==> b.subrange(i, j)[k] == b[i + k],
{
    assert(b.subrange(i, j).subrange(0, j - i) =~= b.subrange(i, j));
}

/// A byte range `start..end` with `start <= end`.
#[derive(Clone, Copy, Debug)]
pub struct BytesView {
    start: usize,
    end: usize,
}

impl BytesView {
    #[verifier::type_invariant]
    spec fn well_formed(self) -> bool {
        self.start <= self.end
    }

    /// The first offset of the range.
    pub closed spec fn spec_start(self) -> usize {
        self.start
    }

    /// The offset one past the range.
    pub closed spec fn spec_end(self) -> usize {
        self.end
    }

    /// Creates the range `start..end`.
    pub fn new(start: usize, end: usize) -> (r: Self)
        requires
            start <= end,
        ensures
            r.spec_start() == start,
            r.spec_end() == end,
    {
        BytesView { start, end }
    }

    /// Returns the first offset of the range.
    pub fn start(&self) -> (r: usize)
        ensures
            r == self.spec_start(),
            r <= self.spec_end(),
    {
        proof {
            use_type_invariant(self);
        }
        self.start
    }

    /// Returns the offset one past the range.
    pub fn end(&self) -> (r: usize)
        ensures
            r == self.spec_end(),
            self.spec_start() <= r,
    {
        proof {
            use_type_invariant(self);
        }
        self.end
    }
}

} // verus!
