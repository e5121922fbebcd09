//! A position-tracking cursor over a byte buffer.
use core::ops::Range;
use vstd::prelude::*;
use crate::collection::{Collection, enumerate_bytes};

verus! {

/// A cursor over a byte buffer: the buffer and the position of the next
/// unconsumed byte, which never passes the buffer's end.
#[derive(Copy, Clone, Debug)]
pub struct Cursor<'inner> {
    inner: &'inner [u8],
    position: usize,
}

impl<'inner> Cursor<'inner> {
    #[verifier::type_invariant]
    spec fn well_formed(self) -> bool {
        self.position <= self.inner@.len() <= usize::MAX
    }

    /// The buffer the cursor ranges over.
    pub closed spec fn spec_buffer(self) -> Seq<u8> {
        self.inner@
    }

    /// The offset of the next unconsumed byte within the buffer.
    pub closed spec fn spec_position(self) -> nat {
        self.position as nat
    }

    /// The number of unconsumed bytes.
    pub open spec fn spec_remaining(self) -> int {
        self.spec_buffer().len() - self.spec_position()
    }

    /// The unconsumed bytes.
    pub open spec fn spec_rest(self) -> Seq<u8> {
        self.spec_buffer().subrange(self.spec_position() as int, self.spec_buffer().len() as int)
    }

    /// Creates a cursor at the start of `inner`.
    pub fn new(inner: &'inner [u8]) -> (r: Self)
        ensures
            r.spec_buffer() == inner@,
            r.spec_position() == 0,
    {
        assert(inner@.len() == inner.len());
        Cursor { inner, position: 0 }
    }

    /// Returns the buffer the cursor ranges over.
    pub fn get_ref(&self) -> (r: &'inner [u8])
        ensures
            r@ == self.spec_buffer(),
    {
        self.inner
    }

    /// Returns the offset of the next unconsumed byte.
    pub fn position(&self) -> (r: usize)
        ensures
            r == self.spec_position(),
    {
        self.position
    }

    /// Consumes the cursor, returning each byte of its buffer paired with
    /// its offset.
    pub fn into_vec(self) -> (r: Vec<(usize, u8)>)
        ensures
            r@.len() == self.spec_buffer().len(),
            forall|i: int|
                0 <= i < r@.len() ==> (#[trigger] r@[i]).0 == i && r@[i].1 == self.spec_buffer()[i],
    {
        enumerate_bytes(self.inner)
    }

    /// Returns the number of bytes in the buffer.
    fn len(&self) -> (r: usize)
        ensures
            r == self.spec_buffer().len(),
    {
        self.inner.len()
    }

    /// Returns the number of unconsumed bytes.
    pub fn remaining(&self) -> (r: usize)
        ensures
            r == self.spec_remaining(),
    {
        proof {
            use_type_invariant(self);
        }
        self.len() - self.position
    }

    /// Returns true if and only if at least one byte is unconsumed.
    pub fn has_remaining(&self) -> (r: bool)
        ensures
            r == (self.spec_remaining() > 0),
    {
        self.remaining() > 0
    }

    /// Returns the number of unconsumed bytes as both bounds of a size hint.
    pub fn size_hint(&self) -> (r: (usize, Option<usize>))
        ensures
            r.0 == self.spec_remaining(),
            r.1 == Some(r.0),
    {
        let remaining = self.remaining();
        (remaining, Some(remaining))
    }

    /// Skips `count` unconsumed bytes: the cursor then ranges over the bytes
    /// after them, from its start. When fewer than `count` bytes remain the
    /// cursor is left as it is.
    pub fn advance(&mut self, count: usize)
        ensures
            count <= old(self).spec_remaining() ==> {
                &&& final(self).spec_buffer() == old(self).spec_rest().skip(count as int)
                &&& final(self).spec_position() == 0
                &&& final(self).spec_remaining() == old(self).spec_remaining() - count
            },
            count > old(self).spec_remaining() ==> *final(self) == *old(self),
    {
        proof {
            use_type_invariant(&*self);
        }
        if self.remaining() >= count {
            let from = self.position + count;
            let rest = vstd::slice::slice_subrange(self.inner, from, self.inner.len());
            assert(rest@ =~= self.inner@.subrange(self.position as int, self.inner@.len() as int).skip(
                count as int,
            ));
            *self = Cursor { inner: rest, position: 0 };
        }
    }

    /// Returns the next `count` unconsumed bytes without consuming them, or
    /// `None` when fewer than `count` remain.
    pub fn peek_to(&mut self, count: usize) -> (r: Option<&'inner [u8]>)
        ensures
            *final(self) == *old(self),
            count <= old(self).spec_remaining() <==> r is Some,
            r matches Some(v) ==> v@ == old(self).spec_rest().take(count as int),
    {
        proof {
            use_type_invariant(&*self);
        }
        if self.remaining() >= count {
            let v = vstd::slice::slice_subrange(self.inner, self.position, self.position + count);
            assert(v@ =~= self.spec_rest().take(count as int));
            Some(v)
        } else {
            None
        }
    }

    /// Consumes the next `mid` bytes and returns them together with the
    /// bytes after them. When fewer than `mid` bytes remain, nothing is
    /// consumed and the result is an empty head with all unconsumed bytes.
    pub fn split_at(&mut self, mid: usize) -> (r: (&'inner [u8], &'inner [u8]))
        ensures
            mid <= old(self).spec_remaining() ==> {
                &&& r.0@ == old(self).spec_rest().take(mid as int)
                &&& r.1@ == old(self).spec_rest().skip(mid as int)
                &&& final(self).spec_buffer() == old(self).spec_buffer()
                &&& final(self).spec_position() == old(self).spec_position() + mid
            },
            mid > old(self).spec_remaining() ==> {
                &&& r.0@.len() == 0
                &&& r.1@ == old(self).spec_rest()
                &&& *final(self) == *old(self)
            },
    {
        proof {
            use_type_invariant(&*self);
        }
        let rest = vstd::slice::slice_subrange(self.inner, self.position, self.inner.len());
        if self.remaining() >= mid {
            let (before, after) = rest.split_at(mid);
            self.position = self.position + mid;
            (before, after)
        } else {
            (vstd::slice::slice_subrange(rest, 0, 0), rest)
        }
    }

    /// Consumes the next byte, returning the new position and the byte, or
    /// `None` when no byte remains.
    pub fn next(&mut self) -> (r: Option<(usize, &'inner u8)>)
        ensures
            final(self).spec_buffer() == old(self).spec_buffer(),
            old(self).spec_remaining() == 0 ==> r is None && *final(self) == *old(self),
            old(self).spec_remaining() > 0 ==> {
                &&& r matches Some((p, b)) && p == old(self).spec_position() + 1 && *b
                    == old(self).spec_buffer()[old(self).spec_position() as int]
                &&& final(self).spec_position() == old(self).spec_position() + 1
            },
    {
        proof {
            use_type_invariant(&*self);
        }
        if self.has_remaining() {
            let buffer = self.inner;
            let item: &'inner u8 = &buffer[self.position];
            self.position = self.position + 1;
            Some((self.position, item))
        } else {
            None
        }
    }

    /// Consumes the next byte, returning the new position and the byte, or
    /// `None` when no byte remains.
    pub fn next_item(&mut self) -> (r: Option<(usize, &'inner u8)>)
        ensures
            final(self).spec_buffer() == old(self).spec_buffer(),
            old(self).spec_remaining() == 0 ==> r is None && *final(self) == *old(self),
            old(self).spec_remaining() > 0 ==> {
                &&& r matches Some((p, b)) && p == old(self).spec_position() + 1 && *b
                    == old(self).spec_buffer()[old(self).spec_position() as int]
                &&& final(self).spec_position() == old(self).spec_position() + 1
            },
    {
        self.next()
    }

    /// Skips `offset` bytes as [`Cursor::advance`] does, then consumes the
    /// byte after them. Returns `None`, leaving the cursor as it is, when
    /// fewer than `offset` bytes remain.
    pub fn offset(&mut self, offset: usize) -> (r: Option<(usize, &'inner u8)>)
        ensures
            offset > old(self).spec_remaining() ==> r is None && *final(self) == *old(self),
            offset == old(self).spec_remaining() ==> r is None && final(self).spec_remaining() == 0,
            offset < old(self).spec_remaining() ==> {
                &&& r matches Some((p, b)) && p == 1 && *b == old(self).spec_rest()[offset as int]
                &&& final(self).spec_buffer() == old(self).spec_rest().skip(offset as int)
                &&& final(self).spec_position() == 1
            },
    {
        if self.remaining() >= offset {
            self.advance(offset);
            self.next_item()
        } else {
            None
        }
    }

    /// Moves the position on by `count` bytes and consumes the byte there,
    /// returning the new position and the byte. Returns `None`, leaving the
    /// cursor as it is, when fewer than `count` bytes remain; when exactly
    /// `count` remain the position moves to the end and `None` is returned.
    pub fn item_at(&mut self, count: usize) -> (r: Option<(usize, &'inner u8)>)
        ensures
            final(self).spec_buffer() == old(self).spec_buffer(),
            count > old(self).spec_remaining() ==> r is None && *final(self) == *old(self),
            count == old(self).spec_remaining() ==> r is None && final(self).spec_remaining() == 0,
            count < old(self).spec_remaining() ==> {
                &&& r matches Some((p, b)) && p == old(self).spec_position() + count + 1 && *b
                    == old(self).spec_buffer()[old(self).spec_position() + count]
                &&& final(self).spec_position() == old(self).spec_position() + count + 1
            },
    {
        proof {
            use_type_invariant(&*self);
        }
        if self.remaining() >= count {
            self.position = self.position + count;
            self.next()
        } else {
            None
        }
    }

    /// Returns the bytes of the buffer in `range.start..range.end`.
    pub fn view(&self, range: Range<usize>) -> (r: &'inner [u8])
        requires
            range.start <= range.end <= self.spec_buffer().len(),
        ensures
            r@ == self.spec_buffer().subrange(range.start as int, range.end as int),
    {
        vstd::slice::slice_subrange(self.inner, range.start, range.end)
    }

    /// Returns the bytes of the buffer from `from` on.
    pub fn view_from(&self, from: usize) -> (r: &'inner [u8])
        requires
            from <= self.spec_buffer().len(),
        ensures
            r@ == self.spec_buffer().subrange(from as int, self.spec_buffer().len() as int),
    {
        vstd::slice::slice_subrange(self.inner, from, self.inner.len())
    }

    /// Returns the bytes of the buffer before `to`.
    pub fn view_to(&self, to: usize) -> (r: &'inner [u8])
        requires
            to <= self.spec_buffer().len(),
        ensures
            r@ == self.spec_buffer().subrange(0, to as int),
    {
        vstd::slice::slice_subrange(self.inner, 0, to)
    }
}

/// Returns whether `a` and `b` hold the same bytes.
fn same_bytes(a: &[u8], b: &[u8]) -> (r: bool)
    ensures
        r == (a@ == b@),
{
    if a.len() != b.len() {
        return false;
    }
    let mut i: usize = 0;
    while i < a.len()
        invariant
            i <= a@.len() == b@.len(),
            forall|k: int| 0 <= k < i ==> a@[k] == b@[k],
        decreases a@.len() - i,
    {
        if a[i] != b[i] {
            return false;
        }
        i = i + 1;
    }
    assert(a@ =~= b@);
    true
}

/// Cursors are equal when they range over the same bytes and stand at the
/// same position.
impl<'inner> PartialEq for Cursor<'inner> {
    fn eq(&self, other: &Cursor<'inner>) -> (r: bool) {
        self.position == other.position && same_bytes(self.inner, other.inner)
    }
}

impl<'inner> vstd::std_specs::cmp::PartialEqSpecImpl for Cursor<'inner> {
    open spec fn obeys_eq_spec() -> bool {
        true
    }

    open spec fn eq_spec(&self, other: &Cursor<'inner>) -> bool {
        self.spec_buffer() == other.spec_buffer() && self.spec_position() == other.spec_position()
    }
}

impl<'inner> Eq for Cursor<'inner> {
}

/// Cursors over the same bytes are ordered by position; cursors over
/// different bytes are not ordered.
impl<'inner> PartialOrd for Cursor<'inner> {
    fn partial_cmp(&self, other: &Cursor<'inner>) -> (r: Option<core::cmp::Ordering>) {
        if !same_bytes(self.inner, other.inner) {
            None
        } else if self.position < other.position {
            Some(core::cmp::Ordering::Less)
        } else if self.position == other.position {
            Some(core::cmp::Ordering::Equal)
        } else {
            Some(core::cmp::Ordering::Greater)
        }
    }
}

impl<'inner> vstd::std_specs::cmp::PartialOrdSpecImpl for Cursor<'inner> {
    open spec fn obeys_partial_cmp_spec() -> bool {
        true
    }

    open spec fn partial_cmp_spec(&self, other: &Cursor<'inner>) -> Option<core::cmp::Ordering> {
        if self.spec_buffer() != other.spec_buffer() {
            None
        } else if self.spec_position() < other.spec_position() {
            Some(core::cmp::Ordering::Less)
        } else if self.spec_position() == other.spec_position() {
            Some(core::cmp::Ordering::Equal)
        } else {
            Some(core::cmp::Ordering::Greater)
        }
    }
}

impl<'inner> Collection for Cursor<'inner> {
    type Item = u8;

    open spec fn items(&self) -> Seq<u8> {
        self.spec_buffer()
    }

    open spec fn offset_of(&self, i: int) -> int {
        i
    }

    fn as_iter(&self) -> (r: Vec<u8>) {
        vstd::slice::slice_to_vec(self.inner)
    }

    fn as_enum(&self) -> (r: Vec<(usize, u8)>) {
        enumerate_bytes(self.inner)
    }
}

} // verus!
