//! The cursor: a byte buffer paired with one advancing offset, for
//! incremental parsing and serialization.
//!
//! Every successful operation advances the offset by exactly the number of
//! bytes it consumed or produced; a failed operation leaves the offset and
//! the buffer contents byte-for-byte unchanged. The checked operations
//! return a typed failure on exhaustion; the unchecked ones demand the bound
//! as a precondition instead of testing it.

use crate::endian::Endian;
use crate::endian::decode;
use crate::endian::spec_decode;
use crate::endian::spec_encode;
use crate::view::ByteView;
use crate::view::OutOfBounds;
use crate::view::spec_splice;
use vstd::prelude::*;
use vstd::slice::slice_subrange;

verus! {

/// A cursor over a byte buffer: the buffer together with the position of the
/// next sequential read or write.
///
/// Both fields are public, as a cursor is nothing more than this pair; an
/// offset beyond the buffer's length is a legal state in which every read
/// and write fails and [`DataView::remaining_slice`] is empty.
#[derive(Debug, Clone, PartialEq, Eq)]
pub struct DataView {
    /// The underlying buffer.
    pub data: Vec<u8>,
    /// The position of the next read or write, counted in bytes from the
    /// start of the buffer.
    pub offset: usize,
}

impl DataView {
    /// The bytes from the offset (clipped to the buffer's length) to the end
    /// of the buffer.
    pub open spec fn spec_remaining(self) -> Seq<u8> {
        if self.offset <= self.data@.len() {
            self.data@.subrange(self.offset as int, self.data@.len() as int)
        } else {
            Seq::empty()
        }
    }

    /// A new cursor over `data`, positioned at its start.
    pub fn new(data: Vec<u8>) -> (r: Self)
        ensures
            r.data == data,
            r.offset == 0,
    {
        DataView { data, offset: 0 }
    }

    /// The bytes from the current offset to the end of the buffer. Never
    /// fails and never moves the offset: with an offset at or beyond the
    /// buffer's length the result is empty.
    pub fn remaining_slice(&self) -> (s: &[u8])
        ensures
            s@ == self.spec_remaining(),
    {
        let n = self.data.len();
        let start = if self.offset < n {
            self.offset
        } else {
            n
        };
        slice_subrange(self.data.as_slice(), start, n)
    }

    /// Borrow the `len` bytes at the current offset and advance the offset
    /// past them. Succeeds exactly when `len` bytes remain; on failure the
    /// offset does not move.
    pub fn read_slice(&mut self, len: usize) -> (r: Option<&[u8]>)
        ensures
            final(self).data@ == old(self).data@,
            (r is Some) <==> old(self).offset + len <= old(self).data@.len(),
            r is Some ==> final(self).offset == old(self).offset + len,
            r is Some ==> r->Some_0@ == old(self).data@.subrange(
                old(self).offset as int,
                old(self).offset + len,
            ),
            r is None ==> final(self).offset == old(self).offset,
    {
        let n = self.data.len();
        if self.offset <= n && len <= n - self.offset {
            let start = self.offset;
            self.offset = start + len;
            Some(slice_subrange(self.data.as_slice(), start, start + len))
        } else {
            None
        }
    }

    /// Borrow the `len` bytes at the current offset and advance the offset
    /// past them, without testing the bound: the caller owes
    /// `offset + len <= data.len()` as a precondition.
    pub fn read_slice_unchecked(&mut self, len: usize) -> (s: &[u8])
        requires
            old(self).offset + len <= old(self).data@.len(),
        ensures
            final(self).data@ == old(self).data@,
            final(self).offset == old(self).offset + len,
            s@ == old(self).data@.subrange(old(self).offset as int, old(self).offset + len),
    {
        proof {
            vstd::std_specs::vec::axiom_spec_len(&self.data);
        }
        let start = self.offset;
        self.offset = start + len;
        slice_subrange(self.data.as_slice(), start, start + len)
    }

    /// Decode a value of type `E` from the next `E::width()` bytes and
    /// advance the offset past them. Succeeds exactly when that many bytes
    /// remain; on failure the offset does not move.
    pub fn read<E: Endian>(&mut self) -> (r: Option<E>)
        ensures
            final(self).data@ == old(self).data@,
            (r is Some) <==> old(self).offset + E::width() <= old(self).data@.len(),
            r is Some ==> final(self).offset == old(self).offset + E::width(),
            r is Some ==> r->Some_0 == spec_decode::<E>(
                old(self).data@.subrange(old(self).offset as int, old(self).offset + E::width()),
            ),
            r is None ==> final(self).offset == old(self).offset,
    {
        let w = E::size();
        match self.read_slice(w) {
            Some(bytes) => Some(decode::<E>(bytes)),
            None => None,
        }
    }

    /// Decode a value of type `E` from the next `E::width()` bytes and
    /// advance the offset past them, without testing the bound: the caller
    /// owes `offset + E::width() <= data.len()` as a precondition.
    pub fn read_unchecked<E: Endian>(&mut self) -> (v: E)
        requires
            old(self).offset + E::width() <= old(self).data@.len(),
        ensures
            final(self).data@ == old(self).data@,
            final(self).offset == old(self).offset + E::width(),
            v == spec_decode::<E>(
                old(self).data@.subrange(old(self).offset as int, old(self).offset + E::width()),
            ),
    {
        let w = E::size();
        let bytes = self.read_slice_unchecked(w);
        decode::<E>(bytes)
    }

    /// Copy the next `N` bytes into an owned buffer and advance the offset
    /// past them. Succeeds exactly when `N` bytes remain; on failure the
    /// offset does not move.
    pub fn read_buf<const N: usize>(&mut self) -> (r: Option<[u8; N]>)
        ensures
            final(self).data@ == old(self).data@,
            (r is Some) <==> old(self).offset + N <= old(self).data@.len(),
            r is Some ==> final(self).offset == old(self).offset + N,
            r is Some ==> r->Some_0@ == old(self).data@.subrange(
                old(self).offset as int,
                old(self).offset + N,
            ),
            r is None ==> final(self).offset == old(self).offset,
    {
        match self.read_slice(N) {
            Some(bytes) => Some(copy_to_array::<N>(bytes)),
            None => None,
        }
    }

    /// Copy the next `N` bytes into an owned buffer and advance the offset
    /// past them, without testing the bound: the caller owes
    /// `offset + N <= data.len()` as a precondition.
    pub fn read_buf_unchecked<const N: usize>(&mut self) -> (r: [u8; N])
        requires
            old(self).offset + N <= old(self).data@.len(),
        ensures
            final(self).data@ == old(self).data@,
            final(self).offset == old(self).offset + N,
            r@ == old(self).data@.subrange(old(self).offset as int, old(self).offset + N),
    {
        let bytes = self.read_slice_unchecked(N);
        copy_to_array::<N>(bytes)
    }

    /// Encode `num` into the next `E::width()` bytes and advance the offset
    /// past them. Succeeds exactly when that many bytes remain (the buffer
    /// never grows); on success overwrites exactly those bytes and touches
    /// no other; on failure the offset and the buffer contents are
    /// byte-for-byte unchanged.
    pub fn write<E: Endian>(&mut self, num: E) -> (r: Result<(), OutOfBounds>)
        ensures
            final(self).data@.len() == old(self).data@.len(),
            (r is Ok) <==> old(self).offset + E::width() <= old(self).data@.len(),
            r is Ok ==> final(self).offset == old(self).offset + E::width(),
            r is Ok ==> final(self).data@ == spec_splice(
                old(self).data@,
                old(self).offset as nat,
                spec_encode(num),
            ),
            r is Err ==> final(self).offset == old(self).offset,
            r is Err ==> final(self).data@ == old(self).data@,
    {
        let w = E::size();
        let n = self.data.len();
        if self.offset <= n && w <= n - self.offset {
            let offset = self.offset;
            let s = self.data.as_mut_slice();
            s.write_at_unchecked(offset, num);
            self.offset = offset + w;
            Ok(())
        } else {
            Err(OutOfBounds)
        }
    }

    /// Copy `other` into the buffer at the current offset and advance the
    /// offset past it. Succeeds exactly when `other.len()` bytes remain (the
    /// buffer never grows); on success overwrites exactly those bytes and
    /// touches no other; on failure the offset and the buffer contents are
    /// byte-for-byte unchanged.
    pub fn write_slice(&mut self, other: &[u8]) -> (r: Result<(), OutOfBounds>)
        ensures
            final(self).data@.len() == old(self).data@.len(),
            (r is Ok) <==> old(self).offset + other@.len() <= old(self).data@.len(),
            r is Ok ==> final(self).offset == old(self).offset + other@.len(),
            r is Ok ==> final(self).data@ == spec_splice(
                old(self).data@,
                old(self).offset as nat,
                other@,
            ),
            r is Err ==> final(self).offset == old(self).offset,
            r is Err ==> final(self).data@ == old(self).data@,
    {
        let count = other.len();
        let n = self.data.len();
        if self.offset <= n && count <= n - self.offset {
            let offset = self.offset;
            let mut i: usize = 0;
            while i < count
                invariant
                    offset + count <= self.data@.len() <= usize::MAX,
                    count == other@.len(),
                    i <= count,
                    self.data@.len() == old(self).data@.len(),
                    self.offset == old(self).offset,
                    forall|j: int| 0 <= j < offset ==> self.data@[j] == old(self).data@[j],
                    forall|j: int|
                        offset <= j < offset + i ==> self.data@[j] == other@[j - offset],
                    forall|j: int|
                        offset + count <= j < self.data@.len() ==> self.data@[j] == old(
                            self,
                        ).data@[j],
                decreases count - i,
            {
                self.data[offset + i] = other[i];
                i = i + 1;
            }
            self.offset = offset + count;
            proof {
                assert(self.data@ =~= spec_splice(old(self).data@, offset as nat, other@));
            }
            Ok(())
        } else {
            Err(OutOfBounds)
        }
    }
}

impl From<Vec<u8>> for DataView {
    /// The same cursor as [`DataView::new`]: `data` at offset 0.
    fn from(data: Vec<u8>) -> (r: Self) {
        DataView::new(data)
    }
}

impl vstd::std_specs::convert::FromSpecImpl<Vec<u8>> for DataView {
    open spec fn obeys_from_spec() -> bool {
        true
    }

    open spec fn from_spec(data: Vec<u8>) -> Self {
        DataView { data, offset: 0 }
    }
}

impl Default for DataView {
    /// A cursor over an empty buffer, positioned at its start.
    fn default() -> (r: Self)
        ensures
            r.data@ == Seq::<u8>::empty(),
            r.offset == 0,
    {
        DataView::new(Vec::new())
    }
}

/// An owned copy of exactly `N` bytes taken from `bytes`.
fn copy_to_array<const N: usize>(bytes: &[u8]) -> (buf: [u8; N])
    requires
        bytes@.len() == N,
    ensures
        buf@ == bytes@,
{
    let mut buf: [u8; N] = [0u8; N];
    let mut i: usize = 0;
    while i < N
        invariant
            bytes@.len() == N,
            i <= N,
            buf@.len() == N,
            forall|j: int| 0 <= j < i ==> buf@[j] == bytes@[j],
        decreases N - i,
    {
        buf[i] = bytes[i];
        i = i + 1;
    }
    proof {
        assert(buf@ =~= bytes@);
    }
    buf
}

} // verus!

