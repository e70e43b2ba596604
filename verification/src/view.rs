//! Bounds-checked random access: encode or decode one value at an arbitrary
//! offset in a byte buffer, independent of any cursor state.
//!
//! An access succeeds exactly when its whole byte range lies inside the
//! buffer: `offset + width <= length`. The checked operations report a
//! failure as [`OutOfBounds`] and leave the buffer untouched; the unchecked
//! ones demand the same bound as a precondition instead of testing it, so a
//! caller must establish it beforehand.

use crate::endian::Endian;
use crate::endian::decode;
use crate::endian::encode;
use crate::endian::spec_decode;
use crate::endian::spec_encode;
use vstd::prelude::*;
use vstd::slice::slice_subrange;

verus! {

/// The single error kind of this crate: an access whose byte range does not
/// lie entirely within the buffer's extent.
#[derive(Clone, Copy, Debug, PartialEq, Eq, Structural)]
pub struct OutOfBounds;

/// `buf` with the bytes at `offset..offset + patch.len()` replaced by
/// `patch`; every byte outside that range is kept.
pub open spec fn spec_splice(buf: Seq<u8>, offset: nat, patch: Seq<u8>) -> Seq<u8>
    recommends
        offset + patch.len() <= buf.len(),
{
    buf.subrange(0, offset as int) + patch + buf.subrange(
        (offset + patch.len()) as int,
        buf.len() as int,
    )
}

/// Read and write a single fixed-width value at an arbitrary offset of a
/// byte buffer, with the bound checked or owed by the caller.
pub trait ByteView: View<V = Seq<u8>> {
    /// Decode a value of type `E` from the `E::width()` bytes at `offset`.
    ///
    /// Succeeds, without any side effect, exactly when
    /// `offset + E::width() <= self@.len()`; an offset equal to the buffer
    /// length with any positive width fails.
    fn read_at<E: Endian>(&self, offset: usize) -> (r: Option<E>)
        ensures
            (r is Some) <==> offset + E::width() <= self@.len(),
            r is Some ==> r->Some_0 == spec_decode::<E>(
                self@.subrange(offset as int, offset + E::width()),
            ),
    ;

    /// Decode a value of type `E` from the `E::width()` bytes at `offset`,
    /// without testing the bound: the caller owes it as a precondition.
    fn read_at_unchecked<E: Endian>(&self, offset: usize) -> (v: E)
        requires
            offset + E::width() <= self@.len(),
        ensures
            v == spec_decode::<E>(self@.subrange(offset as int, offset + E::width())),
    ;

    /// Encode `num` into the `E::width()` bytes at `offset`.
    ///
    /// Succeeds exactly when `offset + E::width() <= self@.len()`; on success
    /// overwrites exactly those bytes and touches no other; on failure the
    /// buffer is byte-for-byte unchanged.
    fn write_at<E: Endian>(&mut self, offset: usize, num: E) -> (r: Result<(), OutOfBounds>)
        ensures
            (r is Ok) <==> offset + E::width() <= old(self)@.len(),
            r is Ok ==> final(self)@ == spec_splice(old(self)@, offset as nat, spec_encode(num)),
            r is Err ==> final(self)@ == old(self)@,
            final(self)@.len() == old(self)@.len(),
    ;

    /// Encode `num` into the `E::width()` bytes at `offset`, without testing
    /// the bound: the caller owes it as a precondition.
    fn write_at_unchecked<E: Endian>(&mut self, offset: usize, num: E)
        requires
            offset + E::width() <= old(self)@.len(),
        ensures
            final(self)@ == spec_splice(old(self)@, offset as nat, spec_encode(num)),
            final(self)@.len() == old(self)@.len(),
    ;
}

impl ByteView for [u8] {
    fn read_at<E: Endian>(&self, offset: usize) -> (r: Option<E>) {
        let w = E::size();
        if offset <= self.len() && w <= self.len() - offset {
            let bytes = slice_subrange(self, offset, offset + w);
            Some(decode::<E>(bytes))
        } else {
            None
        }
    }

    fn read_at_unchecked<E: Endian>(&self, offset: usize) -> (v: E) {
        let w = E::size();
        proof {
            vstd::slice::axiom_spec_len::<u8>(self);
        }
        let bytes = slice_subrange(self, offset, offset + w);
        decode::<E>(bytes)
    }

    fn write_at<E: Endian>(&mut self, offset: usize, num: E) -> (r: Result<(), OutOfBounds>) {
        let w = E::size();
        if offset <= self.len() && w <= self.len() - offset {
            self.write_at_unchecked(offset, num);
            Ok(())
        } else {
            Err(OutOfBounds)
        }
    }

    fn write_at_unchecked<E: Endian>(&mut self, offset: usize, num: E) {
        proof {
            vstd::slice::axiom_spec_len::<u8>(self);
        }
        let bytes = encode(num);
        let w = bytes.len();
        let mut i: usize = 0;
        while i < w
            invariant
                offset + w <= self@.len() <= usize::MAX,
                bytes@ == spec_encode(num),
                w == bytes@.len(),
                i <= w,
                self@.len() == old(self)@.len(),
                forall|j: int| 0 <= j < offset ==> self@[j] == old(self)@[j],
                forall|j: int| offset <= j < offset + i ==> self@[j] == bytes@[j - offset],
                forall|j: int| offset + w <= j < self@.len() ==> self@[j] == old(self)@[j],
            decreases w - i,
        {
            self[offset + i] = bytes[i];
            i = i + 1;
        }
        proof {
            assert(self@ =~= spec_splice(old(self)@, offset as nat, spec_encode(num)));
        }
    }
}

} // verus!
