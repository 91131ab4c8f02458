//! The owned byte view and its streaming-read interface.

use vstd::prelude::*;
use vstd::slice::slice_subrange;
use vstd::slice::SliceAdditionalExecFns;
use std::sync::Arc;

verus! {

/// Error reported by [`OwnedRead::read_exact`] when the view holds fewer
/// bytes than the destination buffer asks for.
#[derive(Clone, Copy, Debug, PartialEq, Eq, Structural)]
pub enum ReadError {
    /// The view ran out of bytes before the destination was filled.
    UnexpectedEof,
}

/// A cursor over an owned byte buffer.
///
/// The buffer is held through a shared, reference-counted handle, so cloning
/// an `OwnedRead` never copies the bytes: clones jointly own one backing
/// allocation and the bytes are freed when the last owner is dropped. Each
/// instance keeps its own view, a sub-range `[start, end)` of the backing
/// bytes, which narrows as the instance is advanced, clipped or read from;
/// narrowing one instance never changes what another exposes.
///
/// The view of an `OwnedRead` (written `self@` in contracts) is the sequence
/// of bytes it currently exposes: the backing bytes between `start` and
/// `end`.
pub struct OwnedRead {
    backing: Arc<Vec<u8>>,
    start: usize,
    end: usize,
}

impl OwnedRead {
    #[verifier::type_invariant]
    spec fn well_formed(self) -> bool {
        self.start <= self.end <= self.backing@.len()
    }
}

impl View for OwnedRead {
    type V = Seq<u8>;

    closed spec fn view(&self) -> Seq<u8> {
        self.backing@.subrange(self.start as int, self.end as int)
    }
}

/// Relies on `std::sync::Arc::clone`: the returned handle shares the same
/// allocation as the argument, so it holds the same value; only the
/// reference count changes.
#[verifier::external_body]
fn share_backing(backing: &Arc<Vec<u8>>) -> (r: Arc<Vec<u8>>)
    ensures
        r == *backing,
{
    Arc::clone(backing)
}

impl OwnedRead {
    /// Wraps `data` in a shared handle and exposes all of its bytes.
    ///
    /// The backing bytes are never written or reallocated after this point,
    /// so every slice handed out stays valid for as long as some owner of
    /// the backing allocation is alive.
    pub fn new(data: Vec<u8>) -> (r: OwnedRead)
        ensures
            r@ == data@,
    {
        let end = data.len();
        let r = OwnedRead { backing: Arc::new(data), start: 0, end };
        proof {
            assert(r@ =~= r.backing@);
        }
        r
    }

    /// True iff no unread bytes remain in the view.
    pub fn is_empty(&self) -> (r: bool)
        ensures
            r <==> self@.len() == 0,
    {
        proof {
            use_type_invariant(self);
        }
        self.end == self.start
    }

    /// Narrows the view to its own first `clip_len` bytes.
    ///
    /// Clipping more than the view holds is a contract violation, excluded
    /// by `requires`. Only this instance's view changes; clones and the
    /// backing bytes are untouched.
    pub fn clip(&mut self, clip_len: usize)
        requires
            clip_len <= old(self)@.len(),
        ensures
            final(self)@ == old(self)@.take(clip_len as int),
    {
        proof {
            use_type_invariant(&*self);
        }
        self.end = self.start + clip_len;
        proof {
            assert(self@ =~= old(self)@.take(clip_len as int));
        }
    }

    /// Moves the view's start forward by `advance_len` bytes.
    ///
    /// Advancing past the end of the view is a contract violation, excluded
    /// by `requires`. Only this instance's view changes; clones and the
    /// backing bytes are untouched.
    pub fn advance(&mut self, advance_len: usize)
        requires
            advance_len <= old(self)@.len(),
        ensures
            final(self)@ == old(self)@.skip(advance_len as int),
    {
        proof {
            use_type_invariant(&*self);
        }
        self.start = self.start + advance_len;
        proof {
            assert(self@ =~= old(self)@.skip(advance_len as int));
        }
    }

    /// Borrows the whole current view as a plain byte slice.
    pub fn as_slice(&self) -> (r: &[u8])
        ensures
            r@ == self@,
    {
        proof {
            use_type_invariant(self);
        }
        slice_subrange((&*self.backing).as_slice(), self.start, self.end)
    }

    /// Borrows the tail of the current view that begins at offset `start`
    /// (an offset within the view, not within the backing store).
    ///
    /// An offset past the end of the view is a contract violation, excluded
    /// by `requires`.
    pub fn slice_from(&self, start: usize) -> (r: &[u8])
        requires
            start <= self@.len(),
        ensures
            r@ == self@.skip(start as int),
    {
        proof {
            use_type_invariant(self);
        }
        let r = slice_subrange((&*self.backing).as_slice(), self.start + start, self.end);
        proof {
            assert(r@ =~= self@.skip(start as int));
        }
        r
    }

    /// Returns the byte at offset `idx` of the current view.
    ///
    /// An offset at or past the end of the view is a contract violation,
    /// excluded by `requires`.
    pub fn get(&self, idx: usize) -> (r: u8)
        requires
            idx < self@.len(),
        ensures
            r == self@[idx as int],
    {
        proof {
            use_type_invariant(self);
        }
        *vstd::slice::slice_index_get((&*self.backing).as_slice(), self.start + idx)
    }
}

impl OwnedRead {
    /// Copies `min(buf.len(), remaining)` bytes from the front of the view
    /// into the front of `buf`, advances the view past them, and returns
    /// the count. Returns 0 on an empty view (end of stream); bytes of
    /// `buf` past the copied prefix keep their old values.
    pub fn read(&mut self, buf: &mut [u8]) -> (n: usize)
        ensures
            n == if old(buf)@.len() <= old(self)@.len() {
                old(buf)@.len()
            } else {
                old(self)@.len()
            },
            final(buf)@.len() == old(buf)@.len(),
            final(buf)@ == old(self)@.take(n as int) + old(buf)@.skip(n as int),
            final(self)@ == old(self)@.skip(n as int),
    {
        proof {
            use_type_invariant(&*self);
        }
        let remaining = self.end - self.start;
        let n: usize = if buf.len() <= remaining {
            buf.len()
        } else {
            remaining
        };
        let mut i: usize = 0;
        while i < n
            invariant
                i <= n,
                *self == *old(self),
                self.well_formed(),
                n <= buf@.len(),
                n <= self@.len(),
                buf@.len() == old(buf)@.len(),
                forall|j: int| 0 <= j < i ==> buf@[j] == self@[j],
                forall|j: int| i <= j < buf@.len() ==> buf@[j] == old(buf)@[j],
            decreases n - i,
        {
            let b = *vstd::slice::slice_index_get((&*self.backing).as_slice(), self.start + i);
            buf.set(i, b);
            i += 1;
        }
        proof {
            assert(buf@ =~= old(self)@.take(n as int) + old(buf)@.skip(n as int));
        }
        self.start = self.start + n;
        proof {
            assert(self@ =~= old(self)@.skip(n as int));
        }
        n
    }

    /// Appends every remaining view byte to `buf`, advances the view to
    /// empty, and returns the count appended.
    pub fn read_to_end(&mut self, buf: &mut Vec<u8>) -> (n: usize)
        ensures
            n == old(self)@.len(),
            final(self)@.len() == 0,
            final(buf)@ == old(buf)@ + old(self)@,
    {
        proof {
            use_type_invariant(&*self);
        }
        let n = self.end - self.start;
        let mut i: usize = 0;
        while i < n
            invariant
                i <= n,
                *self == *old(self),
                self.well_formed(),
                n == self@.len(),
                buf@ == old(buf)@ + self@.take(i as int),
            decreases n - i,
        {
            let b = *vstd::slice::slice_index_get((&*self.backing).as_slice(), self.start + i);
            proof {
                assert(old(buf)@ + self@.take(i as int) + seq![b]
                    =~= old(buf)@ + self@.take(i + 1));
            }
            buf.push(b);
            i += 1;
        }
        proof {
            assert(old(buf)@ + self@.take(n as int) =~= old(buf)@ + self@);
        }
        self.start = self.end;
        proof {
            assert(self@ =~= Seq::<u8>::empty());
        }
        n
    }

    /// Reads bytes to exactly fill `buf`. If the view holds fewer bytes
    /// than `buf` asks for, whatever was available is copied, the view is
    /// left empty, and the shortfall is reported as
    /// [`ReadError::UnexpectedEof`]; the partial progress is kept.
    pub fn read_exact(&mut self, buf: &mut [u8]) -> (r: Result<(), ReadError>)
        ensures
            r is Ok <==> old(buf)@.len() <= old(self)@.len(),
            final(buf)@.len() == old(buf)@.len(),
            old(buf)@.len() <= old(self)@.len() ==> {
                &&& final(buf)@ == old(self)@.take(old(buf)@.len() as int)
                &&& final(self)@ == old(self)@.skip(old(buf)@.len() as int)
            },
            old(self)@.len() < old(buf)@.len() ==> {
                &&& final(self)@.len() == 0
                &&& final(buf)@ == old(self)@ + old(buf)@.skip(old(self)@.len() as int)
            },
    {
        let n = self.read(buf);
        if n == buf.len() {
            proof {
                assert(old(self)@.take(n as int) + old(buf)@.skip(n as int)
                    =~= old(self)@.take(n as int));
            }
            Ok(())
        } else {
            proof {
                assert(old(self)@.take(old(self)@.len() as int) =~= old(self)@);
            }
            Err(ReadError::UnexpectedEof)
        }
    }
}

impl Clone for OwnedRead {
    /// Produces an instance with the same view, jointly owning the same
    /// backing allocation; no bytes are copied. The clone's view is
    /// independent from then on: narrowing either instance leaves the
    /// other's view as it was.
    fn clone(&self) -> (r: Self)
        ensures
            r@ == self@,
    {
        proof {
            use_type_invariant(self);
        }
        OwnedRead { backing: share_backing(&self.backing), start: self.start, end: self.end }
    }
}

} // verus!
