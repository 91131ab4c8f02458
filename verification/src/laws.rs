//! Laws relating the view operations.

use vstd::prelude::*;
use crate::reader::OwnedRead;

verus! {

/// Clone independence: an instance's view is a value of its own, so
/// narrowing one of two clones never changes what the other exposes. If
/// `b` was cloned from `a` (their views equal) and `a` was then advanced
/// or clipped by `n` bytes — `a2` being the result, as the `ensures` of
/// `advance` and `clip` describe it — then `b` still exposes every byte it
/// exposed when the clone was made, and so does `slice_from(0)` on it.
pub proof fn lemma_clone_independence(a: OwnedRead, a2: OwnedRead, b: OwnedRead, n: nat)
    requires
        b@ == a@,
        n <= a@.len(),
        a2@ == a@.skip(n as int) || a2@ == a@.take(n as int),
    ensures
        b@ == a@,
        b@.skip(0) == a@,
{
    assert(b@.skip(0) =~= a@);
}

/// Clipping to the full remaining length is a no-op: if `after` is
/// `before` clipped to exactly `before`'s length, the view — and with it
/// every subsequent read — is unchanged.
pub proof fn lemma_clip_full_length_noop(before: OwnedRead, after: OwnedRead)
    requires
        after@ == before@.take(before@.len() as int),
    ensures
        after@ == before@,
{
    assert(before@.take(before@.len() as int) =~= before@);
}

/// Read/advance equivalence: reading into a `k`-byte destination, with
/// `k` at most the remaining length, delivers exactly the bytes
/// `slice_from(0)[..k]` and leaves the view in the same state as
/// `advance(k)` would. `after_read` and `delivered` are what `read`'s
/// `ensures` describe for a `k`-byte destination; `after_advance` is what
/// `advance(k)`'s `ensures` describe.
pub proof fn lemma_read_advance_equivalence(
    before: OwnedRead,
    after_read: OwnedRead,
    delivered: Seq<u8>,
    after_advance: OwnedRead,
    k: nat,
)
    requires
        k <= before@.len(),
        delivered == before@.take(k as int),
        after_read@ == before@.skip(k as int),
        after_advance@ == before@.skip(k as int),
    ensures
        after_read@ == after_advance@,
        delivered == before@.skip(0).take(k as int),
{
    assert(before@.skip(0) =~= before@);
}

/// Advancing empties the view exactly when the whole remainder was skipped:
/// if `after` is `before` advanced by `n` bytes, `after` is empty iff
/// `before` held exactly `n` bytes.
pub proof fn lemma_advance_monotonicity(before: OwnedRead, after: OwnedRead, n: nat)
    requires
        n <= before@.len(),
        after@ == before@.skip(n as int),
    ensures
        (after@.len() == 0) <==> (before@.len() == n),
{
}

} // verus!
