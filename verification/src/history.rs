//! Fixed-capacity FIFO buffer of latency samples, backed by
//! `arraydeque::ArrayDeque` with saturating behavior. The buffer is opaque
//! to the verifier; its contents are modelled by the sequence `hist_seq`,
//! and each operation used by the library is a trusted wrapper whose
//! contract states what the backing crate's source shows.

use vstd::prelude::*;
use arraydeque::ArrayDeque;

verus! {

/// Number of samples the rolling history retains.
pub const HISTORY_CAP: usize = 1000;

/// Ring buffer holding up to `HISTORY_CAP` round-trip samples in arrival
/// order.
#[verifier::external_body]
pub struct History {
    buf: ArrayDeque<u32, HISTORY_CAP>,
}

/// The samples currently held, front (oldest) to back (newest).
pub uninterp spec fn hist_seq(h: History) -> Seq<u32>;

/// Relies on ArrayDeque::new: creates an empty deque.
#[verifier::external_body]
pub(crate) fn hist_new() -> (h: History)
    ensures
        hist_seq(h) == Seq::<u32>::empty(),
{
    History { buf: ArrayDeque::new() }
}

/// Relies on ArrayDeque::len: the number of elements held, which the
/// deque keeps at or below its capacity.
#[verifier::external_body]
pub(crate) fn hist_len(h: &History) -> (n: usize)
    ensures
        n == hist_seq(*h).len(),
        n <= HISTORY_CAP,
{
    h.buf.len()
}

/// Relies on ArrayDeque::push_back (saturating): appends at the back when
/// the deque is not full, and otherwise returns an error and changes nothing.
#[verifier::external_body]
pub(crate) fn hist_push_back(h: &mut History, x: u32) -> (ok: bool)
    ensures
        ok == (hist_seq(*old(h)).len() < HISTORY_CAP),
        ok ==> hist_seq(*final(h)) == hist_seq(*old(h)).push(x),
        !ok ==> hist_seq(*final(h)) == hist_seq(*old(h)),
{
    h.buf.push_back(x).is_ok()
}

/// Relies on ArrayDeque::pop_front: removes and returns the front (oldest)
/// element, or returns None when the deque is empty.
#[verifier::external_body]
pub(crate) fn hist_pop_front(h: &mut History) -> (r: Option<u32>)
    ensures
        hist_seq(*old(h)).len() == 0 ==> r is None && hist_seq(*final(h)) == hist_seq(*old(h)),
        hist_seq(*old(h)).len() > 0 ==> r == Some(hist_seq(*old(h))[0])
            && hist_seq(*final(h)) == hist_seq(*old(h)).drop_first(),
{
    h.buf.pop_front()
}

/// Relies on ArrayDeque::clear: removes all elements.
#[verifier::external_body]
pub(crate) fn hist_clear(h: &mut History)
    ensures
        hist_seq(*final(h)) == Seq::<u32>::empty(),
{
    h.buf.clear()
}

/// Relies on ArrayDeque::get: the element at index `i` from the front,
/// or None when `i` is out of range.
#[verifier::external_body]
pub(crate) fn hist_get(h: &History, i: usize) -> (r: Option<u32>)
    ensures
        i < hist_seq(*h).len() ==> r == Some(hist_seq(*h)[i as int]),
        i >= hist_seq(*h).len() ==> r is None,
{
    h.buf.get(i).copied()
}

} // verus!
