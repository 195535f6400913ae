//! Ownership transfer of variable-length scan results.
//!
//! Every successful raw scan hands its match addresses to the caller as a
//! [`MatchBuffer`]: an owning handle that the caller must return through
//! [`ps_free_results`] exactly once (or keep forever — leaking is safe).

use vstd::prelude::*;

verus! {

/// An owned, ordered array of match addresses produced by a scan.
///
/// Once handed out, the scanning side never reads or releases it again;
/// the caller releases it through [`ps_free_results`].
pub struct MatchBuffer {
    addrs: Vec<u64>,
}

impl View for MatchBuffer {
    type V = Seq<u64>;

    closed spec fn view(&self) -> Seq<u64> {
        self.addrs@
    }
}

impl MatchBuffer {
    /// Wraps a finished list of match addresses into an owning handle.
    pub fn new(addrs: Vec<u64>) -> (r: MatchBuffer)
        ensures
            r@ == addrs@,
    {
        MatchBuffer { addrs }
    }

    /// Number of addresses held.
    pub fn len(&self) -> (n: usize)
        ensures
            n == self@.len(),
    {
        self.addrs.len()
    }

    /// The address at position `i`.
    pub fn get(&self, i: usize) -> (a: u64)
        requires
            i < self@.len(),
        ensures
            a == self@[i as int],
    {
        self.addrs[i]
    }

    /// Gives the addresses up, ending the handle's life.
    pub fn into_vec(self) -> (v: Vec<u64>)
        ensures
            v@ == self@,
    {
        self.addrs
    }
}

/// Releases a buffer previously produced by a scan.
///
/// Accepting the handle by value makes a second release of the same
/// buffer impossible to write.  Passing `None` or a zero count is a safe
/// no-op, mirroring the convention that a null pointer or empty result
/// needs no release.  `count` is the length the caller was given together
/// with the buffer.
pub fn ps_free_results(results: Option<MatchBuffer>, count: usize) -> (released: bool)
    ensures
        released == (results is Some && count > 0),
{
    match results {
        None => false,
        Some(_buf) => count > 0,
    }
}

} // verus!
