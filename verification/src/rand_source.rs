//! The one randomness capability the library draws on.

use vstd::prelude::*;

verus! {

/// Relies on rand::random_range over `0..n`: a draw from the
/// thread-local generator, uniform on the range; nothing more is
/// taken from it than its bound.  The range is non-empty, so the call
/// cannot panic.
#[verifier::external_body]
pub(crate) fn random_below(n: u64) -> (r: u64)
    requires
        n > 0,
    ensures
        r < n,
{
    rand::random_range(0..n)
}

} // verus!
