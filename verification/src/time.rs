use vstd::prelude::*;

verus! {

/// A span of time, in nanoseconds.
pub type Duration = u128;

/// The longest span of time that can be represented: `u64::MAX` seconds and 999 999 999
/// nanoseconds.
pub const DURATION_MAX: u128 = 18_446_744_073_709_551_615_999_999_999u128;

/// `n` milliseconds.
pub fn millis(n: u64) -> (d: Duration)
    ensures
        d == n as int * 1_000_000,
{
    n as u128 * 1_000_000
}

} // verus!
