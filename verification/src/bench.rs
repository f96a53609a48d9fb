//! A busy loop used as the measured workload, and the foreign entry point stub.

use vstd::prelude::*;

verus! {

/// Counts from zero up to `n`, one step at a time; the count reached is `n`
/// (zero when `n` is not positive).
pub fn bench_test(n: i32) -> (res: i32)
    ensures
        res == if n > 0 {
            n
        } else {
            0
        },
{
    let mut val: i32 = 0;
    let mut i: i32 = 0;
    while i < n
        invariant
            0 <= i,
            n > 0 ==> i <= n,
            n <= 0 ==> i == 0,
            val == i,
        decreases n - i,
    {
        val += 1;
        i += 1;
    }
    val
}

/// The value that the foreign `end_rapl` entry point reports.
pub fn end_rapl() -> (res: usize)
    ensures
        res == 456,
{
    456
}

} // verus!
