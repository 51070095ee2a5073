//! The benchmark workload: a fixed trigonometric computation. The host
//! measures wall-clock time around the call; the workload itself is a pure
//! function of the iteration count.

use vstd::prelude::*;
use crate::scene::elapsed_of;
use crate::trig::sin_milli;
use crate::trig::sin_milli_spec;

verus! {

/// The sum of the fixed-point sine over the first `n` cycle positions, one
/// micro-cycle apart.
pub open spec fn workload_sum(n: int) -> int
    decreases n,
{
    if n <= 0 {
        0
    } else {
        workload_sum(n - 1) + sin_milli_spec((n - 1) % 1_000_000)
    }
}

/// The trigonometric workload of the benchmark: `iterations` fixed-point
/// sine evaluations, summed so the computation cannot be discarded.
pub fn benchmark_performance(iterations: u64) -> (sum: i128)
    ensures
        sum == workload_sum(iterations as int),
{
    let mut sum: i128 = 0;
    let mut i: u64 = 0;
    while i < iterations
        invariant
            i <= iterations,
            sum == workload_sum(i as int),
            -1000 * (i as int) <= sum <= 1000 * (i as int),
        decreases iterations - i,
    {
        let s = sin_milli((i % 1_000_000) as u32);
        sum = sum + (s as i128);
        i += 1;
    }
    sum
}

/// Elapsed milliseconds between two readings of the host's monotonic
/// clock, never negative: zero when the readings are out of order.
pub fn elapsed_millis(start_ms: u64, end_ms: u64) -> (elapsed: u64)
    ensures
        elapsed == elapsed_of(start_ms as int, end_ms as int),
{
    if end_ms >= start_ms {
        end_ms - start_ms
    } else {
        0
    }
}

} // verus!
