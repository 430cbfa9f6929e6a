use vstd::arithmetic::div_mod::{lemma_div_multiples_vanish_fancy, lemma_fundamental_div_mod};
use vstd::prelude::*;

verus! {

/// One measured elapsed interval, split the way a monotonic clock reports
/// it: whole seconds plus the nanoseconds of the partial second.
pub struct Duration {
    pub secs: u64,
    pub nanos: u32,
}

impl Duration {
    /// The whole interval, in nanoseconds.
    pub open spec fn total_nanos(&self) -> int {
        self.secs * 1_000_000_000 + self.nanos
    }

    /// A well-formed interval keeps its sub-second part below one second and
    /// fits, as nanoseconds, in a machine word; both hold of every interval
    /// built by `Duration::between`.
    pub open spec fn wf(&self) -> bool {
        &&& self.nanos < 1_000_000_000u32
        &&& self.total_nanos() <= u64::MAX
    }

    /// The interval between two instants, each given as a nanosecond reading
    /// of the same monotonic clock.
    pub fn between(earlier: u64, later: u64) -> (d: Duration)
        requires
            earlier <= later,
        ensures
            d.wf(),
            d.total_nanos() == later - earlier,
    {
        let diff: u64 = later - earlier;
        let secs: u64 = diff / 1_000_000_000;
        let nanos: u32 = (diff % 1_000_000_000) as u32;
        proof {
            lemma_fundamental_div_mod(diff as int, 1_000_000_000);
        }
        Duration { secs, nanos }
    }
}

/// The interval in whole microseconds, rounded toward zero.
pub fn in_micros(d: &Duration) -> (r: u64)
    requires
        d.wf(),
    ensures
        r == d.total_nanos() / 1000,
{
    proof {
        lemma_scaled_sum_div(d.secs as int, d.nanos as int, 1_000_000, 1000);
    }
    1_000_000 * d.secs + (d.nanos / 1000) as u64
}

/// The interval in whole milliseconds, rounded toward zero.
pub fn in_millis(d: &Duration) -> (r: u64)
    requires
        d.wf(),
    ensures
        r == d.total_nanos() / 1_000_000,
{
    proof {
        lemma_scaled_sum_div(d.secs as int, d.nanos as int, 1000, 1_000_000);
    }
    1000 * d.secs + (d.nanos / 1_000_000) as u64
}

/// For `secs` seconds and `nanos` extra nanoseconds, dividing the total
/// nanosecond count by `unit` equals `per_sec * secs` plus the divided
/// remainder, whenever `per_sec * unit` is one second of nanoseconds.
proof fn lemma_scaled_sum_div(secs: int, nanos: int, per_sec: int, unit: int)
    requires
        0 <= secs,
        0 <= nanos < 1_000_000_000,
        0 < per_sec,
        0 < unit,
        per_sec * unit == 1_000_000_000,
    ensures
        (secs * 1_000_000_000 + nanos) / unit == per_sec * secs + nanos / unit,
{
    lemma_fundamental_div_mod(nanos, unit);
    let q = nanos / unit;
    let r = nanos % unit;
    assert(secs * 1_000_000_000 + nanos == unit * (per_sec * secs + q) + r) by (nonlinear_arith)
        requires
            per_sec * unit == 1_000_000_000,
            nanos == unit * q + r,
    ;
    lemma_div_multiples_vanish_fancy(per_sec * secs + q, r, unit);
}

} // verus!
