//! Lengths of time in whole nanoseconds.

use crate::json_value::JsonNumber;
use vstd::arithmetic::div_mod::lemma_div_denominator;
use vstd::prelude::*;

verus! {

/// A length of time, in nanoseconds.
#[derive(Debug, Clone, Copy, PartialEq, Eq, Structural)]
pub struct TimeSpan {
    pub nanos: u64,
}

/// The nanoseconds in a millisecond.
pub const NANOS_PER_MILLI: u64 = 1_000_000;

/// The nanoseconds in a second.
pub const NANOS_PER_SECOND: u64 = 1_000_000_000;

/// Ten to the power `n`.
pub open spec fn pow10(n: nat) -> nat
    decreases n,
{
    if n == 0 {
        1
    } else {
        10 * pow10((n - 1) as nat)
    }
}

/// The whole nanoseconds in `mantissa * 10^exponent` seconds; a fraction of a
/// nanosecond is cut off.
pub open spec fn decimal_nanos(mantissa: nat, exponent: int) -> nat {
    if exponent >= -9 {
        mantissa * pow10((exponent + 9) as nat)
    } else {
        mantissa / pow10((-(exponent + 9)) as nat)
    }
}

/// The length of time that a JSON number of seconds stands for: `None` for a
/// negative number and for one of more nanoseconds than a `u64` holds.
pub open spec fn spec_span_of_seconds(n: JsonNumber) -> Option<TimeSpan> {
    if n.positive && decimal_nanos(n.mantissa as nat, n.exponent as int) <= u64::MAX {
        Some(TimeSpan { nanos: decimal_nanos(n.mantissa as nat, n.exponent as int) as u64 })
    } else {
        None
    }
}

/// The length of so many milliseconds, and the longest length there is where
/// that many do not fit.
pub open spec fn spec_from_millis(millis: u64) -> TimeSpan {
    if millis * NANOS_PER_MILLI <= u64::MAX {
        TimeSpan { nanos: (millis * NANOS_PER_MILLI) as u64 }
    } else {
        TimeSpan { nanos: u64::MAX }
    }
}

/// A power of ten is at least one.
proof fn lemma_pow10_positive(n: nat)
    ensures
        pow10(n) >= 1,
    decreases n,
{
    if n > 0 {
        lemma_pow10_positive((n - 1) as nat);
    }
}

/// A higher power of ten is no smaller.
proof fn lemma_pow10_monotone(a: nat, b: nat)
    requires
        a <= b,
    ensures
        pow10(a) <= pow10(b),
    decreases b,
{
    if a < b {
        lemma_pow10_monotone(a, (b - 1) as nat);
        lemma_pow10_positive((b - 1) as nat);
    }
}

/// What is too large at one power of ten is too large at every higher one.
proof fn lemma_scaled_overflow(m: nat, i: nat, k: nat)
    requires
        i < k,
        m * pow10(i) * 10 > u64::MAX,
    ensures
        m * pow10(k) > u64::MAX,
{
    lemma_pow10_monotone(i + 1, k);
    assert(pow10(i + 1) == 10 * pow10(i));
    assert(m * pow10(i) * 10 == m * pow10(i + 1)) by (nonlinear_arith)
        requires
            pow10(i + 1) == 10 * pow10(i),
    ;
    assert(m * pow10(i + 1) <= m * pow10(k)) by (nonlinear_arith)
        requires
            pow10(i + 1) <= pow10(k),
    ;
}

impl TimeSpan {
    /// The length in seconds, rounded to the nearest whole second; half a
    /// second rounds up.
    pub open spec fn spec_whole_seconds(&self) -> nat {
        ((self.nanos + 500_000_000) / 1_000_000_000) as nat
    }

    /// The length in seconds, rounded to the nearest whole second.
    pub fn whole_seconds(&self) -> (secs: u64)
        ensures
            secs == self.spec_whole_seconds(),
    {
        let whole: u64 = self.nanos / NANOS_PER_SECOND;
        let rest: u64 = self.nanos % NANOS_PER_SECOND;
        if rest >= 500_000_000 {
            whole + 1
        } else {
            whole
        }
    }

    /// The length of so many milliseconds.
    pub fn from_millis(millis: u64) -> (span: TimeSpan)
        ensures
            span == spec_from_millis(millis),
    {
        if millis <= u64::MAX / NANOS_PER_MILLI {
            TimeSpan { nanos: millis * NANOS_PER_MILLI }
        } else {
            TimeSpan { nanos: u64::MAX }
        }
    }

    /// Reads a JSON number as a number of seconds.
    pub fn from_decimal_seconds(n: &JsonNumber) -> (r: Option<TimeSpan>)
        ensures
            r == spec_span_of_seconds(*n),
    {
        if !n.positive {
            return None;
        }
        let shift: i32 = n.exponent as i32 + 9;
        let mut value: u64 = n.mantissa;
        let mut done: i32 = 0;
        assert(pow10(0) == 1);
        if shift >= 0 {
            assert(value == n.mantissa * pow10(0)) by (nonlinear_arith)
                requires
                    value == n.mantissa,
                    pow10(0) == 1,
            ;
            while done < shift
                invariant
                    0 <= done <= shift,
                    shift == n.exponent + 9,
                    value == n.mantissa * pow10(done as nat),
                decreases shift - done,
            {
                if value > u64::MAX / 10 {
                    proof {
                        lemma_scaled_overflow(n.mantissa as nat, done as nat, shift as nat);
                    }
                    return None;
                }
                assert(n.mantissa * pow10((done + 1) as nat) == value * 10) by (nonlinear_arith)
                    requires
                        value == n.mantissa * pow10(done as nat),
                        pow10((done + 1) as nat) == 10 * pow10(done as nat),
                ;
                value = value * 10;
                done = done + 1;
            }
            Some(TimeSpan { nanos: value })
        } else {
            let steps: i32 = -shift;
            assert(value == n.mantissa as nat / pow10(0)) by (nonlinear_arith)
                requires
                    value == n.mantissa,
                    pow10(0) == 1,
            ;
            while done < steps
                invariant
                    0 <= done <= steps,
                    steps == -(n.exponent + 9),
                    value == n.mantissa as nat / pow10(done as nat),
                decreases steps - done,
            {
                proof {
                    lemma_pow10_positive(done as nat);
                    lemma_div_denominator(n.mantissa as int, pow10(done as nat) as int, 10);
                    assert(pow10((done + 1) as nat) == pow10(done as nat) * 10);
                }
                value = value / 10;
                done = done + 1;
            }
            Some(TimeSpan { nanos: value })
        }
    }
}

} // verus!
