//! Summaries of series of readings.
//!
//! Readings are percentages in thousandths of a percent, as in the
//! snapshots.

use vstd::prelude::*;
use crate::config::UNIT;

verus! {

/// The direction in which a series of readings moves.
#[derive(Debug, Clone, Copy, PartialEq, Eq, Structural)]
pub enum Trend {
    Rising,
    Falling,
    Stable,
}

/// The difference between the means of the two halves of a series beyond
/// which the series counts as moving: five percent.
pub const TREND_THRESHOLD: i64 = 5 * UNIT;

/// The sum of `readings`.
pub open spec fn total(readings: Seq<i64>) -> int
    decreases readings.len(),
{
    if readings.len() == 0 {
        0
    } else {
        total(readings.drop_last()) + readings.last()
    }
}

/// `a` divided by the positive `b`, rounded towards zero.
pub open spec fn quotient(a: int, b: int) -> int {
    if a >= 0 {
        a / b
    } else {
        -((-a) / b)
    }
}

/// The mean of `readings`, rounded towards zero; zero for no readings.
pub open spec fn mean(readings: Seq<i64>) -> int {
    if readings.len() == 0 {
        0
    } else {
        quotient(total(readings), readings.len() as int)
    }
}

/// The trend of `readings`: that of the mean of the second half against
/// the mean of the first. With an odd number of readings the second half
/// is the longer one. Fewer than two readings are stable.
pub open spec fn trend(readings: Seq<i64>) -> Trend {
    if readings.len() < 2 {
        Trend::Stable
    } else {
        let mid = readings.len() as int / 2;
        let first = mean(readings.subrange(0, mid));
        let second = mean(readings.subrange(mid, readings.len() as int));
        if second - first > TREND_THRESHOLD {
            Trend::Rising
        } else if second - first < -TREND_THRESHOLD {
            Trend::Falling
        } else {
            Trend::Stable
        }
    }
}

proof fn lemma_total_bounds(readings: Seq<i64>)
    ensures
        -0x8000_0000_0000_0000 * readings.len() <= total(readings) <= 0x7fff_ffff_ffff_ffff
            * readings.len(),
    decreases readings.len(),
{
    if readings.len() > 0 {
        lemma_total_bounds(readings.drop_last());
    }
}

proof fn lemma_quotient_bounds(a: int, n: int)
    requires
        n > 0,
        -0x8000_0000_0000_0000 * n <= a <= 0x7fff_ffff_ffff_ffff * n,
    ensures
        -0x8000_0000_0000_0000 <= quotient(a, n) <= 0x7fff_ffff_ffff_ffff,
{
    if a >= 0 {
        assert(a / n <= 0x7fff_ffff_ffff_ffff) by (nonlinear_arith)
            requires
                n > 0,
                0 <= a <= 0x7fff_ffff_ffff_ffff * n,
        ;
        assert(a / n >= 0) by (nonlinear_arith)
            requires
                n > 0,
                0 <= a,
        ;
    } else {
        let b = -a;
        assert(b / n <= 0x8000_0000_0000_0000) by (nonlinear_arith)
            requires
                n > 0,
                0 <= b <= 0x8000_0000_0000_0000 * n,
        ;
        assert(b / n >= 0) by (nonlinear_arith)
            requires
                n > 0,
                0 <= b,
        ;
    }
}

/// The mean of the readings from index `from` up to `to`.
fn mean_of(readings: &Vec<i64>, from: usize, to: usize) -> (m: i64)
    requires
        from <= to <= readings.len(),
    ensures
        m == mean(readings@.subrange(from as int, to as int)),
{
    let ghost part = readings@.subrange(from as int, to as int);
    if from == to {
        return 0;
    }
    let mut sum: i128 = 0;
    let mut i: usize = from;
    proof {
        assert(part.take(0) =~= Seq::<i64>::empty());
    }
    while i < to
        invariant
            from <= i <= to <= readings.len(),
            part == readings@.subrange(from as int, to as int),
            sum == total(part.take(i - from)),
        decreases to - i,
    {
        proof {
            let next = part.take(i - from + 1);
            assert(next.drop_last() =~= part.take(i - from));
            assert(next.last() == readings@[i as int]);
            lemma_total_bounds(part.take(i - from));
            lemma_total_bounds(next);
        }
        sum = sum + readings[i] as i128;
        i += 1;
    }
    proof {
        assert(part.take(to - from) =~= part);
        lemma_total_bounds(part);
        lemma_quotient_bounds(sum as int, (to - from) as int);
    }
    let n: i128 = (to - from) as i128;
    if sum >= 0 {
        (sum / n) as i64
    } else {
        (-((-sum) / n)) as i64
    }
}

/// The mean of a series of CPU readings, rounded towards zero; zero for
/// an empty series.
pub fn average_cpu_percent(readings: Vec<i64>) -> (average: i64)
    ensures
        average == mean(readings@),
{
    assert(readings@.subrange(0, readings@.len() as int) =~= readings@);
    mean_of(&readings, 0, readings.len())
}

/// The mean of a series of memory readings, rounded towards zero; zero
/// for an empty series.
pub fn average_memory_percent(readings: Vec<i64>) -> (average: i64)
    ensures
        average == mean(readings@),
{
    assert(readings@.subrange(0, readings@.len() as int) =~= readings@);
    mean_of(&readings, 0, readings.len())
}

/// Tells whether a series of readings rises, falls or stays, by the means
/// of its two halves.
pub fn detect_trend(readings: Vec<i64>) -> (direction: Trend)
    ensures
        direction == trend(readings@),
{
    if readings.len() < 2 {
        return Trend::Stable;
    }
    let mid: usize = readings.len() / 2;
    let first: i128 = mean_of(&readings, 0, mid) as i128;
    let second: i128 = mean_of(&readings, mid, readings.len()) as i128;
    let diff: i128 = second - first;
    if diff > TREND_THRESHOLD as i128 {
        Trend::Rising
    } else if diff < -(TREND_THRESHOLD as i128) {
        Trend::Falling
    } else {
        Trend::Stable
    }
}

/// The seconds until the machine is expected to overheat: a fixed
/// estimate of five minutes.
pub fn estimate_time_to_overheat() -> (seconds: u64)
    ensures
        seconds == 300,
{
    300
}

} // verus!
