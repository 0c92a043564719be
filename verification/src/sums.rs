//! Sums over optional counters.
//!
//! A counter that a report omits is skipped by the sum, and a sum to which
//! nothing contributed is itself absent, so that "no data" stays
//! distinguishable from "zero". The executable sum accumulates in `i128`,
//! which cannot overflow for any sequence that fits in memory, and reports
//! separately whether the mathematical result fits the stored `i64` column.

use vstd::prelude::*;
use vstd::arithmetic::mul::lemma_mul_inequality;

verus! {

/// An optional machine integer as an optional mathematical integer.
pub open spec fn oi(v: Option<i64>) -> Option<int> {
    match v {
        Some(x) => Some(x as int),
        None => None,
    }
}

/// Addition that skips absent values; absent only when both sides are.
pub open spec fn opt_add(a: Option<int>, b: Option<int>) -> Option<int> {
    match (a, b) {
        (Some(x), Some(y)) => Some(x + y),
        (Some(x), None) => Some(x),
        (None, Some(y)) => Some(y),
        (None, None) => None,
    }
}

/// The sum of a sequence of optional values under `opt_add`: absent values
/// are skipped, and the sum is absent when every value is.
pub open spec fn sum_opt(vals: Seq<Option<i64>>) -> Option<int>
    decreases vals.len(),
{
    if vals.len() == 0 {
        None
    } else {
        opt_add(sum_opt(vals.drop_last()), oi(vals.last()))
    }
}

/// Whether a mathematical sum can be stored in an `i64` field.
pub open spec fn fits_i64(v: int) -> bool {
    i64::MIN <= v <= i64::MAX
}

/// Whether an optional sum can be stored in an `Option<i64>` field.
pub open spec fn opt_fits_i64(v: Option<int>) -> bool {
    match v {
        Some(x) => fits_i64(x),
        None => true,
    }
}

/// An optional mathematical sum stored back into a machine field. Only
/// meaningful when `opt_fits_i64` holds of the argument.
pub open spec fn stored(v: Option<int>) -> Option<i64> {
    match v {
        Some(x) => Some(x as i64),
        None => None,
    }
}

/// Outcome of an executable sum: either the stored value, or a report that
/// the mathematical sum does not fit the `i64` column.
#[derive(Clone, Copy, Debug, PartialEq, Eq)]
pub enum SumOutcome {
    Sum(Option<i64>),
    Overflow,
}

/// Sums a vector of optional values, skipping absent ones.
///
/// Returns `Overflow` exactly when the mathematical sum falls outside the
/// `i64` range; otherwise the returned value is that sum (absent when every
/// input was absent).
pub fn sum_values(vals: &Vec<Option<i64>>) -> (r: SumOutcome)
    ensures
        (r == SumOutcome::Overflow) == !opt_fits_i64(sum_opt(vals@)),
        r != SumOutcome::Overflow ==> r == SumOutcome::Sum(stored(sum_opt(vals@))),
{
    let mut acc: i128 = 0;
    let mut have: bool = false;
    let mut i: usize = 0;
    while i < vals.len()
        invariant
            0 <= i <= vals@.len(),
            have == (sum_opt(vals@.take(i as int)) matches Some(_)),
            have ==> sum_opt(vals@.take(i as int)) == Some(acc as int),
            !have ==> acc == 0,
            -(i as int) * 0x8000_0000_0000_0000 <= acc as int,
            acc as int <= (i as int) * 0x8000_0000_0000_0000,
        decreases vals@.len() - i,
    {
        let ghost prefix = vals@.take(i as int);
        let ghost next = vals@.take(i as int + 1);
        proof {
            assert(next.drop_last() =~= prefix);
            assert(next.last() == vals@[i as int]);
            assert((i as int) * 0x8000_0000_0000_0000 + 0x8000_0000_0000_0000 == (i as int + 1)
                * 0x8000_0000_0000_0000) by (nonlinear_arith);
            lemma_mul_inequality(i as int + 1, u64::MAX as int, 0x8000_0000_0000_0000);
        }
        match vals[i] {
            Some(x) => {
                acc = acc + x as i128;
                have = true;
            },
            None => {},
        }
        i = i + 1;
    }
    proof {
        assert(vals@.take(vals@.len() as int) =~= vals@);
    }
    if !have {
        SumOutcome::Sum(None)
    } else if acc > i64::MAX as i128 || acc < i64::MIN as i128 {
        SumOutcome::Overflow
    } else {
        SumOutcome::Sum(Some(acc as i64))
    }
}

} // verus!
