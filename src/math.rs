use vstd::prelude::*;

use crate::constants::BPS_DENOMINATOR;
use crate::error::GridError;

verus! {

/// `x` can be held in a `u64`.
pub open spec fn fits_u64(x: int) -> bool {
    0 <= x <= u64::MAX
}

/// The value `x` as a `u64`, or `MathOverflow` where it does not fit.
pub open spec fn checked(x: int) -> Result<u64, GridError> {
    if fits_u64(x) {
        Ok(x as u64)
    } else {
        Err(GridError::MathOverflow)
    }
}

/// `a * b / denom`, rounded down, or `MathOverflow` for a zero denominator or a
/// result beyond `u64`.
pub open spec fn spec_mul_div(a: int, b: int, denom: int) -> Result<u64, GridError> {
    if denom == 0 {
        Err(GridError::MathOverflow)
    } else {
        checked(a * b / denom)
    }
}

/// The fee at `fee_bps` basis points on `amount`, rounded down.
pub open spec fn spec_fee(amount: int, fee_bps: int) -> Result<u64, GridError> {
    checked(amount * fee_bps / BPS_DENOMINATOR as int)
}

/// The sum of a sequence of amounts.
pub open spec fn total(s: Seq<u64>) -> int
    decreases s.len(),
{
    if s.len() == 0 {
        0
    } else {
        total(s.drop_last()) + s.last()
    }
}

pub proof fn lemma_total_nonneg(s: Seq<u64>)
    ensures
        total(s) >= 0,
    decreases s.len(),
{
    if s.len() > 0 {
        lemma_total_nonneg(s.drop_last());
    }
}

/// Extending a prefix by one element adds that element to the sum.
pub proof fn lemma_total_take(s: Seq<u64>, i: int)
    requires
        0 <= i < s.len(),
    ensures
        total(s.take(i + 1)) == total(s.take(i)) + s[i],
{
    assert(s.take(i + 1).drop_last() =~= s.take(i));
}

/// Replacing one element changes the sum by the difference.
pub proof fn lemma_total_update(s: Seq<u64>, i: int, v: u64)
    requires
        0 <= i < s.len(),
    ensures
        total(s.update(i, v)) == total(s) - s[i] + v,
    decreases s.len(),
{
    if i == s.len() - 1 {
        assert(s.update(i, v).drop_last() =~= s.drop_last());
    } else {
        assert(s.update(i, v).drop_last() =~= s.drop_last().update(i, v));
        lemma_total_update(s.drop_last(), i, v);
    }
}

/// A sequence of zeros sums to zero.
pub proof fn lemma_total_zeros(s: Seq<u64>)
    requires
        forall|i: int| 0 <= i < s.len() ==> s[i] == 0,
    ensures
        total(s) == 0,
    decreases s.len(),
{
    if s.len() > 0 {
        lemma_total_zeros(s.drop_last());
    }
}

/// Narrows a 128-bit intermediate to `u64`.
pub fn u128_to_u64(v: u128) -> (r: Result<u64, GridError>)
    ensures
        r == checked(v as int),
{
    if v > u64::MAX as u128 {
        Err(GridError::MathOverflow)
    } else {
        Ok(v as u64)
    }
}

/// `a * b / denom` with a 128-bit intermediate.
pub fn mul_div_u64(a: u64, b: u64, denom: u64) -> (r: Result<u64, GridError>)
    ensures
        r == spec_mul_div(a as int, b as int, denom as int),
{
    if denom == 0 {
        return Err(GridError::MathOverflow);
    }
    assert((a as int) * (b as int) <= (u64::MAX as int) * (u64::MAX as int)) by (nonlinear_arith);
    let n = (a as u128) * (b as u128);
    let q = n / (denom as u128);
    u128_to_u64(q)
}

/// The taker fee on `amount` at `fee_bps` basis points, rounded down.
pub fn calc_fee_u64(amount: u64, fee_bps: u16) -> (r: Result<u64, GridError>)
    ensures
        r == spec_fee(amount as int, fee_bps as int),
{
    assert((amount as int) * (fee_bps as int) <= (u64::MAX as int) * (u16::MAX as int))
        by (nonlinear_arith);
    let n = (amount as u128) * (fee_bps as u128);
    let q = n / (BPS_DENOMINATOR as u128);
    u128_to_u64(q)
}

/// The sum of `values`, or `MathOverflow` where it does not fit.
pub fn sum_u64_slice(values: &[u64]) -> (r: Result<u64, GridError>)
    ensures
        r == checked(total(values@)),
{
    let mut acc: u64 = 0;
    let mut i: usize = 0;
    while i < values.len()
        invariant
            i <= values@.len(),
            acc == total(values@.take(i as int)),
        decreases values@.len() - i,
    {
        proof {
            lemma_total_take(values@, i as int);
        }
        let x = values[i];
        if acc > u64::MAX - x {
            proof {
                lemma_total_monotone_prefix(values@, i as int + 1);
            }
            return Err(GridError::MathOverflow);
        }
        acc = acc + x;
        i = i + 1;
    }
    assert(values@.take(i as int) =~= values@);
    Ok(acc)
}

/// A prefix never sums to more than the whole sequence.
pub proof fn lemma_total_monotone_prefix(s: Seq<u64>, i: int)
    requires
        0 <= i <= s.len(),
    ensures
        total(s.take(i)) <= total(s),
    decreases s.len() - i,
{
    if i < s.len() {
        lemma_total_take(s, i);
        lemma_total_monotone_prefix(s, i + 1);
    } else {
        assert(s.take(i) =~= s);
    }
}

} // verus!
