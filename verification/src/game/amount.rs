use vstd::prelude::*;

verus! {

/// One cookie, in the unit in which the game holds every cookie amount
/// (micro-cookies).
pub const COOKIE: u128 = 1_000_000;

/// `x`, or `u128::MAX` where `x` is beyond it.
pub open spec fn saturate(x: int) -> u128 {
    if x > u128::MAX {
        u128::MAX
    } else {
        x as u128
    }
}

pub(crate) proof fn lemma_saturate_add(a: int, b: int)
    requires
        a >= 0,
        b >= 0,
    ensures
        saturate(saturate(a) + b) == saturate(a + b),
{
}

pub(crate) proof fn lemma_saturate_mul(a: int, b: int)
    requires
        a >= 0,
        b >= 0,
    ensures
        saturate(saturate(a) * b) == saturate(a * b),
        saturate(a * saturate(b)) == saturate(a * b),
        saturate(saturate(a) * saturate(b)) == saturate(a * b),
{
    assert(a > u128::MAX && b >= 1 ==> a * b >= a) by (nonlinear_arith);
    assert(b > u128::MAX && a >= 1 ==> a * b >= b) by (nonlinear_arith);
    assert(b >= 1 ==> u128::MAX * b >= u128::MAX) by (nonlinear_arith);
    assert(a >= 1 ==> a * u128::MAX >= u128::MAX) by (nonlinear_arith);
    assert(a >= 0 && b >= 0 ==> a * b >= 0) by (nonlinear_arith);
    assert(a >= 1 && b >= 1 ==> u128::MAX * u128::MAX >= u128::MAX) by (nonlinear_arith);
    if a > u128::MAX && b > u128::MAX {
        assert(a * b >= a) by (nonlinear_arith)
            requires b >= 1, a >= 0;
    }
}

pub(crate) proof fn lemma_mul_one(a: int, b: int)
    ensures
        b == 1 ==> a * b == a,
{
}

/// `a * b`, or `u128::MAX` where the product is beyond it.
pub(crate) fn saturating_mul(a: u128, b: u128) -> (r: u128)
    ensures
        r == saturate(a * b),
{
    match a.checked_mul(b) {
        Some(p) => p,
        None => u128::MAX,
    }
}

/// `x * pct / 100` rounded down, or `u128::MAX` where it is beyond it.
pub(crate) fn scale_percent(x: u128, pct: u128) -> (r: u128)
    ensures
        r == saturate(x * pct / 100),
{
    let q = x / 100;
    let m = x % 100;
    let pq = pct / 100;
    let pm = pct % 100;
    proof {
        assert(x * pct / 100 == q * pct + (m * pct) / 100) by (nonlinear_arith)
            requires q == x / 100, m == x % 100, pct >= 0, x >= 0;
        assert(m * pct / 100 == m * pq + (m * pm) / 100) by (nonlinear_arith)
            requires pq == pct / 100, pm == pct % 100, pct >= 0, 0 <= m < 100;
        assert(m * pq <= 99 * pq) by (nonlinear_arith)
            requires 0 <= m < 100, pq >= 0;
        assert(m * pm < 10000) by (nonlinear_arith)
            requires 0 <= m < 100, 0 <= pm < 100;
        assert(m * pct / 100 >= 0) by (nonlinear_arith)
            requires 0 <= m, pct >= 0;
        lemma_saturate_mul(q as int, pct as int);
        lemma_saturate_add(q * pct, m * pct / 100);
    }
    let low = m * pq + (m * pm) / 100;
    saturating_mul(q, pct).saturating_add(low)
}

} // verus!
