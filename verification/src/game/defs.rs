use vstd::prelude::*;

use crate::game::amount::saturate;

verus! {

/// A kind of building: a passive producer of cookies.
pub struct BuildingDef {
    pub id: &'static str,
    pub name: &'static str,
    pub icon: &'static str,
    /// Cost of the first unit, in micro-cookies.
    pub base_cost: u128,
    /// Production of one unit, in micro-cookies per second.
    pub base_cps: u128,
    pub description: &'static str,
}

/// `b` to the power `n`.
pub open spec fn power(b: int, n: nat) -> int
    decreases n,
{
    if n == 0 {
        1
    } else {
        b * power(b, (n - 1) as nat)
    }
}

/// Cost of the next unit of a building whose first unit costs `base`, once
/// `owned` units are owned: `base` times 1.15 to the power `owned`, that is
/// `base · 23ⁿ / 20ⁿ`, rounded up to a whole micro-cookie.
pub open spec fn cost_after(base: int, owned: nat) -> int {
    let d = power(20, owned);
    (base * power(23, owned) + d - 1) / d
}

proof fn lemma_power_add(b: int, m: nat, n: nat)
    ensures
        power(b, m + n) == power(b, m) * power(b, n),
    decreases n,
{
    if n > 0 {
        lemma_power_add(b, m, (n - 1) as nat);
        assert(power(b, m + n) == b * power(b, (m + n - 1) as nat));
        assert(b * (power(b, m) * power(b, (n - 1) as nat)) == power(b, m) * (b * power(b, (n - 1) as nat)))
            by (nonlinear_arith);
    }
}

proof fn lemma_power_grows(n: nat)
    ensures
        1 <= power(20, n) <= power(23, n),
    decreases n,
{
    if n > 0 {
        lemma_power_grows((n - 1) as nat);
        let a = power(20, (n - 1) as nat);
        let b = power(23, (n - 1) as nat);
        assert(20 * a <= 23 * b) by (nonlinear_arith)
            requires 1 <= a <= b;
    }
}

proof fn lemma_power_monotone(m: nat, n: nat)
    requires
        m <= n,
    ensures
        power(20, m) <= power(20, n),
{
    lemma_power_add(20, m, (n - m) as nat);
    lemma_power_grows(m);
    lemma_power_grows((n - m) as nat);
    let a = power(20, m);
    let b = power(20, (n - m) as nat);
    assert(a <= a * b) by (nonlinear_arith)
        requires a >= 1, b >= 1;
}

/// The cost is `base · 1.15ⁿ` rounded up once: the least whole micro-cookie
/// amount that is not below it, so an amount in hand covers the cost exactly
/// when it covers `base · 1.15ⁿ`.
pub proof fn lemma_cost_is_rounded_up(base: int, owned: nat)
    requires
        base >= 0,
    ensures
        cost_after(base, owned) * power(20, owned) >= base * power(23, owned),
        (cost_after(base, owned) - 1) * power(20, owned) < base * power(23, owned),
        cost_after(base, owned) >= 0,
{
    let d = power(20, owned);
    let x = base * power(23, owned);
    lemma_power_grows(owned);
    assert(x >= 0) by (nonlinear_arith)
        requires base >= 0, power(23, owned) >= 1, x == base * power(23, owned);
    let c = (x + d - 1) / d;
    assert(c * d <= x + d - 1 && x + d - 1 < c * d + d) by (nonlinear_arith)
        requires d >= 1, x >= 0, c == (x + d - 1) / d;
    assert(c >= 0) by (nonlinear_arith)
        requires d >= 1, x >= 0, c == (x + d - 1) / d;
    assert((c - 1) * d == c * d - d) by (nonlinear_arith);
}

/// The cost of a building never decreases as more units are owned.
pub proof fn lemma_cost_monotone(base: int, i: nat, j: nat)
    requires
        base >= 0,
        i <= j,
    ensures
        cost_after(base, i) <= cost_after(base, j),
{
    lemma_cost_is_rounded_up(base, i);
    lemma_cost_is_rounded_up(base, j);
    let m = (j - i) as nat;
    lemma_power_add(20, i, m);
    lemma_power_add(23, i, m);
    lemma_power_grows(i);
    lemma_power_grows(m);
    let ci = cost_after(base, i);
    let cj = cost_after(base, j);
    let a20 = power(20, i);
    let a23 = power(23, i);
    let b20 = power(20, m);
    let b23 = power(23, m);
    assert(power(20, j) == a20 * b20);
    assert(power(23, j) == a23 * b23);
    assert(ci <= cj) by (nonlinear_arith)
        requires
            cj * (a20 * b20) >= base * (a23 * b23),
            (ci - 1) * a20 < base * a23,
            1 <= b20 <= b23,
            a20 >= 1,
            base >= 0,
            a23 >= 1,
    ;
}

proof fn lemma_cost_of_nothing(owned: nat)
    ensures
        cost_after(0, owned) == 0,
{
    lemma_cost_is_rounded_up(0, owned);
    lemma_power_grows(owned);
    let d = power(20, owned);
    let c = cost_after(0, owned);
    assert(c <= 0) by (nonlinear_arith)
        requires (c - 1) * d < 0 * power(23, owned), d >= 1;
}

proof fn lemma_forty_powers()
    ensures
        power(23, 40) >= 256 * power(20, 40),
{
    assert(power(23, 0) == 1);
    assert(power(23, 1) == 23);
    assert(power(23, 2) == 529);
    assert(power(23, 3) == 12167);
    assert(power(23, 4) == 279841);
    assert(power(23, 5) == 6436343);
    assert(power(23, 6) == 148035889);
    assert(power(23, 7) == 3404825447);
    assert(power(23, 8) == 78310985281);
    assert(power(23, 9) == 1801152661463);
    assert(power(23, 10) == 41426511213649);
    assert(power(23, 11) == 952809757913927);
    assert(power(23, 12) == 21914624432020321);
    assert(power(23, 13) == 504036361936467383);
    assert(power(23, 14) == 11592836324538749809);
    assert(power(23, 15) == 266635235464391245607);
    assert(power(23, 16) == 6132610415680998648961);
    assert(power(23, 17) == 141050039560662968926103);
    assert(power(23, 18) == 3244150909895248285300369);
    assert(power(23, 19) == 74615470927590710561908487);
    assert(power(23, 20) == 1716155831334586342923895201);
    assert(power(23, 21) == 39471584120695485887249589623);
    assert(power(23, 22) == 907846434775996175406740561329);
    assert(power(23, 23) == 20880467999847912034355032910567);
    assert(power(23, 24) == 480250763996501976790165756943041);
    assert(power(23, 25) == 11045767571919545466173812409689943);
    assert(power(23, 26) == 254052654154149545721997685422868689);
    assert(power(23, 27) == 5843211045545439551605946764725979847);
    assert(power(23, 28) == 134393854047545109686936775588697536481);
    assert(power(23, 29) == 3091058643093537522799545838540043339063);
    assert(power(23, 30) == 71094348791151363024389554286420996798449);
    assert(power(23, 31) == 1635170022196481349560959748587682926364327);
    assert(power(23, 32) == 37608910510519071039902074217516707306379521);
    assert(power(23, 33) == 865004941741938633917747707002884268046728983);
    assert(power(23, 34) == 19895113660064588580108197261066338165074766609);
    assert(power(23, 35) == 457587614181485537342488537004525777796719632007);
    assert(power(23, 36) == 10524515126174167358877236351104092889324551536161);
    assert(power(23, 37) == 242063847902005849254176436075394136454464685331703);
    assert(power(23, 38) == 5567468501746134532846058029734065138452687762629169);
    assert(power(23, 39) == 128051775540161094255459334683883498184411818540470887);
    assert(power(23, 40) == 2945190837423705167875564697729320458241471826430830401);
    assert(power(20, 0) == 1);
    assert(power(20, 1) == 20);
    assert(power(20, 2) == 400);
    assert(power(20, 3) == 8000);
    assert(power(20, 4) == 160000);
    assert(power(20, 5) == 3200000);
    assert(power(20, 6) == 64000000);
    assert(power(20, 7) == 1280000000);
    assert(power(20, 8) == 25600000000);
    assert(power(20, 9) == 512000000000);
    assert(power(20, 10) == 10240000000000);
    assert(power(20, 11) == 204800000000000);
    assert(power(20, 12) == 4096000000000000);
    assert(power(20, 13) == 81920000000000000);
    assert(power(20, 14) == 1638400000000000000);
    assert(power(20, 15) == 32768000000000000000);
    assert(power(20, 16) == 655360000000000000000);
    assert(power(20, 17) == 13107200000000000000000);
    assert(power(20, 18) == 262144000000000000000000);
    assert(power(20, 19) == 5242880000000000000000000);
    assert(power(20, 20) == 104857600000000000000000000);
    assert(power(20, 21) == 2097152000000000000000000000);
    assert(power(20, 22) == 41943040000000000000000000000);
    assert(power(20, 23) == 838860800000000000000000000000);
    assert(power(20, 24) == 16777216000000000000000000000000);
    assert(power(20, 25) == 335544320000000000000000000000000);
    assert(power(20, 26) == 6710886400000000000000000000000000);
    assert(power(20, 27) == 134217728000000000000000000000000000);
    assert(power(20, 28) == 2684354560000000000000000000000000000);
    assert(power(20, 29) == 53687091200000000000000000000000000000);
    assert(power(20, 30) == 1073741824000000000000000000000000000000);
    assert(power(20, 31) == 21474836480000000000000000000000000000000);
    assert(power(20, 32) == 429496729600000000000000000000000000000000);
    assert(power(20, 33) == 8589934592000000000000000000000000000000000);
    assert(power(20, 34) == 171798691840000000000000000000000000000000000);
    assert(power(20, 35) == 3435973836800000000000000000000000000000000000);
    assert(power(20, 36) == 68719476736000000000000000000000000000000000000);
    assert(power(20, 37) == 1374389534720000000000000000000000000000000000000);
    assert(power(20, 38) == 27487790694400000000000000000000000000000000000000);
    assert(power(20, 39) == 549755813888000000000000000000000000000000000000000);
    assert(power(20, 40) == 10995116277760000000000000000000000000000000000000000);
}

proof fn lemma_forty_steps(k: nat)
    ensures
        power(23, 40 * k) >= power(256, k) * power(20, 40 * k),
    decreases k,
{
    if k > 0 {
        let j = (k - 1) as nat;
        lemma_forty_steps(j);
        lemma_power_256_positive(j);
        lemma_power_add(23, 40 * j, 40);
        lemma_power_add(20, 40 * j, 40);
        assert(40 * k == 40 * j + 40);
        lemma_forty_powers();
        let a = power(23, 40 * j);
        let b = power(256, j);
        let c = power(20, 40 * j);
        lemma_power_grows(40 * j);
        lemma_power_grows(40);
        assert(a * power(23, 40) >= (256 * b) * (c * power(20, 40))) by (nonlinear_arith)
            requires
                a >= b * c,
                power(23, 40) >= 256 * power(20, 40),
                b >= 0,
                c >= 1,
                power(20, 40) >= 1,
        ;
    }
}

proof fn lemma_power_256_positive(k: nat)
    ensures
        power(256, k) >= 1,
    decreases k,
{
    if k > 0 {
        lemma_power_256_positive((k - 1) as nat);
    }
}

/// From 640 units on, the cost of any building that costs something is
/// beyond the largest amount that can be held.
proof fn lemma_cost_out_of_range(base: int, owned: nat)
    requires
        base >= 1,
        owned >= 640,
    ensures
        cost_after(base, owned) > u128::MAX,
{
    lemma_forty_steps(16);
    lemma_power_256_positive(16);
    reveal_with_fuel(power, 17);
    assert(power(256, 16) == u128::MAX + 1);
    let m = (owned - 640) as nat;
    lemma_power_add(23, 640, m);
    lemma_power_add(20, 640, m);
    lemma_power_grows(m);
    lemma_power_grows(640);
    lemma_power_grows(owned);
    let d = power(20, owned);
    let x = base * power(23, owned);
    let big = u128::MAX + 1;
    assert(x >= big * d) by (nonlinear_arith)
        requires
            power(23, 640) >= big * power(20, 640),
            power(23, owned) == power(23, 640) * power(23, m),
            d == power(20, 640) * power(20, m),
            1 <= power(20, m) <= power(23, m),
            power(20, 640) >= 1,
            base >= 1,
            x == base * power(23, owned),
            big >= 1,
    ;
    lemma_cost_is_rounded_up(base, owned);
    let c = cost_after(base, owned);
    assert(c >= big) by (nonlinear_arith)
        requires c * d >= x, x >= big * d, d >= 1, (c - 1) * d < x;
}

/// The number written by the base-20 digits `d`, least significant first.
pub open spec fn digits_value(d: Seq<u32>) -> int
    decreases d.len(),
{
    if d.len() == 0 {
        0
    } else {
        d[0] + 20 * digits_value(d.drop_first())
    }
}

/// Whether every entry of `d` is a base-20 digit.
pub open spec fn base20(d: Seq<u32>) -> bool {
    forall|i: int| 0 <= i < d.len() ==> #[trigger] d[i] < 20
}

proof fn lemma_digits_concat(a: Seq<u32>, b: Seq<u32>)
    ensures
        digits_value(a + b) == digits_value(a) + power(20, a.len()) * digits_value(b),
    decreases a.len(),
{
    if a.len() == 0 {
        assert(a + b =~= b);
        assert(digits_value(a) == 0);
        assert(power(20, 0) == 1);
    } else {
        let t = a.drop_first();
        lemma_digits_concat(t, b);
        assert((a + b).drop_first() =~= t + b);
        assert((a + b)[0] == a[0]);
        assert(power(20, a.len()) == 20 * power(20, t.len()));
        let x = digits_value(t);
        let y = digits_value(b);
        let p = power(20, t.len());
        assert(digits_value(a + b) == a[0] + 20 * digits_value(t + b));
        assert(digits_value(a) == a[0] + 20 * x);
        assert(20 * (x + p * y) == 20 * x + (20 * p) * y) by (nonlinear_arith);
    }
}

proof fn lemma_digits_bounds(d: Seq<u32>)
    requires
        base20(d),
    ensures
        0 <= digits_value(d) < power(20, d.len()),
        digits_value(d) == 0 <==> forall|i: int| 0 <= i < d.len() ==> d[i] == 0,
    decreases d.len(),
{
    if d.len() > 0 {
        let t = d.drop_first();
        assert(base20(t)) by {
            assert forall|i: int| 0 <= i < t.len() implies #[trigger] t[i] < 20 by {
                assert(t[i] == d[i + 1]);
            }
        }
        lemma_digits_bounds(t);
        assert(d[0] < 20);
        if digits_value(d) == 0 {
            assert forall|i: int| 0 <= i < d.len() implies d[i] == 0 by {
                if i > 0 {
                    assert(d[i] == t[i - 1]);
                }
            }
        }
        if forall|i: int| 0 <= i < d.len() ==> d[i] == 0 {
            assert(d[0] == 0);
            assert forall|i: int| 0 <= i < t.len() implies t[i] == 0 by {
                assert(t[i] == d[i + 1]);
            }
        }
    }
}

proof fn lemma_digits_push(d: Seq<u32>, x: u32)
    ensures
        digits_value(d.push(x)) == digits_value(d) + power(20, d.len()) * x,
{
    lemma_digits_concat(d, seq![x]);
    assert(d + seq![x] =~= d.push(x));
    assert(seq![x].drop_first() =~= Seq::<u32>::empty());
    assert(digits_value(Seq::<u32>::empty()) == 0);
    assert(seq![x][0] == x);
    assert(digits_value(seq![x]) == x + 20 * digits_value(seq![x].drop_first()));
}

/// `x` in base 20.
fn to_digits(x: u128) -> (d: Vec<u32>)
    ensures
        base20(d@),
        digits_value(d@) == x,
{
    let mut d: Vec<u32> = Vec::new();
    let mut v: u128 = x;
    while v > 0
        invariant
            base20(d@),
            digits_value(d@) + power(20, d@.len()) * v == x,
        decreases v,
    {
        let digit = (v % 20) as u32;
        proof {
            lemma_digits_push(d@, digit);
            let p = power(20, d@.len());
            assert(p * (v % 20) + (20 * p) * (v / 20) == p * v) by (nonlinear_arith)
                requires v == 20 * (v / 20) + v % 20;
        }
        d.push(digit);
        v = v / 20;
    }
    d
}

/// The base-20 digits of 23 times the number that `d` writes.
fn times_23(d: &Vec<u32>) -> (r: Vec<u32>)
    requires
        base20(d@),
    ensures
        base20(r@),
        digits_value(r@) == 23 * digits_value(d@),
{
    let mut r: Vec<u32> = Vec::new();
    let mut carry: u32 = 0;
    let mut i: usize = 0;
    while i < d.len()
        invariant
            base20(d@),
            base20(r@),
            r@.len() == i,
            i <= d@.len(),
            carry < 23,
            digits_value(r@) + power(20, i as nat) * carry == 23 * digits_value(d@.take(i as int)),
        decreases d@.len() - i,
    {
        let t = d[i] * 23 + carry;
        let digit = t % 20;
        proof {
            lemma_digits_push(r@, digit);
            lemma_digits_push(d@.take(i as int), d@[i as int]);
            assert(d@.take(i as int).push(d@[i as int]) =~= d@.take(i + 1));
            let p = power(20, i as nat);
            assert(power(20, (i + 1) as nat) == 20 * p);
            assert(p * (t % 20) + (20 * p) * (t / 20) == p * t) by (nonlinear_arith)
                requires t == 20 * (t / 20) + t % 20;
            assert(p * t == p * (23 * d@[i as int]) + p * carry) by (nonlinear_arith)
                requires t == d@[i as int] * 23 + carry;
            assert(23 * (digits_value(d@.take(i as int)) + p * d@[i as int]) == 23 * digits_value(
                d@.take(i as int),
            ) + p * (23 * d@[i as int])) by (nonlinear_arith);
        }
        r.push(digit);
        carry = t / 20;
        i = i + 1;
    }
    assert(d@.take(d@.len() as int) =~= d@);
    while carry > 0
        invariant
            base20(r@),
            carry < 23,
            digits_value(r@) + power(20, r@.len()) * carry == 23 * digits_value(d@),
        decreases carry,
    {
        let digit = carry % 20;
        proof {
            lemma_digits_push(r@, digit);
            let p = power(20, r@.len());
            assert(p * (carry % 20) + (20 * p) * (carry / 20) == p * carry) by (nonlinear_arith)
                requires carry == 20 * (carry / 20) + carry % 20;
        }
        r.push(digit);
        carry = carry / 20;
    }
    r
}

/// The number written by the digits of `d` from position `n` on, or
/// `u128::MAX` where it is beyond that.
fn high_digits_value(d: &Vec<u32>, n: usize) -> (v: u128)
    requires
        base20(d@),
        n <= d@.len(),
    ensures
        v == saturate(digits_value(d@.skip(n as int))),
{
    let mut v: u128 = 0;
    let mut j: usize = d.len();
    assert(d@.skip(j as int) =~= Seq::<u32>::empty());
    while j > n
        invariant
            base20(d@),
            n <= j <= d@.len(),
            v == saturate(digits_value(d@.skip(j as int))),
            digits_value(d@.skip(j as int)) >= 0,
        decreases j,
    {
        j = j - 1;
        let ghost high = digits_value(d@.skip(j + 1));
        assert(d@.skip(j as int).drop_first() =~= d@.skip(j + 1));
        assert(d@.skip(j as int)[0] == d@[j as int]);
        let digit = d[j] as u128;
        assert(digit < 20);
        if v > (u128::MAX - digit) / 20 {
            assert(20 * high + digit > u128::MAX) by (nonlinear_arith)
                requires
                    v > (u128::MAX - digit) / 20,
                    v == saturate(high),
                    high >= 0,
                    digit < 20,
            ;
            v = u128::MAX;
        } else {
            assert(high <= u128::MAX);
            assert(20 * v + digit <= u128::MAX) by (nonlinear_arith)
                requires v <= (u128::MAX - digit) / 20, digit < 20;
            v = v * 20 + digit;
        }
    }
    v
}

/// Whether any of the first `n` digits of `d` is not zero.
fn any_low_digit(d: &Vec<u32>, n: usize) -> (r: bool)
    requires
        n <= d@.len(),
    ensures
        r == exists|i: int| 0 <= i < n && d@[i] != 0,
{
    let mut i: usize = 0;
    while i < n
        invariant
            i <= n <= d@.len(),
            forall|k: int| 0 <= k < i ==> d@[k] == 0,
        decreases n - i,
    {
        if d[i] != 0 {
            return true;
        }
        i = i + 1;
    }
    false
}

impl BuildingDef {
    /// Cost of the next purchase given `owned` already bought (1.15x
    /// scaling), in micro-cookies.
    pub fn next_cost(&self, owned: u32) -> (c: u128)
        ensures
            c == saturate(cost_after(self.base_cost as int, owned as nat)),
    {
        let base = self.base_cost;
        if base == 0 {
            proof {
                lemma_cost_of_nothing(owned as nat);
            }
            return 0;
        }
        // From there on the cost is beyond what can be held.
        if owned >= 640 {
            proof {
                lemma_cost_out_of_range(base as int, owned as nat);
            }
            return u128::MAX;
        }
        // base · 23ⁿ, exactly, in base 20: its digits from position n on
        // write the quotient by 20ⁿ, and a digit below that is not zero
        // rounds the quotient up.
        let mut d = to_digits(base);
        let mut i: u32 = 0;
        while i < owned
            invariant
                i <= owned,
                base20(d@),
                digits_value(d@) == base * power(23, i as nat),
            decreases owned - i,
        {
            d = times_23(&d);
            proof {
                assert(power(23, (i + 1) as nat) == 23 * power(23, i as nat));
                assert(23 * (base * power(23, i as nat)) == base * (23 * power(23, i as nat)))
                    by (nonlinear_arith);
            }
            i = i + 1;
        }
        let n = owned as usize;
        let ghost x = digits_value(d@);
        let ghost p = power(20, owned as nat);
        proof {
            lemma_digits_bounds(d@);
            lemma_power_grows(owned as nat);
            assert(x >= p) by (nonlinear_arith)
                requires
                    x == base * power(23, owned as nat),
                    base >= 1,
                    power(23, owned as nat) >= p,
                    p >= 1,
            ;
            if d@.len() < n {
                lemma_power_monotone(d@.len(), owned as nat);
            }
        }
        let high = high_digits_value(&d, n);
        let round_up = any_low_digit(&d, n);
        proof {
            let lo = d@.take(n as int);
            let hi = d@.skip(n as int);
            assert(lo + hi =~= d@);
            lemma_digits_concat(lo, hi);
            assert(base20(lo)) by {
                assert forall|k: int| 0 <= k < lo.len() implies #[trigger] lo[k] < 20 by {
                    assert(lo[k] == d@[k]);
                }
            }
            assert(base20(hi)) by {
                assert forall|k: int| 0 <= k < hi.len() implies #[trigger] hi[k] < 20 by {
                    assert(hi[k] == d@[k + n]);
                }
            }
            lemma_digits_bounds(lo);
            lemma_digits_bounds(hi);
            let l = digits_value(lo);
            let h = digits_value(hi);
            assert(round_up == (l != 0)) by {
                if round_up {
                    let k = choose|k: int| 0 <= k < n && d@[k] != 0;
                    assert(lo[k] == d@[k]);
                } else {
                    assert forall|k: int| 0 <= k < lo.len() implies lo[k] == 0 by {
                        assert(lo[k] == d@[k]);
                    }
                }
            }
            let e: int = if l != 0 { 1 } else { 0 };
            assert(x == l + p * h);
            assert((h + e) * p == h * p + e * p) by (nonlinear_arith);
            assert(p * h == h * p) by (nonlinear_arith);
            vstd::arithmetic::div_mod::lemma_fundamental_div_mod_converse(
                x + p - 1,
                p,
                h + e,
                if l != 0 { l - 1 } else { p - 1 },
            );
        }
        if round_up {
            if high == u128::MAX {
                u128::MAX
            } else {
                high + 1
            }
        } else {
            high
        }
    }
}

/// The building kinds, in the order in which the game lists them.
pub open spec fn building_table() -> Seq<BuildingDef> {
    seq![
        BuildingDef {
            id: "cursor",
            name: "Cursor",
            icon: "󰳽",
            base_cost: 15_000_000,
            base_cps: 100_000,
            description: "Autoclicks the big cookie.",
        },
        BuildingDef {
            id: "grandma",
            name: "Grandma",
            icon: "󰜥",
            base_cost: 100_000_000,
            base_cps: 500_000,
            description: "A nice grandma to bake more cookies.",
        },
        BuildingDef {
            id: "farm",
            name: "Farm",
            icon: "󱢲",
            base_cost: 1_100_000_000,
            base_cps: 4_000_000,
            description: "Grows cookie plants from cookie seeds.",
        },
        BuildingDef {
            id: "mine",
            name: "Mine",
            icon: "󱇪",
            base_cost: 12_000_000_000,
            base_cps: 10_000_000,
            description: "Mines out cookie dough and chocolate chips.",
        },
        BuildingDef {
            id: "factory",
            name: "Factory",
            icon: "󱏛",
            base_cost: 130_000_000_000,
            base_cps: 40_000_000,
            description: "Manufactures cookies by the thousands.",
        },
        BuildingDef {
            id: "bank",
            name: "Bank",
            icon: "󰷕",
            base_cost: 1_400_000_000_000,
            base_cps: 100_000_000,
            description: "Generates cookies from compound interest.",
        },
        BuildingDef {
            id: "temple",
            name: "Temple",
            icon: "󰠮",
            base_cost: 20_000_000_000_000,
            base_cps: 400_000_000,
            description: "Worships the ancient cookie gods.",
        },
        BuildingDef {
            id: "wizard_tower",
            name: "Wizard Tower",
            icon: "󱏕",
            base_cost: 330_000_000_000_000,
            base_cps: 6_666_000_000,
            description: "Casts cookies into existence.",
        },
    ]
}

/// All building definitions.
pub fn buildings() -> (r: Vec<BuildingDef>)
    ensures
        r@ == building_table(),
{
    vec![
        BuildingDef {
            id: "cursor",
            name: "Cursor",
            icon: "󰳽",
            base_cost: 15_000_000,
            base_cps: 100_000,
            description: "Autoclicks the big cookie.",
        },
        BuildingDef {
            id: "grandma",
            name: "Grandma",
            icon: "󰜥",
            base_cost: 100_000_000,
            base_cps: 500_000,
            description: "A nice grandma to bake more cookies.",
        },
        BuildingDef {
            id: "farm",
            name: "Farm",
            icon: "󱢲",
            base_cost: 1_100_000_000,
            base_cps: 4_000_000,
            description: "Grows cookie plants from cookie seeds.",
        },
        BuildingDef {
            id: "mine",
            name: "Mine",
            icon: "󱇪",
            base_cost: 12_000_000_000,
            base_cps: 10_000_000,
            description: "Mines out cookie dough and chocolate chips.",
        },
        BuildingDef {
            id: "factory",
            name: "Factory",
            icon: "󱏛",
            base_cost: 130_000_000_000,
            base_cps: 40_000_000,
            description: "Manufactures cookies by the thousands.",
        },
        BuildingDef {
            id: "bank",
            name: "Bank",
            icon: "󰷕",
            base_cost: 1_400_000_000_000,
            base_cps: 100_000_000,
            description: "Generates cookies from compound interest.",
        },
        BuildingDef {
            id: "temple",
            name: "Temple",
            icon: "󰠮",
            base_cost: 20_000_000_000_000,
            base_cps: 400_000_000,
            description: "Worships the ancient cookie gods.",
        },
        BuildingDef {
            id: "wizard_tower",
            name: "Wizard Tower",
            icon: "󱏕",
            base_cost: 330_000_000_000_000,
            base_cps: 6_666_000_000,
            description: "Casts cookies into existence.",
        },
    ]
}

/// When an upgrade becomes available for purchase.
pub enum UnlockCondition {
    Always,
    /// At least `min` units of building `id` are owned.
    OwnBuilding { id: &'static str, min: u32 },
    /// At least this many micro-cookies were ever produced.
    TotalCookies(u128),
    /// At least this many click upgrades were bought.
    ClickUpgradeCount(u32),
}

/// What an upgrade does once bought.
pub enum Effect {
    /// Adds this many micro-cookies to each click, before the click
    /// multipliers.
    ClickBonus(u128),
    /// Multiplies the cookies of each click by this factor.
    ClickMultiplier(u128),
    /// Multiplies the production of building `id` by `factor`.
    BuildingMultiplier { id: &'static str, factor: u128 },
    /// Multiplies all production by this many percent.
    AllCpsMultiplier(u128),
}

/// A one-time purchase.
pub struct UpgradeDef {
    pub id: &'static str,
    pub name: &'static str,
    pub icon: &'static str,
    /// Price, in micro-cookies.
    pub cost: u128,
    pub description: &'static str,
    pub unlock: UnlockCondition,
    pub effect: Effect,
}

/// The upgrades, in the order in which the game lists them.
pub open spec fn upgrade_table() -> Seq<UpgradeDef> {
    seq![
        UpgradeDef {
            id: "reinforced_clicking",
            name: "Reinforced clicking",
            icon: "󰳽",
            cost: 100_000_000,
            description: "+1 cookie per click",
            unlock: UnlockCondition::Always,
            effect: Effect::ClickBonus(1_000_000),
        },
        UpgradeDef {
            id: "mouse_wheel",
            name: "Mouse wheel",
            icon: "󰳽",
            cost: 500_000_000,
            description: "+1 cookie per click",
            unlock: UnlockCondition::ClickUpgradeCount(1),
            effect: Effect::ClickBonus(1_000_000),
        },
        UpgradeDef {
            id: "plastic_mouse",
            name: "Plastic mouse",
            icon: "󰳽",
            cost: 10_000_000_000,
            description: "+2 cookies per click",
            unlock: UnlockCondition::ClickUpgradeCount(2),
            effect: Effect::ClickBonus(2_000_000),
        },
        UpgradeDef {
            id: "iron_mouse",
            name: "Iron mouse",
            icon: "󰳽",
            cost: 100_000_000_000,
            description: "Clicks are twice as powerful",
            unlock: UnlockCondition::ClickUpgradeCount(3),
            effect: Effect::ClickMultiplier(2),
        },
        UpgradeDef {
            id: "titanium_mouse",
            name: "Titanium mouse",
            icon: "󰳽",
            cost: 1_000_000_000_000,
            description: "Clicks are twice as powerful",
            unlock: UnlockCondition::ClickUpgradeCount(4),
            effect: Effect::ClickMultiplier(2),
        },
        UpgradeDef {
            id: "cursor_1",
            name: "Thousand fingers",
            icon: "󰳽",
            cost: 1_000_000_000,
            description: "Cursors are twice as effective",
            unlock: UnlockCondition::OwnBuilding { id: "cursor", min: 1 },
            effect: Effect::BuildingMultiplier { id: "cursor", factor: 2 },
        },
        UpgradeDef {
            id: "cursor_2",
            name: "Million fingers",
            icon: "󰳽",
            cost: 10_000_000_000,
            description: "Cursors are twice as effective",
            unlock: UnlockCondition::OwnBuilding { id: "cursor", min: 5 },
            effect: Effect::BuildingMultiplier { id: "cursor", factor: 2 },
        },
        UpgradeDef {
            id: "cursor_3",
            name: "Billion fingers",
            icon: "󰳽",
            cost: 100_000_000_000,
            description: "Cursors are twice as effective",
            unlock: UnlockCondition::OwnBuilding { id: "cursor", min: 25 },
            effect: Effect::BuildingMultiplier { id: "cursor", factor: 2 },
        },
        UpgradeDef {
            id: "grandma_1",
            name: "Grandma's recipe",
            icon: "󰜥",
            cost: 1_000_000_000,
            description: "Grandmas are twice as productive",
            unlock: UnlockCondition::OwnBuilding { id: "grandma", min: 1 },
            effect: Effect::BuildingMultiplier { id: "grandma", factor: 2 },
        },
        UpgradeDef {
            id: "grandma_2",
            name: "Steel-plated rolling pins",
            icon: "󰜥",
            cost: 5_000_000_000,
            description: "Grandmas are twice as productive",
            unlock: UnlockCondition::OwnBuilding { id: "grandma", min: 5 },
            effect: Effect::BuildingMultiplier { id: "grandma", factor: 2 },
        },
        UpgradeDef {
            id: "grandma_3",
            name: "Lubricated dentures",
            icon: "󰜥",
            cost: 50_000_000_000,
            description: "Grandmas are twice as productive",
            unlock: UnlockCondition::OwnBuilding { id: "grandma", min: 25 },
            effect: Effect::BuildingMultiplier { id: "grandma", factor: 2 },
        },
        UpgradeDef {
            id: "grandma_4",
            name: "Prune juice",
            icon: "󰜥",
            cost: 500_000_000_000,
            description: "Grandmas are twice as productive",
            unlock: UnlockCondition::OwnBuilding { id: "grandma", min: 50 },
            effect: Effect::BuildingMultiplier { id: "grandma", factor: 2 },
        },
        UpgradeDef {
            id: "farm_1",
            name: "Cheap hoes",
            icon: "󱢲",
            cost: 11_000_000_000,
            description: "Farms are twice as productive",
            unlock: UnlockCondition::OwnBuilding { id: "farm", min: 1 },
            effect: Effect::BuildingMultiplier { id: "farm", factor: 2 },
        },
        UpgradeDef {
            id: "farm_2",
            name: "Fertilizer",
            icon: "󱢲",
            cost: 55_000_000_000,
            description: "Farms are twice as productive",
            unlock: UnlockCondition::OwnBuilding { id: "farm", min: 5 },
            effect: Effect::BuildingMultiplier { id: "farm", factor: 2 },
        },
        UpgradeDef {
            id: "farm_3",
            name: "Cookie trees",
            icon: "󱢲",
            cost: 550_000_000_000,
            description: "Farms are twice as productive",
            unlock: UnlockCondition::OwnBuilding { id: "farm", min: 25 },
            effect: Effect::BuildingMultiplier { id: "farm", factor: 2 },
        },
        UpgradeDef {
            id: "mine_1",
            name: "Sugar gas",
            icon: "󱇪",
            cost: 130_000_000_000,
            description: "Mines are twice as productive",
            unlock: UnlockCondition::OwnBuilding { id: "mine", min: 1 },
            effect: Effect::BuildingMultiplier { id: "mine", factor: 2 },
        },
        UpgradeDef {
            id: "mine_2",
            name: "Megadrill",
            icon: "󱇪",
            cost: 650_000_000_000,
            description: "Mines are twice as productive",
            unlock: UnlockCondition::OwnBuilding { id: "mine", min: 5 },
            effect: Effect::BuildingMultiplier { id: "mine", factor: 2 },
        },
        UpgradeDef {
            id: "mine_3",
            name: "Ultradrill",
            icon: "󱇪",
            cost: 6_500_000_000_000,
            description: "Mines are twice as productive",
            unlock: UnlockCondition::OwnBuilding { id: "mine", min: 25 },
            effect: Effect::BuildingMultiplier { id: "mine", factor: 2 },
        },
        UpgradeDef {
            id: "factory_1",
            name: "Sturdier conveyor belts",
            icon: "󱏛",
            cost: 1_300_000_000_000,
            description: "Factories are twice as productive",
            unlock: UnlockCondition::OwnBuilding { id: "factory", min: 1 },
            effect: Effect::BuildingMultiplier { id: "factory", factor: 2 },
        },
        UpgradeDef {
            id: "factory_2",
            name: "Child labour",
            icon: "󱏛",
            cost: 6_500_000_000_000,
            description: "Factories are twice as productive",
            unlock: UnlockCondition::OwnBuilding { id: "factory", min: 5 },
            effect: Effect::BuildingMultiplier { id: "factory", factor: 2 },
        },
        UpgradeDef {
            id: "factory_3",
            name: "Sweatshop",
            icon: "󱏛",
            cost: 65_000_000_000_000,
            description: "Factories are twice as productive",
            unlock: UnlockCondition::OwnBuilding { id: "factory", min: 25 },
            effect: Effect::BuildingMultiplier { id: "factory", factor: 2 },
        },
        UpgradeDef {
            id: "bank_1",
            name: "Taller tellers",
            icon: "󰷕",
            cost: 14_000_000_000_000,
            description: "Banks are twice as productive",
            unlock: UnlockCondition::OwnBuilding { id: "bank", min: 1 },
            effect: Effect::BuildingMultiplier { id: "bank", factor: 2 },
        },
        UpgradeDef {
            id: "bank_2",
            name: "Scissor-resistant credit cards",
            icon: "󰷕",
            cost: 70_000_000_000_000,
            description: "Banks are twice as productive",
            unlock: UnlockCondition::OwnBuilding { id: "bank", min: 5 },
            effect: Effect::BuildingMultiplier { id: "bank", factor: 2 },
        },
        UpgradeDef {
            id: "bank_3",
            name: "Acid-proof vaults",
            icon: "󰷕",
            cost: 700_000_000_000_000,
            description: "Banks are twice as productive",
            unlock: UnlockCondition::OwnBuilding { id: "bank", min: 25 },
            effect: Effect::BuildingMultiplier { id: "bank", factor: 2 },
        },
        UpgradeDef {
            id: "temple_1",
            name: "Golden idols",
            icon: "󰠮",
            cost: 200_000_000_000_000,
            description: "Temples are twice as productive",
            unlock: UnlockCondition::OwnBuilding { id: "temple", min: 1 },
            effect: Effect::BuildingMultiplier { id: "temple", factor: 2 },
        },
        UpgradeDef {
            id: "temple_2",
            name: "Sacrifices",
            icon: "󰠮",
            cost: 1_000_000_000_000_000,
            description: "Temples are twice as productive",
            unlock: UnlockCondition::OwnBuilding { id: "temple", min: 5 },
            effect: Effect::BuildingMultiplier { id: "temple", factor: 2 },
        },
        UpgradeDef {
            id: "temple_3",
            name: "Delicious blessing",
            icon: "󰠮",
            cost: 10_000_000_000_000_000,
            description: "Temples are twice as productive",
            unlock: UnlockCondition::OwnBuilding { id: "temple", min: 25 },
            effect: Effect::BuildingMultiplier { id: "temple", factor: 2 },
        },
        UpgradeDef {
            id: "wizard_tower_1",
            name: "Pointier hats",
            icon: "󱏕",
            cost: 3_300_000_000_000_000,
            description: "Wizard towers are twice as productive",
            unlock: UnlockCondition::OwnBuilding { id: "wizard_tower", min: 1 },
            effect: Effect::BuildingMultiplier { id: "wizard_tower", factor: 2 },
        },
        UpgradeDef {
            id: "wizard_tower_2",
            name: "Beardlier beards",
            icon: "󱏕",
            cost: 16_500_000_000_000_000,
            description: "Wizard towers are twice as productive",
            unlock: UnlockCondition::OwnBuilding { id: "wizard_tower", min: 5 },
            effect: Effect::BuildingMultiplier { id: "wizard_tower", factor: 2 },
        },
        UpgradeDef {
            id: "wizard_tower_3",
            name: "Ancient grimoires",
            icon: "󱏕",
            cost: 165_000_000_000_000_000,
            description: "Wizard towers are twice as productive",
            unlock: UnlockCondition::OwnBuilding { id: "wizard_tower", min: 25 },
            effect: Effect::BuildingMultiplier { id: "wizard_tower", factor: 2 },
        },
        UpgradeDef {
            id: "global_1",
            name: "Broken timepiece",
            icon: "󰞌",
            cost: 1_000_000_000_000,
            description: "All production +10%",
            unlock: UnlockCondition::TotalCookies(1_000_000_000_000),
            effect: Effect::AllCpsMultiplier(110),
        },
        UpgradeDef {
            id: "global_2",
            name: "Wormhole",
            icon: "󰞌",
            cost: 100_000_000_000_000,
            description: "All production +10%",
            unlock: UnlockCondition::TotalCookies(100_000_000_000_000),
            effect: Effect::AllCpsMultiplier(110),
        },
    ]
}

/// All upgrade definitions.
pub fn upgrades() -> (r: Vec<UpgradeDef>)
    ensures
        r@ == upgrade_table(),
{
    vec![
        UpgradeDef {
            id: "reinforced_clicking",
            name: "Reinforced clicking",
            icon: "󰳽",
            cost: 100_000_000,
            description: "+1 cookie per click",
            unlock: UnlockCondition::Always,
            effect: Effect::ClickBonus(1_000_000),
        },
        UpgradeDef {
            id: "mouse_wheel",
            name: "Mouse wheel",
            icon: "󰳽",
            cost: 500_000_000,
            description: "+1 cookie per click",
            unlock: UnlockCondition::ClickUpgradeCount(1),
            effect: Effect::ClickBonus(1_000_000),
        },
        UpgradeDef {
            id: "plastic_mouse",
            name: "Plastic mouse",
            icon: "󰳽",
            cost: 10_000_000_000,
            description: "+2 cookies per click",
            unlock: UnlockCondition::ClickUpgradeCount(2),
            effect: Effect::ClickBonus(2_000_000),
        },
        UpgradeDef {
            id: "iron_mouse",
            name: "Iron mouse",
            icon: "󰳽",
            cost: 100_000_000_000,
            description: "Clicks are twice as powerful",
            unlock: UnlockCondition::ClickUpgradeCount(3),
            effect: Effect::ClickMultiplier(2),
        },
        UpgradeDef {
            id: "titanium_mouse",
            name: "Titanium mouse",
            icon: "󰳽",
            cost: 1_000_000_000_000,
            description: "Clicks are twice as powerful",
            unlock: UnlockCondition::ClickUpgradeCount(4),
            effect: Effect::ClickMultiplier(2),
        },
        UpgradeDef {
            id: "cursor_1",
            name: "Thousand fingers",
            icon: "󰳽",
            cost: 1_000_000_000,
            description: "Cursors are twice as effective",
            unlock: UnlockCondition::OwnBuilding { id: "cursor", min: 1 },
            effect: Effect::BuildingMultiplier { id: "cursor", factor: 2 },
        },
        UpgradeDef {
            id: "cursor_2",
            name: "Million fingers",
            icon: "󰳽",
            cost: 10_000_000_000,
            description: "Cursors are twice as effective",
            unlock: UnlockCondition::OwnBuilding { id: "cursor", min: 5 },
            effect: Effect::BuildingMultiplier { id: "cursor", factor: 2 },
        },
        UpgradeDef {
            id: "cursor_3",
            name: "Billion fingers",
            icon: "󰳽",
            cost: 100_000_000_000,
            description: "Cursors are twice as effective",
            unlock: UnlockCondition::OwnBuilding { id: "cursor", min: 25 },
            effect: Effect::BuildingMultiplier { id: "cursor", factor: 2 },
        },
        UpgradeDef {
            id: "grandma_1",
            name: "Grandma's recipe",
            icon: "󰜥",
            cost: 1_000_000_000,
            description: "Grandmas are twice as productive",
            unlock: UnlockCondition::OwnBuilding { id: "grandma", min: 1 },
            effect: Effect::BuildingMultiplier { id: "grandma", factor: 2 },
        },
        UpgradeDef {
            id: "grandma_2",
            name: "Steel-plated rolling pins",
            icon: "󰜥",
            cost: 5_000_000_000,
            description: "Grandmas are twice as productive",
            unlock: UnlockCondition::OwnBuilding { id: "grandma", min: 5 },
            effect: Effect::BuildingMultiplier { id: "grandma", factor: 2 },
        },
        UpgradeDef {
            id: "grandma_3",
            name: "Lubricated dentures",
            icon: "󰜥",
            cost: 50_000_000_000,
            description: "Grandmas are twice as productive",
            unlock: UnlockCondition::OwnBuilding { id: "grandma", min: 25 },
            effect: Effect::BuildingMultiplier { id: "grandma", factor: 2 },
        },
        UpgradeDef {
            id: "grandma_4",
            name: "Prune juice",
            icon: "󰜥",
            cost: 500_000_000_000,
            description: "Grandmas are twice as productive",
            unlock: UnlockCondition::OwnBuilding { id: "grandma", min: 50 },
            effect: Effect::BuildingMultiplier { id: "grandma", factor: 2 },
        },
        UpgradeDef {
            id: "farm_1",
            name: "Cheap hoes",
            icon: "󱢲",
            cost: 11_000_000_000,
            description: "Farms are twice as productive",
            unlock: UnlockCondition::OwnBuilding { id: "farm", min: 1 },
            effect: Effect::BuildingMultiplier { id: "farm", factor: 2 },
        },
        UpgradeDef {
            id: "farm_2",
            name: "Fertilizer",
            icon: "󱢲",
            cost: 55_000_000_000,
            description: "Farms are twice as productive",
            unlock: UnlockCondition::OwnBuilding { id: "farm", min: 5 },
            effect: Effect::BuildingMultiplier { id: "farm", factor: 2 },
        },
        UpgradeDef {
            id: "farm_3",
            name: "Cookie trees",
            icon: "󱢲",
            cost: 550_000_000_000,
            description: "Farms are twice as productive",
            unlock: UnlockCondition::OwnBuilding { id: "farm", min: 25 },
            effect: Effect::BuildingMultiplier { id: "farm", factor: 2 },
        },
        UpgradeDef {
            id: "mine_1",
            name: "Sugar gas",
            icon: "󱇪",
            cost: 130_000_000_000,
            description: "Mines are twice as productive",
            unlock: UnlockCondition::OwnBuilding { id: "mine", min: 1 },
            effect: Effect::BuildingMultiplier { id: "mine", factor: 2 },
        },
        UpgradeDef {
            id: "mine_2",
            name: "Megadrill",
            icon: "󱇪",
            cost: 650_000_000_000,
            description: "Mines are twice as productive",
            unlock: UnlockCondition::OwnBuilding { id: "mine", min: 5 },
            effect: Effect::BuildingMultiplier { id: "mine", factor: 2 },
        },
        UpgradeDef {
            id: "mine_3",
            name: "Ultradrill",
            icon: "󱇪",
            cost: 6_500_000_000_000,
            description: "Mines are twice as productive",
            unlock: UnlockCondition::OwnBuilding { id: "mine", min: 25 },
            effect: Effect::BuildingMultiplier { id: "mine", factor: 2 },
        },
        UpgradeDef {
            id: "factory_1",
            name: "Sturdier conveyor belts",
            icon: "󱏛",
            cost: 1_300_000_000_000,
            description: "Factories are twice as productive",
            unlock: UnlockCondition::OwnBuilding { id: "factory", min: 1 },
            effect: Effect::BuildingMultiplier { id: "factory", factor: 2 },
        },
        UpgradeDef {
            id: "factory_2",
            name: "Child labour",
            icon: "󱏛",
            cost: 6_500_000_000_000,
            description: "Factories are twice as productive",
            unlock: UnlockCondition::OwnBuilding { id: "factory", min: 5 },
            effect: Effect::BuildingMultiplier { id: "factory", factor: 2 },
        },
        UpgradeDef {
            id: "factory_3",
            name: "Sweatshop",
            icon: "󱏛",
            cost: 65_000_000_000_000,
            description: "Factories are twice as productive",
            unlock: UnlockCondition::OwnBuilding { id: "factory", min: 25 },
            effect: Effect::BuildingMultiplier { id: "factory", factor: 2 },
        },
        UpgradeDef {
            id: "bank_1",
            name: "Taller tellers",
            icon: "󰷕",
            cost: 14_000_000_000_000,
            description: "Banks are twice as productive",
            unlock: UnlockCondition::OwnBuilding { id: "bank", min: 1 },
            effect: Effect::BuildingMultiplier { id: "bank", factor: 2 },
        },
        UpgradeDef {
            id: "bank_2",
            name: "Scissor-resistant credit cards",
            icon: "󰷕",
            cost: 70_000_000_000_000,
            description: "Banks are twice as productive",
            unlock: UnlockCondition::OwnBuilding { id: "bank", min: 5 },
            effect: Effect::BuildingMultiplier { id: "bank", factor: 2 },
        },
        UpgradeDef {
            id: "bank_3",
            name: "Acid-proof vaults",
            icon: "󰷕",
            cost: 700_000_000_000_000,
            description: "Banks are twice as productive",
            unlock: UnlockCondition::OwnBuilding { id: "bank", min: 25 },
            effect: Effect::BuildingMultiplier { id: "bank", factor: 2 },
        },
        UpgradeDef {
            id: "temple_1",
            name: "Golden idols",
            icon: "󰠮",
            cost: 200_000_000_000_000,
            description: "Temples are twice as productive",
            unlock: UnlockCondition::OwnBuilding { id: "temple", min: 1 },
            effect: Effect::BuildingMultiplier { id: "temple", factor: 2 },
        },
        UpgradeDef {
            id: "temple_2",
            name: "Sacrifices",
            icon: "󰠮",
            cost: 1_000_000_000_000_000,
            description: "Temples are twice as productive",
            unlock: UnlockCondition::OwnBuilding { id: "temple", min: 5 },
            effect: Effect::BuildingMultiplier { id: "temple", factor: 2 },
        },
        UpgradeDef {
            id: "temple_3",
            name: "Delicious blessing",
            icon: "󰠮",
            cost: 10_000_000_000_000_000,
            description: "Temples are twice as productive",
            unlock: UnlockCondition::OwnBuilding { id: "temple", min: 25 },
            effect: Effect::BuildingMultiplier { id: "temple", factor: 2 },
        },
        UpgradeDef {
            id: "wizard_tower_1",
            name: "Pointier hats",
            icon: "󱏕",
            cost: 3_300_000_000_000_000,
            description: "Wizard towers are twice as productive",
            unlock: UnlockCondition::OwnBuilding { id: "wizard_tower", min: 1 },
            effect: Effect::BuildingMultiplier { id: "wizard_tower", factor: 2 },
        },
        UpgradeDef {
            id: "wizard_tower_2",
            name: "Beardlier beards",
            icon: "󱏕",
            cost: 16_500_000_000_000_000,
            description: "Wizard towers are twice as productive",
            unlock: UnlockCondition::OwnBuilding { id: "wizard_tower", min: 5 },
            effect: Effect::BuildingMultiplier { id: "wizard_tower", factor: 2 },
        },
        UpgradeDef {
            id: "wizard_tower_3",
            name: "Ancient grimoires",
            icon: "󱏕",
            cost: 165_000_000_000_000_000,
            description: "Wizard towers are twice as productive",
            unlock: UnlockCondition::OwnBuilding { id: "wizard_tower", min: 25 },
            effect: Effect::BuildingMultiplier { id: "wizard_tower", factor: 2 },
        },
        UpgradeDef {
            id: "global_1",
            name: "Broken timepiece",
            icon: "󰞌",
            cost: 1_000_000_000_000,
            description: "All production +10%",
            unlock: UnlockCondition::TotalCookies(1_000_000_000_000),
            effect: Effect::AllCpsMultiplier(110),
        },
        UpgradeDef {
            id: "global_2",
            name: "Wormhole",
            icon: "󰞌",
            cost: 100_000_000_000_000,
            description: "All production +10%",
            unlock: UnlockCondition::TotalCookies(100_000_000_000_000),
            effect: Effect::AllCpsMultiplier(110),
        },
    ]
}

/// No two building kinds share an id.
pub proof fn lemma_building_ids_unique()
    ensures
        forall|i: int, j: int|
            0 <= i < j < building_table().len() ==> building_table()[i].id@
                != building_table()[j].id@,
{
    let t = building_table();
    reveal_strlit("cursor");
    reveal_strlit("grandma");
    reveal_strlit("farm");
    reveal_strlit("mine");
    reveal_strlit("factory");
    reveal_strlit("bank");
    reveal_strlit("temple");
    reveal_strlit("wizard_tower");
    assert(t[0].id@ == "cursor"@);
    assert(t[1].id@ == "grandma"@);
    assert(t[2].id@ == "farm"@);
    assert(t[3].id@ == "mine"@);
    assert(t[4].id@ == "factory"@);
    assert(t[5].id@ == "bank"@);
    assert(t[6].id@ == "temple"@);
    assert(t[7].id@ == "wizard_tower"@);
    assert("cursor"@.len() != "grandma"@.len());
    assert("cursor"@.len() != "farm"@.len());
    assert("cursor"@.len() != "mine"@.len());
    assert("cursor"@.len() != "factory"@.len());
    assert("cursor"@.len() != "bank"@.len());
    assert("cursor"@[0] != "temple"@[0]);
    assert("cursor"@.len() != "wizard_tower"@.len());
    assert("grandma"@.len() != "farm"@.len());
    assert("grandma"@.len() != "mine"@.len());
    assert("grandma"@[0] != "factory"@[0]);
    assert("grandma"@.len() != "bank"@.len());
    assert("grandma"@.len() != "temple"@.len());
    assert("grandma"@.len() != "wizard_tower"@.len());
    assert("farm"@[0] != "mine"@[0]);
    assert("farm"@.len() != "factory"@.len());
    assert("farm"@[0] != "bank"@[0]);
    assert("farm"@.len() != "temple"@.len());
    assert("farm"@.len() != "wizard_tower"@.len());
    assert("mine"@.len() != "factory"@.len());
    assert("mine"@[0] != "bank"@[0]);
    assert("mine"@.len() != "temple"@.len());
    assert("mine"@.len() != "wizard_tower"@.len());
    assert("factory"@.len() != "bank"@.len());
    assert("factory"@.len() != "temple"@.len());
    assert("factory"@.len() != "wizard_tower"@.len());
    assert("bank"@.len() != "temple"@.len());
    assert("bank"@.len() != "wizard_tower"@.len());
    assert("temple"@.len() != "wizard_tower"@.len());
    assert forall|i: int, j: int| 0 <= i < j < t.len() implies t[i].id@ != t[j].id@ by {
        assert(i == 0 || i == 1 || i == 2 || i == 3 || i == 4 || i == 5 || i == 6);
        assert(j == 1 || j == 2 || j == 3 || j == 4 || j == 5 || j == 6 || j == 7);
    }
}

/// No two upgrades share an id.
pub proof fn lemma_upgrade_ids_unique()
    ensures
        forall|i: int, j: int|
            0 <= i < j < upgrade_table().len() ==> upgrade_table()[i].id@
                != upgrade_table()[j].id@,
{
    let t = upgrade_table();
    reveal_strlit("reinforced_clicking");
    reveal_strlit("mouse_wheel");
    reveal_strlit("plastic_mouse");
    reveal_strlit("iron_mouse");
    reveal_strlit("titanium_mouse");
    reveal_strlit("cursor_1");
    reveal_strlit("cursor_2");
    reveal_strlit("cursor_3");
    reveal_strlit("grandma_1");
    reveal_strlit("grandma_2");
    reveal_strlit("grandma_3");
    reveal_strlit("grandma_4");
    reveal_strlit("farm_1");
    reveal_strlit("farm_2");
    reveal_strlit("farm_3");
    reveal_strlit("mine_1");
    reveal_strlit("mine_2");
    reveal_strlit("mine_3");
    reveal_strlit("factory_1");
    reveal_strlit("factory_2");
    reveal_strlit("factory_3");
    reveal_strlit("bank_1");
    reveal_strlit("bank_2");
    reveal_strlit("bank_3");
    reveal_strlit("temple_1");
    reveal_strlit("temple_2");
    reveal_strlit("temple_3");
    reveal_strlit("wizard_tower_1");
    reveal_strlit("wizard_tower_2");
    reveal_strlit("wizard_tower_3");
    reveal_strlit("global_1");
    reveal_strlit("global_2");
    assert(t[0].id@ == "reinforced_clicking"@);
    assert(t[1].id@ == "mouse_wheel"@);
    assert(t[2].id@ == "plastic_mouse"@);
    assert(t[3].id@ == "iron_mouse"@);
    assert(t[4].id@ == "titanium_mouse"@);
    assert(t[5].id@ == "cursor_1"@);
    assert(t[6].id@ == "cursor_2"@);
    assert(t[7].id@ == "cursor_3"@);
    assert(t[8].id@ == "grandma_1"@);
    assert(t[9].id@ == "grandma_2"@);
    assert(t[10].id@ == "grandma_3"@);
    assert(t[11].id@ == "grandma_4"@);
    assert(t[12].id@ == "farm_1"@);
    assert(t[13].id@ == "farm_2"@);
    assert(t[14].id@ == "farm_3"@);
    assert(t[15].id@ == "mine_1"@);
    assert(t[16].id@ == "mine_2"@);
    assert(t[17].id@ == "mine_3"@);
    assert(t[18].id@ == "factory_1"@);
    assert(t[19].id@ == "factory_2"@);
    assert(t[20].id@ == "factory_3"@);
    assert(t[21].id@ == "bank_1"@);
    assert(t[22].id@ == "bank_2"@);
    assert(t[23].id@ == "bank_3"@);
    assert(t[24].id@ == "temple_1"@);
    assert(t[25].id@ == "temple_2"@);
    assert(t[26].id@ == "temple_3"@);
    assert(t[27].id@ == "wizard_tower_1"@);
    assert(t[28].id@ == "wizard_tower_2"@);
    assert(t[29].id@ == "wizard_tower_3"@);
    assert(t[30].id@ == "global_1"@);
    assert(t[31].id@ == "global_2"@);
    assert("reinforced_clicking"@.len() != "mouse_wheel"@.len());
    assert("reinforced_clicking"@.len() != "plastic_mouse"@.len());
    assert("reinforced_clicking"@.len() != "iron_mouse"@.len());
    assert("reinforced_clicking"@.len() != "titanium_mouse"@.len());
    assert("reinforced_clicking"@.len() != "cursor_1"@.len());
    assert("reinforced_clicking"@.len() != "cursor_2"@.len());
    assert("reinforced_clicking"@.len() != "cursor_3"@.len());
    assert("reinforced_clicking"@.len() != "grandma_1"@.len());
    assert("reinforced_clicking"@.len() != "grandma_2"@.len());
    assert("reinforced_clicking"@.len() != "grandma_3"@.len());
    assert("reinforced_clicking"@.len() != "grandma_4"@.len());
    assert("reinforced_clicking"@.len() != "farm_1"@.len());
    assert("reinforced_clicking"@.len() != "farm_2"@.len());
    assert("reinforced_clicking"@.len() != "farm_3"@.len());
    assert("reinforced_clicking"@.len() != "mine_1"@.len());
    assert("reinforced_clicking"@.len() != "mine_2"@.len());
    assert("reinforced_clicking"@.len() != "mine_3"@.len());
    assert("reinforced_clicking"@.len() != "factory_1"@.len());
    assert("reinforced_clicking"@.len() != "factory_2"@.len());
    assert("reinforced_clicking"@.len() != "factory_3"@.len());
    assert("reinforced_clicking"@.len() != "bank_1"@.len());
    assert("reinforced_clicking"@.len() != "bank_2"@.len());
    assert("reinforced_clicking"@.len() != "bank_3"@.len());
    assert("reinforced_clicking"@.len() != "temple_1"@.len());
    assert("reinforced_clicking"@.len() != "temple_2"@.len());
    assert("reinforced_clicking"@.len() != "temple_3"@.len());
    assert("reinforced_clicking"@.len() != "wizard_tower_1"@.len());
    assert("reinforced_clicking"@.len() != "wizard_tower_2"@.len());
    assert("reinforced_clicking"@.len() != "wizard_tower_3"@.len());
    assert("reinforced_clicking"@.len() != "global_1"@.len());
    assert("reinforced_clicking"@.len() != "global_2"@.len());
    assert("mouse_wheel"@.len() != "plastic_mouse"@.len());
    assert("mouse_wheel"@.len() != "iron_mouse"@.len());
    assert("mouse_wheel"@.len() != "titanium_mouse"@.len());
    assert("mouse_wheel"@.len() != "cursor_1"@.len());
    assert("mouse_wheel"@.len() != "cursor_2"@.len());
    assert("mouse_wheel"@.len() != "cursor_3"@.len());
    assert("mouse_wheel"@.len() != "grandma_1"@.len());
    assert("mouse_wheel"@.len() != "grandma_2"@.len());
    assert("mouse_wheel"@.len() != "grandma_3"@.len());
    assert("mouse_wheel"@.len() != "grandma_4"@.len());
    assert("mouse_wheel"@.len() != "farm_1"@.len());
    assert("mouse_wheel"@.len() != "farm_2"@.len());
    assert("mouse_wheel"@.len() != "farm_3"@.len());
    assert("mouse_wheel"@.len() != "mine_1"@.len());
    assert("mouse_wheel"@.len() != "mine_2"@.len());
    assert("mouse_wheel"@.len() != "mine_3"@.len());
    assert("mouse_wheel"@.len() != "factory_1"@.len());
    assert("mouse_wheel"@.len() != "factory_2"@.len());
    assert("mouse_wheel"@.len() != "factory_3"@.len());
    assert("mouse_wheel"@.len() != "bank_1"@.len());
    assert("mouse_wheel"@.len() != "bank_2"@.len());
    assert("mouse_wheel"@.len() != "bank_3"@.len());
    assert("mouse_wheel"@.len() != "temple_1"@.len());
    assert("mouse_wheel"@.len() != "temple_2"@.len());
    assert("mouse_wheel"@.len() != "temple_3"@.len());
    assert("mouse_wheel"@.len() != "wizard_tower_1"@.len());
    assert("mouse_wheel"@.len() != "wizard_tower_2"@.len());
    assert("mouse_wheel"@.len() != "wizard_tower_3"@.len());
    assert("mouse_wheel"@.len() != "global_1"@.len());
    assert("mouse_wheel"@.len() != "global_2"@.len());
    assert("plastic_mouse"@.len() != "iron_mouse"@.len());
    assert("plastic_mouse"@.len() != "titanium_mouse"@.len());
    assert("plastic_mouse"@.len() != "cursor_1"@.len());
    assert("plastic_mouse"@.len() != "cursor_2"@.len());
    assert("plastic_mouse"@.len() != "cursor_3"@.len());
    assert("plastic_mouse"@.len() != "grandma_1"@.len());
    assert("plastic_mouse"@.len() != "grandma_2"@.len());
    assert("plastic_mouse"@.len() != "grandma_3"@.len());
    assert("plastic_mouse"@.len() != "grandma_4"@.len());
    assert("plastic_mouse"@.len() != "farm_1"@.len());
    assert("plastic_mouse"@.len() != "farm_2"@.len());
    assert("plastic_mouse"@.len() != "farm_3"@.len());
    assert("plastic_mouse"@.len() != "mine_1"@.len());
    assert("plastic_mouse"@.len() != "mine_2"@.len());
    assert("plastic_mouse"@.len() != "mine_3"@.len());
    assert("plastic_mouse"@.len() != "factory_1"@.len());
    assert("plastic_mouse"@.len() != "factory_2"@.len());
    assert("plastic_mouse"@.len() != "factory_3"@.len());
    assert("plastic_mouse"@.len() != "bank_1"@.len());
    assert("plastic_mouse"@.len() != "bank_2"@.len());
    assert("plastic_mouse"@.len() != "bank_3"@.len());
    assert("plastic_mouse"@.len() != "temple_1"@.len());
    assert("plastic_mouse"@.len() != "temple_2"@.len());
    assert("plastic_mouse"@.len() != "temple_3"@.len());
    assert("plastic_mouse"@.len() != "wizard_tower_1"@.len());
    assert("plastic_mouse"@.len() != "wizard_tower_2"@.len());
    assert("plastic_mouse"@.len() != "wizard_tower_3"@.len());
    assert("plastic_mouse"@.len() != "global_1"@.len());
    assert("plastic_mouse"@.len() != "global_2"@.len());
    assert("iron_mouse"@.len() != "titanium_mouse"@.len());
    assert("iron_mouse"@.len() != "cursor_1"@.len());
    assert("iron_mouse"@.len() != "cursor_2"@.len());
    assert("iron_mouse"@.len() != "cursor_3"@.len());
    assert("iron_mouse"@.len() != "grandma_1"@.len());
    assert("iron_mouse"@.len() != "grandma_2"@.len());
    assert("iron_mouse"@.len() != "grandma_3"@.len());
    assert("iron_mouse"@.len() != "grandma_4"@.len());
    assert("iron_mouse"@.len() != "farm_1"@.len());
    assert("iron_mouse"@.len() != "farm_2"@.len());
    assert("iron_mouse"@.len() != "farm_3"@.len());
    assert("iron_mouse"@.len() != "mine_1"@.len());
    assert("iron_mouse"@.len() != "mine_2"@.len());
    assert("iron_mouse"@.len() != "mine_3"@.len());
    assert("iron_mouse"@.len() != "factory_1"@.len());
    assert("iron_mouse"@.len() != "factory_2"@.len());
    assert("iron_mouse"@.len() != "factory_3"@.len());
    assert("iron_mouse"@.len() != "bank_1"@.len());
    assert("iron_mouse"@.len() != "bank_2"@.len());
    assert("iron_mouse"@.len() != "bank_3"@.len());
    assert("iron_mouse"@.len() != "temple_1"@.len());
    assert("iron_mouse"@.len() != "temple_2"@.len());
    assert("iron_mouse"@.len() != "temple_3"@.len());
    assert("iron_mouse"@.len() != "wizard_tower_1"@.len());
    assert("iron_mouse"@.len() != "wizard_tower_2"@.len());
    assert("iron_mouse"@.len() != "wizard_tower_3"@.len());
    assert("iron_mouse"@.len() != "global_1"@.len());
    assert("iron_mouse"@.len() != "global_2"@.len());
    assert("titanium_mouse"@.len() != "cursor_1"@.len());
    assert("titanium_mouse"@.len() != "cursor_2"@.len());
    assert("titanium_mouse"@.len() != "cursor_3"@.len());
    assert("titanium_mouse"@.len() != "grandma_1"@.len());
    assert("titanium_mouse"@.len() != "grandma_2"@.len());
    assert("titanium_mouse"@.len() != "grandma_3"@.len());
    assert("titanium_mouse"@.len() != "grandma_4"@.len());
    assert("titanium_mouse"@.len() != "farm_1"@.len());
    assert("titanium_mouse"@.len() != "farm_2"@.len());
    assert("titanium_mouse"@.len() != "farm_3"@.len());
    assert("titanium_mouse"@.len() != "mine_1"@.len());
    assert("titanium_mouse"@.len() != "mine_2"@.len());
    assert("titanium_mouse"@.len() != "mine_3"@.len());
    assert("titanium_mouse"@.len() != "factory_1"@.len());
    assert("titanium_mouse"@.len() != "factory_2"@.len());
    assert("titanium_mouse"@.len() != "factory_3"@.len());
    assert("titanium_mouse"@.len() != "bank_1"@.len());
    assert("titanium_mouse"@.len() != "bank_2"@.len());
    assert("titanium_mouse"@.len() != "bank_3"@.len());
    assert("titanium_mouse"@.len() != "temple_1"@.len());
    assert("titanium_mouse"@.len() != "temple_2"@.len());
    assert("titanium_mouse"@.len() != "temple_3"@.len());
    assert("titanium_mouse"@[0] != "wizard_tower_1"@[0]);
    assert("titanium_mouse"@[0] != "wizard_tower_2"@[0]);
    assert("titanium_mouse"@[0] != "wizard_tower_3"@[0]);
    assert("titanium_mouse"@.len() != "global_1"@.len());
    assert("titanium_mouse"@.len() != "global_2"@.len());
    assert("cursor_1"@[7] != "cursor_2"@[7]);
    assert("cursor_1"@[7] != "cursor_3"@[7]);
    assert("cursor_1"@.len() != "grandma_1"@.len());
    assert("cursor_1"@.len() != "grandma_2"@.len());
    assert("cursor_1"@.len() != "grandma_3"@.len());
    assert("cursor_1"@.len() != "grandma_4"@.len());
    assert("cursor_1"@.len() != "farm_1"@.len());
    assert("cursor_1"@.len() != "farm_2"@.len());
    assert("cursor_1"@.len() != "farm_3"@.len());
    assert("cursor_1"@.len() != "mine_1"@.len());
    assert("cursor_1"@.len() != "mine_2"@.len());
    assert("cursor_1"@.len() != "mine_3"@.len());
    assert("cursor_1"@.len() != "factory_1"@.len());
    assert("cursor_1"@.len() != "factory_2"@.len());
    assert("cursor_1"@.len() != "factory_3"@.len());
    assert("cursor_1"@.len() != "bank_1"@.len());
    assert("cursor_1"@.len() != "bank_2"@.len());
    assert("cursor_1"@.len() != "bank_3"@.len());
    assert("cursor_1"@[0] != "temple_1"@[0]);
    assert("cursor_1"@[0] != "temple_2"@[0]);
    assert("cursor_1"@[0] != "temple_3"@[0]);
    assert("cursor_1"@.len() != "wizard_tower_1"@.len());
    assert("cursor_1"@.len() != "wizard_tower_2"@.len());
    assert("cursor_1"@.len() != "wizard_tower_3"@.len());
    assert("cursor_1"@[0] != "global_1"@[0]);
    assert("cursor_1"@[0] != "global_2"@[0]);
    assert("cursor_2"@[7] != "cursor_3"@[7]);
    assert("cursor_2"@.len() != "grandma_1"@.len());
    assert("cursor_2"@.len() != "grandma_2"@.len());
    assert("cursor_2"@.len() != "grandma_3"@.len());
    assert("cursor_2"@.len() != "grandma_4"@.len());
    assert("cursor_2"@.len() != "farm_1"@.len());
    assert("cursor_2"@.len() != "farm_2"@.len());
    assert("cursor_2"@.len() != "farm_3"@.len());
    assert("cursor_2"@.len() != "mine_1"@.len());
    assert("cursor_2"@.len() != "mine_2"@.len());
    assert("cursor_2"@.len() != "mine_3"@.len());
    assert("cursor_2"@.len() != "factory_1"@.len());
    assert("cursor_2"@.len() != "factory_2"@.len());
    assert("cursor_2"@.len() != "factory_3"@.len());
    assert("cursor_2"@.len() != "bank_1"@.len());
    assert("cursor_2"@.len() != "bank_2"@.len());
    assert("cursor_2"@.len() != "bank_3"@.len());
    assert("cursor_2"@[0] != "temple_1"@[0]);
    assert("cursor_2"@[0] != "temple_2"@[0]);
    assert("cursor_2"@[0] != "temple_3"@[0]);
    assert("cursor_2"@.len() != "wizard_tower_1"@.len());
    assert("cursor_2"@.len() != "wizard_tower_2"@.len());
    assert("cursor_2"@.len() != "wizard_tower_3"@.len());
    assert("cursor_2"@[0] != "global_1"@[0]);
    assert("cursor_2"@[0] != "global_2"@[0]);
    assert("cursor_3"@.len() != "grandma_1"@.len());
    assert("cursor_3"@.len() != "grandma_2"@.len());
    assert("cursor_3"@.len() != "grandma_3"@.len());
    assert("cursor_3"@.len() != "grandma_4"@.len());
    assert("cursor_3"@.len() != "farm_1"@.len());
    assert("cursor_3"@.len() != "farm_2"@.len());
    assert("cursor_3"@.len() != "farm_3"@.len());
    assert("cursor_3"@.len() != "mine_1"@.len());
    assert("cursor_3"@.len() != "mine_2"@.len());
    assert("cursor_3"@.len() != "mine_3"@.len());
    assert("cursor_3"@.len() != "factory_1"@.len());
    assert("cursor_3"@.len() != "factory_2"@.len());
    assert("cursor_3"@.len() != "factory_3"@.len());
    assert("cursor_3"@.len() != "bank_1"@.len());
    assert("cursor_3"@.len() != "bank_2"@.len());
    assert("cursor_3"@.len() != "bank_3"@.len());
    assert("cursor_3"@[0] != "temple_1"@[0]);
    assert("cursor_3"@[0] != "temple_2"@[0]);
    assert("cursor_3"@[0] != "temple_3"@[0]);
    assert("cursor_3"@.len() != "wizard_tower_1"@.len());
    assert("cursor_3"@.len() != "wizard_tower_2"@.len());
    assert("cursor_3"@.len() != "wizard_tower_3"@.len());
    assert("cursor_3"@[0] != "global_1"@[0]);
    assert("cursor_3"@[0] != "global_2"@[0]);
    assert("grandma_1"@[8] != "grandma_2"@[8]);
    assert("grandma_1"@[8] != "grandma_3"@[8]);
    assert("grandma_1"@[8] != "grandma_4"@[8]);
    assert("grandma_1"@.len() != "farm_1"@.len());
    assert("grandma_1"@.len() != "farm_2"@.len());
    assert("grandma_1"@.len() != "farm_3"@.len());
    assert("grandma_1"@.len() != "mine_1"@.len());
    assert("grandma_1"@.len() != "mine_2"@.len());
    assert("grandma_1"@.len() != "mine_3"@.len());
    assert("grandma_1"@[0] != "factory_1"@[0]);
    assert("grandma_1"@[0] != "factory_2"@[0]);
    assert("grandma_1"@[0] != "factory_3"@[0]);
    assert("grandma_1"@.len() != "bank_1"@.len());
    assert("grandma_1"@.len() != "bank_2"@.len());
    assert("grandma_1"@.len() != "bank_3"@.len());
    assert("grandma_1"@.len() != "temple_1"@.len());
    assert("grandma_1"@.len() != "temple_2"@.len());
    assert("grandma_1"@.len() != "temple_3"@.len());
    assert("grandma_1"@.len() != "wizard_tower_1"@.len());
    assert("grandma_1"@.len() != "wizard_tower_2"@.len());
    assert("grandma_1"@.len() != "wizard_tower_3"@.len());
    assert("grandma_1"@.len() != "global_1"@.len());
    assert("grandma_1"@.len() != "global_2"@.len());
    assert("grandma_2"@[8] != "grandma_3"@[8]);
    assert("grandma_2"@[8] != "grandma_4"@[8]);
    assert("grandma_2"@.len() != "farm_1"@.len());
    assert("grandma_2"@.len() != "farm_2"@.len());
    assert("grandma_2"@.len() != "farm_3"@.len());
    assert("grandma_2"@.len() != "mine_1"@.len());
    assert("grandma_2"@.len() != "mine_2"@.len());
    assert("grandma_2"@.len() != "mine_3"@.len());
    assert("grandma_2"@[0] != "factory_1"@[0]);
    assert("grandma_2"@[0] != "factory_2"@[0]);
    assert("grandma_2"@[0] != "factory_3"@[0]);
    assert("grandma_2"@.len() != "bank_1"@.len());
    assert("grandma_2"@.len() != "bank_2"@.len());
    assert("grandma_2"@.len() != "bank_3"@.len());
    assert("grandma_2"@.len() != "temple_1"@.len());
    assert("grandma_2"@.len() != "temple_2"@.len());
    assert("grandma_2"@.len() != "temple_3"@.len());
    assert("grandma_2"@.len() != "wizard_tower_1"@.len());
    assert("grandma_2"@.len() != "wizard_tower_2"@.len());
    assert("grandma_2"@.len() != "wizard_tower_3"@.len());
    assert("grandma_2"@.len() != "global_1"@.len());
    assert("grandma_2"@.len() != "global_2"@.len());
    assert("grandma_3"@[8] != "grandma_4"@[8]);
    assert("grandma_3"@.len() != "farm_1"@.len());
    assert("grandma_3"@.len() != "farm_2"@.len());
    assert("grandma_3"@.len() != "farm_3"@.len());
    assert("grandma_3"@.len() != "mine_1"@.len());
    assert("grandma_3"@.len() != "mine_2"@.len());
    assert("grandma_3"@.len() != "mine_3"@.len());
    assert("grandma_3"@[0] != "factory_1"@[0]);
    assert("grandma_3"@[0] != "factory_2"@[0]);
    assert("grandma_3"@[0] != "factory_3"@[0]);
    assert("grandma_3"@.len() != "bank_1"@.len());
    assert("grandma_3"@.len() != "bank_2"@.len());
    assert("grandma_3"@.len() != "bank_3"@.len());
    assert("grandma_3"@.len() != "temple_1"@.len());
    assert("grandma_3"@.len() != "temple_2"@.len());
    assert("grandma_3"@.len() != "temple_3"@.len());
    assert("grandma_3"@.len() != "wizard_tower_1"@.len());
    assert("grandma_3"@.len() != "wizard_tower_2"@.len());
    assert("grandma_3"@.len() != "wizard_tower_3"@.len());
    assert("grandma_3"@.len() != "global_1"@.len());
    assert("grandma_3"@.len() != "global_2"@.len());
    assert("grandma_4"@.len() != "farm_1"@.len());
    assert("grandma_4"@.len() != "farm_2"@.len());
    assert("grandma_4"@.len() != "farm_3"@.len());
    assert("grandma_4"@.len() != "mine_1"@.len());
    assert("grandma_4"@.len() != "mine_2"@.len());
    assert("grandma_4"@.len() != "mine_3"@.len());
    assert("grandma_4"@[0] != "factory_1"@[0]);
    assert("grandma_4"@[0] != "factory_2"@[0]);
    assert("grandma_4"@[0] != "factory_3"@[0]);
    assert("grandma_4"@.len() != "bank_1"@.len());
    assert("grandma_4"@.len() != "bank_2"@.len());
    assert("grandma_4"@.len() != "bank_3"@.len());
    assert("grandma_4"@.len() != "temple_1"@.len());
    assert("grandma_4"@.len() != "temple_2"@.len());
    assert("grandma_4"@.len() != "temple_3"@.len());
    assert("grandma_4"@.len() != "wizard_tower_1"@.len());
    assert("grandma_4"@.len() != "wizard_tower_2"@.len());
    assert("grandma_4"@.len() != "wizard_tower_3"@.len());
    assert("grandma_4"@.len() != "global_1"@.len());
    assert("grandma_4"@.len() != "global_2"@.len());
    assert("farm_1"@[5] != "farm_2"@[5]);
    assert("farm_1"@[5] != "farm_3"@[5]);
    assert("farm_1"@[0] != "mine_1"@[0]);
    assert("farm_1"@[0] != "mine_2"@[0]);
    assert("farm_1"@[0] != "mine_3"@[0]);
    assert("farm_1"@.len() != "factory_1"@.len());
    assert("farm_1"@.len() != "factory_2"@.len());
    assert("farm_1"@.len() != "factory_3"@.len());
    assert("farm_1"@[0] != "bank_1"@[0]);
    assert("farm_1"@[0] != "bank_2"@[0]);
    assert("farm_1"@[0] != "bank_3"@[0]);
    assert("farm_1"@.len() != "temple_1"@.len());
    assert("farm_1"@.len() != "temple_2"@.len());
    assert("farm_1"@.len() != "temple_3"@.len());
    assert("farm_1"@.len() != "wizard_tower_1"@.len());
    assert("farm_1"@.len() != "wizard_tower_2"@.len());
    assert("farm_1"@.len() != "wizard_tower_3"@.len());
    assert("farm_1"@.len() != "global_1"@.len());
    assert("farm_1"@.len() != "global_2"@.len());
    assert("farm_2"@[5] != "farm_3"@[5]);
    assert("farm_2"@[0] != "mine_1"@[0]);
    assert("farm_2"@[0] != "mine_2"@[0]);
    assert("farm_2"@[0] != "mine_3"@[0]);
    assert("farm_2"@.len() != "factory_1"@.len());
    assert("farm_2"@.len() != "factory_2"@.len());
    assert("farm_2"@.len() != "factory_3"@.len());
    assert("farm_2"@[0] != "bank_1"@[0]);
    assert("farm_2"@[0] != "bank_2"@[0]);
    assert("farm_2"@[0] != "bank_3"@[0]);
    assert("farm_2"@.len() != "temple_1"@.len());
    assert("farm_2"@.len() != "temple_2"@.len());
    assert("farm_2"@.len() != "temple_3"@.len());
    assert("farm_2"@.len() != "wizard_tower_1"@.len());
    assert("farm_2"@.len() != "wizard_tower_2"@.len());
    assert("farm_2"@.len() != "wizard_tower_3"@.len());
    assert("farm_2"@.len() != "global_1"@.len());
    assert("farm_2"@.len() != "global_2"@.len());
    assert("farm_3"@[0] != "mine_1"@[0]);
    assert("farm_3"@[0] != "mine_2"@[0]);
    assert("farm_3"@[0] != "mine_3"@[0]);
    assert("farm_3"@.len() != "factory_1"@.len());
    assert("farm_3"@.len() != "factory_2"@.len());
    assert("farm_3"@.len() != "factory_3"@.len());
    assert("farm_3"@[0] != "bank_1"@[0]);
    assert("farm_3"@[0] != "bank_2"@[0]);
    assert("farm_3"@[0] != "bank_3"@[0]);
    assert("farm_3"@.len() != "temple_1"@.len());
    assert("farm_3"@.len() != "temple_2"@.len());
    assert("farm_3"@.len() != "temple_3"@.len());
    assert("farm_3"@.len() != "wizard_tower_1"@.len());
    assert("farm_3"@.len() != "wizard_tower_2"@.len());
    assert("farm_3"@.len() != "wizard_tower_3"@.len());
    assert("farm_3"@.len() != "global_1"@.len());
    assert("farm_3"@.len() != "global_2"@.len());
    assert("mine_1"@[5] != "mine_2"@[5]);
    assert("mine_1"@[5] != "mine_3"@[5]);
    assert("mine_1"@.len() != "factory_1"@.len());
    assert("mine_1"@.len() != "factory_2"@.len());
    assert("mine_1"@.len() != "factory_3"@.len());
    assert("mine_1"@[0] != "bank_1"@[0]);
    assert("mine_1"@[0] != "bank_2"@[0]);
    assert("mine_1"@[0] != "bank_3"@[0]);
    assert("mine_1"@.len() != "temple_1"@.len());
    assert("mine_1"@.len() != "temple_2"@.len());
    assert("mine_1"@.len() != "temple_3"@.len());
    assert("mine_1"@.len() != "wizard_tower_1"@.len());
    assert("mine_1"@.len() != "wizard_tower_2"@.len());
    assert("mine_1"@.len() != "wizard_tower_3"@.len());
    assert("mine_1"@.len() != "global_1"@.len());
    assert("mine_1"@.len() != "global_2"@.len());
    assert("mine_2"@[5] != "mine_3"@[5]);
    assert("mine_2"@.len() != "factory_1"@.len());
    assert("mine_2"@.len() != "factory_2"@.len());
    assert("mine_2"@.len() != "factory_3"@.len());
    assert("mine_2"@[0] != "bank_1"@[0]);
    assert("mine_2"@[0] != "bank_2"@[0]);
    assert("mine_2"@[0] != "bank_3"@[0]);
    assert("mine_2"@.len() != "temple_1"@.len());
    assert("mine_2"@.len() != "temple_2"@.len());
    assert("mine_2"@.len() != "temple_3"@.len());
    assert("mine_2"@.len() != "wizard_tower_1"@.len());
    assert("mine_2"@.len() != "wizard_tower_2"@.len());
    assert("mine_2"@.len() != "wizard_tower_3"@.len());
    assert("mine_2"@.len() != "global_1"@.len());
    assert("mine_2"@.len() != "global_2"@.len());
    assert("mine_3"@.len() != "factory_1"@.len());
    assert("mine_3"@.len() != "factory_2"@.len());
    assert("mine_3"@.len() != "factory_3"@.len());
    assert("mine_3"@[0] != "bank_1"@[0]);
    assert("mine_3"@[0] != "bank_2"@[0]);
    assert("mine_3"@[0] != "bank_3"@[0]);
    assert("mine_3"@.len() != "temple_1"@.len());
    assert("mine_3"@.len() != "temple_2"@.len());
    assert("mine_3"@.len() != "temple_3"@.len());
    assert("mine_3"@.len() != "wizard_tower_1"@.len());
    assert("mine_3"@.len() != "wizard_tower_2"@.len());
    assert("mine_3"@.len() != "wizard_tower_3"@.len());
    assert("mine_3"@.len() != "global_1"@.len());
    assert("mine_3"@.len() != "global_2"@.len());
    assert("factory_1"@[8] != "factory_2"@[8]);
    assert("factory_1"@[8] != "factory_3"@[8]);
    assert("factory_1"@.len() != "bank_1"@.len());
    assert("factory_1"@.len() != "bank_2"@.len());
    assert("factory_1"@.len() != "bank_3"@.len());
    assert("factory_1"@.len() != "temple_1"@.len());
    assert("factory_1"@.len() != "temple_2"@.len());
    assert("factory_1"@.len() != "temple_3"@.len());
    assert("factory_1"@.len() != "wizard_tower_1"@.len());
    assert("factory_1"@.len() != "wizard_tower_2"@.len());
    assert("factory_1"@.len() != "wizard_tower_3"@.len());
    assert("factory_1"@.len() != "global_1"@.len());
    assert("factory_1"@.len() != "global_2"@.len());
    assert("factory_2"@[8] != "factory_3"@[8]);
    assert("factory_2"@.len() != "bank_1"@.len());
    assert("factory_2"@.len() != "bank_2"@.len());
    assert("factory_2"@.len() != "bank_3"@.len());
    assert("factory_2"@.len() != "temple_1"@.len());
    assert("factory_2"@.len() != "temple_2"@.len());
    assert("factory_2"@.len() != "temple_3"@.len());
    assert("factory_2"@.len() != "wizard_tower_1"@.len());
    assert("factory_2"@.len() != "wizard_tower_2"@.len());
    assert("factory_2"@.len() != "wizard_tower_3"@.len());
    assert("factory_2"@.len() != "global_1"@.len());
    assert("factory_2"@.len() != "global_2"@.len());
    assert("factory_3"@.len() != "bank_1"@.len());
    assert("factory_3"@.len() != "bank_2"@.len());
    assert("factory_3"@.len() != "bank_3"@.len());
    assert("factory_3"@.len() != "temple_1"@.len());
    assert("factory_3"@.len() != "temple_2"@.len());
    assert("factory_3"@.len() != "temple_3"@.len());
    assert("factory_3"@.len() != "wizard_tower_1"@.len());
    assert("factory_3"@.len() != "wizard_tower_2"@.len());
    assert("factory_3"@.len() != "wizard_tower_3"@.len());
    assert("factory_3"@.len() != "global_1"@.len());
    assert("factory_3"@.len() != "global_2"@.len());
    assert("bank_1"@[5] != "bank_2"@[5]);
    assert("bank_1"@[5] != "bank_3"@[5]);
    assert("bank_1"@.len() != "temple_1"@.len());
    assert("bank_1"@.len() != "temple_2"@.len());
    assert("bank_1"@.len() != "temple_3"@.len());
    assert("bank_1"@.len() != "wizard_tower_1"@.len());
    assert("bank_1"@.len() != "wizard_tower_2"@.len());
    assert("bank_1"@.len() != "wizard_tower_3"@.len());
    assert("bank_1"@.len() != "global_1"@.len());
    assert("bank_1"@.len() != "global_2"@.len());
    assert("bank_2"@[5] != "bank_3"@[5]);
    assert("bank_2"@.len() != "temple_1"@.len());
    assert("bank_2"@.len() != "temple_2"@.len());
    assert("bank_2"@.len() != "temple_3"@.len());
    assert("bank_2"@.len() != "wizard_tower_1"@.len());
    assert("bank_2"@.len() != "wizard_tower_2"@.len());
    assert("bank_2"@.len() != "wizard_tower_3"@.len());
    assert("bank_2"@.len() != "global_1"@.len());
    assert("bank_2"@.len() != "global_2"@.len());
    assert("bank_3"@.len() != "temple_1"@.len());
    assert("bank_3"@.len() != "temple_2"@.len());
    assert("bank_3"@.len() != "temple_3"@.len());
    assert("bank_3"@.len() != "wizard_tower_1"@.len());
    assert("bank_3"@.len() != "wizard_tower_2"@.len());
    assert("bank_3"@.len() != "wizard_tower_3"@.len());
    assert("bank_3"@.len() != "global_1"@.len());
    assert("bank_3"@.len() != "global_2"@.len());
    assert("temple_1"@[7] != "temple_2"@[7]);
    assert("temple_1"@[7] != "temple_3"@[7]);
    assert("temple_1"@.len() != "wizard_tower_1"@.len());
    assert("temple_1"@.len() != "wizard_tower_2"@.len());
    assert("temple_1"@.len() != "wizard_tower_3"@.len());
    assert("temple_1"@[0] != "global_1"@[0]);
    assert("temple_1"@[0] != "global_2"@[0]);
    assert("temple_2"@[7] != "temple_3"@[7]);
    assert("temple_2"@.len() != "wizard_tower_1"@.len());
    assert("temple_2"@.len() != "wizard_tower_2"@.len());
    assert("temple_2"@.len() != "wizard_tower_3"@.len());
    assert("temple_2"@[0] != "global_1"@[0]);
    assert("temple_2"@[0] != "global_2"@[0]);
    assert("temple_3"@.len() != "wizard_tower_1"@.len());
    assert("temple_3"@.len() != "wizard_tower_2"@.len());
    assert("temple_3"@.len() != "wizard_tower_3"@.len());
    assert("temple_3"@[0] != "global_1"@[0]);
    assert("temple_3"@[0] != "global_2"@[0]);
    assert("wizard_tower_1"@[13] != "wizard_tower_2"@[13]);
    assert("wizard_tower_1"@[13] != "wizard_tower_3"@[13]);
    assert("wizard_tower_1"@.len() != "global_1"@.len());
    assert("wizard_tower_1"@.len() != "global_2"@.len());
    assert("wizard_tower_2"@[13] != "wizard_tower_3"@[13]);
    assert("wizard_tower_2"@.len() != "global_1"@.len());
    assert("wizard_tower_2"@.len() != "global_2"@.len());
    assert("wizard_tower_3"@.len() != "global_1"@.len());
    assert("wizard_tower_3"@.len() != "global_2"@.len());
    assert("global_1"@[7] != "global_2"@[7]);
    assert forall|i: int, j: int| 0 <= i < j < t.len() implies t[i].id@ != t[j].id@ by {
        assert(i == 0 || i == 1 || i == 2 || i == 3 || i == 4 || i == 5 || i == 6 || i == 7 || i == 8 || i == 9 || i == 10 || i == 11 || i == 12 || i == 13 || i == 14 || i == 15 || i == 16 || i == 17 || i == 18 || i == 19 || i == 20 || i == 21 || i == 22 || i == 23 || i == 24 || i == 25 || i == 26 || i == 27 || i == 28 || i == 29 || i == 30);
        assert(j == 1 || j == 2 || j == 3 || j == 4 || j == 5 || j == 6 || j == 7 || j == 8 || j == 9 || j == 10 || j == 11 || j == 12 || j == 13 || j == 14 || j == 15 || j == 16 || j == 17 || j == 18 || j == 19 || j == 20 || j == 21 || j == 22 || j == 23 || j == 24 || j == 25 || j == 26 || j == 27 || j == 28 || j == 29 || j == 30 || j == 31);
    }
}

/// The click chain: the first five upgrades act on clicks, the first is
/// always available and each next one unlocks once as many click upgrades
/// as come before it are bought; no other upgrade acts on clicks.
pub proof fn lemma_click_chain()
    ensures
        upgrade_table()[0].unlock is Always,
        forall|k: int|
            1 <= k < 5 ==> #[trigger] upgrade_table()[k].unlock == UnlockCondition::ClickUpgradeCount(
                k as u32,
            ),
        forall|k: int|
            0 <= k < upgrade_table().len() ==> ((#[trigger] upgrade_table()[k].effect is ClickBonus
                || upgrade_table()[k].effect is ClickMultiplier) <==> k < 5),
{
    let t = upgrade_table();
    assert forall|k: int| 1 <= k < 5 implies #[trigger] t[k].unlock == UnlockCondition::ClickUpgradeCount(
        k as u32,
    ) by {
        assert(k == 1 || k == 2 || k == 3 || k == 4);
    }
    assert forall|k: int| 0 <= k < t.len() implies ((#[trigger] t[k].effect is ClickBonus
        || t[k].effect is ClickMultiplier) <==> k < 5) by {
        assert(0 <= k < 32);
        assert(k == 0 || k == 1 || k == 2 || k == 3 || k == 4 || k == 5 || k == 6 || k == 7 || k == 8 || k == 9 || k == 10 || k == 11 || k == 12 || k == 13 || k == 14 || k == 15 || k == 16 || k == 17 || k == 18 || k == 19 || k == 20 || k == 21 || k == 22 || k == 23 || k == 24 || k == 25 || k == 26 || k == 27 || k == 28 || k == 29 || k == 30 || k == 31);
    }
}

/// Whether upgrade `u` doubles the production of building kind `id`.
pub open spec fn doubles(u: UpgradeDef, id: Seq<char>) -> bool {
    match u.effect {
        Effect::BuildingMultiplier { id: b, .. } => b@ == id,
        _ => false,
    }
}

/// How many of the first `n` upgrades double building kind `id`.
pub open spec fn doublers_upto(id: Seq<char>, n: nat) -> nat
    decreases n,
{
    if n == 0 {
        0
    } else {
        doublers_upto(id, (n - 1) as nat) + if doubles(upgrade_table()[n - 1], id) {
            1nat
        } else {
            0nat
        }
    }
}

/// Units owned at which the doublers of one building kind unlock, taken in
/// the order of the table: 1, 5, 25, then 50.
pub open spec fn doubler_min(rank: nat) -> u32 {
    if rank == 0 {
        1
    } else if rank == 1 {
        5
    } else if rank == 2 {
        25
    } else {
        50
    }
}

proof fn lemma_doublers_of_cursor()
    ensures
        doublers_upto("cursor"@, 0) == 0,
        doublers_upto("cursor"@, 1) == 0,
        doublers_upto("cursor"@, 2) == 0,
        doublers_upto("cursor"@, 3) == 0,
        doublers_upto("cursor"@, 4) == 0,
        doublers_upto("cursor"@, 5) == 0,
        doublers_upto("cursor"@, 6) == 1,
        doublers_upto("cursor"@, 7) == 2,
        doublers_upto("cursor"@, 8) == 3,
        doublers_upto("cursor"@, 9) == 3,
        doublers_upto("cursor"@, 10) == 3,
        doublers_upto("cursor"@, 11) == 3,
        doublers_upto("cursor"@, 12) == 3,
        doublers_upto("cursor"@, 13) == 3,
        doublers_upto("cursor"@, 14) == 3,
        doublers_upto("cursor"@, 15) == 3,
        doublers_upto("cursor"@, 16) == 3,
        doublers_upto("cursor"@, 17) == 3,
        doublers_upto("cursor"@, 18) == 3,
        doublers_upto("cursor"@, 19) == 3,
        doublers_upto("cursor"@, 20) == 3,
        doublers_upto("cursor"@, 21) == 3,
        doublers_upto("cursor"@, 22) == 3,
        doublers_upto("cursor"@, 23) == 3,
        doublers_upto("cursor"@, 24) == 3,
        doublers_upto("cursor"@, 25) == 3,
        doublers_upto("cursor"@, 26) == 3,
        doublers_upto("cursor"@, 27) == 3,
        doublers_upto("cursor"@, 28) == 3,
        doublers_upto("cursor"@, 29) == 3,
        doublers_upto("cursor"@, 30) == 3,
        doublers_upto("cursor"@, 31) == 3,
        doublers_upto("cursor"@, 32) == 3,
{
    let t = upgrade_table();
    reveal_strlit("cursor");
    reveal_strlit("grandma");
    assert("grandma"@.len() != "cursor"@.len());
    reveal_strlit("farm");
    assert("farm"@.len() != "cursor"@.len());
    reveal_strlit("mine");
    assert("mine"@.len() != "cursor"@.len());
    reveal_strlit("factory");
    assert("factory"@.len() != "cursor"@.len());
    reveal_strlit("bank");
    assert("bank"@.len() != "cursor"@.len());
    reveal_strlit("temple");
    assert("temple"@[0] != "cursor"@[0]);
    reveal_strlit("wizard_tower");
    assert("wizard_tower"@.len() != "cursor"@.len());
    assert(doublers_upto("cursor"@, 0) == 0);
    assert(doublers_upto("cursor"@, 1) == 0);
    assert(doublers_upto("cursor"@, 2) == 0);
    assert(doublers_upto("cursor"@, 3) == 0);
    assert(doublers_upto("cursor"@, 4) == 0);
    assert(doublers_upto("cursor"@, 5) == 0);
    assert(doublers_upto("cursor"@, 6) == 1);
    assert(doublers_upto("cursor"@, 7) == 2);
    assert(doublers_upto("cursor"@, 8) == 3);
    assert(doublers_upto("cursor"@, 9) == 3);
    assert(doublers_upto("cursor"@, 10) == 3);
    assert(doublers_upto("cursor"@, 11) == 3);
    assert(doublers_upto("cursor"@, 12) == 3);
    assert(doublers_upto("cursor"@, 13) == 3);
    assert(doublers_upto("cursor"@, 14) == 3);
    assert(doublers_upto("cursor"@, 15) == 3);
    assert(doublers_upto("cursor"@, 16) == 3);
    assert(doublers_upto("cursor"@, 17) == 3);
    assert(doublers_upto("cursor"@, 18) == 3);
    assert(doublers_upto("cursor"@, 19) == 3);
    assert(doublers_upto("cursor"@, 20) == 3);
    assert(doublers_upto("cursor"@, 21) == 3);
    assert(doublers_upto("cursor"@, 22) == 3);
    assert(doublers_upto("cursor"@, 23) == 3);
    assert(doublers_upto("cursor"@, 24) == 3);
    assert(doublers_upto("cursor"@, 25) == 3);
    assert(doublers_upto("cursor"@, 26) == 3);
    assert(doublers_upto("cursor"@, 27) == 3);
    assert(doublers_upto("cursor"@, 28) == 3);
    assert(doublers_upto("cursor"@, 29) == 3);
    assert(doublers_upto("cursor"@, 30) == 3);
    assert(doublers_upto("cursor"@, 31) == 3);
    assert(doublers_upto("cursor"@, 32) == 3);
}

proof fn lemma_doublers_of_grandma()
    ensures
        doublers_upto("grandma"@, 0) == 0,
        doublers_upto("grandma"@, 1) == 0,
        doublers_upto("grandma"@, 2) == 0,
        doublers_upto("grandma"@, 3) == 0,
        doublers_upto("grandma"@, 4) == 0,
        doublers_upto("grandma"@, 5) == 0,
        doublers_upto("grandma"@, 6) == 0,
        doublers_upto("grandma"@, 7) == 0,
        doublers_upto("grandma"@, 8) == 0,
        doublers_upto("grandma"@, 9) == 1,
        doublers_upto("grandma"@, 10) == 2,
        doublers_upto("grandma"@, 11) == 3,
        doublers_upto("grandma"@, 12) == 4,
        doublers_upto("grandma"@, 13) == 4,
        doublers_upto("grandma"@, 14) == 4,
        doublers_upto("grandma"@, 15) == 4,
        doublers_upto("grandma"@, 16) == 4,
        doublers_upto("grandma"@, 17) == 4,
        doublers_upto("grandma"@, 18) == 4,
        doublers_upto("grandma"@, 19) == 4,
        doublers_upto("grandma"@, 20) == 4,
        doublers_upto("grandma"@, 21) == 4,
        doublers_upto("grandma"@, 22) == 4,
        doublers_upto("grandma"@, 23) == 4,
        doublers_upto("grandma"@, 24) == 4,
        doublers_upto("grandma"@, 25) == 4,
        doublers_upto("grandma"@, 26) == 4,
        doublers_upto("grandma"@, 27) == 4,
        doublers_upto("grandma"@, 28) == 4,
        doublers_upto("grandma"@, 29) == 4,
        doublers_upto("grandma"@, 30) == 4,
        doublers_upto("grandma"@, 31) == 4,
        doublers_upto("grandma"@, 32) == 4,
{
    let t = upgrade_table();
    reveal_strlit("grandma");
    reveal_strlit("cursor");
    assert("cursor"@.len() != "grandma"@.len());
    reveal_strlit("farm");
    assert("farm"@.len() != "grandma"@.len());
    reveal_strlit("mine");
    assert("mine"@.len() != "grandma"@.len());
    reveal_strlit("factory");
    assert("factory"@[0] != "grandma"@[0]);
    reveal_strlit("bank");
    assert("bank"@.len() != "grandma"@.len());
    reveal_strlit("temple");
    assert("temple"@.len() != "grandma"@.len());
    reveal_strlit("wizard_tower");
    assert("wizard_tower"@.len() != "grandma"@.len());
    assert(doublers_upto("grandma"@, 0) == 0);
    assert(doublers_upto("grandma"@, 1) == 0);
    assert(doublers_upto("grandma"@, 2) == 0);
    assert(doublers_upto("grandma"@, 3) == 0);
    assert(doublers_upto("grandma"@, 4) == 0);
    assert(doublers_upto("grandma"@, 5) == 0);
    assert(doublers_upto("grandma"@, 6) == 0);
    assert(doublers_upto("grandma"@, 7) == 0);
    assert(doublers_upto("grandma"@, 8) == 0);
    assert(doublers_upto("grandma"@, 9) == 1);
    assert(doublers_upto("grandma"@, 10) == 2);
    assert(doublers_upto("grandma"@, 11) == 3);
    assert(doublers_upto("grandma"@, 12) == 4);
    assert(doublers_upto("grandma"@, 13) == 4);
    assert(doublers_upto("grandma"@, 14) == 4);
    assert(doublers_upto("grandma"@, 15) == 4);
    assert(doublers_upto("grandma"@, 16) == 4);
    assert(doublers_upto("grandma"@, 17) == 4);
    assert(doublers_upto("grandma"@, 18) == 4);
    assert(doublers_upto("grandma"@, 19) == 4);
    assert(doublers_upto("grandma"@, 20) == 4);
    assert(doublers_upto("grandma"@, 21) == 4);
    assert(doublers_upto("grandma"@, 22) == 4);
    assert(doublers_upto("grandma"@, 23) == 4);
    assert(doublers_upto("grandma"@, 24) == 4);
    assert(doublers_upto("grandma"@, 25) == 4);
    assert(doublers_upto("grandma"@, 26) == 4);
    assert(doublers_upto("grandma"@, 27) == 4);
    assert(doublers_upto("grandma"@, 28) == 4);
    assert(doublers_upto("grandma"@, 29) == 4);
    assert(doublers_upto("grandma"@, 30) == 4);
    assert(doublers_upto("grandma"@, 31) == 4);
    assert(doublers_upto("grandma"@, 32) == 4);
}

proof fn lemma_doublers_of_farm()
    ensures
        doublers_upto("farm"@, 0) == 0,
        doublers_upto("farm"@, 1) == 0,
        doublers_upto("farm"@, 2) == 0,
        doublers_upto("farm"@, 3) == 0,
        doublers_upto("farm"@, 4) == 0,
        doublers_upto("farm"@, 5) == 0,
        doublers_upto("farm"@, 6) == 0,
        doublers_upto("farm"@, 7) == 0,
        doublers_upto("farm"@, 8) == 0,
        doublers_upto("farm"@, 9) == 0,
        doublers_upto("farm"@, 10) == 0,
        doublers_upto("farm"@, 11) == 0,
        doublers_upto("farm"@, 12) == 0,
        doublers_upto("farm"@, 13) == 1,
        doublers_upto("farm"@, 14) == 2,
        doublers_upto("farm"@, 15) == 3,
        doublers_upto("farm"@, 16) == 3,
        doublers_upto("farm"@, 17) == 3,
        doublers_upto("farm"@, 18) == 3,
        doublers_upto("farm"@, 19) == 3,
        doublers_upto("farm"@, 20) == 3,
        doublers_upto("farm"@, 21) == 3,
        doublers_upto("farm"@, 22) == 3,
        doublers_upto("farm"@, 23) == 3,
        doublers_upto("farm"@, 24) == 3,
        doublers_upto("farm"@, 25) == 3,
        doublers_upto("farm"@, 26) == 3,
        doublers_upto("farm"@, 27) == 3,
        doublers_upto("farm"@, 28) == 3,
        doublers_upto("farm"@, 29) == 3,
        doublers_upto("farm"@, 30) == 3,
        doublers_upto("farm"@, 31) == 3,
        doublers_upto("farm"@, 32) == 3,
{
    let t = upgrade_table();
    reveal_strlit("farm");
    reveal_strlit("cursor");
    assert("cursor"@.len() != "farm"@.len());
    reveal_strlit("grandma");
    assert("grandma"@.len() != "farm"@.len());
    reveal_strlit("mine");
    assert("mine"@[0] != "farm"@[0]);
    reveal_strlit("factory");
    assert("factory"@.len() != "farm"@.len());
    reveal_strlit("bank");
    assert("bank"@[0] != "farm"@[0]);
    reveal_strlit("temple");
    assert("temple"@.len() != "farm"@.len());
    reveal_strlit("wizard_tower");
    assert("wizard_tower"@.len() != "farm"@.len());
    assert(doublers_upto("farm"@, 0) == 0);
    assert(doublers_upto("farm"@, 1) == 0);
    assert(doublers_upto("farm"@, 2) == 0);
    assert(doublers_upto("farm"@, 3) == 0);
    assert(doublers_upto("farm"@, 4) == 0);
    assert(doublers_upto("farm"@, 5) == 0);
    assert(doublers_upto("farm"@, 6) == 0);
    assert(doublers_upto("farm"@, 7) == 0);
    assert(doublers_upto("farm"@, 8) == 0);
    assert(doublers_upto("farm"@, 9) == 0);
    assert(doublers_upto("farm"@, 10) == 0);
    assert(doublers_upto("farm"@, 11) == 0);
    assert(doublers_upto("farm"@, 12) == 0);
    assert(doublers_upto("farm"@, 13) == 1);
    assert(doublers_upto("farm"@, 14) == 2);
    assert(doublers_upto("farm"@, 15) == 3);
    assert(doublers_upto("farm"@, 16) == 3);
    assert(doublers_upto("farm"@, 17) == 3);
    assert(doublers_upto("farm"@, 18) == 3);
    assert(doublers_upto("farm"@, 19) == 3);
    assert(doublers_upto("farm"@, 20) == 3);
    assert(doublers_upto("farm"@, 21) == 3);
    assert(doublers_upto("farm"@, 22) == 3);
    assert(doublers_upto("farm"@, 23) == 3);
    assert(doublers_upto("farm"@, 24) == 3);
    assert(doublers_upto("farm"@, 25) == 3);
    assert(doublers_upto("farm"@, 26) == 3);
    assert(doublers_upto("farm"@, 27) == 3);
    assert(doublers_upto("farm"@, 28) == 3);
    assert(doublers_upto("farm"@, 29) == 3);
    assert(doublers_upto("farm"@, 30) == 3);
    assert(doublers_upto("farm"@, 31) == 3);
    assert(doublers_upto("farm"@, 32) == 3);
}

proof fn lemma_doublers_of_mine()
    ensures
        doublers_upto("mine"@, 0) == 0,
        doublers_upto("mine"@, 1) == 0,
        doublers_upto("mine"@, 2) == 0,
        doublers_upto("mine"@, 3) == 0,
        doublers_upto("mine"@, 4) == 0,
        doublers_upto("mine"@, 5) == 0,
        doublers_upto("mine"@, 6) == 0,
        doublers_upto("mine"@, 7) == 0,
        doublers_upto("mine"@, 8) == 0,
        doublers_upto("mine"@, 9) == 0,
        doublers_upto("mine"@, 10) == 0,
        doublers_upto("mine"@, 11) == 0,
        doublers_upto("mine"@, 12) == 0,
        doublers_upto("mine"@, 13) == 0,
        doublers_upto("mine"@, 14) == 0,
        doublers_upto("mine"@, 15) == 0,
        doublers_upto("mine"@, 16) == 1,
        doublers_upto("mine"@, 17) == 2,
        doublers_upto("mine"@, 18) == 3,
        doublers_upto("mine"@, 19) == 3,
        doublers_upto("mine"@, 20) == 3,
        doublers_upto("mine"@, 21) == 3,
        doublers_upto("mine"@, 22) == 3,
        doublers_upto("mine"@, 23) == 3,
        doublers_upto("mine"@, 24) == 3,
        doublers_upto("mine"@, 25) == 3,
        doublers_upto("mine"@, 26) == 3,
        doublers_upto("mine"@, 27) == 3,
        doublers_upto("mine"@, 28) == 3,
        doublers_upto("mine"@, 29) == 3,
        doublers_upto("mine"@, 30) == 3,
        doublers_upto("mine"@, 31) == 3,
        doublers_upto("mine"@, 32) == 3,
{
    let t = upgrade_table();
    reveal_strlit("mine");
    reveal_strlit("cursor");
    assert("cursor"@.len() != "mine"@.len());
    reveal_strlit("grandma");
    assert("grandma"@.len() != "mine"@.len());
    reveal_strlit("farm");
    assert("farm"@[0] != "mine"@[0]);
    reveal_strlit("factory");
    assert("factory"@.len() != "mine"@.len());
    reveal_strlit("bank");
    assert("bank"@[0] != "mine"@[0]);
    reveal_strlit("temple");
    assert("temple"@.len() != "mine"@.len());
    reveal_strlit("wizard_tower");
    assert("wizard_tower"@.len() != "mine"@.len());
    assert(doublers_upto("mine"@, 0) == 0);
    assert(doublers_upto("mine"@, 1) == 0);
    assert(doublers_upto("mine"@, 2) == 0);
    assert(doublers_upto("mine"@, 3) == 0);
    assert(doublers_upto("mine"@, 4) == 0);
    assert(doublers_upto("mine"@, 5) == 0);
    assert(doublers_upto("mine"@, 6) == 0);
    assert(doublers_upto("mine"@, 7) == 0);
    assert(doublers_upto("mine"@, 8) == 0);
    assert(doublers_upto("mine"@, 9) == 0);
    assert(doublers_upto("mine"@, 10) == 0);
    assert(doublers_upto("mine"@, 11) == 0);
    assert(doublers_upto("mine"@, 12) == 0);
    assert(doublers_upto("mine"@, 13) == 0);
    assert(doublers_upto("mine"@, 14) == 0);
    assert(doublers_upto("mine"@, 15) == 0);
    assert(doublers_upto("mine"@, 16) == 1);
    assert(doublers_upto("mine"@, 17) == 2);
    assert(doublers_upto("mine"@, 18) == 3);
    assert(doublers_upto("mine"@, 19) == 3);
    assert(doublers_upto("mine"@, 20) == 3);
    assert(doublers_upto("mine"@, 21) == 3);
    assert(doublers_upto("mine"@, 22) == 3);
    assert(doublers_upto("mine"@, 23) == 3);
    assert(doublers_upto("mine"@, 24) == 3);
    assert(doublers_upto("mine"@, 25) == 3);
    assert(doublers_upto("mine"@, 26) == 3);
    assert(doublers_upto("mine"@, 27) == 3);
    assert(doublers_upto("mine"@, 28) == 3);
    assert(doublers_upto("mine"@, 29) == 3);
    assert(doublers_upto("mine"@, 30) == 3);
    assert(doublers_upto("mine"@, 31) == 3);
    assert(doublers_upto("mine"@, 32) == 3);
}

proof fn lemma_doublers_of_factory()
    ensures
        doublers_upto("factory"@, 0) == 0,
        doublers_upto("factory"@, 1) == 0,
        doublers_upto("factory"@, 2) == 0,
        doublers_upto("factory"@, 3) == 0,
        doublers_upto("factory"@, 4) == 0,
        doublers_upto("factory"@, 5) == 0,
        doublers_upto("factory"@, 6) == 0,
        doublers_upto("factory"@, 7) == 0,
        doublers_upto("factory"@, 8) == 0,
        doublers_upto("factory"@, 9) == 0,
        doublers_upto("factory"@, 10) == 0,
        doublers_upto("factory"@, 11) == 0,
        doublers_upto("factory"@, 12) == 0,
        doublers_upto("factory"@, 13) == 0,
        doublers_upto("factory"@, 14) == 0,
        doublers_upto("factory"@, 15) == 0,
        doublers_upto("factory"@, 16) == 0,
        doublers_upto("factory"@, 17) == 0,
        doublers_upto("factory"@, 18) == 0,
        doublers_upto("factory"@, 19) == 1,
        doublers_upto("factory"@, 20) == 2,
        doublers_upto("factory"@, 21) == 3,
        doublers_upto("factory"@, 22) == 3,
        doublers_upto("factory"@, 23) == 3,
        doublers_upto("factory"@, 24) == 3,
        doublers_upto("factory"@, 25) == 3,
        doublers_upto("factory"@, 26) == 3,
        doublers_upto("factory"@, 27) == 3,
        doublers_upto("factory"@, 28) == 3,
        doublers_upto("factory"@, 29) == 3,
        doublers_upto("factory"@, 30) == 3,
        doublers_upto("factory"@, 31) == 3,
        doublers_upto("factory"@, 32) == 3,
{
    let t = upgrade_table();
    reveal_strlit("factory");
    reveal_strlit("cursor");
    assert("cursor"@.len() != "factory"@.len());
    reveal_strlit("grandma");
    assert("grandma"@[0] != "factory"@[0]);
    reveal_strlit("farm");
    assert("farm"@.len() != "factory"@.len());
    reveal_strlit("mine");
    assert("mine"@.len() != "factory"@.len());
    reveal_strlit("bank");
    assert("bank"@.len() != "factory"@.len());
    reveal_strlit("temple");
    assert("temple"@.len() != "factory"@.len());
    reveal_strlit("wizard_tower");
    assert("wizard_tower"@.len() != "factory"@.len());
    assert(doublers_upto("factory"@, 0) == 0);
    assert(doublers_upto("factory"@, 1) == 0);
    assert(doublers_upto("factory"@, 2) == 0);
    assert(doublers_upto("factory"@, 3) == 0);
    assert(doublers_upto("factory"@, 4) == 0);
    assert(doublers_upto("factory"@, 5) == 0);
    assert(doublers_upto("factory"@, 6) == 0);
    assert(doublers_upto("factory"@, 7) == 0);
    assert(doublers_upto("factory"@, 8) == 0);
    assert(doublers_upto("factory"@, 9) == 0);
    assert(doublers_upto("factory"@, 10) == 0);
    assert(doublers_upto("factory"@, 11) == 0);
    assert(doublers_upto("factory"@, 12) == 0);
    assert(doublers_upto("factory"@, 13) == 0);
    assert(doublers_upto("factory"@, 14) == 0);
    assert(doublers_upto("factory"@, 15) == 0);
    assert(doublers_upto("factory"@, 16) == 0);
    assert(doublers_upto("factory"@, 17) == 0);
    assert(doublers_upto("factory"@, 18) == 0);
    assert(doublers_upto("factory"@, 19) == 1);
    assert(doublers_upto("factory"@, 20) == 2);
    assert(doublers_upto("factory"@, 21) == 3);
    assert(doublers_upto("factory"@, 22) == 3);
    assert(doublers_upto("factory"@, 23) == 3);
    assert(doublers_upto("factory"@, 24) == 3);
    assert(doublers_upto("factory"@, 25) == 3);
    assert(doublers_upto("factory"@, 26) == 3);
    assert(doublers_upto("factory"@, 27) == 3);
    assert(doublers_upto("factory"@, 28) == 3);
    assert(doublers_upto("factory"@, 29) == 3);
    assert(doublers_upto("factory"@, 30) == 3);
    assert(doublers_upto("factory"@, 31) == 3);
    assert(doublers_upto("factory"@, 32) == 3);
}

proof fn lemma_doublers_of_bank()
    ensures
        doublers_upto("bank"@, 0) == 0,
        doublers_upto("bank"@, 1) == 0,
        doublers_upto("bank"@, 2) == 0,
        doublers_upto("bank"@, 3) == 0,
        doublers_upto("bank"@, 4) == 0,
        doublers_upto("bank"@, 5) == 0,
        doublers_upto("bank"@, 6) == 0,
        doublers_upto("bank"@, 7) == 0,
        doublers_upto("bank"@, 8) == 0,
        doublers_upto("bank"@, 9) == 0,
        doublers_upto("bank"@, 10) == 0,
        doublers_upto("bank"@, 11) == 0,
        doublers_upto("bank"@, 12) == 0,
        doublers_upto("bank"@, 13) == 0,
        doublers_upto("bank"@, 14) == 0,
        doublers_upto("bank"@, 15) == 0,
        doublers_upto("bank"@, 16) == 0,
        doublers_upto("bank"@, 17) == 0,
        doublers_upto("bank"@, 18) == 0,
        doublers_upto("bank"@, 19) == 0,
        doublers_upto("bank"@, 20) == 0,
        doublers_upto("bank"@, 21) == 0,
        doublers_upto("bank"@, 22) == 1,
        doublers_upto("bank"@, 23) == 2,
        doublers_upto("bank"@, 24) == 3,
        doublers_upto("bank"@, 25) == 3,
        doublers_upto("bank"@, 26) == 3,
        doublers_upto("bank"@, 27) == 3,
        doublers_upto("bank"@, 28) == 3,
        doublers_upto("bank"@, 29) == 3,
        doublers_upto("bank"@, 30) == 3,
        doublers_upto("bank"@, 31) == 3,
        doublers_upto("bank"@, 32) == 3,
{
    let t = upgrade_table();
    reveal_strlit("bank");
    reveal_strlit("cursor");
    assert("cursor"@.len() != "bank"@.len());
    reveal_strlit("grandma");
    assert("grandma"@.len() != "bank"@.len());
    reveal_strlit("farm");
    assert("farm"@[0] != "bank"@[0]);
    reveal_strlit("mine");
    assert("mine"@[0] != "bank"@[0]);
    reveal_strlit("factory");
    assert("factory"@.len() != "bank"@.len());
    reveal_strlit("temple");
    assert("temple"@.len() != "bank"@.len());
    reveal_strlit("wizard_tower");
    assert("wizard_tower"@.len() != "bank"@.len());
    assert(doublers_upto("bank"@, 0) == 0);
    assert(doublers_upto("bank"@, 1) == 0);
    assert(doublers_upto("bank"@, 2) == 0);
    assert(doublers_upto("bank"@, 3) == 0);
    assert(doublers_upto("bank"@, 4) == 0);
    assert(doublers_upto("bank"@, 5) == 0);
    assert(doublers_upto("bank"@, 6) == 0);
    assert(doublers_upto("bank"@, 7) == 0);
    assert(doublers_upto("bank"@, 8) == 0);
    assert(doublers_upto("bank"@, 9) == 0);
    assert(doublers_upto("bank"@, 10) == 0);
    assert(doublers_upto("bank"@, 11) == 0);
    assert(doublers_upto("bank"@, 12) == 0);
    assert(doublers_upto("bank"@, 13) == 0);
    assert(doublers_upto("bank"@, 14) == 0);
    assert(doublers_upto("bank"@, 15) == 0);
    assert(doublers_upto("bank"@, 16) == 0);
    assert(doublers_upto("bank"@, 17) == 0);
    assert(doublers_upto("bank"@, 18) == 0);
    assert(doublers_upto("bank"@, 19) == 0);
    assert(doublers_upto("bank"@, 20) == 0);
    assert(doublers_upto("bank"@, 21) == 0);
    assert(doublers_upto("bank"@, 22) == 1);
    assert(doublers_upto("bank"@, 23) == 2);
    assert(doublers_upto("bank"@, 24) == 3);
    assert(doublers_upto("bank"@, 25) == 3);
    assert(doublers_upto("bank"@, 26) == 3);
    assert(doublers_upto("bank"@, 27) == 3);
    assert(doublers_upto("bank"@, 28) == 3);
    assert(doublers_upto("bank"@, 29) == 3);
    assert(doublers_upto("bank"@, 30) == 3);
    assert(doublers_upto("bank"@, 31) == 3);
    assert(doublers_upto("bank"@, 32) == 3);
}

proof fn lemma_doublers_of_temple()
    ensures
        doublers_upto("temple"@, 0) == 0,
        doublers_upto("temple"@, 1) == 0,
        doublers_upto("temple"@, 2) == 0,
        doublers_upto("temple"@, 3) == 0,
        doublers_upto("temple"@, 4) == 0,
        doublers_upto("temple"@, 5) == 0,
        doublers_upto("temple"@, 6) == 0,
        doublers_upto("temple"@, 7) == 0,
        doublers_upto("temple"@, 8) == 0,
        doublers_upto("temple"@, 9) == 0,
        doublers_upto("temple"@, 10) == 0,
        doublers_upto("temple"@, 11) == 0,
        doublers_upto("temple"@, 12) == 0,
        doublers_upto("temple"@, 13) == 0,
        doublers_upto("temple"@, 14) == 0,
        doublers_upto("temple"@, 15) == 0,
        doublers_upto("temple"@, 16) == 0,
        doublers_upto("temple"@, 17) == 0,
        doublers_upto("temple"@, 18) == 0,
        doublers_upto("temple"@, 19) == 0,
        doublers_upto("temple"@, 20) == 0,
        doublers_upto("temple"@, 21) == 0,
        doublers_upto("temple"@, 22) == 0,
        doublers_upto("temple"@, 23) == 0,
        doublers_upto("temple"@, 24) == 0,
        doublers_upto("temple"@, 25) == 1,
        doublers_upto("temple"@, 26) == 2,
        doublers_upto("temple"@, 27) == 3,
        doublers_upto("temple"@, 28) == 3,
        doublers_upto("temple"@, 29) == 3,
        doublers_upto("temple"@, 30) == 3,
        doublers_upto("temple"@, 31) == 3,
        doublers_upto("temple"@, 32) == 3,
{
    let t = upgrade_table();
    reveal_strlit("temple");
    reveal_strlit("cursor");
    assert("cursor"@[0] != "temple"@[0]);
    reveal_strlit("grandma");
    assert("grandma"@.len() != "temple"@.len());
    reveal_strlit("farm");
    assert("farm"@.len() != "temple"@.len());
    reveal_strlit("mine");
    assert("mine"@.len() != "temple"@.len());
    reveal_strlit("factory");
    assert("factory"@.len() != "temple"@.len());
    reveal_strlit("bank");
    assert("bank"@.len() != "temple"@.len());
    reveal_strlit("wizard_tower");
    assert("wizard_tower"@.len() != "temple"@.len());
    assert(doublers_upto("temple"@, 0) == 0);
    assert(doublers_upto("temple"@, 1) == 0);
    assert(doublers_upto("temple"@, 2) == 0);
    assert(doublers_upto("temple"@, 3) == 0);
    assert(doublers_upto("temple"@, 4) == 0);
    assert(doublers_upto("temple"@, 5) == 0);
    assert(doublers_upto("temple"@, 6) == 0);
    assert(doublers_upto("temple"@, 7) == 0);
    assert(doublers_upto("temple"@, 8) == 0);
    assert(doublers_upto("temple"@, 9) == 0);
    assert(doublers_upto("temple"@, 10) == 0);
    assert(doublers_upto("temple"@, 11) == 0);
    assert(doublers_upto("temple"@, 12) == 0);
    assert(doublers_upto("temple"@, 13) == 0);
    assert(doublers_upto("temple"@, 14) == 0);
    assert(doublers_upto("temple"@, 15) == 0);
    assert(doublers_upto("temple"@, 16) == 0);
    assert(doublers_upto("temple"@, 17) == 0);
    assert(doublers_upto("temple"@, 18) == 0);
    assert(doublers_upto("temple"@, 19) == 0);
    assert(doublers_upto("temple"@, 20) == 0);
    assert(doublers_upto("temple"@, 21) == 0);
    assert(doublers_upto("temple"@, 22) == 0);
    assert(doublers_upto("temple"@, 23) == 0);
    assert(doublers_upto("temple"@, 24) == 0);
    assert(doublers_upto("temple"@, 25) == 1);
    assert(doublers_upto("temple"@, 26) == 2);
    assert(doublers_upto("temple"@, 27) == 3);
    assert(doublers_upto("temple"@, 28) == 3);
    assert(doublers_upto("temple"@, 29) == 3);
    assert(doublers_upto("temple"@, 30) == 3);
    assert(doublers_upto("temple"@, 31) == 3);
    assert(doublers_upto("temple"@, 32) == 3);
}

proof fn lemma_doublers_of_wizard_tower()
    ensures
        doublers_upto("wizard_tower"@, 0) == 0,
        doublers_upto("wizard_tower"@, 1) == 0,
        doublers_upto("wizard_tower"@, 2) == 0,
        doublers_upto("wizard_tower"@, 3) == 0,
        doublers_upto("wizard_tower"@, 4) == 0,
        doublers_upto("wizard_tower"@, 5) == 0,
        doublers_upto("wizard_tower"@, 6) == 0,
        doublers_upto("wizard_tower"@, 7) == 0,
        doublers_upto("wizard_tower"@, 8) == 0,
        doublers_upto("wizard_tower"@, 9) == 0,
        doublers_upto("wizard_tower"@, 10) == 0,
        doublers_upto("wizard_tower"@, 11) == 0,
        doublers_upto("wizard_tower"@, 12) == 0,
        doublers_upto("wizard_tower"@, 13) == 0,
        doublers_upto("wizard_tower"@, 14) == 0,
        doublers_upto("wizard_tower"@, 15) == 0,
        doublers_upto("wizard_tower"@, 16) == 0,
        doublers_upto("wizard_tower"@, 17) == 0,
        doublers_upto("wizard_tower"@, 18) == 0,
        doublers_upto("wizard_tower"@, 19) == 0,
        doublers_upto("wizard_tower"@, 20) == 0,
        doublers_upto("wizard_tower"@, 21) == 0,
        doublers_upto("wizard_tower"@, 22) == 0,
        doublers_upto("wizard_tower"@, 23) == 0,
        doublers_upto("wizard_tower"@, 24) == 0,
        doublers_upto("wizard_tower"@, 25) == 0,
        doublers_upto("wizard_tower"@, 26) == 0,
        doublers_upto("wizard_tower"@, 27) == 0,
        doublers_upto("wizard_tower"@, 28) == 1,
        doublers_upto("wizard_tower"@, 29) == 2,
        doublers_upto("wizard_tower"@, 30) == 3,
        doublers_upto("wizard_tower"@, 31) == 3,
        doublers_upto("wizard_tower"@, 32) == 3,
{
    let t = upgrade_table();
    reveal_strlit("wizard_tower");
    reveal_strlit("cursor");
    assert("cursor"@.len() != "wizard_tower"@.len());
    reveal_strlit("grandma");
    assert("grandma"@.len() != "wizard_tower"@.len());
    reveal_strlit("farm");
    assert("farm"@.len() != "wizard_tower"@.len());
    reveal_strlit("mine");
    assert("mine"@.len() != "wizard_tower"@.len());
    reveal_strlit("factory");
    assert("factory"@.len() != "wizard_tower"@.len());
    reveal_strlit("bank");
    assert("bank"@.len() != "wizard_tower"@.len());
    reveal_strlit("temple");
    assert("temple"@.len() != "wizard_tower"@.len());
    assert(doublers_upto("wizard_tower"@, 0) == 0);
    assert(doublers_upto("wizard_tower"@, 1) == 0);
    assert(doublers_upto("wizard_tower"@, 2) == 0);
    assert(doublers_upto("wizard_tower"@, 3) == 0);
    assert(doublers_upto("wizard_tower"@, 4) == 0);
    assert(doublers_upto("wizard_tower"@, 5) == 0);
    assert(doublers_upto("wizard_tower"@, 6) == 0);
    assert(doublers_upto("wizard_tower"@, 7) == 0);
    assert(doublers_upto("wizard_tower"@, 8) == 0);
    assert(doublers_upto("wizard_tower"@, 9) == 0);
    assert(doublers_upto("wizard_tower"@, 10) == 0);
    assert(doublers_upto("wizard_tower"@, 11) == 0);
    assert(doublers_upto("wizard_tower"@, 12) == 0);
    assert(doublers_upto("wizard_tower"@, 13) == 0);
    assert(doublers_upto("wizard_tower"@, 14) == 0);
    assert(doublers_upto("wizard_tower"@, 15) == 0);
    assert(doublers_upto("wizard_tower"@, 16) == 0);
    assert(doublers_upto("wizard_tower"@, 17) == 0);
    assert(doublers_upto("wizard_tower"@, 18) == 0);
    assert(doublers_upto("wizard_tower"@, 19) == 0);
    assert(doublers_upto("wizard_tower"@, 20) == 0);
    assert(doublers_upto("wizard_tower"@, 21) == 0);
    assert(doublers_upto("wizard_tower"@, 22) == 0);
    assert(doublers_upto("wizard_tower"@, 23) == 0);
    assert(doublers_upto("wizard_tower"@, 24) == 0);
    assert(doublers_upto("wizard_tower"@, 25) == 0);
    assert(doublers_upto("wizard_tower"@, 26) == 0);
    assert(doublers_upto("wizard_tower"@, 27) == 0);
    assert(doublers_upto("wizard_tower"@, 28) == 1);
    assert(doublers_upto("wizard_tower"@, 29) == 2);
    assert(doublers_upto("wizard_tower"@, 30) == 3);
    assert(doublers_upto("wizard_tower"@, 31) == 3);
    assert(doublers_upto("wizard_tower"@, 32) == 3);
}

/// Each building kind has three or four doublers; each doubles its kind's
/// production and unlocks once enough units of that kind are owned, the
/// doublers of one kind unlocking at 1, 5, 25 and 50 units in turn; every
/// kind that an upgrade names is a building kind of the game.
pub proof fn lemma_building_doublers()
    ensures
        forall|b: int|
            0 <= b < building_table().len() ==> 3 <= #[trigger] doublers_upto(
                building_table()[b].id@,
                upgrade_table().len(),
            ) <= 4,
        forall|k: int|
            0 <= k < upgrade_table().len() ==> ((#[trigger] upgrade_table()[k].effect is BuildingMultiplier)
                <==> upgrade_table()[k].unlock is OwnBuilding),
        forall|k: int|
            0 <= k < upgrade_table().len() && (#[trigger] upgrade_table()[k].effect is BuildingMultiplier)
                ==> {
                let id = upgrade_table()[k].effect->BuildingMultiplier_id;
                &&& upgrade_table()[k].effect->factor == 2
                &&& upgrade_table()[k].unlock == UnlockCondition::OwnBuilding {
                    id,
                    min: doubler_min(doublers_upto(id@, k as nat)),
                }
                &&& exists|b: int| 0 <= b < building_table().len() && #[trigger] building_table()[b].id@ == id@
            },
{
    let t = upgrade_table();
    let bt = building_table();
    lemma_doublers_of_cursor();
    lemma_doublers_of_grandma();
    lemma_doublers_of_farm();
    lemma_doublers_of_mine();
    lemma_doublers_of_factory();
    lemma_doublers_of_bank();
    lemma_doublers_of_temple();
    lemma_doublers_of_wizard_tower();
    assert(bt[0].id@ == "cursor"@);
    assert(bt[1].id@ == "grandma"@);
    assert(bt[2].id@ == "farm"@);
    assert(bt[3].id@ == "mine"@);
    assert(bt[4].id@ == "factory"@);
    assert(bt[5].id@ == "bank"@);
    assert(bt[6].id@ == "temple"@);
    assert(bt[7].id@ == "wizard_tower"@);
    assert forall|b: int| 0 <= b < bt.len() implies 3 <= #[trigger] doublers_upto(
        bt[b].id@,
        t.len(),
    ) <= 4 by {
        assert(b == 0 || b == 1 || b == 2 || b == 3 || b == 4 || b == 5 || b == 6 || b == 7);
    }
    assert forall|k: int| 0 <= k < t.len() implies ((#[trigger] t[k].effect is BuildingMultiplier)
        <==> t[k].unlock is OwnBuilding) by {
        assert(k == 0 || k == 1 || k == 2 || k == 3 || k == 4 || k == 5 || k == 6 || k == 7 || k == 8 || k == 9 || k == 10 || k == 11 || k == 12 || k == 13 || k == 14 || k == 15 || k == 16 || k == 17 || k == 18 || k == 19 || k == 20 || k == 21 || k == 22 || k == 23 || k == 24 || k == 25 || k == 26 || k == 27 || k == 28 || k == 29 || k == 30 || k == 31);
    }
    assert forall|k: int| 0 <= k < t.len() && (#[trigger] t[k].effect is BuildingMultiplier) implies {
        let id = t[k].effect->BuildingMultiplier_id;
        &&& t[k].effect->factor == 2
        &&& t[k].unlock == UnlockCondition::OwnBuilding {
            id,
            min: doubler_min(doublers_upto(id@, k as nat)),
        }
        &&& exists|b: int| 0 <= b < bt.len() && #[trigger] bt[b].id@ == id@
    } by {
        assert(k == 0 || k == 1 || k == 2 || k == 3 || k == 4 || k == 5 || k == 6 || k == 7 || k == 8 || k == 9 || k == 10 || k == 11 || k == 12 || k == 13 || k == 14 || k == 15 || k == 16 || k == 17 || k == 18 || k == 19 || k == 20 || k == 21 || k == 22 || k == 23 || k == 24 || k == 25 || k == 26 || k == 27 || k == 28 || k == 29 || k == 30 || k == 31);
    }
}

} // verus!
