use vstd::prelude::*;

use crate::game::amount::COOKIE;
use crate::text::{
    decimal, digit_char, lemma_decimal_plain, lemma_plain_concat, plain, push_char, push_decimal,
};
use vstd::arithmetic::div_mod::lemma_fundamental_div_mod_converse;
use vstd::arithmetic::power2::{
    lemma2_to64, lemma2_to64_rest, lemma_pow2_adds, lemma_pow2_pos, lemma_pow2_strictly_increases,
    lemma_pow2_unfold, pow2,
};

verus! {

/// `n / d` rounded to the nearest whole number, a tie going to the even
/// one.
pub open spec fn div_round(n: int, d: int) -> int {
    let q = n / d;
    let r = n % d;
    if 2 * r > d || (2 * r == d && q % 2 == 1) {
        q + 1
    } else {
        q
    }
}

/// `t` tenths written with one decimal place.
pub open spec fn tenths(t: nat) -> Seq<char> {
    decimal(t / 10) + seq!['.', digit_char((t % 10) as int)]
}

/// Binary fractions are held as whole numbers at this scale: `v` as
/// `v · 2^128`.
pub open spec fn fixed_one() -> int {
    pow2(128) as int
}

/// Whether `a / b`, held at the scale of `fixed_one`, lies between `2^52`
/// and `2^53` units of `2^s`: then `2^s` is the last place of the double
/// (53 significant bits) nearest to it.
pub open spec fn in_binade(a: int, b: int, s: nat) -> bool {
    pow2(52 + s) * b <= a * fixed_one() && a * fixed_one() < pow2(53 + s) * b
}

/// The last place of the double nearest to `a / b`.
pub open spec fn last_place(a: int, b: int) -> nat {
    choose|s: nat| in_binade(a, b, s)
}

/// The double nearest to `a / b` (a tie going to the even last bit), held at
/// the scale of `fixed_one`.
pub open spec fn nearest_double(a: int, b: int) -> int {
    if a <= 0 {
        0
    } else {
        let s = last_place(a, b);
        div_round(a * fixed_one(), b * pow2(s)) * pow2(s)
    }
}

/// Shortest form of `n` micro-cookies, as the game writes its amount `x`, a
/// double: `x` rounded to a whole number below a thousand, else `x` divided
/// by a thousand (k), a million (M), a billion (B) or a trillion (T), that
/// quotient being a double too, rounded to one decimal place. Each rounding
/// to decimal goes to the nearest, a tie going to the even digit.
pub open spec fn cookies_text(n: u128) -> Seq<char> {
    let one = fixed_one();
    let x = nearest_double(n as int, COOKIE as int);
    if x < 1_000 * one {
        decimal(div_round(x, one) as nat)
    } else if x < 1_000_000 * one {
        tenths(div_round(10 * nearest_double(x, 1_000 * one), one) as nat) + seq!['k']
    } else if x < 1_000_000_000 * one {
        tenths(div_round(10 * nearest_double(x, 1_000_000 * one), one) as nat) + seq!['M']
    } else if x < 1_000_000_000_000 * one {
        tenths(div_round(10 * nearest_double(x, 1_000_000_000 * one), one) as nat) + seq!['B']
    } else {
        tenths(div_round(10 * nearest_double(x, 1_000_000_000_000 * one), one) as nat) + seq!['T']
    }
}

proof fn lemma_div_round_scale(n: int, d: int, c: int)
    requires
        n >= 0,
        d > 0,
        c > 0,
    ensures
        div_round(n * c, d * c) == div_round(n, d),
{
    let q = n / d;
    let r = n % d;
    assert(n == q * d + r && 0 <= r < d) by (nonlinear_arith)
        requires d > 0, q == n / d, r == n % d;
    assert(n * c == q * (d * c) + r * c && 0 <= r * c < d * c) by (nonlinear_arith)
        requires n == q * d + r, 0 <= r < d, c > 0;
    lemma_fundamental_div_mod_converse(n * c, d * c, q, r * c);
    assert((2 * r > d) == (2 * (r * c) > d * c)) by (nonlinear_arith)
        requires c > 0;
    assert((2 * r == d) == (2 * (r * c) == d * c)) by (nonlinear_arith)
        requires c > 0;
}

proof fn lemma_div_round_below(n: int, d: int, k: int)
    requires
        0 <= n < k * d,
        d > 0,
    ensures
        0 <= div_round(n, d) <= k,
{
    assert(0 <= n / d < k) by (nonlinear_arith)
        requires 0 <= n < k * d, d > 0;
}

proof fn lemma_div_round_whole(n: int)
    requires
        n >= 0,
    ensures
        div_round(n, 1) == n,
{
}

proof fn lemma_pow2_128()
    ensures
        pow2(128) == 0x1_0000_0000_0000_0000_0000_0000_0000_0000,
        pow2(64) == 0x1_0000_0000_0000_0000,
{
    lemma2_to64();
    lemma_pow2_adds(64, 64);
}

proof fn lemma_pow2_le(i: nat, j: nat)
    requires
        pow2(i) <= pow2(j),
    ensures
        i <= j,
{
    if i > j {
        lemma_pow2_strictly_increases(j, i);
    }
}

proof fn lemma_pow2_lt(i: nat, j: nat)
    requires
        pow2(i) < pow2(j),
    ensures
        i < j,
{
    if i >= j {
        if i > j {
            lemma_pow2_strictly_increases(j, i);
        }
    }
}

/// The last place is unique.
proof fn lemma_in_binade_unique(a: int, b: int, s1: nat, s2: nat)
    requires
        b > 0,
        in_binade(a, b, s1),
        in_binade(a, b, s2),
    ensures
        s1 == s2,
{
    if s1 < s2 {
        if 53 + s1 < 52 + s2 {
            lemma_pow2_strictly_increases(53 + s1, 52 + s2);
        }
        assert(pow2(53 + s1) * b <= pow2(52 + s2) * b) by (nonlinear_arith)
            requires pow2(53 + s1) <= pow2(52 + s2), b > 0;
    } else if s2 < s1 {
        if 53 + s2 < 52 + s1 {
            lemma_pow2_strictly_increases(53 + s2, 52 + s1);
        }
        assert(pow2(53 + s2) * b <= pow2(52 + s1) * b) by (nonlinear_arith)
            requires pow2(53 + s2) <= pow2(52 + s1), b > 0;
    }
}

proof fn lemma_nearest_double(a: int, b: int, s: nat)
    requires
        a > 0,
        b > 0,
        in_binade(a, b, s),
    ensures
        nearest_double(a, b) == div_round(a * fixed_one(), b * pow2(s)) * pow2(s),
{
    let t = last_place(a, b);
    assert(in_binade(a, b, t));
    lemma_in_binade_unique(a, b, s, t);
}

/// Where `a` is below `2^j` and `b` at least `2^k`, the last place of the
/// double nearest to `a / b` is below `2^(j + 76 - k)`.
proof fn lemma_last_place_high(a: int, b: int, s: nat, j: nat, k: nat)
    requires
        in_binade(a, b, s),
        0 <= a < pow2(j),
        pow2(k) <= b,
    ensures
        52 + s + k < j + 128,
{
    lemma_pow2_adds(52 + s, k);
    lemma_pow2_adds(j, 128);
    lemma_pow2_pos(52 + s);
    lemma_pow2_pos(128);
    assert(pow2(52 + s) * pow2(k) < pow2(j) * pow2(128)) by (nonlinear_arith)
        requires
            pow2(52 + s) * b <= a * pow2(128),
            0 <= a < pow2(j),
            pow2(k) <= b,
            pow2(52 + s) > 0,
            pow2(128) > 0,
    ;
    lemma_pow2_lt(52 + s + k, j + 128);
}

/// Where `a` is at least 1 and `b` below `2^k`, the last place of the
/// double nearest to `a / b` is at least `2^(76 - k)`.
proof fn lemma_last_place_low(a: int, b: int, s: nat, k: nat)
    requires
        in_binade(a, b, s),
        a >= 1,
        0 < b < pow2(k),
    ensures
        128 < 53 + s + k,
{
    lemma_pow2_adds(53 + s, k);
    lemma_pow2_pos(53 + s);
    lemma_pow2_pos(128);
    assert(pow2(128) < pow2(53 + s) * pow2(k)) by (nonlinear_arith)
        requires
            a * pow2(128) < pow2(53 + s) * b,
            a >= 1,
            b < pow2(k),
            pow2(53 + s) > 0,
            pow2(128) > 0,
    ;
    lemma_pow2_lt(128, 53 + s + k);
}

/// Dividing by `2^128` the double nearest to `a / b`, scaled by `2^k`, gives
/// the double nearest to that quotient.
proof fn lemma_nearest_scaled(a: int, b: int, k: nat, s: nat)
    requires
        a > 0,
        b > 0,
        in_binade(a, b, s),
        s + k >= 128,
    ensures
        nearest_double(a * pow2(k), b * fixed_one()) == div_round(a * fixed_one(), b * pow2(s))
            * pow2((s + k - 128) as nat),
{
    let t = (s + k - 128) as nat;
    let p = fixed_one();
    lemma_pow2_adds(52 + s, k);
    lemma_pow2_adds(53 + s, k);
    lemma_pow2_adds((52 + t) as nat, 128);
    lemma_pow2_adds((53 + t) as nat, 128);
    lemma_pow2_adds(t, 128);
    lemma_pow2_adds(s, k);
    lemma_pow2_pos(k);
    lemma_pow2_pos(s);
    lemma_pow2_pos(t);
    lemma_pow2_pos(128);
    assert(52 + t + 128 == 52 + s + k);
    assert(53 + t + 128 == 53 + s + k);
    assert(t + 128 == s + k);
    let ak = a * pow2(k);
    let bp = b * p;
    assert(pow2(52 + t) * bp <= ak * p && ak * p < pow2(53 + t) * bp) by (nonlinear_arith)
        requires
            pow2(52 + s) * b <= a * p,
            a * p < pow2(53 + s) * b,
            pow2(52 + t) * p == pow2(52 + s) * pow2(k),
            pow2(53 + t) * p == pow2(53 + s) * pow2(k),
            ak == a * pow2(k),
            bp == b * p,
            pow2(k) > 0,
    ;
    assert(in_binade(ak, bp, t));
    assert(ak > 0) by (nonlinear_arith)
        requires ak == a * pow2(k), a > 0, pow2(k) > 0;
    assert(bp > 0) by (nonlinear_arith)
        requires bp == b * p, b > 0, p > 0;
    lemma_nearest_double(ak, bp, t);
    assert(ak * p == (a * p) * pow2(k) && bp * pow2(t) == (b * pow2(s)) * pow2(k)) by (
    nonlinear_arith)
        requires
            ak == a * pow2(k),
            bp == b * p,
            pow2(t) * p == pow2(s) * pow2(k),
    ;
    assert(a * p >= 0 && b * pow2(s) > 0) by (nonlinear_arith)
        requires a > 0, p > 0, b > 0, pow2(s) > 0;
    lemma_div_round_scale(a * p, b * pow2(s), pow2(k) as int);
}

/// `2^k`.
fn pow2_u128(k: u32) -> (r: u128)
    requires
        k < 128,
    ensures
        r == pow2(k as nat),
{
    let mut r: u128 = 1;
    let mut i: u32 = 0;
    proof {
        lemma2_to64();
    }
    while i < k
        invariant
            i <= k < 128,
            r == pow2(i as nat),
        decreases k - i,
    {
        proof {
            lemma_pow2_unfold((i + 1) as nat);
            lemma_pow2_strictly_increases((i + 1) as nat, 128);
            lemma_pow2_128();
        }
        r = r * 2;
        i = i + 1;
    }
    r
}

/// The double nearest to `a / b`, as its significand `m` and last place
/// `2^s`: it is `m · 2^s` at the scale of `fixed_one`.
fn nearest(a: u128, b: u128) -> (r: (u128, u32))
    requires
        a >= 1,
        2 <= b <= 1_000_000_000_000,
    ensures
        in_binade(a as int, b as int, r.1 as nat),
        r.0 == div_round(a * fixed_one(), b * pow2(r.1 as nat)),
        r.0 <= pow2(53),
{
    proof {
        lemma2_to64();
        lemma2_to64_rest();
        lemma_pow2_128();
        lemma_pow2_pos(128);
    }
    let top: u128 = pow2_u128(53);
    let half: u128 = pow2_u128(52);
    if a / b >= top {
        assert(a >= top * b) by (nonlinear_arith)
            requires a / b >= top, b > 0;
        let mut d: u128 = b;
        let mut t: u32 = 0;
        while a / d >= top
            invariant
                d == b * pow2(t as nat),
                half * d <= a,
                top == 2 * half,
                half == pow2(52),
                b >= 2,
                d >= 2,
                t <= 76,
            decreases a - d,
        {
            proof {
                lemma_pow2_128();
            }
            assert(a >= top * d) by (nonlinear_arith)
                requires a / d >= top, d > 0;
            proof {
                lemma_pow2_unfold((t + 1) as nat);
                lemma_pow2_pos(t as nat);
                assert(pow2((t + 1) as nat) <= 2 * d) by (nonlinear_arith)
                    requires d == b * pow2(t as nat), b >= 2, pow2((t + 1) as nat) == 2 * pow2(t as nat);
                assert(2 * d * half <= a) by (nonlinear_arith)
                    requires a >= top * d, top == 2 * half;
                lemma_pow2_adds((t + 1) as nat, 52);
                lemma2_to64_rest();
                assert(pow2((t + 1) as nat) * pow2(52) <= pow2(128)) by (nonlinear_arith)
                    requires
                        pow2((t + 1) as nat) <= 2 * d,
                        2 * d * half <= a,
                        half == pow2(52),
                        a < pow2(128),
                ;
                lemma_pow2_le((t + 1 + 52) as nat, 128);
            }
            assert(b * pow2((t + 1) as nat) == 2 * d) by (nonlinear_arith)
                requires d == b * pow2(t as nat), pow2((t + 1) as nat) == 2 * pow2(t as nat);
            d = d * 2;
            t = t + 1;
        }
        proof {
            assert(a < top * d) by (nonlinear_arith)
                requires a / d < top, d > 0;
            let s = (128 + t) as nat;
            lemma_pow2_adds(52, t as nat);
            lemma_pow2_adds(53, t as nat);
            lemma_pow2_adds((52 + t) as nat, 128);
            lemma_pow2_adds((53 + t) as nat, 128);
            lemma_pow2_adds(t as nat, 128);
            assert(52 + s == 52 + t + 128);
            assert(53 + s == 53 + t + 128);
            assert(pow2(52 + s) * b <= a * pow2(128) && a * pow2(128) < pow2(53 + s) * b) by (
            nonlinear_arith)
                requires
                    half * d <= a,
                    a < top * d,
                    d == b * pow2(t as nat),
                    pow2(52 + s) == half * pow2(t as nat) * pow2(128),
                    pow2(53 + s) == top * pow2(t as nat) * pow2(128),
                    pow2(128) > 0,
            ;
            assert(b * pow2(s) == d * pow2(128)) by (nonlinear_arith)
                requires d == b * pow2(t as nat), pow2(s) == pow2(t as nat) * pow2(128);
            lemma_div_round_scale(a as int, d as int, pow2(128) as int);
            lemma_div_round_below(a as int, d as int, top as int);
        }
        (round_div(a, d), 128 + t)
    } else {
        assert(a < top * b) by (nonlinear_arith)
            requires a / b < top, b > 0;
        let low: u128 = half * b;
        let mut x: u128 = a;
        let mut e: u32 = 0;
        while x < low
            invariant
                x == a * pow2(e as nat),
                x >= 1,
                x < top * b,
                low == half * b,
                top == 2 * half,
                half == pow2(52),
                e <= 93,
                a >= 1,
                b <= 1_000_000_000_000,
            decreases 93 - e,
        {
            proof {
                lemma_pow2_unfold((e + 1) as nat);
                lemma_pow2_pos(e as nat);
                assert(pow2((e + 1) as nat) <= 2 * x) by (nonlinear_arith)
                    requires x == a * pow2(e as nat), a >= 1, pow2((e + 1) as nat) == 2 * pow2(e as nat), pow2(e as nat) > 0;
                lemma2_to64_rest();
                lemma_pow2_adds(52, 41);
                assert(2 * x < pow2(93)) by (nonlinear_arith)
                    requires x < half * b, b <= 1_000_000_000_000, half == pow2(52), pow2(93) == pow2(52) * pow2(41), pow2(41) == 0x20000000000;
                lemma_pow2_lt((e + 1) as nat, 93);
            }
            assert(a * pow2((e + 1) as nat) == 2 * x) by (nonlinear_arith)
                requires x == a * pow2(e as nat), pow2((e + 1) as nat) == 2 * pow2(e as nat);
            assert(2 * x < top * b) by (nonlinear_arith)
                requires x < half * b, top == 2 * half;
            x = x * 2;
            e = e + 1;
        }
        proof {
            let s = (128 - e) as nat;
            lemma_pow2_adds(52, s);
            lemma_pow2_adds(53, s);
            lemma_pow2_adds(e as nat, s);
            assert(e + s == 128);
            lemma_pow2_pos(s);
            assert(pow2(52 + s) * b <= a * pow2(128) && a * pow2(128) < pow2(53 + s) * b) by (
            nonlinear_arith)
                requires
                    half * b <= x,
                    x < top * b,
                    x == a * pow2(e as nat),
                    pow2(52 + s) == half * pow2(s),
                    pow2(53 + s) == top * pow2(s),
                    pow2(128) == pow2(e as nat) * pow2(s),
                    pow2(s) > 0,
            ;
            assert(a * pow2(128) == x * pow2(s)) by (nonlinear_arith)
                requires x == a * pow2(e as nat), pow2(128) == pow2(e as nat) * pow2(s);
            lemma_div_round_scale(x as int, b as int, pow2(s) as int);
            lemma_div_round_below(x as int, b as int, top as int);
        }
        (round_div(x, b), 128 - e)
    }
}

/// `n / d` rounded to the nearest, a tie going to the even one.
fn round_div(n: u128, d: u128) -> (r: u128)
    requires
        d > 1,
    ensures
        r == div_round(n as int, d as int),
{
    let q = n / d;
    let m = n % d;
    proof {
        assert(q * d + m == n) by (nonlinear_arith)
            requires q == n / d, m == n % d, d > 0;
        assert(q <= n / 2 + 1) by (nonlinear_arith)
            requires q == n / d, d > 1, n >= 0;
    }
    let half_up = m > d - m;
    let tie = m == d - m;
    if half_up || (tie && q % 2 == 1) {
        q + 1
    } else {
        q
    }
}

/// Appends `t` tenths with one decimal place.
fn push_tenths(s: &mut String, t: u128)
    ensures
        final(s)@ == old(s)@ + tenths(t as nat),
{
    push_decimal(s, t / 10);
    push_char(s, '.');
    push_decimal(s, t % 10);
    assert(decimal((t % 10) as nat) == seq![digit_char((t % 10) as int)]);
}

/// Whether `m · 2^e` is below `c` at the scale of `fixed_one`.
fn below(m: u128, e: u32, c: u128) -> (r: bool)
    requires
        m <= pow2(53),
        56 <= e <= 195,
        1 <= c <= 1_000_000_000_000,
    ensures
        r == (m * pow2(e as nat) < c * fixed_one()),
{
    proof {
        lemma2_to64();
        lemma2_to64_rest();
        lemma_pow2_128();
        lemma_pow2_pos(e as nat);
    }
    if e >= 128 {
        let k = e - 128;
        let p = pow2_u128(k);
        proof {
            lemma_pow2_adds(k as nat, 128);
            if k < 67 {
                lemma_pow2_strictly_increases(k as nat, 67);
            }
            lemma_pow2_adds(53, 67);
            lemma_pow2_strictly_increases(120, 128);
            assert(m * p <= pow2(53) * pow2(67)) by (nonlinear_arith)
                requires m <= pow2(53), p <= pow2(67);
            assert((m * pow2(e as nat) < c * pow2(128)) == (m * p < c)) by (nonlinear_arith)
                requires pow2(e as nat) == p * pow2(128), pow2(128) > 0;
        }
        m * p < c
    } else {
        let k = 128 - e;
        let p = pow2_u128(k);
        proof {
            lemma_pow2_adds(e as nat, k as nat);
            if k < 72 {
                lemma_pow2_strictly_increases(k as nat, 72);
            }
            lemma_pow2_adds(40, 72);
            lemma_pow2_strictly_increases(112, 128);
            assert(c * p <= pow2(40) * pow2(72)) by (nonlinear_arith)
                requires c <= 1_000_000_000_000, pow2(40) == 0x10000000000, p <= pow2(72);
            assert((m * pow2(e as nat) < c * pow2(128)) == (m < c * p)) by (nonlinear_arith)
                requires pow2(128) == pow2(e as nat) * p, pow2(e as nat) > 0;
        }
        m < c * p
    }
}

/// `c · m · 2^e`, held at the scale of `fixed_one`, rounded to a whole
/// number (to the nearest, a tie going to the even one).
fn round_scaled(m: u128, e: u32, c: u128) -> (r: u128)
    requires
        m <= pow2(53),
        56 <= e <= 195,
        1 <= c <= 10,
    ensures
        r == div_round(c * m * pow2(e as nat), fixed_one()),
{
    proof {
        lemma2_to64();
        lemma2_to64_rest();
        lemma_pow2_128();
        lemma_pow2_pos(e as nat);
    }
    if e >= 128 {
        let k = e - 128;
        let p = pow2_u128(k);
        proof {
            lemma_pow2_adds(k as nat, 128);
            if k < 67 {
                lemma_pow2_strictly_increases(k as nat, 67);
            }
            lemma_pow2_adds(53, 67);
            lemma_pow2_adds(4, 120);
            lemma_pow2_strictly_increases(124, 128);
            assert(c * m * p <= pow2(4) * (pow2(53) * pow2(67))) by (nonlinear_arith)
                requires m <= pow2(53), p <= pow2(67), c <= 10, pow2(4) == 16;
            assert(c * m * pow2(e as nat) == (c * m * p) * pow2(128)) by (nonlinear_arith)
                requires pow2(e as nat) == p * pow2(128);
            lemma_div_round_scale(c * m * p, 1, pow2(128) as int);
            lemma_div_round_whole(c * m * p);
        }
        c * m * p
    } else {
        let k = 128 - e;
        let p = pow2_u128(k);
        proof {
            lemma_pow2_adds(e as nat, k as nat);
            lemma_pow2_adds(4, 53);
            lemma_pow2_strictly_increases(57, 128);
            assert(c * m <= pow2(4) * pow2(53)) by (nonlinear_arith)
                requires m <= pow2(53), c <= 10, pow2(4) == 16;
            lemma_pow2_strictly_increases(0, k as nat);
            assert(c * m * pow2(e as nat) == (c * m) * pow2(e as nat) && pow2(128) == p * pow2(e as nat))
                by (nonlinear_arith)
                requires pow2(128) == pow2(e as nat) * p;
            lemma_div_round_scale(c * m, p as int, pow2(e as nat) as int);
        }
        round_div(c * m, p)
    }
}

/// Appends the quotient of `m · 2^e` by `d` at one decimal place, then `unit`.
fn push_quotient(s: &mut String, m: u128, e: u32, d: u128, unit: char)
    requires
        1 <= m <= pow2(53),
        56 <= e <= 184,
        1_000 <= d <= 1_000_000_000_000,
        !(m * pow2(e as nat) < d * fixed_one()),
    ensures
        final(s)@ == old(s)@ + tenths(div_round(10 * nearest_double(m * pow2(e as nat), d * fixed_one()), fixed_one()) as nat)
            + seq![unit],
{
    let (m2, e2) = nearest(m, d);
    proof {
        lemma2_to64();
        lemma2_to64_rest();
        lemma_pow2_128();
        lemma_pow2_adds(53, 128);
        lemma_pow2_strictly_increases(53, 54);
        lemma_last_place_high(m as int, d as int, e2 as nat, 54, 9);
        // The quotient is at least 1, so its last place is at least 2^76.
        lemma_pow2_adds((53 + e2) as nat, e as nat);
        lemma_pow2_adds(128, 128);
        lemma_pow2_pos(e as nat);
        assert(pow2(256) < pow2((53 + e2 + e) as nat)) by (nonlinear_arith)
            requires
                m * pow2(e as nat) >= d * pow2(128),
                m * pow2(128) < pow2((53 + e2) as nat) * d,
                pow2((53 + e2 + e) as nat) == pow2((53 + e2) as nat) * pow2(e as nat),
                pow2(256) == pow2(128) * pow2(128),
                d >= 1,
                pow2(e as nat) > 0,
                pow2(128) > 0,
        ;
        lemma_pow2_lt(256, (53 + e2 + e) as nat);
        lemma_nearest_scaled(m as int, d as int, e as nat, e2 as nat);
    }
    let e3 = e + e2 - 128;
    assert(10 * m2 * pow2(e3 as nat) == 10 * (m2 * pow2(e3 as nat))) by (nonlinear_arith);
    push_tenths(s, round_scaled(m2, e3, 10));
    push_char(s, unit);
}

/// Cookie amount `n` (in micro-cookies) in its shortest form: "999",
/// "1.5k", "2.5M", "1.0B", "5.0T".
pub fn cookies(n: u128) -> (r: String)
    ensures
        r@ == cookies_text(n),
{
    let mut s = String::new();
    if n == 0 {
        push_decimal(&mut s, 0);
        proof {
            lemma_pow2_pos(128);
        }
        assert(s@ =~= cookies_text(n));
        return s;
    }
    let (m, e) = nearest(n, COOKIE);
    proof {
        lemma2_to64();
        lemma2_to64_rest();
        lemma_pow2_128();
        lemma_pow2_strictly_increases(19, 20);
        lemma_last_place_high(n as int, COOKIE as int, e as nat, 128, 19);
        lemma_last_place_low(n as int, COOKIE as int, e as nat, 20);
        lemma_nearest_double(n as int, COOKIE as int, e as nat);
    }
    assert(1 * m * pow2(e as nat) == m * pow2(e as nat)) by (nonlinear_arith);
    if below(m, e, 1_000) {
        push_decimal(&mut s, round_scaled(m, e, 1));
    } else if below(m, e, 1_000_000) {
        push_quotient(&mut s, m, e, 1_000, 'k');
    } else if below(m, e, 1_000_000_000) {
        push_quotient(&mut s, m, e, 1_000_000, 'M');
    } else if below(m, e, 1_000_000_000_000) {
        push_quotient(&mut s, m, e, 1_000_000_000, 'B');
    } else {
        push_quotient(&mut s, m, e, 1_000_000_000_000, 'T');
    }
    assert(s@ =~= cookies_text(n));
    s
}

/// The short form of an amount holds digits, a point and a unit letter:
/// nothing that JSON escaping changes.
pub(crate) proof fn lemma_cookies_text_plain(n: u128)
    ensures
        plain(cookies_text(n)),
{
    let one = fixed_one();
    let x = nearest_double(n as int, COOKIE as int);
    if x < 1_000 * one {
        lemma_decimal_plain(div_round(x, one) as nat);
    } else {
        let d: int = if x < 1_000_000 * one {
            1_000 * one
        } else if x < 1_000_000_000 * one {
            1_000_000 * one
        } else if x < 1_000_000_000_000 * one {
            1_000_000_000 * one
        } else {
            1_000_000_000_000 * one
        };
        let unit: char = if x < 1_000_000 * one {
            'k'
        } else if x < 1_000_000_000 * one {
            'M'
        } else if x < 1_000_000_000_000 * one {
            'B'
        } else {
            'T'
        };
        let t = div_round(10 * nearest_double(x, d), one) as nat;
        lemma_decimal_plain(t / 10);
        let tail = seq!['.', digit_char((t % 10) as int), unit];
        let c = digit_char((t % 10) as int);
        assert((c as u32) >= 0x30 && (c as u32) <= 0x39);
        assert(plain(tail)) by {
            assert forall|i: int| 0 <= i < tail.len() implies ((#[trigger] tail[i]) as u32) >= 0x20
                && tail[i] != '"' && tail[i] != '\\' by {
                assert(i == 0 || i == 1 || i == 2);
            }
        }
        lemma_plain_concat(decimal(t / 10), tail);
        assert(cookies_text(n) =~= decimal(t / 10) + tail);
    }
}

} // verus!
