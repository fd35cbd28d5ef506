//! IEEE 754 binary32 values, held as their bit patterns and computed with in
//! integer arithmetic.
//!
//! Every game sends its engine speed, pedal positions and so on as
//! single-precision numbers. A finite one is a whole number of *units*, a unit
//! being the smallest positive binary32 value, two to the power -149. All
//! contracts below are stated over that whole number.

use vstd::prelude::*;

verus! {

/// Two to the power `n`.
pub open spec fn exp2(n: nat) -> nat
    decreases n,
{
    if n == 0 {
        1
    } else {
        2 * exp2((n - 1) as nat)
    }
}

/// How many binary digits follow the leading one of a normal significand.
pub open spec fn hidden_bit() -> nat {
    0x80_0000
}

/// The pattern of positive infinity, and the first pattern that is not finite.
pub open spec fn infinity() -> nat {
    0x7F80_0000
}

/// The grade of a magnitude pattern: its significand counts multiples of
/// `exp2(grade)` units.
pub open spec fn grade(magnitude: nat) -> nat {
    if magnitude < 0x100_0000 {
        0
    } else {
        (magnitude / hidden_bit() - 1) as nat
    }
}

/// The significand of a magnitude pattern.
pub open spec fn significand(magnitude: nat) -> nat {
    (magnitude - grade(magnitude) * hidden_bit()) as nat
}

/// The whole number of units that a finite magnitude pattern stands for.
pub open spec fn units(magnitude: nat) -> nat {
    significand(magnitude) * exp2(grade(magnitude))
}

/// The least grade at which `n / d` units need no more than 24 binary digits.
pub open spec fn grade_for(n: nat, d: nat) -> nat
    decreases (if n < 0x100_0000 * d { 0 } else { n - 0x100_0000 * d + 1 }),
{
    if d == 0 || n < 0x100_0000 * d {
        0
    } else {
        1 + grade_for(n, 2 * d)
    }
}

/// `n / d` rounded to the nearest whole number, a tie going to the even one.
pub open spec fn round_half_even(n: nat, d: nat) -> nat {
    let q = n / d;
    let r = n % d;
    if 2 * r < d || (2 * r == d && q % 2 == 0) {
        q
    } else {
        q + 1
    }
}

/// The magnitude pattern nearest to `n / d` units, a tie going to the even
/// pattern and what is too large to infinity.
pub open spec fn round_units(n: nat, d: nat) -> nat {
    let k = grade_for(n, d);
    let pattern = k * hidden_bit() + round_half_even(n, d * exp2(k));
    if pattern < infinity() {
        pattern
    } else {
        infinity()
    }
}

proof fn lemma_exp2_positive(n: nat)
    ensures
        exp2(n) > 0,
    decreases n,
{
    if n > 0 {
        lemma_exp2_positive((n - 1) as nat);
    }
}

proof fn lemma_exp2_adds(a: nat, b: nat)
    ensures
        exp2(a + b) == exp2(a) * exp2(b),
    decreases a,
{
    if a > 0 {
        lemma_exp2_adds((a - 1) as nat, b);
        let x = exp2((a - 1) as nat);
        let y = exp2(b);
        assert(exp2(a + b) == 2 * exp2((a + b - 1) as nat));
        assert((a + b - 1) as nat == (a - 1) as nat + b);
        assert(2 * (x * y) == (2 * x) * y) by (nonlinear_arith);
    } else {
        assert(1 * exp2(b) == exp2(b));
    }
}

proof fn lemma_exp2_monotone(a: nat, b: nat)
    requires
        a <= b,
    ensures
        exp2(a) <= exp2(b),
    decreases b - a,
{
    if a < b {
        lemma_exp2_monotone(a, (b - 1) as nat);
        lemma_exp2_positive((b - 1) as nat);
    }
}

proof fn lemma_exp2_values()
    ensures
        exp2(0) == 1,
        exp2(23) == 0x80_0000,
        exp2(24) == 0x100_0000,
        exp2(30) == 0x4000_0000,
        exp2(31) == 0x8000_0000,
        exp2(32) == 0x1_0000_0000,
        exp2(48) == 0x1_0000_0000_0000,
        exp2(64) == 0x1_0000_0000_0000_0000,
{
    reveal_with_fuel(exp2, 33);
    lemma_exp2_adds(24, 24);
    lemma_exp2_adds(32, 32);
    assert(0x1_0000_0000 * 0x1_0000_0000 == 0x1_0000_0000_0000_0000) by (nonlinear_arith);
}

proof fn lemma_exp2_127()
    ensures
        exp2(127) == 0x8000_0000_0000_0000_0000_0000_0000_0000,
{
    lemma_exp2_adds(64, 63);
    lemma_exp2_adds(32, 31);
    lemma_exp2_values();
    assert(0x1_0000_0000 * 0x8000_0000 == 0x8000_0000_0000_0000) by (nonlinear_arith);
    assert(0x1_0000_0000_0000_0000 * 0x8000_0000_0000_0000
        == 0x8000_0000_0000_0000_0000_0000_0000_0000) by (nonlinear_arith);
}

/// A grade that bounds `n / d` between 23 and 24 binary digits is the least one.
proof fn lemma_grade_unique(n: nat, d: nat, k: nat)
    requires
        d > 0,
        n < 0x100_0000 * (d * exp2(k)),
        k == 0 || n >= 0x80_0000 * (d * exp2(k)),
    ensures
        grade_for(n, d) == k,
    decreases k,
{
    if k == 0 {
        assert(d * exp2(0) == d) by (nonlinear_arith)
            requires
                exp2(0) == 1,
        ;
    } else {
        let x = exp2((k - 1) as nat);
        lemma_exp2_positive((k - 1) as nat);
        assert(d * exp2(k) == (2 * d) * x) by (nonlinear_arith)
            requires
                exp2(k) == 2 * x,
        ;
        assert((2 * d) * x >= 2 * d) by (nonlinear_arith)
            requires
                x >= 1,
        ;
        if k > 1 {
            assert(n >= 0x80_0000 * ((2 * d) * x));
        } else {
            assert(x == 1);
        }
        lemma_grade_unique(n, 2 * d, (k - 1) as nat);
    }
}

proof fn lemma_grade_scales(c: nat, n: nat, d: nat)
    requires
        c > 0,
        d > 0,
    ensures
        grade_for(c * n, c * d) == grade_for(n, d),
    decreases (if n < 0x100_0000 * d { 0 } else { n - 0x100_0000 * d + 1 }),
{
    assert(c * d > 0) by (nonlinear_arith)
        requires
            c > 0,
            d > 0,
    ;
    assert(n < 0x100_0000 * d <==> c * n < 0x100_0000 * (c * d)) by (nonlinear_arith)
        requires
            c > 0,
            d > 0,
    ;
    if n >= 0x100_0000 * d {
        lemma_grade_scales(c, n, 2 * d);
        assert(c * (2 * d) == 2 * (c * d)) by (nonlinear_arith);
    }
}

proof fn lemma_round_half_even_scales(c: nat, n: nat, d: nat)
    requires
        c > 0,
        d > 0,
    ensures
        round_half_even(c * n, c * d) == round_half_even(n, d),
{
    let q = n / d;
    let r = n % d;
    vstd::arithmetic::div_mod::lemma_fundamental_div_mod(n as int, d as int);
    assert(c * n == q * (c * d) + c * r && 0 <= c * r < c * d) by (nonlinear_arith)
        requires
            n == d * q + r,
            0 <= r < d,
            c > 0,
    ;
    vstd::arithmetic::div_mod::lemma_fundamental_div_mod_converse(
        (c * n) as int,
        (c * d) as int,
        q as int,
        (c * r) as int,
    );
    assert(2 * r < d <==> 2 * (c * r) < c * d) by (nonlinear_arith)
        requires
            c > 0,
    ;
    assert(2 * r == d <==> 2 * (c * r) == c * d) by (nonlinear_arith)
        requires
            c > 0,
    ;
}

/// Rounding depends on the quotient alone: a common factor changes nothing.
pub proof fn lemma_round_units_scales(c: nat, n: nat, d: nat)
    requires
        c > 0,
        d > 0,
    ensures
        round_units(c * n, c * d) == round_units(n, d),
{
    lemma_grade_scales(c, n, d);
    let k = grade_for(n, d);
    lemma_exp2_positive(k);
    assert((c * d) * exp2(k) == c * (d * exp2(k))) by (nonlinear_arith);
    assert(d * exp2(k) > 0) by (nonlinear_arith)
        requires
            d > 0,
            exp2(k) > 0,
    ;
    lemma_round_half_even_scales(c, n, d * exp2(k));
}

/// Rounding `n / (d * p)` for an even `p` needs only the whole part of `n / d`
/// and whether anything is left beyond it.
proof fn lemma_round_by_parts(n: nat, d: nat, half: nat)
    requires
        d > 0,
        half > 0,
    ensures
        ({
            let p = 2 * half;
            let m = n / d;
            let f = m / p;
            let low = m % p;
            round_half_even(n, d * p) == if low < half || (low == half && n % d == 0 && f % 2
                == 0) {
                f
            } else {
                f + 1
            }
        }),
{
    let p = 2 * half;
    let m = n / d;
    let r = n % d;
    let f = m / p;
    let low = m % p;
    vstd::arithmetic::div_mod::lemma_fundamental_div_mod(n as int, d as int);
    vstd::arithmetic::div_mod::lemma_fundamental_div_mod(m as int, p as int);
    let rem = low * d + r;
    assert(n == f * (d * p) + rem && 0 <= rem < d * p) by (nonlinear_arith)
        requires
            n == d * m + r,
            m == p * f + low,
            0 <= r < d,
            0 <= low < p,
            rem == low * d + r,
    ;
    vstd::arithmetic::div_mod::lemma_fundamental_div_mod_converse(
        n as int,
        (d * p) as int,
        f as int,
        rem as int,
    );
    if low < half {
        assert(2 * rem < d * p) by (nonlinear_arith)
            requires
                rem == low * d + r,
                r < d,
                low + 1 <= half,
                p == 2 * half,
                d > 0,
        ;
    } else if low == half {
        assert(2 * rem == d * p + 2 * r) by (nonlinear_arith)
            requires
                rem == low * d + r,
                low == half,
                p == 2 * half,
        ;
    } else {
        assert(2 * rem > d * p) by (nonlinear_arith)
            requires
                rem == low * d + r,
                r >= 0,
                low >= half + 1,
                p == 2 * half,
                d > 0,
        ;
    }
}

/// Two to the power `n`.
fn power(n: u32) -> (p: u128)
    requires
        n <= 127,
    ensures
        p == exp2(n as nat),
{
    let mut p: u128 = 1;
    let mut i: u32 = 0;
    while i < n
        invariant
            i <= n <= 127,
            p == exp2(i as nat),
        decreases n - i,
    {
        proof {
            lemma_exp2_monotone((i + 1) as nat, 127);
            lemma_exp2_127();
        }
        p = 2 * p;
        i = i + 1;
    }
    p
}

/// How many binary digits `m` has.
fn digits(m: u128) -> (l: u32)
    requires
        m < exp2(126),
    ensures
        l <= 126,
        m < exp2(l as nat),
        m == 0 ==> l == 0,
        m > 0 ==> l > 0 && exp2((l - 1) as nat) <= m,
{
    let mut p: u128 = 1;
    let mut l: u32 = 0;
    assert(exp2(0) == 1);
    while p <= m
        invariant
            l <= 126,
            m < exp2(126),
            p == exp2(l as nat),
            m == 0 ==> l == 0,
            l > 0 ==> exp2((l - 1) as nat) <= m,
        decreases 127 - l,
    {
        proof {
            if l >= 126 {
                lemma_exp2_monotone(126, l as nat);
            }
            lemma_exp2_monotone((l + 1) as nat, 127);
            lemma_exp2_127();
        }
        p = 2 * p;
        l = l + 1;
    }
    l
}

/// What `round_scaled` has to show of the grade it picks.
proof fn lemma_scaled_grade(n: nat, d: nat, m: nat, l: nat, e: int, k: nat)
    requires
        d > 0,
        m == n / d,
        0 < m < exp2(l),
        l > 0,
        exp2((l - 1) as nat) <= m,
        -400 <= e,
        k == (if e + l - 24 > 0 { e + l - 24 } else { 0 }),
    ensures
        grade_for(n * exp2((e + 400) as nat), d * exp2(400)) == k,
{
    let ee = (e + 400) as nat;
    let nn = n * exp2(ee);
    let dd = d * exp2(400);
    vstd::arithmetic::div_mod::lemma_fundamental_div_mod(n as int, d as int);
    let top = exp2(l);
    let low = exp2((l - 1) as nat);
    assert(n < d * top) by (nonlinear_arith)
        requires
            n < d * m + d,
            m + 1 <= top,
            d > 0,
    ;
    assert(n >= d * low) by (nonlinear_arith)
        requires
            n >= d * m,
            m >= low,
            d > 0,
    ;
    lemma_exp2_positive(ee);
    lemma_exp2_positive(400);
    lemma_exp2_positive(k);
    let c = exp2(ee);
    assert(nn < d * (top * c)) by (nonlinear_arith)
        requires
            nn == n * c,
            n < d * top,
            c > 0,
    ;
    assert(nn >= d * (low * c)) by (nonlinear_arith)
        requires
            nn == n * c,
            n >= d * low,
            c > 0,
    ;
    lemma_exp2_adds(l, ee);
    lemma_exp2_adds((l - 1) as nat, ee);
    lemma_exp2_values();
    lemma_exp2_adds(400, k);
    let b = exp2(400) * exp2(k);
    assert(b == exp2(400 + k));
    assert(dd * exp2(k) == d * b) by (nonlinear_arith)
        requires
            dd == d * exp2(400),
            b == exp2(400) * exp2(k),
    ;
    lemma_exp2_adds(24, 400 + k);
    lemma_exp2_adds(23, 400 + k);
    lemma_exp2_monotone(l + ee, 24 + (400 + k));
    assert(nn < 0x100_0000 * (dd * exp2(k))) by (nonlinear_arith)
        requires
            nn < d * (top * c),
            top * c <= 0x100_0000 * b,
            dd * exp2(k) == d * b,
            d > 0,
    ;
    if k > 0 {
        assert((l - 1) as nat + ee == 23 + (400 + k));
        assert(nn >= 0x80_0000 * (dd * exp2(k))) by (nonlinear_arith)
            requires
                nn >= d * (low * c),
                low * c == 0x80_0000 * b,
                dd * exp2(k) == d * b,
        ;
    }
    assert(dd > 0) by (nonlinear_arith)
        requires
            dd == d * exp2(400),
            d > 0,
            exp2(400) > 0,
    ;
    lemma_grade_unique(nn, dd, k);
}

/// What `round_scaled` has to show when it drops `s` binary digits of `m`.
proof fn lemma_scaled_drop(n: nat, d: nat, e: int, k: nat, s: nat)
    requires
        d > 0,
        -400 <= e,
        k == e + s,
    ensures
        round_half_even(n * exp2((e + 400) as nat), (d * exp2(400)) * exp2(k)) == round_half_even(
            n,
            d * exp2(s),
        ),
{
    let c = exp2((e + 400) as nat);
    lemma_exp2_positive((e + 400) as nat);
    lemma_exp2_positive(s);
    lemma_exp2_adds(400, k);
    lemma_exp2_adds((e + 400) as nat, s);
    assert((e + 400) as nat + s == 400 + k);
    assert((d * exp2(400)) * exp2(k) == c * (d * exp2(s))) by (nonlinear_arith)
        requires
            exp2(400) * exp2(k) == c * exp2(s),
    ;
    assert(n * c == c * n) by (nonlinear_arith);
    assert(d * exp2(s) > 0) by (nonlinear_arith)
        requires
            d > 0,
            exp2(s) > 0,
    ;
    lemma_round_half_even_scales(c, n, d * exp2(s));
}

/// What `round_scaled` has to show when it shifts `m` up by `s` digits.
proof fn lemma_scaled_shift(n: nat, d: nat, m: nat, e: int, k: nat, s: nat)
    requires
        d > 0,
        m == n / d,
        n % d == 0,
        -400 <= e,
        k + s == e,
    ensures
        round_half_even(n * exp2((e + 400) as nat), (d * exp2(400)) * exp2(k)) == m * exp2(s),
{
    vstd::arithmetic::div_mod::lemma_fundamental_div_mod(n as int, d as int);
    let c = exp2((e + 400) as nat);
    let b = exp2(400) * exp2(k);
    lemma_exp2_positive(400);
    lemma_exp2_positive(k);
    lemma_exp2_adds(400, k);
    lemma_exp2_adds(s, 400 + k);
    assert((e + 400) as nat == s + (400 + k));
    let q = m * exp2(s);
    assert(b > 0) by (nonlinear_arith)
        requires
            b == exp2(400) * exp2(k),
            exp2(400) > 0,
            exp2(k) > 0,
    ;
    assert((d * exp2(400)) * exp2(k) == d * b) by (nonlinear_arith)
        requires
            b == exp2(400) * exp2(k),
    ;
    assert(d * b > 0) by (nonlinear_arith)
        requires
            d > 0,
            b > 0,
    ;
    assert(n * c == q * (d * b)) by (nonlinear_arith)
        requires
            n == d * m,
            c == exp2(s) * b,
            q == m * exp2(s),
    ;
    vstd::arithmetic::div_mod::lemma_fundamental_div_mod_converse(
        (n * c) as int,
        (d * b) as int,
        q as int,
        0,
    );
}

/// The pattern nearest to `n / d` times two to the power `e` units, given the
/// whole part `m` of `n / d` and whether anything is left beyond it.
fn round_scaled(m: u128, sticky: bool, e: i32, Ghost(n): Ghost<nat>, Ghost(d): Ghost<nat>) -> (r:
    u32)
    requires
        d > 0,
        m == n / d,
        sticky == (n % d != 0),
        m < exp2(126),
        sticky ==> m >= 0x4000_0000,
        -400 <= e <= 400,
    ensures
        r == round_units(n * exp2((e + 400) as nat), d * exp2(400)),
{
    proof {
        lemma_exp2_values();
        lemma_exp2_positive(400);
        assert(d * exp2(400) > 0) by (nonlinear_arith)
            requires
                d > 0,
                exp2(400) > 0,
        ;
    }
    if m == 0 {
        proof {
            vstd::arithmetic::div_mod::lemma_fundamental_div_mod(n as int, d as int);
            assert(n == 0) by (nonlinear_arith)
                requires
                    n == d * m + n % d,
                    m == 0,
                    n % d == 0,
            ;
            assert(n * exp2((e + 400) as nat) == 0) by (nonlinear_arith)
                requires
                    n == 0,
            ;
            let dd = d * exp2(400);
            assert(grade_for(0, dd) == 0);
            assert(dd * exp2(0) == dd) by (nonlinear_arith)
                requires
                    exp2(0) == 1,
            ;
        }
        return 0;
    }
    let l: u32 = digits(m);
    let t: i32 = e + l as i32 - 24;
    let k: i32 = if t > 0 {
        t
    } else {
        0
    };
    proof {
        lemma_scaled_grade(n, d, m as nat, l as nat, e as int, k as nat);
        if sticky {
            if l < 31 {
                lemma_exp2_monotone(l as nat, 30);
            }
        }
    }
    let s: i32 = k - e;
    let q: u128;
    if s <= 0 {
        let up: u32 = (-s) as u32;
        proof {
            lemma_scaled_shift(n, d, m as nat, e as int, k as nat, up as nat);
            lemma_exp2_adds(l as nat, up as nat);
            lemma_exp2_monotone((l + up) as nat, 24);
            lemma_exp2_positive(up as nat);
            assert(m * exp2(up as nat) < exp2(l as nat) * exp2(up as nat)) by (nonlinear_arith)
                requires
                    m < exp2(l as nat),
                    exp2(up as nat) > 0,
            ;
        }
        q = m * power(up);
    } else {
        proof {
            lemma_scaled_drop(n, d, e as int, k as nat, s as nat);
            lemma_exp2_positive((s - 1) as nat);
            lemma_round_by_parts(n, d, exp2((s - 1) as nat));
            assert(exp2(s as nat) == 2 * exp2((s - 1) as nat));
        }
        if s as u32 > l {
            proof {
                lemma_exp2_monotone(l as nat, (s - 1) as nat);
                vstd::arithmetic::div_mod::lemma_fundamental_div_mod_converse(
                    m as int,
                    exp2(s as nat) as int,
                    0,
                    m as int,
                );
            }
            q = 0;
        } else {
            let half: u128 = power((s - 1) as u32);
            let p: u128 = power(s as u32);
            let f: u128 = m / p;
            let low: u128 = m % p;
            proof {
                vstd::arithmetic::div_mod::lemma_div_nonincreasing(m as int, p as int);
                // The digits that stay are 24 at most.
                lemma_exp2_adds((l - s) as nat, s as nat);
                assert(f < exp2((l - s) as nat)) by (nonlinear_arith)
                    requires
                        m < exp2((l - s) as nat) * p,
                        f == m / p,
                        p > 0,
                ;
                lemma_exp2_monotone((l - s) as nat, 24);
            }
            if low < half || (low == half && !sticky && f % 2 == 0) {
                q = f;
            } else {
                q = f + 1;
            }
        }
    }
    if k >= 255 {
        return 0x7F80_0000;
    }
    let pattern: u32 = k as u32 * 0x80_0000 + q as u32;
    if pattern < 0x7F80_0000 {
        pattern
    } else {
        0x7F80_0000
    }
}

/// The bounds on a pattern's grade and significand.
proof fn lemma_parts(magnitude: nat)
    requires
        magnitude <= infinity(),
    ensures
        grade(magnitude) <= 254,
        magnitude < infinity() ==> grade(magnitude) <= 253,
        significand(magnitude) < 0x100_0000,
        magnitude == grade(magnitude) * hidden_bit() + significand(magnitude),
        grade(magnitude) > 0 ==> significand(magnitude) >= hidden_bit(),
        (units(magnitude) == 0) == (magnitude == 0),
{
    lemma_exp2_positive(grade(magnitude));
    let s = significand(magnitude);
    let x = exp2(grade(magnitude));
    assert((s * x == 0) == (s == 0)) by (nonlinear_arith)
        requires
            x > 0,
            s >= 0,
    ;
}

/// A larger pattern stands for a larger number.
pub proof fn lemma_units_increase(a: nat, b: nat)
    requires
        a < b <= infinity(),
    ensures
        units(a) < units(b),
{
    lemma_parts(a);
    lemma_parts(b);
    let ka = grade(a);
    let kb = grade(b);
    let sa = significand(a);
    let sb = significand(b);
    lemma_exp2_positive(ka);
    if ka == kb {
        assert(sa * exp2(ka) < sb * exp2(ka)) by (nonlinear_arith)
            requires
                sa < sb,
                exp2(ka) > 0,
        ;
    } else {
        assert(ka < kb);
        lemma_exp2_monotone(ka + 1, kb);
        assert(exp2(ka + 1) == 2 * exp2(ka));
        assert(sa * exp2(ka) < sb * exp2(kb)) by (nonlinear_arith)
            requires
                sa < 0x100_0000,
                sb >= 0x80_0000,
                exp2(kb) >= 2 * exp2(ka),
                exp2(ka) > 0,
        ;
    }
}

/// A number that some pattern stands for rounds to that pattern.
pub proof fn lemma_round_units_exact(magnitude: nat)
    requires
        magnitude < infinity(),
    ensures
        round_units(units(magnitude), 1) == magnitude,
{
    lemma_parts(magnitude);
    let k = grade(magnitude);
    let s = significand(magnitude);
    let x = exp2(k);
    lemma_exp2_positive(k);
    let n = units(magnitude);
    assert(n < 0x100_0000 * (1 * x)) by (nonlinear_arith)
        requires
            n == s * x,
            s < 0x100_0000,
            x > 0,
    ;
    if k > 0 {
        assert(n >= 0x80_0000 * (1 * x)) by (nonlinear_arith)
            requires
                n == s * x,
                s >= 0x80_0000,
                x > 0,
        ;
    }
    lemma_grade_unique(n, 1, k);
    vstd::arithmetic::div_mod::lemma_fundamental_div_mod_converse(
        n as int,
        x as int,
        s as int,
        0,
    );
}

/// Between which powers of two the least grade leaves `n / d`.
proof fn lemma_grade_bounds(n: nat, d: nat)
    requires
        d > 0,
    ensures
        n < 0x100_0000 * (d * exp2(grade_for(n, d))),
        grade_for(n, d) == 0 || n >= 0x80_0000 * (d * exp2(grade_for(n, d))),
    decreases (if n < 0x100_0000 * d { 0 } else { n - 0x100_0000 * d + 1 }),
{
    if n < 0x100_0000 * d {
        assert(d * exp2(0) == d) by (nonlinear_arith)
            requires
                exp2(0) == 1,
        ;
    } else {
        lemma_grade_bounds(n, 2 * d);
        let k = grade_for(n, 2 * d);
        let x = exp2(k);
        assert(exp2(1 + k) == 2 * x);
        assert((2 * d) * x == d * exp2(1 + k)) by (nonlinear_arith)
            requires
                exp2(1 + k) == 2 * x,
        ;
        if k == 0 {
            assert(d * exp2(1) == 2 * d) by (nonlinear_arith)
                requires
                    exp2(1) == 2 * 1,
            ;
        }
    }
}

proof fn lemma_round_half_even_monotone(m: nat, n: nat, d: nat)
    requires
        m <= n,
        d > 0,
    ensures
        round_half_even(m, d) <= round_half_even(n, d),
{
    vstd::arithmetic::div_mod::lemma_fundamental_div_mod(m as int, d as int);
    vstd::arithmetic::div_mod::lemma_fundamental_div_mod(n as int, d as int);
    let p = m / d;
    let q = n / d;
    if p > q {
        assert(d * p >= d * q + d) by (nonlinear_arith)
            requires
                p >= q + 1,
                d > 0,
        ;
        assert(false);
    }
}

/// Rounding keeps the order.
pub proof fn lemma_round_units_monotone(m: nat, n: nat, d: nat)
    requires
        m <= n,
        d > 0,
    ensures
        round_units(m, d) <= round_units(n, d),
{
    let j = grade_for(m, d);
    let k = grade_for(n, d);
    lemma_grade_bounds(m, d);
    lemma_grade_bounds(n, d);
    lemma_exp2_positive(j);
    lemma_exp2_positive(k);
    let x = d * exp2(j);
    let y = d * exp2(k);
    assert(x > 0 && y > 0) by (nonlinear_arith)
        requires
            x == d * exp2(j),
            y == d * exp2(k),
            d > 0,
            exp2(j) > 0,
            exp2(k) > 0,
    ;
    if j > k {
        lemma_exp2_monotone(k + 1, j);
        assert(x >= 2 * y) by (nonlinear_arith)
            requires
                x == d * exp2(j),
                y == d * exp2(k),
                exp2(j) >= 2 * exp2(k),
        ;
        assert(false);
    }
    if j == k {
        lemma_round_half_even_monotone(m, n, x);
    } else {
        lemma_round_half_even_monotone(m, 0x100_0000 * x, x);
        vstd::arithmetic::div_mod::lemma_fundamental_div_mod_converse(
            0x100_0000 * x as int,
            x as int,
            0x100_0000,
            0,
        );
        lemma_round_half_even_monotone(0x80_0000 * y, n, y);
        vstd::arithmetic::div_mod::lemma_fundamental_div_mod_converse(
            0x80_0000 * y as int,
            y as int,
            0x80_0000,
            0,
        );
    }
}

/// Finite patterns in order stand for numbers in order.
pub proof fn lemma_units_monotone(a: nat, b: nat)
    requires
        a <= b <= infinity(),
    ensures
        units(a) <= units(b),
{
    if a < b {
        lemma_units_increase(a, b);
    }
}

/// The pattern of the number one.
pub proof fn lemma_units_of_one()
    ensures
        units(0x3F80_0000) == exp2(149),
{
    lemma_exp2_values();
    lemma_exp2_adds(23, 126);
}

/// How far `t` parts of `d` are from `n`.
pub open spec fn error(t: nat, d: nat, n: nat) -> nat {
    if t * d <= n {
        (n - t * d) as nat
    } else {
        (t * d - n) as nat
    }
}

/// No whole number is nearer to `n / d` than the one that it rounds to.
proof fn lemma_round_half_even_nearest(n: nat, d: nat, t: nat)
    requires
        d > 0,
    ensures
        error(round_half_even(n, d), d, n) <= error(t, d, n),
{
    vstd::arithmetic::div_mod::lemma_fundamental_div_mod(n as int, d as int);
    let q = n / d;
    let r = n % d;
    assert(n == q * d + r) by (nonlinear_arith)
        requires
            n == d * q + r,
    ;
    assert((q + 1) * d == q * d + d) by (nonlinear_arith);
    if t <= q {
        assert(t * d <= q * d) by (nonlinear_arith)
            requires
                t <= q,
        ;
    } else {
        assert(t * d >= (q + 1) * d) by (nonlinear_arith)
            requires
                t >= q + 1,
        ;
    }
}

/// The units of a pattern that rounding gives.
proof fn lemma_units_of_rounded(n: nat, d: nat)
    requires
        d > 0,
        round_units(n, d) < infinity(),
    ensures
        ({
            let k = grade_for(n, d);
            units(round_units(n, d)) == round_half_even(n, d * exp2(k)) * exp2(k)
        }),
{
    let k = grade_for(n, d);
    let x = d * exp2(k);
    lemma_exp2_positive(k);
    lemma_grade_bounds(n, d);
    assert(x > 0) by (nonlinear_arith)
        requires
            d > 0,
            exp2(k) > 0,
            x == d * exp2(k),
    ;
    let s = round_half_even(n, x);
    lemma_round_half_even_of_multiple(0x100_0000, x);
    lemma_round_half_even_monotone(n, 0x100_0000 * x, x);
    if k > 0 {
        lemma_round_half_even_of_multiple(0x80_0000, x);
        lemma_round_half_even_monotone(0x80_0000 * x, n, x);
    }
    let m = round_units(n, d);
    assert(m == k * hidden_bit() + s);
    if s < 0x100_0000 {
        assert(grade(m) == k);
        assert(significand(m) == s);
    } else {
        assert(grade(m) == k + 1);
        assert(significand(m) == 0x80_0000);
        assert(exp2(k + 1) == 2 * exp2(k));
        assert(0x80_0000 * (2 * exp2(k)) == 0x100_0000 * exp2(k)) by (nonlinear_arith);
    }
}

proof fn lemma_round_half_even_of_multiple(s: nat, d: nat)
    requires
        d > 0,
    ensures
        round_half_even(s * d, d) == s,
{
    vstd::arithmetic::div_mod::lemma_div_multiples_vanish(s as int, d as int);
    vstd::arithmetic::div_mod::lemma_mod_multiples_basic(s as int, d as int);
    assert(s * d == d * s) by (nonlinear_arith);
}

/// Rounding gives the nearest value: no finite pattern stands for a number of
/// units that is nearer to `n / d`.
pub proof fn lemma_rounds_to_nearest(n: nat, d: nat, other: nat)
    requires
        d > 0,
        round_units(n, d) < infinity(),
        other < infinity(),
    ensures
        error(units(round_units(n, d)), d, n) <= error(units(other), d, n),
{
    let k = grade_for(n, d);
    let x = d * exp2(k);
    let e = exp2(k);
    lemma_exp2_positive(k);
    lemma_grade_bounds(n, d);
    assert(x > 0) by (nonlinear_arith)
        requires
            d > 0,
            e > 0,
            x == d * e,
    ;
    let s = round_half_even(n, x);
    lemma_units_of_rounded(n, d);
    assert((s * e) * d == s * x) by (nonlinear_arith)
        requires
            x == d * e,
    ;
    lemma_parts(other);
    let j = grade(other);
    let t = significand(other);
    if j >= k {
        // The other is a multiple of the same step.
        let f = exp2((j - k) as nat);
        lemma_exp2_adds((j - k) as nat, k);
        assert(units(other) == t * (f * e));
        assert((t * (f * e)) * d == (t * f) * x) by (nonlinear_arith)
            requires
                x == d * e,
        ;
        lemma_round_half_even_nearest(n, x, t * f);
    } else {
        // The other lies below all numbers of this grade.
        lemma_round_half_even_nearest(n, x, 0x80_0000);
        lemma_exp2_monotone(j, (k - 1) as nat);
        let h = exp2((k - 1) as nat);
        assert(e == 2 * h);
        assert(t * exp2(j) <= 0x100_0000 * h) by (nonlinear_arith)
            requires
                t < 0x100_0000,
                exp2(j) <= h,
        ;
        assert((t * exp2(j)) * d <= 0x80_0000 * x) by (nonlinear_arith)
            requires
                t * exp2(j) <= 0x100_0000 * h,
                x == d * (2 * h),
        ;
    }
}

/// The pattern of the number 7000.
pub proof fn lemma_value_of_7000()
    ensures
        (Binary32 { bits: 0x45DA_C000 }).whole() == 7000,
        !(Binary32 { bits: 0x45DA_C000 }).nan(),
        !(Binary32 { bits: 0x45DA_C000 }).infinite(),
{
    let m: nat = 0x45DA_C000;
    assert(grade(m) == 138);
    assert(significand(m) == 0xDA_C000);
    lemma_exp2_adds(11, 138);
    lemma_exp2_positive(138);
    assert(exp2(11) == 2048) by {
        reveal_with_fuel(exp2, 12);
    }
    let e = exp2(138);
    assert(0xDA_C000 * e == 7000 * (2048 * e)) by (nonlinear_arith);
    vstd::arithmetic::div_mod::lemma_div_multiples_vanish(7000, exp2(149) as int);
    assert(exp2(149) * 7000 == 7000 * exp2(149)) by (nonlinear_arith);
}

/// Whole numbers below two to the power 24 are binary32 values.
pub proof fn lemma_small_whole_exact(n: nat)
    requires
        n < 0x100_0000,
    ensures
        round_units(n * exp2(149), 1) < infinity(),
        units(round_units(n * exp2(149), 1)) == n * exp2(149),
{
    lemma_exp2_values();
    lemma_exp2_positive(149);
    let u = exp2(149);
    if n == 0 {
        assert(0 * u == 0) by (nonlinear_arith);
        lemma_round_units_exact(0);
        lemma_parts(0);
    } else {
        lemma_small_whole_pattern(n, 0);
        let m = choose|m: nat| m < infinity() && units(m) == n * u;
        lemma_round_units_exact(m);
    }
}

/// Some pattern stands for `n`, shifted as far to the left as it takes.
proof fn lemma_small_whole_pattern(n: nat, shift: nat)
    requires
        0 < n < 0x100_0000,
        shift <= 23,
        n * exp2(shift) < 0x100_0000,
    ensures
        exists|m: nat| m < infinity() && #[trigger] units(m) == n * exp2(149),
    decreases 24 - shift,
{
    let s = n * exp2(shift);
    if s < 0x80_0000 {
        assert(exp2(shift + 1) == 2 * exp2(shift));
        assert(n * exp2(shift + 1) == 2 * s) by (nonlinear_arith)
            requires
                s == n * exp2(shift),
                exp2(shift + 1) == 2 * exp2(shift),
        ;
        if shift == 23 {
            lemma_exp2_values();
            assert(s >= 0x80_0000) by (nonlinear_arith)
                requires
                    s == n * 0x80_0000,
                    n >= 1,
            ;
        }
        lemma_small_whole_pattern(n, shift + 1);
    } else {
        let k = (149 - shift) as nat;
        let m = k * hidden_bit() + s;
        lemma_exp2_adds(shift, k);
        assert(grade(m) == k && significand(m) == s);
        assert(s * exp2(k) == n * exp2(149)) by (nonlinear_arith)
            requires
                s == n * exp2(shift),
                exp2(149) == exp2(shift) * exp2(k),
        ;
        assert(units(m) == n * exp2(149));
    }
}

/// Rounding moves a number by no more than one part in 2^24, as long as it is at
/// least 2^23 units.
pub proof fn lemma_relative_error(n: nat, d: nat)
    requires
        d > 0,
        round_units(n, d) < infinity(),
        n >= 0x80_0000 * d,
    ensures
        0x100_0000 * (units(round_units(n, d)) * d) <= 0x100_0001 * n,
        0x100_0000 * (units(round_units(n, d)) * d) >= 0xFF_FFFF * n,
{
    let k = grade_for(n, d);
    let e = exp2(k);
    let x = d * e;
    lemma_exp2_positive(k);
    lemma_grade_bounds(n, d);
    lemma_units_of_rounded(n, d);
    assert(x > 0) by (nonlinear_arith)
        requires
            d > 0,
            e > 0,
            x == d * e,
    ;
    if k == 0 {
        assert(x == d) by (nonlinear_arith)
            requires
                x == d * e,
                e == 1,
        ;
    }
    assert(n >= 0x80_0000 * x);
    let r = round_half_even(n, x);
    let p = units(round_units(n, d));
    assert(p * d == r * x) by (nonlinear_arith)
        requires
            p == r * e,
            x == d * e,
    ;
    vstd::arithmetic::div_mod::lemma_fundamental_div_mod(n as int, x as int);
    let q = n / x;
    let m = n % x;
    assert(n == q * x + m) by (nonlinear_arith)
        requires
            n == x * q + m,
    ;
    assert((q + 1) * x == q * x + x) by (nonlinear_arith);
    assert(2 * (r * x) <= 2 * n + x && 2 * n <= 2 * (r * x) + x);
}

/// The pattern of the number 800.
pub proof fn lemma_value_of_800()
    ensures
        !(Binary32 { bits: 0x4448_0000 }).nan(),
        (Binary32 { bits: 0x4448_0000 }).value() == 800 * exp2(149),
{
    let m: nat = 0x4448_0000;
    assert(grade(m) == 135);
    assert(significand(m) == 0xC8_0000);
    lemma_exp2_adds(14, 135);
    assert(exp2(14) == 16384) by {
        reveal_with_fuel(exp2, 15);
    }
    let e = exp2(135);
    assert(0xC8_0000 * e == 800 * (16384 * e)) by (nonlinear_arith);
}

/// The pattern of the number one.
pub proof fn lemma_value_of_1()
    ensures
        !(Binary32 { bits: 0x3F80_0000 }).nan(),
        (Binary32 { bits: 0x3F80_0000 }).value() == exp2(149),
{
    lemma_units_of_one();
}

/// The pattern of the number ten.
pub proof fn lemma_value_of_10()
    ensures
        units(0x4120_0000) == 10 * exp2(149),
{
    let m: nat = 0x4120_0000;
    assert(grade(m) == 129);
    assert(significand(m) == 0xA0_0000);
    lemma_exp2_adds(20, 129);
    assert(exp2(20) == 0x10_0000) by {
        reveal_with_fuel(exp2, 21);
    }
    let e = exp2(129);
    assert(0xA0_0000 * e == 10 * (0x10_0000 * e)) by (nonlinear_arith);
}

/// How many units the whole numbers of 64 bits reach up to.
pub proof fn lemma_units_of_64_bits()
    ensures
        units(0x5F80_0000) == 0x1_0000_0000_0000_0000 * exp2(149),
        exp2(149) >= 0x1_0000_0000_0000_0000 * 0x1_0000_0000_0000_0000,
{
    lemma_exp2_values();
    lemma_exp2_adds(23, 190);
    lemma_exp2_adds(64, 149);
    lemma_exp2_adds(64, 64);
    lemma_exp2_adds(128, 21);
    lemma_exp2_positive(21);
    let x = exp2(128);
    let y = exp2(21);
    assert(x * y >= x) by (nonlinear_arith)
        requires
            y >= 1,
            x >= 0,
    ;
}

/// An IEEE 754 binary32 value, as its bit pattern.
#[derive(Debug, Clone, Copy, PartialEq, Eq, Structural)]
pub struct Binary32 {
    pub bits: u32,
}

/// The value with the given sign and magnitude pattern.
pub open spec fn signed(negative: bool, magnitude: nat) -> Binary32 {
    Binary32 { bits: (if negative { magnitude + 0x8000_0000 } else { magnitude }) as u32 }
}

/// The quiet NaN that stands for every undefined result.
pub open spec fn not_a_number() -> Binary32 {
    Binary32 { bits: 0x7FC0_0000 }
}

impl Binary32 {
    pub open spec fn negative(self) -> bool {
        self.bits >= 0x8000_0000
    }

    pub open spec fn magnitude(self) -> nat {
        (self.bits % 0x8000_0000) as nat
    }

    pub open spec fn nan(self) -> bool {
        self.magnitude() > infinity()
    }

    pub open spec fn infinite(self) -> bool {
        self.magnitude() == infinity()
    }

    pub open spec fn zero(self) -> bool {
        self.magnitude() == 0
    }

    /// The signed number of units. Infinity lies beyond every finite value.
    pub open spec fn value(self) -> int {
        if self.negative() {
            -(units(self.magnitude()) as int)
        } else {
            units(self.magnitude()) as int
        }
    }

    /// The whole part of the value, towards zero.
    pub open spec fn whole(self) -> int {
        let w = (units(self.magnitude()) / exp2(149)) as int;
        if self.negative() {
            -w
        } else {
            w
        }
    }

    /// The product, rounded to the nearest value.
    pub open spec fn times(self, other: Binary32) -> Binary32 {
        let negative = self.negative() != other.negative();
        if self.nan() || other.nan() {
            not_a_number()
        } else if self.infinite() || other.infinite() {
            if self.zero() || other.zero() {
                not_a_number()
            } else {
                signed(negative, infinity())
            }
        } else {
            signed(
                negative,
                round_units(units(self.magnitude()) * units(other.magnitude()), exp2(149)),
            )
        }
    }

    /// The quotient, rounded to the nearest value.
    pub open spec fn over(self, other: Binary32) -> Binary32 {
        let negative = self.negative() != other.negative();
        if self.nan() || other.nan() || (self.infinite() && other.infinite()) || (self.zero()
            && other.zero()) {
            not_a_number()
        } else if self.infinite() || other.zero() {
            signed(negative, infinity())
        } else if other.infinite() {
            signed(negative, 0)
        } else {
            signed(
                negative,
                round_units(units(self.magnitude()) * exp2(149), units(other.magnitude())),
            )
        }
    }

    /// The value nearest to a whole number.
    pub open spec fn nearest(n: int) -> Binary32 {
        if n < 0 {
            signed(true, round_units((-n) as nat * exp2(149), 1))
        } else {
            signed(false, round_units(n as nat * exp2(149), 1))
        }
    }

    /// Whether the value lies below `other`. False where either is not a number.
    pub open spec fn below(self, other: Binary32) -> bool {
        !self.nan() && !other.nan() && self.value() < other.value()
    }

    /// Whether the value is `other` or lies below it. False where either is not
    /// a number.
    pub open spec fn at_most(self, other: Binary32) -> bool {
        !self.nan() && !other.nan() && self.value() <= other.value()
    }

    /// The whole part brought into the range `lo..=hi`, and zero for what is not
    /// a number.
    pub open spec fn clamped(self, lo: int, hi: int) -> int {
        if self.nan() {
            0
        } else if self.infinite() {
            if self.negative() {
                lo
            } else {
                hi
            }
        } else if self.whole() < lo {
            lo
        } else if self.whole() > hi {
            hi
        } else {
            self.whole()
        }
    }

    /// The nearest whole number, halves going up, of a value that is not
    /// negative; no more than `hi`, and zero for what is negative or not a
    /// number.
    pub open spec fn rounded_clamped(self, hi: int) -> int {
        let r = ((2 * units(self.magnitude()) + exp2(149)) / (2 * exp2(149))) as int;
        if self.nan() || self.negative() {
            0
        } else if self.infinite() || r > hi {
            hi
        } else {
            r
        }
    }
}

/// Zero units round to zero.
pub proof fn lemma_round_units_zero(d: nat)
    requires
        d > 0,
    ensures
        round_units(0, d) == 0,
{
    assert(d * exp2(0) == d) by (nonlinear_arith)
        requires
            exp2(0) == 1,
    ;
}

/// What the powers of two that delimit whole 32-bit numbers are.
pub proof fn lemma_exp2_facts()
    ensures
        exp2(149) > 0,
        units(0x4F80_0000) == 0x1_0000_0000 * exp2(149),
{
    lemma_exp2_positive(149);
    lemma_exp2_values();
    lemma_exp2_adds(23, 158);
    lemma_exp2_adds(32, 149);
}

/// What is brought into a range stays in order.
pub proof fn lemma_clamped_in_order(a: Binary32, b: Binary32, lo: int, hi: int)
    requires
        lo <= hi,
        a.at_most(b),
    ensures
        a.clamped(lo, hi) <= b.clamped(lo, hi),
{
    lemma_exp2_positive(149);
    let x = a.magnitude();
    let y = b.magnitude();
    let e = exp2(149) as int;
    if x <= y {
        if x < y {
            lemma_units_increase(x, y);
        }
        vstd::arithmetic::div_mod::lemma_div_is_ordered(units(x) as int, units(y) as int, e);
    } else {
        lemma_units_increase(y, x);
        vstd::arithmetic::div_mod::lemma_div_is_ordered(units(y) as int, units(x) as int, e);
    }
    lemma_parts(x);
    lemma_parts(y);
    vstd::arithmetic::div_mod::lemma_div_pos_is_pos(units(x) as int, e);
    vstd::arithmetic::div_mod::lemma_div_pos_is_pos(units(y) as int, e);
    assert(0int / e == 0) by {
        vstd::arithmetic::div_mod::lemma_div_basics(e);
    }
}

/// Rounding to a whole number stays between zero and the bound.
pub proof fn lemma_rounded_is_not_negative(x: Binary32, hi: int)
    requires
        0 <= hi,
    ensures
        0 <= x.rounded_clamped(hi) <= hi,
{
    lemma_exp2_positive(149);
    vstd::arithmetic::div_mod::lemma_div_pos_is_pos(
        (2 * units(x.magnitude()) + exp2(149)) as int,
        2 * exp2(149) as int,
    );
}

/// The nearest whole number to zero is zero.
pub proof fn lemma_zero_rounds_to_zero()
    ensures
        forall|hi: int| hi >= 0 ==> (#[trigger] signed(false, 0).rounded_clamped(hi)) == 0,
{
    lemma_exp2_positive(149);
    lemma_parts(0);
    vstd::arithmetic::div_mod::lemma_fundamental_div_mod_converse(
        exp2(149) as int,
        2 * exp2(149) as int,
        0,
        exp2(149) as int,
    );
}

/// The nearest whole number to a whole number is that number.
pub proof fn lemma_whole_rounds_to_itself(magnitude: nat, n: nat)
    requires
        magnitude < infinity(),
        units(magnitude) == n * exp2(149),
    ensures
        signed(false, magnitude).rounded_clamped(n as int) == n,
{
    let u = exp2(149);
    lemma_exp2_positive(149);
    assert(2 * (n * u) + u == n * (2 * u) + u) by (nonlinear_arith);
    vstd::arithmetic::div_mod::lemma_fundamental_div_mod_converse(
        (2 * (n * u) + u) as int,
        2 * u as int,
        n as int,
        u as int,
    );
}

/// Multiplying by the same value and rounding to a whole number keeps the
/// order of values that are not negative.
pub proof fn lemma_product_rounds_in_order(a: Binary32, b: Binary32, c: Binary32, hi: int)
    requires
        !a.negative() && !b.negative() && !c.negative(),
        a.magnitude() <= b.magnitude() < infinity(),
        c.magnitude() <= infinity(),
        hi >= 0,
    ensures
        a.times(c).rounded_clamped(hi) <= b.times(c).rounded_clamped(hi),
{
    let u = exp2(149);
    lemma_exp2_positive(149);
    if c.infinite() {
        assert(signed(false, infinity()).rounded_clamped(hi) == hi);
        assert(a.times(c).rounded_clamped(hi) <= hi);
    } else {
        let x = units(a.magnitude());
        let y = units(b.magnitude());
        let z = units(c.magnitude());
        lemma_units_monotone(a.magnitude(), b.magnitude());
        assert(x * z <= y * z) by (nonlinear_arith)
            requires
                x <= y,
        ;
        lemma_round_units_monotone(x * z, y * z, u);
        let p = round_units(x * z, u);
        let q = round_units(y * z, u);
        lemma_units_monotone(p, q);
        vstd::arithmetic::div_mod::lemma_div_is_ordered(
            (2 * units(p) + u) as int,
            (2 * units(q) + u) as int,
            2 * u as int,
        );
    }
}

/// The significand and grade of a finite magnitude pattern.
fn split(magnitude: u32) -> (r: (u32, u32))
    requires
        magnitude < infinity(),
    ensures
        r.0 == significand(magnitude as nat),
        r.1 == grade(magnitude as nat),
        r.0 < 0x100_0000,
        r.1 <= 253,
{
    proof {
        lemma_parts(magnitude as nat);
    }
    if magnitude < 0x100_0000 {
        (magnitude, 0)
    } else {
        let k: u32 = magnitude / 0x80_0000 - 1;
        (magnitude - k * 0x80_0000, k)
    }
}

/// The value with the given sign and magnitude pattern.
fn join(negative: bool, magnitude: u32) -> (r: Binary32)
    requires
        magnitude < 0x8000_0000,
    ensures
        r == signed(negative, magnitude as nat),
{
    if negative {
        Binary32 { bits: magnitude + 0x8000_0000 }
    } else {
        Binary32 { bits: magnitude }
    }
}

/// Rounding never leaves the patterns up to infinity.
proof fn lemma_round_units_bound(n: nat, d: nat)
    ensures
        round_units(n, d) <= infinity(),
{
}

/// The whole part of a finite magnitude, no more than `u64::MAX`.
fn whole_part(magnitude: u32) -> (r: u64)
    requires
        magnitude < infinity(),
    ensures
        r == if units(magnitude as nat) / exp2(149) <= u64::MAX {
            units(magnitude as nat) / exp2(149)
        } else {
            u64::MAX as nat
        },
{
    let (s, k) = split(magnitude);
    let ghost n = units(magnitude as nat);
    proof {
        lemma_exp2_values();
        lemma_exp2_positive(149);
        lemma_parts(magnitude as nat);
    }
    if k >= 149 {
        let up: u32 = k - 149;
        let ghost x = exp2(up as nat);
        proof {
            lemma_exp2_adds(up as nat, 149);
            assert(n == (s * x) * exp2(149)) by (nonlinear_arith)
                requires
                    n == s * exp2(k as nat),
                    exp2(k as nat) == x * exp2(149),
            ;
            vstd::arithmetic::div_mod::lemma_fundamental_div_mod_converse(
                n as int,
                exp2(149) as int,
                s * x,
                0,
            );
            lemma_exp2_positive(up as nat);
        }
        if up > 41 {
            proof {
                lemma_exp2_monotone(42, up as nat);
                lemma_exp2_adds(42, 22);
                lemma_exp2_adds(23, 42);
                lemma_exp2_adds(1, 64);
                assert(exp2(1) == 2 * exp2(0));
                assert(s * x >= exp2(65)) by (nonlinear_arith)
                    requires
                        s >= 0x80_0000,
                        x >= exp2(42),
                        exp2(65) == 0x80_0000 * exp2(42),
                ;
            }
            u64::MAX
        } else {
            proof {
                lemma_exp2_monotone(up as nat, 41);
                lemma_exp2_adds(24, 41);
                lemma_exp2_adds(1, 64);
                assert(exp2(1) == 2 * exp2(0));
                assert(s * x < exp2(65)) by (nonlinear_arith)
                    requires
                        s < 0x100_0000,
                        x <= exp2(41),
                        exp2(65) == 0x100_0000 * exp2(41),
                        x > 0,
                ;
            }
            let w: u128 = s as u128 * power(up);
            if w <= u64::MAX as u128 {
                w as u64
            } else {
                u64::MAX
            }
        }
    } else {
        let down: u32 = 149 - k;
        let ghost y = exp2(down as nat);
        let ghost x = exp2(k as nat);
        proof {
            lemma_exp2_adds(down as nat, k as nat);
            lemma_exp2_positive(down as nat);
            lemma_exp2_positive(k as nat);
            // n / exp2(149) == s / exp2(down)
            vstd::arithmetic::div_mod::lemma_fundamental_div_mod(s as int, y as int);
            let q = s as nat / y;
            let r = s as nat % y;
            assert(n == q * exp2(149) + r * x && 0 <= r * x < exp2(149)) by (nonlinear_arith)
                requires
                    n == s * x,
                    exp2(149) == y * x,
                    s == y * q + r,
                    0 <= r < y,
                    x > 0,
            ;
            vstd::arithmetic::div_mod::lemma_fundamental_div_mod_converse(
                n as int,
                exp2(149) as int,
                q as int,
                (r * x) as int,
            );
        }
        if down > 24 {
            proof {
                lemma_exp2_monotone(24, down as nat);
                vstd::arithmetic::div_mod::lemma_fundamental_div_mod_converse(
                    s as int,
                    y as int,
                    0,
                    s as int,
                );
            }
            0
        } else {
            let p: u128 = power(down);
            proof {
                vstd::arithmetic::div_mod::lemma_div_nonincreasing(s as int, p as int);
            }
            (s as u128 / p) as u64
        }
    }
}

impl Binary32 {
    /// The value with the given bit pattern.
    pub fn from_bits(bits: u32) -> (r: Binary32)
        ensures
            r.bits == bits,
    {
        Binary32 { bits }
    }

    /// The bit pattern without its sign.
    fn pattern(self) -> (r: u32)
        ensures
            r == self.magnitude(),
            r < 0x8000_0000,
    {
        self.bits % 0x8000_0000
    }

    fn is_negative(self) -> (r: bool)
        ensures
            r == self.negative(),
    {
        self.bits >= 0x8000_0000
    }

    /// The value nearest to `n`.
    pub fn from_u64(n: u64) -> (r: Binary32)
        ensures
            r == Binary32::nearest(n as int),
    {
        proof {
            lemma_exp2_values();
            lemma_exp2_monotone(64, 126);
            lemma_exp2_positive(400);
            vstd::arithmetic::div_mod::lemma_fundamental_div_mod_converse(
                n as int,
                1,
                n as int,
                0,
            );
        }
        let m: u32 = round_scaled(n as u128, false, 149, Ghost(n as nat), Ghost(1));
        proof {
            lemma_exp2_adds(149, 400);
            let c = exp2(400);
            let u = exp2(149);
            assert(n * exp2(549) == c * (n * u)) by (nonlinear_arith)
                requires
                    exp2(549) == u * c,
            ;
            assert(1 * c == c * 1);
            lemma_round_units_scales(c, n as nat * u, 1);
        }
        join(false, m)
    }

    /// The value nearest to `n`.
    pub fn from_i32(n: i32) -> (r: Binary32)
        ensures
            r == Binary32::nearest(n as int),
    {
        if n >= 0 {
            Binary32::from_u64(n as u64)
        } else {
            let m: u64 = (-(n as i64)) as u64;
            let r = Binary32::from_u64(m);
            proof {
                lemma_round_units_bound(m as nat * exp2(149), 1);
            }
            join(true, r.pattern())
        }
    }

    /// The product, rounded to the nearest value.
    pub fn multiply(self, other: Binary32) -> (r: Binary32)
        ensures
            r == self.times(other),
    {
        let a: u32 = self.pattern();
        let b: u32 = other.pattern();
        let negative = self.is_negative() != other.is_negative();
        if a > 0x7F80_0000 || b > 0x7F80_0000 {
            return Binary32 { bits: 0x7FC0_0000 };
        }
        if a == 0x7F80_0000 || b == 0x7F80_0000 {
            if a == 0 || b == 0 {
                return Binary32 { bits: 0x7FC0_0000 };
            }
            return join(negative, 0x7F80_0000);
        }
        let (sa, ka) = split(a);
        let (sb, kb) = split(b);
        assert(sa * sb < 0x1_0000_0000_0000) by (nonlinear_arith)
            requires
                sa < 0x100_0000,
                sb < 0x100_0000,
        ;
        let p: u64 = sa as u64 * sb as u64;
        let e: i32 = ka as i32 + kb as i32 - 149;
        proof {
            lemma_exp2_values();
            lemma_exp2_monotone(48, 126);
            vstd::arithmetic::div_mod::lemma_fundamental_div_mod_converse(
                p as int,
                1,
                p as int,
                0,
            );
        }
        let m: u32 = round_scaled(p as u128, false, e, Ghost(p as nat), Ghost(1));
        proof {
            let xa = exp2(ka as nat);
            let xb = exp2(kb as nat);
            let c = exp2(251);
            lemma_exp2_positive(251);
            lemma_exp2_positive(149);
            lemma_exp2_adds(ka as nat, kb as nat);
            lemma_exp2_adds((ka + kb) as nat, 251);
            lemma_exp2_adds(251, 149);
            let n = units(a as nat) * units(b as nat);
            assert((e + 400) as nat == (ka + kb) as nat + 251);
            assert(p * exp2((e + 400) as nat) == c * n) by (nonlinear_arith)
                requires
                    p == sa * sb,
                    n == (sa * xa) * (sb * xb),
                    exp2((e + 400) as nat) == (xa * xb) * c,
            ;
            assert(1 * exp2(400) == c * exp2(149));
            lemma_round_units_scales(c, n, exp2(149));
            lemma_round_units_bound(n, exp2(149));
        }
        join(negative, m)
    }

    /// The quotient, rounded to the nearest value.
    pub fn divide(self, other: Binary32) -> (r: Binary32)
        ensures
            r == self.over(other),
    {
        let a: u32 = self.pattern();
        let b: u32 = other.pattern();
        let negative = self.is_negative() != other.is_negative();
        if a > 0x7F80_0000 || b > 0x7F80_0000 || (a == 0x7F80_0000 && b == 0x7F80_0000) || (a == 0
            && b == 0) {
            return Binary32 { bits: 0x7FC0_0000 };
        }
        if a == 0x7F80_0000 || b == 0 {
            return join(negative, 0x7F80_0000);
        }
        if b == 0x7F80_0000 {
            return join(negative, 0);
        }
        let (sa, ka) = split(a);
        let (sb, kb) = split(b);
        proof {
            lemma_parts(a as nat);
            lemma_parts(b as nat);
            lemma_exp2_positive(kb as nat);
            assert(sb > 0) by (nonlinear_arith)
                requires
                    sb * exp2(kb as nat) != 0,
            ;
            lemma_exp2_values();
            lemma_exp2_adds(24, 100);
            lemma_exp2_monotone(124, 126);
            lemma_exp2_monotone(126, 127);
            lemma_exp2_127();
            lemma_exp2_positive(100);
            assert(sa * exp2(100) < exp2(124)) by (nonlinear_arith)
                requires
                    sa < 0x100_0000,
                    exp2(124) == 0x100_0000 * exp2(100),
                    exp2(100) > 0,
            ;
        }
        let shift: u128 = power(100);
        let n: u128 = sa as u128 * shift;
        let m: u128 = n / sb as u128;
        let sticky = n % sb as u128 != 0;
        let e: i32 = ka as i32 - kb as i32 + 49;
        proof {
            vstd::arithmetic::div_mod::lemma_div_nonincreasing(n as int, sb as int);
            if sticky {
                assert(sa > 0) by (nonlinear_arith)
                    requires
                        n == sa * shift,
                        n % sb as u128 != 0,
                        sb > 0,
                ;
                lemma_exp2_adds(24, 76);
                lemma_exp2_monotone(30, 76);
                assert(m >= exp2(76)) by (nonlinear_arith)
                    requires
                        n == sa * shift,
                        m == n / sb as u128,
                        sa >= 1,
                        0 < sb < 0x100_0000,
                        shift == 0x100_0000 * exp2(76),
                ;
            }
        }
        let r: u32 = round_scaled(m, sticky, e, Ghost(n as nat), Ghost(sb as nat));
        proof {
            let c = exp2((400 - kb) as nat);
            let xa = exp2(ka as nat);
            let xb = exp2(kb as nat);
            lemma_exp2_positive((400 - kb) as nat);
            lemma_exp2_adds((400 - kb) as nat, kb as nat);
            lemma_exp2_adds(100, (e + 400) as nat);
            lemma_exp2_adds(ka as nat, 149);
            lemma_exp2_adds((ka + 149) as nat, (400 - kb) as nat);
            assert(100 + (e + 400) as nat == (ka + 149) as nat + (400 - kb) as nat);
            let un = units(a as nat) * exp2(149);
            let ud = units(b as nat);
            assert(n * exp2((e + 400) as nat) == c * un) by (nonlinear_arith)
                requires
                    n == sa * shift,
                    un == (sa * xa) * exp2(149),
                    shift * exp2((e + 400) as nat) == (xa * exp2(149)) * c,
            ;
            assert(sb * exp2(400) == c * ud) by (nonlinear_arith)
                requires
                    ud == sb * xb,
                    exp2(400) == c * xb,
            ;
            lemma_round_units_scales(c, un, ud);
            lemma_round_units_bound(un, ud);
        }
        join(negative, r)
    }

    /// The whole part, saturating; zero for what is not a number.
    pub fn to_i32(self) -> (r: i32)
        ensures
            r == self.clamped(i32::MIN as int, i32::MAX as int),
    {
        let m: u32 = self.pattern();
        if m > 0x7F80_0000 {
            return 0;
        }
        let w: u64 = if m == 0x7F80_0000 {
            u64::MAX
        } else {
            whole_part(m)
        };
        if self.is_negative() {
            if w <= 0x7FFF_FFFF {
                -(w as i32)
            } else {
                i32::MIN
            }
        } else {
            if w <= 0x7FFF_FFFF {
                w as i32
            } else {
                i32::MAX
            }
        }
    }

    /// The whole part, saturating; zero for what is negative or not a number.
    pub fn to_u32(self) -> (r: u32)
        ensures
            r == self.clamped(0, u32::MAX as int),
    {
        let m: u32 = self.pattern();
        if m > 0x7F80_0000 || self.is_negative() {
            proof {
                lemma_exp2_positive(149);
                vstd::arithmetic::div_mod::lemma_div_pos_is_pos(
                    units(m as nat) as int,
                    exp2(149) as int,
                );
            }
            return 0;
        }
        let w: u64 = if m == 0x7F80_0000 {
            u64::MAX
        } else {
            whole_part(m)
        };
        if w <= 0xFFFF_FFFF {
            w as u32
        } else {
            u32::MAX
        }
    }

    /// The nearest whole number, halves going away from zero, saturating; zero
    /// for what is negative or not a number.
    pub fn round_to_u64(self) -> (r: u64)
        ensures
            r == self.rounded_clamped(u64::MAX as int),
    {
        let m: u32 = self.pattern();
        if m > 0x7F80_0000 || self.is_negative() {
            return 0;
        }
        if m == 0x7F80_0000 {
            return u64::MAX;
        }
        let w: u64 = whole_part(m);
        let (s, k) = split(m);
        let ghost n = units(m as nat);
        let ghost one = exp2(149);
        proof {
            lemma_exp2_positive(149);
            vstd::arithmetic::div_mod::lemma_fundamental_div_mod(n as int, one as int);
        }
        let ghost q = n / one;
        let ghost rest = n % one;
        proof {
            // Half a unit of the whole number decides.
            assert(2 * n + one == q * (2 * one) + 2 * rest + one) by (nonlinear_arith)
                requires
                    n == one * q + rest,
            ;
            assert((q + 1) * (2 * one) == q * (2 * one) + 2 * one) by (nonlinear_arith);
            if 2 * rest < one {
                vstd::arithmetic::div_mod::lemma_fundamental_div_mod_converse(
                    (2 * n + one) as int,
                    (2 * one) as int,
                    q as int,
                    (2 * rest + one) as int,
                );
            } else {
                vstd::arithmetic::div_mod::lemma_fundamental_div_mod_converse(
                    (2 * n + one) as int,
                    (2 * one) as int,
                    (q + 1) as int,
                    (2 * rest - one) as int,
                );
            }
        }
        if k >= 149 {
            proof {
                lemma_exp2_adds((k - 149) as nat, 149);
                let x = exp2((k - 149) as nat);
                assert(n == (s * x) * one) by (nonlinear_arith)
                    requires
                        n == s * exp2(k as nat),
                        exp2(k as nat) == x * one,
                ;
                vstd::arithmetic::div_mod::lemma_fundamental_div_mod_converse(
                    n as int,
                    one as int,
                    s * x,
                    0,
                );
            }
            return w;
        }
        let down: u32 = 149 - k;
        let ghost x = exp2(k as nat);
        let ghost y = exp2(down as nat);
        proof {
            lemma_exp2_values();
            lemma_exp2_adds(down as nat, k as nat);
            lemma_exp2_positive(k as nat);
            lemma_exp2_positive(down as nat);
            vstd::arithmetic::div_mod::lemma_fundamental_div_mod(s as int, y as int);
            let f = s as nat / y;
            let low = s as nat % y;
            assert(n == f * one + low * x && 0 <= low * x < one) by (nonlinear_arith)
                requires
                    n == s * x,
                    one == y * x,
                    s == y * f + low,
                    0 <= low < y,
                    x > 0,
            ;
            vstd::arithmetic::div_mod::lemma_fundamental_div_mod_converse(
                n as int,
                one as int,
                f as int,
                (low * x) as int,
            );
            assert(2 * low < y <==> 2 * (low * x) < one) by (nonlinear_arith)
                requires
                    one == y * x,
                    x > 0,
            ;
        }
        if down > 25 {
            proof {
                lemma_exp2_monotone(26, down as nat);
                lemma_exp2_adds(2, 24);
                reveal_with_fuel(exp2, 3);
                vstd::arithmetic::div_mod::lemma_fundamental_div_mod_converse(
                    s as int,
                    y as int,
                    0,
                    s as int,
                );
            }
            return 0;
        }
        let p: u128 = power(down);
        let low: u128 = s as u128 % p;
        proof {
            lemma_exp2_monotone(down as nat, 25);
            lemma_exp2_adds(1, 24);
            reveal_with_fuel(exp2, 3);
            vstd::arithmetic::div_mod::lemma_div_nonincreasing(s as int, p as int);
        }
        if 2 * low < p {
            w
        } else {
            w + 1
        }
    }

    /// Whether the value is `other` or lies below it.
    pub fn le(self, other: Binary32) -> (r: bool)
        ensures
            r == self.at_most(other),
    {
        let a: u32 = self.pattern();
        let b: u32 = other.pattern();
        if a > 0x7F80_0000 || b > 0x7F80_0000 {
            return false;
        }
        proof {
            lemma_parts(a as nat);
            lemma_parts(b as nat);
            if a < b {
                lemma_units_increase(a as nat, b as nat);
            }
            if b < a {
                lemma_units_increase(b as nat, a as nat);
            }
        }
        if self.is_negative() {
            if other.is_negative() {
                b <= a
            } else {
                true
            }
        } else {
            if other.is_negative() {
                a == 0 && b == 0
            } else {
                a <= b
            }
        }
    }

    /// Whether the value lies above `other`.
    pub fn gt(self, other: Binary32) -> (r: bool)
        ensures
            r == other.below(self),
    {
        let a: u32 = self.pattern();
        let b: u32 = other.pattern();
        if a > 0x7F80_0000 || b > 0x7F80_0000 {
            return false;
        }
        !self.le(other)
    }
}

/// Whether `a` is `b` but for one part in 2^24.
pub open spec fn near(a: int, b: int) -> bool {
    0xFF_FFFF * b <= 0x100_0000 * a <= 0x100_0001 * b
}

/// A product is near the exact one, unless it is tiny or too large.
pub proof fn lemma_times_near(x: Binary32, y: Binary32)
    requires
        !x.negative(),
        !y.negative(),
        x.magnitude() < infinity(),
        y.magnitude() < infinity(),
        x.value() * y.value() >= 0x80_0000 * exp2(149),
        round_units(units(x.magnitude()) * units(y.magnitude()), exp2(149)) < infinity(),
    ensures
        !x.times(y).negative(),
        x.times(y).magnitude() < infinity(),
        near(x.times(y).value() * exp2(149), x.value() * y.value()),
{
    lemma_exp2_positive(149);
    let n = units(x.magnitude()) * units(y.magnitude());
    let m = round_units(n, exp2(149));
    assert(x.times(y).bits == m);
    assert(x.times(y).magnitude() == m);
    lemma_relative_error(n, exp2(149));
}

/// A quotient is near the exact one, unless it is tiny or too large.
pub proof fn lemma_over_near(x: Binary32, y: Binary32)
    requires
        !x.negative(),
        !y.negative(),
        x.magnitude() < infinity(),
        0 < y.magnitude() < infinity(),
        x.value() * exp2(149) >= 0x80_0000 * y.value(),
        round_units(units(x.magnitude()) * exp2(149), units(y.magnitude())) < infinity(),
    ensures
        !x.over(y).negative(),
        x.over(y).magnitude() < infinity(),
        near(x.over(y).value() * y.value(), x.value() * exp2(149)),
{
    lemma_exp2_positive(149);
    lemma_parts(y.magnitude());
    let n = units(x.magnitude()) * exp2(149);
    let d = units(y.magnitude());
    let m = round_units(n, d);
    assert(x.over(y).bits == m);
    assert(x.over(y).magnitude() == m);
    lemma_relative_error(n, d);
}

/// Whether `r` is a speed in km/h where `x` is the same speed in m/s: 18 fifths of
/// it, but for one part in 2^22. Nothing is said of speeds that are negative, tiny
/// or beyond 2^125.
pub open spec fn is_kmh(x: Binary32, r: Binary32) -> bool {
    !x.negative() && x.value() >= 0x80_0000 && x.magnitude() <= 0x7E00_0000 ==> {
        &&& !r.negative() && !r.nan() && !r.infinite()
        &&& 0x3F_FFFF * (18 * x.value()) <= 0x40_0000 * (5 * r.value())
        &&& 0x40_0000 * (5 * r.value()) <= 0x40_0001 * (18 * x.value())
    }
}

/// Multiplying with the binary32 value nearest to 3.6 makes km/h of m/s.
pub proof fn lemma_kmh(x: Binary32)
    ensures
        is_kmh(x, x.times(Binary32 { bits: 0x4066_6666 })),
{
    if !x.negative() && x.value() >= 0x80_0000 && x.magnitude() <= 0x7E00_0000 {
        let c = Binary32 { bits: 0x4066_6666 };
        let u = exp2(149);
        let v = units(x.magnitude());
        let w = units(0x4066_6666);
        let e = exp2(127);
        lemma_exp2_positive(127);
        assert(grade(0x4066_6666) == 127 && significand(0x4066_6666) == 0xE6_6666);
        assert(w == 0xE6_6666 * e);
        lemma_exp2_adds(22, 127);
        assert(exp2(22) == 0x40_0000) by {
            reveal_with_fuel(exp2, 23);
        }
        assert(u == 0x40_0000 * e);
        assert(v * w == 0xE6_6666 * (v * e)) by (nonlinear_arith)
            requires
                w == 0xE6_6666 * e,
        ;
        let ve = v * e;
        assert(ve >= 0x80_0000 * e) by (nonlinear_arith)
            requires
                v >= 0x80_0000,
                ve == v * e,
        ;
        // It does not get too large: 3.6 is below 4.
        lemma_units_monotone(x.magnitude(), 0x7E00_0000);
        let top = units(0x7E00_0000);
        assert(grade(0x7E00_0000) == 251 && significand(0x7E00_0000) == 0x80_0000);
        assert(grade(0x7F00_0000) == 253 && significand(0x7F00_0000) == 0x80_0000);
        lemma_exp2_adds(2, 251);
        assert(exp2(2) == 4) by {
            reveal_with_fuel(exp2, 3);
        }
        let g = exp2(251);
        assert(exp2(253) == 4 * g) by (nonlinear_arith)
            requires
                exp2(253) == exp2(2) * g,
                exp2(2) == 4,
        ;
        let s7: nat = significand(0x7F00_0000);
        let s6: nat = significand(0x7E00_0000);
        let h = exp2(253);
        assert(s7 * h == 4 * (s6 * g)) by (nonlinear_arith)
            requires
                s7 == s6,
                h == 4 * g,
        ;
        assert(units(0x7F00_0000) == 4 * top);
        assert(v * w <= u * (4 * top)) by (nonlinear_arith)
            requires
                v <= top,
                w <= 4 * u,
                v >= 0,
                u >= 0,
        ;
        lemma_round_units_monotone(v * w, u * (4 * top), u);
        lemma_round_units_scales(u, 4 * top, 1);
        assert(u * 1 == u);
        lemma_round_units_exact(0x7F00_0000);
        assert(c.magnitude() == 0x4066_6666 && c.value() == w);
        lemma_times_near(x, c);
        let r = x.times(c);
        let t = r.value();
        let te = t * e;
        assert(t * u == 0x40_0000 * te) by (nonlinear_arith)
            requires
                u == 0x40_0000 * e,
                te == t * e,
        ;
        // Both sides are multiples of `e`.
        assert(0xFF_FFFF * (0xE6_6666 * ve) <= 0x100_0000 * (0x40_0000 * te) <= 0x100_0001 * (
        0xE6_6666 * ve));
        assert(0x3F_FFFF * (18 * ve) <= 0x40_0000 * (5 * te) <= 0x40_0001 * (18 * ve));
        let low = 0x3F_FFFF * (18 * v);
        let mid = 0x40_0000 * (5 * t);
        let high = 0x40_0001 * (18 * v);
        assert(low * e == 0x3F_FFFF * (18 * ve) && mid * e == 0x40_0000 * (5 * te) && high * e
            == 0x40_0001 * (18 * ve)) by (nonlinear_arith)
            requires
                low == 0x3F_FFFF * (18 * v),
                mid == 0x40_0000 * (5 * t),
                high == 0x40_0001 * (18 * v),
                ve == v * e,
                te == t * e,
        ;
        assert(low <= mid <= high) by (nonlinear_arith)
            requires
                low * e <= mid * e,
                mid * e <= high * e,
                e > 0,
        ;
    }
}

/// Whether `r` is the share that a whole number is of another, but for one part in
/// 2^24.
pub open spec fn is_share(n: nat, d: nat, r: Binary32) -> bool {
    &&& !r.negative() && !r.nan() && !r.infinite()
    &&& near(r.value() * d, (n * exp2(149)) as int)
}

/// The quotient of two whole numbers of up to 24 bits is the share of one in the
/// other.
pub proof fn lemma_share(n: nat, d: nat, y: Binary32)
    requires
        n < 0x100_0000,
        0 < d < 0x100_0000,
        !y.negative(),
        y.magnitude() < infinity(),
        units(y.magnitude()) == d * exp2(149),
    ensures
        is_share(n, d, Binary32::nearest(n as int).over(y)),
{
    let u = exp2(149);
    lemma_units_of_64_bits();
    lemma_small_whole_exact(n);
    let x = Binary32::nearest(n as int);
    assert(x.magnitude() == round_units(n * u, 1));
    lemma_share_of_units(n, d);
    let m = round_units(n * u * u, d * u);
    assert(d * u > 0) by (nonlinear_arith)
        requires
            d > 0,
            u > 0,
    ;
    lemma_parts(y.magnitude());
    assert(x.over(y).bits == m);
    assert(x.over(y).magnitude() == m);
}

proof fn lemma_share_of_units(n: nat, d: nat)
    requires
        n < 0x100_0000,
        0 < d < 0x100_0000,
    ensures
        ({
            let u = exp2(149);
            let m = round_units(n * u * u, d * u);
            m < infinity() && near((units(m) * d) as int, (n * u) as int)
        }),
{
    let u = exp2(149);
    lemma_units_of_64_bits();
    assert(n * u * u == u * (n * u) && d * u == u * d) by (nonlinear_arith);
    lemma_round_units_scales(u, n * u, d);
    if n == 0 {
        assert(0 * u == 0 && 0 * d == 0) by (nonlinear_arith);
        lemma_round_units_zero(d);
        assert(units(0) == 0 * exp2(0));
    } else {
        assert(u <= n * u <= 0x100_0000 * u) by (nonlinear_arith)
            requires
                1 <= n <= 0x100_0000,
                u > 0,
        ;
        let most = 0x1_0000_0000_0000_0000 * u;
        assert(n * u <= d * most) by (nonlinear_arith)
            requires
                n * u <= 0x100_0000 * u,
                most == 0x1_0000_0000_0000_0000 * u,
                d >= 1,
                u > 0,
        ;
        lemma_round_units_monotone(n * u, d * most, d);
        lemma_round_units_scales(d, most, 1);
        assert(d * 1 == d);
        lemma_round_units_exact(0x5F80_0000);
        lemma_relative_error(n * u, d);
    }
}

/// The pattern of the number 255.
pub proof fn lemma_value_of_255()
    ensures
        units(0x437F_0000) == 255 * exp2(149),
{
    let m: nat = 0x437F_0000;
    assert(grade(m) == 133);
    assert(significand(m) == 0xFF_0000);
    lemma_exp2_adds(16, 133);
    assert(exp2(16) == 0x1_0000) by {
        reveal_with_fuel(exp2, 17);
    }
    let e = exp2(133);
    assert(0xFF_0000 * e == 255 * (0x1_0000 * e)) by (nonlinear_arith);
}

/// The pattern of the number 1000.
pub proof fn lemma_value_of_1000()
    ensures
        units(0x447A_0000) == 1000 * exp2(149),
{
    let m: nat = 0x447A_0000;
    assert(grade(m) == 135);
    assert(significand(m) == 0xFA_0000);
    lemma_exp2_adds(14, 135);
    assert(exp2(14) == 0x4000) by {
        reveal_with_fuel(exp2, 15);
    }
    let e = exp2(135);
    assert(0xFA_0000 * e == 1000 * (0x4000 * e)) by (nonlinear_arith);
}

/// Whether `r` is ten times a value, cut off to a whole number: no more than one
/// below it, but for one part in 2^24. Nothing is said of values that are negative,
/// tiny or so large that the result does not fit 31 bits.
pub open spec fn is_tenfold(x: Binary32, r: int) -> bool {
    let u = exp2(149);
    !x.negative() && !x.nan() && x.value() >= 0x80_0000 && x.value() <= 0x800_0000 * u ==> {
        &&& r >= 0
        &&& 0x100_0000 * (r * u) <= 0x100_0001 * (10 * x.value())
        &&& 0xFF_FFFF * (10 * x.value()) < 0x100_0000 * (r * u + u)
    }
}

/// Multiplying with ten and cutting off makes the tenfold.
pub proof fn lemma_tenfold(x: Binary32)
    ensures
        is_tenfold(
            x,
            x.times(Binary32 { bits: 0x4120_0000 }).clamped(i32::MIN as int, i32::MAX as int),
        ),
{
    let u = exp2(149);
    if !x.negative() && !x.nan() && x.value() >= 0x80_0000 && x.value() <= 0x800_0000 * u {
        lemma_units_of_64_bits();
        lemma_value_of_10();
        let ten = Binary32 { bits: 0x4120_0000 };
        let v = units(x.magnitude());
        let w = 10 * u;
        assert(v * w == u * (10 * v)) by (nonlinear_arith)
            requires
                w == 10 * u,
        ;
        if x.infinite() {
            lemma_units_increase(0x5F80_0000, infinity());
        }
        assert(u * (10 * v) <= u * (0x5000_0000 * u)) by (nonlinear_arith)
            requires
                v <= 0x800_0000 * u,
                u > 0,
        ;
        lemma_round_units_monotone(v * w, u * (0x5000_0000 * u), u);
        lemma_round_units_scales(u, 0x5000_0000 * u, 1);
        assert(u * 1 == u);
        lemma_round_units_monotone(0x5000_0000 * u, 0x1_0000_0000_0000_0000 * u, 1);
        lemma_round_units_exact(0x5F80_0000);
        assert(v * w >= 0x80_0000 * u) by (nonlinear_arith)
            requires
                v * w == u * (10 * v),
                v >= 0x80_0000,
                u > 0,
        ;
        assert(ten.magnitude() == 0x4120_0000 && ten.value() == w);
        lemma_times_near(x, ten);
        let p = x.times(ten);
        let t = p.value();
        // Both sides are multiples of `u`.
        let low = 0xFF_FFFF * (10 * v);
        let mid = 0x100_0000 * t;
        let high = 0x100_0001 * (10 * v);
        assert(low <= mid <= high) by (nonlinear_arith)
            requires
                0xFF_FFFF * (u * (10 * v)) <= 0x100_0000 * (t * u),
                0x100_0000 * (t * u) <= 0x100_0001 * (u * (10 * v)),
                low == 0xFF_FFFF * (10 * v),
                mid == 0x100_0000 * t,
                high == 0x100_0001 * (10 * v),
                u > 0,
        ;
        let q = t / (u as int);
        vstd::arithmetic::div_mod::lemma_fundamental_div_mod(t, u as int);
        assert(q * u <= t < q * u + u) by (nonlinear_arith)
            requires
                t == u * q + t % (u as int),
                0 <= t % (u as int) < u,
        ;
        assert(0 <= q <= i32::MAX) by (nonlinear_arith)
            requires
                q * u <= t,
                0 <= t,
                t < q * u + u,
                0x100_0000 * t <= 0x100_0001 * (10 * v),
                v <= 0x800_0000 * u,
                u > 0,
        ;
        assert(p.whole() == q);
    }
}

/// The patterns of the numbers 70, 75 and 95.
pub proof fn lemma_values_of_limits()
    ensures
        units(0x428C_0000) == 70 * exp2(149),
        units(0x4296_0000) == 75 * exp2(149),
        units(0x42BE_0000) == 95 * exp2(149),
{
    assert(grade(0x428C_0000) == 132 && significand(0x428C_0000) == 0x8C_0000);
    assert(grade(0x4296_0000) == 132 && significand(0x4296_0000) == 0x96_0000);
    assert(grade(0x42BE_0000) == 132 && significand(0x42BE_0000) == 0xBE_0000);
    lemma_exp2_adds(17, 132);
    assert(exp2(17) == 0x2_0000) by {
        reveal_with_fuel(exp2, 18);
    }
    let e = exp2(132);
    assert(0x8C_0000 * e == 70 * (0x2_0000 * e)) by (nonlinear_arith);
    assert(0x96_0000 * e == 75 * (0x2_0000 * e)) by (nonlinear_arith);
    assert(0xBE_0000 * e == 95 * (0x2_0000 * e)) by (nonlinear_arith);
}

/// The whole part of a finite value is the value cut off towards zero, and what is
/// in range is not changed by bringing it there.
pub proof fn lemma_whole_is_cut_off(x: Binary32, lo: int, hi: int)
    requires
        x.magnitude() < infinity(),
        lo <= 0 <= hi,
    ensures
        !x.negative() ==> x.whole() * exp2(149) <= x.value() < (x.whole() + 1) * exp2(149),
        x.negative() ==> (x.whole() - 1) * exp2(149) < x.value() <= x.whole() * exp2(149),
        lo <= x.clamped(lo, hi) <= hi,
        lo <= x.whole() <= hi ==> x.clamped(lo, hi) == x.whole(),
{
    let u = exp2(149) as int;
    lemma_exp2_positive(149);
    let n = units(x.magnitude()) as int;
    let w = n / u;
    vstd::arithmetic::div_mod::lemma_fundamental_div_mod(n, u);
    assert(w * u <= n < (w + 1) * u) by (nonlinear_arith)
        requires
            n == u * w + n % u,
            0 <= n % u < u,
    ;
    assert((-w) * u == -(w * u) && (-w - 1) * u == -((w + 1) * u)) by (nonlinear_arith);
}

/// Rounding a finite value that is not negative to a whole number moves it by no
/// more than one half, and by one half only upwards.
pub proof fn lemma_rounded_is_nearest(x: Binary32, hi: int)
    requires
        x.magnitude() < infinity(),
        !x.negative(),
        0 <= hi,
    ensures
        ({
            let r = x.rounded_clamped(hi);
            let u = exp2(149);
            &&& 0 <= r <= hi
            &&& r < hi ==> 2 * x.value() < 2 * (r * u) + u
            &&& 2 * (r * u) <= 2 * x.value() + u
        }),
{
    let u = exp2(149) as int;
    lemma_exp2_positive(149);
    let n = units(x.magnitude()) as int;
    let m = 2 * n + u;
    let q = m / (2 * u);
    vstd::arithmetic::div_mod::lemma_fundamental_div_mod(m, 2 * u);
    let w = q * u;
    assert(2 * w <= m < 2 * w + 2 * u && q >= 0) by (nonlinear_arith)
        requires
            m == (2 * u) * q + m % (2 * u),
            0 <= m % (2 * u) < 2 * u,
            w == q * u,
            m >= 0,
            u > 0,
    ;
    if q > hi {
        assert(hi * u <= w) by (nonlinear_arith)
            requires
                hi <= q,
                u > 0,
                w == q * u,
        ;
    }
}

/// The value nearest to a whole number of 64 bits is that number but for one part in
/// 2^24, has its sign, and is the number itself up to 24 bits.
pub proof fn lemma_nearest_is_near(n: int)
    requires
        -0x1_0000_0000_0000_0000 < n < 0x1_0000_0000_0000_0000,
    ensures
        ({
            let x = Binary32::nearest(n);
            let u = exp2(149);
            &&& x.magnitude() < infinity()
            &&& n >= 0 ==> !x.negative() && near(x.value(), n * u)
            &&& n < 0 ==> x.negative() && near(-x.value(), -n * u)
            &&& -0x100_0000 < n < 0x100_0000 ==> x.value() == n * u
        }),
{
    let u = exp2(149);
    lemma_units_of_64_bits();
    let a: nat = if n < 0 {
        (-n) as nat
    } else {
        n as nat
    };
    assert(a * u <= 0x1_0000_0000_0000_0000 * u) by (nonlinear_arith)
        requires
            a <= 0x1_0000_0000_0000_0000,
    ;
    lemma_round_units_monotone(a * u, 0x1_0000_0000_0000_0000 * u, 1);
    lemma_round_units_exact(0x5F80_0000);
    let m = round_units(a * u, 1);
    assert(Binary32::nearest(n).magnitude() == m);
    if a < 0x100_0000 {
        lemma_small_whole_exact(a);
    }
    if a > 0 {
        assert(a * u >= u) by (nonlinear_arith)
            requires
                a >= 1,
        ;
        lemma_relative_error(a * u, 1);
        let p = units(m);
        assert(p * 1 == p);
    } else {
        assert(0 * u == 0) by (nonlinear_arith);
    }
    assert((-n) * u == -(n * u)) by (nonlinear_arith);
}

} // verus!
