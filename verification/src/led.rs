//! The light bar: how many lights an engine speed turns on, and the status
//! line that shows it.

use vstd::prelude::*;

use crate::binary32;
use crate::binary32::Binary32;
use crate::listeners::{EngineState, GameId};
use crate::text;

verus! {

/// Whether light `i` of a bit mask is on.
pub open spec fn lamp(mask: u32, i: u32) -> bool {
    (mask >> i) & 1 == 1
}

/// How far the engine is from idle to redline, between zero and one.
pub open spec fn fraction(engine: EngineState) -> Binary32 {
    let span = Binary32::nearest(engine.rpm_redline - engine.rpm_idle);
    let above = Binary32::nearest(
        if engine.rpm > engine.rpm_idle {
            engine.rpm - engine.rpm_idle
        } else {
            0
        },
    );
    let one = Binary32 { bits: 0x3F80_0000 };
    if one.below(above.over(span)) {
        one
    } else {
        above.over(span)
    }
}

/// How many of `count` lights are on.
pub open spec fn lit(engine: EngineState, count: nat) -> int {
    if engine.rpm_redline <= engine.rpm_idle || count == 0 {
        0
    } else {
        fraction(engine).times(Binary32::nearest(count as int)).rounded_clamped(count as int)
    }
}

/// The mask in which the lowest `on` lights are on.
pub open spec fn low_mask(on: int) -> u32 {
    if on >= 32 {
        u32::MAX
    } else {
        ((1u32 << (on as u32)) - 1) as u32
    }
}

/// The mask of the lights that are on: as many as are lit, from the lowest up.
pub open spec fn mask_for(engine: EngineState, count: nat) -> u32 {
    low_mask(lit(engine, count))
}

/// Whether the distances from idle fit the machine's 32-bit numbers.
pub open spec fn in_range(engine: EngineState) -> bool {
    &&& engine.rpm_redline - engine.rpm_idle <= i32::MAX
    &&& i32::MIN <= engine.rpm - engine.rpm_idle <= i32::MAX
}

/// How many of `led_count` lights are on.
fn lit_count(engine: &EngineState, led_count: usize) -> (r: usize)
    requires
        engine.rpm_redline <= engine.rpm_idle || led_count == 0 || in_range(*engine),
    ensures
        r == lit(*engine, led_count as nat),
{
    if engine.rpm_redline <= engine.rpm_idle || led_count == 0 {
        return 0;
    }
    let span: Binary32 = Binary32::from_i32(engine.rpm_redline - engine.rpm_idle);
    let distance: i32 = engine.rpm - engine.rpm_idle;
    let above: Binary32 = Binary32::from_i32(
        if distance > 0 {
            distance
        } else {
            0
        },
    );
    let ratio: Binary32 = above.divide(span);
    let one: Binary32 = Binary32 { bits: 0x3F80_0000 };
    let frac: Binary32 = if ratio.gt(one) {
        one
    } else {
        ratio
    };
    assert(frac == fraction(*engine));
    let product: Binary32 = frac.multiply(Binary32::from_u64(led_count as u64));
    let rounded: u64 = product.round_to_u64();
    proof {
        lemma_clamp_twice(product, u64::MAX as int, led_count as int);
    }
    if rounded < led_count as u64 {
        rounded as usize
    } else {
        led_count
    }
}

proof fn lemma_clamp_twice(x: Binary32, hi: int, lower: int)
    requires
        0 <= lower <= hi,
    ensures
        x.rounded_clamped(lower) == if x.rounded_clamped(hi) < lower {
            x.rounded_clamped(hi)
        } else {
            lower
        },
{
}

/// The mask of the lights that are on. See [`lemma_lights_from_the_lowest`].
pub fn rpm_to_bitmask(engine: &EngineState, led_count: usize) -> (r: u32)
    requires
        engine.rpm_redline <= engine.rpm_idle || led_count == 0 || in_range(*engine),
    ensures
        r == mask_for(*engine, led_count as nat),
{
    let on: usize = lit_count(engine, led_count);
    if on == 0 {
        assert(1u32 << 0u32 == 1) by (bit_vector);
        0
    } else if on >= 32 {
        u32::MAX
    } else {
        let l: u32 = on as u32;
        proof {
            assert(1u32 << l >= 1) by (bit_vector)
                requires
                    l < 32,
            ;
        }
        (1u32 << l) - 1
    }
}

/// A light is on exactly where its number, counted from zero, lies below the
/// number of lights that are lit.
pub proof fn lemma_lights_from_the_lowest(engine: EngineState, count: nat, i: u32)
    requires
        i < 32,
    ensures
        lamp(mask_for(engine, count), i) <==> i < lit(engine, count),
{
    let on = lit(engine, count);
    lemma_lit_is_not_negative(engine, count);
    if on >= 32 {
        assert((0xFFFF_FFFFu32 >> i) & 1 == 1) by (bit_vector)
            requires
                i < 32,
        ;
    } else {
        lemma_low_bits(on as u32, i);
    }
}

proof fn lemma_lit_is_not_negative(engine: EngineState, count: nat)
    ensures
        0 <= lit(engine, count) <= count,
{
    binary32::lemma_rounded_is_not_negative(
        fraction(engine).times(Binary32::nearest(count as int)),
        count as int,
    );
}

proof fn lemma_low_bits(l: u32, i: u32)
    requires
        l < 32,
        i < 32,
    ensures
        lamp(((1u32 << l) - 1) as u32, i) <==> i < l,
{
    assert((((((1u32 << l) - 1) as u32) >> i) & 1 == 1) <==> i < l) by (bit_vector)
        requires
            l < 32,
            i < 32,
    ;
}

/// How many revolutions the engine is above idle.
spec fn distance(engine: EngineState) -> nat {
    if engine.rpm > engine.rpm_idle {
        (engine.rpm - engine.rpm_idle) as nat
    } else {
        0
    }
}

/// The magnitude pattern of a whole number.
spec fn pattern(n: nat) -> nat {
    binary32::round_units(n * binary32::exp2(149), 1)
}

/// The magnitude pattern of the unclamped quotient.
spec fn quotient(engine: EngineState) -> nat {
    binary32::round_units(
        binary32::units(pattern(distance(engine))) * binary32::exp2(149),
        binary32::units(pattern((engine.rpm_redline - engine.rpm_idle) as nat)),
    )
}

proof fn lemma_pattern(n: nat)
    requires
        n < 0x1_0000_0000,
    ensures
        pattern(n) < binary32::infinity(),
        n > 0 ==> pattern(n) > 0,
        n > 0 ==> binary32::units(pattern(n)) > 0,
        pattern(0) == 0,
        binary32::units(0) == 0,
{
    let u = binary32::exp2(149);
    binary32::lemma_exp2_facts();
    assert(n * u <= 0x1_0000_0000 * u) by (nonlinear_arith)
        requires
            n < 0x1_0000_0000,
            u > 0,
    ;
    binary32::lemma_round_units_monotone(n * u, 0x1_0000_0000 * u, 1);
    assert(binary32::units(0x4F80_0000) == 0x1_0000_0000 * u);
    binary32::lemma_round_units_exact(0x4F80_0000);
    binary32::lemma_round_units_exact(0x3F80_0000);
    binary32::lemma_units_of_one();
    assert(binary32::units(0) == 0 * binary32::exp2(0));
    assert(0 * u == 0) by (nonlinear_arith);
    binary32::lemma_round_units_exact(0);
    if n > 0 {
        assert(1 * u <= n * u) by (nonlinear_arith)
            requires
                n >= 1,
                u > 0,
        ;
        binary32::lemma_round_units_monotone(u, n * u, 1);
        binary32::lemma_units_increase(0, pattern(n));
    }
}

/// The fraction, as its magnitude pattern.
proof fn lemma_fraction(engine: EngineState)
    requires
        engine.rpm_redline > engine.rpm_idle,
    ensures
        fraction(engine).bits == if quotient(engine) > 0x3F80_0000 {
            0x3F80_0000
        } else {
            quotient(engine)
        },
        binary32::units(pattern((engine.rpm_redline - engine.rpm_idle) as nat)) > 0,
        pattern((engine.rpm_redline - engine.rpm_idle) as nat) < binary32::infinity(),
        pattern(distance(engine)) < binary32::infinity(),
        quotient(engine) <= binary32::infinity(),
{
    let span = (engine.rpm_redline - engine.rpm_idle) as nat;
    lemma_pattern(span);
    lemma_pattern(distance(engine));
    let q = quotient(engine);
    if q > 0x3F80_0000 {
        binary32::lemma_units_increase(0x3F80_0000, q);
    } else {
        binary32::lemma_units_monotone(q, 0x3F80_0000);
    }
}

/// No light is on while the engine turns no faster than idle.
pub proof fn lemma_dark_at_idle(engine: EngineState, count: nat)
    requires
        engine.rpm <= engine.rpm_idle,
    ensures
        lit(engine, count) == 0,
{
    if engine.rpm_redline > engine.rpm_idle && count > 0 {
        lemma_fraction(engine);
        lemma_pattern(0);
        let u = binary32::exp2(149);
        let d = binary32::units(pattern((engine.rpm_redline - engine.rpm_idle) as nat));
        binary32::lemma_exp2_facts();
        assert(0 * u == 0 && 0 * d == 0) by (nonlinear_arith);
        binary32::lemma_round_units_zero(d);
        binary32::lemma_round_units_zero(u);
        let n = binary32::units(Binary32::nearest(count as int).magnitude());
        assert(0 * n == 0) by (nonlinear_arith);
        binary32::lemma_zero_rounds_to_zero();
    }
}

/// From the redline up the quotient is one or more.
proof fn lemma_quotient_at_redline(engine: EngineState)
    requires
        engine.rpm_redline > engine.rpm_idle,
        engine.rpm >= engine.rpm_redline,
    ensures
        quotient(engine) >= 0x3F80_0000,
{
    let span = (engine.rpm_redline - engine.rpm_idle) as nat;
    lemma_pattern(span);
    lemma_pattern(distance(engine));
    let u = binary32::exp2(149);
    let d = binary32::units(pattern(span));
    assert(span * u <= distance(engine) * u) by (nonlinear_arith)
        requires
            span <= distance(engine),
    ;
    binary32::lemma_round_units_monotone(span * u, distance(engine) * u, 1);
    binary32::lemma_units_monotone(pattern(span), pattern(distance(engine)));
    let a = binary32::units(pattern(distance(engine)));
    assert(d * u <= a * u) by (nonlinear_arith)
        requires
            d <= a,
    ;
    binary32::lemma_round_units_monotone(d * u, a * u, d);
    binary32::lemma_round_units_scales(d, u, 1);
    assert(d * 1 == d);
    binary32::lemma_units_of_one();
    binary32::lemma_round_units_exact(0x3F80_0000);
}

/// One times a count is the count.
proof fn lemma_one_times(count: nat)
    requires
        count < 0x100_0000,
    ensures
        (Binary32 { bits: 0x3F80_0000 }).times(Binary32::nearest(count as int)).rounded_clamped(
            count as int,
        ) == count,
{
    let u = binary32::exp2(149);
    binary32::lemma_exp2_facts();
    binary32::lemma_units_of_one();
    binary32::lemma_small_whole_exact(count);
    let p = pattern(count);
    let n = binary32::units(p);
    binary32::lemma_round_units_scales(u, n, 1);
    assert(u * 1 == u);
    binary32::lemma_round_units_exact(p);
    binary32::lemma_whole_rounds_to_itself(p, count);
}

/// Every light is on from the redline up.
pub proof fn lemma_full_at_redline(engine: EngineState, count: nat)
    requires
        engine.rpm_redline > engine.rpm_idle,
        engine.rpm >= engine.rpm_redline,
        count < 0x100_0000,
    ensures
        lit(engine, count) == count,
{
    if count > 0 {
        lemma_fraction(engine);
        lemma_quotient_at_redline(engine);
        assert(fraction(engine) == Binary32 { bits: 0x3F80_0000 });
        lemma_one_times(count);
    }
}

/// A faster engine never turns a light off.
pub proof fn lemma_faster_lights_more(slow: EngineState, fast: EngineState, count: nat)
    requires
        slow.rpm_redline == fast.rpm_redline,
        slow.rpm_idle == fast.rpm_idle,
        slow.rpm <= fast.rpm,
    ensures
        lit(slow, count) <= lit(fast, count),
{
    if slow.rpm_redline > slow.rpm_idle && count > 0 {
        lemma_fraction(slow);
        lemma_fraction(fast);
        let u = binary32::exp2(149);
        let d = binary32::units(pattern((slow.rpm_redline - slow.rpm_idle) as nat));
        binary32::lemma_exp2_facts();
        assert(distance(slow) * u <= distance(fast) * u) by (nonlinear_arith)
            requires
                distance(slow) <= distance(fast),
        ;
        binary32::lemma_round_units_monotone(distance(slow) * u, distance(fast) * u, 1);
        binary32::lemma_units_monotone(pattern(distance(slow)), pattern(distance(fast)));
        let a = binary32::units(pattern(distance(slow)));
        let b = binary32::units(pattern(distance(fast)));
        assert(a * u <= b * u) by (nonlinear_arith)
            requires
                a <= b,
        ;
        binary32::lemma_round_units_monotone(a * u, b * u, d);
        binary32::lemma_product_rounds_in_order(
            fraction(slow),
            fraction(fast),
            Binary32::nearest(count as int),
            count as int,
        );
    }
}

/// The magnitude pattern of any whole number of 64 bits is finite, and its value is
/// the number but for one part in 2^24.
proof fn lemma_pattern_is_near(n: nat)
    requires
        0 < n <= u64::MAX,
    ensures
        pattern(n) < binary32::infinity(),
        0x100_0000 * binary32::units(pattern(n)) <= 0x100_0001 * (n * binary32::exp2(149)),
        0x100_0000 * binary32::units(pattern(n)) >= 0xFF_FFFF * (n * binary32::exp2(149)),
{
    let u = binary32::exp2(149);
    binary32::lemma_units_of_64_bits();
    assert(n * u <= 0x1_0000_0000_0000_0000 * u && n * u >= u) by (nonlinear_arith)
        requires
            0 < n <= 0xFFFF_FFFF_FFFF_FFFF,
            u > 0,
    ;
    binary32::lemma_round_units_monotone(n * u, 0x1_0000_0000_0000_0000 * u, 1);
    binary32::lemma_round_units_exact(0x5F80_0000);
    binary32::lemma_relative_error(n * u, 1);
    let p = binary32::units(pattern(n));
    assert(p * 1 == p);
}

/// What four roundings up or down do to a product: no more than one part in 2^21.
/// Here `p` is the rounded product of `f` and `c`, `f` the rounded quotient of `a`
/// and `b`, and `a`, `b` and `c` are whole numbers `d`, `s` and `n`, rounded, all in
/// units of which `u` make one.
proof fn lemma_roundings(u: int, a: int, b: int, c: int, f: int, p: int, d: int, s: int, n: int)
    requires
        u > 0,
        a >= 0,
        b > 0,
        c >= 0,
        f >= 0,
        p >= 0,
        d >= 0,
        s > 0,
        n >= 0,
        0xFF_FFFF * (d * u) <= 0x100_0000 * a <= 0x100_0001 * (d * u),
        0xFF_FFFF * (s * u) <= 0x100_0000 * b <= 0x100_0001 * (s * u),
        0xFF_FFFF * (n * u) <= 0x100_0000 * c <= 0x100_0001 * (n * u),
        0xFF_FFFF * (a * u) <= 0x100_0000 * (f * b) <= 0x100_0001 * (a * u),
        0xFF_FFFF * (f * c) <= 0x100_0000 * (p * u) <= 0x100_0001 * (f * c),
    ensures
        0x1F_FFFF * (n * d * u) <= 0x20_0000 * (p * s) <= 0x20_0001 * (n * d * u),
{
    // The product against the exact count.
    lemma_cancel(u, p, f, c, n);
    // The quotient against the exact distance and span.
    lemma_quotient_bounds(u, a, b, f, d, s);
    // Both together.
    lemma_combine(u, p, f, d, s, n);
}

proof fn lemma_cancel(u: int, p: int, f: int, c: int, n: int)
    requires
        u > 0,
        f >= 0,
        0xFF_FFFF * (n * u) <= 0x100_0000 * c <= 0x100_0001 * (n * u),
        0xFF_FFFF * (f * c) <= 0x100_0000 * (p * u) <= 0x100_0001 * (f * c),
    ensures
        0x1_0000_0000_0000 * p <= 0x1_0000_0200_0001 * (f * n),
        0x1_0000_0000_0000 * p >= 0xFFFF_FE00_0001 * (f * n),
{
    let t = 0x100_0000int;
    let g = f * n;
    assert(t * (f * c) <= 0x100_0001 * (g * u) && t * (f * c) >= 0xFF_FFFF * (g * u))
        by (nonlinear_arith)
        requires
            f >= 0,
            g == f * n,
            0xFF_FFFF * (n * u) <= t * c <= 0x100_0001 * (n * u),
    ;
    let w = g * u;
    let v = p * u;
    assert(0x1_0000_0000_0000 * v <= 0x1_0000_0200_0001 * w);
    assert(0x1_0000_0000_0000 * v >= 0xFFFF_FE00_0001 * w);
    lemma_divide(u, 0x1_0000_0000_0000, p, 0x1_0000_0200_0001int, g);
    lemma_divide(u, 0xFFFF_FE00_0001int, g, 0x1_0000_0000_0000, p);
}

/// A positive factor can be taken out of both sides.
proof fn lemma_divide(u: int, k: int, x: int, l: int, y: int)
    requires
        u > 0,
        k * (x * u) <= l * (y * u),
    ensures
        k * x <= l * y,
{
    assert((k * x) * u <= (l * y) * u) by (nonlinear_arith)
        requires
            k * (x * u) <= l * (y * u),
    ;
    let m = k * x;
    let n = l * y;
    assert(m <= n) by (nonlinear_arith)
        requires
            m * u <= n * u,
            u > 0,
    ;
}

proof fn lemma_quotient_bounds(u: int, a: int, b: int, f: int, d: int, s: int)
    requires
        u > 0,
        f >= 0,
        0xFF_FFFF * (d * u) <= 0x100_0000 * a <= 0x100_0001 * (d * u),
        0xFF_FFFF * (s * u) <= 0x100_0000 * b <= 0x100_0001 * (s * u),
        0xFF_FFFF * (a * u) <= 0x100_0000 * (f * b) <= 0x100_0001 * (a * u),
    ensures
        0xFFFF_FF00_0000 * (f * s) <= 0x1_0000_0200_0001 * (d * u),
        0x1_0000_0100_0000 * (f * s) >= 0xFFFF_FE00_0001 * (d * u),
{
    let t = 0x100_0000int;
    let g = f * s;
    let h = d * u;
    // Both sides times `u`, so that the factor can be taken out at the end.
    assert(t * (a * u) <= 0x100_0001 * (h * u) && t * (a * u) >= 0xFF_FFFF * (h * u))
        by (nonlinear_arith)
        requires
            u > 0,
            h == d * u,
            0xFF_FFFF * h <= t * a <= 0x100_0001 * h,
    ;
    assert(t * (f * b) <= 0x100_0001 * (g * u) && t * (f * b) >= 0xFF_FFFF * (g * u))
        by (nonlinear_arith)
        requires
            f >= 0,
            g == f * s,
            0xFF_FFFF * (s * u) <= t * b <= 0x100_0001 * (s * u),
    ;
    let au = a * u;
    let hu = h * u;
    let fb = f * b;
    let gu = g * u;
    assert(0xFFFF_FF00_0000 * gu <= 0x1_0000_0200_0001 * hu);
    assert(0x1_0000_0100_0000 * gu >= 0xFFFF_FE00_0001 * hu);
    lemma_divide(u, 0xFFFF_FF00_0000int, g, 0x1_0000_0200_0001int, h);
    lemma_divide(u, 0xFFFF_FE00_0001int, h, 0x1_0000_0100_0000int, g);
}

proof fn lemma_combine(u: int, p: int, f: int, d: int, s: int, n: int)
    requires
        u > 0,
        s > 0,
        d >= 0,
        n >= 0,
        0x1_0000_0000_0000 * p <= 0x1_0000_0200_0001 * (f * n),
        0x1_0000_0000_0000 * p >= 0xFFFF_FE00_0001 * (f * n),
        0xFFFF_FF00_0000 * (f * s) <= 0x1_0000_0200_0001 * (d * u),
        0x1_0000_0100_0000 * (f * s) >= 0xFFFF_FE00_0001 * (d * u),
    ensures
        0x1F_FFFF * (n * d * u) <= 0x20_0000 * (p * s) <= 0x20_0001 * (n * d * u),
{
    let x = p * s;
    let y = f * n * s;
    let z = n * d * u;
    assert(0x1_0000_0000_0000 * x <= 0x1_0000_0200_0001 * y && 0x1_0000_0000_0000 * x >= 0xFFFF_FE00_0001 * y) by (nonlinear_arith)
        requires
            s > 0,
            x == p * s,
            y == f * n * s,
            0x1_0000_0000_0000 * p <= 0x1_0000_0200_0001 * (f * n),
            0x1_0000_0000_0000 * p >= 0xFFFF_FE00_0001 * (f * n),
    ;
    let g = f * s;
    let h = d * u;
    assert(y == n * g && z == n * h) by (nonlinear_arith)
        requires
            y == f * n * s,
            z == n * d * u,
            g == f * s,
            h == d * u,
    ;
    assert(0xFFFF_FF00_0000 * y <= 0x1_0000_0200_0001 * z && 0x1_0000_0100_0000 * y >= 0xFFFF_FE00_0001 * z) by (nonlinear_arith)
        requires
            n >= 0,
            y == n * g,
            z == n * h,
            0xFFFF_FF00_0000 * g <= 0x1_0000_0200_0001 * h,
            0x1_0000_0100_0000 * g >= 0xFFFF_FE00_0001 * h,
    ;
    assert(z >= 0) by (nonlinear_arith)
        requires
            z == n * d * u,
            n >= 0,
            d >= 0,
            u > 0,
    ;
}

/// Between idle and redline the number of lights that are on is the share of the
/// lights that the engine speed is of the way from idle to redline, rounded to a
/// whole number: it differs from that share by no more than one half and one part
/// in 2^21 of the share, which is what the arithmetic in binary32 may add.
pub proof fn lemma_lights_in_proportion(engine: EngineState, count: nat)
    requires
        engine.rpm_idle < engine.rpm < engine.rpm_redline,
        count <= u64::MAX,
    ensures
        ({
            let share = count * (engine.rpm - engine.rpm_idle);
            let span = engine.rpm_redline - engine.rpm_idle;
            let on = lit(engine, count);
            &&& 0x20_0000 * (on * span - share) <= 0x10_0000 * span + share
            &&& 0x20_0000 * (share - on * span) <= 0x10_0000 * span + share
        }),
{
    let span = (engine.rpm_redline - engine.rpm_idle) as nat;
    let d = distance(engine);
    if count == 0 {
        assert(0 * d == 0 && 0 * span == 0) by (nonlinear_arith);
    } else {
        let u = binary32::exp2(149);
        binary32::lemma_units_of_64_bits();
        lemma_fraction(engine);
        lemma_pattern_is_near(d);
        lemma_pattern_is_near(span);
        lemma_pattern_is_near(count);
        lemma_quotient_below_redline(engine);
        let a = binary32::units(pattern(d));
        let b = binary32::units(pattern(span));
        let c = binary32::units(pattern(count));
        let f = binary32::units(quotient(engine));
        lemma_quotient_is_near(d, span);
        binary32::lemma_units_of_one();
        binary32::lemma_units_monotone(quotient(engine), 0x3F80_0000);
        lemma_product_is_near(f, count);
        lemma_lit_between(engine, count);
        let p = binary32::units(binary32::round_units(f * c, u));
        lemma_roundings(
            u as int,
            a as int,
            b as int,
            c as int,
            f as int,
            p as int,
            d as int,
            span as int,
            count as int,
        );
        lemma_rounding_to_whole(u as int, p as int, (count * d) as int, span as int);
        let r = ((2 * p + u) / (2 * u)) as int;
        if r > count {
            assert(count * span >= count * d) by (nonlinear_arith)
                requires
                    span >= d,
            ;
            assert(count * span <= r * span) by (nonlinear_arith)
                requires
                    count <= r,
                    span >= 0,
            ;
        }
    }
}

/// A product, rounded to a whole number, by magnitude patterns.
proof fn lemma_product_rounded(x: Binary32, y: Binary32, f: nat, c: nat, hi: int)
    requires
        x.bits == f,
        y.bits == c,
        f < binary32::infinity(),
        c < binary32::infinity(),
    ensures
        ({
            let u = binary32::exp2(149);
            let m = binary32::round_units(binary32::units(f) * binary32::units(c), u);
            let r = ((2 * binary32::units(m) + u) / (2 * u)) as int;
            m < binary32::infinity() ==> x.times(y).rounded_clamped(hi) == if r > hi {
                hi
            } else {
                r
            }
        }),
{
    let u = binary32::exp2(149);
    let m = binary32::round_units(binary32::units(f) * binary32::units(c), u);
    assert(x.magnitude() == f && y.magnitude() == c);
    if m < binary32::infinity() {
        assert(x.times(y).bits == m);
        assert(x.times(y).magnitude() == m);
    }
}

/// How many lights are on between idle and redline, as whole numbers.
proof fn lemma_lit_between(engine: EngineState, count: nat)
    requires
        engine.rpm_idle < engine.rpm < engine.rpm_redline,
        0 < count <= u64::MAX,
    ensures
        ({
            let u = binary32::exp2(149);
            let f = binary32::units(quotient(engine));
            let c = binary32::units(pattern(count));
            let p = binary32::units(binary32::round_units(f * c, u));
            let r = ((2 * p + u) / (2 * u)) as int;
            binary32::round_units(f * c, u) < binary32::infinity() ==> lit(engine, count) == if r
                > count {
                count as int
            } else {
                r
            }
        }),
{
    lemma_fraction(engine);
    lemma_quotient_below_redline(engine);
    lemma_pattern_is_near(count);
    lemma_product_rounded(
        fraction(engine),
        Binary32::nearest(count as int),
        quotient(engine),
        pattern(count),
        count as int,
    );
}

/// Rounding to a whole number adds no more than one half.
proof fn lemma_rounding_to_whole(u: int, p: int, share: int, span: int)
    requires
        u > 0,
        p >= 0,
        span > 0,
        0x1F_FFFF * (share * u) <= 0x20_0000 * (p * span) <= 0x20_0001 * (share * u),
    ensures
        ({
            let r = (2 * p + u) / (2 * u);
            &&& 0x20_0000 * (r * span - share) <= 0x10_0000 * span + share
            &&& 0x20_0000 * (share - r * span) <= 0x10_0000 * span + share
        }),
{
    let r = (2 * p + u) / (2 * u);
    vstd::arithmetic::div_mod::lemma_fundamental_div_mod(2 * p + u, 2 * u);
    let w = r * u;
    assert(2 * w <= 2 * p + u && 2 * p <= 2 * w + u) by (nonlinear_arith)
        requires
            u > 0,
            w == r * u,
            2 * p + u == (2 * u) * r + (2 * p + u) % (2 * u),
            0 <= (2 * p + u) % (2 * u) < 2 * u,
    ;
    let ws = w * span;
    let ps = p * span;
    let us = u * span;
    assert(2 * ws <= 2 * ps + us && 2 * ps <= 2 * ws + us) by (nonlinear_arith)
        requires
            span > 0,
            ws == w * span,
            ps == p * span,
            us == u * span,
            2 * w <= 2 * p + u,
            2 * p <= 2 * w + u,
    ;
    let su = share * u;
    assert(0x20_0000 * ws <= 0x20_0001 * su + 0x10_0000 * us);
    assert(0x1F_FFFF * su <= 0x20_0000 * ws + 0x10_0000 * us);
    let rs = r * span;
    assert(ws == rs * u) by (nonlinear_arith)
        requires
            ws == w * span,
            w == r * u,
            rs == r * span,
    ;
    let high = 0x20_0001 * share + 0x10_0000 * span;
    let low = 0x20_0000 * rs + 0x10_0000 * span;
    assert(high * u == 0x20_0001 * su + 0x10_0000 * us && low * u == 0x20_0000 * ws + 0x10_0000
        * us) by (nonlinear_arith)
        requires
            high == 0x20_0001 * share + 0x10_0000 * span,
            low == 0x20_0000 * rs + 0x10_0000 * span,
            su == share * u,
            us == u * span,
            ws == rs * u,
    ;
    assert(0x20_0000 * (rs * u) <= 1 * (high * u));
    lemma_divide(u, 0x20_0000, rs, 1, high);
    lemma_divide(u, 0x1F_FFFF, share, 1, low);
}

/// Below the redline the quotient is at most one.
proof fn lemma_quotient_below_redline(engine: EngineState)
    requires
        engine.rpm_redline > engine.rpm_idle,
        engine.rpm <= engine.rpm_redline,
    ensures
        quotient(engine) <= 0x3F80_0000,
{
    let span = (engine.rpm_redline - engine.rpm_idle) as nat;
    lemma_pattern(span);
    lemma_pattern(distance(engine));
    let u = binary32::exp2(149);
    let d = binary32::units(pattern(span));
    assert(distance(engine) * u <= span * u) by (nonlinear_arith)
        requires
            distance(engine) <= span,
    ;
    binary32::lemma_round_units_monotone(distance(engine) * u, span * u, 1);
    binary32::lemma_units_monotone(pattern(distance(engine)), pattern(span));
    let a = binary32::units(pattern(distance(engine)));
    assert(a * u <= d * u) by (nonlinear_arith)
        requires
            a <= d,
    ;
    binary32::lemma_round_units_monotone(a * u, d * u, d);
    binary32::lemma_round_units_scales(d, u, 1);
    assert(d * 1 == d);
    binary32::lemma_units_of_one();
    binary32::lemma_round_units_exact(0x3F80_0000);
}

/// The quotient of two whole numbers of 32 bits is large enough for rounding to
/// be near.
proof fn lemma_quotient_is_near(d: nat, span: nat)
    requires
        0 < d <= span <= u32::MAX,
        binary32::round_units(
            binary32::units(pattern(d)) * binary32::exp2(149),
            binary32::units(pattern(span)),
        ) <= 0x3F80_0000,
    ensures
        ({
            let u = binary32::exp2(149);
            let a = binary32::units(pattern(d));
            let b = binary32::units(pattern(span));
            let f = binary32::units(binary32::round_units(a * u, b));
            &&& b > 0
            &&& 0xFF_FFFF * (a * u) <= 0x100_0000 * (f * b) <= 0x100_0001 * (a * u)
            &&& 0x8_0000_0000 * f >= u
        }),
{
    let u = binary32::exp2(149);
    let a = binary32::units(pattern(d));
    let b = binary32::units(pattern(span));
    binary32::lemma_units_of_64_bits();
    lemma_pattern_is_near(d);
    lemma_pattern_is_near(span);
    assert(d * u >= u && span * u <= 0x1_0000_0000 * u && span * u >= u) by (nonlinear_arith)
        requires
            d >= 1,
            1 <= span <= 0x1_0000_0000,
            u > 0,
    ;
    assert(2 * a >= u && b <= 0x2_0000_0000 * u && 2 * b >= u);
    assert(2 * (a * u) >= u * u) by (nonlinear_arith)
        requires
            2 * a >= u,
            u > 0,
    ;
    assert(u * u >= 0x1000_0000_0000_0000_0000_0000_0000 * u) by (nonlinear_arith)
        requires
            u >= 0x1000_0000_0000_0000_0000_0000_0000,
    ;
    assert(a * u >= 0x80_0000 * b);
    binary32::lemma_relative_error(a * u, b);
    let f = binary32::units(binary32::round_units(a * u, b));
    // f * b is at least half of a * u, and b at most 2^33 u.
    assert(4 * (f * b) >= u * u);
    assert(f * b <= f * (0x2_0000_0000 * u)) by (nonlinear_arith)
        requires
            b <= 0x2_0000_0000 * u,
            f >= 0,
    ;
    assert(f * (0x2_0000_0000 * u) == 0x2_0000_0000 * f * u) by (nonlinear_arith);
    assert(0x8_0000_0000 * f * u >= u * u) by (nonlinear_arith)
        requires
            4 * (f * b) >= u * u,
            f * b <= 0x2_0000_0000 * f * u,
    ;
    let g = 0x8_0000_0000 * f;
    assert(g >= u) by (nonlinear_arith)
        requires
            g * u >= u * u,
            u > 0,
    ;
}

/// So is the product of the quotient and a count.
proof fn lemma_product_is_near(f: nat, count: nat)
    requires
        0 < count <= u64::MAX,
        0x8_0000_0000 * f >= binary32::exp2(149),
        f <= binary32::exp2(149),
    ensures
        ({
            let u = binary32::exp2(149);
            let c = binary32::units(pattern(count));
            let p = binary32::units(binary32::round_units(f * c, u));
            &&& binary32::round_units(f * c, u) < binary32::infinity()
            &&& 0xFF_FFFF * (f * c) <= 0x100_0000 * (p * u) <= 0x100_0001 * (f * c)
        }),
{
    let u = binary32::exp2(149);
    let c = binary32::units(pattern(count));
    binary32::lemma_units_of_64_bits();
    lemma_pattern_is_near(count);
    assert(count * u >= u) by (nonlinear_arith)
        requires
            count >= 1,
            u > 0,
    ;
    assert(f * c <= u * c) by (nonlinear_arith)
        requires
            f <= u,
            c >= 0,
    ;
    binary32::lemma_round_units_monotone(f * c, u * c, u);
    binary32::lemma_round_units_scales(u, c, 1);
    assert(u * 1 == u);
    binary32::lemma_round_units_exact(pattern(count));
    assert(2 * c >= u);
    assert(0x10_0000_0000 * (f * c) >= u * u) by (nonlinear_arith)
        requires
            2 * c >= u,
            0x8_0000_0000 * f >= u,
            u > 0,
    ;
    assert(u * u >= 0x1000_0000_0000_0000_0000_0000_0000 * u) by (nonlinear_arith)
        requires
            u >= 0x1000_0000_0000_0000_0000_0000_0000,
    ;
    assert(f * c >= 0x80_0000 * u);
    binary32::lemma_relative_error(f * c, u);
}

/// The bar as text: a full circle for a light that is on, an empty one for a
/// light that is off.
pub open spec fn bar_text(mask: u32, count: nat) -> Seq<char> {
    Seq::new(
        count,
        |i: int|
            if lamp(mask, i as u32) {
                '●'
            } else {
                '○'
            },
    )
}

/// The bar as text, lowest light first.
pub fn led_bar(bitmask: u32, led_count: usize) -> (r: String)
    requires
        led_count <= 32,
    ensures
        r@ == bar_text(bitmask, led_count as nat),
{
    let mut r: String = String::new();
    let mut i: u32 = 0;
    while (i as usize) < led_count
        invariant
            i <= led_count <= 32,
            r@ == bar_text(bitmask, i as nat),
        decreases led_count - i,
    {
        let on = (bitmask >> i) & 1 == 1;
        r.push(
            if on {
                '●'
            } else {
                '○'
            },
        );
        i = i + 1;
        proof {
            assert(bar_text(bitmask, i as nat) == bar_text(bitmask, (i - 1) as nat).push(
                if on {
                    '●'
                } else {
                    '○'
                },
            ));
        }
    }
    r
}

/// The status line.
pub open spec fn status_text(
    game: GameId,
    engine: EngineState,
    mask: u32,
    count: nat,
    packets: u32,
) -> Seq<char> {
    "["@ + game.tag() + "] rpm "@ + text::padded(text::signed_decimal(engine.rpm as int), 5, ' ')
        + " / "@ + text::padded(text::signed_decimal(engine.rpm_redline as int), 5, ' ')
        + "  idle "@ + text::padded(text::signed_decimal(engine.rpm_idle as int), 4, ' ') + "  ["@
        + bar_text(mask, count) + "]  "@ + text::signed_decimal(packets as int) + " pkt"@
}

/// What is printed for a status line. In place, it starts by returning to the
/// beginning of the line and ends with spaces that clear what a longer line
/// before it has left; else it ends with a line feed.
pub fn status_line(
    game: GameId,
    engine: &EngineState,
    bitmask: u32,
    led_count: usize,
    packets: u32,
    inplace: bool,
) -> (r: String)
    requires
        led_count <= 32,
    ensures
        r@ == if inplace {
            "\r"@ + status_text(game, *engine, bitmask, led_count as nat, packets) + "    "@
        } else {
            status_text(game, *engine, bitmask, led_count as nat, packets) + "\n"@
        },
{
    let mut line: String = String::new();
    line.append("[");
    line.append(game.label());
    line.append("] rpm ");
    text::push_padded(&mut line, text::number(engine.rpm as i64).as_str(), 5, ' ');
    line.append(" / ");
    text::push_padded(&mut line, text::number(engine.rpm_redline as i64).as_str(), 5, ' ');
    line.append("  idle ");
    text::push_padded(&mut line, text::number(engine.rpm_idle as i64).as_str(), 4, ' ');
    line.append("  [");
    line.append(led_bar(bitmask, led_count).as_str());
    line.append("]  ");
    text::push_i64(&mut line, packets as i64);
    line.append(" pkt");
    assert(line@ == status_text(game, *engine, bitmask, led_count as nat, packets)) by {
        assert(Seq::<char>::empty() + "["@ == "["@);
    }
    if inplace {
        let mut r: String = String::new();
        r.append("\r");
        r.append(line.as_str());
        r.append("    ");
        assert(r@ == "\r"@ + status_text(game, *engine, bitmask, led_count as nat, packets)
            + "    "@);
        r
    } else {
        line.append("\n");
        line
    }
}

/// No light is on where the redline does not lie above idle, whatever the speed, and
/// never more than there are.
pub proof fn lemma_dark_without_a_band(engine: EngineState, count: nat)
    ensures
        engine.rpm_redline <= engine.rpm_idle ==> lit(engine, count) == 0,
        0 <= lit(engine, count) <= count,
{
    lemma_lit_is_not_negative(engine, count);
}

/// The bar of an engine state is as many full circles as lights are on, and empty
/// ones for the rest.
pub proof fn lemma_bar_of_an_engine(engine: EngineState, count: nat)
    requires
        count <= 32,
    ensures
        bar_text(mask_for(engine, count), count) == text::repeated('●', lit(engine, count))
            + text::repeated('○', count - lit(engine, count)),
{
    lemma_lit_is_not_negative(engine, count);
    let bar = bar_text(mask_for(engine, count), count);
    let on = lit(engine, count);
    let expected = text::repeated('●', on) + text::repeated('○', count - on);
    assert forall|i: int| 0 <= i < count implies bar[i] == expected[i] by {
        lemma_lights_from_the_lowest(engine, count, i as u32);
    }
    assert(bar =~= expected);
}

/// The status line names the game, and then has the engine speed, the redline and
/// the idle speed, each of them ending at a fixed place, the bar, and the number of
/// packets. This is so for speeds that fit their places: up to five digits, and up
/// to four for the idle speed.
pub proof fn lemma_places_in_the_status_line(
    game: GameId,
    engine: EngineState,
    mask: u32,
    count: nat,
    packets: u32,
)
    requires
        0 <= engine.rpm < 100_000,
        0 <= engine.rpm_redline < 100_000,
        0 <= engine.rpm_idle < 10_000,
    ensures
        ({
            let s = status_text(game, engine, mask, count, packets);
            let rpm = text::decimal(engine.rpm as nat);
            let redline = text::decimal(engine.rpm_redline as nat);
            let idle = text::decimal(engine.rpm_idle as nat);
            let n = text::decimal(packets as nat);
            let t = game.tag().len() as int;
            &&& s.subrange(1, 1 + t) == game.tag()
            &&& s.subrange(t + 12 - rpm.len(), t + 12) == rpm
            &&& s.subrange(t + 20 - redline.len(), t + 20) == redline
            &&& s.subrange(t + 31 - idle.len(), t + 31) == idle
            &&& s.subrange(t + 34, t + 34 + count) == bar_text(mask, count)
            &&& s.subrange(t + 37 + count, t + 37 + count + n.len()) == n
            &&& s.len() == t + 41 + count + n.len()
        }),
{
    let s = status_text(game, engine, mask, count, packets);
    let rpm = text::decimal(engine.rpm as nat);
    let redline = text::decimal(engine.rpm_redline as nat);
    let idle = text::decimal(engine.rpm_idle as nat);
    let n = text::decimal(packets as nat);
    let t = game.tag().len() as int;
    text::lemma_digits_of_small_numbers(engine.rpm as nat);
    text::lemma_digits_of_small_numbers(engine.rpm_redline as nat);
    text::lemma_digits_of_small_numbers(engine.rpm_idle as nat);
    text::lemma_padded(rpm, 5, ' ');
    text::lemma_padded(redline, 5, ' ');
    text::lemma_padded(idle, 4, ' ');
    reveal_strlit("[");
    reveal_strlit("] rpm ");
    reveal_strlit(" / ");
    reveal_strlit("  idle ");
    reveal_strlit("  [");
    reveal_strlit("]  ");
    reveal_strlit(" pkt");
    let bar = bar_text(mask, count);
    let p1 = "["@ + game.tag();
    let p2 = p1 + "] rpm "@;
    let p3 = p2 + text::padded(rpm, 5, ' ');
    let p4 = p3 + " / "@;
    let p5 = p4 + text::padded(redline, 5, ' ');
    let p6 = p5 + "  idle "@;
    let p7 = p6 + text::padded(idle, 4, ' ');
    let p8 = p7 + "  ["@;
    let p9 = p8 + bar;
    let p10 = p9 + "]  "@;
    let p11 = p10 + n;
    assert(p2.len() == t + 7 && p3.len() == t + 12 && p5.len() == t + 20 && p7.len() == t + 31);
    assert(p8.len() == t + 34 && p10.len() == t + 37 + count);
    assert(s == p11 + " pkt"@);
    lemma_last_of(p2, rpm, 5);
    lemma_last_of(p4, redline, 5);
    lemma_last_of(p6, idle, 4);
    assert(s.subrange(1, 1 + t) =~= game.tag());
    assert(s.subrange(0, t + 12) =~= p3);
    assert(s.subrange(0, t + 20) =~= p5);
    assert(s.subrange(0, t + 31) =~= p7);
    assert(s.subrange(t + 12 - rpm.len(), t + 12) =~= p3.subrange(t + 12 - rpm.len(), t + 12));
    assert(s.subrange(t + 20 - redline.len(), t + 20) =~= p5.subrange(
        t + 20 - redline.len(),
        t + 20,
    ));
    assert(s.subrange(t + 31 - idle.len(), t + 31) =~= p7.subrange(t + 31 - idle.len(), t + 31));
    assert(s.subrange(t + 34, t + 34 + count) =~= bar);
    assert(s.subrange(t + 37 + count, t + 37 + count + n.len()) =~= n);
}

/// A padded number ends where it was put.
proof fn lemma_last_of(before: Seq<char>, digits: Seq<char>, width: int)
    requires
        digits.len() <= width,
    ensures
        ({
            let s = before + text::padded(digits, width, ' ');
            let n = before.len() + width;
            s.len() == n && s.subrange(n - digits.len(), n) == digits
        }),
{
    text::lemma_padded(digits, width, ' ');
    let p = text::padded(digits, width, ' ');
    let s = before + p;
    let n = before.len() + width;
    assert(s.subrange(n - digits.len(), n) =~= p.subrange(width - digits.len(), width));
}

} // verus!
