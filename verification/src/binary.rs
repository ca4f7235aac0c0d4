//! Binary floating-point rounding carried out on integers.
//!
//! Page sizes are scaled in `binary64` arithmetic and thumbnail sizes in `binary32`. Both formats
//! round every operation to the nearest value with a fixed number of significant bits, ties to
//! the even one. The functions here do those roundings on integers, so a size is the same on
//! every machine and can be reasoned about.
use vstd::prelude::*;

verus! {

/// The smallest normalized significand of `binary64` (53 bits).
pub const DOUBLE_HALF: u64 = 0x10_0000_0000_0000;

/// The smallest normalized significand of `binary32` (24 bits).
pub const SINGLE_HALF: u64 = 0x80_0000;

/// `n / d` rounded to the nearest integer, ties to the even one.
pub open spec fn nearest_even(n: int, d: int) -> int {
    let q = n / d;
    let r = n % d;
    if 2 * r < d || (2 * r == d && q % 2 == 0) {
        q
    } else {
        q + 1
    }
}

/// The format's quotient `n / d`, where `n` has already been doubled until `unit` holds that
/// power of two: the significand is the first doubling that reaches `half` whole units of `d`,
/// rounded to the nearest integer.
pub open spec fn binary_quotient(n: int, d: int, unit: int, half: int) -> (int, int)
    decreases
            if n < d * half {
                d * half - n
            } else {
                0
            },
{
    if n >= d * half || n <= 0 {
        (nearest_even(n, d), unit)
    } else {
        binary_quotient(2 * n, d, 2 * unit, half)
    }
}

/// The integer `n` rounded to the format's significant bits: to the nearest multiple of the
/// first power of two, from `step` on, in which it has fewer than `2 * half` units.
pub open spec fn binary_round(n: int, step: int, half: int) -> int
    decreases n - step,
{
    if n < step * (2 * half) || step <= 0 || half <= 0 {
        nearest_even(n, step) * step
    } else {
        proof {
            assert(step * (2 * half) >= 2 * step) by (nonlinear_arith)
                requires
                    step > 0,
                    half > 0,
            ;
        }
        binary_round(n, 2 * step, half)
    }
}

/// A nonnegative value `n / unit` rounded to the nearest integer, ties away from zero.
pub open spec fn round_half_up(n: int, unit: int) -> int {
    (2 * n + unit) / (2 * unit)
}

/// `value` scaled by the format's quotient `target / longest`, rounded to the format and then to
/// the nearest integer.
pub open spec fn scaled_length(value: int, target: int, longest: int, half: int) -> int {
    let (m, unit) = binary_quotient(target, longest, 1, half);
    round_half_up(binary_round(value * m, 1, half), unit)
}

/// `nearest_even` is within half a unit of the quotient.
pub proof fn lemma_nearest_even_bounds(n: int, d: int)
    requires
        n >= 0,
        d > 0,
    ensures
        nearest_even(n, d) >= 0,
        2 * n - d <= 2 * d * nearest_even(n, d) <= 2 * n + d,
{
    vstd::arithmetic::div_mod::lemma_fundamental_div_mod(n, d);
    let q = n / d;
    let r = n % d;
    assert(0 <= r < d && n == d * q + r);
    assert(q >= 0) by (nonlinear_arith)
        requires
            n >= 0,
            n == d * q + r,
            0 <= r < d,
            d > 0,
    ;
    assert(2 * d * (q + 1) == 2 * (d * q) + 2 * d) by (nonlinear_arith);
    assert(2 * d * q == 2 * (d * q)) by (nonlinear_arith);
}

/// A quotient is rounded to the integer that is nearest to it: no other one is nearer, and of two that
/// are as near it is the even one. A whole quotient stays as it is.
pub proof fn quotients_are_rounded_to_the_nearest(n: int, d: int, other: int)
    requires
        n >= 0,
        d > 0,
    ensures
        vstd::math::abs(n - d * nearest_even(n, d)) <= vstd::math::abs(n - d * other),
        other != nearest_even(n, d) && vstd::math::abs(n - d * nearest_even(n, d)) == vstd::math::abs(
            n - d * other,
        ) ==> nearest_even(n, d) % 2 == 0,
        n == d * other ==> nearest_even(n, d) == other,
{
    vstd::arithmetic::div_mod::lemma_fundamental_div_mod(n, d);
    let q = n / d;
    let r = n % d;
    let dq = d * q;
    assert(d * (q + 1) == dq + d) by (nonlinear_arith)
        requires
            dq == d * q,
    ;
    let k = d * other;
    if other <= q - 1 {
        assert(k <= dq - d) by (nonlinear_arith)
            requires
                k == d * other,
                dq == d * q,
                other <= q - 1,
                d > 0,
        ;
    } else if other >= q + 2 {
        assert(k >= dq + 2 * d) by (nonlinear_arith)
            requires
                k == d * other,
                dq == d * q,
                other >= q + 2,
                d > 0,
        ;
    }
}

/// A quotient that starts below the normal range is normalized by the doubling.
pub proof fn lemma_binary_quotient(n: int, d: int, unit: int, half: int)
    requires
        0 < n < 2 * (d * half),
        d > 0,
        unit > 0,
        half > 0,
    ensures
        ({
            let (m, u) = binary_quotient(n, d, unit, half);
            &&& u >= unit
            &&& u % unit == 0
            &&& d * half <= n * (u / unit) < 2 * (d * half)
            &&& m == nearest_even(n * (u / unit), d)
        }),
    decreases
            if n < d * half {
                d * half - n
            } else {
                0
            },
{
    if n >= d * half {
        assert(unit / unit == 1 && unit % unit == 0) by (nonlinear_arith)
            requires
                unit > 0,
        ;
    } else {
        lemma_binary_quotient(2 * n, d, 2 * unit, half);
        let (m, u) = binary_quotient(2 * n, d, 2 * unit, half);
        let k = u / (2 * unit);
        vstd::arithmetic::div_mod::lemma_fundamental_div_mod(u, 2 * unit);
        assert(u == unit * (2 * k)) by (nonlinear_arith)
            requires
                u == (2 * unit) * k,
        ;
        vstd::arithmetic::div_mod::lemma_fundamental_div_mod_converse(u, unit, 2 * k, 0);
        assert((2 * n) * k == n * (2 * k)) by (nonlinear_arith);
    }
}

/// Rounding to the format moves a value by less than one part in `2 * half`.
pub proof fn lemma_binary_round(n: int, step: int, half: int)
    requires
        n >= 0,
        step > 0,
        half > 0,
        step == 1 || n >= step * half,
    ensures
        binary_round(n, step, half) >= 0,
        -n <= 2 * (half * (binary_round(n, step, half) - n)) <= n,
    decreases n - step,
{
    if n < step * (2 * half) {
        let q = nearest_even(n, step);
        lemma_nearest_even_bounds(n, step);
        let r = q * step;
        assert(2 * step * q == 2 * r) by (nonlinear_arith)
            requires
                r == q * step,
        ;
        assert(r >= 0) by (nonlinear_arith)
            requires
                r == q * step,
                q >= 0,
                step > 0,
        ;
        if step == 1 {
            vstd::arithmetic::div_mod::lemma_fundamental_div_mod(n, 1);
            assert(r == n);
            assert(half * (r - n) == 0) by (nonlinear_arith)
                requires
                    r == n,
            ;
        } else {
            assert(-n <= 2 * (half * (r - n)) <= n) by (nonlinear_arith)
                requires
                    -step <= 2 * (r - n) <= step,
                    n >= step * half,
                    half > 0,
            ;
        }
    } else {
        assert(step * (2 * half) == (2 * step) * half && step * (2 * half) >= 2 * step) by (nonlinear_arith)
            requires
                step > 0,
                half > 0,
        ;
        lemma_binary_round(n, 2 * step, half);
    }
}

/// Scaling the longest edge to `target` gives exactly `target`; scaling a shorter one never gives
/// more.
pub proof fn lemma_scaled_length(value: int, target: int, longest: int, half: int)
    requires
        0 <= value <= longest,
        0 < longest,
        0 < target,
        4 * target <= half,
    ensures
        0 <= scaled_length(value, target, longest, half) <= target,
        value == longest ==> scaled_length(value, target, longest, half) == target,
{
    let t = target;
    let l = longest;
    assert(0 < t < 2 * (l * half)) by (nonlinear_arith)
        requires
            0 < t,
            4 * t <= half,
            l > 0,
    ;
    lemma_binary_quotient(t, l, 1, half);
    let (m, u) = binary_quotient(t, l, 1, half);
    let tu = t * u;
    assert(l * half <= tu < 2 * (l * half) && m == nearest_even(tu, l));
    lemma_nearest_even_bounds(tu, l);
    assert(u >= 4 * l) by (nonlinear_arith)
        requires
            l * half <= t * u,
            4 * t <= half,
            l > 0,
            t > 0,
            u > 0,
    ;
    let p = value * m;
    let lm = l * m;
    assert(2 * l * m == 2 * lm) by (nonlinear_arith)
        requires
            lm == l * m,
    ;
    assert(0 <= p <= lm) by (nonlinear_arith)
        requires
            p == value * m,
            lm == l * m,
            0 <= value <= l,
            m >= 0,
    ;
    lemma_binary_round(p, 1, half);
    let r = binary_round(p, 1, half);
    assert(2 * r < 2 * tu + u) by (nonlinear_arith)
        requires
            2 * (half * (r - p)) <= p,
            2 * p <= 2 * tu + l,
            tu < 2 * (l * half),
            u >= 4 * l,
            half >= 4,
            l > 0,
    {
        assert(4 * (half * r) <= (2 * half + 1) * (2 * p));
        assert((2 * half + 1) * (2 * p) <= (2 * half + 1) * (2 * tu + l));
        assert((2 * half + 1) * (2 * tu + l) == 2 * half * (2 * tu) + 2 * half * l + 2 * tu + l);
        assert(2 * half * l + 2 * tu + l < 2 * half * u) by {
            assert(2 * half * u >= 2 * half * (4 * l));
        }
        assert(4 * (half * r) < 2 * half * (2 * tu + u));
    }
    let x = (2 * r + u) / (2 * u);
    vstd::arithmetic::div_mod::lemma_fundamental_div_mod(2 * r + u, 2 * u);
    assert(0 <= x <= t) by (nonlinear_arith)
        requires
            2 * r + u == (2 * u) * x + (2 * r + u) % (2 * u),
            0 <= (2 * r + u) % (2 * u) < 2 * u,
            2 * r < 2 * (t * u) + u,
            r >= 0,
            u > 0,
    ;
    if value == longest {
        assert(p == lm);
        assert(2 * r + u >= 2 * tu) by (nonlinear_arith)
            requires
                2 * (half * (r - p)) >= -p,
                2 * p >= 2 * tu - l,
                tu < 2 * (l * half),
                u >= 4 * l,
                half >= 4,
                l > 0,
        {
            assert(4 * (half * r) >= (2 * half - 1) * (2 * p));
            assert((2 * half - 1) * (2 * p) >= (2 * half - 1) * (2 * tu - l));
            assert((2 * half - 1) * (2 * tu - l) == 2 * half * (2 * tu) - 2 * half * l - 2 * tu + l);
            assert(2 * half * u >= 2 * half * (4 * l));
            assert(4 * (half * r) + 2 * half * u >= 2 * half * (2 * tu));
        }
        assert(x >= t) by (nonlinear_arith)
            requires
                2 * r + u == (2 * u) * x + (2 * r + u) % (2 * u),
                0 <= (2 * r + u) % (2 * u) < 2 * u,
                2 * r + u >= 2 * (t * u),
                u > 0,
        ;
    }
}

/// Scaling to a target that is no longer than the longest edge never makes an edge longer.
pub proof fn lemma_scaled_length_shrinks(value: int, target: int, longest: int, half: int)
    requires
        0 <= value < half,
        0 <= target <= longest,
        0 < longest,
    ensures
        0 <= scaled_length(value, target, longest, half) <= value,
{
    let t = target;
    let l = longest;
    if t == 0 {
        assert(nearest_even(0, l) == 0) by (nonlinear_arith)
            requires
                l > 0,
        ;
        assert(binary_quotient(t, l, 1, half) == (0int, 1int));
        assert(nearest_even(0, 1) == 0);
        assert(binary_round(value * 0, 1, half) == 0);
    } else {
        assert(0 < t < 2 * (l * half)) by (nonlinear_arith)
            requires
                0 < t <= l,
                half > 0,
        ;
        lemma_binary_quotient(t, l, 1, half);
        let (m, u) = binary_quotient(t, l, 1, half);
        let tu = t * u;
        lemma_nearest_even_bounds(tu, l);
        vstd::arithmetic::div_mod::lemma_fundamental_div_mod(tu, l);
        assert(m <= u) by (nonlinear_arith)
            requires
                tu == t * u,
                tu == l * (tu / l) + tu % l,
                0 <= tu % l < l,
                m == tu / l || (m == tu / l + 1 && 2 * (tu % l) >= l),
                0 < t <= l,
                0 < u,
        ;
        let p = value * m;
        let vu = value * u;
        assert(0 <= p <= vu) by (nonlinear_arith)
            requires
                p == value * m,
                vu == value * u,
                0 <= value,
                0 <= m <= u,
        ;
        lemma_binary_round(p, 1, half);
        let r = binary_round(p, 1, half);
        assert(2 * r < 2 * vu + u) by (nonlinear_arith)
            requires
                2 * (half * (r - p)) <= p,
                p <= vu,
                vu == value * u,
                0 <= value < half,
                0 < u,
        {
            assert(vu < half * u);
            assert(2 * (half * r) <= 2 * (half * p) + p);
            assert(half * p <= half * vu);
            assert(half * (2 * r) < half * (2 * vu + u));
        }
        vstd::arithmetic::div_mod::lemma_fundamental_div_mod(2 * r + u, 2 * u);
        let x = (2 * r + u) / (2 * u);
        assert(0 <= x <= value) by (nonlinear_arith)
            requires
                2 * r + u == (2 * u) * x + (2 * r + u) % (2 * u),
                0 <= (2 * r + u) % (2 * u) < 2 * u,
                2 * r < 2 * (value * u) + u,
                r >= 0,
                u > 0,
        ;
    }
}

/// A scaled length times `longest` is about `value` times `target`, within one `longest`; within half
/// of it, so that no other length is nearer, where the product of `longest` and `target` is small for
/// the format.
pub proof fn scaled_lengths_are_nearest(value: int, target: int, longest: int, half: int)
    requires
        0 <= value <= longest,
        0 < longest,
        0 < target,
        4 * target <= half,
        4 <= half,
        longest <= half,
    ensures
        -longest <= scaled_length(value, target, longest, half) * longest - value * target
            <= longest,
        8 * (longest * target) <= half ==> -longest <= 2 * (scaled_length(
            value,
            target,
            longest,
            half,
        ) * longest - value * target) <= longest,
{
    let t = target;
    let l = longest;
    let v = value;
    assert(0 < t < 2 * (l * half)) by (nonlinear_arith)
        requires
            0 < t,
            4 * t <= half,
            l > 0,
    ;
    lemma_binary_quotient(t, l, 1, half);
    let (m, u) = binary_quotient(t, l, 1, half);
    let tu = t * u;
    lemma_nearest_even_bounds(tu, l);
    let p = v * m;
    assert(p >= 0) by (nonlinear_arith)
        requires
            p == v * m,
            v >= 0,
            m >= 0,
    ;
    lemma_binary_round(p, 1, half);
    let r = binary_round(p, 1, half);
    let s = scaled_length(v, t, l, half);
    vstd::arithmetic::div_mod::lemma_fundamental_div_mod(2 * r + u, 2 * u);
    // The three roundings: of the quotient, of the product, and to a whole number.
    let a = m * l - tu;
    let b = r - p;
    let c = 2 * (u * s) - 2 * r;
    assert(-l <= 2 * a <= l) by (nonlinear_arith)
        requires
            a == m * l - tu,
            2 * tu - l <= 2 * l * m <= 2 * tu + l,
    ;
    assert(-u <= c <= u) by (nonlinear_arith)
        requires
            c == 2 * (u * s) - 2 * r,
            2 * r + u == (2 * u) * s + (2 * r + u) % (2 * u),
            0 <= (2 * r + u) % (2 * u) < 2 * u,
    ;
    let off = s * l - v * t;
    let us = u * s;
    let usl = us * l;
    let rl = r * l;
    let pl = p * l;
    assert(c * l == 2 * usl - 2 * rl) by (nonlinear_arith)
        requires
            c == 2 * us - 2 * r,
            usl == us * l,
            rl == r * l,
    ;
    assert(b * l == rl - pl) by (nonlinear_arith)
        requires
            b == r - p,
            rl == r * l,
            pl == p * l,
    ;
    assert(v * a == pl - v * tu) by (nonlinear_arith)
        requires
            a == m * l - tu,
            p == v * m,
            pl == p * l,
    ;
    assert(u * off == usl - v * tu) by (nonlinear_arith)
        requires
            off == s * l - v * t,
            us == u * s,
            usl == us * l,
            tu == t * u,
    ;
    assert(2 * (u * off) == c * l + 2 * (b * l) + 2 * (v * a));
    let cl = c * l;
    let bl = b * l;
    let va = v * a;
    let ul = u * l;
    assert(-ul <= cl <= ul) by (nonlinear_arith)
        requires
            cl == c * l,
            ul == u * l,
            -u <= c <= u,
            l > 0,
    ;
    let vl = v * l;
    assert(-vl <= 2 * va <= vl) by (nonlinear_arith)
        requires
            va == v * a,
            vl == v * l,
            -l <= 2 * a <= l,
            v >= 0,
    ;
    assert(-pl <= 2 * (half * bl) <= pl) by (nonlinear_arith)
        requires
            pl == p * l,
            bl == b * l,
            -p <= 2 * (half * b) <= p,
            l > 0,
    ;
    // `l * half <= t * u`, so that `l` units of the last place are few.
    assert(2 * pl <= 2 * (v * tu) + vl) by (nonlinear_arith)
        requires
            pl == p * l,
            p == v * m,
            a == m * l - tu,
            2 * a <= l,
            vl == v * l,
            v >= 0,
    ;
    let vtu = v * tu;
    assert(half * vl <= vtu) by (nonlinear_arith)
        requires
            vl == v * l,
            vtu == v * tu,
            l * half <= tu,
            v >= 0,
    ;
    let ltu = l * tu;
    assert(0 <= vl && 0 <= vtu <= ltu) by (nonlinear_arith)
        requires
            vl == v * l,
            vtu == v * tu,
            ltu == l * tu,
            0 <= v <= l,
            tu >= 0,
    ;
    let x = 2 * (u * off);
    // `half * x` is at most `half * ul` and little more.
    assert(half * x == half * cl + 2 * (half * bl) + 2 * (half * va)) by (nonlinear_arith)
        requires
            x == cl + 2 * bl + 2 * va,
    ;
    assert(-(half * ul) <= half * cl <= half * ul && -(half * vl) <= 2 * (half * va) <= half * vl)
        by (nonlinear_arith)
        requires
            -ul <= cl <= ul,
            -vl <= 2 * va <= vl,
            half > 0,
    ;
    assert(2 * vl <= vtu) by (nonlinear_arith)
        requires
            half * vl <= vtu,
            half >= 4,
            vl >= 0,
    ;
    let extra = 3 * ltu;
    assert(-(half * ul) - extra <= half * x <= half * ul + extra);
    let lt = l * t;
    assert(ltu == lt * u) by (nonlinear_arith)
        requires
            ltu == l * tu,
            tu == t * u,
            lt == l * t,
    ;
    assert(ul == l * u) by (nonlinear_arith)
        requires
            ul == u * l,
    ;
    assert(-(half * l) - 3 * lt <= 2 * (half * off) <= half * l + 3 * lt) by (nonlinear_arith)
        requires
            -(half * (l * u)) - 3 * (lt * u) <= half * (2 * (u * off)) <= half * (l * u) + 3 * (lt
                * u),
            u > 0,
    ;
    assert(3 * lt <= half * l) by (nonlinear_arith)
        requires
            lt == l * t,
            4 * t <= half,
            l > 0,
            t > 0,
    ;
    assert(-l <= off <= l) by (nonlinear_arith)
        requires
            -(half * l) - 3 * lt <= 2 * (half * off) <= half * l + 3 * lt,
            3 * lt <= half * l,
            half > 0,
    ;
    if 8 * lt <= half {
        assert(-l <= 2 * off <= l) by (nonlinear_arith)
            requires
                -(half * l) - 3 * lt <= 2 * (half * off) <= half * l + 3 * lt,
                8 * lt <= half,
                lt >= 0,
                half > 0,
        {
            assert(half * (2 * off - l) < half);
            assert(half * (2 * off + l) > -half);
        }
    }
}

/// `n / d` rounded to the nearest integer, ties to the even one.
pub fn divide_to_even(n: u128, d: u128) -> (q: u128)
    requires
        0 < d <= 0x1_0000_0000_0000_0000_0000_0000,
        n <= 0x1_0000_0000_0000_0000_0000_0000,
    ensures
        q == nearest_even(n as int, d as int),
{
    let q: u128 = n / d;
    let r: u128 = n % d;
    if 2 * r < d || (2 * r == d && q % 2 == 0) {
        q
    } else {
        q + 1
    }
}

/// The format's quotient `n / d` as a significand and the power of two that divides it.
pub fn divide_to_binary(n: u32, d: u64, half: u64) -> (quotient: (u128, u128))
    requires
        0 < d,
        n <= half <= DOUBLE_HALF,
        d * half <= 0x10_0000_0000_0000_0000_0000,
    ensures
        (quotient.0 as int, quotient.1 as int) == binary_quotient(n as int, d as int, 1, half as int),
        n == 0 ==> quotient == (0u128, 1u128),
        quotient.0 <= 2 * half,
        0 < quotient.1,
        n * quotient.1 <= 2 * (d * half),
{
    if n == 0 {
        assert(0 <= d * half) by (nonlinear_arith);
        assert(nearest_even(0, d as int) == 0) by (nonlinear_arith)
            requires
                d > 0,
        ;
        return (0, 1);
    }
    assert(half <= d * half) by (nonlinear_arith)
        requires
            0 <= half,
            0 < d,
    ;
    let bound: u128 = d as u128 * half as u128;
    let mut m: u128 = n as u128;
    let mut unit: u128 = 1;
    while m < bound
        invariant
            0 < n,
            0 < m < 2 * bound,
            0 < unit <= m,
            m == n * unit,
            bound == d * half,
            bound <= 0x10_0000_0000_0000_0000_0000u128,
            binary_quotient(n as int, d as int, 1, half as int) == binary_quotient(
                m as int,
                d as int,
                unit as int,
                half as int,
            ),
        decreases 2 * bound - m,
    {
        assert(n * (2 * unit) == 2 * (n * unit)) by (nonlinear_arith);
        m = 2 * m;
        unit = 2 * unit;
    }
    let q: u128 = divide_to_even(m, d as u128);
    proof {
        lemma_nearest_even_bounds(m as int, d as int);
        assert(q <= 2 * half) by (nonlinear_arith)
            requires
                2 * d * q <= 2 * m + d,
                m < 2 * (d * half),
                d > 0,
        ;
    }
    (q, unit)
}

/// The integer `n` rounded to the format's significant bits.
pub fn round_to_binary(n: u128, half: u64) -> (rounded: u128)
    requires
        n <= 0x400_0000_0000_0000_0000_0000,
        0 < half <= DOUBLE_HALF,
    ensures
        rounded == binary_round(n as int, 1, half as int),
{
    let mut step: u128 = 1;
    let mut bound: u128 = 2 * half as u128;
    while n >= bound
        invariant
            0 < step,
            2 * step <= bound,
            bound == step * (2 * half),
            0 < half <= DOUBLE_HALF,
            n <= 0x400_0000_0000_0000_0000_0000,
            bound <= 0x800_0000_0000_0000_0000_0000,
            step == 1 || n >= step * half,
            binary_round(n as int, 1, half as int) == binary_round(
                n as int,
                step as int,
                half as int,
            ),
        decreases n + 1 - step,
    {
        assert((2 * step) * (2 * half) == 2 * (step * (2 * half)) && (2 * step) * half == step * (2
            * half)) by (nonlinear_arith);
        step = 2 * step;
        bound = 2 * bound;
    }
    let q: u128 = divide_to_even(n, step);
    proof {
        lemma_nearest_even_bounds(n as int, step as int);
        assert(0 <= q * step <= 0x800_0000_0000_0000_0000_0000) by (nonlinear_arith)
            requires
                2 * step * q <= 2 * n + step,
                n <= 0x400_0000_0000_0000_0000_0000,
                step <= 0x800_0000_0000_0000_0000_0000,
                0 <= q,
                0 < step,
        ;
    }
    q * step
}

/// `value` scaled by `target / longest` in `binary64` and rounded to the nearest integer.
pub fn scale_length(value: u32, target: u32, longest: u32) -> (scaled: u32)
    requires
        value <= longest,
        0 < longest,
    ensures
        scaled == scaled_length(value as int, target as int, longest as int, DOUBLE_HALF as int),
        scaled <= target,
        value == longest ==> scaled == target,
{
    assert(longest * DOUBLE_HALF <= 0x10_0000_0000_0000_0000_0000) by (nonlinear_arith)
        requires
            longest <= 0xffff_ffff,
            DOUBLE_HALF == 0x10_0000_0000_0000,
    ;
    let (m, unit) = divide_to_binary(target, longest as u64, DOUBLE_HALF);
    proof {
        if target == 0 {
            assert(value * 0 == 0);
            assert(nearest_even(0, 1) == 0);
            assert(binary_round(0, 1, DOUBLE_HALF as int) == 0);
        } else {
            lemma_scaled_length(value as int, target as int, longest as int, DOUBLE_HALF as int);
        }
        assert(value * m <= 0x400_0000_0000_0000_0000_0000 && unit <= 0x20_0000_0000_0000_0000_0000) by (nonlinear_arith)
            requires
                value <= 0xffff_ffff,
                m <= 0x20_0000_0000_0000,
                target > 0 ==> target * unit <= 2 * (longest * 0x10_0000_0000_0000),
                target == 0 ==> unit == 1,
                target >= 0,
                longest <= 0xffff_ffff,
        ;
    }
    let rounded: u128 = round_to_binary(value as u128 * m, DOUBLE_HALF);
    proof {
        lemma_binary_round(value * m, 1, DOUBLE_HALF as int);
        assert(rounded <= 2 * (value * m)) by (nonlinear_arith)
            requires
                2 * (0x10_0000_0000_0000 * (rounded - value * m)) <= value * m,
                value * m >= 0,
        ;
    }
    ((2 * rounded + unit) / (2 * unit)) as u32
}

} // verus!
