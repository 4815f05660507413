//! Single-precision numbers from zero on, by their bits, and how they are added,
//! subtracted and multiplied: exactly, and then to the nearest such number, a half
//! to the even one.
//!
//! The smallest step between two such numbers is the unit here: every one of them
//! is a whole number of units, a mantissa of at most 24 bits times a power of two.
use vstd::prelude::*;

use crate::number;

verus! {

/// The bits of a single-precision number.
pub type Single = u32;

/// The bits of 1.
pub const ONE: u32 = 0x3f80_0000;

/// The bits of 0.3, as far as that is a number.
pub const THREE_TENTHS: u32 = 0x3e99_999a;

/// The bits from which on numbers are not counted with.
pub const TOO_LARGE: u32 = 0x7f00_0000;

/// Two to the power of `k`.
pub open spec fn power(k: nat) -> nat
    decreases k,
{
    if k == 0 {
        1
    } else {
        2 * power((k - 1) as nat)
    }
}

proof fn power_positive(k: nat)
    ensures
        power(k) >= 1,
    decreases k,
{
    if k > 0 {
        power_positive((k - 1) as nat);
    }
}

proof fn power_adds(a: nat, b: nat)
    ensures
        power(a) * power(b) == power(a + b),
    decreases b,
{
    if b == 0 {
        assert(power(a) * 1 == power(a));
    } else {
        power_adds(a, (b - 1) as nat);
        let p = power((b - 1) as nat);
        assert(power(a) * (2 * p) == 2 * (power(a) * p)) by (nonlinear_arith);
    }
}

proof fn power_of_ten()
    ensures
        power(8) == 0x100,
        power(10) == 0x400,
{
    reveal_with_fuel(power, 11);
}

/// Powers of two that are counted with.
proof fn known_powers()
    ensures
        power(28) == 0x1000_0000,
        power(40) == 0x100_0000_0000,
        power(49) == 0x2_0000_0000_0000,
        power(50) == 0x4_0000_0000_0000,
        power(80) == 0x1_0000_0000_0000_0000_0000,
{
    power_of_ten();
    power_adds(10, 10);
    assert(power(20) == 0x10_0000) by (nonlinear_arith)
        requires
            power(10) * power(10) == power(20),
            power(10) == 0x400,
            power(10) == 0x400,
    ;
    power_adds(20, 8);
    assert(power(28) == 0x1000_0000) by (nonlinear_arith)
        requires
            power(20) * power(8) == power(28),
            power(20) == 0x10_0000,
            power(8) == 0x100,
    ;
    power_adds(20, 20);
    assert(power(40) == 0x100_0000_0000) by (nonlinear_arith)
        requires
            power(20) * power(20) == power(40),
            power(20) == 0x10_0000,
            power(20) == 0x10_0000,
    ;
    power_adds(40, 10);
    assert(power(50) == 0x4_0000_0000_0000) by (nonlinear_arith)
        requires
            power(40) * power(10) == power(50),
            power(40) == 0x100_0000_0000,
            power(10) == 0x400,
    ;
    power_adds(40, 40);
    assert(power(80) == 0x1_0000_0000_0000_0000_0000) by (nonlinear_arith)
        requires
            power(40) * power(40) == power(80),
            power(40) == 0x100_0000_0000,
            power(40) == 0x100_0000_0000,
    ;
    assert(power(50) == 2 * power(49));
}

/// The powers of two near the highest mantissa.
pub proof fn mantissa_powers()
    ensures
        power(23) == 0x80_0000,
        power(24) == 0x100_0000,
        power(25) == 0x200_0000,
        power(26) == 0x400_0000,
        power(27) == 0x800_0000,
        power(28) == 0x1000_0000,
{
    known_powers();
    assert(power(28) == 2 * power(27));
    assert(power(27) == 2 * power(26));
    assert(power(26) == 2 * power(25));
    assert(power(25) == 2 * power(24));
    assert(power(24) == 2 * power(23));
}

/// The mantissa of a number.
pub open spec fn mantissa(x: Single) -> nat {
    if x < 0x100_0000 {
        x as nat
    } else {
        (x % 0x80_0000 + 0x80_0000) as nat
    }
}

/// The power of two that the mantissa is multiplied by.
pub open spec fn exponent(x: Single) -> nat {
    if x < 0x100_0000 {
        0
    } else {
        (x / 0x80_0000 - 1) as nat
    }
}

/// How many units a number is.
pub open spec fn value(x: Single) -> nat {
    mantissa(x) * power(exponent(x))
}

/// The step between the numbers near `n` units.
pub open spec fn step(n: nat) -> nat
    decreases n,
{
    if n < 0x100_0000 {
        1
    } else {
        2 * step(n / 2)
    }
}

/// The number that is nearest to `a / b` units.
pub open spec fn nearest_ratio(a: nat, b: nat) -> nat {
    let s = step(a / b);
    number::rounded(a, b * s) * s
}

/// The number that is nearest to `n` units.
pub open spec fn nearest(n: nat) -> nat {
    nearest_ratio(n, 1)
}

// ── Rounding ────────────────────────────────────────────────────────────────

/// The step is the power of two by which `n` has 24 bits.
proof fn step_power(n: nat) -> (j: nat)
    ensures
        step(n) == power(j),
        n < 0x100_0000 * power(j),
        j > 0 ==> 0x80_0000 * power(j) <= n,
        n < 0x100_0000 ==> j == 0,
    decreases n,
{
    if n < 0x100_0000 {
        0
    } else {
        let i = step_power(n / 2);
        i + 1
    }
}

/// Rounding depends on the ratio alone.
proof fn rounded_scales(a: nat, b: nat, c: nat)
    requires
        b > 0,
        c > 0,
    ensures
        number::rounded(a * c, b * c) == number::rounded(a, b),
{
    let q: int = a as int / b as int;
    let r: int = a as int % b as int;
    vstd::arithmetic::div_mod::lemma_fundamental_div_mod(a as int, b as int);
    assert(a * c == q * (b * c) + r * c) by (nonlinear_arith)
        requires
            a == b * q + r,
    ;
    assert(0 <= r * c < b * c) by (nonlinear_arith)
        requires
            0 <= r < b,
            c > 0,
    ;
    vstd::arithmetic::div_mod::lemma_fundamental_div_mod_converse(
        (a * c) as int,
        (b * c) as int,
        q,
        r * c,
    );
    assert((2 * (r * c) > b * c) == (2 * r > b)) by (nonlinear_arith)
        requires
            c > 0,
    ;
    assert((2 * (r * c) == b * c) == (2 * r == b)) by (nonlinear_arith)
        requires
            c > 0,
    ;
}

/// Rounding passes over no whole number.
proof fn rounded_between(a: nat, b: nat, m: nat)
    requires
        b > 0,
    ensures
        a <= m * b ==> number::rounded(a, b) <= m,
        a >= m * b ==> number::rounded(a, b) >= m,
{
    let q: int = a as int / b as int;
    let r: int = a as int % b as int;
    vstd::arithmetic::div_mod::lemma_fundamental_div_mod(a as int, b as int);
    if a <= m * b {
        assert(q <= m) by (nonlinear_arith)
            requires
                a == b * q + r,
                0 <= r < b,
                a <= m * b,
        ;
        if q == m {
            assert(r == 0) by (nonlinear_arith)
                requires
                    a == b * q + r,
                    0 <= r < b,
                    a <= m * b,
                    q == m,
            ;
        }
    }
    if a >= m * b {
        assert(q >= m) by (nonlinear_arith)
            requires
                a == b * q + r,
                0 <= r < b,
                a >= m * b,
        ;
    }
}

/// Whether `n` units are a number: 24 bits times a power of two.
pub open spec fn is_number(n: nat, q: nat, i: nat) -> bool {
    q <= 0x100_0000 && n == q * power(i)
}

/// Rounding passes over no number.
proof fn nearest_between(a: nat, b: nat, m: nat, q: nat, i: nat)
    requires
        b > 0,
        is_number(m, q, i),
    ensures
        a <= m * b ==> nearest_ratio(a, b) <= m,
        a >= m * b ==> nearest_ratio(a, b) >= m,
{
    let f = a / b;
    let j = step_power(f);
    let s = step(f);
    power_positive(j);
    vstd::arithmetic::div_mod::lemma_fundamental_div_mod(a as int, b as int);
    let r: int = a as int % b as int;
    assert(a == b * f + r);
    if i >= j {
        // the step divides the number
        let k = q * power((i - j) as nat);
        power_adds((i - j) as nat, j);
        assert(m == k * s) by (nonlinear_arith)
            requires
                m == q * power(i),
                power(i) == power((i - j) as nat) * s,
                k == q * power((i - j) as nat),
        ;
        assert(m * b == k * (b * s)) by (nonlinear_arith)
            requires
                m == k * s,
        ;
        assert(b * s > 0) by (nonlinear_arith)
            requires
                b > 0,
                s > 0,
        ;
        rounded_between(a, b * s, k);
        let got = number::rounded(a, b * s);
        assert(got <= k ==> got * s <= k * s) by (nonlinear_arith);
        assert(got >= k ==> got * s >= k * s) by (nonlinear_arith);
    } else {
        // the number is at most the power of two where the step begins
        let top = 0x80_0000 * s;
        power_adds(i, (j - i) as nat);
        power_positive((j - i - 1) as nat);
        power_positive(i);
        assert(m <= top) by (nonlinear_arith)
            requires
                m == q * power(i),
                q <= 0x100_0000,
                s == power(i) * power((j - i) as nat),
                power((j - i) as nat) >= 2,
                top == 0x80_0000 * s,
        ;
        assert(top <= f);
        assert(b * s > 0) by (nonlinear_arith)
            requires
                b > 0,
                s > 0,
        ;
        assert(f * b >= m * b) by (nonlinear_arith)
            requires
                f >= m,
        ;
        assert(a >= m * b) by (nonlinear_arith)
            requires
                a == b * f + r,
                r >= 0,
                f >= m,
        ;
        assert(a >= 0x80_0000nat * (b * s)) by (nonlinear_arith)
            requires
                a == b * f + r,
                r >= 0,
                f >= 0x80_0000 * s,
        ;
        rounded_between(a, b * s, 0x80_0000);
        let got = number::rounded(a, b * s);
        assert(got * s >= 0x80_0000nat * s) by (nonlinear_arith)
            requires
                got >= 0x80_0000,
        ;
        if a <= m * b {
            assert(m == top && a == top * b) by (nonlinear_arith)
                requires
                    a == b * f + r,
                    r >= 0,
                    f >= top,
                    top >= m,
                    a <= m * b,
                    b > 0,
            ;
            assert(a == 0x80_0000nat * (b * s)) by (nonlinear_arith)
                requires
                    a == top * b,
                    top == 0x80_0000 * s,
            ;
            assert(got * s <= top) by (nonlinear_arith)
                requires
                    got <= 0x80_0000,
                    top == 0x80_0000 * s,
            ;
        }
    }
}

/// Twice a ratio is rounded to twice the number, where the ratio has bits to
/// spare.
proof fn ratio_doubles(a: nat, b: nat)
    requires
        b > 0,
        a / b >= 0x80_0000 || (b == 1),
    ensures
        nearest_ratio(2 * a, b) == 2 * nearest_ratio(a, b),
{
    let f = a / b;
    vstd::arithmetic::div_mod::lemma_fundamental_div_mod(a as int, b as int);
    let r: int = a as int % b as int;
    let g = (2 * a) / b;
    // the whole part doubles, with at most one more
    let e: int = if 2 * r >= b {
        1
    } else {
        0
    };
    assert(2 * a == b * (2 * f + e) + (2 * r - e * b)) by (nonlinear_arith)
        requires
            a == b * f + r,
    ;
    assert(0 <= 2 * r - e * b < b) by (nonlinear_arith)
        requires
            0 <= r < b,
            e == (if 2 * r >= b {
                1int
            } else {
                0int
            }),
    ;
    vstd::arithmetic::div_mod::lemma_fundamental_div_mod_converse(
        (2 * a) as int,
        b as int,
        2 * f + e,
        2 * r - e * b,
    );
    assert(g == 2 * f + e);
    assert(g / 2 == f);
    let s = step(f);
    let j = step_power(f);
    power_positive(j);
    if g >= 0x100_0000 {
        assert(step(g) == 2 * s);
        assert(b * s > 0) by (nonlinear_arith)
            requires
                b > 0,
                s > 0,
        ;
        rounded_scales(a, b * s, 2);
        assert(b * (2 * s) == (b * s) * 2) by (nonlinear_arith);
        let q = number::rounded(a, b * s);
        assert(q * (2 * s) == 2 * (q * s)) by (nonlinear_arith);
    } else {
        assert(b == 1);
        assert(e == 0);
        rounded_between(a, 1, a);
        rounded_between(2 * a, 1, 2 * a);
    }
}

proof fn ratio_scales(a: nat, b: nat, k: nat)
    requires
        b > 0,
        a / b >= 0x80_0000 || b == 1,
    ensures
        nearest_ratio(a * power(k), b) == nearest_ratio(a, b) * power(k),
    decreases k,
{
    if k == 0 {
        assert(power(0) == 1);
        assert(a * 1 == a);
        assert(nearest_ratio(a, b) * 1 == nearest_ratio(a, b));
    } else {
        let p = power((k - 1) as nat);
        power_positive((k - 1) as nat);
        ratio_scales(a, b, (k - 1) as nat);
        assert(a * p >= a) by (nonlinear_arith)
            requires
                p >= 1,
        ;
        vstd::arithmetic::div_mod::lemma_div_is_ordered(a as int, (a * p) as int, b as int);
        ratio_doubles(a * p, b);
        assert(a * (2 * p) == 2 * (a * p)) by (nonlinear_arith);
        let n = nearest_ratio(a, b);
        assert(n * (2 * p) == 2 * (n * p)) by (nonlinear_arith);
    }
}

/// A ratio of whole units is rounded as they are.
proof fn whole_ratio(n: nat, b: nat)
    requires
        b > 0,
    ensures
        nearest_ratio(n * b, b) == nearest(n),
{
    vstd::arithmetic::div_mod::lemma_div_multiples_vanish(n as int, b as int);
    assert(b * n == n * b) by (nonlinear_arith);
    let s = step(n);
    let j = step_power(n);
    power_positive(j);
    rounded_scales(n, s, b);
    assert(s * b == b * s) by (nonlinear_arith);
    assert(1 * s == s);
}

proof fn power_quarters(d: nat) -> (h: nat)
    requires
        d >= 30,
    ensures
        power(d) == 4 * h,
        power((d - 1) as nat) == 2 * h,
        h >= 0x1000_0000,
{
    let h = power((d - 2) as nat);
    assert(power(d) == 2 * power((d - 1) as nat));
    assert(power((d - 1) as nat) == 2 * h);
    power_adds((d - 30) as nat, 28);
    known_powers();
    power_positive((d - 30) as nat);
    assert(h >= 0x1000_0000) by (nonlinear_arith)
        requires
            h == power((d - 30) as nat) * 0x1000_0000,
            power((d - 30) as nat) >= 1,
    ;
    h
}

/// What is left of a division where less than half is left is rounded off, and
/// more than half is rounded up.
proof fn rounded_is(n: nat, b: nat, q: nat, r: nat)
    requires
        n == q * b + r,
        r < b,
        2 * r != b,
    ensures
        number::rounded(n, b) == if 2 * r > b {
            q + 1
        } else {
            q
        },
{
    vstd::arithmetic::div_mod::lemma_fundamental_div_mod_converse(
        n as int,
        b as int,
        q as int,
        r as int,
    );
}

/// A number that is small beside another is lost when it is added.
proof fn small_is_lost_added(m: nat, d: nat, y: nat)
    requires
        0x80_0000 <= m < 0x100_0000,
        y < 0x100_0000,
        d >= 30,
    ensures
        nearest(m * power(d) + y) == m * power(d),
{
    let p = power(d);
    let h = power_quarters(d);
    let n = m * p + y;
    assert(0x80_0000nat * p <= n < 0x100_0000nat * p) by (nonlinear_arith)
        requires
            n == m * p + y,
            0x80_0000 <= m < 0x100_0000,
            y < p,
    ;
    step_is(n, d);
    rounded_is(n, p, m, y);
    assert(n / 1 == n);
    assert(1 * p == p);
}

/// A number that is small beside another is lost when it is subtracted.
proof fn small_is_lost_subtracted(m: nat, d: nat, y: nat)
    requires
        0x80_0000 <= m < 0x100_0000,
        y < 0x100_0000,
        d >= 30,
    ensures
        m * power(d) >= y,
        nearest((m * power(d) - y) as nat) == m * power(d),
{
    let p = power(d);
    let h = power_quarters(d);
    assert(m * p >= p) by (nonlinear_arith)
        requires
            m >= 1,
    ;
    let n = (m * p - y) as nat;
    assert(n / 1 == n);
    if y == 0 {
        small_is_lost_added(m, d, 0);
    } else if m > 0x80_0000 {
        assert(0x80_0000nat * p <= n < 0x100_0000nat * p) by (nonlinear_arith)
            requires
                n == m * p - y,
                0x80_0001 <= m < 0x100_0000,
                0 < y < p,
        ;
        step_is(n, d);
        assert(n == (m - 1) * p + (p - y)) by (nonlinear_arith)
            requires
                n == m * p - y,
        ;
        rounded_is(n, p, (m - 1) as nat, (p - y) as nat);
        assert(1 * p == p);
    } else {
        let half = power((d - 1) as nat);
        assert(m * p == 0x100_0000nat * half) by (nonlinear_arith)
            requires
                m == 0x80_0000,
                p == 2 * half,
        ;
        assert(n == 0xff_ffffnat * half + (half - y)) by (nonlinear_arith)
            requires
                n == 0x100_0000 * half - y,
        ;
        assert(0x80_0000nat * half <= n) by (nonlinear_arith)
            requires
                n == 0xff_ffff * half + (half - y),
                y < half,
        ;
        step_is(n, (d - 1) as nat);
        rounded_is(n, half, 0xff_ffff, (half - y) as nat);
        assert(1 * half == half);
    }
}

/// The step is known by its range.
proof fn step_is(n: nat, j: nat)
    requires
        0x80_0000 * power(j) <= n < 0x100_0000 * power(j),
    ensures
        step(n) == power(j),
{
    let i = step_power(n);
    if i < j {
        power_adds(i, (j - i) as nat);
        power_positive((j - i - 1) as nat);
        assert(0x80_0000 * power(j) >= 0x100_0000 * power(i)) by (nonlinear_arith)
            requires
                power(j) == power(i) * power((j - i) as nat),
                power((j - i) as nat) >= 2,
        ;
    } else if i > j {
        power_adds(j, (i - j) as nat);
        power_positive((i - j - 1) as nat);
        assert(0x80_0000 * power(i) >= 0x100_0000 * power(j)) by (nonlinear_arith)
            requires
                power(i) == power(j) * power((i - j) as nat),
                power((i - j) as nat) >= 2,
        ;
    }
}

// ── Counting ────────────────────────────────────────────────────────────────

/// A number's mantissa has 24 bits, the highest of them set where it is
/// multiplied.
proof fn parts_are_bounded(x: Single)
    ensures
        mantissa(x) < 0x100_0000,
        exponent(x) > 0 ==> mantissa(x) >= 0x80_0000,
        x < TOO_LARGE ==> exponent(x) <= 253,
        is_number(value(x), mantissa(x), exponent(x)),
{
}

/// Larger bits are the larger number.
pub proof fn bits_are_in_order(x: Single, y: Single)
    requires
        x < y,
    ensures
        value(x) < value(y),
{
    let (ex, ey) = (exponent(x), exponent(y));
    power_positive(ex);
    power_positive(ey);
    if ex == ey {
        let (mx, my) = (mantissa(x), mantissa(y));
        assert(mx * power(ex) < my * power(ex)) by (nonlinear_arith)
            requires
                mx < my,
                power(ex) >= 1,
        ;
    } else {
        assert(ex < ey);
        power_adds(ex, (ey - ex) as nat);
        power_positive((ey - ex - 1) as nat);
        let (mx, my) = (mantissa(x), mantissa(y));
        assert(mx * power(ex) < my * power(ey)) by (nonlinear_arith)
            requires
                mx < 0x100_0000,
                my >= 0x80_0000,
                power(ey) == power(ex) * power((ey - ex) as nat),
                power((ey - ex) as nat) >= 2,
                power(ex) >= 1,
        ;
    }
}

fn mantissa_of(x: Single) -> (r: u32)
    ensures
        r == mantissa(x),
        r < 0x100_0000,
{
    if x < 0x100_0000 {
        x
    } else {
        x % 0x80_0000 + 0x80_0000
    }
}

fn exponent_of(x: Single) -> (r: u32)
    ensures
        r == exponent(x),
        r <= 511,
{
    if x < 0x100_0000 {
        0
    } else {
        x / 0x80_0000 - 1
    }
}

fn power_of(k: u32) -> (r: u128)
    requires
        k <= 40,
    ensures
        r == power(k as nat),
        1 <= r <= 0x100_0000_0000,
{
    let mut r: u128 = 1;
    let mut i: u32 = 0;
    proof {
        known_powers();
    }
    while i < k
        invariant
            i <= k <= 40,
            r == power(i as nat),
            power(40) == 0x100_0000_0000,
        decreases k - i,
    {
        proof {
            power_grows((i + 1) as nat, 40);
        }
        r = 2 * r;
        i += 1;
    }
    proof {
        power_grows(k as nat, 40);
        power_positive(k as nat);
    }
    r
}

proof fn power_grows(a: nat, b: nat)
    requires
        a <= b,
    ensures
        power(a) <= power(b),
{
    power_adds(a, (b - a) as nat);
    power_positive((b - a) as nat);
    power_positive(a);
    assert(power(a) * power((b - a) as nat) >= power(a)) by (nonlinear_arith)
        requires
            power((b - a) as nat) >= 1,
    ;
}

/// A mantissa and a power of two.
struct Parts {
    m: u32,
    k: u32,
}

/// The step near `f` units, and which power of two it is.
fn step_of(f: u128) -> (r: (u128, u32))
    requires
        f < 0x1_0000_0000_0000_0000_0000,
    ensures
        r.0 == step(f as nat),
        r.0 == power(r.1 as nat),
        r.0 >= 1,
        r.0 == 1 || r.0 <= f,
        r.1 <= 80,
        f < 0x100_0000 * r.0,
{
    let mut t: u128 = f;
    let mut s: u128 = 1;
    let mut k: u32 = 0;
    proof {
        assert(1 * step(t as nat) == step(t as nat));
        known_powers();
    }
    while t >= 0x100_0000
        invariant
            f < 0x1_0000_0000_0000_0000_0000,
            s == power(k as nat),
            1 <= s <= 0x1_0000_0000_0000_0000_0000,
            step(f as nat) == s * step(t as nat),
            t * s <= f,
            k <= 80,
            power(80) == 0x1_0000_0000_0000_0000_0000,
            s == 1 || 2 * s <= f,
        decreases t,
    {
        proof {
            let u: u128 = (t / 2) as u128;
            let w = step(u as nat);
            assert(step(t as nat) == 2 * w);
            assert(s * (2 * w) == (2 * s) * w) by (nonlinear_arith);
            assert(u * (2 * s) <= f) by (nonlinear_arith)
                requires
                    t * s <= f,
                    2 * u <= t,
                    s >= 1,
            ;
            assert(4 * s <= f) by (nonlinear_arith)
                requires
                    t * s <= f,
                    t >= 4,
                    s >= 1,
            ;
            if k >= 80 {
                power_grows(80, k as nat);
            }
        }
        t = t / 2;
        s = 2 * s;
        k += 1;
    }
    proof {
        assert(step(t as nat) == 1);
        assert(s * 1 == s);
        let j = step_power(f as nat);
    }
    (s, k)
}

/// The number that is nearest to a ratio.
fn round_ratio(a: u128, b: u128) -> (r: Parts)
    requires
        0 < b <= 0x4_0000_0000_0000,
        a < 0x1_0000_0000_0000_0000_0000,
    ensures
        nearest_ratio(a as nat, b as nat) == r.m * power(r.k as nat),
        r.m <= 0x100_0000,
        r.k <= 80,
{
    let f: u128 = a / b;
    proof {
        assert(f <= a) by (nonlinear_arith)
            requires
                f == a / b,
                b > 0,
        ;
    }
    let (s, k): (u128, u32) = step_of(f);
    proof {
        vstd::arithmetic::div_mod::lemma_fundamental_div_mod(a as int, b as int);
        assert(b * s <= 0x1_0000_0000_0000_0000_0000) by (nonlinear_arith)
            requires
                s == 1 || s <= f,
                b * f <= a,
                0 < b <= 0x4_0000_0000_0000,
                a < 0x1_0000_0000_0000_0000_0000,
        ;
        assert(b * s >= 1) by (nonlinear_arith)
            requires
                b >= 1,
                s >= 1,
        ;
        let r: int = a as int % b as int;
        assert(a < b * (f + 1)) by (nonlinear_arith)
            requires
                a == b * f + r,
                r < b,
        ;
        assert(a <= 0x100_0000nat * (b * s)) by (nonlinear_arith)
            requires
                a < b * (f + 1),
                f < 0x100_0000 * s,
                b > 0,
        ;
        rounded_between(a as nat, (b * s) as nat, 0x100_0000);
    }
    let d: u128 = b * s;
    let q: u128 = a / d;
    let r: u128 = a % d;
    let up: bool = r > d - r || (r == d - r && q % 2 == 1);
    proof {
        assert(number::rounded(a as nat, d as nat) == if up {
            q + 1
        } else {
            q as int
        });
    }
    Parts {
        m: if up {
            (q + 1) as u32
        } else {
            q as u32
        },
        k,
    }
}

/// The bits of a mantissa times a power of two.
fn assemble(m: u32, k: u32) -> (r: Single)
    requires
        m <= 0x100_0000,
        k <= 500,
    ensures
        value(r) == m * power(k as nat),
{
    let mut q: u32 = m;
    let mut e: u32 = k;
    while q < 0x80_0000 && e > 0
        invariant
            q <= 0x100_0000,
            e <= 500,
            q * power(e as nat) == m * power(k as nat),
        decreases e,
    {
        proof {
            let p = power((e - 1) as nat);
            assert(q * (2 * p) == (2 * q) * p) by (nonlinear_arith);
        }
        q = 2 * q;
        e -= 1;
    }
    if q == 0x100_0000 {
        proof {
            let p = power(e as nat);
            assert(0x100_0000nat * p == 0x80_0000nat * (2 * p)) by (nonlinear_arith);
        }
        q = 0x80_0000;
        e += 1;
    }
    e * 0x80_0000 + q
}

/// The nearest number to the sum of two.
pub fn plus(x: Single, y: Single) -> (r: Single)
    requires
        x < TOO_LARGE,
        y < TOO_LARGE,
    ensures
        value(r) == nearest(value(x) + value(y)),
{
    let (a, b): (u32, u32) = if x >= y {
        (x, y)
    } else {
        (y, x)
    };
    let (ma, ka): (u32, u32) = (mantissa_of(a), exponent_of(a));
    let (mb, kb): (u32, u32) = (mantissa_of(b), exponent_of(b));
    proof {
        parts_are_bounded(a);
        parts_are_bounded(b);
    }
    let d: u32 = ka - kb;
    proof {
        power_adds(d as nat, kb as nat);
        let pd = power(d as nat);
        let pk = power(kb as nat);
        power_positive(kb as nat);
        assert(ma * (pd * pk) + mb * pk == (ma * pd + mb) * pk) by (nonlinear_arith);
        ratio_scales((ma * pd + mb) as nat, 1, kb as nat);
        assert(value(a) + value(b) == value(x) + value(y));
    }
    if d > 40 {
        proof {
            small_is_lost_added(ma as nat, d as nat, mb as nat);
            let pd = power(d as nat);
            let pk = power(kb as nat);
            assert((ma * pd) * pk == ma * (pd * pk)) by (nonlinear_arith);
        }
        return a;
    }
    let p: u128 = power_of(d);
    proof {
        assert(ma * p < 0x1_0000_0000_0000_0000) by (nonlinear_arith)
            requires
                ma < 0x100_0000,
                0 <= p <= 0x100_0000_0000,
        ;
    }
    let n: u128 = ma as u128 * p + mb as u128;
    let parts: Parts = round_ratio(n, 1);
    proof {
        power_adds(parts.k as nat, kb as nat);
        let (m, pj, pk) = (parts.m, power(parts.k as nat), power(kb as nat));
        assert((m * pj) * pk == m * (pj * pk)) by (nonlinear_arith);
    }
    assemble(parts.m, parts.k + kb)
}

/// The nearest number to the difference of two.
pub fn minus(x: Single, y: Single) -> (r: Single)
    requires
        y <= x < TOO_LARGE,
    ensures
        value(x) >= value(y),
        value(r) == nearest((value(x) - value(y)) as nat),
{
    let (ma, ka): (u32, u32) = (mantissa_of(x), exponent_of(x));
    let (mb, kb): (u32, u32) = (mantissa_of(y), exponent_of(y));
    proof {
        parts_are_bounded(x);
        parts_are_bounded(y);
        if y < x {
            bits_are_in_order(y, x);
        }
    }
    let d: u32 = ka - kb;
    proof {
        power_adds(d as nat, kb as nat);
        let pd = power(d as nat);
        let pk = power(kb as nat);
        power_positive(kb as nat);
        power_positive(d as nat);
        assert(ma * (pd * pk) - mb * pk == (ma * pd - mb) * pk) by (nonlinear_arith);
        assert(ma * pd >= mb) by (nonlinear_arith)
            requires
                (ma * pd - mb) * pk >= 0,
                pk >= 1,
        ;
        ratio_scales((ma * pd - mb) as nat, 1, kb as nat);
    }
    if d > 40 {
        proof {
            small_is_lost_subtracted(ma as nat, d as nat, mb as nat);
            let pd = power(d as nat);
            let pk = power(kb as nat);
            assert((ma * pd) * pk == ma * (pd * pk)) by (nonlinear_arith);
        }
        return x;
    }
    let p: u128 = power_of(d);
    proof {
        assert(ma * p < 0x1_0000_0000_0000_0000) by (nonlinear_arith)
            requires
                ma < 0x100_0000,
                0 <= p <= 0x100_0000_0000,
        ;
    }
    let n: u128 = ma as u128 * p - mb as u128;
    let parts: Parts = round_ratio(n, 1);
    proof {
        power_adds(parts.k as nat, kb as nat);
        let (m, pj, pk) = (parts.m, power(parts.k as nat), power(kb as nat));
        assert((m * pj) * pk == m * (pj * pk)) by (nonlinear_arith);
    }
    assemble(parts.m, parts.k + kb)
}

/// A ratio is rounded as the same ratio of other numbers.
proof fn ratio_cancels(a: nat, b: nat, c: nat)
    requires
        b > 0,
        c > 0,
    ensures
        nearest_ratio(a * c, b * c) == nearest_ratio(a, b),
{
    vstd::arithmetic::div_mod::lemma_div_denominator((a * c) as int, c as int, b as int);
    vstd::arithmetic::div_mod::lemma_div_multiples_vanish(a as int, c as int);
    assert(c * a == a * c) by (nonlinear_arith);
    assert(c * b == b * c) by (nonlinear_arith);
    assert((a * c) / (b * c) == a / b);
    let s = step(a / b);
    let j = step_power(a / b);
    power_positive(j);
    assert(b * s > 0) by (nonlinear_arith)
        requires
            b > 0,
            s > 0,
    ;
    rounded_scales(a, b * s, c);
    assert((b * c) * s == (b * s) * c) by (nonlinear_arith);
}

/// How many units 1 is: two to this power.
pub const UNIT: u32 = 149;

/// The nearest number to the product of two.
pub open spec fn nearest_product(a: nat, b: nat) -> nat {
    nearest_ratio(a * b, power(UNIT as nat))
}

/// The nearest number to the product of two, one of them at most 1.
pub fn times(x: Single, y: Single) -> (r: Single)
    requires
        x < TOO_LARGE,
        y <= ONE,
    ensures
        value(r) == nearest_product(value(x), value(y)),
{
    let (ma, ka): (u32, u32) = (mantissa_of(x), exponent_of(x));
    let (mb, kb): (u32, u32) = (mantissa_of(y), exponent_of(y));
    proof {
        parts_are_bounded(x);
        parts_are_bounded(y);
        assert(ma * mb < 0x1_0000_0000_0000) by (nonlinear_arith)
            requires
                0 <= ma < 0x100_0000,
                0 <= mb < 0x100_0000,
        ;
    }
    let n: u128 = ma as u128 * mb as u128;
    let k: u32 = ka + kb;
    proof {
        power_adds(ka as nat, kb as nat);
        let (pa, pb) = (power(ka as nat), power(kb as nat));
        assert((ma * pa) * (mb * pb) == (ma * mb) * (pa * pb)) by (nonlinear_arith);
        assert(value(x) * value(y) == n * power(k as nat));
        power_positive(UNIT as nat);
    }
    if k >= UNIT {
        let parts: Parts = round_ratio(n, 1);
        proof {
            let rest = (k - UNIT) as nat;
            power_adds(rest, UNIT as nat);
            let (pr, pu) = (power(rest), power(UNIT as nat));
            assert(n * (pr * pu) == (n * pr) * pu) by (nonlinear_arith);
            whole_ratio(n as nat * pr, pu);
            ratio_scales(n as nat, 1, rest);
            power_adds(parts.k as nat, rest);
            let (m, pj) = (parts.m, power(parts.k as nat));
            assert((m * pj) * pr == m * (pj * pr)) by (nonlinear_arith);
        }
        return assemble(parts.m, parts.k + (k - UNIT));
    }
    let t: u32 = UNIT - k;
    proof {
        power_adds(t as nat, k as nat);
        power_positive(t as nat);
        power_positive(k as nat);
        ratio_cancels(n as nat, power(t as nat), power(k as nat));
    }
    if t > 49 {
        proof {
            let p = power(t as nat);
            power_grows(50, t as nat);
            known_powers();
            vstd::arithmetic::div_mod::lemma_basic_div(n as int, p as int);
            vstd::arithmetic::div_mod::lemma_small_mod(n as nat, p);
            assert(p * 1 == p);
            assert(number::rounded(n as nat, p) == 0);
            assert(0 * power(0) == 0);
        }
        return 0;
    }
    let p: u128 = wide_power(t);
    let parts: Parts = round_ratio(n, p);
    assemble(parts.m, parts.k)
}

fn wide_power(k: u32) -> (r: u128)
    requires
        k <= 49,
    ensures
        r == power(k as nat),
        1 <= r <= 0x4_0000_0000_0000,
{
    proof {
        power_grows(k as nat, 49);
        power_positive(k as nat);
        known_powers();
    }
    if k <= 40 {
        power_of(k)
    } else {
        let high: u128 = power_of(40);
        let low: u128 = power_of(k - 40);
        proof {
            power_adds(40, (k - 40) as nat);
        }
        high * low
    }
}

/// The nearest number to the quotient of a number and a count.
pub fn over(x: Single, n: u32) -> (r: Single)
    requires
        x < TOO_LARGE,
        0 < n <= 0x100_0000,
    ensures
        value(r) == nearest_ratio(value(x), n as nat),
{
    let (m, k): (u32, u32) = (mantissa_of(x), exponent_of(x));
    proof {
        parts_are_bounded(x);
    }
    let g: u32 = if k < 40 {
        k
    } else {
        40
    };
    let p: u128 = power_of(g);
    proof {
        assert(m * p < 0x1_0000_0000_0000_0000) by (nonlinear_arith)
            requires
                0 <= m < 0x100_0000,
                0 <= p <= 0x100_0000_0000,
        ;
    }
    let a: u128 = m as u128 * p;
    let parts: Parts = round_ratio(a, n as u128);
    proof {
        let rest = (k - g) as nat;
        power_adds(g as nat, rest);
        let pr = power(rest);
        assert(m * (p * pr) == (m * p) * pr) by (nonlinear_arith);
        assert(value(x) == a * pr);
        if rest > 0 {
            has_bits_to_spare(m as nat, n as nat);
        }
        quotients_scale(a as nat, n as nat, rest, parts.m as nat, parts.k as nat);
    }
    assemble(parts.m, parts.k + (k - g))
}

proof fn has_bits_to_spare(m: nat, n: nat)
    requires
        m >= 0x80_0000,
        0 < n <= 0x100_0000,
    ensures
        (m * power(40)) / n >= 0x80_0000,
{
    known_powers();
    let a = m * power(40);
    assert(a >= 0x80_0000nat * n) by (nonlinear_arith)
        requires
            a == m * 0x100_0000_0000,
            m >= 0x80_0000,
            n <= 0x100_0000,
    ;
    vstd::arithmetic::div_mod::lemma_div_is_ordered(0x80_0000 * n as int, a as int, n as int);
    vstd::arithmetic::div_mod::lemma_div_multiples_vanish(0x80_0000, n as int);
}

proof fn quotients_scale(a: nat, n: nat, rest: nat, q: nat, j: nat)
    requires
        n > 0,
        rest == 0 || a / n >= 0x80_0000,
        nearest_ratio(a, n) == q * power(j),
    ensures
        nearest_ratio(a * power(rest), n) == q * power(j + rest),
{
    if rest == 0 {
        assert(power(0) == 1);
        assert(a * 1 == a);
    } else {
        ratio_scales(a, n, rest);
        power_adds(j, rest);
        let (pj, pr) = (power(j), power(rest));
        assert((q * pj) * pr == q * (pj * pr)) by (nonlinear_arith);
    }
}

/// How many units 1 is.
pub proof fn one_in_units()
    ensures
        value(ONE) == power(UNIT as nat),
{
    mantissa_powers();
    power_adds(23, 126);
}

/// What is at most as many as two to the power of 24 ones can be counted with.
pub proof fn counts_are_small(x: Single)
    requires
        value(x) <= 0x100_0000 * power(UNIT as nat),
    ensures
        x < TOO_LARGE,
{
    if x >= TOO_LARGE {
        if x > TOO_LARGE {
            bits_are_in_order(TOO_LARGE, x);
        }
        assert(exponent(TOO_LARGE) == 253 && mantissa(TOO_LARGE) == 0x80_0000);
        power_grows(151, 253);
        power_positive(149);
        assert(power(151) == 2 * power(150));
        assert(power(150) == 2 * power(149));
        let (big, p) = (power(253), power(149));
        assert(0x80_0000nat * big > 0x100_0000nat * p) by (nonlinear_arith)
            requires
                big >= 4 * p,
                p >= 1,
        ;
        assert(value(TOO_LARGE) == 0x80_0000nat * big);
    }
}

/// A number times one that is at most 1 is no larger.
pub proof fn products_are_smaller(x: Single, y: Single)
    requires
        y <= ONE,
    ensures
        nearest_product(value(x), value(y)) <= value(x),
{
    one_in_units();
    if y < ONE {
        bits_are_in_order(y, ONE);
    }
    parts_are_bounded(x);
    let (a, b, u) = (value(x), value(y), power(UNIT as nat));
    power_positive(UNIT as nat);
    assert(a * b <= a * u) by (nonlinear_arith)
        requires
            b <= u,
    ;
    nearest_between(a * b, u, a, mantissa(x), exponent(x));
}

/// A number times three tenths, as far as they are one, is at most half of it.
pub proof fn three_tenths_are_less_than_half(x: Single)
    ensures
        nearest_product(value(x), value(THREE_TENTHS)) <= value(x) / 2,
{
    let (a, v, u) = (value(x), value(THREE_TENTHS), power(UNIT as nat));
    power_positive(124);
    power_adds(25, 124);
    mantissa_powers();
    assert(exponent(THREE_TENTHS) == 124 && mantissa(THREE_TENTHS) == 10066330);
    assert(3 * v <= u && 2 * v < u) by (nonlinear_arith)
        requires
            v == 10066330 * power(124),
            u == 0x200_0000 * power(124),
            power(124) >= 1,
    ;
    parts_are_bounded(x);
    let half = a / 2;
    let (m, e) = (mantissa(x), exponent(x));
    if a == 0 {
        assert(a * v == 0);
        nearest_between(0, u, 0, 0, 0);
        assert(0 * u == 0);
        assert(0 * power(0) == 0);
    } else if a == 1 {
        assert(1 * v == v);
        vstd::arithmetic::div_mod::lemma_basic_div(v as int, u as int);
        vstd::arithmetic::div_mod::lemma_small_mod(v, u);
        assert(u * 1 == u);
        assert(number::rounded(v, u) == 0);
    } else {
        assert(a * v <= half * u) by (nonlinear_arith)
            requires
                3 * v <= u,
                3 * half >= a,
        ;
        if e == 0 {
            assert(power(0) == 1);
            assert(m * 1 == m);
            assert(half * 1 == half);
            nearest_between(a * v, u, half, half, 0);
        } else {
            let p = power((e - 1) as nat);
            assert(m * (2 * p) == 2 * (m * p)) by (nonlinear_arith);
            assert(half == m * p);
            nearest_between(a * v, u, half, m, (e - 1) as nat);
        }
    }
}

/// Rounding at most doubles.
pub proof fn rounding_at_most_doubles(n: nat)
    ensures
        nearest(n) <= 2 * n,
{
    let j = step_power(n);
    let s = step(n);
    power_positive(j);
    assert(n / 1 == n);
    assert(1 * s == s);
    if j == 0 {
        rounded_between(n, 1, n);
        assert(n * 1 == n);
    } else {
        let q = n / s;
        vstd::arithmetic::div_mod::lemma_fundamental_div_mod(n as int, s as int);
        let got = number::rounded(n, s);
        assert(got <= q + 1);
        let r: int = n as int % s as int;
        assert(got * s <= n + s) by (nonlinear_arith)
            requires
                got <= q + 1,
                n == s * q + r,
                r >= 0,
        ;
    }
}

/// The bits of a number with two decimals.
pub proof fn nearest_to_hundredths(x: Single, n: nat, e: nat)
    requires
        24 <= e <= 28,
        exponent(x) == UNIT - e,
        0x80_0000 <= n * power(e) / 100 < 0x100_0000,
        number::rounded(n * power(e), 100) == mantissa(x),
    ensures
        value(x) == nearest_ratio(n * power(UNIT as nat), 100),
{
    let k = (UNIT - e) as nat;
    power_adds(e, k);
    let (pe, pk) = (power(e), power(k));
    assert(n * (pe * pk) == (n * pe) * pk) by (nonlinear_arith);
    ratio_scales(n * pe, 100, k);
    let got = number::rounded(n * pe, 100);
    assert(100 * 1 == 100);
    assert(got * 1 == got);
}

// ── Laws ────────────────────────────────────────────────────────────────────

/// Rounding keeps numbers, and passes over none: what is at most a number is
/// rounded to at most it, and what is at least a number to at least it.
pub proof fn rounding_keeps_the_order(n: nat, x: Single)
    ensures
        n <= value(x) ==> nearest(n) <= value(x),
        n >= value(x) ==> nearest(n) >= value(x),
        nearest(value(x)) == value(x),
{
    parts_are_bounded(x);
    assert(value(x) * 1 == value(x));
    nearest_between(n, 1, value(x), mantissa(x), exponent(x));
    nearest_between(value(x), 1, value(x), mantissa(x), exponent(x));
}

/// What is at most `count` ones, few enough, is rounded to at most as many.
pub proof fn rounding_keeps_counts(n: nat, count: nat)
    requires
        count <= 0x100_0000,
        n <= count * power(UNIT as nat),
    ensures
        nearest(n) <= count * power(UNIT as nat),
{
    let m = count * power(UNIT as nat);
    assert(m * 1 == m);
    nearest_between(n, 1, m, count, UNIT as nat);
}

} // verus!
