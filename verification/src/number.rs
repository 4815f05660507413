//! Double-precision numbers, as far as they are shown with one decimal.
use vstd::prelude::*;

use crate::text;

verus! {

/// `a / b` to the nearest integer, a half to the even one.
pub open spec fn rounded(a: nat, b: nat) -> nat {
    let q = a / b;
    let r = a % b;
    if 2 * r > b || (2 * r == b && q % 2 == 1) {
        q + 1
    } else {
        q
    }
}

/// `a / b` to the nearest integer, a half to the even one.
pub fn rounded_of(a: u128, b: u128) -> (r: u128)
    requires
        0 < b <= 0xffff_ffff_ffff_ffff,
        a <= 0xff_ffff_ffff_ffff_ffff_ffff_ffff_ffff,
    ensures
        r == rounded(a as nat, b as nat),
        r <= a / b + 1,
        r <= a + 1,
{
    let q: u128 = a / b;
    let m: u128 = a % b;
    proof {
        assert(a / b <= a) by (nonlinear_arith)
            requires
                b > 0,
        ;
    }
    if 2 * m > b || (2 * m == b && q % 2 == 1) {
        q + 1
    } else {
        q
    }
}

/// The spacing of the double-precision numbers at `n`.
pub open spec fn spacing(n: nat) -> nat
    decreases n,
{
    if n < 0x20_0000_0000_0000 {
        1
    } else {
        2 * spacing(n / 2)
    }
}

/// The integer `n` as a double-precision number holds it.
pub open spec fn nearest_double(n: nat) -> nat {
    rounded(n, spacing(n)) * spacing(n)
}

fn spacing_of(n: u64) -> (r: u64)
    ensures
        r == spacing(n as nat),
    decreases n,
{
    if n < 0x20_0000_0000_0000 {
        1
    } else {
        proof {
            spacing_bound((n / 2) as nat);
        }
        2 * spacing_of(n / 2)
    }
}

proof fn spacing_bound(n: nat)
    requires
        n <= u64::MAX,
    ensures
        0 < spacing(n) <= 4096,
        n >= 0x10_0000_0000_0000 ==> spacing(n) * 0x10_0000_0000_0000 <= n,
    decreases n,
{
    if n >= 0x20_0000_0000_0000 {
        spacing_bound(n / 2);
    }
}

/// A double-precision number holds an integer up to 2^53 exactly, and a larger
/// one of 64 bits to within 4096.
pub proof fn doubles_are_near(n: nat)
    requires
        n <= u64::MAX,
    ensures
        n - 4096 <= nearest_double(n) <= n + 4096,
        n < 0x20_0000_0000_0000 ==> nearest_double(n) == n,
{
    let step = spacing(n);
    spacing_bound(n);
    let m = rounded(n, step);
    let q: int = n as int / step as int;
    vstd::arithmetic::div_mod::lemma_fundamental_div_mod(n as int, step as int);
    assert(q * step == step * q) by (nonlinear_arith);
    assert((q + 1) * step == q * step + step) by (nonlinear_arith);
    assert(m == q || m == q + 1);
    if step == 1 {
        assert(m * step == m);
    }
}

/// The integer `n` as a double-precision number holds it.
pub fn nearest_double_of(n: u64) -> (r: u128)
    ensures
        r == nearest_double(n as nat),
        n - 4096 <= r <= n + 4096,
        n < 0x20_0000_0000_0000 ==> r == n,
{
    let step: u64 = spacing_of(n);
    proof {
        spacing_bound(n as nat);
    }
    let m: u128 = rounded_of(n as u128, step as u128);
    proof {
        doubles_are_near(n as nat);
    }
    m * (step as u128)
}

/// The power of two that takes `n / d`, if it is smaller, to at least 2^52:
/// a double-precision number holds the integers from there up to 2^53.
pub open spec fn scale(n: nat, d: nat) -> nat
    decreases
            (if n < d * 0x10_0000_0000_0000 {
                d * 0x10_0000_0000_0000 - n
            } else {
                0
            }),
{
    if n == 0 || n >= d * 0x10_0000_0000_0000 {
        1
    } else {
        2 * scale(2 * n, d)
    }
}

/// The tenths in `n / d`, where numerator and quotient are double-precision
/// numbers, to the nearest integer.
pub open spec fn tenths(n: nat, d: nat) -> nat {
    let k = nearest_double(n);
    let s = scale(k, d);
    rounded(rounded(k * s, d) * 10, s)
}

/// The tenths in `n / d`.
pub fn tenths_of(n: u64, d: u64) -> (r: u64)
    requires
        4097 <= d <= n || (0 < d <= n && n < 0x20_0000_0000_0000),
        n + 4096 < d * 0x10_0000_0000_0000,
        nearest_double(n as nat) >= d,
    ensures
        r == tenths(n as nat, d as nat),
{
    let k: u128 = nearest_double_of(n);
    let top: u128 = d as u128 * 0x10_0000_0000_0000;
    let mut x: u128 = k;
    let mut s: u128 = 1;
    proof {
        assert(k * 1 == k);
        assert(1 * scale(k as nat, d as nat) == scale(k as nat, d as nat));
    }
    while x < top
        invariant
            d > 0,
            top == d * 0x10_0000_0000_0000,
            x == k * s,
            d * s <= x,
            0 < x < 2 * top,
            s > 0,
            s * scale(x as nat, d as nat) == scale(k as nat, d as nat),
        decreases 2 * top - x,
    {
        proof {
            let y = x as nat;
            let t = scale(2 * y, d as nat);
            assert(scale(y, d as nat) == 2 * t);
            assert((2 * s) * t == s * (2 * t)) by (nonlinear_arith);
            assert(k * (2 * s) == 2 * (k * s)) by (nonlinear_arith);
            assert(d * (2 * s) == 2 * (d * s)) by (nonlinear_arith);
        }
        proof {
            assert(s <= x) by (nonlinear_arith)
                requires
                    d * s <= x,
                    d > 0,
            ;
        }
        x = 2 * x;
        s = 2 * s;
    }
    proof {
        assert(scale(x as nat, d as nat) == 1);
        assert(s * 1 == s);
        assert(s < 0x20_0000_0000_0000) by (nonlinear_arith)
            requires
                d * s <= x,
                x < 2 * (d * 0x10_0000_0000_0000),
                d > 0,
        ;
    }
    let m: u128 = rounded_of(x, d as u128);
    proof {
        let q: int = x as int / d as int;
        assert(q < 0x20_0000_0000_0000) by (nonlinear_arith)
            requires
                q == x as int / d as int,
                x < 2 * (d * 0x10_0000_0000_0000),
                d > 0,
        ;
    }
    let t: u128 = rounded_of(m * 10, s);
    t as u64
}

/// A quantity with one decimal.
pub open spec fn tenths_text(t: nat) -> Seq<char> {
    text::decimal(t / 10) + "."@ + text::decimal(t % 10)
}

/// A quantity with one decimal.
pub fn push_tenths(out: &mut String, t: u64)
    ensures
        final(out)@ == old(out)@ + tenths_text(t as nat),
{
    text::push_decimal(out, t / 10);
    out.append(".");
    text::push_decimal(out, t % 10);
    proof {
        assert(out@ =~= old(out)@ + tenths_text(t as nat));
    }
}

} // verus!
