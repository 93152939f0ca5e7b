//! Rounding to double precision, worked out on whole numbers.

use vstd::arithmetic::div_mod::lemma_fundamental_div_mod;
use vstd::prelude::*;

verus! {

/// `a / b` rounded to the nearest integer, ties to the even one.
pub open spec fn round_even(a: nat, b: nat) -> nat
    recommends
        b > 0,
{
    let q = a / b;
    let r = a % b;
    if 2 * r > b || (2 * r == b && q % 2 == 1) {
        q + 1
    } else {
        q
    }
}

/// The spacing of double-precision numbers around `n`.
pub open spec fn double_step(n: nat) -> nat
    decreases n,
{
    if n < 0x20_0000_0000_0000 {
        1
    } else {
        2 * double_step(n / 2)
    }
}

/// The double-precision number nearest to `n`.
pub open spec fn nearest_double(n: nat) -> nat {
    round_even(n, double_step(n)) * double_step(n)
}

/// The double-precision number nearest to `a / b`, where that is 0 or at least 2^52.
pub open spec fn nearest_quotient(a: nat, b: nat) -> nat
    recommends
        b > 0,
        a == 0 || a / b >= 0x10_0000_0000_0000,
{
    round_even(a, b * double_step(a / b)) * double_step(a / b)
}

/// Rounding goes to the nearest whole number: at most half a step away, and to the even one of two that
/// are equally near.
pub proof fn law_rounding_is_to_the_nearest(a: nat, b: nat)
    requires
        b > 0,
    ensures
        2 * (round_even(a, b) * b - a) <= b,
        2 * (a - round_even(a, b) * b) <= b,
        2 * (round_even(a, b) * b - a) == b || 2 * (a - round_even(a, b) * b) == b ==> round_even(a, b) % 2 == 0,
{
    let q = a / b;
    let r = a % b;
    lemma_fundamental_div_mod(a as int, b as int);
    assert(q * b == b * q) by (nonlinear_arith);
    assert((q + 1) * b == q * b + b) by (nonlinear_arith);
}

/// Every whole number below 2^53 is a double-precision number. Above, rounding to one is off by at most
/// one part in 2^53.
pub proof fn law_doubles_are_close(n: nat)
    ensures
        n < 0x20_0000_0000_0000 ==> nearest_double(n) == n,
        (nearest_double(n) - n) * 0x20_0000_0000_0000 <= n,
        (n - nearest_double(n)) * 0x20_0000_0000_0000 <= n,
{
    lemma_double_step_small(n);
    let g = double_step(n);
    law_rounding_is_to_the_nearest(n, g);
    if g == 1 {
        assert(round_even(n, 1) == n);
    }
}

pub(crate) fn round_even_exec(a: u128, b: u128) -> (r: u128)
    requires
        0 < b <= 0x1_0000_0000_0000_0000_0000_0000,
        a <= 0x7fff_ffff_ffff_ffff_ffff_ffff_ffff_ffff,
    ensures
        r == round_even(a as nat, b as nat),
        a / b <= r <= a / b + 1,
{
    let q: u128 = a / b;
    let r: u128 = a % b;
    proof {
        assert(a / b <= a) by (nonlinear_arith)
            requires
                b > 0u128,
        ;
    }
    if 2 * r > b || (2 * r == b && q % 2 == 1) {
        q + 1
    } else {
        q
    }
}

pub(crate) fn double_step_exec(n: u128) -> (g: u128)
    ensures
        g == double_step(n as nat),
        g == 1 || (0 < g && g * 0x10_0000_0000_0000 <= n),
    decreases n,
{
    if n < 0x20_0000_0000_0000 {
        1
    } else {
        2 * double_step_exec(n / 2)
    }
}

pub(crate) fn nearest_double_exec(n: u128) -> (r: u128)
    requires
        n <= 0x7fff_ffff_ffff_ffff_ffff_ffff_ffff_ffff,
    ensures
        r == nearest_double(n as nat),
        r <= 2 * n,
{
    let g: u128 = double_step_exec(n);
    let q: u128 = round_even_exec(n, g);
    proof {
        lemma_nearest_double_bounds(n as nat);
    }
    q * g
}

/// Rounding to double precision at most doubles a number, and at most halves it.
pub(crate) proof fn lemma_nearest_double_bounds(n: nat)
    ensures
        n <= 2 * nearest_double(n),
        nearest_double(n) <= 2 * n,
{
    lemma_double_step_small(n);
    let g = double_step(n);
    let q = n / g;
    lemma_fundamental_div_mod(n as int, g as int);
    assert(q * g == g * q) by (nonlinear_arith);
    assert((q + 1) * g == q * g + g) by (nonlinear_arith);
}

pub(crate) proof fn lemma_double_step_small(n: nat)
    ensures
        double_step(n) == 1 || (0 < double_step(n) && double_step(n) * 0x10_0000_0000_0000 <= n),
    decreases n,
{
    if n >= 0x20_0000_0000_0000 {
        lemma_double_step_small(n / 2);
    }
}

} // verus!
