//! Counts as double-precision numbers show them: rounded to 53 binary digits, and
//! written with the fewest decimal digits that denote the rounded number.

use crate::text;
use vstd::prelude::*;

verus! {

/// How far a number of the size of `v` is from the next larger one that has 53
/// binary digits.
pub open spec fn spacing(v: nat) -> nat
    decreases v,
{
    if v < 0x20_0000_0000_0000 {
        1
    } else {
        2 * spacing(v / 2)
    }
}

/// The number of 53 binary digits that is nearest to `n`; of two, the even one.
pub open spec fn nearest(n: nat) -> nat {
    let step = spacing(n);
    let rest = n % step;
    let low = (n - rest) as nat;
    if 2 * rest < step || (2 * rest == step && (low / step) % 2 == 0) {
        low
    } else {
        low + step
    }
}

/// Whether a number at `distance` from `v` denotes `v`: where it is closer than
/// `reach`, or just as far and `v` is even in its last binary digit.
pub open spec fn is_near(v: nat, distance: nat, reach: nat) -> bool {
    distance < reach || (distance == reach && (v / spacing(v)) % 2 == 0)
}

/// Whether the number `distance` below `v` denotes `v`: where it is no more than
/// half-way to the next smaller one. Below a power of two these lie twice as close.
pub open spec fn denotes_from_below(v: nat, distance: nat) -> bool {
    if v / spacing(v) == 0x10_0000_0000_0000 {
        is_near(v, 4 * distance, spacing(v))
    } else {
        is_near(v, 2 * distance, spacing(v))
    }
}

/// Whether the number `distance` above `v` denotes `v`: where it is no more than
/// half-way to the next larger one.
pub open spec fn denotes_from_above(v: nat, distance: nat) -> bool {
    is_near(v, 2 * distance, spacing(v))
}

/// The number one followed by `zeros` zeros.
pub open spec fn power(zeros: nat) -> nat
    decreases zeros,
{
    if zeros == 0 {
        1
    } else {
        10 * power((zeros - 1) as nat)
    }
}

/// The number with the most zeros at its end, of at most `zeros`, that denotes
/// `v`; of two, the nearer one, and the larger one of two as near.
pub open spec fn shortened(v: nat, zeros: nat) -> nat
    decreases zeros,
{
    let unit = power(zeros);
    let rest = v % unit;
    let low = (v - rest) as nat;
    let down = denotes_from_below(v, rest);
    let up = denotes_from_above(v, (unit - rest) as nat);
    if zeros == 0 {
        v
    } else if up && (!down || 2 * rest >= unit) {
        low + unit
    } else if down {
        low
    } else {
        shortened(v, (zeros - 1) as nat)
    }
}

/// The number that is shown for `n`.
pub open spec fn shown(n: nat) -> nat {
    shortened(nearest(n), 19)
}

proof fn lemma_power(zeros: nat)
    ensures
        power(zeros) >= 1,
    decreases zeros,
{
    if zeros > 0 {
        lemma_power((zeros - 1) as nat);
    }
}

proof fn lemma_exact(v: nat, zeros: nat)
    requires
        v < 0x20_0000_0000_0000,
    ensures
        shortened(v, zeros) == v,
    decreases zeros,
{
    if zeros > 0 {
        let unit = power(zeros);
        lemma_power(zeros);
        assert(v % unit < unit);
        lemma_exact(v, (zeros - 1) as nat);
    }
}

/// A count of at most 53 binary digits is shown as it is.
pub proof fn small_count_is_exact(n: nat)
    requires
        n < 0x20_0000_0000_0000,
    ensures
        shown(n) == n,
{
    lemma_exact(n, 19);
}

fn spacing_of(v: u128) -> (step: u128)
    ensures
        step == spacing(v as nat),
        1 <= step,
        step <= v || step == 1,
    decreases v,
{
    if v < 0x20_0000_0000_0000 {
        1
    } else {
        2 * spacing_of(v / 2)
    }
}

fn near(v: u128, distance: u128, reach: u128) -> (yes: bool)
    ensures
        yes == is_near(v as nat, distance as nat, reach as nat),
{
    distance < reach || (distance == reach && (v / spacing_of(v)) % 2 == 0)
}

fn from_below(v: u128, distance: u128) -> (yes: bool)
    requires
        distance <= 0x1_0000_0000_0000_0000,
    ensures
        yes == denotes_from_below(v as nat, distance as nat),
{
    let step: u128 = spacing_of(v);
    if v / step == 0x10_0000_0000_0000 {
        near(v, 4 * distance, step)
    } else {
        near(v, 2 * distance, step)
    }
}

fn from_above(v: u128, distance: u128) -> (yes: bool)
    requires
        distance <= 0x1_0000_0000_0000_0000,
    ensures
        yes == denotes_from_above(v as nat, distance as nat),
{
    near(v, 2 * distance, spacing_of(v))
}

fn nearest_of(n: u128) -> (v: u128)
    requires
        n < 0x1_0000_0000_0000_0000,
    ensures
        v == nearest(n as nat),
        v <= 0x2_0000_0000_0000_0000,
{
    let step: u128 = spacing_of(n);
    let rest: u128 = n % step;
    let low: u128 = n - rest;
    if 2 * rest < step || (2 * rest == step && (low / step) % 2 == 0) {
        low
    } else {
        low + step
    }
}

fn shortened_of(v: u128, zeros: u32, unit: u128) -> (short: u128)
    requires
        v <= 0x2_0000_0000_0000_0000,
        unit == power(zeros as nat),
        unit <= 0x1_0000_0000_0000_0000,
    ensures
        short == shortened(v as nat, zeros as nat),
    decreases zeros,
{
    if zeros == 0 {
        return v;
    }
    proof {
        lemma_power((zeros - 1) as nat);
    }
    let rest: u128 = v % unit;
    assert(v % unit <= v) by (nonlinear_arith)
        requires
            unit >= 1,
    ;
    let low: u128 = v - rest;
    let down: bool = from_below(v, rest);
    let up: bool = from_above(v, unit - rest);
    if up && (!down || 2 * rest >= unit) {
        low + unit
    } else if down {
        low
    } else {
        shortened_of(v, zeros - 1, unit / 10)
    }
}

fn digits_text(n: u128) -> (out: String)
    ensures
        out@ == text::decimal(n as nat),
    decreases n,
{
    if n < 10 {
        let mut out = String::new();
        out.push((0x30u8 + n as u8) as char);
        assert(out@ =~= text::decimal(n as nat));
        out
    } else {
        let mut out = digits_text(n / 10);
        out.push((0x30u8 + (n % 10) as u8) as char);
        out
    }
}

/// The decimal notation of the number that is shown for `n`.
pub fn rounded_text(n: usize) -> (out: String)
    ensures
        out@ == text::decimal(shown(n as nat)),
{
    proof {
        reveal_with_fuel(power, 20);
        assert(power(19) == 10_000_000_000_000_000_000);
    }
    let v: u128 = nearest_of(n as u128);
    digits_text(shortened_of(v, 19, 10_000_000_000_000_000_000))
}

} // verus!
