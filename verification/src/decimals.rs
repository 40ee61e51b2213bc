//! Fractions in decimal form, with a fixed number of places.
//!
//! The fractions are those of whole numbers by powers of ten, and they are shown as a number of the
//! double precision format is that lies nearest to them. This matters only where a fraction lies halfway
//! between two decimal forms: the double decides which one is nearer.
use vstd::prelude::*;

use crate::text::{append, digit_char, digits, push_digits, to_digit};

verus! {

/// 2 to the power of 52: the doubles from here to twice as much are the whole numbers.
pub const DOUBLE_RANGE: u128 = 0x10_0000_0000_0000;

/// `m` doubled until it reaches `floor`.
pub open spec fn doubled_to(m: int, floor: int) -> int
    decreases
            if m < floor {
                floor - m
            } else {
                0
            },
{
    if m <= 0 || m >= floor {
        m
    } else {
        doubled_to(2 * m, floor)
    }
}

/// On which side of a fraction the double lies that is nearest to it.
#[derive(Debug, Clone, Copy, PartialEq, Eq, Structural)]
pub enum Side {
    Below,
    Exact,
    Above,
}

/// On which side of `n / d` the nearest double lies. Scaled by a power of two into the range where the
/// doubles are the whole numbers, the fraction is rounded to the nearest of them, and to the even one of
/// two that are equally near.
pub open spec fn double_side(n: int, d: int) -> Side {
    let m = doubled_to(n, DOUBLE_RANGE * d);
    let rest = m % d;
    if rest == 0 {
        Side::Exact
    } else if 2 * rest > d || 2 * rest == d && (m / d) % 2 == 1 {
        Side::Above
    } else {
        Side::Below
    }
}

/// `n / d` in units of `unit / d`, rounded as the nearest double is, and to the even one of two that are
/// equally near to it.
pub open spec fn rounded(n: int, d: int, unit: int) -> int {
    let low = n / unit;
    let rest = n % unit;
    let up = 2 * rest > unit || 2 * rest == unit && match double_side(n, d) {
        Side::Above => true,
        Side::Exact => low % 2 == 1,
        Side::Below => false,
    };
    if up {
        low + 1
    } else {
        low
    }
}

/// The last `places` digits of a number.
pub open spec fn last_digits(n: nat, places: nat) -> Seq<char>
    decreases places,
{
    if places == 0 {
        Seq::empty()
    } else {
        last_digits(n / 10, (places - 1) as nat).push(digit_char(n % 10))
    }
}

/// 10 to a power.
pub open spec fn power_of_ten(places: nat) -> nat
    decreases places,
{
    if places == 0 {
        1
    } else {
        10 * power_of_ten((places - 1) as nat)
    }
}

/// A number of units as a decimal number, where 10 to the power of `places` of them make one.
pub open spec fn decimal_form(units: nat, places: nat) -> Seq<char> {
    digits(units / power_of_ten(places)) + seq!['.'] + last_digits(units, places)
}

fn find_side(n: u32, d: u32) -> (r: Side)
    requires
        n > 0,
        1 <= d <= 1_000_000,
    ensures
        r == double_side(n as int, d as int),
{
    let floor: u128 = DOUBLE_RANGE * d as u128;
    let mut m: u128 = n as u128;
    while m < floor
        invariant
            floor == DOUBLE_RANGE * d,
            1 <= d <= 1_000_000,
            0 < m < 2 * floor,
            doubled_to(m as int, floor as int) == doubled_to(n as int, floor as int),
        decreases
                if m < floor {
                    floor - m
                } else {
                    0
                },
    {
        m = 2 * m;
    }
    let rest: u128 = m % d as u128;
    if rest == 0 {
        Side::Exact
    } else if 2 * rest > d as u128 || 2 * rest == d as u128 && (m / d as u128) % 2 == 1 {
        Side::Above
    } else {
        Side::Below
    }
}

/// `n / d` in units of `unit / d`, rounded as the nearest double is.
pub fn round_units(n: u32, d: u32, unit: u32) -> (r: u32)
    requires
        1 <= d <= 1_000_000,
        2 <= unit <= 1_000_000,
    ensures
        r == rounded(n as int, d as int, unit as int),
{
    let low: u32 = n / unit;
    let rest: u32 = n % unit;
    proof {
        vstd::arithmetic::div_mod::lemma_div_is_ordered_by_denominator(n as int, 2, unit as int);
        vstd::arithmetic::div_mod::lemma_mod_bound(n as int, unit as int);
        if n == 0 {
            vstd::arithmetic::div_mod::lemma_small_mod(0, unit as nat);
        }
    }
    if 2 * rest > unit {
        low + 1
    } else if 2 * rest < unit {
        low
    } else {
        match find_side(n, d) {
            Side::Above => low + 1,
            Side::Exact => if low % 2 == 1 {
                low + 1
            } else {
                low
            },
            Side::Below => low,
        }
    }
}

/// Appends the last digits of a number.
fn push_last_digits(s: &mut String, n: u32, places: u32)
    ensures
        final(s)@ == old(s)@ + last_digits(n as nat, places as nat),
    decreases places,
{
    if places > 0 {
        push_last_digits(s, n / 10, places - 1);
        s.push(to_digit((n % 10) as u64));
    }
    assert(s@ =~= old(s)@ + last_digits(n as nat, places as nat));
}

fn ten_to(places: u32) -> (r: u32)
    requires
        places <= 9,
    ensures
        r == power_of_ten(places as nat),
        1 <= r <= 1_000_000_000,
    decreases places,
{
    reveal_with_fuel(power_of_ten, 10);
    match places {
        0 => 1,
        1 => 10,
        2 => 100,
        3 => 1_000,
        4 => 10_000,
        5 => 100_000,
        6 => 1_000_000,
        7 => 10_000_000,
        8 => 100_000_000,
        _ => 1_000_000_000,
    }
}

/// Appends a number of units as a decimal number, where 10 to the power of `places` of them make one.
pub fn push_decimal_form(s: &mut String, units: u32, places: u32)
    requires
        places <= 9,
    ensures
        final(s)@ == old(s)@ + decimal_form(units as nat, places as nat),
{
    let one: u32 = ten_to(places);
    push_digits(s, (units / one) as u64);
    append(s, ".");
    proof {
        reveal_strlit(".");
        assert("."@ =~= seq!['.']);
    }
    push_last_digits(s, units, places);
    assert(s@ =~= old(s)@ + decimal_form(units as nat, places as nat));
}

/// A number is rounded to the nearest multiple of a unit.
pub proof fn law_the_nearest_unit(n: u32, d: u32, unit: u32, r: u32)
    requires
        1 <= d <= 1_000_000,
        2 <= unit <= 1_000_000,
        call_ensures(round_units, (n, d, unit), r),
    ensures
        2 * (r * unit - n) <= unit,
        2 * (n - r * unit) <= unit,
{
    let m = n as int;
    let u = unit as int;
    assert(m == u * (m / u) + m % u && 0 <= m % u < u) by (nonlinear_arith)
        requires
            u > 0,
    ;
    let low = m / u;
    assert((low + 1) * u == low * u + u && u * low == low * u) by (nonlinear_arith);
}

pub(crate) proof fn lemma_tenths(units: nat)
    ensures
        decimal_form(units, 1) == digits(units / 10) + seq!['.'] + seq![digit_char(units % 10)],
{
    reveal_with_fuel(power_of_ten, 2);
    reveal_with_fuel(last_digits, 2);
    assert(last_digits(units, 1) =~= seq![digit_char(units % 10)]);
}

pub(crate) proof fn lemma_hundredths(units: nat)
    ensures
        decimal_form(units, 2) == digits(units / 100) + seq!['.'] + crate::utils::two_places(
            (units % 100) as int,
        ),
{
    reveal_with_fuel(power_of_ten, 3);
    reveal_with_fuel(last_digits, 3);
    assert((units / 10) % 10 == (units % 100) / 10);
    assert((units % 100) % 10 == units % 10);
    assert(last_digits(units, 2) =~= crate::utils::two_places((units % 100) as int));
}

}
