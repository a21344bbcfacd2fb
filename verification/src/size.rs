//! Byte counts in human units.
//!
//! A count is shown in the first unit, going up from bytes, whose range it
//! does not exceed. Each unit is 1024 times the one before and reaches up to
//! and including 1024 of itself, so 1024 bytes are still shown in bytes and
//! one byte more is shown in K. Counts beyond the last unit are shown in G.

use vstd::prelude::*;
use vstd::arithmetic::div_mod::lemma_fundamental_div_mod;
use vstd::arithmetic::div_mod::lemma_fundamental_div_mod_converse;
use crate::color::{bright, plain, Color, Hue};
use crate::text::{
    decimal, lemma_right_aligned_len, push_decimal, push_right_aligned, right_aligned,
};

verus! {

/// The units of a size, smallest first.
#[derive(Clone, Copy, PartialEq, Eq, Debug, Structural)]
pub enum SizeUnit {
    B,
    K,
    M,
    G,
    T,
    P,
    E,
    Z,
    Y,
}

/// The width of the number in a size field.
pub const SIZE_WIDTH: usize = 4;

/// The place of a unit in the ascending order of units.
pub open spec fn unit_rank(unit: SizeUnit) -> nat {
    match unit {
        SizeUnit::B => 0,
        SizeUnit::K => 1,
        SizeUnit::M => 2,
        SizeUnit::G => 3,
        SizeUnit::T => 4,
        SizeUnit::P => 5,
        SizeUnit::E => 6,
        SizeUnit::Z => 7,
        SizeUnit::Y => 8,
    }
}

/// 1024 to the power `rank`.
pub open spec fn kibi_power(rank: nat) -> nat
    decreases rank,
{
    if rank == 0 {
        1
    } else {
        1024 * kibi_power((rank - 1) as nat)
    }
}

/// The number of bytes in one `unit`.
pub open spec fn unit_scale(unit: SizeUnit) -> nat {
    kibi_power(unit_rank(unit))
}

/// The largest byte count that is shown in `unit`.
pub open spec fn unit_limit(unit: SizeUnit) -> nat {
    kibi_power(unit_rank(unit) + 1)
}

/// The unit a count of `n` bytes is shown in.
pub open spec fn size_unit(n: nat) -> SizeUnit {
    if n <= unit_limit(SizeUnit::B) {
        SizeUnit::B
    } else if n <= unit_limit(SizeUnit::K) {
        SizeUnit::K
    } else if n <= unit_limit(SizeUnit::M) {
        SizeUnit::M
    } else if n <= unit_limit(SizeUnit::G) {
        SizeUnit::G
    } else if n <= unit_limit(SizeUnit::T) {
        SizeUnit::T
    } else if n <= unit_limit(SizeUnit::P) {
        SizeUnit::P
    } else if n <= unit_limit(SizeUnit::E) {
        SizeUnit::E
    } else if n <= unit_limit(SizeUnit::Z) {
        SizeUnit::Z
    } else if n <= unit_limit(SizeUnit::Y) {
        SizeUnit::Y
    } else {
        SizeUnit::G
    }
}

/// The letter that names a unit.
pub open spec fn unit_letter(unit: SizeUnit) -> u8 {
    match unit {
        SizeUnit::B => 66,
        SizeUnit::K => 75,
        SizeUnit::M => 77,
        SizeUnit::G => 71,
        SizeUnit::T => 84,
        SizeUnit::P => 80,
        SizeUnit::E => 69,
        SizeUnit::Z => 90,
        SizeUnit::Y => 89,
    }
}

/// The colour a unit is shown in.
pub open spec fn unit_color(unit: SizeUnit) -> Color {
    match unit {
        SizeUnit::B => plain(Hue::White),
        SizeUnit::K => plain(Hue::Yellow),
        SizeUnit::M => plain(Hue::Red),
        SizeUnit::G => plain(Hue::Purple),
        SizeUnit::T => plain(Hue::Green),
        SizeUnit::P => plain(Hue::Cyan),
        SizeUnit::E => bright(Hue::Green),
        SizeUnit::Z => bright(Hue::Red),
        SizeUnit::Y => bright(Hue::White),
    }
}

/// The whole number nearest to `n / d`; a half goes up.
pub open spec fn nearest(n: nat, d: nat) -> nat {
    (2 * n + d) / (2 * d)
}

/// The whole number nearest to `n / d`; a half goes to the even neighbour.
pub open spec fn nearest_even(n: nat, d: nat) -> nat {
    let below = n / d;
    let rest = n % d;
    if 2 * rest > d || (2 * rest == d && below % 2 == 1) {
        below + 1
    } else {
        below
    }
}

/// The number `n / scale` as it is written in a size field: above ten as the
/// nearest whole number, else with one decimal place.
pub open spec fn scaled_number(n: nat, scale: nat) -> Seq<u8> {
    if n > 10 * scale {
        decimal(nearest(n, scale))
    } else {
        let tenths = nearest_even(10 * n, scale);
        decimal(tenths / 10).push(46u8) + decimal(tenths % 10)
    }
}

/// The text of a size field: the scaled number, right-aligned in four
/// places, and the unit's letter.
pub open spec fn size_text(n: nat) -> Seq<u8> {
    let unit = size_unit(n);
    right_aligned(scaled_number(n, unit_scale(unit)), SIZE_WIDTH as nat).push(unit_letter(unit))
}

/// The colour of a size field.
pub open spec fn size_color(n: nat) -> Color {
    unit_color(size_unit(n))
}

/// The powers of 1024 that bound the units.
pub proof fn lemma_kibi_powers()
    ensures
        kibi_power(0) == 1,
        kibi_power(1) == 0x400,
        kibi_power(2) == 0x10_0000,
        kibi_power(3) == 0x4000_0000,
        kibi_power(4) == 0x100_0000_0000,
        kibi_power(5) == 0x4_0000_0000_0000,
        kibi_power(6) == 0x1000_0000_0000_0000,
        kibi_power(7) == 0x40_0000_0000_0000_0000,
        kibi_power(8) == 0x1_0000_0000_0000_0000_0000,
        kibi_power(9) == 0x400_0000_0000_0000_0000_0000,
{
    reveal_with_fuel(kibi_power, 10);
}

/// The unit that follows `unit` in the ascending order; the last unit has
/// none, and what lies beyond it is shown in G.
pub open spec fn next_unit(unit: SizeUnit) -> SizeUnit {
    match unit {
        SizeUnit::B => SizeUnit::K,
        SizeUnit::K => SizeUnit::M,
        SizeUnit::M => SizeUnit::G,
        SizeUnit::G => SizeUnit::T,
        SizeUnit::T => SizeUnit::P,
        SizeUnit::P => SizeUnit::E,
        SizeUnit::E => SizeUnit::Z,
        SizeUnit::Z => SizeUnit::Y,
        SizeUnit::Y => SizeUnit::G,
    }
}

/// Each unit reaches up to and including its limit: the limit itself is
/// still shown in the unit, one byte more in the unit that follows.
pub proof fn lemma_unit_boundaries(unit: SizeUnit)
    ensures
        size_unit(unit_limit(unit)) == unit,
        size_unit(unit_limit(unit) + 1) == next_unit(unit),
        unit_limit(unit) == 1024 * unit_scale(unit),
{
    lemma_kibi_powers();
}

/// A count within the range of a unit is shown in that unit: above the
/// limit of the unit before and up to its own.
pub proof fn lemma_unit_ranges(n: nat, unit: SizeUnit)
    requires
        n <= unit_limit(unit),
        unit == SizeUnit::B || n > unit_scale(unit),
    ensures
        size_unit(n) == unit,
{
    lemma_kibi_powers();
}

/// A count beyond the last unit is shown in G.
pub proof fn lemma_beyond_the_units(n: nat)
    requires
        n > unit_limit(SizeUnit::Y),
    ensures
        size_unit(n) == SizeUnit::G,
{
    lemma_kibi_powers();
}

/// No two units share a colour or a letter.
pub proof fn lemma_units_differ(a: SizeUnit, b: SizeUnit)
    requires
        a != b,
    ensures
        unit_color(a) != unit_color(b),
        unit_letter(a) != unit_letter(b),
{
}

/// Every count has a size field: a text of at least five characters, the
/// last of which is the letter of a unit, in the colour of that same unit.
pub proof fn lemma_size_field_shape(n: nat)
    ensures
        size_text(n).len() >= 5,
        size_text(n).last() == unit_letter(size_unit(n)),
        size_color(n) == unit_color(size_unit(n)),
{
    lemma_right_aligned_len(scaled_number(n, unit_scale(size_unit(n))), SIZE_WIDTH as nat);
}

/// `nearest` is off by no more than a half, and by a half only upward.
pub proof fn lemma_nearest_is_near(n: nat, d: nat)
    requires
        d > 0,
    ensures
        2 * d * nearest(n, d) <= 2 * n + d < 2 * d * nearest(n, d) + 2 * d,
{
    let x = (2 * n + d) as int;
    let m = (2 * d) as int;
    lemma_fundamental_div_mod(x, m);
}

/// `nearest_even` is off by no more than a half, and by a half only where
/// it is even.
pub proof fn lemma_nearest_even_is_near(n: nat, d: nat)
    requires
        d > 0,
    ensures
        2 * n - d <= 2 * d * nearest_even(n, d) <= 2 * n + d,
        2 * d * nearest_even(n, d) == 2 * n - d || 2 * d * nearest_even(n, d) == 2 * n + d
            ==> nearest_even(n, d) % 2 == 0,
{
    let below = n / d;
    let rest = n % d;
    lemma_fundamental_div_mod(n as int, d as int);
    assert(2 * d * below == 2 * (d * below)) by (nonlinear_arith);
    assert(2 * d * (below + 1) == 2 * (d * below) + 2 * d) by (nonlinear_arith);
}

/// Rounding to the nearest whole number, from quotient and remainder.
proof fn lemma_nearest_from_parts(n: nat, d: nat, q: nat, r: nat)
    requires
        d > 0,
        r < d,
        n == q * d + r,
    ensures
        nearest(n, d) == if 2 * r >= d {
            q + 1
        } else {
            q
        },
{
    if 2 * r >= d {
        assert(2 * n + d == (q + 1) * (2 * d) + (2 * r - d)) by (nonlinear_arith)
            requires
                n == q * d + r,
        ;
        lemma_fundamental_div_mod_converse((2 * n + d) as int, (2 * d) as int, (q + 1) as int, 2 * r - d);
    } else {
        assert(2 * n + d == q * (2 * d) + (2 * r + d)) by (nonlinear_arith)
            requires
                n == q * d + r,
        ;
        lemma_fundamental_div_mod_converse((2 * n + d) as int, (2 * d) as int, q as int, (2 * r + d) as int);
    }
}

/// The unit `n` bytes are shown in.
pub fn unit_of(n: u128) -> (unit: SizeUnit)
    ensures
        unit == size_unit(n as nat),
{
    proof {
        lemma_kibi_powers();
    }
    if n <= 0x400 {
        SizeUnit::B
    } else if n <= 0x10_0000 {
        SizeUnit::K
    } else if n <= 0x4000_0000 {
        SizeUnit::M
    } else if n <= 0x100_0000_0000 {
        SizeUnit::G
    } else if n <= 0x4_0000_0000_0000 {
        SizeUnit::T
    } else if n <= 0x1000_0000_0000_0000 {
        SizeUnit::P
    } else if n <= 0x40_0000_0000_0000_0000 {
        SizeUnit::E
    } else if n <= 0x1_0000_0000_0000_0000_0000 {
        SizeUnit::Z
    } else if n <= 0x400_0000_0000_0000_0000_0000 {
        SizeUnit::Y
    } else {
        SizeUnit::G
    }
}

impl SizeUnit {
    /// The number of bytes in one of this unit.
    pub fn scale(&self) -> (scale: u128)
        ensures
            scale == unit_scale(*self),
    {
        proof {
            lemma_kibi_powers();
        }
        match self {
            SizeUnit::B => 1,
            SizeUnit::K => 0x400,
            SizeUnit::M => 0x10_0000,
            SizeUnit::G => 0x4000_0000,
            SizeUnit::T => 0x100_0000_0000,
            SizeUnit::P => 0x4_0000_0000_0000,
            SizeUnit::E => 0x1000_0000_0000_0000,
            SizeUnit::Z => 0x40_0000_0000_0000_0000,
            SizeUnit::Y => 0x1_0000_0000_0000_0000_0000,
        }
    }

    /// The letter that names this unit.
    pub fn letter(&self) -> (letter: u8)
        ensures
            letter == unit_letter(*self),
    {
        match self {
            SizeUnit::B => 66,
            SizeUnit::K => 75,
            SizeUnit::M => 77,
            SizeUnit::G => 71,
            SizeUnit::T => 84,
            SizeUnit::P => 80,
            SizeUnit::E => 69,
            SizeUnit::Z => 90,
            SizeUnit::Y => 89,
        }
    }

    /// The colour this unit is shown in.
    pub fn color(&self) -> (color: Color)
        ensures
            color == unit_color(*self),
    {
        match self {
            SizeUnit::B => Color::plain(Hue::White),
            SizeUnit::K => Color::plain(Hue::Yellow),
            SizeUnit::M => Color::plain(Hue::Red),
            SizeUnit::G => Color::plain(Hue::Purple),
            SizeUnit::T => Color::plain(Hue::Green),
            SizeUnit::P => Color::plain(Hue::Cyan),
            SizeUnit::E => Color::bright(Hue::Green),
            SizeUnit::Z => Color::bright(Hue::Red),
            SizeUnit::Y => Color::bright(Hue::White),
        }
    }
}

/// Writes `n / scale` as it stands in a size field.
fn scaled_digits(n: u128, scale: u128) -> (digits: Vec<u8>)
    requires
        0 < scale <= 0x1_0000_0000_0000_0000_0000,
    ensures
        digits@ == scaled_number(n as nat, scale as nat),
{
    let mut digits: Vec<u8> = Vec::new();
    if n > 10 * scale {
        let whole: u128 = n / scale;
        let rest: u128 = n % scale;
        proof {
            lemma_fundamental_div_mod(n as int, scale as int);
            assert(scale * whole == whole * scale) by (nonlinear_arith);
            lemma_nearest_from_parts(n as nat, scale as nat, whole as nat, rest as nat);
            assert(rest >= scale - rest ==> whole < u128::MAX) by (nonlinear_arith)
                requires
                    n == whole * scale + rest,
                    n <= u128::MAX,
                    rest < scale,
                    0 <= whole,
            ;
        }
        let rounded: u128 = if rest >= scale - rest {
            whole + 1
        } else {
            whole
        };
        push_decimal(&mut digits, rounded);
    } else {
        let scaled: u128 = 10 * n;
        let below: u128 = scaled / scale;
        let rest: u128 = scaled % scale;
        proof {
            lemma_fundamental_div_mod(scaled as int, scale as int);
            assert(below <= 100) by (nonlinear_arith)
                requires
                    scaled == scale * below + rest,
                    scaled <= 100 * scale,
                    0 <= rest,
                    0 < scale,
            ;
        }
        let tenths: u128 = if rest > scale - rest || (rest == scale - rest && below % 2 == 1) {
            below + 1
        } else {
            below
        };
        push_decimal(&mut digits, tenths / 10);
        digits.push(46u8);
        push_decimal(&mut digits, tenths % 10);
    }
    digits
}

/// Formats a byte count: the text of the size field and its colour.
pub fn format_size(byte_count: u128) -> (field: (Vec<u8>, Color))
    ensures
        field.0@ == size_text(byte_count as nat),
        field.1 == size_color(byte_count as nat),
{
    let unit = unit_of(byte_count);
    proof {
        lemma_kibi_powers();
    }
    let digits = scaled_digits(byte_count, unit.scale());
    let mut text: Vec<u8> = Vec::new();
    push_right_aligned(&mut text, &digits, SIZE_WIDTH);
    text.push(unit.letter());
    (text, unit.color())
}

} // verus!
