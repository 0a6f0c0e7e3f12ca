//! Human-readable sizes: a byte count scaled by powers of 1024.

use vstd::prelude::*;
use vstd::string::*;
use vstd::arithmetic::div_mod::*;
use crate::text::{decimal, digit_char, digit_str, push_decimal, two_digits};

verus! {

/// The index of the largest unit, `EiB`.
pub const LAST_UNIT: usize = 6;

/// How many bytes one of the unit with index `unit` holds: 1024 to the
/// power `unit`.
pub open spec fn unit_scale(unit: nat) -> nat
    decreases unit,
{
    if unit == 0 {
        1
    } else {
        1024 * unit_scale((unit - 1) as nat)
    }
}

/// The name of the unit with index `unit`.
pub open spec fn unit_name(unit: nat) -> Seq<char> {
    if unit == 0 {
        "B"@
    } else if unit == 1 {
        "KiB"@
    } else if unit == 2 {
        "MiB"@
    } else if unit == 3 {
        "GiB"@
    } else if unit == 4 {
        "TiB"@
    } else if unit == 5 {
        "PiB"@
    } else {
        "EiB"@
    }
}

/// The unit in which `bytes` is shown: the largest one that `bytes` holds at
/// least once, `B` below 1024 and `EiB` at most.
pub open spec fn unit_of(bytes: nat) -> nat {
    if bytes < unit_scale(1) {
        0
    } else if bytes < unit_scale(2) {
        1
    } else if bytes < unit_scale(3) {
        2
    } else if bytes < unit_scale(4) {
        3
    } else if bytes < unit_scale(5) {
        4
    } else if bytes < unit_scale(6) {
        5
    } else {
        6
    }
}

/// How many decimal places are shown of `bytes` scaled by `scale`: two where
/// the scaled value is below 10, one where it is below 100, none otherwise.
pub open spec fn decimal_places(bytes: nat, scale: nat) -> nat {
    if bytes < 10 * scale {
        2
    } else if bytes < 100 * scale {
        1
    } else {
        0
    }
}

/// Ten to the power `places`, for up to two places.
pub open spec fn ten_to(places: nat) -> nat {
    if places == 0 {
        1
    } else if places == 1 {
        10
    } else {
        100
    }
}

/// The quotient of `numerator` by `denominator`, rounded to the nearest
/// integer; a quotient half way between two integers goes to the even one.
pub open spec fn round_half_even(numerator: nat, denominator: nat) -> nat {
    let quotient = numerator / denominator;
    let rest = numerator % denominator;
    if 2 * rest > denominator || (2 * rest == denominator && quotient % 2 == 1) {
        quotient + 1
    } else {
        quotient
    }
}

/// The decimal point and the `places` digits behind it, which are the
/// numeral of `fraction`; nothing at all for no places.
pub open spec fn fraction_text(fraction: nat, places: nat) -> Seq<char> {
    if places == 0 {
        Seq::<char>::empty()
    } else if places == 1 {
        seq!['.', digit_char(fraction as int)]
    } else {
        seq!['.'] + two_digits(fraction)
    }
}

/// The size `bytes` as a human reads it: the value in its unit, rounded to
/// the decimal places that its magnitude gets, a space, and the unit's name.
pub open spec fn size_text(bytes: nat) -> Seq<char> {
    let unit = unit_of(bytes);
    let places = decimal_places(bytes, unit_scale(unit));
    let shown = round_half_even(bytes * ten_to(places), unit_scale(unit));
    decimal(shown / ten_to(places)) + fraction_text(shown % ten_to(places), places) + seq![' ']
        + unit_name(unit)
}

fn unit_str(unit: usize) -> (s: &'static str)
    ensures
        s@ == unit_name(unit as nat),
{
    match unit {
        0 => "B",
        1 => "KiB",
        2 => "MiB",
        3 => "GiB",
        4 => "TiB",
        5 => "PiB",
        _ => "EiB",
    }
}

/// The values of `unit_scale` for the seven units.
pub proof fn lemma_unit_scale_values()
    ensures
        unit_scale(0) == 1,
        unit_scale(1) == 1024,
        unit_scale(2) == 1048576,
        unit_scale(3) == 1073741824,
        unit_scale(4) == 1099511627776,
        unit_scale(5) == 1125899906842624,
        unit_scale(6) == 1152921504606846976,
{
    reveal_with_fuel(unit_scale, 8);
}

/// The unit of `bytes` and the number of bytes that one of it holds.
fn pick_unit(bytes: u64) -> (picked: (usize, u64))
    ensures
        picked.0 == unit_of(bytes as nat),
        picked.1 == unit_scale(picked.0 as nat),
        picked.0 <= LAST_UNIT,
{
    proof {
        lemma_unit_scale_values();
    }
    let mut unit: usize = 0;
    let mut scale: u64 = 1;
    while unit < LAST_UNIT && bytes >= scale * 1024
        invariant
            unit <= LAST_UNIT,
            scale == unit_scale(unit as nat),
            unit > 0 ==> bytes >= scale,
            unit < LAST_UNIT ==> scale <= 1125899906842624,
            unit == 0 || unit == 1 || unit == 2 || unit == 3 || unit == 4 || unit == 5 || unit
                == 6,
        decreases LAST_UNIT - unit,
    {
        proof {
            lemma_unit_scale_values();
        }
        scale = scale * 1024;
        unit = unit + 1;
    }
    (unit, scale)
}

fn push_fraction(out: &mut String, fraction: u128, places: u8)
    requires
        places <= 2,
        fraction < ten_to(places as nat),
    ensures
        final(out)@ == old(out)@ + fraction_text(fraction as nat, places as nat),
{
    proof {
        reveal_strlit(".");
    }
    if places == 1 {
        out.append(".");
        out.append(digit_str(fraction as u8));
        assert(final(out)@ =~= old(out)@ + fraction_text(fraction as nat, places as nat));
    } else if places == 2 {
        out.append(".");
        out.append(digit_str((fraction / 10) as u8));
        out.append(digit_str((fraction % 10) as u8));
        assert(final(out)@ =~= old(out)@ + fraction_text(fraction as nat, places as nat));
    } else {
        assert(final(out)@ =~= old(out)@ + fraction_text(fraction as nat, places as nat));
    }
}

/// Renders a byte count for a human reader, such as `1.50 KiB`.
pub fn bytes_to_human_size(bytes: u64) -> (s: String)
    ensures
        s@ == size_text(bytes as nat),
{
    let (unit, scale) = pick_unit(bytes);
    let wide: u128 = bytes as u128;
    let per_unit: u128 = scale as u128;
    proof {
        lemma_unit_scale_values();
    }
    let places: u8 = if wide < 10 * per_unit {
        2
    } else if wide < 100 * per_unit {
        1
    } else {
        0
    };
    let tens: u128 = if places == 2 {
        100
    } else if places == 1 {
        10
    } else {
        1
    };
    let numerator: u128 = wide * tens;
    let quotient: u128 = numerator / per_unit;
    let rest: u128 = numerator % per_unit;
    proof {
        lemma_mod_pos_bound(numerator as int, per_unit as int);
        lemma_div_nonincreasing(numerator as int, per_unit as int);
    }
    let shown: u128 = if 2 * rest > per_unit || (2 * rest == per_unit && quotient % 2 == 1) {
        quotient + 1
    } else {
        quotient
    };
    assert(shown == round_half_even((bytes * ten_to(places as nat)) as nat, scale as nat));
    let mut s = String::new();
    push_decimal(&mut s, shown / tens);
    push_fraction(&mut s, shown % tens, places);
    proof {
        reveal_strlit(" ");
    }
    s.append(" ");
    s.append(unit_str(unit));
    assert(s@ =~= size_text(bytes as nat));
    s
}

} // verus!
