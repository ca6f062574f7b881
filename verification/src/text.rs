//! Numbers as decimal text.
//!
//! Everything the crate shows or sends as text is built here, character by
//! character, so that each text has an exact statement as a sequence of chars.

use crate::fixed::{lemma_pow10_step, pow10, round_half_away};
use vstd::prelude::*;
use vstd::string::*;

verus! {

/// The character of a decimal digit.
pub open spec fn digit_char(d: int) -> char {
    if d == 0 {
        '0'
    } else if d == 1 {
        '1'
    } else if d == 2 {
        '2'
    } else if d == 3 {
        '3'
    } else if d == 4 {
        '4'
    } else if d == 5 {
        '5'
    } else if d == 6 {
        '6'
    } else if d == 7 {
        '7'
    } else if d == 8 {
        '8'
    } else {
        '9'
    }
}

/// The decimal digits of a natural number, without leading zeros.
pub open spec fn nat_text(n: nat) -> Seq<char>
    decreases n,
{
    if n < 10 {
        seq![digit_char(n as int)]
    } else {
        nat_text(n / 10).push(digit_char((n % 10) as int))
    }
}

/// The decimal digits of an integer, with a minus sign where it is negative.
pub open spec fn int_text(v: int) -> Seq<char> {
    if v < 0 {
        seq!['-'] + nat_text((-v) as nat)
    } else {
        nat_text(v as nat)
    }
}

/// The last `width` decimal digits of a number, with leading zeros.
pub open spec fn padded_text(n: nat, width: nat) -> Seq<char>
    decreases width,
{
    if width == 0 {
        Seq::empty()
    } else {
        padded_text(n / 10, (width - 1) as nat).push(digit_char((n % 10) as int))
    }
}

/// A count of `10^-places`, written with a decimal point and exactly `places`
/// digits behind it (no point where `places` is zero).
pub open spec fn scaled_text(r: int, places: nat) -> Seq<char> {
    let magnitude = if r < 0 {
        -r
    } else {
        r
    };
    let whole = (magnitude / pow10(places)) as nat;
    let fraction = (magnitude % pow10(places)) as nat;
    (if r < 0 {
        seq!['-']
    } else {
        Seq::empty()
    }) + nat_text(whole) + (if places > 0 {
        seq!['.'] + padded_text(fraction, places)
    } else {
        Seq::empty()
    })
}

/// A fixed-point value written with `places` decimals, rounded to the nearest,
/// halves away from zero.
pub open spec fn fixed_text(v: int, places: nat) -> Seq<char> {
    scaled_text(round_half_away(v, pow10((8 - places) as nat)), places)
}

/// The one-character text of a digit.
fn digit_str(d: u8) -> (s: &'static str)
    requires
        d < 10,
    ensures
        s@ == seq![digit_char(d as int)],
{
    proof {
        reveal_strlit("0");
        reveal_strlit("1");
        reveal_strlit("2");
        reveal_strlit("3");
        reveal_strlit("4");
        reveal_strlit("5");
        reveal_strlit("6");
        reveal_strlit("7");
        reveal_strlit("8");
        reveal_strlit("9");
    }
    let s = if d == 0 {
        "0"
    } else if d == 1 {
        "1"
    } else if d == 2 {
        "2"
    } else if d == 3 {
        "3"
    } else if d == 4 {
        "4"
    } else if d == 5 {
        "5"
    } else if d == 6 {
        "6"
    } else if d == 7 {
        "7"
    } else if d == 8 {
        "8"
    } else {
        "9"
    };
    assert(s@ =~= seq![digit_char(d as int)]);
    s
}

/// Appends the decimal digits of `n`.
pub fn push_nat(out: &mut String, n: u128)
    ensures
        final(out)@ == old(out)@ + nat_text(n as nat),
    decreases n,
{
    if n >= 10 {
        push_nat(out, n / 10);
    }
    let d = (n % 10) as u8;
    out.append(digit_str(d));
    proof {
        if n >= 10 {
            assert(final(out)@ =~= old(out)@ + nat_text((n / 10) as nat).push(
                digit_char((n % 10) as int),
            ));
        } else {
            assert(final(out)@ =~= old(out)@ + seq![digit_char(n as int)]);
        }
    }
}

/// Appends the decimal digits of `v`, with its sign.
pub fn push_int(out: &mut String, v: i128)
    ensures
        final(out)@ == old(out)@ + int_text(v as int),
{
    if v < 0 {
        proof {
            reveal_strlit("-");
        }
        out.append("-");
        let magnitude: u128 = if v == i128::MIN {
            0x8000_0000_0000_0000_0000_0000_0000_0000
        } else {
            (-v) as u128
        };
        push_nat(out, magnitude);
        proof {
            assert("-"@ =~= seq!['-']);
            assert(final(out)@ =~= old(out)@ + (seq!['-'] + nat_text((-v) as nat)));
        }
    } else {
        push_nat(out, v as u128);
    }
}

/// Appends the last `width` digits of `n`, with leading zeros.
pub fn push_padded(out: &mut String, n: u128, width: u32)
    ensures
        final(out)@ == old(out)@ + padded_text(n as nat, width as nat),
    decreases width,
{
    if width > 0 {
        push_padded(out, n / 10, width - 1);
        let d = (n % 10) as u8;
        out.append(digit_str(d));
        proof {
            assert(final(out)@ =~= old(out)@ + padded_text((n / 10) as nat, (width - 1) as nat).push(
                digit_char((n % 10) as int),
            ));
        }
    } else {
        proof {
            assert(final(out)@ =~= old(out)@ + Seq::<char>::empty());
        }
    }
}

/// `10^e` for the exponents that fixed-point text needs.
pub fn pow10_small(e: u32) -> (p: u128)
    requires
        e <= 8,
    ensures
        p == pow10(e as nat),
        1 <= p <= 100_000_000,
{
    let mut p: u128 = 1;
    let mut i: u32 = 0;
    proof {
        lemma_pow10_step(0);
    }
    while i < e
        invariant
            i <= e <= 8,
            p == pow10(i as nat),
            1 <= p,
            (i == 0 ==> p == 1) && (i == 1 ==> p == 10) && (i == 2 ==> p == 100) && (i == 3 ==> p
                == 1000) && (i == 4 ==> p == 10_000) && (i == 5 ==> p == 100_000) && (i == 6 ==> p
                == 1_000_000) && (i == 7 ==> p == 10_000_000) && (i == 8 ==> p == 100_000_000),
        decreases e - i,
    {
        proof {
            lemma_pow10_step(i as nat);
        }
        p = p * 10;
        i = i + 1;
    }
    p
}

/// The absolute value of an integer.
pub open spec fn magnitude_of(v: int) -> nat {
    if v < 0 {
        (-v) as nat
    } else {
        v as nat
    }
}

/// A magnitude divided by `10^shift`, rounded to the nearest with halves up,
/// written as a count of `10^-places`, with a minus sign where `negative`
/// holds and the rounded value is not zero.
pub open spec fn magnitude_text(negative: bool, magnitude: nat, shift: nat, places: nat) -> Seq<
    char,
> {
    let rounded = (magnitude + pow10(shift) / 2) / pow10(shift);
    scaled_text(
        if negative {
            -rounded
        } else {
            rounded
        },
        places,
    )
}

/// Appends a magnitude divided by `10^shift`, rounded, as a count of
/// `10^-places`.
pub fn push_magnitude(out: &mut String, negative: bool, magnitude: u128, shift: u32, places: u32)
    requires
        shift <= 8,
        places <= 8,
        magnitude <= 0x8000_0000_0000_0000_0000_0000_0000_0000,
    ensures
        final(out)@ == old(out)@ + magnitude_text(
            negative,
            magnitude as nat,
            shift as nat,
            places as nat,
        ),
{
    let scale = pow10_small(shift);
    let unit = pow10_small(places);
    let rounded: u128 = (magnitude + scale / 2) / scale;
    let minus = negative && rounded > 0;
    proof {
        reveal_strlit("-");
        reveal_strlit(".");
        assert("-"@ =~= seq!['-']);
        assert("."@ =~= seq!['.']);
    }
    if minus {
        out.append("-");
    }
    push_nat(out, rounded / unit);
    if places > 0 {
        out.append(".");
        push_padded(out, rounded % unit, places);
    }
    proof {
        let r: int = if negative {
            -(rounded as int)
        } else {
            rounded as int
        };
        assert(final(out)@ =~= old(out)@ + scaled_text(r, places as nat));
    }
}

/// Appends a fixed-point value with `places` decimals.
pub fn push_fixed(out: &mut String, v: i128, places: u32)
    requires
        places <= 8,
    ensures
        final(out)@ == old(out)@ + fixed_text(v as int, places as nat),
{
    let magnitude: u128 = if v == i128::MIN {
        0x8000_0000_0000_0000_0000_0000_0000_0000
    } else if v < 0 {
        (-v) as u128
    } else {
        v as u128
    };
    push_magnitude(out, v < 0, magnitude, 8 - places, places);
}

/// A fixed-point value as text with `places` decimals.
pub fn fixed_to_text(v: i64, places: u32) -> (s: String)
    requires
        places <= 8,
    ensures
        s@ == fixed_text(v as int, places as nat),
{
    let mut s = String::new();
    push_fixed(&mut s, v as i128, places);
    proof {
        assert(Seq::<char>::empty() + fixed_text(v as int, places as nat) =~= fixed_text(
            v as int,
            places as nat,
        ));
    }
    s
}

/// An integer as text.
pub fn int_to_text(v: i128) -> (s: String)
    ensures
        s@ == int_text(v as int),
{
    let mut s = String::new();
    push_int(&mut s, v);
    proof {
        assert(Seq::<char>::empty() + int_text(v as int) =~= int_text(v as int));
    }
    s
}

} // verus!
