//! Fixed-point numbers.
//!
//! Every price, size and ratio threshold in this crate is an `i64` count of
//! units of 10^-8 ("units"). Decimal text is read by `rust_decimal` and then
//! converted in one of two ways. Book prices and sizes are converted exactly:
//! text whose value is not a whole number of units, or does not fit, is
//! rejected rather than rounded. Quotes and oracle prices, which arrive with
//! any number of decimals, are converted to the nearest unit.

use rust_decimal::Decimal;
use std::str::FromStr;
use vstd::arithmetic::power::*;
use vstd::prelude::*;
use vstd::string::*;

verus! {

/// Number of decimal places carried by a fixed-point value.
pub const SCALE: u32 = 8;

/// One whole, in units.
pub const UNIT: i64 = 100_000_000;

/// `10^e`.
pub open spec fn pow10(e: nat) -> int {
    pow(10, e)
}

/// `u` units is exactly the decimal `mantissa / 10^scale`.
pub open spec fn is_units_of(u: int, mantissa: int, scale: nat) -> bool {
    u * pow10(scale) == mantissa * pow10(8)
}

/// The fixed-point value of the decimal `mantissa / 10^scale`, where it has one.
pub open spec fn units_of(mantissa: int, scale: nat) -> Option<int> {
    if exists|u: int| i64::MIN <= u <= i64::MAX && is_units_of(u, mantissa, scale) {
        Some(choose|u: int| i64::MIN <= u <= i64::MAX && is_units_of(u, mantissa, scale))
    } else {
        None
    }
}

/// The longest text, in bytes, that is read as a decimal. A decimal holds 29
/// digits; a longer text is read as none.
pub const MAX_DECIMAL_TEXT: usize = 64;

/// What `rust_decimal` reads from a text: mantissa and scale of the decimal, or
/// nothing where it rejects the text.
pub uninterp spec fn decimal_of_text(text: Seq<char>) -> Option<(int, nat)>;

/// Whether a text is short enough to be read as a decimal.
pub open spec fn short_enough(text: Seq<char>) -> bool {
    vstd::utf8::encode_utf8(text).len() <= MAX_DECIMAL_TEXT
}

/// The decimal that a text is read as: what `rust_decimal` reads from it
/// where it is short enough, nothing where it is longer.
pub open spec fn decimal_read(text: Seq<char>) -> Option<(int, nat)> {
    if short_enough(text) {
        decimal_of_text(text)
    } else {
        None
    }
}

/// The fixed-point value that a text denotes.
pub open spec fn fixed_of_text(text: Seq<char>) -> Option<int> {
    match decimal_read(text) {
        Some((mantissa, scale)) => units_of(mantissa, scale),
        None => None,
    }
}

/// `v / scale` rounded to the nearest whole number, halves away from zero.
pub open spec fn round_half_away(v: int, scale: int) -> int {
    if v >= 0 {
        (v + scale / 2) / scale
    } else {
        -((-v + scale / 2) / scale)
    }
}

/// The decimal `mantissa / 10^scale` in units, rounded to the nearest unit,
/// halves away from zero.
pub open spec fn rounded_units(mantissa: int, scale: nat) -> int {
    if scale <= 8 {
        mantissa * pow10((8 - scale) as nat)
    } else {
        round_half_away(mantissa, pow10((scale - 8) as nat))
    }
}

/// The fixed-point value nearest to the decimal `mantissa / 10^scale`, where
/// it fits.
pub open spec fn nearest_units_of(mantissa: int, scale: nat) -> Option<int> {
    if i64::MIN <= rounded_units(mantissa, scale) <= i64::MAX {
        Some(rounded_units(mantissa, scale))
    } else {
        None
    }
}

/// The fixed-point value nearest to what a text denotes.
pub open spec fn nearest_fixed_of_text(text: Seq<char>) -> Option<int> {
    match decimal_read(text) {
        Some((mantissa, scale)) => nearest_units_of(mantissa, scale),
        None => None,
    }
}

/// `Decimal::from_str` of `rust_decimal`, with the parsed value taken apart by
/// `Decimal::mantissa` and `Decimal::scale`. The parse depends on the text
/// alone; its result is named, not described, but for the scale, which the
/// crate keeps between 0 and 28. The text is kept short, because the parser
/// calls itself once for each byte.
#[verifier::external_body]
fn decimal_parts(text: &str) -> (parts: Option<(i128, u32)>)
    requires
        short_enough(text@),
    ensures
        parts matches Some(p) ==> decimal_of_text(text@) == Some((p.0 as int, p.1 as nat)) && p.1
            <= 28,
        parts is None ==> decimal_of_text(text@) is None,
{
    match Decimal::from_str(text) {
        Ok(d) => Some((d.mantissa(), d.scale())),
        Err(_) => None,
    }
}

/// Reads a text as a decimal: mantissa and scale. A text longer than
/// `MAX_DECIMAL_TEXT` bytes is read as none.
pub fn read_decimal(text: &str) -> (parts: Option<(i128, u32)>)
    ensures
        parts matches Some(p) ==> decimal_read(text@) == Some((p.0 as int, p.1 as nat)) && p.1
            <= 28,
        parts is None ==> decimal_read(text@) is None,
{
    if text.as_bytes().len() > MAX_DECIMAL_TEXT {
        None
    } else {
        decimal_parts(text)
    }
}

/// The powers of ten: each is ten times the one before, all are positive.
pub proof fn lemma_pow10_step(e: nat)
    ensures
        pow10(e + 1) == 10 * pow10(e),
        pow10(e) > 0,
        pow10(0) == 1,
{
    reveal(pow);
    lemma_pow_positive(10, e);
    lemma_pow0(10);
}

/// A decimal has at most one fixed-point value.
pub proof fn lemma_units_unique(u1: int, u2: int, mantissa: int, scale: nat)
    requires
        is_units_of(u1, mantissa, scale),
        is_units_of(u2, mantissa, scale),
    ensures
        u1 == u2,
{
    lemma_pow10_step(scale);
    let p = pow10(scale);
    assert(u1 * p == u2 * p);
    assert(u1 == u2) by (nonlinear_arith)
        requires
            u1 * p == u2 * p,
            p > 0,
    ;
}

proof fn lemma_units_of_is(u: int, mantissa: int, scale: nat)
    requires
        i64::MIN <= u <= i64::MAX,
        is_units_of(u, mantissa, scale),
    ensures
        units_of(mantissa, scale) == Some(u),
{
    let w = choose|w: int| i64::MIN <= w <= i64::MAX && is_units_of(w, mantissa, scale);
    lemma_units_unique(u, w, mantissa, scale);
}

/// Converts the decimal `mantissa / 10^scale` to units, exactly.
pub fn to_units(mantissa: i128, scale: u32) -> (r: Option<i64>)
    ensures
        r matches Some(u) ==> units_of(mantissa as int, scale as nat) == Some(u as int),
        r is None ==> units_of(mantissa as int, scale as nat) is None,
{
    let mut v: i128 = mantissa;
    let mut s: u32 = scale;
    proof {
        lemma_pow10_step(8);
    }
    while s > 8
        invariant
            v * pow10(scale as nat) == mantissa * pow10(s as nat),
            s <= scale,
        decreases s,
    {
        if v % 10 != 0 {
            proof {
                assert forall|u: int| !is_units_of(u, mantissa as int, scale as nat) by {
                    if is_units_of(u, mantissa as int, scale as nat) {
                        lemma_no_units_below(u, v as int, mantissa as int, scale as nat, s as nat);
                    }
                }
            }
            return None;
        }
        let ghost v0 = v;
        v = v / 10;
        proof {
            lemma_pow10_step((s - 1) as nat);
            let ps = pow10(scale as nat);
            let q = pow10((s - 1) as nat);
            assert(v0 == 10 * v);
            assert(v * ps * 10 == mantissa * q * 10) by (nonlinear_arith)
                requires
                    v0 * ps == mantissa * (10 * q),
                    v0 == 10 * v,
            ;
        }
        s = s - 1;
    }
    while s < 8
        invariant
            v * pow10(scale as nat) == mantissa * pow10(s as nat),
            s <= 8,
        decreases 8 - s,
    {
        let ghost v0 = v;
        match v.checked_mul(10) {
            Some(next) => {
                v = next;
            },
            None => {
                proof {
                    assert forall|u: int| i64::MIN <= u <= i64::MAX implies !is_units_of(
                        u,
                        mantissa as int,
                        scale as nat,
                    ) by {
                        if is_units_of(u, mantissa as int, scale as nat) {
                            lemma_units_beyond(u, v as int, mantissa as int, scale as nat, s as nat);
                        }
                    }
                }
                return None;
            },
        }
        proof {
            lemma_pow10_step(s as nat);
            let ps = pow10(scale as nat);
            let q = pow10(s as nat);
            assert(v * ps == mantissa * (10 * q)) by (nonlinear_arith)
                requires
                    v0 * ps == mantissa * q,
                    v == 10 * v0,
            ;
        }
        s = s + 1;
    }
    if v < i64::MIN as i128 || v > i64::MAX as i128 {
        proof {
            assert forall|u: int| i64::MIN <= u <= i64::MAX implies !is_units_of(
                u,
                mantissa as int,
                scale as nat,
            ) by {
                if is_units_of(u, mantissa as int, scale as nat) {
                    lemma_units_unique(u, v as int, mantissa as int, scale as nat);
                }
            }
        }
        None
    } else {
        proof {
            lemma_units_of_is(v as int, mantissa as int, scale as nat);
        }
        Some(v as i64)
    }
}

/// With more than eight places left and a last digit that is not zero, the
/// decimal is no whole number of units.
proof fn lemma_no_units_below(u: int, v: int, mantissa: int, scale: nat, s: nat)
    requires
        s > 8,
        v * pow10(scale) == mantissa * pow10(s),
        is_units_of(u, mantissa, scale),
    ensures
        v % 10 == 0,
{
    lemma_pow10_step(scale);
    lemma_pow10_step(8);
    let d = (s - 8) as nat;
    lemma_pow_adds(10, 8, d);
    lemma_pow10_step((d - 1) as nat);
    let ps = pow10(scale);
    let whole = pow10(8);
    let pd = pow10(d);
    let pd1 = pow10((d - 1) as nat);
    assert(pow10(s) == whole * pd);
    assert(pd == 10 * pd1);
    // u * ps == mantissa * whole, hence (u * pd) * ps == mantissa * whole * pd == v * ps
    assert((u * pd) * ps == v * ps) by (nonlinear_arith)
        requires
            u * ps == mantissa * whole,
            v * ps == mantissa * (whole * pd),
    ;
    assert(u * pd == v) by (nonlinear_arith)
        requires
            (u * pd) * ps == v * ps,
            ps > 0,
    ;
    assert(v == 10 * (u * pd1)) by (nonlinear_arith)
        requires
            u * pd == v,
            pd == 10 * pd1,
    ;
}

/// A value that already overflows 128 bits before reaching eight places has no
/// 64-bit count of units.
proof fn lemma_units_beyond(u: int, v: int, mantissa: int, scale: nat, s: nat)
    requires
        s < 8,
        v * pow10(scale) == mantissa * pow10(s),
        is_units_of(u, mantissa, scale),
        v * 10 > i128::MAX || v * 10 < i128::MIN,
    ensures
        u > i64::MAX || u < i64::MIN,
{
    lemma_pow10_step(scale);
    lemma_pow10_step(s);
    let d = (8 - s) as nat;
    lemma_pow_adds(10, s, d);
    lemma_pow10_step((d - 1) as nat);
    let ps = pow10(scale);
    let q = pow10(s);
    let pd = pow10(d);
    let pd1 = pow10((d - 1) as nat);
    assert(pow10(8) == q * pd);
    assert((v * pd) * ps == u * ps) by (nonlinear_arith)
        requires
            v * ps == mantissa * q,
            u * ps == mantissa * (q * pd),
    ;
    assert(v * pd == u) by (nonlinear_arith)
        requires
            (v * pd) * ps == u * ps,
            ps > 0,
    ;
    assert(pd1 >= 1);
    assert(u == (v * 10) * pd1) by (nonlinear_arith)
        requires
            v * pd == u,
            pd == 10 * pd1,
    ;
    assert(u > i64::MAX || u < i64::MIN) by (nonlinear_arith)
        requires
            u == (v * 10) * pd1,
            pd1 >= 1,
            v * 10 > i128::MAX || v * 10 < i128::MIN,
    ;
}

/// Reads decimal text as a fixed-point value. `None` where the text is too
/// long or no decimal, or its value is no whole number of units, or does not
/// fit.
pub fn parse_fixed(text: &str) -> (r: Option<i64>)
    ensures
        r matches Some(u) ==> fixed_of_text(text@) == Some(u as int),
        r is None ==> fixed_of_text(text@) is None,
{
    match read_decimal(text) {
        Some((mantissa, scale)) => to_units(mantissa, scale),
        None => None,
    }
}

proof fn lemma_pow10_twenty()
    ensures
        pow10(20) == 100_000_000_000_000_000_000,
{
    lemma_pow10_step(0);
    lemma_pow10_step(1);
    lemma_pow10_step(2);
    lemma_pow10_step(3);
    lemma_pow10_step(4);
    lemma_pow10_step(5);
    lemma_pow10_step(6);
    lemma_pow10_step(7);
    lemma_pow10_step(8);
    lemma_pow10_step(9);
    lemma_pow10_step(10);
    lemma_pow10_step(11);
    lemma_pow10_step(12);
    lemma_pow10_step(13);
    lemma_pow10_step(14);
    lemma_pow10_step(15);
    lemma_pow10_step(16);
    lemma_pow10_step(17);
    lemma_pow10_step(18);
    lemma_pow10_step(19);
}

/// `10^e`, for an exponent up to twenty.
fn pow10_exec(e: u32) -> (p: u128)
    requires
        e <= 20,
    ensures
        p == pow10(e as nat),
        1 <= p <= 100_000_000_000_000_000_000,
{
    let mut p: u128 = 1;
    let mut i: u32 = 0;
    proof {
        lemma_pow10_step(0);
        lemma_pow10_twenty();
    }
    while i < e
        invariant
            i <= e <= 20,
            p == pow10(i as nat),
            1 <= p,
            p * pow10((20 - i) as nat) == 100_000_000_000_000_000_000,
        decreases e - i,
    {
        proof {
            lemma_pow10_step(i as nat);
            lemma_pow10_step((20 - i - 1) as nat);
            let rest = pow10((20 - i - 1) as nat);
            assert(p * (10 * rest) == (p * 10) * rest) by (nonlinear_arith);
            assert(p * 10 <= (p * 10) * rest) by (nonlinear_arith)
                requires
                    rest >= 1,
                    p >= 1,
            ;
        }
        p = p * 10;
        i = i + 1;
    }
    proof {
        let rest = pow10((20 - e) as nat);
        lemma_pow10_step((20 - e) as nat);
        assert(p <= p * rest) by (nonlinear_arith)
            requires
                rest >= 1,
                p >= 1,
        ;
    }
    p
}

/// Converts the decimal `mantissa / 10^scale` to the nearest unit.
pub fn to_units_nearest(mantissa: i128, scale: u32) -> (r: Option<i64>)
    requires
        scale <= 28,
    ensures
        r matches Some(u) ==> nearest_units_of(mantissa as int, scale as nat) == Some(u as int),
        r is None ==> nearest_units_of(mantissa as int, scale as nat) is None,
{
    let negative = mantissa < 0;
    let magnitude: u128 = if mantissa == i128::MIN {
        0x8000_0000_0000_0000_0000_0000_0000_0000
    } else if negative {
        (-mantissa) as u128
    } else {
        mantissa as u128
    };
    let rounded: u128 = if scale <= 8 {
        let factor = pow10_exec(8 - scale);
        match magnitude.checked_mul(factor) {
            Some(v) => v,
            None => {
                proof {
                    assert(mantissa * factor > i64::MAX || mantissa * factor < i64::MIN)
                        by (nonlinear_arith)
                        requires
                            magnitude * factor > u128::MAX,
                            magnitude == mantissa || magnitude == -mantissa,
                            factor >= 1,
                    ;
                }
                return None;
            },
        }
    } else {
        let divisor = pow10_exec(scale - 8);
        (magnitude + divisor / 2) / divisor
    };
    proof {
        let exact = rounded_units(mantissa as int, scale as nat);
        if scale <= 8 {
            let factor = pow10((8 - scale) as nat);
            assert(exact == if negative {
                -(rounded as int)
            } else {
                rounded as int
            }) by (nonlinear_arith)
                requires
                    exact == mantissa * factor,
                    rounded == magnitude * factor,
                    magnitude == (if negative {
                        -mantissa
                    } else {
                        mantissa as int
                    }),
            ;
        } else {
            assert(exact == if negative {
                -(rounded as int)
            } else {
                rounded as int
            });
        }
    }
    if negative {
        if rounded > 0x8000_0000_0000_0000 {
            None
        } else if rounded == 0x8000_0000_0000_0000 {
            Some(i64::MIN)
        } else {
            Some(-(rounded as i64))
        }
    } else {
        if rounded > 0x7fff_ffff_ffff_ffff {
            None
        } else {
            Some(rounded as i64)
        }
    }
}

/// Reads decimal text as the nearest fixed-point value. `None` where the text
/// is too long or no decimal, or its value does not fit.
pub fn parse_fixed_nearest(text: &str) -> (r: Option<i64>)
    ensures
        r matches Some(u) ==> nearest_fixed_of_text(text@) == Some(u as int),
        r is None ==> nearest_fixed_of_text(text@) is None,
{
    match read_decimal(text) {
        Some((mantissa, scale)) => to_units_nearest(mantissa, scale),
        None => None,
    }
}

/// A decimal that is a whole number of units reads the same exactly and to
/// the nearest unit.
pub proof fn law_exact_is_nearest(u: int, mantissa: int, scale: nat)
    requires
        is_units_of(u, mantissa, scale),
    ensures
        rounded_units(mantissa, scale) == u,
{
    lemma_pow10_step(scale);
    lemma_pow10_step(8);
    if scale <= 8 {
        let d = (8 - scale) as nat;
        lemma_pow_adds(10, scale, d);
        lemma_pow10_step(d);
        let ps = pow10(scale);
        let pd = pow10(d);
        assert(u * ps == (mantissa * pd) * ps) by (nonlinear_arith)
            requires
                u * ps == mantissa * (ps * pd),
        ;
        assert(u == mantissa * pd) by (nonlinear_arith)
            requires
                u * ps == (mantissa * pd) * ps,
                ps > 0,
        ;
    } else {
        let d = (scale - 8) as nat;
        lemma_pow_adds(10, 8, d);
        lemma_pow10_step(d);
        let whole = pow10(8);
        let pd = pow10(d);
        assert((u * pd) * whole == mantissa * whole) by (nonlinear_arith)
            requires
                u * (whole * pd) == mantissa * whole,
        ;
        assert(u * pd == mantissa) by (nonlinear_arith)
            requires
                (u * pd) * whole == mantissa * whole,
                whole > 0,
        ;
        // mantissa is a multiple of pd, and pd / 2 < pd
        lemma_pow10_step((d - 1) as nat);
        let half = pd / 2;
        assert(0 <= half < pd);
        if mantissa >= 0 {
            assert(u >= 0) by (nonlinear_arith)
                requires
                    u * pd >= 0,
                    pd > 0,
            ;
            vstd::arithmetic::div_mod::lemma_fundamental_div_mod_converse(
                mantissa + half,
                pd,
                u,
                half,
            );
        } else {
            assert(u < 0) by (nonlinear_arith)
                requires
                    u * pd < 0,
                    pd > 0,
            ;
            assert(-mantissa == (-u) * pd) by (nonlinear_arith)
                requires
                    u * pd == mantissa,
            ;
            vstd::arithmetic::div_mod::lemma_fundamental_div_mod_converse(
                -mantissa + half,
                pd,
                -u,
                half,
            );
        }
    }
}

} // verus!
