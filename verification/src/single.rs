//! The order of single-precision values, read off their bits.

use vstd::prelude::*;

verus! {

/// The bits of one.
pub const ONE: u32 = 0x3f80_0000;

/// Whether the bits are those of no number.
pub open spec fn is_nan(bits: u32) -> bool {
    bits as int % 0x8000_0000 > 0x7f80_0000
}

/// A number that orders the bits of single-precision values as the values are
/// ordered; both zeros have the same.
pub open spec fn single_key(bits: u32) -> int {
    if bits >= 0x8000_0000 {
        0x8000_0000 - bits
    } else {
        bits as int
    }
}

/// Whether one single-precision value is greater than another: never, where one
/// of them is not a number.
pub open spec fn single_above(a: u32, b: u32) -> bool {
    !is_nan(a) && !is_nan(b) && single_key(a) > single_key(b)
}

/// Whether one single-precision value is at least another: never, where one of
/// them is not a number.
pub open spec fn single_at_least(a: u32, b: u32) -> bool {
    !is_nan(a) && !is_nan(b) && single_key(a) >= single_key(b)
}

/// A number that orders all bits, those of no number too: the sign first, and the
/// two zeros apart.
pub open spec fn total_key(bits: u32) -> u32 {
    if bits >= 0x8000_0000 {
        (0xffff_ffff - bits) as u32
    } else {
        (bits + 0x8000_0000) as u32
    }
}

/// Where both are numbers, the order of all bits refines that of the values.
pub proof fn total_order_refines(a: u32, b: u32)
    requires
        single_above(a, b),
    ensures
        total_key(a) > total_key(b),
{
}

/// Whether the bits are those of no number.
fn nan(bits: u32) -> (r: bool)
    ensures
        r == is_nan(bits),
{
    bits % 0x8000_0000 > 0x7f80_0000
}

/// A number that orders the bits as the values are ordered.
fn key(bits: u32) -> (r: i64)
    ensures
        r == single_key(bits),
{
    if bits >= 0x8000_0000 {
        0x8000_0000 - bits as i64
    } else {
        bits as i64
    }
}

/// Whether one single-precision value is greater than another.
pub fn is_single_above(a: u32, b: u32) -> (r: bool)
    ensures
        r == single_above(a, b),
{
    !nan(a) && !nan(b) && key(a) > key(b)
}

/// Whether one single-precision value is at least another.
pub fn is_single_at_least(a: u32, b: u32) -> (r: bool)
    ensures
        r == single_at_least(a, b),
{
    !nan(a) && !nan(b) && key(a) >= key(b)
}

/// A number that orders all bits.
pub fn total_order_key(bits: u32) -> (r: u32)
    ensures
        r == total_key(bits),
{
    if bits >= 0x8000_0000 {
        0xffff_ffff - bits
    } else {
        bits + 0x8000_0000
    }
}

/// The size of a number by its bits without the sign, in units of the smallest number
/// above zero: below eight million and some the bits count themselves; from there on the
/// upper eight give the power of two, and the lower 23 the places after a leading one.
pub open spec fn magnitude(bits: nat) -> nat {
    let (exponent, fraction) = (bits / 0x80_0000, bits % 0x80_0000);
    if exponent == 0 {
        fraction
    } else {
        (0x80_0000 + fraction) * vstd::arithmetic::power2::pow2((exponent - 1) as nat)
    }
}

/// The value of a number, in units of the smallest number above zero.
pub open spec fn value(bits: u32) -> int {
    if bits >= 0x8000_0000 {
        -(magnitude((bits - 0x8000_0000) as nat) as int)
    } else {
        magnitude(bits as nat) as int
    }
}

/// The next bits are those of a greater size.
proof fn magnitude_steps(bits: nat)
    ensures
        magnitude(bits) < magnitude(bits + 1),
{
    let (e, f) = (bits / 0x80_0000, bits % 0x80_0000);
    assert(bits == 0x80_0000 * e + f);
    if f + 1 < 0x80_0000 {
        vstd::arithmetic::div_mod::lemma_fundamental_div_mod_converse(
            (bits + 1) as int,
            0x80_0000,
            e as int,
            (f + 1) as int,
        );
        if e > 0 {
            let p = vstd::arithmetic::power2::pow2((e - 1) as nat);
            vstd::arithmetic::power2::lemma_pow2_pos((e - 1) as nat);
            assert((0x80_0000 + f) * p < (0x80_0000 + (f + 1)) * p) by (nonlinear_arith)
                requires
                    p > 0,
            ;
        }
    } else {
        vstd::arithmetic::div_mod::lemma_fundamental_div_mod_converse(
            (bits + 1) as int,
            0x80_0000,
            (e + 1) as int,
            0,
        );
        let p = vstd::arithmetic::power2::pow2(e);
        vstd::arithmetic::power2::lemma_pow2_pos(e);
        if e == 0 {
            vstd::arithmetic::power2::lemma2_to64();
            assert(p == 1);
            assert((0x80_0000 + 0) * p == 0x80_0000) by (nonlinear_arith)
                requires
                    p == 1,
            ;
        } else {
            let q = vstd::arithmetic::power2::pow2((e - 1) as nat);
            vstd::arithmetic::power2::lemma_pow2_unfold(e);
            vstd::arithmetic::power2::lemma_pow2_pos((e - 1) as nat);
            assert((0x80_0000 + f) * q < (0x80_0000 + 0) * p) by (nonlinear_arith)
                requires
                    p == 2 * q,
                    q > 0,
                    f < 0x80_0000,
            ;
        }
    }
}

/// Greater bits are those of a greater size.
proof fn magnitude_grows(a: nat, b: nat)
    requires
        a < b,
    ensures
        magnitude(a) < magnitude(b),
    decreases b - a,
{
    magnitude_steps(a);
    if a + 1 < b {
        magnitude_grows(a + 1, b);
    }
}

/// Numbers are compared by their values; what is not a number is neither above anything
/// nor at least anything.
pub proof fn numbers_compare_by_value(a: u32, b: u32)
    ensures
        !is_nan(a) && !is_nan(b) ==> (single_above(a, b) <==> value(a) > value(b)),
        !is_nan(a) && !is_nan(b) ==> (single_at_least(a, b) <==> value(a) >= value(b)),
        is_nan(a) || is_nan(b) ==> !single_above(a, b) && !single_at_least(a, b),
        is_nan(a) <==> (a as int / 0x80_0000) % 256 == 255 && a as int % 0x80_0000 != 0,
{
    let x = (if a >= 0x8000_0000 {
        a - 0x8000_0000
    } else {
        a as int
    }) as nat;
    let y = (if b >= 0x8000_0000 {
        b - 0x8000_0000
    } else {
        b as int
    }) as nat;
    if x < y {
        magnitude_grows(x, y);
    } else if y < x {
        magnitude_grows(y, x);
    }
    if x > 0 {
        magnitude_grows(0, x);
    }
    if y > 0 {
        magnitude_grows(0, y);
    }
    let (s, e, f) = (a as int / 0x8000_0000, x as int / 0x80_0000, x as int % 0x80_0000);
    assert(a == 0x8000_0000 * s + x);
    vstd::arithmetic::div_mod::lemma_fundamental_div_mod_converse(a as int, 0x8000_0000, s, x as int);
    assert(a == 0x80_0000 * (256 * s + e) + f);
    vstd::arithmetic::div_mod::lemma_fundamental_div_mod_converse(
        a as int,
        0x80_0000,
        256 * s + e,
        f,
    );
    vstd::arithmetic::div_mod::lemma_fundamental_div_mod_converse(256 * s + e, 256, s, e);
}

/// The order of all bits agrees with the values of numbers, puts the negative zero below
/// the other one, and what is not a number above all numbers where its sign is positive
/// and below them where it is negative. No two bits share a place.
pub proof fn all_bits_are_ordered(a: u32, b: u32)
    ensures
        !is_nan(a) && !is_nan(b) && value(a) > value(b) ==> total_key(a) > total_key(b),
        total_key(0x8000_0000) < total_key(0),
        is_nan(a) && a < 0x8000_0000 && !is_nan(b) ==> total_key(a) > total_key(b),
        is_nan(a) && a >= 0x8000_0000 && !is_nan(b) ==> total_key(a) < total_key(b),
        total_key(a) == total_key(b) <==> a == b,
{
    numbers_compare_by_value(a, b);
}

} // verus!
