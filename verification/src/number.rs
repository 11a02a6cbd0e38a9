//! Double-precision numbers by their bits.
//!
//! The value of a finite double is a whole number of units of 2^-1074, so what
//! is said of it here is said in whole numbers.

use vstd::arithmetic::div_mod::{
    lemma_div_by_multiple, lemma_div_is_ordered, lemma_fundamental_div_mod,
    lemma_fundamental_div_mod_converse,
};
use vstd::arithmetic::power2::{
    lemma2_to64, lemma2_to64_rest, lemma_pow2_adds, lemma_pow2_pos, lemma_pow2_strictly_increases,
    pow2,
};
use vstd::bits::{lemma_u64_shl_is_mul, lemma_u64_shr_is_div};
use vstd::prelude::*;

verus! {

pub open spec fn exponent(bits: u64) -> nat {
    ((bits / 0x10_0000_0000_0000) % 0x800) as nat
}

pub open spec fn fraction(bits: u64) -> nat {
    (bits % 0x10_0000_0000_0000) as nat
}

pub open spec fn negative(bits: u64) -> bool {
    bits >= 0x8000_0000_0000_0000
}

pub open spec fn finite(bits: u64) -> bool {
    exponent(bits) != 0x7FF
}

pub open spec fn nan(bits: u64) -> bool {
    exponent(bits) == 0x7FF && fraction(bits) != 0
}

/// The number of units of 2^-1074 in the size of a finite double.
pub open spec fn units(bits: u64) -> nat {
    if exponent(bits) == 0 {
        fraction(bits)
    } else {
        (0x10_0000_0000_0000 + fraction(bits)) as nat * pow2((exponent(bits) - 1) as nat)
    }
}

/// The number of units in one.
pub open spec fn one() -> nat {
    pow2(1074)
}

/// The value of a finite double in units; both zeros have the value zero.
pub open spec fn signed_units(bits: u64) -> int {
    if negative(bits) {
        -(units(bits) as int)
    } else {
        units(bits) as int
    }
}

/// Equality of numbers: a NaN equals nothing, and the zeros are equal.
pub open spec fn same_number(a: u64, b: u64) -> bool {
    if nan(a) || nan(b) {
        false
    } else if finite(a) && finite(b) {
        signed_units(a) == signed_units(b)
    } else {
        a == b
    }
}

/// Whether the double is the whole number `i`.
pub open spec fn is_whole(bits: u64, i: int) -> bool {
    finite(bits) && signed_units(bits) == i * one()
}

/// The whole number in the range of `i32` that a double is, if it is one.
pub open spec fn whole_i32(bits: u64) -> Option<i32> {
    if exists|i: int| i32::MIN <= i <= i32::MAX && is_whole(bits, i) {
        Some((choose|i: int| i32::MIN <= i <= i32::MAX && is_whole(bits, i)) as i32)
    } else {
        None
    }
}

/// Whether the double is no whole number in the range of `i32`.
pub open spec fn is_no_i32(bits: u64) -> bool {
    forall|i: int| i32::MIN <= i <= i32::MAX ==> !#[trigger] is_whole(bits, i)
}

/// The conversion to `u32`: towards zero, and to the nearest bound where that
/// leaves the range; a NaN becomes zero.
pub open spec fn truncated_u32(bits: u64) -> u32 {
    if nan(bits) || negative(bits) {
        0
    } else if !finite(bits) || units(bits) / one() > u32::MAX {
        u32::MAX
    } else {
        (units(bits) / one()) as u32
    }
}

pub fn is_nan(bits: u64) -> (yes: bool)
    ensures
        yes == nan(bits),
{
    (bits / 0x10_0000_0000_0000) % 0x800 == 0x7FF && bits % 0x10_0000_0000_0000 != 0
}

pub fn is_finite(bits: u64) -> (yes: bool)
    ensures
        yes == finite(bits),
{
    (bits / 0x10_0000_0000_0000) % 0x800 != 0x7FF
}

pub fn is_zero(bits: u64) -> (yes: bool)
    ensures
        yes == (finite(bits) && units(bits) == 0),
{
    proof {
        lemma_units_zero(bits);
    }
    bits == 0 || bits == 0x8000_0000_0000_0000
}

/// Whether the number is below zero.
pub fn is_below_zero(bits: u64) -> (yes: bool)
    requires
        finite(bits),
    ensures
        yes == (signed_units(bits) < 0),
{
    proof {
        lemma_units_zero(bits);
    }
    bits > 0x8000_0000_0000_0000
}

proof fn lemma_split(bits: u64)
    ensures
        bits == (if negative(bits) {
            0x8000_0000_0000_0000int
        } else {
            0
        }) + exponent(bits) * 0x10_0000_0000_0000 + fraction(bits),
        fraction(bits) < 0x10_0000_0000_0000,
        exponent(bits) <= 0x7FF,
{
}

pub(crate) proof fn lemma_units_zero(bits: u64)
    ensures
        units(bits) == 0 <==> bits == 0 || bits == 0x8000_0000_0000_0000,
{
    lemma_split(bits);
    if exponent(bits) > 0 {
        let p = pow2((exponent(bits) - 1) as nat);
        lemma_pow2_pos((exponent(bits) - 1) as nat);
        assert((0x10_0000_0000_0000 + fraction(bits)) * p > 0) by (nonlinear_arith)
            requires
                p > 0,
        ;
    }
}

/// The bounds of the size of a double with a given exponent.
proof fn lemma_units_bounds(bits: u64)
    ensures
        exponent(bits) == 0 ==> units(bits) < pow2(52),
        exponent(bits) > 0 ==> pow2((exponent(bits) + 51) as nat) <= units(bits) < pow2(
            (exponent(bits) + 52) as nat,
        ),
{
    lemma_split(bits);
    lemma2_to64_rest();
    let e = exponent(bits);
    if e > 0 {
        let p = pow2((e - 1) as nat);
        let m = 0x10_0000_0000_0000 + fraction(bits);
        lemma_pow2_adds(52, (e - 1) as nat);
        lemma_pow2_adds(53, (e - 1) as nat);
        lemma_pow2_pos((e - 1) as nat);
        assert(pow2(52) * p <= m * p && m * p < pow2(53) * p) by (nonlinear_arith)
            requires
                pow2(52) <= m < pow2(53),
                p > 0,
        ;
    }
}

/// Doubles of different size differ in their exponent or their fraction.
proof fn lemma_units_unique(a: u64, b: u64)
    requires
        units(a) == units(b),
    ensures
        exponent(a) == exponent(b),
        fraction(a) == fraction(b),
{
    lemma_units_bounds(a);
    lemma_units_bounds(b);
    let ea = exponent(a);
    let eb = exponent(b);
    if ea < eb {
        lemma_exponents_order(a, b);
    } else if eb < ea {
        lemma_exponents_order(b, a);
    } else if ea > 0 {
        let p = pow2((ea - 1) as nat);
        lemma_pow2_pos((ea - 1) as nat);
        let ma = 0x10_0000_0000_0000 + fraction(a);
        let mb = 0x10_0000_0000_0000 + fraction(b);
        assert(ma == mb) by (nonlinear_arith)
            requires
                ma * p == mb * p,
                p > 0,
        ;
    }
}

pub(crate) proof fn lemma_exponents_order(a: u64, b: u64)
    requires
        exponent(a) < exponent(b),
    ensures
        units(a) < units(b),
{
    lemma_units_bounds(a);
    lemma_units_bounds(b);
    let lo = (exponent(b) + 51) as nat;
    if exponent(a) == 0 {
        if 52 < lo {
            lemma_pow2_strictly_increases(52, lo);
        }
    } else {
        let hi = (exponent(a) + 52) as nat;
        if hi < lo {
            lemma_pow2_strictly_increases(hi, lo);
        }
    }
}

pub fn numbers_equal(a: u64, b: u64) -> (equal: bool)
    ensures
        equal == same_number(a, b),
{
    proof {
        lemma_split(a);
        lemma_split(b);
        lemma_units_zero(a);
        lemma_units_zero(b);
        if units(a) == units(b) {
            lemma_units_unique(a, b);
        }
    }
    if is_nan(a) || is_nan(b) {
        false
    } else {
        a == b || (is_zero(a) && is_zero(b))
    }
}

/// The whole part of a double below 2^32 in size, and whether there is no more
/// to it.
fn whole_part(bits: u64) -> (part: (u64, bool))
    requires
        exponent(bits) <= 1054,
    ensures
        part.0 == units(bits) / one(),
        part.1 == (units(bits) % one() == 0),
        part.0 < 0x1_0000_0000,
{
    let e: u64 = (bits / 0x10_0000_0000_0000) % 0x800;
    let f: u64 = bits % 0x10_0000_0000_0000;
    proof {
        lemma_split(bits);
        lemma_units_bounds(bits);
        lemma_units_zero(bits);
        lemma_pow2_pos(1074);
    }
    if e < 1023 {
        proof {
            if e == 0 {
                lemma_pow2_strictly_increases(52, 1074);
            } else if e < 1022 {
                lemma_pow2_strictly_increases((e + 52) as nat, 1074);
            }
            assert(units(bits) < one());
            lemma_fundamental_div_mod_converse(
                units(bits) as int,
                one() as int,
                0,
                units(bits) as int,
            );
        }
        (0, is_zero(bits))
    } else {
        let m: u64 = 0x10_0000_0000_0000 + f;
        let shift: u64 = 1075 - e;
        let q: u64 = m >> shift;
        let ghost p = pow2((e - 1) as nat) as int;
        let ghost s = pow2(shift as nat) as int;
        proof {
            lemma_pow2_pos((e - 1) as nat);
            lemma_pow2_pos(shift as nat);
            lemma_u64_shr_is_div(m, shift);
            lemma_fundamental_div_mod(m as int, s);
            assert(q * s <= m) by (nonlinear_arith)
                requires
                    m == s * (m as int / s) + m as int % s,
                    q == m as int / s,
                    m as int % s >= 0,
            ;
            lemma_u64_shl_is_mul(q, shift);
        }
        let r: u64 = m - (q << shift);
        proof {
            lemma_pow2_adds((e - 1) as nat, shift as nat);
            lemma2_to64();
            lemma2_to64_rest();
            if shift > 21 {
                lemma_pow2_strictly_increases(21, shift as nat);
            }
            assert(q < 0x1_0000_0000) by (nonlinear_arith)
                requires
                    q * s <= m,
                    m < 0x20_0000_0000_0000,
                    s >= 0x20_0000,
            ;
            assert(0 <= r < s) by (nonlinear_arith)
                requires
                    m == s * (m as int / s) + m as int % s,
                    q == m as int / s,
                    r == m - q * s,
                    0 <= m as int % s < s,
            ;
            assert(m * p == q * (p * s) + r * p && 0 <= r * p < p * s && (r * p == 0 <==> r == 0))
                by (nonlinear_arith)
                requires
                    r == m - q * s,
                    0 <= r < s,
                    p > 0,
            ;
            lemma_fundamental_div_mod_converse(
                units(bits) as int,
                one() as int,
                q as int,
                r * p,
            );
        }
        (q, r == 0)
    }
}

/// A double of this exponent is at least 2^32 in size.
proof fn lemma_large(bits: u64)
    requires
        exponent(bits) > 1054,
    ensures
        units(bits) >= 0x1_0000_0000 * one(),
        units(bits) / one() >= 0x1_0000_0000,
{
    lemma_units_bounds(bits);
    lemma2_to64();
    lemma_pow2_adds(32, 1074);
    lemma_pow2_pos(1074);
    let e = (exponent(bits) + 51) as nat;
    if 1106 < e {
        lemma_pow2_strictly_increases(1106, e);
    }
    lemma_div_is_ordered((0x1_0000_0000 * one()) as int, units(bits) as int, one() as int);
    lemma_div_by_multiple(0x1_0000_0000, one() as int);
}

/// The conversion of a double to `u32`.
pub fn to_u32(bits: u64) -> (n: u32)
    ensures
        n == truncated_u32(bits),
{
    if is_nan(bits) || bits >= 0x8000_0000_0000_0000 {
        return 0;
    }
    if (bits / 0x10_0000_0000_0000) % 0x800 > 1054 {
        proof {
            lemma_large(bits);
        }
        return u32::MAX;
    }
    let (whole, _) = whole_part(bits);
    whole as u32
}

pub fn to_exact_i32(bits: u64) -> (n: Option<i32>)
    ensures
        n == whole_i32(bits),
        match n {
            Some(i) => is_whole(bits, i as int),
            None => is_no_i32(bits),
        },
{
    proof {
        lemma_split(bits);
        lemma_pow2_pos(1074);
    }
    if (bits / 0x10_0000_0000_0000) % 0x800 > 1054 {
        proof {
            if finite(bits) {
                lemma_large(bits);
                assert forall|i: int| i32::MIN <= i <= i32::MAX implies !#[trigger] is_whole(
                    bits,
                    i,
                ) by {
                    if is_whole(bits, i) {
                        lemma_whole_size(bits, i);
                    }
                }
            }
        }
        return None;
    }
    let (whole, exact) = whole_part(bits);
    let below: bool = bits >= 0x8000_0000_0000_0000;
    proof {
        lemma_fundamental_div_mod(units(bits) as int, one() as int);
        assert(one() * whole == whole * one()) by (nonlinear_arith);
        assert((-(whole as int)) * one() == -(whole * one())) by (nonlinear_arith);
        assert forall|i: int| #[trigger] is_whole(bits, i) implies exact && (i == whole || i == -(
        whole as int)) && (below ==> i <= 0) && (!below ==> i >= 0) by {
            lemma_whole_size(bits, i);
        }
        assert forall|i: int, j: int| #[trigger] is_whole(bits, i) && #[trigger] is_whole(
            bits,
            j,
        ) implies i == j by {
            whole_numbers_are_unique(bits, i, j);
        }
    }
    let n: Option<i32> = if !exact {
        None
    } else if below {
        if whole <= 0x8000_0000 {
            Some((-(whole as i64)) as i32)
        } else {
            None
        }
    } else if whole <= 0x7FFF_FFFF {
        Some(whole as i32)
    } else {
        None
    };
    assert(n matches Some(i) ==> is_whole(bits, i as int));
    n
}

proof fn lemma_whole_size(bits: u64, i: int)
    requires
        is_whole(bits, i),
    ensures
        units(bits) % one() == 0,
        units(bits) / one() == (if i < 0 {
            -i
        } else {
            i
        }),
        i != 0 ==> (i < 0) == negative(bits),
{
    lemma_pow2_pos(1074);
    let o = one() as int;
    if i < 0 {
        assert(i * o < 0 && units(bits) == (-i) * o) by (nonlinear_arith)
            requires
                i < 0,
                o > 0,
                i * o == units(bits) || i * o == -(units(bits) as int),
        ;
        lemma_fundamental_div_mod_converse(units(bits) as int, o, -i, 0);
    } else {
        assert(i * o >= 0 && units(bits) == i * o && (i > 0 ==> i * o
            > 0)) by (nonlinear_arith)
            requires
                i >= 0,
                o > 0,
                i * o == units(bits) || i * o == -(units(bits) as int),
        ;
        lemma_fundamental_div_mod_converse(units(bits) as int, o, i, 0);
    }
}

/// The array index that a double stands for: its whole part, where it is a
/// number from zero to the largest `u32`; otherwise the largest `u32`, which
/// stands for no index.
pub open spec fn index_of(bits: u64) -> u32 {
    if finite(bits) && 0 <= signed_units(bits) <= u32::MAX * one() {
        (units(bits) / one()) as u32
    } else {
        u32::MAX
    }
}

pub fn to_index(bits: u64) -> (index: u32)
    ensures
        index == index_of(bits),
{
    proof {
        lemma_split(bits);
        lemma_units_zero(bits);
        lemma_pow2_pos(1074);
        lemma_fundamental_div_mod(0, one() as int);
    }
    if !is_finite(bits) || is_below_zero(bits) {
        return u32::MAX;
    }
    if (bits / 0x10_0000_0000_0000) % 0x800 > 1054 {
        proof {
            lemma_large(bits);
            assert(u32::MAX * one() < 0x1_0000_0000 * one()) by (nonlinear_arith)
                requires
                    one() > 0,
            ;
        }
        return u32::MAX;
    }
    let (whole, exact) = whole_part(bits);
    proof {
        lemma_fundamental_div_mod(units(bits) as int, one() as int);
        assert(one() * whole == whole * one()) by (nonlinear_arith);
        let rest = units(bits) % one();
        assert(units(bits) <= u32::MAX * one() <==> whole < u32::MAX || (whole == u32::MAX
            && rest == 0)) by (nonlinear_arith)
            requires
                units(bits) == whole * one() + rest,
                0 <= rest < one(),
                0 <= whole <= u32::MAX,
        ;
    }
    if whole < 0xFFFF_FFFF || exact {
        whole as u32
    } else {
        u32::MAX
    }
}

/// Equality of numbers is symmetric, and every number but a NaN equals itself.
pub proof fn number_equality_is_symmetric(a: u64, b: u64)
    ensures
        same_number(a, b) == same_number(b, a),
        same_number(a, a) == !nan(a),
{
}

/// A double is at most one whole number.
pub proof fn whole_numbers_are_unique(bits: u64, i: int, j: int)
    requires
        is_whole(bits, i),
        is_whole(bits, j),
    ensures
        i == j,
{
    lemma_whole_size(bits, i);
    lemma_whole_size(bits, j);
}

} // verus!
