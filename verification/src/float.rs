//! Bit-level model of the language's 64-bit IEEE floating-point values.
//!
//! A `Float` value is carried as its raw 64-bit pattern. Equality, ordering,
//! truthiness, negation and the nearest-representable-neighbor stepping are
//! pure bit logic and are verified here. Rounding arithmetic (add, sub, mul,
//! div, rem), conversion from integers and decimal formatting are delegated
//! to an outside software implementation of IEEE arithmetic behind trusted
//! wrappers whose results are given names.

use vstd::prelude::*;
use rustc_apfloat::ieee::Double;
use rustc_apfloat::Float as ApFloat;

verus! {

pub const F64_SIGN_MASK: u64 = 0x8000_0000_0000_0000;

pub const F64_MAG_MASK: u64 = 0x7fff_ffff_ffff_ffff;

pub const F64_INF_BITS: u64 = 0x7ff0_0000_0000_0000;

pub const F64_NEG_INF_BITS: u64 = 0xfff0_0000_0000_0000;

pub const F64_ONE_BITS: u64 = 0x3ff0_0000_0000_0000;

/// The pattern encodes a NaN: exponent all ones and mantissa nonzero, which
/// is exactly a magnitude above that of infinity.
pub open spec fn f64_is_nan(b: u64) -> bool {
    b & F64_MAG_MASK > F64_INF_BITS
}

/// Signed-magnitude reading of a pattern: the standard trick that turns the
/// IEEE order of non-NaN values into integer order. Both zeros map to 0.
pub open spec fn f64_total(b: u64) -> int {
    if b & F64_SIGN_MASK == 0 {
        (b & F64_MAG_MASK) as int
    } else {
        -((b & F64_MAG_MASK) as int)
    }
}

/// IEEE equality of two patterns: false when either is NaN; the two zeros
/// are equal.
pub open spec fn f64_eq(a: u64, b: u64) -> bool {
    &&& !f64_is_nan(a)
    &&& !f64_is_nan(b)
    &&& f64_total(a) == f64_total(b)
}

/// IEEE strict order of two patterns: false when either is NaN.
pub open spec fn f64_lt(a: u64, b: u64) -> bool {
    &&& !f64_is_nan(a)
    &&& !f64_is_nan(b)
    &&& f64_total(a) < f64_total(b)
}

pub open spec fn f64_le(a: u64, b: u64) -> bool {
    &&& !f64_is_nan(a)
    &&& !f64_is_nan(b)
    &&& f64_total(a) <= f64_total(b)
}

/// The pattern is one of the two zeros; every other value, NaN included,
/// counts as nonzero (and so as truthy).
pub open spec fn f64_is_zero(b: u64) -> bool {
    b & F64_MAG_MASK == 0
}

/// IEEE negation flips the sign bit and nothing else.
pub open spec fn f64_neg(b: u64) -> u64 {
    b ^ F64_SIGN_MASK
}

/// The nearest representable value strictly above, except that NaN and
/// positive infinity step to themselves.
pub open spec fn f64_next_up(b: u64) -> u64 {
    if f64_is_nan(b) || b == F64_INF_BITS {
        b
    } else if b & F64_MAG_MASK == 0 {
        1u64
    } else if b & F64_SIGN_MASK == 0 {
        (b + 1) as u64
    } else {
        (b - 1) as u64
    }
}

/// The nearest representable value strictly below, except that NaN and
/// negative infinity step to themselves.
pub open spec fn f64_next_down(b: u64) -> u64 {
    if f64_is_nan(b) || b == F64_NEG_INF_BITS {
        b
    } else if b & F64_MAG_MASK == 0 {
        (F64_SIGN_MASK + 1) as u64
    } else if b & F64_SIGN_MASK == 0 {
        (b - 1) as u64
    } else {
        (b + 1) as u64
    }
}

pub fn f64_is_nan_exec(b: u64) -> (r: bool)
    ensures
        r == f64_is_nan(b),
{
    b & F64_MAG_MASK > F64_INF_BITS
}

pub fn f64_is_zero_exec(b: u64) -> (r: bool)
    ensures
        r == f64_is_zero(b),
{
    b & F64_MAG_MASK == 0
}

pub fn f64_neg_exec(b: u64) -> (r: u64)
    ensures
        r == f64_neg(b),
{
    b ^ F64_SIGN_MASK
}

pub fn f64_eq_exec(a: u64, b: u64) -> (r: bool)
    ensures
        r == f64_eq(a, b),
{
    if f64_is_nan_exec(a) || f64_is_nan_exec(b) {
        false
    } else {
        let sa = (a & F64_SIGN_MASK) != 0;
        let sb = (b & F64_SIGN_MASK) != 0;
        let ma = a & F64_MAG_MASK;
        let mb = b & F64_MAG_MASK;
        if sa == sb {
            ma == mb
        } else {
            ma == 0 && mb == 0
        }
    }
}

pub fn f64_lt_exec(a: u64, b: u64) -> (r: bool)
    ensures
        r == f64_lt(a, b),
{
    if f64_is_nan_exec(a) || f64_is_nan_exec(b) {
        false
    } else {
        let sa = (a & F64_SIGN_MASK) != 0;
        let sb = (b & F64_SIGN_MASK) != 0;
        let ma = a & F64_MAG_MASK;
        let mb = b & F64_MAG_MASK;
        if !sa && !sb {
            ma < mb
        } else if !sa && sb {
            false
        } else if sa && !sb {
            ma != 0 || mb != 0
        } else {
            mb < ma
        }
    }
}

pub fn f64_le_exec(a: u64, b: u64) -> (r: bool)
    ensures
        r == f64_le(a, b),
{
    if f64_is_nan_exec(a) || f64_is_nan_exec(b) {
        false
    } else {
        !f64_lt_exec(b, a)
    }
}

pub fn f64_next_up_exec(b: u64) -> (r: u64)
    ensures
        r == f64_next_up(b),
{
    if f64_is_nan_exec(b) || b == F64_INF_BITS {
        b
    } else if b & F64_MAG_MASK == 0 {
        1u64
    } else if b & F64_SIGN_MASK == 0 {
        proof {
            assert(b & F64_SIGN_MASK == 0 ==> b < 0x8000_0000_0000_0000) by (bit_vector);
        }
        b + 1
    } else {
        proof {
            assert(b & F64_SIGN_MASK != 0 ==> b >= 0x8000_0000_0000_0000) by (bit_vector);
        }
        b - 1
    }
}

pub fn f64_next_down_exec(b: u64) -> (r: u64)
    ensures
        r == f64_next_down(b),
{
    if f64_is_nan_exec(b) || b == F64_NEG_INF_BITS {
        b
    } else if b & F64_MAG_MASK == 0 {
        F64_SIGN_MASK + 1
    } else if b & F64_SIGN_MASK == 0 {
        proof {
            assert(b & 0x7fff_ffff_ffff_ffffu64 != 0 ==> b != 0) by (bit_vector);
        }
        b - 1
    } else {
        proof {
            assert(!(b & 0x7fff_ffff_ffff_ffffu64 > 0x7ff0_0000_0000_0000u64)
                ==> b != 0xffff_ffff_ffff_ffffu64) by (bit_vector);
        }
        b + 1
    }
}

/// The neighbor law upward: on every value that is neither NaN nor
/// positive infinity, the step up lands strictly above in the IEEE order.
pub proof fn lemma_next_up_strictly_above(b: u64)
    requires
        !f64_is_nan(b),
        b != F64_INF_BITS,
    ensures
        f64_lt(b, f64_next_up(b)),
{
    let r = f64_next_up(b);
    if b & F64_MAG_MASK == 0 {
        assert(b & 0x8000_0000_0000_0000u64 == 0 || b == 0x8000_0000_0000_0000u64)
            by (bit_vector)
            requires
                b & 0x7fff_ffff_ffff_ffffu64 == 0,
        ;
        assert(1u64 & 0x7fff_ffff_ffff_ffffu64 == 1 && 1u64 & 0x8000_0000_0000_0000u64 == 0)
            by (bit_vector);
        assert(0x8000_0000_0000_0000u64 & 0x8000_0000_0000_0000u64 != 0) by (bit_vector);
    } else if b & F64_SIGN_MASK == 0 {
        assert((b & 0x8000_0000_0000_0000u64 == 0 && b & 0x7fff_ffff_ffff_ffffu64
            <= 0x7ff0_0000_0000_0000u64 && b != 0x7ff0_0000_0000_0000u64) ==> (((b
            + 1) as u64) & 0x8000_0000_0000_0000u64 == 0 && ((b + 1) as u64)
            & 0x7fff_ffff_ffff_ffffu64 == ((b + 1) as u64) && ((b + 1) as u64) == b + 1 && b
            & 0x7fff_ffff_ffff_ffffu64 == b)) by (bit_vector);
    } else {
        assert((b & 0x8000_0000_0000_0000u64 != 0 && b & 0x7fff_ffff_ffff_ffffu64 != 0 && b
            & 0x7fff_ffff_ffff_ffffu64 <= 0x7ff0_0000_0000_0000u64) ==> (((b - 1) as u64)
            & 0x8000_0000_0000_0000u64 != 0 && ((b - 1) as u64) & 0x7fff_ffff_ffff_ffffu64
            == (b & 0x7fff_ffff_ffff_ffffu64) - 1 && ((b - 1) as u64) == b - 1))
            by (bit_vector);
    }
}

/// The neighbor law downward: on every value that is neither NaN nor
/// negative infinity, the step down lands strictly below in the IEEE order.
pub proof fn lemma_next_down_strictly_below(b: u64)
    requires
        !f64_is_nan(b),
        b != F64_NEG_INF_BITS,
    ensures
        f64_lt(f64_next_down(b), b),
{
    let r = f64_next_down(b);
    if b & F64_MAG_MASK == 0 {
        assert(b & 0x8000_0000_0000_0000u64 == 0 || b == 0x8000_0000_0000_0000u64)
            by (bit_vector)
            requires
                b & 0x7fff_ffff_ffff_ffffu64 == 0,
        ;
        assert(0x8000_0000_0000_0001u64 & 0x7fff_ffff_ffff_ffffu64 == 1
            && 0x8000_0000_0000_0001u64 & 0x8000_0000_0000_0000u64 != 0) by (bit_vector);
        assert(0x8000_0000_0000_0000u64 & 0x8000_0000_0000_0000u64 != 0) by (bit_vector);
    } else if b & F64_SIGN_MASK == 0 {
        assert((b & 0x8000_0000_0000_0000u64 == 0 && b & 0x7fff_ffff_ffff_ffffu64 != 0 && b
            & 0x7fff_ffff_ffff_ffffu64 <= 0x7ff0_0000_0000_0000u64) ==> (((b - 1) as u64)
            & 0x8000_0000_0000_0000u64 == 0 && ((b - 1) as u64) & 0x7fff_ffff_ffff_ffffu64
            == (b & 0x7fff_ffff_ffff_ffffu64) - 1 && ((b - 1) as u64) == b - 1 && b
            & 0x7fff_ffff_ffff_ffffu64 == b)) by (bit_vector);
    } else {
        assert((b & 0x8000_0000_0000_0000u64 != 0 && !(b & 0x7fff_ffff_ffff_ffffu64
            > 0x7ff0_0000_0000_0000u64) && b != 0xfff0_0000_0000_0000u64 && b
            & 0x7fff_ffff_ffff_ffffu64 != 0) ==> (((b + 1) as u64)
            & 0x8000_0000_0000_0000u64 != 0 && ((b + 1) as u64) & 0x7fff_ffff_ffff_ffffu64
            == (b & 0x7fff_ffff_ffff_ffffu64) + 1 && ((b + 1) as u64) == b + 1 && b
            & 0x7fff_ffff_ffff_ffffu64 < 0x7ff0_0000_0000_0000u64)) by (bit_vector);
    }
}

/// The pattern of `m * 2^-52` for the low 52 bits `m` of a draw: a value in
/// the unit interval `[0, 1)`, built by normalizing the integer into IEEE
/// form; used by the wobble operator's sampling.
pub fn f64_unit_exec(k: u64) -> (r: u64)
    ensures
        !f64_is_nan(r),
        0 <= f64_total(r) < F64_ONE_BITS,
{
    let m = k & 0x000f_ffff_ffff_ffff;
    if m == 0 {
        proof {
            assert(0u64 & 0x7fff_ffff_ffff_ffffu64 == 0 && 0u64 & 0x8000_0000_0000_0000u64 == 0)
                by (bit_vector);
        }
        return 0u64;
    }
    let mut h: u64 = 51;
    proof {
        assert(m & 0x000f_ffff_ffff_ffffu64 == m ==> m >> 52 == 0) by (bit_vector);
        assert((k & 0x000f_ffff_ffff_ffff) & 0x000f_ffff_ffff_ffffu64 == (k
            & 0x000f_ffff_ffff_ffff)) by (bit_vector);
    }
    while (m >> h) & 1 == 0
        invariant
            h <= 51,
            m != 0,
            m >> (h + 1) == 0,
        decreases h,
    {
        proof {
            assert(((m >> (h + 1)) == 0 && (m >> h) & 1 == 0) ==> (m >> h) == 0)
                by (bit_vector);
            assert((h == 0 && (m >> h) == 0) ==> m == 0) by (bit_vector);
        }
        h = h - 1;
    }
    let e: u64 = 971 + h;
    let sh: u64 = 52 - h;
    let mant: u64 = (m ^ (1u64 << h)) << sh;
    let bits = (e << 52) | mant;
    proof {
        let s2 = sh;
        assert((h <= 51 && h + s2 == 52 && (m >> (h + 1)) == 0 && (m >> h) & 1 == 1) ==> ((m ^ (
        1u64 << h)) << s2) < 0x0010_0000_0000_0000u64) by (bit_vector);
        assert((m >> h) & 1 != 0 ==> (m >> h) & 1 == 1) by (bit_vector);
        let e2 = e;
        let m2 = mant;
        assert((e2 <= 1022 && m2 < 0x0010_0000_0000_0000u64) ==> (((e2 << 52) | m2)
            < 0x3ff0_0000_0000_0000u64 && ((e2 << 52) | m2) & 0x8000_0000_0000_0000u64 == 0
            && ((e2 << 52) | m2) & 0x7fff_ffff_ffff_ffffu64 == ((e2 << 52) | m2)))
            by (bit_vector);
        assert(!f64_is_nan(bits));
        assert(f64_total(bits) == bits);
    }
    bits
}

/// The pattern of the IEEE double sum of the two argument patterns, rounded
/// to nearest, ties to even.
pub uninterp spec fn f64_add(a: u64, b: u64) -> u64;

/// The pattern of the IEEE double difference, rounded to nearest, ties to
/// even.
pub uninterp spec fn f64_sub(a: u64, b: u64) -> u64;

/// The pattern of the IEEE double product, rounded to nearest, ties to even.
pub uninterp spec fn f64_mul(a: u64, b: u64) -> u64;

/// The pattern of the IEEE double quotient, rounded to nearest, ties to
/// even.
pub uninterp spec fn f64_div(a: u64, b: u64) -> u64;

/// The pattern of the IEEE double remainder with the sign of the dividend
/// (the `fmod` operation, which is what `%` computes on doubles).
pub uninterp spec fn f64_rem(a: u64, b: u64) -> u64;

/// The pattern of the IEEE double nearest to the given 64-bit signed
/// integer, ties to even.
pub uninterp spec fn f64_of_i64(i: i64) -> u64;

/// The decimal rendering of the value behind a pattern.
pub uninterp spec fn f64_str(b: u64) -> Seq<char>;

/// Relies on rustc_apfloat: addition of two IEEE doubles, rounded to
/// nearest, ties to even, on raw bit patterns.
#[verifier::external_body]
pub fn f64_add_exec(a: u64, b: u64) -> (r: u64)
    ensures
        r == f64_add(a, b),
{
    let x = Double::from_bits(a as u128);
    let y = Double::from_bits(b as u128);
    (x + y).value.to_bits() as u64
}

/// Relies on rustc_apfloat: subtraction of two IEEE doubles, rounded to
/// nearest, ties to even, on raw bit patterns.
#[verifier::external_body]
pub fn f64_sub_exec(a: u64, b: u64) -> (r: u64)
    ensures
        r == f64_sub(a, b),
{
    let x = Double::from_bits(a as u128);
    let y = Double::from_bits(b as u128);
    (x - y).value.to_bits() as u64
}

/// Relies on rustc_apfloat: multiplication of two IEEE doubles, rounded to
/// nearest, ties to even, on raw bit patterns.
#[verifier::external_body]
pub fn f64_mul_exec(a: u64, b: u64) -> (r: u64)
    ensures
        r == f64_mul(a, b),
{
    let x = Double::from_bits(a as u128);
    let y = Double::from_bits(b as u128);
    (x * y).value.to_bits() as u64
}

/// Relies on rustc_apfloat: division of two IEEE doubles, rounded to
/// nearest, ties to even, on raw bit patterns.
#[verifier::external_body]
pub fn f64_div_exec(a: u64, b: u64) -> (r: u64)
    ensures
        r == f64_div(a, b),
{
    let x = Double::from_bits(a as u128);
    let y = Double::from_bits(b as u128);
    (x / y).value.to_bits() as u64
}

/// Relies on rustc_apfloat's `c_fmod`: the remainder with the sign of the
/// dividend, which is what `%` computes on doubles.
#[verifier::external_body]
pub fn f64_rem_exec(a: u64, b: u64) -> (r: u64)
    ensures
        r == f64_rem(a, b),
{
    let x = Double::from_bits(a as u128);
    let y = Double::from_bits(b as u128);
    x.c_fmod(y).value.to_bits() as u64
}

/// Relies on rustc_apfloat's `from_i128`: the IEEE double nearest to a
/// 64-bit signed integer, ties to even.
#[verifier::external_body]
pub fn f64_of_i64_exec(i: i64) -> (r: u64)
    ensures
        r == f64_of_i64(i),
{
    Double::from_i128(i as i128).value.to_bits() as u64
}

/// Relies on rustc_apfloat's decimal formatting of an IEEE double, which
/// depends on the bit pattern alone.
#[verifier::external_body]
pub fn f64_str_exec(b: u64) -> (r: String)
    ensures
        r@ == f64_str(b),
{
    format!("{}", Double::from_bits(b as u128))
}

} // verus!
