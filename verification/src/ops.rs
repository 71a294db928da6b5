//! The value-level semantics of the operators: numeric promotion, the
//! string coercion of addition, two's-complement integer arithmetic,
//! IEEE float arithmetic, and the generic comparison.

use vstd::prelude::*;
use vstd::wrapping::i64_specs;
use crate::expr::CompareOp;
use crate::float::{
    f64_add, f64_div, f64_eq, f64_le, f64_lt, f64_mul, f64_neg, f64_of_i64, f64_of_i64_exec,
    f64_rem, f64_sub,
};
use crate::global::Context;
use crate::statement::CodeExecError;
use crate::variable::{val_str, vmodel, ValSpec, VarType};

verus! {

/// The arithmetic operator kinds.
pub enum ArithOp {
    Add,
    Sub,
    Mul,
    Div,
    Mod,
}

pub open spec fn iabs(a: int) -> int {
    if a < 0 {
        -a
    } else {
        a
    }
}

/// Truncating division, as the native `/` of the host integers computes it.
pub open spec fn tdiv(a: int, b: int) -> int {
    if (a < 0) == (b < 0) {
        iabs(a) / iabs(b)
    } else {
        -(iabs(a) / iabs(b))
    }
}

/// The remainder paired with truncating division: it has the sign of the
/// dividend.
pub open spec fn tmod(a: int, b: int) -> int {
    a - b * tdiv(a, b)
}

/// Whether two values are of one kind, so that promotion leaves them alone.
pub open spec fn same_kind(a: ValSpec, b: ValSpec) -> bool {
    match (a, b) {
        (ValSpec::Nzero, ValSpec::Nzero) => true,
        (ValSpec::Bool(_), ValSpec::Bool(_)) => true,
        (ValSpec::Int(_), ValSpec::Int(_)) => true,
        (ValSpec::Float(_), ValSpec::Float(_)) => true,
        (ValSpec::Str(_), ValSpec::Str(_)) => true,
        (ValSpec::Tuple(_), ValSpec::Tuple(_)) => true,
        (ValSpec::Ref(_), ValSpec::Ref(_)) => true,
        _ => false,
    }
}

/// Numeric promotion: an `Int` paired with a `Float` becomes a `Float`; a
/// pair of one kind stays; anything else is a type mismatch.
pub open spec fn promote2(a: ValSpec, b: ValSpec) -> Option<(ValSpec, ValSpec)> {
    match (a, b) {
        (ValSpec::Int(x), ValSpec::Float(y)) => Some(
            (ValSpec::Float(f64_of_i64(x)), ValSpec::Float(y)),
        ),
        (ValSpec::Float(x), ValSpec::Int(y)) => Some(
            (ValSpec::Float(x), ValSpec::Float(f64_of_i64(y))),
        ),
        _ => if same_kind(a, b) {
            Some((a, b))
        } else {
            None
        },
    }
}

/// What addition returns: string coercion when either side is a string,
/// else promoted numeric addition; `Err` is a type mismatch.
pub open spec fn add_spec(a: ValSpec, b: ValSpec) -> Result<ValSpec, ()> {
    if a is Str || b is Str {
        Ok(ValSpec::Str(val_str(a) + val_str(b)))
    } else {
        match promote2(a, b) {
            Some((ValSpec::Int(x), ValSpec::Int(y))) => Ok(
                ValSpec::Int(i64_specs::wrapping_add(x, y)),
            ),
            Some((ValSpec::Float(x), ValSpec::Float(y))) => Ok(ValSpec::Float(f64_add(x, y))),
            _ => Err(()),
        }
    }
}

/// What the remaining arithmetic operators return on a promoted pair;
/// division and modulus by integer zero are errors, as is the one overflow
/// of truncating division.
pub open spec fn arith_spec(op: ArithOp, a: ValSpec, b: ValSpec) -> Result<ValSpec, ()> {
    match promote2(a, b) {
        Some((ValSpec::Int(x), ValSpec::Int(y))) => match op {
            ArithOp::Add => Ok(ValSpec::Int(i64_specs::wrapping_add(x, y))),
            ArithOp::Sub => Ok(ValSpec::Int(i64_specs::wrapping_sub(x, y))),
            ArithOp::Mul => Ok(ValSpec::Int(i64_specs::wrapping_mul(x, y))),
            ArithOp::Div => if y == 0 || (x == i64::MIN && y == -1) {
                Err(())
            } else {
                Ok(ValSpec::Int(tdiv(x as int, y as int) as i64))
            },
            ArithOp::Mod => if y == 0 || (x == i64::MIN && y == -1) {
                Err(())
            } else {
                Ok(ValSpec::Int(tmod(x as int, y as int) as i64))
            },
        },
        Some((ValSpec::Float(x), ValSpec::Float(y))) => match op {
            ArithOp::Add => Ok(ValSpec::Float(f64_add(x, y))),
            ArithOp::Sub => Ok(ValSpec::Float(f64_sub(x, y))),
            ArithOp::Mul => Ok(ValSpec::Float(f64_mul(x, y))),
            ArithOp::Div => Ok(ValSpec::Float(f64_div(x, y))),
            ArithOp::Mod => Ok(ValSpec::Float(f64_rem(x, y))),
        },
        _ => Err(()),
    }
}

/// Lexicographic order on text, character by character.
pub open spec fn str_lt(a: Seq<char>, b: Seq<char>) -> bool
    decreases a.len(),
{
    if b.len() == 0 {
        false
    } else if a.len() == 0 {
        true
    } else if (a[0] as int) < (b[0] as int) {
        true
    } else if (a[0] as int) > (b[0] as int) {
        false
    } else {
        str_lt(a.drop_first(), b.drop_first())
    }
}

/// What a comparison returns on a promoted pair: the usual order on
/// booleans, integers, text, and the IEEE order on floats (false against
/// NaN); any other promoted kind is a type mismatch.
pub open spec fn cmp_spec(op: CompareOp, a: ValSpec, b: ValSpec) -> Result<ValSpec, ()> {
    match promote2(a, b) {
        Some((ValSpec::Bool(x), ValSpec::Bool(y))) => Ok(
            ValSpec::Bool(cmp_by(op, !x && y, x == y)),
        ),
        Some((ValSpec::Int(x), ValSpec::Int(y))) => Ok(ValSpec::Bool(cmp_by(op, x < y, x == y))),
        Some((ValSpec::Float(x), ValSpec::Float(y))) => Ok(
            ValSpec::Bool(
                match op {
                    CompareOp::Less => f64_lt(x, y),
                    CompareOp::Greater => f64_lt(y, x),
                    CompareOp::Equal => f64_eq(x, y),
                    CompareOp::NotEqual => !f64_eq(x, y),
                    CompareOp::LessEqual => f64_le(x, y),
                    CompareOp::GreaterEqual => f64_le(y, x),
                },
            ),
        ),
        Some((ValSpec::Str(x), ValSpec::Str(y))) => Ok(
            ValSpec::Bool(cmp_by(op, str_lt(x, y), x == y)),
        ),
        _ => Err(()),
    }
}

/// A comparison flavor applied to a strict order and an equality.
pub open spec fn cmp_by(op: CompareOp, lt: bool, eq: bool) -> bool {
    match op {
        CompareOp::Less => lt,
        CompareOp::Greater => !lt && !eq,
        CompareOp::Equal => eq,
        CompareOp::NotEqual => !eq,
        CompareOp::LessEqual => lt || eq,
        CompareOp::GreaterEqual => !lt,
    }
}

/// What unary negation returns: arithmetic negation of the numeric kinds,
/// a type mismatch elsewhere.
pub open spec fn neg_spec(a: ValSpec) -> Result<ValSpec, ()> {
    match a {
        ValSpec::Int(x) => Ok(ValSpec::Int(i64_specs::wrapping_sub(0, x))),
        ValSpec::Float(x) => Ok(ValSpec::Float(f64_neg(x))),
        _ => Err(()),
    }
}

/// The magnitude of a signed integer, as an unsigned one.
pub fn abs_u64(a: i64) -> (r: u64)
    ensures
        r as int == iabs(a as int),
{
    if a >= 0 {
        a as u64
    } else if a == i64::MIN {
        0x8000_0000_0000_0000u64
    } else {
        (-a) as u64
    }
}

/// Truncating division on the host integers, free of panics by its
/// preconditions.
pub fn int_div(a: i64, b: i64) -> (r: i64)
    requires
        b != 0,
        !(a == i64::MIN && b == -1),
    ensures
        r as int == tdiv(a as int, b as int),
{
    let ua = abs_u64(a);
    let ub = abs_u64(b);
    let q = ua / ub;
    proof {
        assert(q <= ua) by (nonlinear_arith)
            requires
                ub >= 1,
                q == ua / ub,
                ua >= 0,
        ;
        if ua == 0x8000_0000_0000_0000u64 {
            assert(ub >= 2 ==> q < 0x8000_0000_0000_0000u64) by (nonlinear_arith)
                requires
                    q == ua / ub,
                    ua == 0x8000_0000_0000_0000u64,
            ;
        }
    }
    if (a < 0) == (b < 0) {
        proof {
            if ua == 0x8000_0000_0000_0000u64 {
                assert(b <= -2);
            }
        }
        q as i64
    } else {
        if q == 0 {
            0
        } else if q == 0x8000_0000_0000_0000u64 {
            i64::MIN
        } else {
            -(q as i64)
        }
    }
}

/// The remainder of truncating division, with the sign of the dividend.
pub fn int_rem(a: i64, b: i64) -> (r: i64)
    requires
        b != 0,
        !(a == i64::MIN && b == -1),
    ensures
        r as int == tmod(a as int, b as int),
{
    let ua = abs_u64(a);
    let ub = abs_u64(b);
    let q = ua / ub;
    let m = ua % ub;
    proof {
        assert(ua == ub * q + m && m < ub) by (nonlinear_arith)
            requires
                ub >= 1,
                q == ua / ub,
                m == ua % ub,
                ua >= 0,
        ;
        lemma_tmod_magnitude(a as int, b as int, q as int, m as int);
    }
    if a >= 0 {
        m as i64
    } else {
        if m == 0 {
            0
        } else {
            -(m as i64)
        }
    }
}

/// Relating the magnitude form of division to the truncating remainder.
proof fn lemma_tmod_magnitude(a: int, b: int, q: int, m: int)
    requires
        b != 0,
        iabs(a) == iabs(b) * q + m,
        0 <= m < iabs(b),
        q == iabs(a) / iabs(b),
    ensures
        a >= 0 ==> tmod(a, b) == m,
        a < 0 ==> tmod(a, b) == -m,
{
    if (a < 0) == (b < 0) {
        assert(tdiv(a, b) == q);
        if a >= 0 {
            assert(b > 0);
            assert(a == b * q + m);
            assert(a - b * q == m);
        } else {
            assert(b < 0);
            assert(-a == -b * q + m);
            assert(b * q == -(-b * q)) by (nonlinear_arith);
            assert(a - b * q == -m);
        }
    } else {
        assert(tdiv(a, b) == -q);
        if a >= 0 {
            assert(b < 0);
            assert(a == -b * q + m);
            assert(b * (-q) == -b * q) by (nonlinear_arith);
            assert(a - b * (-q) == m);
        } else {
            assert(b > 0);
            assert(-a == b * q + m);
            assert(b * (-q) == -(b * q)) by (nonlinear_arith);
            assert(a - b * (-q) == -m);
        }
    }
}

/// Relies on std's lexicographic order on text: `str` compares by character
/// code points.
#[verifier::external_body]
pub fn str_lt_exec(a: &String, b: &String) -> (r: bool)
    ensures
        r == str_lt(a@, b@),
{
    a < b
}

/// The promotion rule as run by the evaluator.
pub fn promote_type(ctx: &Context, lhs: VarType, rhs: VarType) -> (r: Result<
    (VarType, VarType),
    CodeExecError,
>)
    ensures
        r is Ok <==> promote2(vmodel(lhs), vmodel(rhs)) is Some,
        r matches Ok((a, b)) ==> Some((vmodel(a), vmodel(b))) == promote2(
            vmodel(lhs),
            vmodel(rhs),
        ),
{
    match (lhs, rhs) {
        (VarType::Int(x), VarType::Float(y)) => Ok(
            (VarType::Float(f64_of_i64_exec(x)), VarType::Float(y)),
        ),
        (VarType::Float(x), VarType::Int(y)) => Ok(
            (VarType::Float(x), VarType::Float(f64_of_i64_exec(y))),
        ),
        (l, r) => {
            let same = match (&l, &r) {
                (VarType::Nzero, VarType::Nzero) => true,
                (VarType::Bool(_), VarType::Bool(_)) => true,
                (VarType::Int(_), VarType::Int(_)) => true,
                (VarType::Float(_), VarType::Float(_)) => true,
                (VarType::String(_), VarType::String(_)) => true,
                (VarType::Tuple(_), VarType::Tuple(_)) => true,
                (VarType::Ref(_), VarType::Ref(_)) => true,
                _ => false,
            };
            if same {
                Ok((l, r))
            } else {
                let mut desc = "Type error: ".to_owned();
                desc.append(l.to_string().as_str());
                desc.append(", ");
                desc.append(r.to_string().as_str());
                Err(CodeExecError::new(ctx, desc))
            }
        },
    }
}

/// The promotion law of addition: an integer paired with a float is added
/// as floats after conversion, two integers stay integers, and a string on
/// either side turns addition into concatenation of the renderings, the
/// same way on both sides.
pub proof fn lemma_numeric_promotion(i: i64, f: u64, x: i64, y: i64)
    ensures
        add_spec(ValSpec::Int(i), ValSpec::Float(f)) == Ok::<ValSpec, ()>(
            ValSpec::Float(f64_add(f64_of_i64(i), f)),
        ),
        add_spec(ValSpec::Float(f), ValSpec::Int(i)) == Ok::<ValSpec, ()>(
            ValSpec::Float(f64_add(f, f64_of_i64(i))),
        ),
        add_spec(ValSpec::Int(x), ValSpec::Int(y)) == Ok::<ValSpec, ()>(
            ValSpec::Int(i64_specs::wrapping_add(x, y)),
        ),
{
}

/// The string-coercion law of addition is symmetric: whichever side is the
/// string, the result is the rendering of the left operand followed by the
/// rendering of the right one.
pub proof fn lemma_string_coercion(a: ValSpec, b: ValSpec)
    requires
        a is Str || b is Str,
    ensures
        add_spec(a, b) == Ok::<ValSpec, ()>(ValSpec::Str(val_str(a) + val_str(b))),
{
}

impl CodeExecError {
    /// A runtime error in the given scope.
    pub fn new(_ctx: &Context, desc: String) -> (r: CodeExecError)
        ensures
            r.desc@ == desc@,
    {
        CodeExecError { desc }
    }
}

} // verus!
