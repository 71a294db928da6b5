//! The expression tree that the executor walks, and its recursive
//! evaluator.
//!
//! Evaluation is defined against a pure specification (`eval_pure`) that
//! pins the result of every expression free of calls and sampling; the
//! impure node kinds (node invocation and the wobble operator) are specified
//! by the contracts of their own functions.

use vstd::prelude::*;
use crate::data::{memdata_get_spec, memdata_set_ok_spec, memdata_set_spec, MemData};
use crate::float::{f64_eq, f64_is_nan, f64_total, f64_unit_exec, F64_ONE_BITS};
use crate::global::{lookup_sym, Context, Global};
use crate::rng::Rng;
use crate::statement::CodeExecError;
use crate::variable::{val_str, vmodel, Array, ValSpec, VarType};

verus! {

/// The outcome that the pure fragment of the language pins down: a value, a
/// guaranteed runtime error, or a node outside the fragment (a call or a
/// sampling operator).
pub enum PureOut {
    Val(ValSpec),
    Fail,
    Impure,
}

/// The same, for a left-to-right sequence of expressions.
pub enum SeqOut {
    Vals(Seq<ValSpec>),
    Fail,
    Impure,
}

/// The same, for the key position of a member access.
pub enum KeyOut {
    Key(Seq<char>),
    Fail,
    Impure,
}

/// A comparison flavor; also selects the behavior of the assignment
/// statement.
#[derive(Debug)]
pub enum CompareOp {
    Less,
    Greater,
    Equal,
    NotEqual,
    LessEqual,
    GreaterEqual,
}

/// An expression tree node.
#[derive(Debug)]
pub enum Expr {
    Literal(LiteralExpr),
    Identifier(IdentifierExpr),
    Add(AddExpr),
    Sub(SubExpr),
    Mul(MulExpr),
    Div(DivExpr),
    Mod(ModExpr),
    Cmp(CompareExpr),
    Not(NotExpr),
    Neg(NegExpr),
    Tuple(TupleExpr),
    Array(TupleExpr),
    Member(MemberExpr),
    NodeCall(NodeCallExpr),
}

#[derive(Debug)]
pub struct LiteralExpr {
    pub value: VarType,
}

#[derive(Debug)]
pub struct IdentifierExpr {
    pub name: String,
}

#[derive(Debug)]
pub struct AddExpr {
    pub lhs: Box<Expr>,
    pub rhs: Box<Expr>,
}

#[derive(Debug)]
pub struct SubExpr {
    pub lhs: Box<Expr>,
    pub rhs: Box<Expr>,
}

#[derive(Debug)]
pub struct MulExpr {
    pub lhs: Box<Expr>,
    pub rhs: Box<Expr>,
}

#[derive(Debug)]
pub struct DivExpr {
    pub lhs: Box<Expr>,
    pub rhs: Box<Expr>,
}

#[derive(Debug)]
pub struct ModExpr {
    pub lhs: Box<Expr>,
    pub rhs: Box<Expr>,
}

#[derive(Debug)]
pub struct CompareExpr {
    pub lhs: Box<Expr>,
    pub rhs: Box<Expr>,
    pub op: CompareOp,
}

#[derive(Debug)]
pub struct NegExpr {
    pub value: Box<Expr>,
}

#[derive(Debug)]
pub struct NotExpr {
    pub value: Box<Expr>,
}

#[derive(Debug)]
pub struct TupleExpr {
    pub values: Vec<Expr>,
}

/// Member access: `lhs` names the key, `rhs` names the owning composite.
#[derive(Debug)]
pub struct MemberExpr {
    pub lhs: Box<Expr>,
    pub rhs: Box<Expr>,
}

#[derive(Debug)]
pub struct NodeCallExpr {
    pub node: Box<Expr>,
    pub args: Box<Expr>,
}

impl Expr {
    /// A literal expression holding the given value.
    pub fn literal(value: VarType) -> (r: Expr)
        ensures
            r == Expr::Literal(LiteralExpr { value }),
    {
        Expr::Literal(LiteralExpr { value })
    }
}

/// The structural size of an expression, the walking measure of the
/// evaluator within one budget step.
pub open spec fn esize(e: Expr) -> nat
    decreases e, 0int,
{
    match e {
        Expr::Literal(_) => 1,
        Expr::Identifier(_) => 1,
        Expr::Add(x) => 1 + esize(*x.lhs) + esize(*x.rhs),
        Expr::Sub(x) => 1 + esize(*x.lhs) + esize(*x.rhs),
        Expr::Mul(x) => 1 + esize(*x.lhs) + esize(*x.rhs),
        Expr::Div(x) => 1 + esize(*x.lhs) + esize(*x.rhs),
        Expr::Mod(x) => 1 + esize(*x.lhs) + esize(*x.rhs),
        Expr::Cmp(x) => 1 + esize(*x.lhs) + esize(*x.rhs),
        Expr::Neg(x) => 1 + esize(*x.value),
        Expr::Not(x) => 1 + esize(*x.value),
        Expr::Tuple(t) => 1 + esizes(t.values@, 0),
        Expr::Array(t) => 1 + esizes(t.values@, 0),
        Expr::Member(m) => 1 + esize(*m.lhs) + esize(*m.rhs),
        Expr::NodeCall(x) => 1 + esize(*x.node) + esize(*x.args),
    }
}

/// The summed size of the expressions from position `i` on.
pub open spec fn esizes(es: Seq<Expr>, i: int) -> nat
    decreases es, es.len() - i,
    via esizes_decreases
{
    if i < 0 || i >= es.len() {
        0
    } else {
        esize(es[i]) + esizes(es, i + 1)
    }
}

#[via_fn]
proof fn esizes_decreases(es: Seq<Expr>, i: int) {
    broadcast use vstd::seq::axiom_seq_index_decreases;

    if 0 <= i && i < es.len() {
        assert(decreases_to!(es => es[i]));
    }
}

/// Every expression has positive size.
pub proof fn lemma_esize_pos(e: Expr)
    ensures
        esize(e) >= 1,
{
}

/// What an expression of the pure fragment evaluates to. Calls and the
/// sampling cases of the wobble operator are `Impure`; their behavior is
/// stated on the functions that run them.
pub open spec fn eval_pure(g: &Global, c: int, e: Expr) -> PureOut
    decreases e, 1int,
{
    match e {
        Expr::Literal(l) => PureOut::Val(vmodel(l.value)),
        Expr::Identifier(id) => match lookup_sym(g, c, id.name@) {
            Some(v) => PureOut::Val(v),
            None => PureOut::Fail,
        },
        Expr::Add(_) => bin_pure(g, c, e),
        Expr::Sub(_) => bin_pure(g, c, e),
        Expr::Mul(_) => bin_pure(g, c, e),
        Expr::Div(_) => bin_pure(g, c, e),
        Expr::Mod(_) => bin_pure(g, c, e),
        Expr::Cmp(x) => match eval_pure(g, c, *x.lhs) {
            PureOut::Val(a) => match eval_pure(g, c, *x.rhs) {
                PureOut::Val(b) => lift(crate::ops::cmp_spec(x.op, a, b)),
                other => other,
            },
            other => other,
        },
        Expr::Neg(x) => match eval_pure(g, c, *x.value) {
            PureOut::Val(a) => lift(crate::ops::neg_spec(a)),
            other => other,
        },
        Expr::Not(x) => match eval_pure(g, c, *x.value) {
            PureOut::Val(a) => match a {
                ValSpec::Bool(b) => PureOut::Val(ValSpec::Bool(!b)),
                ValSpec::Str(s) => PureOut::Val(ValSpec::Str("!"@ + s)),
                ValSpec::Ref(_) => PureOut::Val(ValSpec::Nzero),
                ValSpec::Tuple(_) => PureOut::Fail,
                _ => PureOut::Impure,
            },
            other => other,
        },
        Expr::Tuple(t) => seq_to_pure(evals_pure(g, c, t.values@, 0)),
        Expr::Array(t) => seq_to_pure(evals_pure(g, c, t.values@, 0)),
        Expr::Member(m) => match key_pure(g, c, *m.lhs) {
            KeyOut::Key(key) => match eval_pure(g, c, *m.rhs) {
                PureOut::Val(ValSpec::Ref(h)) => if 0 <= h < g.models().len() {
                    PureOut::Val(memdata_get_spec(g.models()[h], key))
                } else {
                    PureOut::Fail
                },
                PureOut::Val(_) => PureOut::Fail,
                other => other,
            },
            KeyOut::Fail => PureOut::Fail,
            KeyOut::Impure => PureOut::Impure,
        },
        Expr::NodeCall(_) => PureOut::Impure,
    }
}

/// A promoted binary arithmetic expression of the pure fragment; addition
/// alone carries the string coercion.
pub open spec fn bin_pure(g: &Global, c: int, e: Expr) -> PureOut
    decreases e, 0int,
{
    let parts = match e {
        Expr::Add(x) => Some((*x.lhs, *x.rhs, crate::ops::ArithOp::Add, true)),
        Expr::Sub(x) => Some((*x.lhs, *x.rhs, crate::ops::ArithOp::Sub, false)),
        Expr::Mul(x) => Some((*x.lhs, *x.rhs, crate::ops::ArithOp::Mul, false)),
        Expr::Div(x) => Some((*x.lhs, *x.rhs, crate::ops::ArithOp::Div, false)),
        Expr::Mod(x) => Some((*x.lhs, *x.rhs, crate::ops::ArithOp::Mod, false)),
        _ => None,
    };
    match parts {
        Some((lhs, rhs, op, with_str)) => match eval_pure(g, c, lhs) {
            PureOut::Val(a) => match eval_pure(g, c, rhs) {
                PureOut::Val(b) => if with_str {
                    lift(crate::ops::add_spec(a, b))
                } else {
                    lift(crate::ops::arith_spec(op, a, b))
                },
                other => other,
            },
            other => other,
        },
        None => PureOut::Fail,
    }
}

/// A value-or-mismatch outcome lifted into the fragment's outcome.
pub open spec fn lift(r: Result<ValSpec, ()>) -> PureOut {
    match r {
        Ok(v) => PureOut::Val(v),
        Err(()) => PureOut::Fail,
    }
}

pub open spec fn seq_to_pure(s: SeqOut) -> PureOut {
    match s {
        SeqOut::Vals(vs) => PureOut::Val(ValSpec::Tuple(vs)),
        SeqOut::Fail => PureOut::Fail,
        SeqOut::Impure => PureOut::Impure,
    }
}

/// Left-to-right evaluation of the expressions from position `i` on; the
/// first error or impure node decides.
pub open spec fn evals_pure(g: &Global, c: int, es: Seq<Expr>, i: int) -> SeqOut
    decreases es, es.len() - i,
    via evals_pure_decreases
{
    if i < 0 || i >= es.len() {
        SeqOut::Vals(Seq::empty())
    } else {
        match eval_pure(g, c, es[i]) {
            PureOut::Val(v) => match evals_pure(g, c, es, i + 1) {
                SeqOut::Vals(rest) => SeqOut::Vals(seq![v] + rest),
                other => other,
            },
            PureOut::Fail => SeqOut::Fail,
            PureOut::Impure => SeqOut::Impure,
        }
    }
}

#[via_fn]
proof fn evals_pure_decreases(g: &Global, c: int, es: Seq<Expr>, i: int) {
    broadcast use vstd::seq::axiom_seq_index_decreases;

    if 0 <= i && i < es.len() {
        assert(decreases_to!(es => es[i]));
    }
}

/// What the key position of a member access names: a plain identifier is
/// taken as text, a bracketed index must be a one-element sequence and is
/// rendered, anything else is evaluated and rendered.
pub open spec fn key_pure(g: &Global, c: int, e: Expr) -> KeyOut
    decreases e, 2int,
{
    match e {
        Expr::Identifier(id) => KeyOut::Key(id.name@),
        Expr::Array(t) => match evals_pure(g, c, t.values@, 0) {
            SeqOut::Vals(vs) => if vs.len() == 1 {
                KeyOut::Key(val_str(vs[0]))
            } else {
                KeyOut::Fail
            },
            SeqOut::Fail => KeyOut::Fail,
            SeqOut::Impure => KeyOut::Impure,
        },
        _ => match eval_pure(g, c, e) {
            PureOut::Val(v) => KeyOut::Key(val_str(v)),
            PureOut::Fail => KeyOut::Fail,
            PureOut::Impure => KeyOut::Impure,
        },
    }
}

/// Where a member access lands when its key and owner are pure: a heap slot
/// and a key, a guaranteed error, or an impure prefix.
pub open spec fn member_path_pure(g: &Global, c: int, m: MemberExpr) -> Result<
    (int, Seq<char>),
    PureOut,
> {
    match key_pure(g, c, *m.lhs) {
        KeyOut::Key(key) => match eval_pure(g, c, *m.rhs) {
            PureOut::Val(ValSpec::Ref(h)) => if 0 <= h < g.models().len() {
                Ok((h, key))
            } else {
                Err(PureOut::Fail)
            },
            PureOut::Val(_) => Err(PureOut::Fail),
            PureOut::Fail => Err(PureOut::Fail),
            PureOut::Impure => Err(PureOut::Impure),
        },
        KeyOut::Fail => Err(PureOut::Fail),
        KeyOut::Impure => Err(PureOut::Impure),
    }
}

/// A draw from the full signed range that avoids one value.
fn sample_int(rng: &mut Rng, value: i64) -> (r: i64)
    ensures
        r != value,
{
    let d = rng.next_u64();
    let s = #[verifier::truncate] (d as i64);
    if s != value {
        s
    } else {
        value.wrapping_add(1)
    }
}

/// A draw from the unit interval that is never IEEE-equal to the given
/// pattern.
fn sample_float(rng: &mut Rng, bits: u64) -> (r: u64)
    ensures
        !f64_eq(r, bits),
        !f64_is_nan(r),
        0 <= f64_total(r) < F64_ONE_BITS,
{
    let d = rng.next_u64();
    let s = f64_unit_exec(d);
    if !crate::float::f64_eq_exec(s, bits) {
        s
    } else {
        let c1: u64 = 0x3fd0_0000_0000_0000;
        let c2: u64 = 0x3fe0_0000_0000_0000;
        proof {
            assert(0x3fd0_0000_0000_0000u64 & 0x7fff_ffff_ffff_ffffu64
                == 0x3fd0_0000_0000_0000u64 && 0x3fd0_0000_0000_0000u64
                & 0x8000_0000_0000_0000u64 == 0) by (bit_vector);
            assert(0x3fe0_0000_0000_0000u64 & 0x7fff_ffff_ffff_ffffu64
                == 0x3fe0_0000_0000_0000u64 && 0x3fe0_0000_0000_0000u64
                & 0x8000_0000_0000_0000u64 == 0) by (bit_vector);
        }
        if !crate::float::f64_eq_exec(c1, bits) {
            c1
        } else {
            c2
        }
    }
}

/// A nonzero draw from the full signed range.
fn sample_nonzero(rng: &mut Rng) -> (r: i64)
    ensures
        r != 0,
{
    sample_int(rng, 0)
}

impl NotExpr {
    /// The wobble operator on an evaluated value: negation on a boolean, a
    /// `!` prefix on text, `Nzero` on a reference, a fresh draw of the same
    /// kind guaranteed different from the input on the numeric kinds, a
    /// fresh nonzero integer on `Nzero`, and a type error on a tuple.
    pub fn not(ctx: &Context, rng: &mut Rng, value: VarType) -> (r: Result<
        VarType,
        CodeExecError,
    >)
        ensures
            match vmodel(value) {
                ValSpec::Bool(b) => r matches Ok(x) && x.model() == ValSpec::Bool(!b),
                ValSpec::Str(s) => r matches Ok(x) && x.model() == ValSpec::Str("!"@ + s),
                ValSpec::Ref(_) => r matches Ok(x) && x.model() == ValSpec::Nzero,
                ValSpec::Int(i) => r matches Ok(x) && match x.model() {
                    ValSpec::Int(w) => w != i,
                    _ => false,
                },
                ValSpec::Float(f) => r matches Ok(x) && match x.model() {
                    ValSpec::Float(w) => !f64_eq(w, f) && !f64_is_nan(w) && 0 <= f64_total(w)
                        < F64_ONE_BITS,
                    _ => false,
                },
                ValSpec::Nzero => r matches Ok(x) && match x.model() {
                    ValSpec::Int(w) => w != 0,
                    _ => false,
                },
                ValSpec::Tuple(_) => r is Err,
            },
    {
        match value {
            VarType::Int(v) => Ok(VarType::Int(sample_int(rng, v))),
            VarType::Float(f) => Ok(VarType::Float(sample_float(rng, f))),
            VarType::String(s) => Ok(VarType::String("!".to_owned().concat(s.as_str()))),
            VarType::Bool(b) => Ok(VarType::Bool(!b)),
            VarType::Ref(_) => Ok(VarType::Nzero),
            VarType::Nzero => Ok(VarType::Int(sample_nonzero(rng))),
            VarType::Tuple(t) => {
                let mut desc = "Type error: cannot wobble ".to_owned();
                desc.append(VarType::Tuple(t).to_string().as_str());
                Err(CodeExecError::new(ctx, desc))
            },
        }
    }
}

impl Expr {
    /// Recursive evaluation. On the pure fragment the result and the
    /// untouched state are pinned exactly; on the impure kinds the state
    /// stays well-formed, the arenas only grow, and the scope stack and
    /// registry are untouched.
    #[verifier::rlimit(100)]
    pub fn eval(&self, g: &mut Global, rng: &mut Rng, ctx: Context, fuel: u64) -> (r: Result<
        VarType,
        CodeExecError,
    >)
        requires
            old(g).wf(),
            (ctx.id as int) < old(g).ctxs@.len(),
        ensures
            final(g).wf(),
            Global::exec_frame(old(g), final(g)),
            match eval_pure(old(g), ctx.id as int, *self) {
                PureOut::Val(v) => (r matches Ok(x) && x.model() == v) && *final(g) == *old(g),
                PureOut::Fail => r is Err && *final(g) == *old(g),
                PureOut::Impure => true,
            },
            match self {
                Expr::NodeCall(x) => match eval_pure(old(g), ctx.id as int, *x.node) {
                    PureOut::Val(nv) => match eval_pure(old(g), ctx.id as int, *x.args) {
                        PureOut::Val(av) => call_post(old(g), final(g), nv, av, r, fuel) && (fuel
                            == 0 ==> r is Err && *final(g) == *old(g)),
                        _ => true,
                    },
                    _ => true,
                },
                _ => true,
            },
        decreases fuel, esize(*self), 0int,
    {
        proof {
            reveal_with_fuel(eval_pure, 2);
            reveal_with_fuel(bin_pure, 2);
            reveal_with_fuel(key_pure, 2);
            reveal_with_fuel(evals_pure, 2);
        }
        match self {
            Expr::Literal(l) => Ok(l.value.duplicate()),
            Expr::Identifier(id) => ctx.get_symbol_or_err(g, &id.name),
            Expr::Add(x) => {
                let vl = x.lhs.eval(g, rng, ctx, fuel)?;
                let vr = x.rhs.eval(g, rng, ctx, fuel)?;
                eval_add(&ctx, vl, vr)
            },
            Expr::Sub(x) => {
                let vl = x.lhs.eval(g, rng, ctx, fuel)?;
                let vr = x.rhs.eval(g, rng, ctx, fuel)?;
                eval_arith(&ctx, crate::ops::ArithOp::Sub, vl, vr)
            },
            Expr::Mul(x) => {
                let vl = x.lhs.eval(g, rng, ctx, fuel)?;
                let vr = x.rhs.eval(g, rng, ctx, fuel)?;
                eval_arith(&ctx, crate::ops::ArithOp::Mul, vl, vr)
            },
            Expr::Div(x) => {
                let vl = x.lhs.eval(g, rng, ctx, fuel)?;
                let vr = x.rhs.eval(g, rng, ctx, fuel)?;
                eval_arith(&ctx, crate::ops::ArithOp::Div, vl, vr)
            },
            Expr::Mod(x) => {
                let vl = x.lhs.eval(g, rng, ctx, fuel)?;
                let vr = x.rhs.eval(g, rng, ctx, fuel)?;
                eval_arith(&ctx, crate::ops::ArithOp::Mod, vl, vr)
            },
            Expr::Cmp(x) => {
                let vl = x.lhs.eval(g, rng, ctx, fuel)?;
                let vr = x.rhs.eval(g, rng, ctx, fuel)?;
                eval_cmp(&ctx, &x.op, vl, vr)
            },
            Expr::Neg(x) => {
                let v = x.value.eval(g, rng, ctx, fuel)?;
                match v {
                    VarType::Int(i) => Ok(VarType::Int(0i64.wrapping_sub(i))),
                    VarType::Float(f) => Ok(VarType::Float(crate::float::f64_neg_exec(f))),
                    other => {
                        let mut desc = "Type error: cannot negate ".to_owned();
                        desc.append(other.to_string().as_str());
                        Err(CodeExecError::new(&ctx, desc))
                    },
                }
            },
            Expr::Not(x) => {
                let v = x.value.eval(g, rng, ctx, fuel)?;
                NotExpr::not(&ctx, rng, v)
            },
            Expr::Tuple(t) => {
                let items = eval_items(g, rng, ctx, &t.values, 0, fuel)?;
                Ok(VarType::Tuple(Array { items }))
            },
            Expr::Array(t) => {
                let items = eval_items(g, rng, ctx, &t.values, 0, fuel)?;
                Ok(VarType::Tuple(Array { items }))
            },
            Expr::Member(m) => {
                proof {
                    lemma_esize_pos(*m.lhs);
                    lemma_esize_pos(*m.rhs);
                }
                let key = m.get_key(g, rng, ctx, fuel)?;
                let h = m.get_data(g, rng, ctx, fuel)?;
                proof {
                    assert(g.heap_entry_wf(h as int));
                    assert(g.models()[h as int] == g.heap@[h as int].model());
                }
                Ok(g.heap[h].get(&key))
            },
            Expr::NodeCall(x) => {
                let node = x.node.eval(g, rng, ctx, fuel)?;
                let args = x.args.eval(g, rng, ctx, fuel)?;
                eval_call(g, rng, ctx, node, args, fuel)
            },
        }
    }
}

/// Addition of two evaluated operands: string coercion, then promotion.
fn eval_add(ctx: &Context, vl: VarType, vr: VarType) -> (r: Result<VarType, CodeExecError>)
    ensures
        lift(crate::ops::add_spec(vmodel(vl), vmodel(vr))) matches PureOut::Val(v) ==> (r matches
            Ok(x) && x.model() == v),
        lift(crate::ops::add_spec(vmodel(vl), vmodel(vr))) is Fail ==> r is Err,
{
    let l_is_str = matches!(vl, VarType::String(_));
    let r_is_str = matches!(vr, VarType::String(_));
    if l_is_str || r_is_str {
        let ls = vl.to_string();
        let rs = vr.to_string();
        Ok(VarType::String(ls.concat(rs.as_str())))
    } else {
        let (a, b) = crate::ops::promote_type(ctx, vl, vr)?;
        match (a, b) {
            (VarType::Int(x), VarType::Int(y)) => Ok(VarType::Int(x.wrapping_add(y))),
            (VarType::Float(x), VarType::Float(y)) => Ok(
                VarType::Float(crate::float::f64_add_exec(x, y)),
            ),
            (l, r2) => Err(CodeExecError::new(ctx, type_error_desc(&l, &r2))),
        }
    }
}

/// A promoted arithmetic operator on two evaluated operands.
fn eval_arith(ctx: &Context, op: crate::ops::ArithOp, vl: VarType, vr: VarType) -> (r: Result<
    VarType,
    CodeExecError,
>)
    ensures
        lift(crate::ops::arith_spec(op, vmodel(vl), vmodel(vr))) matches PureOut::Val(v) ==> (
        r matches Ok(x) && x.model() == v),
        lift(crate::ops::arith_spec(op, vmodel(vl), vmodel(vr))) is Fail ==> r is Err,
{
    let (a, b) = crate::ops::promote_type(ctx, vl, vr)?;
    match (a, b) {
        (VarType::Int(x), VarType::Int(y)) => match op {
            crate::ops::ArithOp::Add => Ok(VarType::Int(x.wrapping_add(y))),
            crate::ops::ArithOp::Sub => Ok(VarType::Int(x.wrapping_sub(y))),
            crate::ops::ArithOp::Mul => Ok(VarType::Int(x.wrapping_mul(y))),
            crate::ops::ArithOp::Div => {
                if y == 0 || (x == i64::MIN && y == -1) {
                    Err(CodeExecError::new(ctx, "Arithmetic error in division.".to_owned()))
                } else {
                    Ok(VarType::Int(crate::ops::int_div(x, y)))
                }
            },
            crate::ops::ArithOp::Mod => {
                if y == 0 || (x == i64::MIN && y == -1) {
                    Err(CodeExecError::new(ctx, "Arithmetic error in modulus.".to_owned()))
                } else {
                    Ok(VarType::Int(crate::ops::int_rem(x, y)))
                }
            },
        },
        (VarType::Float(x), VarType::Float(y)) => match op {
            crate::ops::ArithOp::Add => Ok(VarType::Float(crate::float::f64_add_exec(x, y))),
            crate::ops::ArithOp::Sub => Ok(VarType::Float(crate::float::f64_sub_exec(x, y))),
            crate::ops::ArithOp::Mul => Ok(VarType::Float(crate::float::f64_mul_exec(x, y))),
            crate::ops::ArithOp::Div => Ok(VarType::Float(crate::float::f64_div_exec(x, y))),
            crate::ops::ArithOp::Mod => Ok(VarType::Float(crate::float::f64_rem_exec(x, y))),
        },
        (l, r2) => Err(CodeExecError::new(ctx, type_error_desc(&l, &r2))),
    }
}

/// A type-mismatch description carrying both offending operands, rendered.
fn type_error_desc(l: &VarType, r: &VarType) -> String {
    let mut desc = "Type error: ".to_owned();
    desc.append(l.to_string().as_str());
    desc.append(", ");
    desc.append(r.to_string().as_str());
    desc
}

/// A comparison on two evaluated operands.
fn eval_cmp(ctx: &Context, op: &CompareOp, vl: VarType, vr: VarType) -> (r: Result<
    VarType,
    CodeExecError,
>)
    ensures
        lift(crate::ops::cmp_spec(*op, vmodel(vl), vmodel(vr))) matches PureOut::Val(v) ==> (
        r matches Ok(x) && x.model() == v),
        lift(crate::ops::cmp_spec(*op, vmodel(vl), vmodel(vr))) is Fail ==> r is Err,
{
    let (a, b) = crate::ops::promote_type(ctx, vl, vr)?;
    match (&a, &b) {
        (VarType::Bool(x), VarType::Bool(y)) => Ok(
            VarType::Bool(cmp_by_exec(op, !*x && *y, *x == *y)),
        ),
        (VarType::Int(x), VarType::Int(y)) => Ok(VarType::Bool(cmp_by_exec(op, *x < *y, *x == *y))),
        (VarType::Float(x), VarType::Float(y)) => {
            let c = match op {
                CompareOp::Less => crate::float::f64_lt_exec(*x, *y),
                CompareOp::Greater => crate::float::f64_lt_exec(*y, *x),
                CompareOp::Equal => crate::float::f64_eq_exec(*x, *y),
                CompareOp::NotEqual => !crate::float::f64_eq_exec(*x, *y),
                CompareOp::LessEqual => crate::float::f64_le_exec(*x, *y),
                CompareOp::GreaterEqual => crate::float::f64_le_exec(*y, *x),
            };
            Ok(VarType::Bool(c))
        },
        (VarType::String(x), VarType::String(y)) => Ok(
            VarType::Bool(cmp_by_exec(op, crate::ops::str_lt_exec(x, y), x.eq(y))),
        ),
        (l, r2) => Err(CodeExecError::new(ctx, type_error_desc(l, r2))),
    }
}

/// A comparison flavor applied to a computed order and equality.
fn cmp_by_exec(op: &CompareOp, lt: bool, eq: bool) -> (r: bool)
    ensures
        r == crate::ops::cmp_by(*op, lt, eq),
{
    match op {
        CompareOp::Less => lt,
        CompareOp::Greater => !lt && !eq,
        CompareOp::Equal => eq,
        CompareOp::NotEqual => !eq,
        CompareOp::LessEqual => lt || eq,
        CompareOp::GreaterEqual => !lt,
    }
}

/// Left-to-right evaluation of the expressions from position `i` on.
fn eval_items(g: &mut Global, rng: &mut Rng, ctx: Context, exprs: &Vec<Expr>, i: usize, fuel: u64) -> (r: Result<
    Vec<VarType>,
    CodeExecError,
>)
    requires
        old(g).wf(),
        (ctx.id as int) < old(g).ctxs@.len(),
        i <= exprs@.len(),
    ensures
        final(g).wf(),
        Global::exec_frame(old(g), final(g)),
        match evals_pure(old(g), ctx.id as int, exprs@, i as int) {
            SeqOut::Vals(vs) => (r matches Ok(items) && crate::variable::smodel(items@) == vs)
                && *final(g) == *old(g),
            SeqOut::Fail => r is Err && *final(g) == *old(g),
            SeqOut::Impure => true,
        },
    decreases fuel, esizes(exprs@, i as int), 1int,
{
    if i >= exprs.len() {
        proof {
            crate::variable::lemma_smodel(Seq::<VarType>::empty());
            assert(crate::variable::smodel(Seq::<VarType>::empty()) =~= Seq::<
                ValSpec,
            >::empty());
        }
        return Ok(Vec::new());
    }
    proof {
        lemma_esize_pos(exprs@[i as int]);
    }
    let v = exprs[i].eval(g, rng, ctx, fuel)?;
    let mut rest = eval_items(g, rng, ctx, exprs, i + 1, fuel)?;
    let ghost tail = rest@;
    rest.insert(0, v);
    proof {
        match evals_pure(old(g), ctx.id as int, exprs@, i as int) {
            SeqOut::Vals(vs) => {
                crate::variable::lemma_smodel(rest@);
                assert(rest@.subrange(1, rest@.len() as int) =~= tail);
                crate::variable::lemma_smodel(tail);
                assert(crate::variable::smodel(rest@) =~= vs);
            },
            _ => (),
        }
    }
    Ok(rest)
}

impl MemberExpr {
    /// The key of this access, as text.
    fn get_key(&self, g: &mut Global, rng: &mut Rng, ctx: Context, fuel: u64) -> (r: Result<
        String,
        CodeExecError,
    >)
        requires
            old(g).wf(),
            (ctx.id as int) < old(g).ctxs@.len(),
        ensures
            final(g).wf(),
            Global::exec_frame(old(g), final(g)),
            match key_pure(old(g), ctx.id as int, *self.lhs) {
                KeyOut::Key(k) => (r matches Ok(s) && s@ == k) && *final(g) == *old(g),
                KeyOut::Fail => r is Err && *final(g) == *old(g),
                KeyOut::Impure => true,
            },
        decreases fuel, esize(*self.lhs) + 1, 0int,
    {
        proof {
            lemma_esize_pos(*self.lhs);
        }
        match &*self.lhs {
            Expr::Identifier(id) => Ok(id.name.clone()),
            Expr::Array(arr) => {
                let items = eval_items(g, rng, ctx, &arr.values, 0, fuel)?;
                proof {
                    crate::variable::lemma_smodel(items@);
                }
                if items.len() == 1 {
                    Ok(items[0].to_string())
                } else {
                    Err(
                        CodeExecError::new(
                            &ctx,
                            "Cannot index with a sequence of that length.".to_owned(),
                        ),
                    )
                }
            },
            _ => {
                let v = self.lhs.eval(g, rng, ctx, fuel)?;
                Ok(v.to_string())
            },
        }
    }

    /// The heap slot of the owning composite.
    fn get_data(&self, g: &mut Global, rng: &mut Rng, ctx: Context, fuel: u64) -> (r: Result<
        usize,
        CodeExecError,
    >)
        requires
            old(g).wf(),
            (ctx.id as int) < old(g).ctxs@.len(),
        ensures
            final(g).wf(),
            Global::exec_frame(old(g), final(g)),
            r matches Ok(h) ==> (h as int) < final(g).heap@.len(),
            match eval_pure(old(g), ctx.id as int, *self.rhs) {
                PureOut::Val(ValSpec::Ref(h)) => if 0 <= h < old(g).models().len() {
                    (r matches Ok(x) && x as int == h) && *final(g) == *old(g)
                } else {
                    r is Err && *final(g) == *old(g)
                },
                PureOut::Val(_) => r is Err && *final(g) == *old(g),
                PureOut::Fail => r is Err && *final(g) == *old(g),
                PureOut::Impure => true,
            },
        decreases fuel, esize(*self.rhs) + 1, 0int,
    {
        let parent = self.rhs.eval(g, rng, ctx, fuel)?;
        if let VarType::Ref(h) = parent {
            if h < g.heap.len() {
                Ok(h)
            } else {
                Err(CodeExecError::new(&ctx, "Stale reference.".to_owned()))
            }
        } else {
            Err(CodeExecError::new(&ctx, "Expected a reference.".to_owned()))
        }
    }

    /// The write path of member access, used by assignment: resolves the
    /// key and the owner, then performs the keyed write.
    #[verifier::rlimit(80)]
    pub fn set(&self, g: &mut Global, rng: &mut Rng, ctx: Context, val: VarType, fuel: u64) -> (r: Result<
        (),
        CodeExecError,
    >)
        requires
            old(g).wf(),
            (ctx.id as int) < old(g).ctxs@.len(),
        ensures
            final(g).wf(),
            Global::exec_frame(old(g), final(g)),
            match member_path_pure(old(g), ctx.id as int, *self) {
                Ok((h, key)) => if memdata_set_ok_spec(old(g).models()[h], key) {
                    r is Ok && final(g).ctxs@ == old(g).ctxs@ && final(g).heap@.len() == old(
                        g,
                    ).heap@.len() && final(g).models() == old(g).models().update(
                        h,
                        memdata_set_spec(old(g).models()[h], key, vmodel(val)),
                    ) && final(g).out.deep_view() == old(g).out.deep_view()
                } else {
                    r is Err && *final(g) == *old(g)
                },
                Err(PureOut::Fail) => r is Err && *final(g) == *old(g),
                _ => true,
            },
        decreases fuel, 1 + esize(*self.lhs) + esize(*self.rhs), 0int,
    {
        proof {
            lemma_esize_pos(*self.lhs);
            lemma_esize_pos(*self.rhs);
        }
        let key = self.get_key(g, rng, ctx, fuel)?;
        let h = self.get_data(g, rng, ctx, fuel)?;
        proof {
            assert(g.heap_entry_wf(h as int));
        }
        proof {
            assert(g.models()[h as int] == g.heap@[h as int].model());
        }
        match &g.heap[h] {
            MemData::Mess(_) => (),
            MemData::Array(a) => {
                if !a.has(&key) {
                    proof {
                        match member_path_pure(old(g), ctx.id as int, *self) {
                            Ok((hs, ks)) => {
                                assert(*g == *old(g));
                                assert(key_pure(old(g), ctx.id as int, *self.lhs)
                                    == KeyOut::Key(ks));
                                assert(ks == key@);
                                assert(eval_pure(old(g), ctx.id as int, *self.rhs)
                                    == PureOut::Val(ValSpec::Ref(hs)));
                                assert(hs == h as int);
                                assert(g.heap@[h as int] == MemData::Array(*a));
                                assert(!memdata_set_ok_spec(old(g).models()[hs], ks));
                            },
                            _ => (),
                        }
                    }
                    let mut desc = "Cannot set key ".to_owned();
                    desc.append(key.as_str());
                    desc.append(" on array.");
                    return Err(CodeExecError { desc });
                }
            },
            MemData::Node(_) => {
                proof {
                    match member_path_pure(old(g), ctx.id as int, *self) {
                        Ok((hs, ks)) => {
                            assert(*g == *old(g));
                            assert(key_pure(old(g), ctx.id as int, *self.lhs)
                                == KeyOut::Key(ks));
                            assert(ks == key@);
                            assert(eval_pure(old(g), ctx.id as int, *self.rhs)
                                == PureOut::Val(ValSpec::Ref(hs)));
                            assert(hs == h as int);
                            assert(g.heap@[h as int] is Node);
                            assert(!memdata_set_ok_spec(old(g).models()[hs], ks));
                        },
                        _ => (),
                    }
                }
                let mut desc = "Cannot set key ".to_owned();
                desc.append(key.as_str());
                desc.append(" on node.");
                return Err(CodeExecError { desc });
            },
        }
        let ghost g0 = *g;
        let res = g.heap[h].set(&key, val);
        proof {
            lemma_member_write(&g0, g, h as int);
        }
        res
    }
}

/// A keyed write into one heap slot preserves well-formedness and updates
/// one model.
proof fn lemma_member_write(g0: &Global, g1: &Global, h: int)
    requires
        g0.wf(),
        0 <= h < g0.heap@.len(),
        g1.ctxs@ == g0.ctxs@,
        g1.context_root == g0.context_root,
        g1.heap@.len() == g0.heap@.len(),
        forall|x: int| 0 <= x < g0.heap@.len() && x != h ==> g1.heap@[x] == g0.heap@[x],
        g1.heap@[h].wf(),
        g1.heap@[h] is Mess <==> g0.heap@[h] is Mess,
        g1.heap@[h] is Node ==> g1.heap@[h] == g0.heap@[h],
    ensures
        g1.wf(),
        g1.models() == g0.models().update(h, g1.heap@[h].model()),
{
    assert forall|i: int| 0 <= i < g1.ctxs@.len() implies #[trigger] g1.ctx_entry_wf(i) by {
        assert(g0.ctx_entry_wf(i));
    }
    assert forall|x: int| 0 <= x < g1.heap@.len() implies #[trigger] g1.heap_entry_wf(x) by {
        assert(g0.heap_entry_wf(x));
        if x != h {
            assert(g1.heap@[x] == g0.heap@[x]);
        }
    }
    assert(g1.models() =~= g0.models().update(h, g1.heap@[h].model()));
}

/// The argument values a call passes: a tuple spreads into the positional
/// list, anything else is passed as a one-element list.
pub open spec fn arg_list(av: ValSpec) -> Seq<ValSpec> {
    match av {
        ValSpec::Tuple(vs) => vs,
        v => seq![v],
    }
}

/// What an invocation does, given the evaluated callee and argument values:
/// a non-reference callee, a stale reference, or a reference to anything
/// but a node is an error; a closure runs in a fresh child of its captured
/// scope and too many arguments is an arity error; a native behaves as its
/// host function.
pub open spec fn call_post(
    g0: &Global,
    g1: &Global,
    nv: ValSpec,
    av: ValSpec,
    r: Result<VarType, CodeExecError>,
    fuel: u64,
) -> bool {
    fuel > 0 ==> match nv {
        ValSpec::Ref(h) => if 0 <= h < g0.models().len() {
            match g0.models()[h] {
                crate::data::CompSpec::Node(
                    crate::node::NodeModel::Code { parent, params, body },
                ) => g1.ctxs@.len() > g0.ctxs@.len() && g1.ctxs@[g0.ctxs@.len() as int] == (
                crate::global::CtxEntry { parent: Some(parent as usize), mess: g0.heap.len() })
                    && (arg_list(av).len() > params.len() ==> r is Err) && (fuel == 1 ==> r
                    is Err) && ((fuel >= 2 && arg_list(av).len() <= params.len()) ==> exists|
                    gm: Global,
                    gend: Global,
                    rb: Result<Option<VarType>, CodeExecError>,
                |
                    {
                        &&& #[trigger] crate::node::call_chain(gm, gend, rb)
                        &&& crate::node::call_env_state(
                            *g0,
                            gm,
                            parent as usize,
                            params,
                            arg_list(av),
                        )
                        &&& crate::statement::stmt_post(
                            gm,
                            gend,
                            g0.ctxs@.len() as int,
                            *body,
                            rb,
                            (fuel - 2) as u64,
                        )
                        &&& g1.heap@ == gend.heap@
                        &&& g1.ctxs@ == gend.ctxs@
                        &&& g1.out.deep_view() == gend.out.deep_view()
                        &&& match rb {
                            Ok(Some(v)) => r matches Ok(x) && x == v,
                            Ok(None) => r matches Ok(x) && x.model() == ValSpec::Nzero,
                            Err(e) => r matches Err(e2) && e2 == e,
                        }
                    }),
                crate::data::CompSpec::Node(
                    crate::node::NodeModel::Native { func, .. },
                ) => g1.heap@ == g0.heap@ && g1.ctxs@ == g0.ctxs@ && (match func {
                    crate::node::NativeFunc::CpuOp => (r matches Ok(v) && v.model()
                        == ValSpec::Nzero) && g1.out.deep_view() == g0.out.deep_view().push(
                        crate::node::vals_joined(arg_list(av), 0),
                    ),
                    crate::node::NativeFunc::CpuWcop => (r matches Ok(v) && v.model()
                        == ValSpec::Nzero) && g1.out.deep_view() == g0.out.deep_view().push(
                        crate::node::vals_joined(arg_list(av), 0) + "\n"@,
                    ),
                    crate::node::NativeFunc::UtAssert => g1.out.deep_view()
                        == g0.out.deep_view() && (if arg_list(av).len() == 0 {
                        r is Err
                    } else if crate::variable::truthy_spec(arg_list(av)[0]) {
                        r matches Ok(v) && v.model() == ValSpec::Nzero
                    } else {
                        r is Err
                    }),
                }),
                _ => r is Err && *g1 == *g0,
            }
        } else {
            r is Err && *g1 == *g0
        },
        _ => r is Err && *g1 == *g0,
    }
}

/// Invocation of an evaluated callee on an evaluated argument value; a
/// non-tuple argument is passed as a one-element list.
fn eval_call(g: &mut Global, rng: &mut Rng, ctx: Context, node: VarType, args: VarType, fuel: u64) -> (r: Result<
    VarType,
    CodeExecError,
>)
    requires
        old(g).wf(),
        (ctx.id as int) < old(g).ctxs@.len(),
    ensures
        final(g).wf(),
        Global::exec_frame(old(g), final(g)),
        fuel == 0 ==> r is Err && *final(g) == *old(g),
        call_post(old(g), final(g), vmodel(node), vmodel(args), r, fuel),
    decreases fuel, 0int, 0int,
{
    if fuel == 0 {
        return Err(CodeExecError::new(&ctx, "Evaluation budget exhausted.".to_owned()));
    }
    let h = if let VarType::Ref(h) = node {
        h
    } else {
        return Err(CodeExecError::new(&ctx, "Cannot call a non-node value.".to_owned()));
    };
    if h >= g.heap.len() {
        return Err(CodeExecError::new(&ctx, "Stale reference.".to_owned()));
    }
    proof {
        assert(g.heap_entry_wf(h as int));
    }
    proof {
        assert(g.models()[h as int] == g.heap@[h as int].model());
    }
    let node_copy = if let MemData::Node(n) = &g.heap[h] {
        n.duplicate()
    } else {
        return Err(CodeExecError::new(&ctx, "Expected a node.".to_owned()));
    };
    let ghost av = vmodel(args);
    let arg_items = if let VarType::Tuple(t) = args {
        t.items
    } else {
        let mut one = Vec::new();
        one.push(args);
        one
    };
    proof {
        crate::variable::lemma_smodel(arg_items@);
        assert(crate::variable::smodel(arg_items@) =~= arg_list(av));
    }
    node_copy.exec(g, rng, &arg_items, fuel - 1)
}

} // verus!
