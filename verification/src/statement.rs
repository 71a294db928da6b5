//! The statement tree that the executor walks, and the runtime error type.

use vstd::prelude::*;
use std::rc::Rc;
use crate::data::CompSpec;
use crate::expr::{
    eval_pure, member_path_pure, CompareOp, Expr, MemberExpr, NotExpr, PureOut,
};
use crate::float::{f64_eq, f64_is_nan, f64_next_down, f64_next_up, f64_total, F64_ONE_BITS};
use crate::global::{bind_target, ctx_map, file_lookup, lookup_sym, Context, CtxEntry, Global};
use crate::module_manager::NativeModuleKind;
use crate::node::{call_chain, CodeNode, NativeFunc, Node, NodeModel};
use crate::path::Path;
use crate::rng::{mix_out, mix_state, Rng};
use crate::variable::{truthy_spec, vmodel, ValSpec, VarType};

verus! {

/// A runtime error: every failure aborts the run and carries a
/// human-readable description.
#[derive(Debug)]
pub struct CodeExecError {
    pub desc: String,
}

impl CodeExecError {
    pub fn new_str(desc: String) -> (r: CodeExecError)
        ensures
            r.desc@ == desc@,
    {
        CodeExecError { desc }
    }
}

/// An assignment target: a plain name or a member access.
#[derive(Debug)]
pub enum LValue {
    Identifier(String),
    MemberExpr(MemberExpr),
}

/// A statement tree node.
#[derive(Debug)]
pub enum Statement {
    Rm(RmStatement),
    Ass(AssStatement),
    Ret(ReturnStatement),
    If(IfStatement),
    Loli(LoliStatement),
    Maybe(MaybeStatement),
    NodeDef(NodeDefStatement),
    Expr(ExprStatement),
    Stmts(Statements),
}

/// A sequence of statements, run in order until one returns.
#[derive(Debug)]
pub struct Statements {
    pub stmts: Vec<Statement>,
}

impl Statements {
    pub fn new() -> (r: Statements)
        ensures
            r.stmts@.len() == 0,
    {
        Statements { stmts: Vec::new() }
    }

    pub fn push(&mut self, stmt: Statement)
        ensures
            final(self).stmts@ == old(self).stmts@.push(stmt),
    {
        self.stmts.push(stmt);
    }
}

/// Assignment through one of the six comparison-flavored operators.
#[derive(Debug)]
pub struct AssStatement {
    pub lhs: LValue,
    pub rhs: Expr,
    pub op: CompareOp,
}

/// A block of statements.
#[derive(Debug)]
pub struct BlockStatement {
    pub stmts: Vec<Statement>,
}

/// An expression evaluated for effect; a non-`Nzero` result lands in the
/// `that` binding.
#[derive(Debug)]
pub struct ExprStatement {
    pub value: Expr,
}

/// Conditional execution on the truthiness of the condition.
#[derive(Debug)]
pub struct IfStatement {
    pub cond: Expr,
    pub body: Box<Statement>,
}

/// The while-style loop.
#[derive(Debug)]
pub struct LoliStatement {
    pub cond: Expr,
    pub body: Box<Statement>,
}

/// The probabilistic statement: the body runs on a fair coin flip.
#[derive(Debug)]
pub struct MaybeStatement {
    pub body: Box<Statement>,
}

/// Definition of a callable node capturing the current scope; the body is
/// shared between the definition site and every stored node.
#[derive(Debug)]
pub struct NodeDefStatement {
    pub name: String,
    pub args: Vec<String>,
    pub body: Rc<Statement>,
}

/// Return of a value to the nearest call boundary.
#[derive(Debug)]
pub struct ReturnStatement {
    pub value: Expr,
}

/// The import statement: brings a module into scope by name.
#[derive(Debug)]
pub struct RmStatement {
    pub path: String,
    pub parent_path: Path,
}

/// The canonical memoization key recorded for an imported module.
pub open spec fn builtin_key(p: Seq<char>) -> Seq<char> {
    "<module>/"@ + p
}

/// The record a built-in module leaves on the heap: its callables bound
/// under their names, each a reference to a native node of the right host
/// function.
pub open spec fn module_record(g1: &Global, h: int, kind: NativeModuleKind) -> bool {
    &&& 0 <= h < g1.models().len()
    &&& match g1.models()[h] {
        CompSpec::Mess(m) => match kind {
            NativeModuleKind::Cpu => {
                &&& m.contains_key("op"@) && m.contains_key("wcop"@)
                &&& (m["op"@] matches ValSpec::Ref(hop) && 0 <= hop < g1.models().len()
                    && g1.models()[hop] matches CompSpec::Node(
                    NodeModel::Native { func: NativeFunc::CpuOp, .. },
                ))
                &&& (m["wcop"@] matches ValSpec::Ref(hw) && 0 <= hw < g1.models().len()
                    && g1.models()[hw] matches CompSpec::Node(
                    NodeModel::Native { func: NativeFunc::CpuWcop, .. },
                ))
            },
            NativeModuleKind::Ut => {
                &&& m.contains_key("assert"@)
                &&& (m["assert"@] matches ValSpec::Ref(ha) && 0 <= ha < g1.models().len()
                    && g1.models()[ha] matches CompSpec::Node(
                    NodeModel::Native { func: NativeFunc::UtAssert, .. },
                ))
            },
        },
        _ => false,
    }
}

/// The file path an import name resolves to, relative to the importing
/// module's own location, as rendered text.
pub open spec fn file_key(s: &RmStatement) -> Seq<char> {
    crate::path::join_slash(
        s.parent_path.model() + crate::path::tidy_from(
            crate::path::split_path(s.path@ + ".lIIl"@),
            0,
        ),
        0,
    )
}

/// The state a file module's body runs from: a fresh scope under the
/// program root whose record holds only the root marker, unset, with the
/// scope pushed on the stack and nothing else moved.
pub open spec fn file_env_state(g0: Global, gm: Global) -> bool {
    &&& gm.wf()
    &&& (g0.context_root matches Some(root) && gm.ctxs@ == g0.ctxs@.push(
        CtxEntry { parent: Some(root), mess: g0.heap.len() },
    ))
    &&& gm.heap@.len() == g0.heap@.len() + 1
    &&& (forall|h: int| 0 <= h < g0.heap@.len() ==> gm.heap@[h] == g0.heap@[h])
    &&& ctx_map(&gm, g0.ctxs@.len() as int) == Map::<Seq<char>, ValSpec>::empty().insert(
        "isMian"@,
        ValSpec::Bool(false),
    )
    &&& gm.context_root == g0.context_root
    &&& gm.builtin_modules.factories@ == g0.builtin_modules.factories@
    &&& gm.out.deep_view() == g0.out.deep_view()
    &&& gm.stack.stack@ == g0.stack.stack@.push(g0.ctxs@.len() as usize)
}

/// The import protocol's contract: a memoized import returns unchanged; a
/// registered built-in is constructed once, rooted at the program root, and
/// its record's reference is bound under the import name and under the
/// canonical memo key; a host-supplied file module's body runs in a fresh
/// child of the root and on success its scope's record is bound the same
/// way; a name that is neither memoized, registered, nor supplied is a
/// missing module.
pub open spec fn rm_post(
    g0: &Global,
    g1: &Global,
    c: int,
    s: &RmStatement,
    r: Result<Option<VarType>, CodeExecError>,
    fuel: u64,
) -> bool
    decreases fuel, 1nat, 1int,
{
    &&& (lookup_sym(g0, c, builtin_key(s.path@)) is Some ==> (r matches Ok(o) && o is None)
        && *g1 == *g0)
    &&& (r matches Ok(o) ==> o is None)
    &&& (r is Ok ==> lookup_sym(g1, c, builtin_key(s.path@)) is Some)
    &&& match g0.builtin_modules.lookup(s.path@) {
        Some(kind) => (lookup_sym(g0, c, builtin_key(s.path@)) is None && g0.context_root
            is Some) ==> r is Ok && (lookup_sym(g1, c, s.path@) matches Some(v) && v
            matches ValSpec::Ref(h) && lookup_sym(g1, c, builtin_key(s.path@)) == Some(
            ValSpec::Ref(h),
        ) && module_record(g1, h, kind)),
        None => true,
    }
    &&& match file_lookup(g0.file_modules@, file_key(s)) {
        Some(body) => (lookup_sym(g0, c, builtin_key(s.path@)) is None
            && g0.builtin_modules.lookup(s.path@) is None && g0.context_root is Some && fuel
            > 0) ==> exists|
        gm: Global,
        gend: Global,
        rb: Result<Option<VarType>, CodeExecError>,
    |
        {
            &&& #[trigger] call_chain(gm, gend, rb)
            &&& file_env_state(*g0, gm)
            &&& stmt_post(gm, gend, g0.ctxs@.len() as int, *body, rb, (fuel - 1) as u64)
            &&& match rb {
                Ok(_) => (r matches Ok(o) && o is None) && (lookup_sym(g1, c, s.path@)
                    == Some(ValSpec::Ref(g0.heap@.len() as int)) && lookup_sym(
                    g1,
                    c,
                    builtin_key(s.path@),
                ) == Some(ValSpec::Ref(g0.heap@.len() as int)) && 0 <= g0.heap@.len()
                    < g1.models().len() && g1.models()[g0.heap@.len() as int] is Mess),
                Err(e) => r matches Err(e2) && e2 == e,
            }
        },
        None => true,
    }
    &&& ((lookup_sym(g0, c, builtin_key(s.path@)) is None && g0.builtin_modules.lookup(s.path@)
        is None && file_lookup(g0.file_modules@, file_key(s)) is None) ==> r is Err && *g1
        == *g0)
}

/// The next representable integer above, saturating at the top.
pub open spec fn next_up_i64_spec(i: i64) -> i64 {
    if i == i64::MAX {
        i
    } else {
        (i + 1) as i64
    }
}

/// The next representable integer below, saturating at the bottom.
pub open spec fn next_down_i64_spec(i: i64) -> i64 {
    if i == i64::MIN {
        i
    } else {
        (i - 1) as i64
    }
}

pub fn next_up_i64(value: i64) -> (r: i64)
    ensures
        r == next_up_i64_spec(value),
{
    if value == i64::MAX {
        value
    } else {
        value + 1
    }
}

pub fn next_down_i64(value: i64) -> (r: i64)
    ensures
        r == next_down_i64_spec(value),
{
    if value == i64::MIN {
        value
    } else {
        value - 1
    }
}

/// The saturation law of the integer neighbor steps: the ends of the range
/// step to themselves, and every other integer moves by exactly one.
pub proof fn lemma_int_neighbor_saturates(i: i64)
    ensures
        next_down_i64_spec(i64::MIN) == i64::MIN,
        next_up_i64_spec(i64::MAX) == i64::MAX,
        i != i64::MAX ==> next_up_i64_spec(i) == i + 1,
        i != i64::MIN ==> next_down_i64_spec(i) == i - 1,
{
}

/// What the strict assignment flavors store: the nearest representable
/// neighbor of the value in the given direction — bit-adjacent for a float,
/// a saturating step for an integer, the forced constant for a boolean; any
/// other kind is an error.
pub open spec fn neighbor_spec(up: bool, v: ValSpec) -> Result<ValSpec, ()> {
    match v {
        ValSpec::Float(b) => Ok(
            ValSpec::Float(
                if up {
                    f64_next_up(b)
                } else {
                    f64_next_down(b)
                },
            ),
        ),
        ValSpec::Int(i) => Ok(
            ValSpec::Int(
                if up {
                    next_up_i64_spec(i)
                } else {
                    next_down_i64_spec(i)
                },
            ),
        ),
        ValSpec::Bool(_) => Ok(ValSpec::Bool(up)),
        _ => Err(()),
    }
}

/// What the wobble operator may hand back for a given input.
pub open spec fn wobble_rel(v: ValSpec, w: ValSpec) -> bool {
    match v {
        ValSpec::Bool(b) => w == ValSpec::Bool(!b),
        ValSpec::Str(s) => w == ValSpec::Str("!"@ + s),
        ValSpec::Ref(_) => w == ValSpec::Nzero,
        ValSpec::Int(i) => match w {
            ValSpec::Int(x) => x != i,
            _ => false,
        },
        ValSpec::Float(f) => match w {
            ValSpec::Float(x) => !f64_eq(x, f) && !f64_is_nan(x) && 0 <= f64_total(x)
                < F64_ONE_BITS,
            _ => false,
        },
        ValSpec::Nzero => match w {
            ValSpec::Int(x) => x != 0,
            _ => false,
        },
        ValSpec::Tuple(_) => false,
    }
}

/// A successful write of `w` to a plain name: the innermost binding in the
/// chain is overwritten, or a local binding is created.
pub open spec fn store_target_post(
    g0: &Global,
    g1: &Global,
    c: int,
    name: Seq<char>,
    w: ValSpec,
) -> bool {
    &&& g1.ctxs@ == g0.ctxs@
    &&& g1.heap@.len() == g0.heap@.len()
    &&& g1.same_support(g0)
    &&& g1.models() == g0.models().update(
        g0.ctxs@[bind_target(g0, c, name)].mess as int,
        CompSpec::Mess(ctx_map(g0, bind_target(g0, c, name)).insert(name, w)),
    )
}

/// The outcome of a write of `w` through an assignment target.
pub open spec fn store_post(
    g0: &Global,
    g1: &Global,
    c: int,
    lhs: LValue,
    w: ValSpec,
    ok: bool,
) -> bool {
    match lhs {
        LValue::Identifier(name) => ok && store_target_post(g0, g1, c, name@, w),
        LValue::MemberExpr(m) => match member_path_pure(g0, c, m) {
            Ok((h, key)) => if crate::data::memdata_set_ok_spec(g0.models()[h], key) {
                ok && g1.ctxs@ == g0.ctxs@ && g1.heap@.len() == g0.heap@.len()
                    && g1.models() == g0.models().update(
                    h,
                    crate::data::memdata_set_spec(g0.models()[h], key, w),
                ) && g1.out.deep_view() == g0.out.deep_view()
            } else {
                !ok && *g1 == *g0
            },
            Err(PureOut::Fail) => !ok && *g1 == *g0,
            Err(_) => true,
        },
    }
}

/// The exact behavior of an assignment whose right side is pure: the plain
/// flavors store the value, the strict flavors store its neighbor, and the
/// wobble flavor stores a related draw.
pub open spec fn ass_post(g0: &Global, g1: &Global, c: int, s: &AssStatement, ok: bool) -> bool {
    match eval_pure(g0, c, s.rhs) {
        PureOut::Val(v) => match s.op {
            CompareOp::Equal | CompareOp::GreaterEqual | CompareOp::LessEqual => store_post(
                g0,
                g1,
                c,
                s.lhs,
                v,
                ok,
            ),
            CompareOp::Greater => match neighbor_spec(true, v) {
                Ok(w) => store_post(g0, g1, c, s.lhs, w, ok),
                Err(()) => !ok && *g1 == *g0,
            },
            CompareOp::Less => match neighbor_spec(false, v) {
                Ok(w) => store_post(g0, g1, c, s.lhs, w, ok),
                Err(()) => !ok && *g1 == *g0,
            },
            CompareOp::NotEqual => match v {
                ValSpec::Tuple(_) => !ok && *g1 == *g0,
                _ => exists|w: ValSpec| wobble_rel(v, w) && store_post(g0, g1, c, s.lhs, w, ok),
            },
        },
        PureOut::Fail => !ok && *g1 == *g0,
        PureOut::Impure => true,
    }
}

/// The structural size of a statement, the walking measure of the executor
/// within one budget step; a stored node body is data, not walked.
pub open spec fn ssize(s: Statement) -> nat
    decreases s, 0int,
{
    match s {
        Statement::Rm(_) => 1,
        Statement::Ass(a) => 1 + crate::expr::esize(a.rhs) + lsize(a.lhs),
        Statement::Ret(r) => 1 + crate::expr::esize(r.value),
        Statement::If(i) => 1 + crate::expr::esize(i.cond) + ssize(*i.body),
        Statement::Loli(l) => 1 + crate::expr::esize(l.cond) + ssize(*l.body),
        Statement::Maybe(m) => 1 + ssize(*m.body),
        Statement::NodeDef(_) => 1,
        Statement::Expr(e) => 1 + crate::expr::esize(e.value),
        Statement::Stmts(ss) => 1 + ssizes(ss.stmts@, 0),
    }
}

/// The summed size of the statements from position `i` on.
pub open spec fn ssizes(ss: Seq<Statement>, i: int) -> nat
    decreases ss, ss.len() - i,
    via ssizes_decreases
{
    if i < 0 || i >= ss.len() {
        0
    } else {
        ssize(ss[i]) + ssizes(ss, i + 1)
    }
}

#[via_fn]
proof fn ssizes_decreases(ss: Seq<Statement>, i: int) {
    broadcast use vstd::seq::axiom_seq_index_decreases;

    if 0 <= i && i < ss.len() {
        assert(decreases_to!(ss => ss[i]));
    }
}

/// The structural size of an assignment target.
pub open spec fn lsize(l: LValue) -> nat
    decreases l, 0int,
{
    match l {
        LValue::Identifier(_) => 1,
        LValue::MemberExpr(m) => 2 + crate::expr::esize(*m.lhs) + crate::expr::esize(*m.rhs),
    }
}

/// A member of a statement list weighs no more than the whole suffix.
pub proof fn lemma_ssizes_bound(ss: Seq<Statement>, j: int, i: int)
    requires
        0 <= j <= i < ss.len(),
    ensures
        ssizes(ss, j) >= ssize(ss[i]),
    decreases i - j,
{
    if j < i {
        lemma_ssizes_bound(ss, j + 1, i);
    }
}

/// Every statement has positive size.
pub proof fn lemma_ssize_pos(s: Statement)
    ensures
        ssize(s) >= 1,
{
}

impl LValue {
    /// A write through an assignment target: the implicit-declaration rule
    /// for a plain name, the keyed write for a member access.
    pub fn set(&self, g: &mut Global, rng: &mut Rng, ctx: Context, val: VarType, fuel: u64) -> (r:
        Result<(), CodeExecError>)
        requires
            old(g).wf(),
            (ctx.id as int) < old(g).ctxs@.len(),
        ensures
            final(g).wf(),
            Global::exec_frame(old(g), final(g)),
            store_post(old(g), final(g), ctx.id as int, *self, vmodel(val), r is Ok),
        decreases fuel, lsize(*self), 0int,
    {
        match self {
            LValue::Identifier(name) => {
                ctx.set_symbol(g, name, val);
                Ok(())
            },
            LValue::MemberExpr(m) => m.set(g, rng, ctx, val, fuel),
        }
    }
}

/// What one step of the executor guarantees, by statement kind: exact where
/// the driving expressions are pure, relational through existential
/// intermediate states where children compose, and silent only where an
/// impure expression decides.
pub open spec fn stmt_post(
    g0: Global,
    g1: Global,
    c: int,
    s: Statement,
    r: Result<Option<VarType>, CodeExecError>,
    fuel: u64,
) -> bool
    decreases fuel, ssize(s), 2int,
{
    &&& g1.wf()
    &&& Global::exec_frame(&g0, &g1)
    &&& match s {
        Statement::Ret(st) => ret_post(&g0, &g1, c, &st, r),
        Statement::Ass(st) => ass_post(&g0, &g1, c, &st, r is Ok) && (r matches Ok(o) ==> o
            is None),
        Statement::If(st) => if_post(g0, g1, c, &st, r, fuel),
        Statement::Loli(st) => loli_post(g0, g1, c, &st, r, fuel),
        Statement::Maybe(st) => maybe_post(g0, g1, c, &st, r, fuel),
        Statement::NodeDef(st) => nodedef_post(&g0, &g1, c, &st, r),
        Statement::Expr(st) => expr_stmt_post(&g0, &g1, c, &st, r) && (r matches Ok(o) ==> o
            is None),
        Statement::Rm(st) => rm_post(&g0, &g1, c, &st, r, fuel),
        Statement::Stmts(st) => stmts_post(g0, g1, c, st.stmts@, 0, r, fuel),
    }
}

/// Names one candidate step of an execution chain: the intermediate state
/// and the step's result. It carries no information of its own; the chain
/// contracts quantify over it.
pub open spec fn chain_step(gm: Global, r0: Result<Option<VarType>, CodeExecError>) -> bool {
    true
}

/// The executor's guarantee for a statement list from position `i` on: a
/// chain of intermediate states, one per executed child, each step meeting
/// the child's own guarantee; the first return signal or error ends the
/// chain unchanged and is the result, and a fully run chain yields no
/// signal.
pub open spec fn stmts_post(
    g0: Global,
    g1: Global,
    c: int,
    ss: Seq<Statement>,
    i: int,
    r: Result<Option<VarType>, CodeExecError>,
    fuel: u64,
) -> bool
    decreases fuel, 1 + ssizes(ss, i), 1int,
    via stmts_post_decreases
{
    &&& g1.wf()
    &&& Global::exec_frame(&g0, &g1)
    &&& if i < 0 || i >= ss.len() {
        (r matches Ok(o) && o is None) && g1 == g0
    } else {
        exists|gm: Global, r0: Result<Option<VarType>, CodeExecError>|
            #[trigger] chain_step(gm, r0) && stmt_post(g0, gm, c, ss[i], r0, fuel) && (match r0 {
                Ok(Some(v)) => (r matches Ok(o) && o matches Some(x) && x == v) && g1 == gm,
                Ok(None) => stmts_post(gm, g1, c, ss, i + 1, r, fuel),
                Err(e) => (r matches Err(e2) && e2 == e) && g1 == gm,
            })
    }
}

#[via_fn]
proof fn stmts_post_decreases(
    g0: Global,
    g1: Global,
    c: int,
    ss: Seq<Statement>,
    i: int,
    r: Result<Option<VarType>, CodeExecError>,
    fuel: u64,
) {
    if 0 <= i && i < ss.len() {
        lemma_ssize_pos(ss[i]);
    }
}

/// The conditional's guarantee when its condition is pure: a falsy
/// condition leaves the state alone, a truthy one hands the whole step to
/// the body, and a failing one is the statement's error.
pub open spec fn if_post(
    g0: Global,
    g1: Global,
    c: int,
    st: &IfStatement,
    r: Result<Option<VarType>, CodeExecError>,
    fuel: u64,
) -> bool
    decreases fuel, 1 + crate::expr::esize(st.cond) + ssize(*st.body), 1int,
{
    match eval_pure(&g0, c, st.cond) {
        PureOut::Val(v) => if truthy_spec(v) {
            stmt_post(g0, g1, c, *st.body, r, fuel)
        } else {
            (r matches Ok(o) && o is None) && g1 == g0
        },
        PureOut::Fail => r is Err && g1 == g0,
        PureOut::Impure => true,
    }
}

/// The loop's guarantee, one budget unit per iteration: an exhausted budget
/// is an error; a pure falsy condition ends the loop unchanged; a pure
/// truthy one runs the body and chains, with a return signal or error from
/// the body ending the loop at once.
pub open spec fn loli_post(
    g0: Global,
    g1: Global,
    c: int,
    st: &LoliStatement,
    r: Result<Option<VarType>, CodeExecError>,
    fuel: u64,
) -> bool
    decreases fuel, 1 + crate::expr::esize(st.cond) + ssize(*st.body), 1int,
{
    &&& g1.wf()
    &&& Global::exec_frame(&g0, &g1)
    &&& if fuel == 0 {
        r is Err && g1 == g0
    } else {
        match eval_pure(&g0, c, st.cond) {
            PureOut::Val(v) => if !truthy_spec(v) {
                (r matches Ok(o) && o is None) && g1 == g0
            } else {
                exists|gm: Global, rb: Result<Option<VarType>, CodeExecError>|
                    #[trigger] chain_step(gm, rb) && stmt_post(g0, gm, c, *st.body, rb, (fuel
                        - 1) as u64) && (match rb {
                        Ok(Some(v2)) => (r matches Ok(o) && o matches Some(x) && x == v2) && g1
                            == gm,
                        Ok(None) => loli_post(gm, g1, c, st, r, (fuel - 1) as u64),
                        Err(e) => (r matches Err(e2) && e2 == e) && g1 == gm,
                    })
            },
            PureOut::Fail => r is Err && g1 == g0,
            PureOut::Impure => true,
        }
    }
}

/// The probabilistic statement's guarantee as seen from a chain, where the
/// draw is not visible: either the body's whole guarantee held, or nothing
/// happened. The statement's own contract additionally pins which of the
/// two the sampler forced.
pub open spec fn maybe_post(
    g0: Global,
    g1: Global,
    c: int,
    st: &MaybeStatement,
    r: Result<Option<VarType>, CodeExecError>,
    fuel: u64,
) -> bool
    decreases fuel, 1 + ssize(*st.body), 1int,
{
    ||| stmt_post(g0, g1, c, *st.body, r, fuel)
    ||| (r matches Ok(o) && o is None) && g1 == g0
}

impl Statement {
    /// One step of the executor: a `Some` result is a return signal that
    /// every enclosing construct propagates to the nearest call boundary.
    pub fn exec(&self, g: &mut Global, rng: &mut Rng, ctx: Context, fuel: u64) -> (r: Result<
        Option<VarType>,
        CodeExecError,
    >)
        requires
            old(g).wf(),
            (ctx.id as int) < old(g).ctxs@.len(),
        ensures
            stmt_post(*old(g), *final(g), ctx.id as int, *self, r, fuel),
        decreases fuel, ssize(*self), 3int,
    {
        proof {
            reveal_with_fuel(stmt_post, 2);
        }
        match self {
            Statement::Rm(stmt) => stmt.exec(g, rng, ctx, fuel),
            Statement::Ass(stmt) => stmt.exec(g, rng, ctx, fuel),
            Statement::Ret(stmt) => stmt.exec(g, rng, ctx, fuel),
            Statement::If(stmt) => stmt.exec(g, rng, ctx, fuel),
            Statement::Loli(stmt) => stmt.exec(g, rng, ctx, fuel),
            Statement::Maybe(stmt) => stmt.exec(g, rng, ctx, fuel),
            Statement::NodeDef(stmt) => stmt.exec(g, rng, ctx, fuel),
            Statement::Expr(stmt) => stmt.exec(g, rng, ctx, fuel),
            Statement::Stmts(stmt) => stmt.exec(g, rng, ctx, fuel),
        }
    }
}

impl Statements {
    /// Runs the children in order and stops at the first return signal.
    pub fn exec(&self, g: &mut Global, rng: &mut Rng, ctx: Context, fuel: u64) -> (r: Result<
        Option<VarType>,
        CodeExecError,
    >)
        requires
            old(g).wf(),
            (ctx.id as int) < old(g).ctxs@.len(),
        ensures
            final(g).wf(),
            Global::exec_frame(old(g), final(g)),
            stmts_post(*old(g), *final(g), ctx.id as int, self.stmts@, 0, r, fuel),
        decreases fuel, 1 + ssizes(self.stmts@, 0), 1int,
    {
        run_from(&self.stmts, g, rng, ctx, 0, fuel)
    }
}

/// Runs the children of a list from position `i` on; the recursion mirrors
/// the chain the contract states.
fn run_from(stmts: &Vec<Statement>, g: &mut Global, rng: &mut Rng, ctx: Context, i: usize, fuel:
    u64) -> (r: Result<Option<VarType>, CodeExecError>)
    requires
        old(g).wf(),
        (ctx.id as int) < old(g).ctxs@.len(),
        i <= stmts@.len(),
    ensures
        final(g).wf(),
        Global::exec_frame(old(g), final(g)),
        stmts_post(*old(g), *final(g), ctx.id as int, stmts@, i as int, r, fuel),
    decreases fuel, 1 + ssizes(stmts@, i as int), 0int,
{
    if i >= stmts.len() {
        return Ok(None);
    }
    proof {
        lemma_ssize_pos(stmts@[i as int]);
    }
    let r0 = stmts[i].exec(g, rng, ctx, fuel);
    let ghost gm = *g;
    proof {
        reveal_with_fuel(stmts_post, 2);
    }
    match r0 {
        Ok(Some(v)) => {
            let res = Ok(Some(v));
            proof {
                assert(chain_step(gm, res));
                assert(stmt_post(*old(g), gm, ctx.id as int, stmts@[i as int], res, fuel));
                assert(*g == gm);
                assert(res matches Ok(o) && o matches Some(x) && (match res {
                    Ok(Some(v2)) => x == v2,
                    _ => false,
                }));
                assert(exists|gm2: Global, r02: Result<Option<VarType>, CodeExecError>|
                    #[trigger] stmt_post(
                        *old(g),
                        gm2,
                        ctx.id as int,
                        stmts@[i as int],
                        r02,
                        fuel,
                    ));
                assert(stmts_post(*old(g), *g, ctx.id as int, stmts@, i as int, res, fuel));
            }
            res
        },
        Ok(None) => {
            let res = run_from(stmts, g, rng, ctx, i + 1, fuel);
            proof {
                assert(chain_step(gm, Ok::<Option<VarType>, CodeExecError>(None)));
                assert(stmt_post(
                    *old(g),
                    gm,
                    ctx.id as int,
                    stmts@[i as int],
                    Ok::<Option<VarType>, CodeExecError>(None),
                    fuel,
                ));
                assert(stmts_post(*old(g), *g, ctx.id as int, stmts@, i as int, res, fuel));
            }
            res
        },
        Err(e) => {
            let res = Err(e);
            proof {
                assert(chain_step(gm, res));
                assert(stmt_post(*old(g), gm, ctx.id as int, stmts@[i as int], res, fuel));
                assert(stmts_post(*old(g), *g, ctx.id as int, stmts@, i as int, res, fuel));
            }
            res
        },
    }
}

impl BlockStatement {
    /// Runs the block's children in order and stops at the first return
    /// signal.
    pub fn exec(&self, g: &mut Global, rng: &mut Rng, ctx: Context, fuel: u64) -> (r: Result<
        Option<VarType>,
        CodeExecError,
    >)
        requires
            old(g).wf(),
            (ctx.id as int) < old(g).ctxs@.len(),
        ensures
            final(g).wf(),
            Global::exec_frame(old(g), final(g)),
            stmts_post(*old(g), *final(g), ctx.id as int, self.stmts@, 0, r, fuel),
        decreases fuel, 1 + ssizes(self.stmts@, 0), 1int,
    {
        run_from(&self.stmts, g, rng, ctx, 0, fuel)
    }
}

/// The exact behavior of a return whose expression is pure.
pub open spec fn ret_post(
    g0: &Global,
    g1: &Global,
    c: int,
    s: &ReturnStatement,
    r: Result<Option<VarType>, CodeExecError>,
) -> bool {
    match eval_pure(g0, c, s.value) {
        PureOut::Val(v) => (r matches Ok(o) && o matches Some(x) && x.model() == v) && *g1 == *g0,
        PureOut::Fail => r is Err && *g1 == *g0,
        PureOut::Impure => true,
    }
}

impl ReturnStatement {
    /// Evaluates the expression and signals it upward.
    pub fn exec(&self, g: &mut Global, rng: &mut Rng, ctx: Context, fuel: u64) -> (r: Result<
        Option<VarType>,
        CodeExecError,
    >)
        requires
            old(g).wf(),
            (ctx.id as int) < old(g).ctxs@.len(),
        ensures
            final(g).wf(),
            Global::exec_frame(old(g), final(g)),
            ret_post(old(g), final(g), ctx.id as int, self, r),
        decreases fuel, 1 + crate::expr::esize(self.value), 2int,
    {
        let v = self.value.eval(g, rng, ctx, fuel)?;
        Ok(Some(v))
    }
}

impl IfStatement {
    /// Coerces the condition to a boolean and runs the body only on truth.
    pub fn exec(&self, g: &mut Global, rng: &mut Rng, ctx: Context, fuel: u64) -> (r: Result<
        Option<VarType>,
        CodeExecError,
    >)
        requires
            old(g).wf(),
            (ctx.id as int) < old(g).ctxs@.len(),
        ensures
            final(g).wf(),
            Global::exec_frame(old(g), final(g)),
            if_post(*old(g), *final(g), ctx.id as int, self, r, fuel),
        decreases fuel, 1 + crate::expr::esize(self.cond) + ssize(*self.body), 2int,
    {
        let c = self.cond.eval(g, rng, ctx, fuel)?;
        if c.truthy() {
            self.body.exec(g, rng, ctx, fuel)
        } else {
            Ok(None)
        }
    }
}

impl LoliStatement {
    /// The loop: repeatedly coerces the condition and runs the body until
    /// the condition is falsy or the body signals a return; each iteration
    /// spends one unit of budget, so an exhausted budget is an error.
    pub fn exec(&self, g: &mut Global, rng: &mut Rng, ctx: Context, fuel: u64) -> (r: Result<
        Option<VarType>,
        CodeExecError,
    >)
        requires
            old(g).wf(),
            (ctx.id as int) < old(g).ctxs@.len(),
        ensures
            final(g).wf(),
            Global::exec_frame(old(g), final(g)),
            loli_post(*old(g), *final(g), ctx.id as int, self, r, fuel),
        decreases fuel, 1 + crate::expr::esize(self.cond) + ssize(*self.body), 2int,
    {
        if fuel == 0 {
            return Err(CodeExecError::new(&ctx, "Evaluation budget exhausted.".to_owned()));
        }
        let f = fuel - 1;
        let c = self.cond.eval(g, rng, ctx, f)?;
        if !c.truthy() {
            return Ok(None);
        }
        let ghost gc = *g;
        let rb = self.body.exec(g, rng, ctx, f);
        let ghost gm = *g;
        proof {
            reveal_with_fuel(loli_post, 2);
        }
        match rb {
            Ok(Some(v)) => {
                let res = Ok(Some(v));
                proof {
                    match eval_pure(old(g), ctx.id as int, self.cond) {
                        PureOut::Val(vc) => {
                            assert(*old(g) == gc);
                            assert(chain_step(gm, res));
                            assert(stmt_post(*old(g), gm, ctx.id as int, *self.body, res, f));
                        },
                        _ => (),
                    }
                    assert(loli_post(*old(g), *g, ctx.id as int, self, res, fuel));
                }
                res
            },
            Ok(None) => {
                let res = self.exec(g, rng, ctx, f);
                proof {
                    match eval_pure(old(g), ctx.id as int, self.cond) {
                        PureOut::Val(vc) => {
                            assert(*old(g) == gc);
                            assert(chain_step(gm, Ok::<Option<VarType>, CodeExecError>(None)));
                            assert(stmt_post(
                                *old(g),
                                gm,
                                ctx.id as int,
                                *self.body,
                                Ok::<Option<VarType>, CodeExecError>(None),
                                f,
                            ));
                        },
                        _ => (),
                    }
                    assert(loli_post(*old(g), *g, ctx.id as int, self, res, fuel));
                }
                res
            },
            Err(e) => {
                let res = Err(e);
                proof {
                    match eval_pure(old(g), ctx.id as int, self.cond) {
                        PureOut::Val(vc) => {
                            assert(*old(g) == gc);
                            assert(chain_step(gm, res));
                            assert(stmt_post(*old(g), gm, ctx.id as int, *self.body, res, f));
                        },
                        _ => (),
                    }
                    assert(loli_post(*old(g), *g, ctx.id as int, self, res, fuel));
                }
                res
            },
        }
    }
}

impl MaybeStatement {
    /// Draws a fair coin from the sampler and runs the body only on a hit;
    /// on a miss the state is untouched.
    pub fn exec(&self, g: &mut Global, rng: &mut Rng, ctx: Context, fuel: u64) -> (r: Result<
        Option<VarType>,
        CodeExecError,
    >)
        requires
            old(g).wf(),
            (ctx.id as int) < old(g).ctxs@.len(),
        ensures
            final(g).wf(),
            Global::exec_frame(old(g), final(g)),
            maybe_post(*old(g), *final(g), ctx.id as int, self, r, fuel),
            mix_out(mix_state(old(rng).state)) & 1 == 0 ==> (r matches Ok(o) && o is None)
                && *final(g) == *old(g),
            mix_out(mix_state(old(rng).state)) & 1 == 1 ==> stmt_post(
                *old(g),
                *final(g),
                ctx.id as int,
                *self.body,
                r,
                fuel,
            ),
        decreases fuel, 1 + ssize(*self.body), 2int,
    {
        let d = rng.next_u64();
        if d & 1 == 1 {
            let res = self.body.exec(g, rng, ctx, fuel);
            proof {
                assert(maybe_post(*old(g), *g, ctx.id as int, self, res, fuel));
            }
            res
        } else {
            let res = Ok(None);
            proof {
                assert(maybe_post(*old(g), *g, ctx.id as int, self, res, fuel));
            }
            res
        }
    }
}

/// The exact behavior of an expression statement with a pure expression: a
/// non-`Nzero` result lands in the `that` binding by the normal assignment
/// rule, an `Nzero` result leaves the state alone.
pub open spec fn expr_stmt_post(
    g0: &Global,
    g1: &Global,
    c: int,
    s: &ExprStatement,
    r: Result<Option<VarType>, CodeExecError>,
) -> bool {
    match eval_pure(g0, c, s.value) {
        PureOut::Val(v) => (r matches Ok(o) && o is None) && if v is Nzero {
            *g1 == *g0
        } else {
            store_target_post(g0, g1, c, "that"@, v)
        },
        PureOut::Fail => r is Err && *g1 == *g0,
        PureOut::Impure => true,
    }
}

impl ExprStatement {
    /// Evaluates for effect; a non-`Nzero` result is bound to `that`.
    pub fn exec(&self, g: &mut Global, rng: &mut Rng, ctx: Context, fuel: u64) -> (r: Result<
        Option<VarType>,
        CodeExecError,
    >)
        requires
            old(g).wf(),
            (ctx.id as int) < old(g).ctxs@.len(),
        ensures
            final(g).wf(),
            Global::exec_frame(old(g), final(g)),
            expr_stmt_post(old(g), final(g), ctx.id as int, self, r),
            r matches Ok(o) ==> o is None,
        decreases fuel, 1 + crate::expr::esize(self.value), 2int,
    {
        let value = self.value.eval(g, rng, ctx, fuel)?;
        match value {
            VarType::Nzero => Ok(None),
            other => {
                ctx.set_symbol(g, &"that".to_owned(), other);
                Ok(None)
            },
        }
    }
}

impl AssStatement {
    /// Evaluates the right side, transforms it by the operator flavor, and
    /// writes it through the target.
    pub fn exec(&self, g: &mut Global, rng: &mut Rng, ctx: Context, fuel: u64) -> (r: Result<
        Option<VarType>,
        CodeExecError,
    >)
        requires
            old(g).wf(),
            (ctx.id as int) < old(g).ctxs@.len(),
        ensures
            final(g).wf(),
            Global::exec_frame(old(g), final(g)),
            ass_post(old(g), final(g), ctx.id as int, self, r is Ok),
            r matches Ok(o) ==> o is None,
        decreases fuel, 1 + crate::expr::esize(self.rhs) + lsize(self.lhs), 2int,
    {
        let rhs = self.rhs.eval(g, rng, ctx, fuel)?;
        let stored: VarType = match &self.op {
            CompareOp::Equal | CompareOp::GreaterEqual | CompareOp::LessEqual => rhs,
            CompareOp::NotEqual => NotExpr::not(&ctx, rng, rhs)?,
            CompareOp::Greater => match rhs {
                VarType::Float(b) => VarType::Float(crate::float::f64_next_up_exec(b)),
                VarType::Int(i) => VarType::Int(next_up_i64(i)),
                VarType::Bool(_) => VarType::Bool(true),
                _ => {
                    return Err(
                        CodeExecError::new(
                            &ctx,
                            "Invalid operand for a neighbor assignment.".to_owned(),
                        ),
                    );
                },
            },
            CompareOp::Less => match rhs {
                VarType::Float(b) => VarType::Float(crate::float::f64_next_down_exec(b)),
                VarType::Int(i) => VarType::Int(next_down_i64(i)),
                VarType::Bool(_) => VarType::Bool(false),
                _ => {
                    return Err(
                        CodeExecError::new(
                            &ctx,
                            "Invalid operand for a neighbor assignment.".to_owned(),
                        ),
                    );
                },
            },
        };
        proof {
            crate::expr::lemma_esize_pos(self.rhs);
        }
        let res = self.lhs.set(g, rng, ctx, stored, fuel);
        proof {
            match eval_pure(old(g), ctx.id as int, self.rhs) {
                PureOut::Val(v) => match self.op {
                    CompareOp::NotEqual => {
                        match v {
                            ValSpec::Tuple(_) => (),
                            _ => {
                                assert(wobble_rel(v, vmodel(stored)));
                                assert(store_post(
                                    old(g),
                                    g,
                                    ctx.id as int,
                                    self.lhs,
                                    vmodel(stored),
                                    res is Ok,
                                ));
                                assert(exists|w: ValSpec|
                                    wobble_rel(v, w) && store_post(
                                        old(g),
                                        g,
                                        ctx.id as int,
                                        self.lhs,
                                        w,
                                        res is Ok,
                                    ));
                            },
                        }
                    },
                    _ => (),
                },
                _ => (),
            }
        }
        match res {
            Ok(_) => Ok(None),
            Err(e) => Err(e),
        }
    }
}

/// The exact behavior of a node definition: a fresh closure capturing the
/// defining scope goes onto the heap, and its reference is bound under the
/// given name by the normal assignment rule.
pub open spec fn nodedef_post(
    g0: &Global,
    g1: &Global,
    c: int,
    s: &NodeDefStatement,
    r: Result<Option<VarType>, CodeExecError>,
) -> bool {
    &&& r matches Ok(o) && o is None
    &&& g1.ctxs@ == g0.ctxs@
    &&& g1.heap@.len() == g0.heap@.len() + 1
    &&& g1.same_support(g0)
    &&& g1.models() == g0.models().push(
        CompSpec::Node(
            NodeModel::Code { parent: c, params: s.args.deep_view(), body: s.body },
        ),
    ).update(
        g0.ctxs@[bind_target(g0, c, s.name@)].mess as int,
        CompSpec::Mess(
            ctx_map(g0, bind_target(g0, c, s.name@)).insert(
                s.name@,
                ValSpec::Ref(g0.heap@.len() as int),
            ),
        ),
    )
}

impl NodeDefStatement {
    /// Constructs the closure and binds it in the current scope.
    pub fn exec(&self, g: &mut Global, rng: &mut Rng, ctx: Context, fuel: u64) -> (r: Result<
        Option<VarType>,
        CodeExecError,
    >)
        requires
            old(g).wf(),
            (ctx.id as int) < old(g).ctxs@.len(),
        ensures
            final(g).wf(),
            Global::exec_frame(old(g), final(g)),
            nodedef_post(old(g), final(g), ctx.id as int, self, r),
        decreases fuel, 1int, 2int,
    {
        let node = Node::Code(
            CodeNode {
                parent: ctx.id,
                args: crate::node::clone_param_names(&self.args),
                body: crate::node::clone_stmt_rc(&self.body),
            },
        );
        let h = g.heap.len();
        g.heap.push(crate::data::MemData::Node(node));
        proof {
            crate::node::lemma_heap_push_node(old(g), g, h as int);
            lemma_lookup_heap_grow(old(g), g, ctx.id as int, self.name@);
        }
        ctx.set_symbol(g, &self.name, VarType::Ref(h));
        Ok(None)
    }
}

/// Growing the arenas, or touching anything outside them, changes no
/// existing scope's bindings: lookups and the assignment target are as they
/// were for every scope that already existed.
pub proof fn lemma_lookup_heap_grow(g0: &Global, g1: &Global, c: int, name: Seq<char>)
    requires
        g0.wf(),
        c < g0.ctxs@.len(),
        g0.ctxs@.len() <= g1.ctxs@.len(),
        forall|i: int| 0 <= i < g0.ctxs@.len() ==> g1.ctxs@[i] == g0.ctxs@[i],
        g0.heap@.len() <= g1.heap@.len(),
        forall|h: int| 0 <= h < g0.heap@.len() ==> g1.heap@[h] == g0.heap@[h],
    ensures
        forall|x: int|
            0 <= x < g0.ctxs@.len() ==> #[trigger] ctx_map(g1, x) == ctx_map(g0, x),
        lookup_sym(g1, c, name) == lookup_sym(g0, c, name),
        bind_target(g1, c, name) == bind_target(g0, c, name),
    decreases (if c >= 0 { c + 1 } else { 0 }),
{
    assert forall|x: int|
        0 <= x < g0.ctxs@.len() implies #[trigger] ctx_map(g1, x) == ctx_map(g0, x) by {
        assert(g0.ctx_entry_wf(x));
    }
    if 0 <= c < g0.ctxs@.len() {
        match g0.ctxs@[c].parent {
            Some(p) => {
                if (p as int) < c {
                    lemma_lookup_heap_grow(g0, g1, p as int, name);
                }
            },
            None => (),
        }
    }
}

} // verus!
