//! Callable nodes: closures over a captured scope, and the host-provided
//! natives of the built-in modules.

use vstd::prelude::*;
use std::rc::Rc;
use crate::global::{ctx_map, Context, CtxEntry, Global};
use crate::rng::Rng;
use crate::statement::{CodeExecError, Statement};
use crate::data::CompSpec;
use crate::variable::{smodel, truthy_spec, val_str, vmodel, ValSpec, VarType};

verus! {

/// The closed set of host functions that native nodes can point at.
#[derive(Clone, Copy, Debug)]
pub enum NativeFunc {
    /// Writes its space-joined arguments to the console.
    CpuOp,
    /// Writes its space-joined arguments and a newline to the console.
    CpuWcop,
    /// Fails the run unless its first argument is truthy.
    UtAssert,
}

/// Mathematical model of a callable node.
pub enum NodeModel {
    Code { parent: int, params: Seq<Seq<char>>, body: Rc<Statement> },
    Native { parent: int, func: NativeFunc },
}

/// A closure: the scope captured at definition time, the formal parameter
/// names, and a shared statement body.
#[derive(Debug)]
pub struct CodeNode {
    pub parent: usize,
    pub args: Vec<String>,
    pub body: Rc<Statement>,
}

/// A native: the scope captured at registration time and a host function.
#[derive(Debug)]
pub struct NativeNode {
    pub parent: usize,
    pub func: NativeFunc,
}

/// A callable value.
#[derive(Debug)]
pub enum Node {
    Code(CodeNode),
    Native(NativeNode),
}

impl CodeNode {
    pub open spec fn model(&self) -> NodeModel {
        NodeModel::Code {
            parent: self.parent as int,
            params: self.args.deep_view(),
            body: self.body,
        }
    }

    /// A closure with no parameters over the given scope and body.
    pub fn new(parent: usize, body: Rc<Statement>) -> (r: CodeNode)
        ensures
            r.model() == (NodeModel::Code {
                parent: parent as int,
                params: Seq::<Seq<char>>::empty(),
                body,
            }),
    {
        let r = CodeNode { parent, args: Vec::new(), body };
        proof {
            assert(r.args.deep_view() =~= Seq::<Seq<char>>::empty());
        }
        r
    }
}

impl NativeNode {
    pub open spec fn model(&self) -> NodeModel {
        NodeModel::Native { parent: self.parent as int, func: self.func }
    }

    pub fn new(parent: usize, func: NativeFunc) -> (r: NativeNode)
        ensures
            r.model() == (NodeModel::Native { parent: parent as int, func }),
    {
        NativeNode { parent, func }
    }
}

impl Node {
    pub open spec fn model(&self) -> NodeModel {
        match self {
            Node::Code(n) => n.model(),
            Node::Native(n) => n.model(),
        }
    }

    /// The scope handle a node captured.
    pub open spec fn parent_of(&self) -> int {
        match self.model() {
            NodeModel::Code { parent, .. } => parent,
            NodeModel::Native { parent, .. } => parent,
        }
    }

    /// A copy with the same model; the statement body is shared, not copied.
    pub fn duplicate(&self) -> (r: Node)
        ensures
            r.model() == self.model(),
    {
        match self {
            Node::Code(n) => Node::Code(
                CodeNode {
                    parent: n.parent,
                    args: clone_param_names(&n.args),
                    body: clone_stmt_rc(&n.body),
                },
            ),
            Node::Native(n) => Node::Native(NativeNode { parent: n.parent, func: n.func }),
        }
    }

    /// Invocation of a callable on evaluated arguments: a closure runs its
    /// body in a fresh child of its captured scope, a native runs its host
    /// function.
    pub fn exec(self, g: &mut Global, rng: &mut Rng, args: &Vec<VarType>, fuel: u64) -> (r: Result<
        VarType,
        CodeExecError,
    >)
        requires
            old(g).wf(),
            0 <= self.parent_of() < old(g).ctxs@.len(),
        ensures
            final(g).wf(),
            Global::exec_frame(old(g), final(g)),
            match self {
                Node::Code(n) => final(g).ctxs@.len() > old(g).ctxs@.len()
                    && final(g).ctxs@[old(g).ctxs@.len() as int] == (CtxEntry {
                    parent: Some(n.parent),
                    mess: old(g).heap.len(),
                }) && (args@.len() > n.args@.len() ==> r is Err) && (fuel == 0 ==> r is Err) && (
                (fuel > 0 && args@.len() <= n.args@.len()) ==> exists|
                    gm: Global,
                    gend: Global,
                    rb: Result<Option<VarType>, CodeExecError>,
                |
                    {
                        &&& #[trigger] call_chain(gm, gend, rb)
                        &&& call_env_state(
                            *old(g),
                            gm,
                            n.parent,
                            n.args.deep_view(),
                            smodel(args@),
                        )
                        &&& crate::statement::stmt_post(
                            gm,
                            gend,
                            old(g).ctxs@.len() as int,
                            *n.body,
                            rb,
                            (fuel - 1) as u64,
                        )
                        &&& final(g).heap@ == gend.heap@
                        &&& final(g).ctxs@ == gend.ctxs@
                        &&& final(g).out.deep_view() == gend.out.deep_view()
                        &&& match rb {
                            Ok(Some(v)) => r matches Ok(x) && x == v,
                            Ok(None) => r matches Ok(x) && x.model() == ValSpec::Nzero,
                            Err(e) => r matches Err(e2) && e2 == e,
                        }
                    }),
                Node::Native(n) => final(g).heap@ == old(g).heap@
                    && final(g).ctxs@ == old(g).ctxs@ && (match n.func {
                    NativeFunc::CpuOp => (r matches Ok(v) && v.model() == ValSpec::Nzero)
                        && final(g).out.deep_view() == old(g).out.deep_view().push(
                        vals_joined(smodel(args@), 0),
                    ),
                    NativeFunc::CpuWcop => (r matches Ok(v) && v.model() == ValSpec::Nzero)
                        && final(g).out.deep_view() == old(g).out.deep_view().push(
                        vals_joined(smodel(args@), 0) + "\n"@,
                    ),
                    NativeFunc::UtAssert => final(g).out.deep_view()
                        == old(g).out.deep_view() && (if args@.len() == 0 {
                        r is Err
                    } else if truthy_spec(smodel(args@)[0]) {
                        r matches Ok(v) && v.model() == ValSpec::Nzero
                    } else {
                        r is Err
                    }),
                }),
            },
        decreases fuel, 1int, 0int,
    {
        match self {
            Node::Code(node) => node.exec(g, rng, args, fuel),
            Node::Native(node) => node.exec(g, args),
        }
    }
}

/// The record a call builds: the formals bound positionally to the
/// argument values, a later duplicate formal overriding an earlier one, and
/// formals past the argument list left unbound.
pub open spec fn bound_env(
    m: Map<Seq<char>, ValSpec>,
    params: Seq<Seq<char>>,
    args: Seq<ValSpec>,
    i: int,
) -> Map<Seq<char>, ValSpec>
    decreases args.len() - i,
{
    if i < 0 || i >= args.len() || i >= params.len() {
        m
    } else {
        bound_env(m.insert(params[i], args[i]), params, args, i + 1)
    }
}

/// The state a call's body runs from: one fresh scope whose parent is the
/// captured defining scope, its record holding exactly the bound formals,
/// the new scope on the stack, and nothing else moved.
pub open spec fn call_env_state(
    g0: Global,
    gm: Global,
    parent: usize,
    params: Seq<Seq<char>>,
    argvals: Seq<ValSpec>,
) -> bool {
    &&& gm.wf()
    &&& gm.ctxs@ == g0.ctxs@.push(CtxEntry { parent: Some(parent), mess: g0.heap.len() })
    &&& gm.heap@.len() == g0.heap@.len() + 1
    &&& (forall|h: int| 0 <= h < g0.heap@.len() ==> gm.heap@[h] == g0.heap@[h])
    &&& ctx_map(&gm, g0.ctxs@.len() as int) == bound_env(
        Map::<Seq<char>, ValSpec>::empty(),
        params,
        argvals,
        0,
    )
    &&& gm.context_root == g0.context_root
    &&& gm.builtin_modules.factories@ == g0.builtin_modules.factories@
    &&& gm.out.deep_view() == g0.out.deep_view()
    &&& gm.stack.stack@ == g0.stack.stack@.push(g0.ctxs@.len() as usize)
}

/// Names one completed call: the state the body started from, the state it
/// ended in, and its raw result. It carries no information of its own; the
/// call contracts quantify over it.
pub open spec fn call_chain(
    gm: Global,
    gend: Global,
    rb: Result<Option<VarType>, CodeExecError>,
) -> bool {
    true
}

impl CodeNode {
    /// Invocation of a closure. A fresh scope is created whose parent is
    /// the captured defining scope (never the call site) — the lexical
    /// capture rule; the formals are bound positionally into that scope's
    /// own record; the body runs there and the call returns the body's
    /// first return signal, or `Nzero` on fall-through. More actual
    /// arguments than formals is an arity error; fewer leaves the trailing
    /// formals unbound.
    pub fn exec(self, g: &mut Global, rng: &mut Rng, args: &Vec<VarType>, fuel: u64) -> (r: Result<
        VarType,
        CodeExecError,
    >)
        requires
            old(g).wf(),
            (self.parent as int) < old(g).ctxs@.len(),
        ensures
            final(g).wf(),
            Global::exec_frame(old(g), final(g)),
            final(g).ctxs@.len() > old(g).ctxs@.len(),
            final(g).ctxs@[old(g).ctxs@.len() as int] == (CtxEntry {
                parent: Some(self.parent),
                mess: old(g).heap.len(),
            }),
            args@.len() > self.args@.len() ==> r is Err && final(g).ctxs@ == old(g).ctxs@.push(
                CtxEntry { parent: Some(self.parent), mess: old(g).heap.len() },
            ) && final(g).models() == old(g).models().push(
                CompSpec::Mess(Map::<Seq<char>, ValSpec>::empty()),
            ) && final(g).same_support(old(g)),
            fuel == 0 ==> r is Err,
            (fuel > 0 && args@.len() <= self.args@.len()) ==> exists|
                gm: Global,
                gend: Global,
                rb: Result<Option<VarType>, CodeExecError>,
            |
                {
                    &&& #[trigger] call_chain(gm, gend, rb)
                    &&& call_env_state(
                        *old(g),
                        gm,
                        self.parent,
                        self.args.deep_view(),
                        smodel(args@),
                    )
                    &&& crate::statement::stmt_post(
                        gm,
                        gend,
                        old(g).ctxs@.len() as int,
                        *self.body,
                        rb,
                        (fuel - 1) as u64,
                    )
                    &&& final(g).heap@ == gend.heap@
                    &&& final(g).ctxs@ == gend.ctxs@
                    &&& final(g).out.deep_view() == gend.out.deep_view()
                    &&& match rb {
                        Ok(Some(v)) => r matches Ok(x) && x == v,
                        Ok(None) => r matches Ok(x) && x.model() == ValSpec::Nzero,
                        Err(e) => r matches Err(e2) && e2 == e,
                    }
                },
        decreases fuel, 0int, 0int,
    {
        let ctx = Context::new(&Context { id: self.parent }, g);
        proof {
            assert forall|i: int|
                0 <= i < old(g).ctxs@.len() implies g.ctxs@[i] == old(g).ctxs@[i] by {
                assert(g.ctxs@ == old(g).ctxs@.push(
                    CtxEntry { parent: Some(self.parent), mess: old(g).heap.len() },
                ));
            }
            assert(Global::exec_frame(old(g), g));
            assert(g.models() == old(g).models().push(
                CompSpec::Mess(Map::<Seq<char>, ValSpec>::empty()),
            ));
            assert(g.ctxs@[ctx.id as int].mess as int == old(g).heap@.len());
            assert(old(g).models().len() == old(g).heap@.len());
            assert(g.models()[g.ctxs@[ctx.id as int].mess as int] == CompSpec::Mess(
                Map::<Seq<char>, ValSpec>::empty(),
            ));
            assert(g.heap@[g.ctxs@[ctx.id as int].mess as int].model() == CompSpec::Mess(
                Map::<Seq<char>, ValSpec>::empty(),
            ));
            match g.heap@[g.ctxs@[ctx.id as int].mess as int] {
                crate::data::MemData::Mess(m) => {
                    assert(ctx_map(g, ctx.id as int) == m.model());
                },
                _ => {
                    assert(false);
                },
            }
        }
        if args.len() > self.args.len() {
            let mut desc = "Too many arguments for this node: expected ".to_owned();
            desc.append(crate::variable::usize_str_exec(self.args.len()).as_str());
            desc.append(", got ");
            desc.append(crate::variable::usize_str_exec(args.len()).as_str());
            desc.append(".");
            return Err(CodeExecError::new(&ctx, desc));
        }
        let ghost g1 = *g;
        proof {
            crate::variable::lemma_smodel(args@);
        }
        let n = args.len();
        let mut i: usize = 0;
        while i < n
            invariant
                i <= n,
                n == args@.len(),
                n <= self.args@.len(),
                g.wf(),
                ctx.id as int == old(g).ctxs@.len(),
                (ctx.id as int) < g.ctxs@.len(),
                g.ctxs@ == g1.ctxs@,
                g1.ctxs@ == old(g).ctxs@.push(
                    CtxEntry { parent: Some(self.parent), mess: old(g).heap.len() },
                ),
                g.heap@.len() == g1.heap@.len(),
                g1.heap@.len() == old(g).heap@.len() + 1,
                forall|h: int| 0 <= h < old(g).heap@.len() ==> g.heap@[h] == old(g).heap@[h],
                g.context_root == g1.context_root,
                g.builtin_modules.factories@ == g1.builtin_modules.factories@,
                g.out.deep_view() == g1.out.deep_view(),
                g.stack.stack@ == g1.stack.stack@,
                Global::exec_frame(old(g), g),
                bound_env(
                    ctx_map(g, ctx.id as int),
                    self.args.deep_view(),
                    smodel(args@),
                    i as int,
                ) == bound_env(
                    Map::<Seq<char>, ValSpec>::empty(),
                    self.args.deep_view(),
                    smodel(args@),
                    0,
                ),
            decreases n - i,
        {
            let ghost gpre = *g;
            let v = args[i].duplicate();
            let ghost vm = vmodel(v);
            ctx.bind_local(g, &self.args[i], v);
            proof {
                crate::variable::lemma_smodel(args@);
                crate::global::lemma_ctx_map_after_update(
                    &gpre,
                    g,
                    ctx.id as int,
                    self.args@[i as int]@,
                    vm,
                );
                assert(ctx_map(g, ctx.id as int) == ctx_map(&gpre, ctx.id as int).insert(
                    self.args.deep_view()[i as int],
                    smodel(args@)[i as int],
                ));
            }
            i = i + 1;
        }
        if fuel == 0 {
            return Err(CodeExecError::new(&ctx, "Evaluation budget exhausted.".to_owned()));
        }
        let ghost g2 = *g;
        g.stack.push(ctx.id);
        proof {
            crate::global::lemma_wf_support(&g2, g);
            assert(ctx_map(g, ctx.id as int) == ctx_map(&g2, ctx.id as int));
            assert(call_env_state(
                *old(g),
                *g,
                self.parent,
                self.args.deep_view(),
                smodel(args@),
            ));
        }
        let ghost gm = *g;
        let res = self.body.exec(g, rng, ctx, fuel - 1);
        let ghost gend = *g;
        let _popped = g.stack.pop();
        proof {
            crate::global::lemma_wf_support(&gend, g);
            assert(g.stack.stack@ =~= g2.stack.stack@);
            assert(Global::exec_frame(&g2, g));
            crate::global::lemma_frame_trans(old(g), &g2, g);
        }
        match res {
            Ok(Some(v)) => {
                let ghost vv = v;
                let out = Ok(v);
                proof {
                    assert(call_chain(gm, gend, Ok::<Option<VarType>, CodeExecError>(Some(vv))));
                }
                out
            },
            Ok(None) => {
                let out = Ok(VarType::Nzero);
                proof {
                    assert(call_chain(gm, gend, Ok::<Option<VarType>, CodeExecError>(None)));
                }
                out
            },
            Err(e) => {
                let ghost ee = e;
                let out = Err(e);
                proof {
                    assert(call_chain(gm, gend, Err::<Option<VarType>, CodeExecError>(ee)));
                }
                out
            },
        }
    }
}

/// The arguments of a native call joined with single spaces, rendered.
pub open spec fn vals_joined(s: Seq<ValSpec>, i: int) -> Seq<char>
    decreases s.len() - i,
{
    if i < 0 || i >= s.len() {
        Seq::empty()
    } else if i + 1 == s.len() {
        val_str(s[i])
    } else {
        val_str(s[i]) + " "@ + vals_joined(s, i + 1)
    }
}

/// The space-joined rendering of the values from position `i` on.
fn join_vals(args: &Vec<VarType>, i: usize) -> (r: String)
    requires
        i <= args@.len(),
    ensures
        r@ == vals_joined(smodel(args@), i as int),
    decreases args@.len() - i,
{
    proof {
        crate::variable::lemma_smodel(args@);
    }
    if i >= args.len() {
        String::new()
    } else {
        let head = args[i].to_string();
        if i + 1 == args.len() {
            head
        } else {
            head.concat(" ").concat(join_vals(args, i + 1).as_str())
        }
    }
}

impl NativeNode {
    /// Invocation of a host native. The console natives append the
    /// space-joined rendering of their arguments to the console buffer (the
    /// line-writing one adds a newline) and return `Nzero`; the assertion
    /// native returns `Nzero` on a truthy first argument and fails the run
    /// otherwise, or when it got no argument.
    pub fn exec(&self, g: &mut Global, args: &Vec<VarType>) -> (r: Result<VarType, CodeExecError>)
        requires
            old(g).wf(),
        ensures
            final(g).wf(),
            Global::exec_frame(old(g), final(g)),
            final(g).heap@ == old(g).heap@,
            final(g).ctxs@ == old(g).ctxs@,
            match self.func {
                NativeFunc::CpuOp => (r matches Ok(v) && v.model() == ValSpec::Nzero)
                    && final(g).out.deep_view() == old(g).out.deep_view().push(
                    vals_joined(smodel(args@), 0),
                ),
                NativeFunc::CpuWcop => (r matches Ok(v) && v.model() == ValSpec::Nzero)
                    && final(g).out.deep_view() == old(g).out.deep_view().push(
                    vals_joined(smodel(args@), 0) + "\n"@,
                ),
                NativeFunc::UtAssert => final(g).out.deep_view() == old(g).out.deep_view() && (
                if args@.len() == 0 {
                    r is Err
                } else if truthy_spec(smodel(args@)[0]) {
                    r matches Ok(v) && v.model() == ValSpec::Nzero
                } else {
                    r is Err
                }),
            },
    {
        proof {
            crate::variable::lemma_smodel(args@);
        }
        match &self.func {
            NativeFunc::CpuOp => {
                let line = join_vals(args, 0);
                let ghost g0 = *g;
                g.out.push(line);
                proof {
                    crate::global::lemma_wf_support(&g0, g);
                    assert(g.out.deep_view() =~= old(g).out.deep_view().push(
                        vals_joined(smodel(args@), 0),
                    ));
                }
                Ok(VarType::Nzero)
            },
            NativeFunc::CpuWcop => {
                let mut line = join_vals(args, 0);
                line.append("\n");
                let ghost g0 = *g;
                g.out.push(line);
                proof {
                    crate::global::lemma_wf_support(&g0, g);
                    assert(g.out.deep_view() =~= old(g).out.deep_view().push(
                        vals_joined(smodel(args@), 0) + "\n"@,
                    ));
                }
                Ok(VarType::Nzero)
            },
            NativeFunc::UtAssert => {
                if args.len() == 0 {
                    return Err(CodeExecError::new_str("Assertion got no argument.".to_owned()));
                }
                if args[0].truthy() {
                    Ok(VarType::Nzero)
                } else {
                    let mut desc = "Assertion failed: ".to_owned();
                    let joined = join_vals(args, 0);
                    desc.append(joined.as_str());
                    Err(CodeExecError::new_str(desc))
                }
            },
        }
    }

    /// A freshly allocated native node value capturing the given scope.
    pub fn as_vartype(parent: &Context, func: NativeFunc, g: &mut Global) -> (r: VarType)
        requires
            old(g).wf(),
            (parent.id as int) < old(g).ctxs@.len(),
        ensures
            final(g).wf(),
            Global::exec_frame(old(g), final(g)),
            final(g).ctxs@ == old(g).ctxs@,
            final(g).heap@.len() == old(g).heap@.len() + 1,
            final(g).models() == old(g).models().push(
                crate::data::CompSpec::Node(
                    NodeModel::Native { parent: parent.id as int, func },
                ),
            ),
            final(g).out.deep_view() == old(g).out.deep_view(),
            r.model() == ValSpec::Ref(old(g).heap@.len() as int),
    {
        let h = g.heap.len();
        g.heap.push(
            crate::data::MemData::Node(Node::Native(NativeNode { parent: parent.id, func })),
        );
        proof {
            lemma_heap_push_node(old(g), g, h as int);
        }
        VarType::Ref(h)
    }
}

/// Appending a well-formed node to the heap preserves well-formedness and
/// appends its model.
pub proof fn lemma_heap_push_node(g0: &Global, g1: &Global, h: int)
    requires
        g0.wf(),
        h == g0.heap@.len(),
        g1.heap@.len() == g0.heap@.len() + 1,
        forall|x: int| 0 <= x < g0.heap@.len() ==> g1.heap@[x] == g0.heap@[x],
        g1.heap@[h] is Node,
        g1.heap@[h].wf(),
        match g1.heap@[h] {
            crate::data::MemData::Node(n) => 0 <= n.parent_of() < g1.ctxs@.len(),
            _ => true,
        },
        g1.ctxs@ == g0.ctxs@,
        g1.context_root == g0.context_root,
    ensures
        g1.wf(),
        g1.models() == g0.models().push(g1.heap@[h].model()),
{
    assert forall|i: int| 0 <= i < g1.ctxs@.len() implies #[trigger] g1.ctx_entry_wf(i) by {
        assert(g0.ctx_entry_wf(i));
    }
    assert forall|x: int| 0 <= x < g1.heap@.len() implies #[trigger] g1.heap_entry_wf(x) by {
        if x < g0.heap@.len() {
            assert(g0.heap_entry_wf(x));
            assert(g1.heap@[x] == g0.heap@[x]);
        }
    }
    assert(g1.models() =~= g0.models().push(g1.heap@[h].model()));
}

/// Relies on std's `Rc::clone`: a second handle to the same statement body.
#[verifier::external_body]
pub(crate) fn clone_stmt_rc(r: &Rc<Statement>) -> (res: Rc<Statement>)
    ensures
        res == *r,
{
    Rc::clone(r)
}

/// A copy of the formal parameter names with the same text.
pub fn clone_param_names(v: &Vec<String>) -> (r: Vec<String>)
    ensures
        r.deep_view() == v.deep_view(),
        r@.len() == v@.len(),
{
    let mut r: Vec<String> = Vec::new();
    let mut i: usize = 0;
    while i < v.len()
        invariant
            i <= v@.len(),
            r@.len() == i as int,
            forall|j: int| 0 <= j < i ==> r@[j]@ == v@[j]@,
        decreases v@.len() - i,
    {
        r.push(v[i].clone());
        i = i + 1;
    }
    proof {
        assert(r.deep_view() =~= v.deep_view());
    }
    r
}

} // verus!
