//! Modules: a program or file module made of statements, and the native
//! built-in modules (the console, and the assertion module used by test
//! harnesses); and the import statement's resolution protocol.

use vstd::prelude::*;
use crate::data::{CompSpec, MemData, Mess};
use crate::global::{lookup_sym, Context, CtxEntry, Global};
use crate::module_manager::{ModuleFactory, ModuleFactoryManager, NativeModuleKind};
use crate::node::{NativeFunc, NativeNode, NodeModel};
use crate::path::Path;
use crate::rng::Rng;
use crate::statement::{builtin_key, module_record, rm_post, CodeExecError, RmStatement, Statements};
use crate::variable::{vmodel, ValSpec, VarType};

verus! {

/// A loaded module.
#[derive(Debug)]
pub enum Module {
    Code(CodeModule),
    Native(NativeModule),
}

/// A module made of statements, run in its own scope.
#[derive(Debug)]
pub struct CodeModule {
    pub name: String,
    pub path: Path,
    pub ctx: Context,
    pub stmts: Statements,
}

/// A built-in module, constructed by a registered factory.
#[derive(Debug)]
pub struct NativeModule {
    pub name: String,
    pub path: Path,
    pub ctx: Context,
    pub kind: NativeModuleKind,
}

impl crate::module_manager::ModuleFactory {
    /// Constructs this factory's module, rooted for the importing chain.
    pub fn create(&self, parent: &Context, g: &mut Global) -> (r: Module)
        requires
            old(g).wf(),
            (parent.id as int) < old(g).ctxs@.len(),
            old(g).context_root is Some,
        ensures
            final(g).wf(),
            Global::exec_frame(old(g), final(g)),
            match r {
                Module::Native(m) => m.kind == self.kind && (m.ctx.id as int)
                    < final(g).ctxs@.len(),
                Module::Code(_) => false,
            },
    {
        Module::Native(NativeModule::new(&self.name, &self.name, parent, self.kind, g))
    }
}

/// The contract a host-provided module implements: given a scope, produce
/// the record of its bindings. The runtime's own built-ins are the closed
/// kinds the registry constructs; this trait is the documented opening for
/// a host that embeds the runtime with natives of its own.
pub trait IModule {
    fn exec(&self, ctx: &Context, g: &mut Global) -> (r: Result<Mess, CodeExecError>)
        requires
            old(g).wf(),
            (ctx.id as int) < old(g).ctxs@.len(),
        ensures
            final(g).wf(),
            Global::exec_frame(old(g), final(g)),
            r matches Ok(m) ==> m.wf(),
    ;
}

/// The console module: `op` writes its arguments, `wcop` writes them and a
/// newline.
#[derive(Debug)]
pub struct CpuModule {
    pub op: VarType,
    pub wcop: VarType,
}

impl CpuModule {
    /// Allocates the two console natives, captured over the given scope.
    pub fn new(parent: &Context, g: &mut Global) -> (r: CpuModule)
        requires
            old(g).wf(),
            (parent.id as int) < old(g).ctxs@.len(),
        ensures
            final(g).wf(),
            Global::exec_frame(old(g), final(g)),
            final(g).ctxs@ == old(g).ctxs@,
            final(g).out.deep_view() == old(g).out.deep_view(),
            r.op.model() == ValSpec::Ref(old(g).heap@.len() as int),
            r.wcop.model() == ValSpec::Ref(old(g).heap@.len() + 1int),
            final(g).models() == old(g).models().push(
                CompSpec::Node(NodeModel::Native { parent: parent.id as int, func: NativeFunc::CpuOp }),
            ).push(
                CompSpec::Node(
                    NodeModel::Native { parent: parent.id as int, func: NativeFunc::CpuWcop },
                ),
            ),
    {
        let op = NativeNode::as_vartype(parent, NativeFunc::CpuOp, g);
        proof {
            assert(g.models().len() == g.heap@.len());
            assert(g.heap@.len() == old(g).heap@.len() + 1);
        }
        let wcop = NativeNode::as_vartype(parent, NativeFunc::CpuWcop, g);
        CpuModule { op, wcop }
    }

    /// Registers the console module factory under its name.
    pub fn register(manager: &mut ModuleFactoryManager)
        ensures
            final(manager).lookup("cpu"@) == Some(NativeModuleKind::Cpu),
            forall|n: Seq<char>|
                n != "cpu"@ ==> final(manager).lookup(n) == old(manager).lookup(n),
    {
        manager.add_factory(
            ModuleFactory { name: "cpu".to_owned(), kind: NativeModuleKind::Cpu },
        );
    }
}

/// The assertion module used by test harnesses: `assert` fails the run on a
/// falsy argument.
#[derive(Debug)]
pub struct UtModule {
    pub assert_op: VarType,
}

impl UtModule {
    /// Allocates the assertion native, captured over the given scope.
    pub fn new(parent: &Context, g: &mut Global) -> (r: UtModule)
        requires
            old(g).wf(),
            (parent.id as int) < old(g).ctxs@.len(),
        ensures
            final(g).wf(),
            Global::exec_frame(old(g), final(g)),
            final(g).ctxs@ == old(g).ctxs@,
            final(g).out.deep_view() == old(g).out.deep_view(),
            r.assert_op.model() == ValSpec::Ref(old(g).heap@.len() as int),
            final(g).models() == old(g).models().push(
                CompSpec::Node(
                    NodeModel::Native { parent: parent.id as int, func: NativeFunc::UtAssert },
                ),
            ),
    {
        let assert_op = NativeNode::as_vartype(parent, NativeFunc::UtAssert, g);
        UtModule { assert_op }
    }

    /// Registers the assertion module factory under its name.
    pub fn register(manager: &mut ModuleFactoryManager)
        ensures
            final(manager).lookup("ut"@) == Some(NativeModuleKind::Ut),
            forall|n: Seq<char>|
                n != "ut"@ ==> final(manager).lookup(n) == old(manager).lookup(n),
    {
        manager.add_factory(ModuleFactory { name: "ut".to_owned(), kind: NativeModuleKind::Ut });
    }
}

impl Module {
    /// The canonical memoization key of a module name.
    pub fn builtin_path(name: &String) -> (r: String)
        ensures
            r@ == builtin_key(name@),
    {
        let mut r = "<module>/".to_owned();
        r.append(name.as_str());
        proof {
            assert(r@ =~= builtin_key(name@));
        }
        r
    }

    /// The file a module name resolves to: the name with the source
    /// extension appended.
    pub fn code_path(path_wo_ext: &String) -> (r: String)
        ensures
            r@ == path_wo_ext@ + ".lIIl"@,
    {
        let mut r = path_wo_ext.clone();
        r.append(".lIIl");
        r
    }

    pub fn name(&self) -> (r: &String)
        ensures
            match self {
                Module::Code(m) => r@ == m.name@,
                Module::Native(m) => r@ == m.name@,
            },
    {
        match self {
            Module::Code(module) => &module.name,
            Module::Native(module) => &module.name,
        }
    }

    /// Runs the module and yields the reference to its record of bindings.
    pub fn exec(&self, g: &mut Global, rng: &mut Rng, fuel: u64) -> (r: Result<
        VarType,
        CodeExecError,
    >)
        requires
            old(g).wf(),
            match self {
                Module::Code(m) => (m.ctx.id as int) < old(g).ctxs@.len(),
                Module::Native(m) => (m.ctx.id as int) < old(g).ctxs@.len(),
            },
        ensures
            final(g).wf(),
            Global::exec_frame(old(g), final(g)),
            match self {
                Module::Code(m) => code_module_post(
                    old(g),
                    final(g),
                    m.ctx.id as int,
                    m.stmts.stmts@,
                    r,
                    fuel,
                ),
                Module::Native(m) => native_record_post(
                    old(g),
                    final(g),
                    m.ctx.id as int,
                    m.kind,
                    r,
                ),
            },
    {
        match self {
            Module::Code(module) => module.exec(g, rng, fuel),
            Module::Native(module) => module.exec(g),
        }
    }
}

impl CodeModule {
    /// A fresh module scope under the given parent, with the root marker
    /// bound by the normal assignment rule.
    pub fn new(name: &String, path: &String, parent: &Context, is_root: bool, g: &mut Global) -> (r:
        CodeModule)
        requires
            old(g).wf(),
            (parent.id as int) < old(g).ctxs@.len(),
        ensures
            final(g).wf(),
            Global::exec_frame(old(g), final(g)),
            r.ctx.id as int == old(g).ctxs@.len(),
            final(g).ctxs@ == old(g).ctxs@.push(
                CtxEntry { parent: Some(parent.id), mess: old(g).heap.len() },
            ),
            r.name@ == name@,
            r.stmts.stmts@.len() == 0,
    {
        let ctx = Context::new(parent, g);
        let ghost g1 = *g;
        let module = CodeModule {
            name: name.clone(),
            path: Path::new(path.as_str()),
            ctx,
            stmts: Statements::new(),
        };
        module.ctx.set_symbol(g, &"isMian".to_owned(), VarType::Bool(is_root));
        proof {
            assert(g.ctxs@ == g1.ctxs@);
            assert forall|i: int|
                0 <= i < old(g).ctxs@.len() implies g.ctxs@[i] == old(g).ctxs@[i] by {
                assert(g1.ctxs@ == old(g).ctxs@.push(
                    CtxEntry { parent: Some(parent.id), mess: old(g).heap.len() },
                ));
            }
            assert(Global::exec_frame(old(g), g));
        }
        module
    }

    /// Runs the module's statements in its scope and yields the reference
    /// to the scope's record.
    pub fn exec(&self, g: &mut Global, rng: &mut Rng, fuel: u64) -> (r: Result<
        VarType,
        CodeExecError,
    >)
        requires
            old(g).wf(),
            (self.ctx.id as int) < old(g).ctxs@.len(),
        ensures
            final(g).wf(),
            Global::exec_frame(old(g), final(g)),
            r matches Ok(v) ==> v.model() == ValSpec::Ref(
                final(g).ctxs@[self.ctx.id as int].mess as int,
            ),
            code_module_post(old(g), final(g), self.ctx.id as int, self.stmts.stmts@, r, fuel),
    {
        let ghost g0 = *g;
        g.stack.push(self.ctx.id);
        proof {
            crate::global::lemma_wf_support(&g0, g);
        }
        let ghost gm = *g;
        let res = self.stmts.exec(g, rng, self.ctx, fuel);
        let ghost gend = *g;
        let _popped = g.stack.pop();
        proof {
            crate::global::lemma_wf_support(&gend, g);
            assert(g.stack.stack@ =~= g0.stack.stack@);
            assert(Global::exec_frame(&g0, g));
            crate::global::lemma_frame_trans(old(g), &g0, g);
            assert(g.ctx_entry_wf(self.ctx.id as int));
        }
        match res {
            Ok(o) => {
                let out = Ok(VarType::Ref(g.ctxs[self.ctx.id].mess));
                proof {
                    assert(crate::node::call_chain(
                        gm,
                        gend,
                        Ok::<Option<VarType>, CodeExecError>(o),
                    ));
                }
                out
            },
            Err(e) => {
                let ghost ee = e;
                let out = Err(e);
                proof {
                    assert(crate::node::call_chain(
                        gm,
                        gend,
                        Err::<Option<VarType>, CodeExecError>(ee),
                    ));
                }
                out
            },
        }
    }
}

/// What running a statement module does: its statements run as a chain from
/// the state with the module's scope pushed, and on success the result is
/// the reference to the module scope's record.
pub open spec fn code_module_post(
    g0: &Global,
    g1: &Global,
    mctx: int,
    ss: Seq<crate::statement::Statement>,
    r: Result<VarType, CodeExecError>,
    fuel: u64,
) -> bool {
    exists|gm: Global, gend: Global, rb: Result<Option<VarType>, CodeExecError>|
        {
            &&& #[trigger] crate::node::call_chain(gm, gend, rb)
            &&& gm.heap@ == g0.heap@
            &&& gm.ctxs@ == g0.ctxs@
            &&& gm.out.deep_view() == g0.out.deep_view()
            &&& gm.context_root == g0.context_root
            &&& gm.builtin_modules.factories@ == g0.builtin_modules.factories@
            &&& gm.stack.stack@ == g0.stack.stack@.push(mctx as usize)
            &&& crate::statement::stmts_post(gm, gend, mctx, ss, 0, rb, fuel)
            &&& g1.heap@ == gend.heap@
            &&& g1.ctxs@ == gend.ctxs@
            &&& g1.out.deep_view() == gend.out.deep_view()
            &&& match rb {
                Ok(_) => r matches Ok(v) && v.model() == ValSpec::Ref(
                    g1.ctxs@[mctx].mess as int,
                ),
                Err(e) => r matches Err(e2) && e2 == e,
            }
        }
}

impl NativeModule {
    /// A built-in module instance rooted at the program root, as built-ins
    /// are global to the run, never per importer.
    pub fn new(name: &String, path: &String, parent: &Context, kind: NativeModuleKind, g:
        &mut Global) -> (r: NativeModule)
        requires
            old(g).wf(),
            (parent.id as int) < old(g).ctxs@.len(),
            old(g).context_root is Some,
        ensures
            final(g).wf(),
            Global::exec_frame(old(g), final(g)),
            (r.ctx.id as int) < final(g).ctxs@.len(),
            r.kind == kind,
    {
        let root = parent.get_root(g);
        let ctx = Context::new(&root, g);
        proof {
            assert forall|i: int|
                0 <= i < old(g).ctxs@.len() implies g.ctxs@[i] == old(g).ctxs@[i] by {
                assert(g.ctxs@ == old(g).ctxs@.push(
                    CtxEntry { parent: Some(root.id), mess: old(g).heap.len() },
                ));
            }
            assert(Global::exec_frame(old(g), g));
        }
        NativeModule { name: name.clone(), path: Path::new(path.as_str()), ctx, kind }
    }

    /// Builds the module's record of natives and yields its reference.
    pub fn exec(&self, g: &mut Global) -> (r: Result<VarType, CodeExecError>)
        requires
            old(g).wf(),
            (self.ctx.id as int) < old(g).ctxs@.len(),
        ensures
            final(g).wf(),
            Global::exec_frame(old(g), final(g)),
            final(g).ctxs@ == old(g).ctxs@,
            final(g).out.deep_view() == old(g).out.deep_view(),
            final(g).heap@.len() > old(g).heap@.len(),
            r matches Ok(v) ==> v.model() == ValSpec::Ref(final(g).heap@.len() - 1),
            native_record_post(old(g), final(g), self.ctx.id as int, self.kind, r),
    {
        proof {
            assert(old(g).models().len() == old(g).heap@.len());
        }
        match self.kind {
            NativeModuleKind::Cpu => {
                let m = CpuModule::new(&self.ctx, g);
                let mut mess = Mess::new();
                mess.set(&"op".to_owned(), m.op);
                mess.set(&"wcop".to_owned(), m.wcop);
                let ghost mm = mess.model();
                let h = g.heap.len();
                let ghost g1 = *g;
                g.heap.push(MemData::Mess(mess));
                proof {
                    lemma_heap_push_mess(&g1, g, h as int);
                    assert(g.heap@[h as int].model() == CompSpec::Mess(mm));
                    assert(g.models().len() == g.heap@.len());
                }
                Ok(VarType::Ref(h))
            },
            NativeModuleKind::Ut => {
                let m = UtModule::new(&self.ctx, g);
                let mut mess = Mess::new();
                mess.set(&"assert".to_owned(), m.assert_op);
                let ghost mm = mess.model();
                let h = g.heap.len();
                let ghost g1 = *g;
                g.heap.push(MemData::Mess(mess));
                proof {
                    lemma_heap_push_mess(&g1, g, h as int);
                    assert(g.heap@[h as int].model() == CompSpec::Mess(mm));
                    assert(g.models().len() == g.heap@.len());
                }
                Ok(VarType::Ref(h))
            },
        }
    }
}

/// What running a built-in module leaves behind: its native nodes, captured
/// over the module's own scope, then the record binding their names, and
/// the reference to that record as the result.
pub open spec fn native_record_post(
    g0: &Global,
    g1: &Global,
    mctx: int,
    kind: NativeModuleKind,
    r: Result<VarType, CodeExecError>,
) -> bool {
    match kind {
        NativeModuleKind::Cpu => {
            &&& g1.models() == g0.models().push(
                CompSpec::Node(NodeModel::Native { parent: mctx, func: NativeFunc::CpuOp }),
            ).push(
                CompSpec::Node(NodeModel::Native { parent: mctx, func: NativeFunc::CpuWcop }),
            ).push(
                CompSpec::Mess(
                    Map::<Seq<char>, ValSpec>::empty().insert(
                        "op"@,
                        ValSpec::Ref(g0.models().len() as int),
                    ).insert("wcop"@, ValSpec::Ref(g0.models().len() + 1int)),
                ),
            )
            &&& r matches Ok(v) && v.model() == ValSpec::Ref(g0.models().len() + 2int)
        },
        NativeModuleKind::Ut => {
            &&& g1.models() == g0.models().push(
                CompSpec::Node(
                    NodeModel::Native { parent: mctx, func: NativeFunc::UtAssert },
                ),
            ).push(
                CompSpec::Mess(
                    Map::<Seq<char>, ValSpec>::empty().insert(
                        "assert"@,
                        ValSpec::Ref(g0.models().len() as int),
                    ),
                ),
            )
            &&& r matches Ok(v) && v.model() == ValSpec::Ref(g0.models().len() + 1int)
        },
    }
}

/// Appending a well-formed record to the heap preserves well-formedness and
/// appends its model.
proof fn lemma_heap_push_mess(g0: &Global, g1: &Global, h: int)
    requires
        g0.wf(),
        h == g0.heap@.len(),
        g1.heap@.len() == g0.heap@.len() + 1,
        forall|x: int| 0 <= x < g0.heap@.len() ==> g1.heap@[x] == g0.heap@[x],
        g1.heap@[h] is Mess,
        g1.heap@[h].wf(),
        g1.ctxs@ == g0.ctxs@,
        g1.context_root == g0.context_root,
    ensures
        g1.wf(),
        g1.models() == g0.models().push(g1.heap@[h].model()),
{
    assert forall|i: int| 0 <= i < g1.ctxs@.len() implies #[trigger] g1.ctx_entry_wf(i) by {
        assert(g0.ctx_entry_wf(i));
    }
    assert forall|x: int| 0 <= x < g1.heap@.len() implies #[trigger] g1.heap_entry_wf(x) by {
        if x < g0.heap@.len() {
            assert(g0.heap_entry_wf(x));
            assert(g1.heap@[x] == g0.heap@[x]);
        }
    }
    assert(g1.models() =~= g0.models().push(g1.heap@[h].model()));
}

impl RmStatement {
    /// An import of the given name, resolved relative to the importing
    /// module's own location.
    pub fn new(module: &CodeModule, path: &str) -> (r: RmStatement)
        ensures
            r.path@ == path@,
            r.parent_path.model() == module.path.model(),
    {
        RmStatement { path: path.to_owned(), parent_path: module.path.clone() }
    }

    /// Resolution: a memoized module is returned unchanged (import is
    /// idempotent); a registered built-in is constructed at the program
    /// root, bound under its name, and memoized under its canonical key; a
    /// module body the host supplied for the resolved file path runs in a
    /// fresh child of the root and is bound the same way; any other name is
    /// a missing module.
    pub fn exec(&self, g: &mut Global, rng: &mut Rng, ctx: Context, fuel: u64) -> (r: Result<
        Option<VarType>,
        CodeExecError,
    >)
        requires
            old(g).wf(),
            (ctx.id as int) < old(g).ctxs@.len(),
        ensures
            final(g).wf(),
            Global::exec_frame(old(g), final(g)),
            rm_post(old(g), final(g), ctx.id as int, self, r, fuel),
        decreases fuel, 1nat, 2int,
    {
        let module_key = Module::builtin_path(&self.path);
        proof {
            reveal_strlit("<module>/");
        }
        if ctx.has_symbol(g, &module_key) {
            return Ok(None);
        }
        let kind_found = match g.builtin_modules.get_factory(&self.path) {
            Some(f) => Some(f.kind),
            None => None,
        };
        match kind_found {
            Some(kind) => self.import_builtin(g, ctx, kind, module_key),
            None => self.import_file(g, rng, ctx, fuel, module_key),
        }
    }

    /// The built-in side of resolution: construct at the program root, bind
    /// the record's reference under the import name and the memo key.
    fn import_builtin(&self, g: &mut Global, ctx: Context, kind: NativeModuleKind, module_key:
        String) -> (r: Result<Option<VarType>, CodeExecError>)
        requires
            old(g).wf(),
            (ctx.id as int) < old(g).ctxs@.len(),
            module_key@ == builtin_key(self.path@),
            module_key@ != self.path@,
            lookup_sym(old(g), ctx.id as int, builtin_key(self.path@)) is None,
            old(g).builtin_modules.lookup(self.path@) == Some(kind),
        ensures
            final(g).wf(),
            Global::exec_frame(old(g), final(g)),
            r is Ok <==> old(g).context_root is Some,
            r matches Ok(o) ==> o is None,
            old(g).context_root is Some ==> lookup_sym(
                final(g),
                ctx.id as int,
                builtin_key(self.path@),
            ) is Some,
            old(g).context_root is Some ==> (lookup_sym(final(g), ctx.id as int, self.path@)
                matches Some(v) && v matches ValSpec::Ref(h) && lookup_sym(
                final(g),
                ctx.id as int,
                builtin_key(self.path@),
            ) == Some(ValSpec::Ref(h)) && module_record(final(g), h, kind)),
    {
        let root = match g.context_root {
            Some(rt) => Context { id: rt },
            None => {
                return Err(CodeExecError::new(&ctx, "No program root for a module.".to_owned()));
            },
        };
        let nm = NativeModule::new(&self.path, &self.path, &root, kind, g);
        let ghost g1s = *g;
        let module_ret = match nm.exec(g) {
            Ok(v) => v,
            Err(e) => {
                proof {
                    assert(false);
                }
                return Err(e);
            },
        };
        let ghost g2s = *g;
        let ghost hh = g2s.heap@.len() - 1;
        let dup = module_ret.duplicate();
        let ghost rv = vmodel(module_ret);
        proof {
            reveal_strlit("op");
            reveal_strlit("wcop");
            reveal_strlit("assert");
            assert(g1s.models().len() == g1s.heap@.len());
            assert(g2s.models().len() == g2s.heap@.len());
            match kind {
                NativeModuleKind::Cpu => {
                    assert(("op"@).len() == 2 && ("wcop"@).len() == 4);
                    assert(hh == g1s.models().len() + 2);
                    assert(g2s.models()[hh] == CompSpec::Mess(
                        Map::<Seq<char>, ValSpec>::empty().insert(
                            "op"@,
                            ValSpec::Ref(g1s.models().len() as int),
                        ).insert("wcop"@, ValSpec::Ref(g1s.models().len() + 1int)),
                    ));
                    assert(g2s.models()[g1s.models().len() as int] == CompSpec::Node(
                        NodeModel::Native { parent: nm.ctx.id as int, func: NativeFunc::CpuOp },
                    ));
                    assert(g2s.models()[g1s.models().len() + 1int] == CompSpec::Node(
                        NodeModel::Native {
                            parent: nm.ctx.id as int,
                            func: NativeFunc::CpuWcop,
                        },
                    ));
                },
                NativeModuleKind::Ut => {
                    assert(hh == g1s.models().len() + 1);
                    assert(g2s.models()[hh] == CompSpec::Mess(
                        Map::<Seq<char>, ValSpec>::empty().insert(
                            "assert"@,
                            ValSpec::Ref(g1s.models().len() as int),
                        ),
                    ));
                    assert(g2s.models()[g1s.models().len() as int] == CompSpec::Node(
                        NodeModel::Native {
                            parent: nm.ctx.id as int,
                            func: NativeFunc::UtAssert,
                        },
                    ));
                },
            }
            assert(module_record(&g2s, hh, kind));
        }
        ctx.set_symbol(g, &self.path, dup);
        let ghost g3s = *g;
        proof {
            crate::global::lemma_lookup_after_set(&g2s, g, ctx.id as int, self.path@, rv);
            let t1 = crate::global::bind_target(&g2s, ctx.id as int, self.path@);
            crate::global::lemma_bind_target_valid(&g2s, ctx.id as int, self.path@);
            assert(old(g).ctx_entry_wf(t1));
            assert(g2s.ctxs@[t1] == old(g).ctxs@[t1]);
            lemma_set_keeps_slots(
                &g2s,
                g,
                ctx.id as int,
                self.path@,
                rv,
                old(g).heap@.len() as int,
            );
            assert(module_record(g, hh, kind));
        }
        ctx.set_symbol(g, &module_key, module_ret);
        proof {
            crate::global::lemma_lookup_after_set(&g3s, g, ctx.id as int, module_key@, rv);
            let t2 = crate::global::bind_target(&g3s, ctx.id as int, module_key@);
            crate::global::lemma_bind_target_valid(&g3s, ctx.id as int, module_key@);
            assert(old(g).ctx_entry_wf(t2));
            assert(g3s.ctxs@[t2] == old(g).ctxs@[t2]);
            crate::global::lemma_lookup_other_after_update(
                &g3s,
                g,
                t2,
                module_key@,
                rv,
                ctx.id as int,
                self.path@,
            );
            lemma_set_keeps_slots(
                &g3s,
                g,
                ctx.id as int,
                module_key@,
                rv,
                old(g).heap@.len() as int,
            );
            assert(module_record(g, hh, kind));
        }
        Ok(None)
    }

    /// The file side of resolution: run the host-supplied body in a fresh
    /// child of the program root and bind the module scope's record.
    fn import_file(&self, g: &mut Global, rng: &mut Rng, ctx: Context, fuel: u64, module_key:
        String) -> (r: Result<Option<VarType>, CodeExecError>)
        requires
            old(g).wf(),
            (ctx.id as int) < old(g).ctxs@.len(),
            module_key@ == builtin_key(self.path@),
            module_key@ != self.path@,
            lookup_sym(old(g), ctx.id as int, builtin_key(self.path@)) is None,
            old(g).builtin_modules.lookup(self.path@) is None,
        ensures
            final(g).wf(),
            Global::exec_frame(old(g), final(g)),
            rm_post(old(g), final(g), ctx.id as int, self, r, fuel),
        decreases fuel, 1nat, 1int,
    {
        let resolved = self.parent_path.relative(&Path::new(Module::code_path(&self.path).as_str()));
        let key2 = resolved.to_string();
        proof {
            assert(key2@ == crate::statement::file_key(self));
        }
        let body_rc = match g.find_file_module(&key2) {
            Some(b) => b,
            None => {
                let mut desc = "module ".to_owned();
                desc.append(self.path.as_str());
                desc.append(" not found");
                return Err(CodeExecError { desc });
            },
        };
        if fuel == 0 {
            return Err(CodeExecError::new(&ctx, "Evaluation budget exhausted.".to_owned()));
        }
        let root = match g.context_root {
            Some(rt) => Context { id: rt },
            None => {
                return Err(CodeExecError::new(&ctx, "No program root for a module.".to_owned()));
            },
        };
        let mctx = Context::new(&root, g);
        proof {
            assert forall|i: int|
                0 <= i < old(g).ctxs@.len() implies g.ctxs@[i] == old(g).ctxs@[i] by {
                assert(g.ctxs@ == old(g).ctxs@.push(
                    CtxEntry { parent: Some(root.id), mess: old(g).heap.len() },
                ));
            }
            assert(Global::exec_frame(old(g), g));
            assert(g.models() == old(g).models().push(
                CompSpec::Mess(Map::<Seq<char>, ValSpec>::empty()),
            ));
            assert(g.ctxs@[mctx.id as int].mess as int == old(g).heap@.len());
            assert(old(g).models().len() == old(g).heap@.len());
            assert(g.models()[g.ctxs@[mctx.id as int].mess as int] == CompSpec::Mess(
                Map::<Seq<char>, ValSpec>::empty(),
            ));
            assert(g.heap@[g.ctxs@[mctx.id as int].mess as int].model() == CompSpec::Mess(
                Map::<Seq<char>, ValSpec>::empty(),
            ));
            match g.heap@[g.ctxs@[mctx.id as int].mess as int] {
                MemData::Mess(m) => {
                    assert(crate::global::ctx_map(g, mctx.id as int) == m.model());
                },
                _ => {
                    assert(false);
                },
            }
        }
        let ghost gpre = *g;
        mctx.bind_local(g, &"isMian".to_owned(), VarType::Bool(false));
        proof {
            crate::global::lemma_ctx_map_after_update(
                &gpre,
                g,
                mctx.id as int,
                "isMian"@,
                ValSpec::Bool(false),
            );
        }
        let ghost g1b = *g;
        g.stack.push(mctx.id);
        proof {
            crate::global::lemma_wf_support(&g1b, g);
            assert(crate::global::ctx_map(g, mctx.id as int) == crate::global::ctx_map(
                &g1b,
                mctx.id as int,
            ));
            assert(crate::statement::file_env_state(*old(g), *g));
        }
        let ghost gm = *g;
        let rb = body_rc.exec(g, rng, mctx, fuel - 1);
        let ghost rbg = rb;
        let ghost gend = *g;
        let _popped = g.stack.pop();
        proof {
            crate::global::lemma_wf_support(&gend, g);
            assert(g.stack.stack@ =~= g1b.stack.stack@);
            assert(Global::exec_frame(&g1b, g));
            crate::global::lemma_frame_trans(old(g), &g1b, g);
        }
        match rb {
            Ok(_) => {
                proof {
                    assert(g.ctx_entry_wf(mctx.id as int));
                    assert(g.ctxs@[mctx.id as int] == gm.ctxs@[mctx.id as int]);
                }
                let mh = g.ctxs[mctx.id].mess;
                let refv = VarType::Ref(mh);
                let ghost rv = vmodel(refv);
                let ghost g2f = *g;
                let dup = refv.duplicate();
                ctx.set_symbol(g, &self.path, dup);
                let ghost g3f = *g;
                proof {
                    crate::global::lemma_lookup_after_set(&g2f, g, ctx.id as int, self.path@, rv);
                    let t1 = crate::global::bind_target(&g2f, ctx.id as int, self.path@);
                    crate::global::lemma_bind_target_valid(&g2f, ctx.id as int, self.path@);
                    assert(old(g).ctx_entry_wf(t1));
                    assert(g2f.ctxs@[t1] == old(g).ctxs@[t1]);
                    lemma_set_keeps_slots(&g2f, g, ctx.id as int, self.path@, rv, mh as int + 1);
                }
                ctx.set_symbol(g, &module_key, refv);
                proof {
                    crate::global::lemma_lookup_after_set(&g3f, g, ctx.id as int, module_key@, rv);
                    let t2 = crate::global::bind_target(&g3f, ctx.id as int, module_key@);
                    crate::global::lemma_bind_target_valid(&g3f, ctx.id as int, module_key@);
                    assert(old(g).ctx_entry_wf(t2));
                    assert(g3f.ctxs@[t2] == old(g).ctxs@[t2]);
                    crate::global::lemma_lookup_other_after_update(
                        &g3f,
                        g,
                        t2,
                        module_key@,
                        rv,
                        ctx.id as int,
                        self.path@,
                    );
                    lemma_set_keeps_slots(&g3f, g, ctx.id as int, module_key@, rv, mh as int + 1);
                    assert(g.models()[mh as int] is Mess);
                    assert(crate::node::call_chain(gm, gend, rbg));
                }
                Ok(None)
            },
            Err(e) => {
                let ghost ee = e;
                let out = Err(e);
                proof {
                    assert(crate::node::call_chain(gm, gend, rbg));
                }
                out
            },
        }
    }
}

/// The implicit-declaration write from a caller's chain never touches heap
/// slots at or above the given bound when every scope of that chain keeps
/// its record below it: the slots' models are as they were.
proof fn lemma_set_keeps_slots(
    g0: &Global,
    g1: &Global,
    c: int,
    name: Seq<char>,
    w: ValSpec,
    bound: int,
)
    requires
        g0.wf(),
        0 <= c < g0.ctxs@.len(),
        g1.ctxs@ == g0.ctxs@,
        g1.heap@.len() == g0.heap@.len(),
        g1.models() == g0.models().update(
            g0.ctxs@[crate::global::bind_target(g0, c, name)].mess as int,
            CompSpec::Mess(
                crate::global::ctx_map(g0, crate::global::bind_target(g0, c, name)).insert(
                    name,
                    w,
                ),
            ),
        ),
        (g0.ctxs@[crate::global::bind_target(g0, c, name)].mess as int) < bound,
    ensures
        forall|x: int|
            bound <= x < g0.models().len() ==> g1.models()[x] == g0.models()[x],
{
}

} // verus!} // verus!
