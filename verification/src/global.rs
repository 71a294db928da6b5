//! The process-wide interpreter state: the heap of composites, the arena of
//! scopes, the registry of built-in modules, the host-supplied table of
//! parsed file modules, the scope stack and the console buffer; and the
//! scope chain operations.
//!
//! A scope (`Context`) is a handle into the arena. Each entry owns one
//! record on the heap for its local bindings and points at its parent, which
//! always has a smaller handle, so every chain walk terminates.

use vstd::prelude::*;
use std::rc::Rc;
use crate::data::{CompSpec, MemData, Mess};
use crate::module_manager::ModuleFactoryManager;
use crate::stack::ProgramStack;
use crate::statement::{CodeExecError, Statement};
use crate::variable::{vmodel, ValSpec, VarType};

verus! {

/// One scope: its parent (none for a root) and the heap handle of its local
/// record.
#[derive(Debug)]
pub struct CtxEntry {
    pub parent: Option<usize>,
    pub mess: usize,
}

/// A scope handle; all operations on the chain go through one.
#[derive(Clone, Copy, Debug)]
pub struct Context {
    pub id: usize,
}

/// The interpreter state.
#[derive(Debug)]
pub struct Global {
    pub heap: Vec<MemData>,
    pub ctxs: Vec<CtxEntry>,
    pub builtin_modules: ModuleFactoryManager,
    pub stack: ProgramStack,
    pub context_root: Option<usize>,
    pub out: Vec<String>,
    pub file_modules: Vec<(String, Rc<Statement>)>,
}

/// The parsed module body the host supplied under a resolved file path, if
/// any; the entry nearest the front wins.
pub open spec fn file_lookup(s: Seq<(String, Rc<Statement>)>, name: Seq<char>) -> Option<
    Rc<Statement>,
>
    decreases s.len(),
{
    if s.len() == 0 {
        None
    } else if s[0].0@ == name {
        Some(s[0].1)
    } else {
        file_lookup(s.drop_first(), name)
    }
}

impl Global {
    /// The models of the heap composites, by handle.
    pub open spec fn models(&self) -> Seq<CompSpec> {
        Seq::new(self.heap@.len(), |i: int| self.heap@[i].model())
    }

    /// Well-formedness of one scope entry: its record exists on the heap and
    /// its parent has a smaller handle.
    pub open spec fn ctx_entry_wf(&self, i: int) -> bool {
        &&& (self.ctxs@[i].mess as int) < self.heap@.len()
        &&& self.heap@[self.ctxs@[i].mess as int] is Mess
        &&& match self.ctxs@[i].parent {
            Some(p) => (p as int) < i,
            None => true,
        }
    }

    /// Well-formedness of one heap slot: records keep their keys unique and
    /// nodes capture an existing scope.
    pub open spec fn heap_entry_wf(&self, h: int) -> bool {
        &&& self.heap@[h].wf()
        &&& match self.heap@[h] {
            MemData::Node(n) => 0 <= n.parent_of() < self.ctxs@.len(),
            _ => true,
        }
    }

    /// Well-formedness of the whole state. Scopes own their records: no two
    /// scopes share a record handle.
    pub open spec fn wf(&self) -> bool {
        &&& forall|i: int| 0 <= i < self.ctxs@.len() ==> #[trigger] self.ctx_entry_wf(i)
        &&& forall|h: int| 0 <= h < self.heap@.len() ==> #[trigger] self.heap_entry_wf(h)
        &&& forall|i: int, j: int|
            0 <= i < j < self.ctxs@.len() ==> self.ctxs@[i].mess != self.ctxs@[j].mess
        &&& match self.context_root {
            Some(r) => (r as int) < self.ctxs@.len(),
            None => true,
        }
    }

    /// What every step of the executor preserves: existing scopes are never
    /// rewritten (the arenas only grow), and the program root, the registry
    /// and the scope stack are untouched.
    pub open spec fn exec_frame(g0: &Global, g1: &Global) -> bool {
        &&& g0.ctxs@.len() <= g1.ctxs@.len()
        &&& (forall|i: int| 0 <= i < g0.ctxs@.len() ==> g1.ctxs@[i] == g0.ctxs@[i])
        &&& g0.heap@.len() <= g1.heap@.len()
        &&& g1.context_root == g0.context_root
        &&& g1.builtin_modules.factories@ == g0.builtin_modules.factories@
        &&& g1.stack.stack@ == g0.stack.stack@
    }

    /// Everything except the heap and the scope arena is as it was.
    pub open spec fn same_support(&self, other: &Global) -> bool {
        &&& self.builtin_modules.factories@ == other.builtin_modules.factories@
        &&& self.stack.stack@ == other.stack.stack@
        &&& self.context_root == other.context_root
        &&& self.out.deep_view() == other.out.deep_view()
    }

    /// A fresh state: empty heap, no scopes, an empty console, and the
    /// built-in modules registered.
    pub fn new() -> (r: Global)
        ensures
            r.wf(),
            r.heap@.len() == 0,
            r.ctxs@.len() == 0,
            r.context_root is None,
            r.stack.stack@.len() == 0,
            r.out.deep_view() == Seq::<Seq<char>>::empty(),
            r.builtin_modules.lookup("cpu"@) == Some(crate::module_manager::NativeModuleKind::Cpu),
            forall|n: Seq<char>| file_lookup(r.file_modules@, n) is None,
    {
        let mut builtin_modules = ModuleFactoryManager::new();
        crate::module_manager::register_builtin_modules(&mut builtin_modules);
        let r = Global {
            heap: Vec::new(),
            ctxs: Vec::new(),
            builtin_modules,
            stack: ProgramStack::new(),
            context_root: None,
            out: Vec::new(),
            file_modules: Vec::new(),
        };
        proof {
            assert(r.out.deep_view() =~= Seq::<Seq<char>>::empty());
        }
        r
    }

    /// The parsed module body supplied for a resolved file path, if any.
    pub fn find_file_module(&self, name: &String) -> (r: Option<Rc<Statement>>)
        ensures
            r is Some <==> file_lookup(self.file_modules@, name@) is Some,
            r matches Some(b) ==> file_lookup(self.file_modules@, name@) == Some(b),
    {
        proof {
            assert(self.file_modules@.skip(0) =~= self.file_modules@);
        }
        let n = self.file_modules.len();
        let mut i: usize = 0;
        while i < n
            invariant
                i <= n,
                n == self.file_modules@.len(),
                file_lookup(self.file_modules@, name@) == file_lookup(
                    self.file_modules@.skip(i as int),
                    name@,
                ),
            decreases n - i,
        {
            proof {
                assert(self.file_modules@.skip(i as int).drop_first()
                    =~= self.file_modules@.skip(i + 1));
                assert(self.file_modules@.skip(i as int)[0] == self.file_modules@[i as int]);
            }
            if self.file_modules[i].0.eq(name) {
                return Some(crate::node::clone_stmt_rc(&self.file_modules[i].1));
            }
            i = i + 1;
        }
        proof {
            assert(self.file_modules@.skip(n as int).len() == 0);
        }
        None
    }

    /// Hands the runtime a parsed module body for a resolved file path; the
    /// host fills this table before the run, since reading and parsing
    /// files are its business, and the import statement consults it.
    pub fn add_file_module(&mut self, path: String, body: Rc<Statement>)
        ensures
            final(self).heap@ == old(self).heap@,
            final(self).ctxs@ == old(self).ctxs@,
            final(self).builtin_modules.factories@ == old(self).builtin_modules.factories@,
            final(self).stack.stack@ == old(self).stack.stack@,
            final(self).context_root == old(self).context_root,
            final(self).out.deep_view() == old(self).out.deep_view(),
            file_lookup(final(self).file_modules@, path@) == Some(body),
            forall|n: Seq<char>|
                n != path@ ==> file_lookup(final(self).file_modules@, n) == file_lookup(
                    old(self).file_modules@,
                    n,
                ),
    {
        let ghost s0 = self.file_modules@;
        self.file_modules.insert(0, (path, body));
        proof {
            assert(self.file_modules@.drop_first() =~= s0);
        }
    }
}

/// The local bindings of a scope.
pub open spec fn ctx_map(g: &Global, c: int) -> Map<Seq<char>, ValSpec> {
    if 0 <= c < g.ctxs@.len() && (g.ctxs@[c].mess as int) < g.heap@.len() {
        match g.heap@[g.ctxs@[c].mess as int] {
            MemData::Mess(m) => m.model(),
            _ => Map::empty(),
        }
    } else {
        Map::empty()
    }
}

/// Chain lookup: the local record first, then the parent chain; `None` at a
/// root that does not bind the name.
pub open spec fn lookup_sym(g: &Global, c: int, name: Seq<char>) -> Option<ValSpec>
    decreases c,
{
    if !(0 <= c < g.ctxs@.len()) {
        None
    } else if ctx_map(g, c).contains_key(name) {
        Some(ctx_map(g, c)[name])
    } else {
        match g.ctxs@[c].parent {
            Some(p) => if (p as int) < c {
                lookup_sym(g, p as int, name)
            } else {
                None
            },
            None => None,
        }
    }
}

/// Where an assignment lands: the innermost scope of the chain that already
/// binds the name, and the writing scope itself when none does (the
/// implicit-declaration rule).
pub open spec fn bind_target(g: &Global, c: int, name: Seq<char>) -> int
    decreases c,
{
    if !(0 <= c < g.ctxs@.len()) {
        c
    } else if ctx_map(g, c).contains_key(name) {
        c
    } else {
        match g.ctxs@[c].parent {
            Some(p) => if (p as int) < c && lookup_sym(g, p as int, name) is Some {
                bind_target(g, p as int, name)
            } else {
                c
            },
            None => c,
        }
    }
}

/// The target of an assignment is a scope of the arena.
pub proof fn lemma_bind_target_valid(g: &Global, c: int, name: Seq<char>)
    requires
        0 <= c < g.ctxs@.len(),
    ensures
        0 <= bind_target(g, c, name) <= c,
    decreases c,
{
    if !ctx_map(g, c).contains_key(name) {
        match g.ctxs@[c].parent {
            Some(p) => {
                if (p as int) < c && lookup_sym(g, p as int, name) is Some {
                    lemma_bind_target_valid(g, p as int, name);
                }
            },
            None => (),
        }
    }
}

impl Context {
    /// A fresh scope whose parent is the given one, with an empty record.
    pub fn new(parent: &Context, g: &mut Global) -> (c: Context)
        requires
            old(g).wf(),
            (parent.id as int) < old(g).ctxs@.len(),
        ensures
            final(g).wf(),
            c.id as int == old(g).ctxs@.len(),
            final(g).heap@.len() == old(g).heap@.len() + 1,
            forall|h: int| 0 <= h < old(g).heap@.len() ==> final(g).heap@[h] == old(g).heap@[h],
            final(g).ctxs@ == old(g).ctxs@.push(
                CtxEntry { parent: Some(parent.id), mess: old(g).heap.len() },
            ),
            final(g).models() == old(g).models().push(
                CompSpec::Mess(Map::<Seq<char>, ValSpec>::empty()),
            ),
            final(g).same_support(old(g)),
    {
        let mh = g.heap.len();
        g.heap.push(MemData::Mess(Mess::new()));
        let id = g.ctxs.len();
        g.ctxs.push(CtxEntry { parent: Some(parent.id), mess: mh });
        proof {
            lemma_ctx_grow(old(g), g, mh as int, id as int);
        }
        Context { id }
    }

    /// A fresh root scope: no parent, an empty record; it becomes the
    /// program root when none is set yet.
    pub fn root(g: &mut Global) -> (c: Context)
        requires
            old(g).wf(),
        ensures
            final(g).wf(),
            c.id as int == old(g).ctxs@.len(),
            final(g).heap@.len() == old(g).heap@.len() + 1,
            forall|h: int| 0 <= h < old(g).heap@.len() ==> final(g).heap@[h] == old(g).heap@[h],
            final(g).ctxs@ == old(g).ctxs@.push(
                CtxEntry { parent: None, mess: old(g).heap.len() },
            ),
            final(g).models() == old(g).models().push(
                CompSpec::Mess(Map::<Seq<char>, ValSpec>::empty()),
            ),
            final(g).context_root == if old(g).context_root is None {
                Some(c.id)
            } else {
                old(g).context_root
            },
            final(g).builtin_modules.factories@ == old(g).builtin_modules.factories@,
            final(g).stack.stack@ == old(g).stack.stack@,
            final(g).out.deep_view() == old(g).out.deep_view(),
    {
        let mh = g.heap.len();
        g.heap.push(MemData::Mess(Mess::new()));
        let id = g.ctxs.len();
        g.ctxs.push(CtxEntry { parent: None, mess: mh });
        if g.context_root.is_none() {
            g.context_root = Some(id);
        }
        proof {
            lemma_ctx_grow(old(g), g, mh as int, id as int);
        }
        Context { id }
    }

    /// The heap handle of this scope's local record.
    pub fn get_mess(&self, g: &Global) -> (r: usize)
        requires
            g.wf(),
            (self.id as int) < g.ctxs@.len(),
        ensures
            r == g.ctxs@[self.id as int].mess,
            (r as int) < g.heap@.len(),
            g.heap@[r as int] is Mess,
    {
        proof {
            assert(g.ctx_entry_wf(self.id as int));
        }
        g.ctxs[self.id].mess
    }

    /// The program root.
    pub fn get_root(&self, g: &Global) -> (r: Context)
        requires
            g.wf(),
            g.context_root is Some,
        ensures
            Some(r.id) == g.context_root,
            (r.id as int) < g.ctxs@.len(),
    {
        Context { id: g.context_root.unwrap() }
    }

    /// Chain lookup: the bound value, or nothing when no scope of the chain
    /// binds the name. A bound `Nzero` is found, not confused with absence.
    pub fn get_symbol(&self, g: &Global, name: &String) -> (r: Option<VarType>)
        requires
            g.wf(),
            (self.id as int) < g.ctxs@.len(),
        ensures
            r is Some <==> lookup_sym(g, self.id as int, name@) is Some,
            r matches Some(v) ==> Some(v.model()) == lookup_sym(g, self.id as int, name@),
        decreases self.id,
    {
        proof {
            assert(g.ctx_entry_wf(self.id as int));
        }
        let mh = g.ctxs[self.id].mess;
        if let MemData::Mess(m) = &g.heap[mh] {
            match m.get(name) {
                Some(v) => Some(v),
                None => {
                    match g.ctxs[self.id].parent {
                        Some(p) => {
                            let parent = Context { id: p };
                            parent.get_symbol(g, name)
                        },
                        None => None,
                    }
                },
            }
        } else {
            None
        }
    }

    /// Whether any scope of the chain binds the name.
    pub fn has_symbol(&self, g: &Global, name: &String) -> (r: bool)
        requires
            g.wf(),
            (self.id as int) < g.ctxs@.len(),
        ensures
            r == (lookup_sym(g, self.id as int, name@) is Some),
        decreases self.id,
    {
        proof {
            assert(g.ctx_entry_wf(self.id as int));
        }
        let mh = g.ctxs[self.id].mess;
        if let MemData::Mess(m) = &g.heap[mh] {
            if m.has(name) {
                true
            } else {
                match g.ctxs[self.id].parent {
                    Some(p) => {
                        let parent = Context { id: p };
                        parent.has_symbol(g, name)
                    },
                    None => false,
                }
            }
        } else {
            false
        }
    }

    /// Where an assignment from this scope lands.
    fn find_bind_target(&self, g: &Global, name: &String) -> (t: usize)
        requires
            g.wf(),
            (self.id as int) < g.ctxs@.len(),
        ensures
            t as int == bind_target(g, self.id as int, name@),
            (t as int) < g.ctxs@.len(),
        decreases self.id,
    {
        proof {
            assert(g.ctx_entry_wf(self.id as int));
        }
        let mh = g.ctxs[self.id].mess;
        if let MemData::Mess(m) = &g.heap[mh] {
            if m.has(name) {
                self.id
            } else {
                match g.ctxs[self.id].parent {
                    Some(p) => {
                        let parent = Context { id: p };
                        if parent.has_symbol(g, name) {
                            parent.find_bind_target(g, name)
                        } else {
                            self.id
                        }
                    },
                    None => self.id,
                }
            }
        } else {
            self.id
        }
    }

    /// Chain lookup that raises a typed error instead of `None`.
    pub fn get_symbol_or_err(&self, g: &Global, name: &String) -> (r: Result<
        VarType,
        CodeExecError,
    >)
        requires
            g.wf(),
            (self.id as int) < g.ctxs@.len(),
        ensures
            r is Ok <==> lookup_sym(g, self.id as int, name@) is Some,
            r matches Ok(v) ==> Some(v.model()) == lookup_sym(g, self.id as int, name@),
            r matches Err(e) ==> e.desc@ == "Symbol "@ + name@ + " not found."@,
    {
        match self.get_symbol(g, name) {
            Some(v) => Ok(v),
            None => {
                let mut desc = "Symbol ".to_owned();
                desc.append(name.as_str());
                desc.append(" not found.");
                proof {
                    assert(desc@ =~= "Symbol "@ + name@ + " not found."@);
                }
                Err(CodeExecError { desc })
            },
        }
    }

    /// Binds a name in this scope's own record, never in an ancestor: how a
    /// call binds its formal parameters into the fresh call scope.
    pub fn bind_local(&self, g: &mut Global, name: &String, value: VarType)
        requires
            old(g).wf(),
            (self.id as int) < old(g).ctxs@.len(),
        ensures
            final(g).wf(),
            final(g).ctxs@ == old(g).ctxs@,
            final(g).heap@.len() == old(g).heap@.len(),
            forall|h: int|
                0 <= h < old(g).heap@.len() && h != old(g).ctxs@[self.id as int].mess as int
                    ==> final(g).heap@[h] == old(g).heap@[h],
            final(g).same_support(old(g)),
            final(g).models() == old(g).models().update(
                old(g).ctxs@[self.id as int].mess as int,
                CompSpec::Mess(
                    ctx_map(old(g), self.id as int).insert(name@, vmodel(value)),
                ),
            ),
    {
        proof {
            assert(g.ctx_entry_wf(self.id as int));
            assert(g.heap_entry_wf(g.ctxs@[self.id as int].mess as int));
        }
        let mh = g.ctxs[self.id].mess;
        let ghost g0 = *g;
        let md = &mut g.heap[mh];
        if let MemData::Mess(m) = md {
            m.set(name, value);
        }
        proof {
            lemma_heap_set_mess(&g0, g, mh as int, self.id as int, name@, vmodel(value));
        }
    }

    /// The implicit-declaration rule: overwrite the innermost binding of the
    /// name anywhere in the chain, and create the binding here when the name
    /// is unbound.
    pub fn set_symbol(&self, g: &mut Global, name: &String, value: VarType)
        requires
            old(g).wf(),
            (self.id as int) < old(g).ctxs@.len(),
        ensures
            final(g).wf(),
            final(g).ctxs@ == old(g).ctxs@,
            final(g).heap@.len() == old(g).heap@.len(),
            final(g).same_support(old(g)),
            final(g).models() == old(g).models().update(
                old(g).ctxs@[bind_target(old(g), self.id as int, name@)].mess as int,
                CompSpec::Mess(
                    ctx_map(old(g), bind_target(old(g), self.id as int, name@)).insert(
                        name@,
                        vmodel(value),
                    ),
                ),
            ),
    {
        proof {
            lemma_bind_target_valid(g, self.id as int, name@);
        }
        let t = self.find_bind_target(g, name);
        proof {
            assert(g.ctx_entry_wf(t as int));
        }
        let mh = g.ctxs[t].mess;
        let ghost g0 = *g;
        proof {
            assert(g.heap_entry_wf(mh as int));
        }
        let md = &mut g.heap[mh];
        if let MemData::Mess(m) = md {
            m.set(name, value);
        }
        proof {
            lemma_heap_set_mess(&g0, g, mh as int, t as int, name@, vmodel(value));
        }
    }
}

/// Growing the state by one empty scope and its record preserves
/// well-formedness and only appends to the models.
proof fn lemma_ctx_grow(g0: &Global, g1: &Global, mh: int, id: int)
    requires
        g0.wf(),
        mh == g0.heap@.len(),
        id == g0.ctxs@.len(),
        g1.heap@.len() == g0.heap@.len() + 1,
        forall|h: int| 0 <= h < g0.heap@.len() ==> g1.heap@[h] == g0.heap@[h],
        g1.heap@[mh] is Mess,
        g1.heap@[mh].wf(),
        g1.heap@[mh].model() == CompSpec::Mess(Map::<Seq<char>, ValSpec>::empty()),
        g1.ctxs@.len() == g0.ctxs@.len() + 1,
        forall|i: int| 0 <= i < g0.ctxs@.len() ==> g1.ctxs@[i] == g0.ctxs@[i],
        g1.ctxs@[id].mess == mh,
        match g1.ctxs@[id].parent {
            Some(p) => (p as int) < id,
            None => true,
        },
        match g1.context_root {
            Some(r) => (r as int) < g1.ctxs@.len(),
            None => true,
        },
    ensures
        g1.wf(),
        g1.models() == g0.models().push(CompSpec::Mess(Map::<Seq<char>, ValSpec>::empty())),
{
    assert forall|i: int| 0 <= i < g1.ctxs@.len() implies #[trigger] g1.ctx_entry_wf(i) by {
        if i < g0.ctxs@.len() {
            assert(g0.ctx_entry_wf(i));
        }
    }
    assert forall|h: int| 0 <= h < g1.heap@.len() implies #[trigger] g1.heap_entry_wf(h) by {
        if h < g0.heap@.len() {
            assert(g0.heap_entry_wf(h));
            assert(g1.heap@[h] == g0.heap@[h]);
        }
    }
    assert forall|i: int, j: int|
        0 <= i < j < g1.ctxs@.len() implies g1.ctxs@[i].mess != g1.ctxs@[j].mess by {
        if j == id {
            assert(g0.ctx_entry_wf(i));
        }
    }
    assert(g1.models() =~= g0.models().push(
        CompSpec::Mess(Map::<Seq<char>, ValSpec>::empty()),
    ));
}

/// Writing one binding into the record of a scope updates that one model
/// and preserves well-formedness.
proof fn lemma_heap_set_mess(
    g0: &Global,
    g1: &Global,
    mh: int,
    t: int,
    name: Seq<char>,
    v: ValSpec,
)
    requires
        g0.wf(),
        0 <= t < g0.ctxs@.len(),
        mh == g0.ctxs@[t].mess as int,
        g1.ctxs@ == g0.ctxs@,
        g1.context_root == g0.context_root,
        g1.heap@.len() == g0.heap@.len(),
        forall|h: int| 0 <= h < g0.heap@.len() && h != mh ==> g1.heap@[h] == g0.heap@[h],
        g1.heap@[mh] is Mess,
        g1.heap@[mh].wf(),
        g1.heap@[mh].model() == CompSpec::Mess(ctx_map(g0, t).insert(name, v)),
    ensures
        g1.wf(),
        g1.models() == g0.models().update(mh, CompSpec::Mess(ctx_map(g0, t).insert(name, v))),
{
    assert(g0.ctx_entry_wf(t));
    assert forall|i: int| 0 <= i < g1.ctxs@.len() implies #[trigger] g1.ctx_entry_wf(i) by {
        assert(g0.ctx_entry_wf(i));
    }
    assert forall|h: int| 0 <= h < g1.heap@.len() implies #[trigger] g1.heap_entry_wf(h) by {
        assert(g0.heap_entry_wf(h));
        if h != mh {
            assert(g1.heap@[h] == g0.heap@[h]);
        }
    }
    assert(g1.models() =~= g0.models().update(mh, CompSpec::Mess(ctx_map(g0, t).insert(name, v))));
}

/// The executor's frame is transitive across steps.
pub proof fn lemma_frame_trans(a: &Global, b: &Global, c: &Global)
    requires
        Global::exec_frame(a, b),
        Global::exec_frame(b, c),
    ensures
        Global::exec_frame(a, c),
{
    assert forall|i: int| 0 <= i < a.ctxs@.len() implies c.ctxs@[i] == a.ctxs@[i] by {
        assert(b.ctxs@[i] == a.ctxs@[i]);
        assert(c.ctxs@[i] == b.ctxs@[i]);
    }
}

/// Well-formedness does not depend on the scope stack or the console.
pub proof fn lemma_wf_support(g0: &Global, g1: &Global)
    requires
        g0.wf(),
        g1.heap@ == g0.heap@,
        g1.ctxs@ == g0.ctxs@,
        g1.context_root == g0.context_root,
    ensures
        g1.wf(),
{
    assert forall|i: int| 0 <= i < g1.ctxs@.len() implies #[trigger] g1.ctx_entry_wf(i) by {
        assert(g0.ctx_entry_wf(i));
    }
    assert forall|h: int| 0 <= h < g1.heap@.len() implies #[trigger] g1.heap_entry_wf(h) by {
        assert(g0.heap_entry_wf(h));
    }
}

/// After a write into the record of one scope, that scope's bindings carry
/// the insertion and every other scope's bindings are as they were.
pub proof fn lemma_ctx_map_after_update(
    g0: &Global,
    g1: &Global,
    t: int,
    name: Seq<char>,
    w: ValSpec,
)
    requires
        g0.wf(),
        g1.wf(),
        0 <= t < g0.ctxs@.len(),
        g1.ctxs@ == g0.ctxs@,
        g1.heap@.len() == g0.heap@.len(),
        g1.models() == g0.models().update(
            g0.ctxs@[t].mess as int,
            CompSpec::Mess(ctx_map(g0, t).insert(name, w)),
        ),
    ensures
        ctx_map(g1, t) == ctx_map(g0, t).insert(name, w),
        forall|x: int|
            0 <= x < g0.ctxs@.len() && x != t ==> #[trigger] ctx_map(g1, x) == ctx_map(g0, x),
{
    assert(g0.ctx_entry_wf(t));
    let mh = g0.ctxs@[t].mess as int;
    assert(g1.models()[mh] == CompSpec::Mess(ctx_map(g0, t).insert(name, w)));
    assert(g1.heap@[mh].model() == CompSpec::Mess(ctx_map(g0, t).insert(name, w)));
    match g1.heap@[mh] {
        MemData::Mess(m) => {
            assert(ctx_map(g1, t) == m.model());
        },
        MemData::Array(_) => {
            assert(false);
        },
        MemData::Node(_) => {
            assert(false);
        },
    }
    assert forall|x: int|
        0 <= x < g0.ctxs@.len() && x != t implies #[trigger] ctx_map(g1, x) == ctx_map(
        g0,
        x,
    ) by {
        assert(g0.ctx_entry_wf(x));
        let hx = g0.ctxs@[x].mess as int;
        if x < t {
            assert(g0.ctxs@[x].mess != g0.ctxs@[t].mess);
        } else {
            assert(g0.ctxs@[t].mess != g0.ctxs@[x].mess);
        }
        assert(g1.models()[hx] == g0.models()[hx]);
        assert(g1.heap@[hx].model() == g0.heap@[hx].model());
        match g1.heap@[hx] {
            MemData::Mess(m1) => {
                match g0.heap@[hx] {
                    MemData::Mess(m0) => {
                        assert(m1.model() == m0.model());
                    },
                    _ => {
                        assert(false);
                    },
                }
            },
            _ => {
                match g0.heap@[hx] {
                    MemData::Mess(_) => {
                        assert(false);
                    },
                    _ => (),
                }
            },
        }
    }
}

/// After the implicit-declaration write of a name from a scope, looking the
/// name up from that scope finds the written value.
pub proof fn lemma_lookup_after_set(
    g0: &Global,
    g1: &Global,
    c: int,
    name: Seq<char>,
    w: ValSpec,
)
    requires
        g0.wf(),
        g1.wf(),
        0 <= c < g0.ctxs@.len(),
        g1.ctxs@ == g0.ctxs@,
        g1.heap@.len() == g0.heap@.len(),
        g1.models() == g0.models().update(
            g0.ctxs@[bind_target(g0, c, name)].mess as int,
            CompSpec::Mess(ctx_map(g0, bind_target(g0, c, name)).insert(name, w)),
        ),
    ensures
        lookup_sym(g1, c, name) == Some(w),
    decreases c,
{
    let t = bind_target(g0, c, name);
    lemma_bind_target_valid(g0, c, name);
    lemma_ctx_map_after_update(g0, g1, t, name, w);
    if ctx_map(g0, c).contains_key(name) {
        assert(t == c);
    } else {
        match g0.ctxs@[c].parent {
            Some(p) => {
                if (p as int) < c && lookup_sym(g0, p as int, name) is Some {
                    assert(bind_target(g0, p as int, name) == t);
                    lemma_bind_target_valid(g0, p as int, name);
                    lemma_lookup_after_set(g0, g1, p as int, name, w);
                    assert(t <= p as int);
                    assert(!ctx_map(g1, c).contains_key(name));
                } else {
                    assert(t == c);
                }
            },
            None => {
                assert(t == c);
            },
        }
    }
}

/// A write of one name into one scope's record leaves the lookup of every
/// other name, from every scope, as it was.
pub proof fn lemma_lookup_other_after_update(
    g0: &Global,
    g1: &Global,
    t: int,
    name: Seq<char>,
    w: ValSpec,
    c2: int,
    other: Seq<char>,
)
    requires
        g0.wf(),
        g1.wf(),
        0 <= t < g0.ctxs@.len(),
        g1.ctxs@ == g0.ctxs@,
        g1.heap@.len() == g0.heap@.len(),
        g1.models() == g0.models().update(
            g0.ctxs@[t].mess as int,
            CompSpec::Mess(ctx_map(g0, t).insert(name, w)),
        ),
        other != name,
    ensures
        lookup_sym(g1, c2, other) == lookup_sym(g0, c2, other),
    decreases (if c2 >= 0 { c2 + 1 } else { 0 }),
{
    lemma_ctx_map_after_update(g0, g1, t, name, w);
    if 0 <= c2 < g0.ctxs@.len() {
        if c2 == t {
            assert(ctx_map(g1, c2).contains_key(other) == ctx_map(g0, c2).contains_key(other));
        }
        match g0.ctxs@[c2].parent {
            Some(p) => {
                if (p as int) < c2 {
                    lemma_lookup_other_after_update(g0, g1, t, name, w, p as int, other);
                }
            },
            None => (),
        }
    }
}

/// Whether scope `x` lies on the parent chain of scope `c` (including `c`
/// itself).
pub open spec fn in_chain(g: &Global, c: int, x: int) -> bool
    decreases c,
{
    if !(0 <= c < g.ctxs@.len()) {
        false
    } else if x == c {
        true
    } else {
        match g.ctxs@[c].parent {
            Some(p) => if (p as int) < c {
                in_chain(g, p as int, x)
            } else {
                false
            },
            None => false,
        }
    }
}

/// A name unbound in a chain is unbound in every scope of that chain.
pub proof fn lemma_lookup_none_chain(g: &Global, c: int, name: Seq<char>)
    requires
        lookup_sym(g, c, name) is None,
    ensures
        forall|x: int| in_chain(g, c, x) ==> #[trigger] lookup_sym(g, x, name) is None,
    decreases (if c >= 0 { c + 1 } else { 0 }),
{
    if 0 <= c < g.ctxs@.len() {
        match g.ctxs@[c].parent {
            Some(p) => {
                if (p as int) < c {
                    lemma_lookup_none_chain(g, p as int, name);
                }
            },
            None => (),
        }
        assert forall|x: int|
            in_chain(g, c, x) implies #[trigger] lookup_sym(g, x, name) is None by {
            if x == c {
                assert(lookup_sym(g, x, name) is None);
            }
        }
    }
}

/// A lookup from a scope whose chain avoids the updated scope is untouched
/// by the update.
pub proof fn lemma_lookup_avoids(g0: &Global, g1: &Global, x: int, t: int, name: Seq<char>)
    requires
        g0.wf(),
        g1.wf(),
        0 <= t < g0.ctxs@.len(),
        g1.ctxs@ == g0.ctxs@,
        g1.heap@.len() == g0.heap@.len(),
        forall|y: int|
            0 <= y < g0.ctxs@.len() && y != t ==> #[trigger] ctx_map(g1, y) == ctx_map(g0, y),
        !in_chain(g0, x, t),
    ensures
        lookup_sym(g1, x, name) == lookup_sym(g0, x, name),
    decreases (if x >= 0 { x + 1 } else { 0 }),
{
    if 0 <= x < g0.ctxs@.len() {
        assert(x != t);
        match g0.ctxs@[x].parent {
            Some(p) => {
                if (p as int) < x {
                    lemma_lookup_avoids(g0, g1, p as int, t, name);
                }
            },
            None => (),
        }
    }
}

/// The scoping rule, creating side: assigning an unbound name from a scope
/// binds it in that innermost scope, where the writer sees it, while every
/// other scope of the chain — the outer scopes in particular — still does
/// not see it.
pub proof fn lemma_scoping_creates_innermost(
    g0: &Global,
    g1: &Global,
    c: int,
    name: Seq<char>,
    w: ValSpec,
)
    requires
        g0.wf(),
        g1.wf(),
        0 <= c < g0.ctxs@.len(),
        lookup_sym(g0, c, name) is None,
        g1.ctxs@ == g0.ctxs@,
        g1.heap@.len() == g0.heap@.len(),
        g1.models() == g0.models().update(
            g0.ctxs@[bind_target(g0, c, name)].mess as int,
            CompSpec::Mess(ctx_map(g0, bind_target(g0, c, name)).insert(name, w)),
        ),
    ensures
        bind_target(g0, c, name) == c,
        lookup_sym(g1, c, name) == Some(w),
        forall|x: int|
            in_chain(g0, c, x) && x != c ==> #[trigger] lookup_sym(g1, x, name) is None,
{
    lemma_lookup_after_set(g0, g1, c, name, w);
    lemma_lookup_none_chain(g0, c, name);
    lemma_ctx_map_after_update(g0, g1, c, name, w);
    assert forall|x: int|
        in_chain(g0, c, x) && x != c implies #[trigger] lookup_sym(g1, x, name) is None by {
        lemma_chain_below(g0, c, x);
        lemma_chain_avoids_self(g0, x, c);
        lemma_lookup_avoids(g0, g1, x, c, name);
    }
}

/// Every scope on a chain has a handle no larger than the chain's head.
pub proof fn lemma_chain_below(g: &Global, c: int, x: int)
    requires
        in_chain(g, c, x),
    ensures
        0 <= x <= c,
        x < g.ctxs@.len(),
    decreases (if c >= 0 { c + 1 } else { 0 }),
{
    if 0 <= c < g.ctxs@.len() && x != c {
        match g.ctxs@[c].parent {
            Some(p) => {
                if (p as int) < c {
                    lemma_chain_below(g, p as int, x);
                }
            },
            None => (),
        }
    }
}

/// A chain never revisits a larger handle: the chain of `x` avoids any
/// scope above `x`.
pub proof fn lemma_chain_avoids_self(g: &Global, x: int, t: int)
    requires
        x < t,
    ensures
        !in_chain(g, x, t),
    decreases (if x >= 0 { x + 1 } else { 0 }),
{
    if 0 <= x && x < g.ctxs@.len() {
        match g.ctxs@[x].parent {
            Some(p) => {
                if (p as int) < x {
                    lemma_chain_avoids_self(g, p as int, t);
                }
            },
            None => (),
        }
    }
}

/// The scoping rule, mutating side: assigning a name whose innermost holder
/// is an ancestor scope mutates that ancestor's binding, and any sibling
/// scope whose chain reaches the ancestor without a closer binding of the
/// name reads the new value.
pub proof fn lemma_scoping_mutates_ancestor(
    g0: &Global,
    g1: &Global,
    c: int,
    sib: int,
    name: Seq<char>,
    w: ValSpec,
)
    requires
        g0.wf(),
        g1.wf(),
        0 <= c < g0.ctxs@.len(),
        0 <= sib < g0.ctxs@.len(),
        in_chain(g0, sib, bind_target(g0, c, name)),
        forall|x: int|
            in_chain(g0, sib, x) && x != bind_target(g0, c, name)
                ==> !(#[trigger] ctx_map(g0, x)).contains_key(name),
        g1.ctxs@ == g0.ctxs@,
        g1.heap@.len() == g0.heap@.len(),
        g1.models() == g0.models().update(
            g0.ctxs@[bind_target(g0, c, name)].mess as int,
            CompSpec::Mess(ctx_map(g0, bind_target(g0, c, name)).insert(name, w)),
        ),
    ensures
        lookup_sym(g1, sib, name) == Some(w),
    decreases (if sib >= 0 { sib + 1 } else { 0 }),
{
    let t = bind_target(g0, c, name);
    lemma_bind_target_valid(g0, c, name);
    lemma_ctx_map_after_update(g0, g1, t, name, w);
    if sib == t {
        assert(lookup_sym(g1, sib, name) == Some(w));
    } else {
        assert(!ctx_map(g0, sib).contains_key(name));
        assert(ctx_map(g1, sib) == ctx_map(g0, sib));
        match g0.ctxs@[sib].parent {
            Some(p) => {
                assert((p as int) < sib && in_chain(g0, p as int, t));
                lemma_scoping_mutates_ancestor(g0, g1, c, p as int, name, w);
            },
            None => {
                assert(false);
            },
        }
    }
}

} // verus!
