//! The registry of built-in module factories: a name-keyed table that the
//! import statement consults before falling back to module files.

use vstd::prelude::*;

verus! {

/// The closed set of built-in modules this runtime can construct.
#[derive(Clone, Copy, Debug)]
pub enum NativeModuleKind {
    /// The console module: `op` prints, `wcop` prints a line.
    Cpu,
    /// The testing module: `assert` fails the run on a falsy argument.
    Ut,
}

/// A named constructor for a built-in module.
#[derive(Debug)]
pub struct ModuleFactory {
    pub name: String,
    pub kind: NativeModuleKind,
}

/// The registry itself; the entry nearest the front wins.
#[derive(Debug)]
pub struct ModuleFactoryManager {
    pub factories: Vec<ModuleFactory>,
}

/// The kind registered under a name, front entry first.
pub open spec fn manager_lookup(s: Seq<ModuleFactory>, name: Seq<char>) -> Option<
    NativeModuleKind,
>
    decreases s.len(),
{
    if s.len() == 0 {
        None
    } else if s[0].name@ == name {
        Some(s[0].kind)
    } else {
        manager_lookup(s.drop_first(), name)
    }
}

impl ModuleFactoryManager {
    pub open spec fn lookup(&self, name: Seq<char>) -> Option<NativeModuleKind> {
        manager_lookup(self.factories@, name)
    }

    pub fn new() -> (r: ModuleFactoryManager)
        ensures
            forall|n: Seq<char>| r.lookup(n) is None,
    {
        ModuleFactoryManager { factories: Vec::new() }
    }

    /// Registers a factory; it takes priority over any earlier factory of
    /// the same name and leaves every other name as it was.
    pub fn add_factory(&mut self, factory: ModuleFactory)
        ensures
            final(self).lookup(factory.name@) == Some(factory.kind),
            forall|n: Seq<char>|
                n != factory.name@ ==> final(self).lookup(n) == old(self).lookup(n),
    {
        let ghost s0 = self.factories@;
        self.factories.insert(0, factory);
        proof {
            assert(self.factories@.drop_first() =~= s0);
        }
    }

    /// The factory registered under a name, if any.
    pub fn get_factory(&self, name: &String) -> (r: Option<&ModuleFactory>)
        ensures
            r is Some <==> self.lookup(name@) is Some,
            r matches Some(f) ==> Some(f.kind) == self.lookup(name@) && f.name@ == name@,
    {
        proof {
            assert(self.factories@.skip(0) =~= self.factories@);
        }
        let n = self.factories.len();
        let mut i: usize = 0;
        while i < n
            invariant
                i <= n,
                n == self.factories@.len(),
                manager_lookup(self.factories@, name@) == manager_lookup(
                    self.factories@.skip(i as int),
                    name@,
                ),
            decreases n - i,
        {
            proof {
                assert(self.factories@.skip(i as int).drop_first() =~= self.factories@.skip(
                    i + 1,
                ));
                assert(self.factories@.skip(i as int)[0] == self.factories@[i as int]);
            }
            if self.factories[i].name.eq(name) {
                return Some(&self.factories[i]);
            }
            i = i + 1;
        }
        proof {
            assert(self.factories@.skip(n as int).len() == 0);
        }
        None
    }

    pub fn has_factory(&self, name: &String) -> (r: bool)
        ensures
            r == (self.lookup(name@) is Some),
    {
        self.get_factory(name).is_some()
    }
}

/// Registers the built-in modules of this runtime: the console module under
/// the name `cpu`.
pub fn register_builtin_modules(manager: &mut ModuleFactoryManager)
    ensures
        final(manager).lookup("cpu"@) == Some(NativeModuleKind::Cpu),
        forall|n: Seq<char>|
            n != "cpu"@ ==> final(manager).lookup(n) == old(manager).lookup(n),
{
    manager.add_factory(ModuleFactory { name: "cpu".to_owned(), kind: NativeModuleKind::Cpu });
}

} // verus!
