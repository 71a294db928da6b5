//! Heap-resident composite shapes: the record (`Mess`) and the array, and
//! later in the crate the callable node; `MemData` is their tagged union.
//!
//! A record is a string-keyed mapping with unique keys, modeled as a
//! `Map<Seq<char>, ValSpec>`. An array is an ordered sequence addressed by
//! string-encoded decimal indices, so that records and arrays share one
//! get/set-by-key contract.

use vstd::prelude::*;
use crate::variable::{
    parse_index_spec, parse_index_exec, lemma_smodel, vmodel, Array, ValSpec, VarType,
};
use crate::statement::CodeExecError;

verus! {

/// A record: a name-to-value mapping with unique keys.
#[derive(Debug)]
pub struct Mess {
    pub members: Vec<(String, VarType)>,
}

/// The mapping held by the entries of an association list from position `i`
/// on; an earlier entry overrides a later one with the same key.
pub open spec fn assoc_map_from(s: Seq<(String, VarType)>, i: int) -> Map<Seq<char>, ValSpec>
    decreases s.len() - i,
{
    if i < 0 || i >= s.len() {
        Map::empty()
    } else {
        assoc_map_from(s, i + 1).insert(s[i].0@, vmodel(s[i].1))
    }
}

/// Key uniqueness: the well-formedness invariant of a record.
pub open spec fn assoc_unique(s: Seq<(String, VarType)>) -> bool {
    forall|j: int, l: int| 0 <= j < l < s.len() ==> s[j].0@ != s[l].0@
}

/// What the association list from position `i` on says about one key: the
/// first matching entry decides.
pub proof fn lemma_assoc_lookup(s: Seq<(String, VarType)>, i: int, key: Seq<char>)
    requires
        0 <= i <= s.len(),
    ensures
        assoc_map_from(s, i).contains_key(key) <==> (exists|j: int|
            i <= j < s.len() && s[j].0@ == key),
        forall|j: int|
            i <= j < s.len() && s[j].0@ == key && (forall|l: int| i <= l < j ==> s[l].0@ != key)
                ==> assoc_map_from(s, i)[key] == vmodel(s[j].1),
    decreases s.len() - i,
{
    if i < s.len() {
        lemma_assoc_lookup(s, i + 1, key);
        if s[i].0@ == key {
            assert forall|j: int|
                i <= j < s.len() && s[j].0@ == key && (forall|l: int|
                    i <= l < j ==> s[l].0@ != key) implies assoc_map_from(s, i)[key] == vmodel(
                s[j].1,
            ) by {
                assert(j == i);
            }
        }
    }
}

impl Mess {
    /// The mapping this record holds.
    pub open spec fn model(&self) -> Map<Seq<char>, ValSpec> {
        assoc_map_from(self.members@, 0)
    }

    /// Key uniqueness, the invariant every operation preserves.
    pub open spec fn wf(&self) -> bool {
        assoc_unique(self.members@)
    }

    pub fn new() -> (r: Mess)
        ensures
            r.wf(),
            r.model() == Map::<Seq<char>, ValSpec>::empty(),
    {
        Mess { members: Vec::new() }
    }

    pub fn has(&self, name: &String) -> (r: bool)
        ensures
            r == self.model().contains_key(name@),
    {
        proof {
            lemma_assoc_lookup(self.members@, 0, name@);
        }
        let n = self.members.len();
        let mut i: usize = 0;
        while i < n
            invariant
                i <= n,
                n == self.members@.len(),
                forall|j: int| 0 <= j < i ==> self.members@[j].0@ != name@,
            decreases n - i,
        {
            if self.members[i].0.eq(name) {
                proof {
                    lemma_assoc_lookup(self.members@, 0, name@);
                }
                return true;
            }
            i = i + 1;
        }
        false
    }

    /// Reading a bound name yields its value; reading an unbound name yields
    /// nothing.
    pub fn get(&self, name: &String) -> (r: Option<VarType>)
        ensures
            r is Some <==> self.model().contains_key(name@),
            r matches Some(v) ==> v.model() == self.model()[name@],
    {
        proof {
            lemma_assoc_lookup(self.members@, 0, name@);
        }
        let n = self.members.len();
        let mut i: usize = 0;
        while i < n
            invariant
                i <= n,
                n == self.members@.len(),
                forall|j: int| 0 <= j < i ==> self.members@[j].0@ != name@,
            decreases n - i,
        {
            if self.members[i].0.eq(name) {
                proof {
                    lemma_assoc_lookup(self.members@, 0, name@);
                }
                return Some(self.members[i].1.duplicate());
            }
            i = i + 1;
        }
        None
    }

    /// Binding a name maps it to the value and leaves every other key
    /// unchanged.
    pub fn set(&mut self, name: &String, var: VarType)
        requires
            old(self).wf(),
        ensures
            final(self).wf(),
            final(self).model() == old(self).model().insert(name@, vmodel(var)),
    {
        let ghost s0 = self.members@;
        let n = self.members.len();
        let mut i: usize = 0;
        while i < n
            invariant
                i <= n,
                n == self.members@.len(),
                self.members@ == s0,
                s0 == old(self).members@,
                assoc_unique(s0),
                forall|j: int| 0 <= j < i ==> self.members@[j].0@ != name@,
            decreases n - i,
        {
            if self.members[i].0.eq(name) {
                self.members[i] = (name.clone(), var);
                proof {
                    let s1 = self.members@;
                    lemma_assoc_set(s0, s1, 0, i as int, name@);
                    assert forall|j: int, l: int| 0 <= j < l < s1.len() implies s1[j].0@
                        != s1[l].0@ by {
                        if j == i as int {
                            assert(s0[l].0@ != s0[i as int].0@);
                        } else if l == i as int {
                            assert(s0[j].0@ != s0[i as int].0@);
                        }
                    }
                }
                return ;
            }
            i = i + 1;
        }
        self.members.push((name.clone(), var));
        proof {
            let s1 = self.members@;
            let entry = s1.last();
            assert(s1 == s0.push(entry));
            lemma_assoc_push(s0, 0, entry);
            assert forall|j: int, l: int| 0 <= j < l < s1.len() implies s1[j].0@ != s1[l].0@ by {
                if l == s0.len() as int {
                    assert(s0[j].0@ != name@);
                }
            }
        }
    }
}

/// Replacing the entry at a position that holds the key, when no earlier
/// entry holds it, updates the mapping at that key alone.
proof fn lemma_assoc_set(
    s0: Seq<(String, VarType)>,
    s1: Seq<(String, VarType)>,
    i: int,
    at: int,
    key: Seq<char>,
)
    requires
        0 <= i <= s0.len(),
        0 <= at < s0.len(),
        s1.len() == s0.len(),
        s0[at].0@ == key,
        s1[at].0@ == key,
        forall|l: int| 0 <= l < s0.len() && l != at ==> s1[l] == s0[l],
        forall|l: int| 0 <= l < at ==> s0[l].0@ != key,
    ensures
        i > at ==> assoc_map_from(s1, i) == assoc_map_from(s0, i),
        i <= at ==> assoc_map_from(s1, i) == assoc_map_from(s0, i).insert(
            key,
            vmodel(s1[at].1),
        ),
    decreases s0.len() - i,
{
    if i < s0.len() {
        lemma_assoc_set(s0, s1, i + 1, at, key);
        if i > at {
            assert(assoc_map_from(s1, i) =~= assoc_map_from(s0, i));
        } else if i == at {
            assert(assoc_map_from(s1, i) =~= assoc_map_from(s0, i).insert(
                key,
                vmodel(s1[at].1),
            ));
        } else {
            assert(assoc_map_from(s1, i) =~= assoc_map_from(s0, i).insert(
                key,
                vmodel(s1[at].1),
            ));
        }
    } else {
        assert(assoc_map_from(s1, i) =~= assoc_map_from(s0, i));
    }
}

/// Appending an entry whose key no existing entry holds inserts that key
/// into the mapping.
proof fn lemma_assoc_push(s0: Seq<(String, VarType)>, i: int, entry: (String, VarType))
    requires
        0 <= i <= s0.len(),
        forall|l: int| 0 <= l < s0.len() ==> s0[l].0@ != entry.0@,
    ensures
        assoc_map_from(s0.push(entry), i) == assoc_map_from(s0, i).insert(
            entry.0@,
            vmodel(entry.1),
        ),
    decreases s0.len() - i,
{
    let s1 = s0.push(entry);
    if i < s0.len() {
        lemma_assoc_push(s0, i + 1, entry);
        assert(s1[i] == s0[i]);
        assert(assoc_map_from(s1, i) =~= assoc_map_from(s0, i).insert(
            entry.0@,
            vmodel(entry.1),
        ));
    } else if i == s0.len() {
        assert(s1[i] == entry);
        assert(assoc_map_from(s1, i + 1) =~= Map::<Seq<char>, ValSpec>::empty());
        assert(assoc_map_from(s1, i) =~= assoc_map_from(s0, i).insert(
            entry.0@,
            vmodel(entry.1),
        ));
    }
}

/// Whether a string key addresses an existing position of an array.
pub open spec fn array_has_spec(items: Seq<ValSpec>, key: Seq<char>) -> bool {
    match parse_index_spec(key) {
        Some(i) => (i as int) < items.len(),
        None => false,
    }
}

impl Array {
    /// A string key addresses this array when it reads as a decimal index in
    /// bounds.
    pub fn has(&self, name: &String) -> (r: bool)
        ensures
            r == array_has_spec(self.model(), name@),
    {
        proof {
            lemma_smodel(self.items@);
        }
        match parse_index_exec(name) {
            Some(i) => i < self.items.len(),
            None => false,
        }
    }

    /// Reading an in-bounds decimal key yields the item there; any other key
    /// yields nothing.
    pub fn get(&self, name: &String) -> (r: Option<VarType>)
        ensures
            r is Some <==> array_has_spec(self.model(), name@),
            r matches Some(v) ==> v.model() == self.model()[parse_index_spec(name@).unwrap() as int],
    {
        proof {
            lemma_smodel(self.items@);
        }
        match parse_index_exec(name) {
            Some(i) => {
                if i < self.items.len() {
                    Some(self.items[i].duplicate())
                } else {
                    None
                }
            },
            None => None,
        }
    }

    /// Writing an in-bounds decimal key replaces the item there and reports
    /// true; any other key changes nothing and reports false (an array never
    /// grows through keyed writes).
    pub fn set(&mut self, name: &String, var: VarType) -> (r: bool)
        ensures
            r == array_has_spec(old(self).model(), name@),
            r ==> final(self).model() == old(self).model().update(
                parse_index_spec(name@).unwrap() as int,
                vmodel(var),
            ),
            !r ==> *final(self) == *old(self),
    {
        proof {
            lemma_smodel(self.items@);
        }
        match parse_index_exec(name) {
            Some(i) => {
                if i < self.items.len() {
                    self.items[i] = var;
                    proof {
                        lemma_smodel(final(self).items@);
                        assert(final(self).model() =~= old(self).model().update(
                            i as int,
                            vmodel(var),
                        ));
                    }
                    true
                } else {
                    false
                }
            },
            None => false,
        }
    }
}

/// Mathematical model of a heap composite.
pub enum CompSpec {
    Mess(Map<Seq<char>, ValSpec>),
    Array(Seq<ValSpec>),
    Node(crate::node::NodeModel),
}

/// A heap-resident composite value.
#[derive(Debug)]
pub enum MemData {
    Mess(Mess),
    Array(Array),
    Node(crate::node::Node),
}

/// What a keyed read yields on a composite: the bound value on a record, the
/// indexed item on an array, and `Nzero` anywhere a key is missing (the soft
/// read rule); a node never yields anything.
pub open spec fn memdata_get_spec(m: CompSpec, key: Seq<char>) -> ValSpec {
    match m {
        CompSpec::Mess(map) => if map.contains_key(key) {
            map[key]
        } else {
            ValSpec::Nzero
        },
        CompSpec::Array(items) => if array_has_spec(items, key) {
            items[parse_index_spec(key).unwrap() as int]
        } else {
            ValSpec::Nzero
        },
        CompSpec::Node(_) => ValSpec::Nzero,
    }
}

/// Whether a keyed read would find a binding.
pub open spec fn memdata_has_spec(m: CompSpec, key: Seq<char>) -> bool {
    match m {
        CompSpec::Mess(map) => map.contains_key(key),
        CompSpec::Array(items) => array_has_spec(items, key),
        CompSpec::Node(_) => false,
    }
}

/// Whether a keyed write succeeds: always on a record, only in bounds on an
/// array (no growth), never on a node.
pub open spec fn memdata_set_ok_spec(m: CompSpec, key: Seq<char>) -> bool {
    match m {
        CompSpec::Mess(_) => true,
        CompSpec::Array(items) => array_has_spec(items, key),
        CompSpec::Node(_) => false,
    }
}

/// The composite after a successful keyed write.
pub open spec fn memdata_set_spec(m: CompSpec, key: Seq<char>, v: ValSpec) -> CompSpec {
    match m {
        CompSpec::Mess(map) => CompSpec::Mess(map.insert(key, v)),
        CompSpec::Array(items) => CompSpec::Array(
            items.update(parse_index_spec(key).unwrap() as int, v),
        ),
        CompSpec::Node(n) => CompSpec::Node(n),
    }
}

impl MemData {
    pub open spec fn model(&self) -> CompSpec {
        match self {
            MemData::Mess(m) => CompSpec::Mess(m.model()),
            MemData::Array(a) => CompSpec::Array(a.model()),
            MemData::Node(n) => CompSpec::Node(n.model()),
        }
    }

    pub open spec fn wf(&self) -> bool {
        match self {
            MemData::Mess(m) => m.wf(),
            _ => true,
        }
    }

    /// The soft read: a missing key on a record or array yields `Nzero`,
    /// never an error.
    pub fn get(&self, key: &String) -> (r: VarType)
        ensures
            r.model() == memdata_get_spec(self.model(), key@),
    {
        match self {
            MemData::Mess(mess) => match mess.get(key) {
                Some(v) => v,
                None => VarType::Nzero,
            },
            MemData::Array(array) => match array.get(key) {
                Some(v) => v,
                None => VarType::Nzero,
            },
            MemData::Node(_) => VarType::Nzero,
        }
    }

    pub fn has(&self, key: &String) -> (r: bool)
        ensures
            r == memdata_has_spec(self.model(), key@),
    {
        match self {
            MemData::Mess(mess) => mess.has(key),
            MemData::Array(array) => array.has(key),
            MemData::Node(_) => false,
        }
    }

    /// The keyed write: creates or overwrites on a record, overwrites in
    /// bounds on an array, and is an error on an out-of-range array key or
    /// on a node (nodes are immutable once constructed).
    pub fn set(&mut self, key: &String, val: VarType) -> (r: Result<(), CodeExecError>)
        requires
            old(self).wf(),
        ensures
            final(self).wf(),
            r is Ok <==> memdata_set_ok_spec(old(self).model(), key@),
            r is Ok ==> final(self).model() == memdata_set_spec(
                old(self).model(),
                key@,
                vmodel(val),
            ),
            r is Err ==> *final(self) == *old(self),
    {
        match self {
            MemData::Mess(mess) => {
                mess.set(key, val);
                Ok(())
            },
            MemData::Array(array) => {
                if array.set(key, val) {
                    Ok(())
                } else {
                    let mut desc = "Cannot set key ".to_owned();
                    desc.append(key.as_str());
                    desc.append(" on array.");
                    Err(CodeExecError { desc })
                }
            },
            MemData::Node(_) => {
                let mut desc = "Cannot set key ".to_owned();
                desc.append(key.as_str());
                desc.append(" on node.");
                Err(CodeExecError { desc })
            },
        }
    }
}

/// The soft-read law: a keyed read never fails; on a missing key it yields
/// `Nzero`, and on a record a freshly written key reads back as written.
pub proof fn lemma_soft_read(m: CompSpec, key: Seq<char>, v: ValSpec)
    ensures
        !memdata_has_spec(m, key) ==> memdata_get_spec(m, key) == ValSpec::Nzero,
        m is Mess ==> memdata_set_ok_spec(m, key) && memdata_get_spec(
            memdata_set_spec(m, key, v),
            key,
        ) == v,
{
}

} // verus!
