//! The language's runtime values.
//!
//! Scalars (`Nzero`, `Bool`, `Int`, `Float`, `String`) are carried inline and
//! copied by value; a tuple carries its elements inline as well; `Ref` carries
//! a handle into the heap of composite values. Floating-point values are
//! carried as raw IEEE bit patterns (see `float`).
//!
//! Every value has a mathematical model (`ValSpec`), and all contracts in the
//! crate speak of models.

use vstd::prelude::*;
use crate::float::{f64_is_zero, f64_str, f64_str_exec};

verus! {

/// Mathematical model of a runtime value.
pub enum ValSpec {
    Nzero,
    Bool(bool),
    Int(i64),
    Float(u64),
    Str(Seq<char>),
    Tuple(Seq<ValSpec>),
    Ref(int),
}

/// An ordered, fixed-length sequence of values, carried inline by tuples and
/// on the heap by array composites.
#[derive(Debug)]
pub struct Array {
    pub items: Vec<VarType>,
}

/// A runtime value.
#[derive(Debug)]
pub enum VarType {
    Nzero,
    Bool(bool),
    Int(i64),
    Float(u64),
    String(String),
    Tuple(Array),
    Ref(usize),
}

/// The model of a runtime value.
pub open spec fn vmodel(v: VarType) -> ValSpec
    decreases v, 0int,
    via vmodel_decreases
{
    match v {
        VarType::Nzero => ValSpec::Nzero,
        VarType::Bool(b) => ValSpec::Bool(b),
        VarType::Int(i) => ValSpec::Int(i),
        VarType::Float(b) => ValSpec::Float(b),
        VarType::String(s) => ValSpec::Str(s@),
        VarType::Tuple(a) => ValSpec::Tuple(smodel_from(a.items@, 0)),
        VarType::Ref(h) => ValSpec::Ref(h as int),
    }
}

/// The models of the values of a sequence, from position `i` on.
pub open spec fn smodel_from(s: Seq<VarType>, i: int) -> Seq<ValSpec>
    decreases s, s.len() - i,
    via smodel_from_decreases
{
    if i < 0 || i >= s.len() {
        Seq::empty()
    } else {
        seq![vmodel(s[i])] + smodel_from(s, i + 1)
    }
}

#[via_fn]
proof fn vmodel_decreases(v: VarType) {
    broadcast use vstd::std_specs::vec::axiom_vec_decreases_to_view;

    match v {
        VarType::Tuple(a) => {
            assert(decreases_to!(v => a));
            assert(decreases_to!(a.items => a.items@));
        },
        _ => (),
    }
}

#[via_fn]
proof fn smodel_from_decreases(s: Seq<VarType>, i: int) {
    broadcast use vstd::seq::axiom_seq_index_decreases;

    if 0 <= i && i < s.len() {
        assert(decreases_to!(s => s[i]));
    }
}

/// The model of a whole sequence of values.
pub open spec fn smodel(s: Seq<VarType>) -> Seq<ValSpec> {
    smodel_from(s, 0)
}

/// `smodel_from` is the pointwise model of the tail of the sequence.
pub proof fn lemma_smodel_from(s: Seq<VarType>, i: int)
    requires
        0 <= i <= s.len(),
    ensures
        smodel_from(s, i) == Seq::new((s.len() - i) as nat, |j: int| vmodel(s[i + j])),
    decreases s.len() - i,
{
    if i < s.len() {
        lemma_smodel_from(s, i + 1);
    }
    assert(smodel_from(s, i) =~= Seq::new((s.len() - i) as nat, |j: int| vmodel(s[i + j])));
}

/// `smodel` is the pointwise model of the sequence.
pub proof fn lemma_smodel(s: Seq<VarType>)
    ensures
        smodel(s).len() == s.len(),
        forall|j: int| 0 <= j < s.len() ==> #[trigger] smodel(s)[j] == vmodel(s[j]),
{
    lemma_smodel_from(s, 0);
}

impl VarType {
    /// The model of a runtime value.
    pub open spec fn model(&self) -> ValSpec {
        vmodel(*self)
    }
}

impl Array {
    /// The model of an inline sequence: the models of its items.
    pub open spec fn model(&self) -> Seq<ValSpec> {
        smodel(self.items@)
    }
}

/// Truthiness is total and never errors: `Nzero` is false, a `Bool` is
/// itself, numbers are true when nonzero, strings and tuples when nonempty,
/// and a reference is always true.
pub open spec fn truthy_spec(v: ValSpec) -> bool {
    match v {
        ValSpec::Nzero => false,
        ValSpec::Bool(b) => b,
        ValSpec::Int(i) => i != 0,
        ValSpec::Float(b) => !f64_is_zero(b),
        ValSpec::Str(s) => s.len() != 0,
        ValSpec::Tuple(t) => t.len() != 0,
        ValSpec::Ref(_) => true,
    }
}

impl VarType {
    /// The truthiness coercion used by conditionals and loops.
    pub fn truthy(&self) -> (r: bool)
        ensures
            r == truthy_spec(self.model()),
    {
        match self {
            VarType::Nzero => false,
            VarType::Bool(b) => *b,
            VarType::Int(i) => *i != 0,
            VarType::Float(b) => *b & crate::float::F64_MAG_MASK != 0,
            VarType::String(s) => !s.as_str().is_empty(),
            VarType::Tuple(a) => a.items.len() != 0,
            VarType::Ref(_) => true,
        }
    }

    /// A structural copy whose model is the model of the original.
    pub fn duplicate(&self) -> (r: VarType)
        ensures
            r.model() == self.model(),
        decreases self,
    {
        match self {
            VarType::Nzero => VarType::Nzero,
            VarType::Bool(b) => VarType::Bool(*b),
            VarType::Int(i) => VarType::Int(*i),
            VarType::Float(b) => VarType::Float(*b),
            VarType::String(s) => VarType::String(s.clone()),
            VarType::Tuple(a) => VarType::Tuple(a.duplicate()),
            VarType::Ref(h) => VarType::Ref(*h),
        }
    }
}

impl Array {
    /// A structural copy whose model is the model of the original.
    pub fn duplicate(&self) -> (r: Array)
        ensures
            r.model() == self.model(),
        decreases self,
    {
        let mut items: Vec<VarType> = Vec::new();
        let n = self.items.len();
        let mut i: usize = 0;
        while i < n
            invariant
                i <= n,
                n == self.items@.len(),
                items@.len() == i as int,
                forall|j: int| 0 <= j < i ==> items@[j].model() == self.items@[j].model(),
            decreases n - i,
        {
            items.push(self.items[i].duplicate());
            i = i + 1;
        }
        let r = Array { items };
        proof {
            lemma_smodel(r.items@);
            lemma_smodel(self.items@);
            assert(r.model() =~= self.model());
        }
        r
    }

    pub fn len(&self) -> (r: usize)
        ensures
            r == self.model().len(),
    {
        proof {
            lemma_smodel(self.items@);
        }
        self.items.len()
    }
}

pub open spec fn digit_char(d: int) -> char {
    ((48 + d) as u8) as char
}

/// The decimal rendering of a nonnegative integer, most significant digit
/// first.
pub open spec fn nat_str(n: int) -> Seq<char>
    decreases n,
{
    if n < 10 {
        seq![digit_char(n)]
    } else {
        nat_str(n / 10).push(digit_char(n % 10))
    }
}

/// The decimal rendering of an integer, with a leading `-` when negative.
pub open spec fn int_str(i: int) -> Seq<char> {
    if i < 0 {
        seq!['-'] + nat_str(-i)
    } else {
        nat_str(i)
    }
}

/// The rendering of a value: scalars render as their usual text, `Nzero` as
/// `N0`, a tuple as its parenthesized, comma-separated items, a reference as
/// an opaque handle marker.
pub open spec fn val_str(v: ValSpec) -> Seq<char>
    decreases v, 0int,
    via val_str_decreases
{
    match v {
        ValSpec::Nzero => "N0"@,
        ValSpec::Bool(b) => if b {
            "true"@
        } else {
            "false"@
        },
        ValSpec::Int(i) => int_str(i as int),
        ValSpec::Float(b) => f64_str(b),
        ValSpec::Str(s) => s,
        ValSpec::Tuple(t) => "("@ + vals_str_from(t, 0) + ")"@,
        ValSpec::Ref(h) => "<ref "@ + int_str(h) + ">"@,
    }
}

/// The renderings of the values of a sequence from position `i` on, joined
/// with `, `.
pub open spec fn vals_str_from(t: Seq<ValSpec>, i: int) -> Seq<char>
    decreases t, t.len() - i,
    via vals_str_from_decreases
{
    if i < 0 || i >= t.len() {
        Seq::empty()
    } else if i + 1 == t.len() {
        val_str(t[i])
    } else {
        val_str(t[i]) + ", "@ + vals_str_from(t, i + 1)
    }
}

#[via_fn]
proof fn val_str_decreases(v: ValSpec) {
    match v {
        ValSpec::Tuple(t) => {
            assert(decreases_to!(v => t));
        },
        _ => (),
    }
}

#[via_fn]
proof fn vals_str_from_decreases(t: Seq<ValSpec>, i: int) {
    broadcast use vstd::seq::axiom_seq_index_decreases;

    if 0 <= i && i < t.len() {
        assert(decreases_to!(t => t[i]));
    }
}

/// Relies on std's decimal `Display` for `i64`: the digits of the value,
/// with a leading `-` when it is negative.
#[verifier::external_body]
pub fn i64_str_exec(i: i64) -> (r: String)
    ensures
        r@ == int_str(i as int),
{
    format!("{}", i)
}

/// Relies on std's decimal `Display` for `usize`: the digits of the value.
#[verifier::external_body]
pub fn usize_str_exec(i: usize) -> (r: String)
    ensures
        r@ == nat_str(i as int),
{
    format!("{}", i)
}

pub open spec fn is_digit(c: char) -> bool {
    48 <= c as int <= 57
}

/// The value of a string of decimal digits, most significant first.
pub open spec fn digits_val(s: Seq<char>) -> int
    decreases s.len(),
{
    if s.len() == 0 {
        0
    } else {
        digits_val(s.drop_last()) * 10 + (s.last() as int - 48)
    }
}

pub open spec fn all_digits(s: Seq<char>) -> bool {
    forall|j: int| 0 <= j < s.len() ==> is_digit(s[j])
}

/// How array composites read a string key as an index: an optional leading
/// `+`, then decimal digits; an empty body, any other character, or a value
/// beyond `usize` is no index.
pub open spec fn parse_index_spec(s: Seq<char>) -> Option<usize> {
    let body = if s.len() > 0 && s[0] == '+' {
        s.drop_first()
    } else {
        s
    };
    if body.len() > 0 && all_digits(body) && digits_val(body) <= usize::MAX {
        Some(digits_val(body) as usize)
    } else {
        None
    }
}

/// Relies on std's `usize::from_str`: an optional leading `+` and then
/// decimal digits give the value; an empty body, any other character, or
/// overflow is an error.
#[verifier::external_body]
pub fn parse_index_exec(s: &String) -> (r: Option<usize>)
    ensures
        r == parse_index_spec(s@),
{
    s.as_str().parse::<usize>().ok()
}

impl VarType {
    /// The rendering of this value, used by string coercion, by member keys
    /// and by the host console.
    pub fn to_string(&self) -> (r: String)
        ensures
            r@ == val_str(self.model()),
        decreases self, 0int,
    {
        match self {
            VarType::Nzero => "N0".to_owned(),
            VarType::Bool(b) => if *b {
                "true".to_owned()
            } else {
                "false".to_owned()
            },
            VarType::Int(i) => i64_str_exec(*i),
            VarType::Float(b) => f64_str_exec(*b),
            VarType::String(s) => s.clone(),
            VarType::Tuple(a) => {
                let inner = tuple_str_from(a, 0);
                let mut r = "(".to_owned();
                r.append(inner.as_str());
                r.append(")");
                proof {
                    assert(r@ =~= "("@ + inner@ + ")"@);
                }
                r
            },
            VarType::Ref(h) => {
                let num = usize_str_exec(*h);
                let mut r = "<ref ".to_owned();
                r.append(num.as_str());
                r.append(">");
                proof {
                    assert(r@ =~= "<ref "@ + num@ + ">"@);
                }
                r
            },
        }
    }
}

/// The renderings of the items of an inline sequence from position `i` on,
/// joined with `, `.
pub fn tuple_str_from(a: &Array, i: usize) -> (r: String)
    requires
        i <= a.items@.len(),
    ensures
        r@ == vals_str_from(a.model(), i as int),
    decreases a, a.items@.len() - i,
{
    proof {
        lemma_smodel(a.items@);
    }
    if i >= a.items.len() {
        String::new()
    } else {
        proof {
            broadcast use vstd::std_specs::vec::axiom_vec_decreases_to_view;
            broadcast use vstd::seq::axiom_seq_index_decreases;

            assert(decreases_to!(a.items => a.items@));
            assert(decreases_to!(a.items@ => a.items@[i as int]));
        }
        let head = a.items[i].to_string();
        if i + 1 == a.items.len() {
            head
        } else {
            head.concat(", ").concat(tuple_str_from(a, i + 1).as_str())
        }
    }
}

} // verus!
