//! Slash-separated paths used to resolve module files.
//!
//! A path is its sequence of components. `tidy` removes `.` components and
//! folds `..` into the component before it, exactly as the resolver expects;
//! the remaining operations are concatenation, parenting and rendering.

use vstd::prelude::*;

verus! {

/// A component separator: either slash works, backslashes are normalized
/// away.
pub open spec fn is_sep(c: char) -> bool {
    c == '/' || c == '\\'
}

/// The position of the first separator, or the length when there is none.
pub open spec fn first_sep(s: Seq<char>) -> int
    decreases s.len(),
{
    if s.len() == 0 {
        0
    } else if is_sep(s[0]) {
        0
    } else {
        1 + first_sep(s.drop_first())
    }
}

pub proof fn lemma_first_sep(s: Seq<char>)
    ensures
        0 <= first_sep(s) <= s.len(),
    decreases s.len(),
{
    if s.len() != 0 && !is_sep(s[0]) {
        lemma_first_sep(s.drop_first());
    }
}

/// The components of a string cut at every separator; adjacent separators
/// yield empty components, as the usual split does.
pub open spec fn split_path(s: Seq<char>) -> Seq<Seq<char>>
    decreases s.len(),
    via split_path_decreases
{
    let i = first_sep(s);
    if i >= s.len() {
        seq![s]
    } else {
        seq![s.subrange(0, i)] + split_path(s.subrange(i + 1, s.len() as int))
    }
}

#[via_fn]
proof fn split_path_decreases(s: Seq<char>) {
    lemma_first_sep(s);
}

/// Relies on std's `str::replace` and `str::split`: replacing every
/// backslash with a slash and splitting at slashes yields exactly the
/// components between separators, empty ones included.
#[verifier::external_body]
fn split_path_exec(s: &str) -> (r: Vec<String>)
    ensures
        r.deep_view() == split_path(s@),
{
    s.replace('\\', "/").split('/').map(|p| p.to_string()).collect()
}

/// One step of tidying at position `i`: drop a `.`, fold a `..` into the
/// component before it, or move on.
pub open spec fn tidy_from(s: Seq<Seq<char>>, i: int) -> Seq<Seq<char>>
    decreases (if 0 <= i <= s.len() { 2 * s.len() - i } else { 0 }),
{
    if i < 0 || i >= s.len() {
        s
    } else if s[i] == "."@ {
        tidy_from(s.remove(i), i)
    } else if s[i] == ".."@ && i > 0 {
        tidy_from(s.remove(i).remove(i - 1), i - 1)
    } else {
        tidy_from(s, i + 1)
    }
}

/// A slash-separated path, as its list of components.
#[derive(Debug)]
pub struct Path {
    pub path: Vec<String>,
}

impl Path {
    /// The model of a path: its components.
    pub open spec fn model(&self) -> Seq<Seq<char>> {
        self.path.deep_view()
    }

    /// Splits at separators (either slash) and tidies the result.
    pub fn new(path: &str) -> (r: Path)
        ensures
            r.model() == tidy_from(split_path(path@), 0),
    {
        let mut ret = Path { path: split_path_exec(path) };
        ret.tidy();
        ret
    }

    /// The path without its last component.
    pub fn parent(&self) -> (r: Path)
        ensures
            self.model().len() == 0 ==> r.model() == self.model(),
            self.model().len() > 0 ==> r.model() == self.model().drop_last(),
    {
        let mut path = clone_components(&self.path);
        let popped = path.pop();
        let r = Path { path };
        proof {
            if self.model().len() > 0 {
                assert(r.model() =~= self.model().drop_last());
            } else {
                assert(r.model() =~= self.model());
            }
        }
        r
    }

    /// Removes every `.` and folds every `..` that has a component before it
    /// into that component.
    pub fn tidy(&mut self)
        ensures
            final(self).model() == tidy_from(old(self).model(), 0),
    {
        let mut i: usize = 0;
        while i < self.path.len()
            invariant
                i <= self.path@.len(),
                tidy_from(self.model(), i as int) == tidy_from(old(self).model(), 0),
            decreases 2 * self.path@.len() - i,
        {
            let ghost pre = self.model();
            if self.path[i].eq(&".".to_owned()) {
                self.path.remove(i);
                proof {
                    assert(self.model() =~= pre.remove(i as int));
                }
            } else if self.path[i].eq(&"..".to_owned()) && i > 0 {
                self.path.remove(i);
                proof {
                    assert(self.model() =~= pre.remove(i as int));
                }
                let ghost mid = self.model();
                self.path.remove(i - 1);
                i = i - 1;
                proof {
                    assert(self.model() =~= mid.remove(i as int));
                }
            } else {
                i = i + 1;
            }
        }
    }

    /// This path extended by the components of another.
    pub fn relative(&self, other: &Path) -> (r: Path)
        ensures
            r.model() == self.model() + other.model(),
    {
        let mut path = clone_components(&self.path);
        let mut tail = clone_components(&other.path);
        path.append(&mut tail);
        let r = Path { path };
        proof {
            assert(r.model() =~= self.model() + other.model());
        }
        r
    }

    /// How to reach this path from another: one `..` for each component of
    /// the other past the shared prefix, then this path's remainder.
    pub fn relative_to(&self, other: &Path) -> (r: Path)
        ensures
            r.model() == updots((other.model().len() - shared_prefix(
                self.model(),
                other.model(),
            )) as nat) + self.model().skip(shared_prefix(self.model(), other.model())),
    {
        let mut i: usize = 0;
        let mut stop = false;
        while !stop
            invariant
                0 <= i <= self.path@.len(),
                i <= other.path@.len(),
                forall|j: int| 0 <= j < i ==> self.model()[j] == other.model()[j],
                stop ==> is_shared_prefix(self.model(), other.model(), i as int),
            decreases self.path@.len() - i + (if stop { 0int } else { 1int }),
        {
            if i < self.path.len() && i < other.path.len() {
                if self.path[i].eq(&other.path[i]) {
                    i = i + 1;
                } else {
                    stop = true;
                }
            } else {
                stop = true;
            }
        }
        proof {
            lemma_shared_prefix(self.model(), other.model(), i as int);
        }
        let cut = i;
        let mut path: Vec<String> = Vec::new();
        let mut k: usize = 0;
        let n_up = other.path.len() - cut;
        while k < n_up
            invariant
                k <= n_up,
                path@.len() == k as int,
                forall|j: int| 0 <= j < k ==> path@[j]@ == ".."@,
            decreases n_up - k,
        {
            path.push("..".to_owned());
            k = k + 1;
        }
        let mut j = cut;
        while j < self.path.len()
            invariant
                cut <= j <= self.path@.len(),
                n_up == other.path@.len() - cut,
                path@.len() == n_up + (j - cut),
                forall|l: int| 0 <= l < n_up ==> path@[l]@ == ".."@,
                forall|l: int|
                    n_up <= l < path@.len() ==> path@[l]@ == self.path@[cut + (l - n_up)]@,
            decreases self.path@.len() - j,
        {
            path.push(self.path[j].clone());
            j = j + 1;
        }
        let r = Path { path };
        proof {
            assert(r.model() =~= updots(n_up as nat) + self.model().skip(cut as int));
        }
        r
    }

    /// The path as one string: a leading slash, the nonempty components
    /// joined by slashes, and a trailing backslash added to a component that
    /// ends in a colon (a spelled-out drive).
    pub fn as_std_path(&self) -> (r: String)
        ensures
            r@ == render_std(self.model(), 0, "/"@),
    {
        let mut acc = "/".to_owned();
        let mut i: usize = 0;
        while i < self.path.len()
            invariant
                i <= self.path@.len(),
                render_std(self.model(), 0, "/"@) == render_std(self.model(), i as int, acc@),
            decreases self.path@.len() - i,
        {
            let ghost a0 = acc@;
            let comp = &self.path[i];
            if !comp.as_str().is_empty() {
                let ghost lead = if a0.len() > 0 && a0.last() == '/' {
                    a0
                } else {
                    a0 + "/"@
                };
                if !ends_with_slash(&acc) {
                    acc.append("/");
                }
                proof {
                    assert(acc@ == lead);
                }
                acc.append(comp.as_str());
                if ends_with_colon(comp) {
                    acc.append("\\");
                    proof {
                        assert(acc@ =~= lead + (comp@ + "\\"@));
                    }
                }
                proof {
                    let m = self.model();
                    let cs = if m[i as int].len() > 0 && m[i as int].last() == ':' {
                        m[i as int] + "\\"@
                    } else {
                        m[i as int]
                    };
                    assert(acc@ == lead + cs);
                    assert(render_std(m, i as int, a0) == render_std(m, i + 1, acc@));
                }
            }
            i = i + 1;
        }
        acc
    }

    /// The components joined by slashes.
    pub fn to_string(&self) -> (r: String)
        ensures
            r@ == join_slash(self.model(), 0),
    {
        let mut acc = String::new();
        let mut i: usize = 0;
        while i < self.path.len()
            invariant
                i <= self.path@.len(),
                join_slash(self.model(), 0) == acc@ + join_slash(self.model(), i as int),
            decreases self.path@.len() - i,
        {
            acc.append(self.path[i].as_str());
            if i + 1 < self.path.len() {
                acc.append("/");
            }
            i = i + 1;
        }
        proof {
            assert(acc@ =~= acc@ + join_slash(self.model(), self.model().len() as int));
        }
        acc
    }
}

impl Clone for Path {
    /// A copy with the same components.
    fn clone(&self) -> (r: Path)
        ensures
            r.model() == self.model(),
    {
        Path { path: clone_components(&self.path) }
    }
}

/// A copy of a component list with the same model.
fn clone_components(v: &Vec<String>) -> (r: Vec<String>)
    ensures
        r.deep_view() == v.deep_view(),
        r@.len() == v@.len(),
{
    let mut r: Vec<String> = Vec::new();
    let mut i: usize = 0;
    while i < v.len()
        invariant
            i <= v@.len(),
            r@.len() == i as int,
            forall|j: int| 0 <= j < i ==> r@[j]@ == v@[j]@,
        decreases v@.len() - i,
    {
        r.push(v[i].clone());
        i = i + 1;
    }
    proof {
        assert(r.deep_view() =~= v.deep_view());
    }
    r
}

/// The length of the longest shared prefix of two component lists.
pub open spec fn shared_prefix(a: Seq<Seq<char>>, b: Seq<Seq<char>>) -> int {
    choose|i: int| is_shared_prefix(a, b, i)
}

pub open spec fn is_shared_prefix(a: Seq<Seq<char>>, b: Seq<Seq<char>>, i: int) -> bool {
    &&& 0 <= i <= a.len()
    &&& i <= b.len()
    &&& (forall|j: int| 0 <= j < i ==> a[j] == b[j])
    &&& (i < a.len() && i < b.len() ==> a[i] != b[i])
}

/// The witness found by the scan is the shared-prefix length.
pub proof fn lemma_shared_prefix(a: Seq<Seq<char>>, b: Seq<Seq<char>>, i: int)
    requires
        is_shared_prefix(a, b, i),
    ensures
        shared_prefix(a, b) == i,
{
    assert(is_shared_prefix(a, b, shared_prefix(a, b)));
    let w = shared_prefix(a, b);
    if w < i {
        assert(a[w] == b[w]);
    } else if w > i {
        assert(a[i] == b[i]);
    }
}

/// `n` components of `..`.
pub open spec fn updots(n: nat) -> Seq<Seq<char>> {
    Seq::new(n, |j: int| ".."@)
}

/// The components joined by slashes, from position `i` on.
pub open spec fn join_slash(s: Seq<Seq<char>>, i: int) -> Seq<char>
    decreases s.len() - i,
{
    if i < 0 || i >= s.len() {
        Seq::empty()
    } else if i + 1 == s.len() {
        s[i]
    } else {
        s[i] + "/"@ + join_slash(s, i + 1)
    }
}

/// The standard-path rendering of the components from position `i` on,
/// appended to what is rendered already.
pub open spec fn render_std(s: Seq<Seq<char>>, i: int, acc: Seq<char>) -> Seq<char>
    decreases s.len() - i,
{
    if i < 0 || i >= s.len() {
        acc
    } else if s[i].len() == 0 {
        render_std(s, i + 1, acc)
    } else {
        let lead = if acc.len() > 0 && acc.last() == '/' {
            acc
        } else {
            acc + "/"@
        };
        let comp = if s[i].len() > 0 && s[i].last() == ':' {
            s[i] + "\\"@
        } else {
            s[i]
        };
        render_std(s, i + 1, lead + comp)
    }
}

/// Whether the rendered text so far ends in a slash.
fn ends_with_slash(s: &String) -> (r: bool)
    ensures
        r == (s@.len() > 0 && s@.last() == '/'),
{
    let n = s.as_str().unicode_len();
    if n == 0 {
        false
    } else {
        let c = s.as_str().get_char(n - 1);
        c == '/'
    }
}

/// Whether a component ends in a colon.
fn ends_with_colon(s: &String) -> (r: bool)
    ensures
        r == (s@.len() > 0 && s@.last() == ':'),
{
    let n = s.as_str().unicode_len();
    if n == 0 {
        false
    } else {
        let c = s.as_str().get_char(n - 1);
        c == ':'
    }
}

} // verus!
