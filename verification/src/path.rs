//! The path sandbox: paths relative to the sandbox root as component lists,
//! with joining, `.`/`..` resolution, and containment by construction.

use vstd::prelude::*;

verus! {

use crate::strutil::{
    first_occur, join_strings, join_with, lemma_first_occur, match_at, split_on, split_str,
    str_eq, string_eq,
};
use vstd::string::StrSliceExecFns;

broadcast use vstd::string::group_string_axioms;

/// An absolute, canonical path inside the sandbox, as the list of components
/// below the sandbox root.  The root itself is the empty list.  Containment
/// in the sandbox holds by construction: a join that would escape the root
/// yields no path.
pub struct SandboxPath {
    pub parts: Vec<String>,
}

impl View for SandboxPath {
    type V = Seq<Seq<char>>;

    open spec fn view(&self) -> Seq<Seq<char>> {
        self.parts.deep_view()
    }
}

impl DeepView for SandboxPath {
    type V = Seq<Seq<char>>;

    open spec fn deep_view(&self) -> Seq<Seq<char>> {
        self@
    }
}

/// A well-formed path component: non-empty, no separator, not a dot form.
pub open spec fn wf_component(c: Seq<char>) -> bool {
    &&& c.len() > 0
    &&& c != "."@
    &&& c != ".."@
    &&& !c.contains('/')
}

pub open spec fn wf_parts(ps: Seq<Seq<char>>) -> bool {
    forall|i: int| 0 <= i < ps.len() ==> wf_component(#[trigger] ps[i])
}

impl SandboxPath {
    /// Whether every component of this path is well formed.
    pub open spec fn wf(&self) -> bool {
        wf_parts(self@)
    }

    /// The sandbox root.
    pub fn root() -> (r: SandboxPath)
        ensures
            r@ == Seq::<Seq<char>>::empty(),
            r.wf(),
    {
        let r = SandboxPath { parts: Vec::new() };
        proof {
            assert(r@ =~= Seq::<Seq<char>>::empty());
        }
        r
    }

    /// An identical copy of this path.
    pub fn clone_path(&self) -> (r: SandboxPath)
        ensures
            r@ == self@,
    {
        let parts = clone_string_vec(&self.parts);
        let r = SandboxPath { parts };
        proof {
            assert(r@ =~= self@);
        }
        r
    }

    /// The number of components below the root.
    pub fn depth(&self) -> (n: usize)
        ensures
            n == self@.len(),
    {
        self.parts.len()
    }

    /// The path rendered relative to the root, components joined by `/`;
    /// empty at the root itself.
    pub fn display(&self) -> (r: String)
        ensures
            r@ == join_with(self@, "/"@),
    {
        join_strings(&self.parts, "/")
    }

    /// Whether `other` is this path or lies below it.
    pub fn starts_with(&self, other: &SandboxPath) -> (r: bool)
        ensures
            r == is_prefix_of(other@, self@),
    {
        if other.parts.len() > self.parts.len() {
            return false;
        }
        let mut i: usize = 0;
        while i < other.parts.len()
            invariant
                i <= other.parts.len(),
                other.parts.len() <= self.parts.len(),
                forall|t: int| 0 <= t < i ==> other@[t] == self@[t],
            decreases other.parts.len() - i,
        {
            if !string_eq(&self.parts[i], other.parts[i].as_str()) {
                proof {
                    if is_prefix_of(other@, self@) {
                        assert(self@.take(other@.len() as int)[i as int] == self@[i as int]);
                    }
                }
                return false;
            }
            i += 1;
        }
        proof {
            assert(self@.take(other@.len() as int) =~= other@);
        }
        true
    }
}

/// `pre` is a prefix of `ps`, component by component.
pub open spec fn is_prefix_of(pre: Seq<Seq<char>>, ps: Seq<Seq<char>>) -> bool {
    pre.len() <= ps.len() && ps.take(pre.len() as int) == pre
}

/// Clones a vector of strings, element for element.
pub fn clone_string_vec(v: &Vec<String>) -> (r: Vec<String>)
    ensures
        r@ == v@,
{
    let r = v.clone();
    proof {
        assert forall|i: int| 0 <= i < v@.len() implies r@[i] == v@[i] by {
            assert(vstd::pervasive::cloned::<String>(v[i], r[i]));
        }
        assert(r@ =~= v@);
    }
    r
}

/// Resolves raw components against a base: empty and `.` components vanish,
/// `..` steps up, anything else steps down; stepping above the root escapes.
pub open spec fn resolve_rec(parts: Seq<Seq<char>>, comps: Seq<Seq<char>>) -> Option<
    Seq<Seq<char>>,
>
    decreases comps.len(),
{
    if comps.len() == 0 {
        Some(parts)
    } else {
        let c = comps[0];
        if c.len() == 0 || c == "."@ {
            resolve_rec(parts, comps.skip(1))
        } else if c == ".."@ {
            if parts.len() == 0 {
                None
            } else {
                resolve_rec(parts.drop_last(), comps.skip(1))
            }
        } else {
            resolve_rec(parts.push(c), comps.skip(1))
        }
    }
}

/// Joining an argument onto a base path inside the sandbox: an absolute
/// argument escapes; otherwise its `/`-separated components are resolved.
pub open spec fn join_spec(base: Seq<Seq<char>>, arg: Seq<char>) -> Option<Seq<Seq<char>>> {
    if arg.len() > 0 && arg[0] == '/' {
        None
    } else {
        resolve_rec(base, split_on(arg, "/"@))
    }
}

/// Pieces of a split on a one-character separator never contain it.
proof fn lemma_split_char_pieces(s: Seq<char>, sep: Seq<char>)
    requires
        sep.len() == 1,
    ensures
        forall|k: int|
            0 <= k < split_on(s, sep).len() ==> !(#[trigger] split_on(s, sep)[k]).contains(
                sep[0],
            ),
    decreases s.len(),
{
    lemma_first_occur(s, sep);
    let i = first_occur(s, sep);
    if i < 0 {
        assert forall|k: int| 0 <= k < split_on(s, sep).len() implies !(#[trigger] split_on(
            s,
            sep,
        )[k]).contains(sep[0]) by {
            assert(split_on(s, sep)[k] == s);
            if s.contains(sep[0]) {
                let j = choose|j: int| 0 <= j < s.len() && s[j] == sep[0];
                assert(match_at(s, sep, j)) by {
                    assert(s.subrange(j, j + 1) =~= sep);
                }
            }
        }
    } else {
        let rest = s.skip(i + 1);
        lemma_split_char_pieces(rest, sep);
        let head = s.take(i);
        assert forall|k: int| 0 <= k < split_on(s, sep).len() implies !(#[trigger] split_on(
            s,
            sep,
        )[k]).contains(sep[0]) by {
            if k == 0 {
                assert(split_on(s, sep)[0] == head);
                if head.contains(sep[0]) {
                    let j = choose|j: int| 0 <= j < head.len() && head[j] == sep[0];
                    assert(match_at(s, sep, j)) by {
                        assert(head[j] == s[j]);
                        assert(s.subrange(j, j + 1) =~= sep);
                    }
                }
            } else {
                assert(split_on(s, sep)[k] == split_on(rest, sep)[k - 1]);
            }
        }
    }
}

/// Joins `arg` onto `base`, resolving dot components; yields no path when
/// the result would leave the sandbox.  The result of a join onto a
/// well-formed base is well formed.
#[verifier::loop_isolation(false)]
pub fn join_path(base: &SandboxPath, arg: &str) -> (r: Option<SandboxPath>)
    ensures
        match r {
            Some(p) => join_spec(base@, arg@) == Some(p@) && (base.wf() ==> p.wf()),
            None => join_spec(base@, arg@) is None,
        },
{
    proof {
        reveal_strlit("/");
        reveal_strlit(".");
        reveal_strlit("..");
    }
    if arg.unicode_len() > 0 && arg.get_char(0) == '/' {
        return None;
    }
    let comps = split_str(arg, "/");
    let ghost cs = comps.deep_view();
    proof {
        lemma_split_char_pieces(arg@, "/"@);
    }
    let mut parts = clone_string_vec(&base.parts);
    let mut i: usize = 0;
    proof {
        assert(cs.skip(0) =~= cs);
        assert(parts.deep_view() =~= base@);
    }
    while i < comps.len()
        invariant
            i <= comps.len(),
            join_spec(base@, arg@) == resolve_rec(parts.deep_view(), cs.skip(i as int)),
            base.wf() ==> wf_parts(parts.deep_view()),
        decreases comps.len() - i,
    {
        proof {
            assert(cs.skip(i as int)[0] == cs[i as int]);
            assert(cs.skip(i as int).skip(1) =~= cs.skip(i + 1));
        }
        let ghost pre = parts.deep_view();
        let c: &String = &comps[i];
        if c.as_str().unicode_len() == 0 || string_eq(c, ".") {
        } else if string_eq(c, "..") {
            if parts.len() == 0 {
                proof {
                    assert(pre.len() == 0);
                }
                return None;
            }
            let _ = parts.pop();
            proof {
                assert(parts.deep_view() =~= pre.drop_last());
            }
        } else {
            parts.push(c.clone());
            proof {
                assert(parts.deep_view() =~= pre.push(cs[i as int]));
                if base.wf() {
                    assert(wf_component(cs[i as int])) by {
                        assert(!cs[i as int].contains('/'));
                    }
                    assert forall|t: int|
                        0 <= t < parts.deep_view().len() implies wf_component(
                        #[trigger] parts.deep_view()[t],
                    ) by {
                        if t < pre.len() {
                            assert(parts.deep_view()[t] == pre[t]);
                        }
                    }
                }
            }
        }
        i += 1;
    }
    proof {
        assert(cs.skip(comps.len() as int) =~= Seq::<Seq<char>>::empty());
    }
    Some(SandboxPath { parts })
}

} // verus!
