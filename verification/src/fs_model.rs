//! The sandboxed directory tree as an in-memory model: a list of nodes, each
//! a directory or a file with content and an executable flag.  Every handler
//! of the pipeline reads and changes the tree through this model; the
//! surrounding application loads the real directory into it and serves the
//! model from then on.

use vstd::prelude::*;

verus! {

use crate::path::{clone_string_vec, is_prefix_of, wf_parts, SandboxPath};
use crate::strutil::string_eq;
use vstd::string::StrSliceExecFns;

/// What a node is: a directory, or a file with content and an executable bit.
pub enum FsKind {
    Dir,
    File { content: String, executable: bool },
}

pub enum FsKindV {
    Dir,
    File { content: Seq<char>, executable: bool },
}

impl View for FsKind {
    type V = FsKindV;

    open spec fn view(&self) -> FsKindV {
        match self {
            FsKind::Dir => FsKindV::Dir,
            FsKind::File { content, executable } => FsKindV::File {
                content: content@,
                executable: *executable,
            },
        }
    }
}

/// One node of the tree: its path below the sandbox root, and its kind.
pub struct FsNode {
    pub path: SandboxPath,
    pub kind: FsKind,
}

pub struct FsNodeV {
    pub path: Seq<Seq<char>>,
    pub kind: FsKindV,
}

impl View for FsNode {
    type V = FsNodeV;

    open spec fn view(&self) -> FsNodeV {
        FsNodeV { path: self.path@, kind: self.kind@ }
    }
}

impl DeepView for FsNode {
    type V = FsNodeV;

    open spec fn deep_view(&self) -> FsNodeV {
        self@
    }
}

/// The directory tree under the sandbox root.
pub struct FsModel {
    pub nodes: Vec<FsNode>,
}

impl View for FsModel {
    type V = Seq<FsNodeV>;

    open spec fn view(&self) -> Seq<FsNodeV> {
        self.nodes.deep_view()
    }
}

/// Index of the node at `p`, or -1 when there is none.
pub open spec fn path_index(ns: Seq<FsNodeV>, p: Seq<Seq<char>>) -> int
    decreases ns.len(),
{
    if ns.len() == 0 {
        -1
    } else if ns[0].path == p {
        0
    } else {
        let r = path_index(ns.skip(1), p);
        if r < 0 {
            -1
        } else {
            r + 1
        }
    }
}

pub proof fn lemma_path_index(ns: Seq<FsNodeV>, p: Seq<Seq<char>>)
    ensures
        path_index(ns, p) == -1 ==> forall|i: int| 0 <= i < ns.len() ==> ns[i].path != p,
        path_index(ns, p) >= 0 ==> path_index(ns, p) < ns.len() && ns[path_index(ns, p)].path
            == p && (forall|i: int| 0 <= i < path_index(ns, p) ==> ns[i].path != p),
    decreases ns.len(),
{
    if ns.len() > 0 && ns[0].path != p {
        lemma_path_index(ns.skip(1), p);
        assert forall|i: int| 0 <= i < ns.len() - 1 implies ns.skip(1)[i] == ns[i + 1] by {}
        let r = path_index(ns.skip(1), p);
        if r < 0 {
            assert forall|i: int| 0 <= i < ns.len() implies ns[i].path != p by {
                if i > 0 {
                    assert(ns.skip(1)[i - 1].path != p);
                }
            }
        } else {
            assert(ns[r + 1].path == p);
            assert forall|i: int| 0 <= i < r + 1 implies ns[i].path != p by {
                if i > 0 {
                    assert(ns.skip(1)[i - 1].path != p);
                }
            }
        }
    }
}

pub open spec fn has_path(ns: Seq<FsNodeV>, p: Seq<Seq<char>>) -> bool {
    path_index(ns, p) >= 0
}

pub open spec fn kind_at(ns: Seq<FsNodeV>, p: Seq<Seq<char>>) -> FsKindV
    recommends
        has_path(ns, p),
{
    ns[path_index(ns, p)].kind
}

/// The path exists in the tree; the root always does.
pub open spec fn exists_v(ns: Seq<FsNodeV>, p: Seq<Seq<char>>) -> bool {
    p.len() == 0 || has_path(ns, p)
}

/// The path is a directory; the root always is.
pub open spec fn is_dir_v(ns: Seq<FsNodeV>, p: Seq<Seq<char>>) -> bool {
    p.len() == 0 || (has_path(ns, p) && kind_at(ns, p) is Dir)
}

/// The path is a regular file.
pub open spec fn is_file_v(ns: Seq<FsNodeV>, p: Seq<Seq<char>>) -> bool {
    p.len() > 0 && has_path(ns, p) && kind_at(ns, p) is File
}

pub open spec fn file_content_v(ns: Seq<FsNodeV>, p: Seq<Seq<char>>) -> Seq<char>
    recommends
        is_file_v(ns, p),
{
    kind_at(ns, p)->File_content
}

pub open spec fn file_exec_v(ns: Seq<FsNodeV>, p: Seq<Seq<char>>) -> bool {
    is_file_v(ns, p) && kind_at(ns, p)->File_executable
}

/// Well-formed tree: component-wise well-formed non-root paths, no path twice.
pub open spec fn wf_nodes(ns: Seq<FsNodeV>) -> bool {
    &&& forall|i: int|
        0 <= i < ns.len() ==> wf_parts((#[trigger] ns[i]).path) && ns[i].path.len() > 0
    &&& forall|i: int, j: int| 0 <= i < j < ns.len() ==> ns[i].path != ns[j].path
}

impl FsModel {
    /// Well-formedness of the whole tree.
    pub open spec fn wf(&self) -> bool {
        wf_nodes(self@)
    }

    /// An empty tree: just the sandbox root.
    pub fn empty() -> (r: FsModel)
        ensures
            r@ == Seq::<FsNodeV>::empty(),
            r.wf(),
    {
        let r = FsModel { nodes: Vec::new() };
        proof {
            assert(r@ =~= Seq::<FsNodeV>::empty());
        }
        r
    }

    /// Index of the node at `p`, if any.
    fn find_node(&self, p: &SandboxPath) -> (r: Option<usize>)
        ensures
            match r {
                Some(i) => path_index(self@, p@) == i as int,
                None => path_index(self@, p@) == -1,
            },
    {
        proof {
            lemma_path_index(self@, p@);
        }
        let mut i: usize = 0;
        while i < self.nodes.len()
            invariant
                i <= self.nodes.len(),
                forall|k: int| 0 <= k < i ==> self@[k].path != p@,
            decreases self.nodes.len() - i,
        {
            if path_eq(&self.nodes[i].path, p) {
                proof {
                    lemma_path_index(self@, p@);
                    let pi = path_index(self@, p@);
                    if pi == -1 {
                        assert(self@[i as int].path != p@);
                    } else if pi < i as int {
                        assert(self@[pi].path != p@);
                    } else if pi > i as int {
                        assert(self@[i as int].path != p@);
                    }
                }
                return Some(i);
            }
            i += 1;
        }
        proof {
            lemma_path_index(self@, p@);
            let pi = path_index(self@, p@);
            if pi >= 0 {
                assert(self@[pi].path != p@);
            }
        }
        None
    }

    /// Whether the path exists in the tree.
    pub fn exists_path(&self, p: &SandboxPath) -> (r: bool)
        ensures
            r == exists_v(self@, p@),
    {
        if p.depth() == 0 {
            true
        } else {
            self.find_node(p).is_some()
        }
    }

    /// Whether the path is a directory.
    pub fn is_dir(&self, p: &SandboxPath) -> (r: bool)
        ensures
            r == is_dir_v(self@, p@),
    {
        if p.depth() == 0 {
            return true;
        }
        match self.find_node(p) {
            Some(i) => {
                proof {
                    lemma_path_index(self@, p@);
                }
                match &self.nodes[i].kind {
                    FsKind::Dir => true,
                    FsKind::File { .. } => false,
                }
            },
            None => false,
        }
    }

    /// Whether the path is a regular file.
    pub fn is_file(&self, p: &SandboxPath) -> (r: bool)
        ensures
            r == is_file_v(self@, p@),
    {
        if p.depth() == 0 {
            return false;
        }
        match self.find_node(p) {
            Some(i) => {
                proof {
                    lemma_path_index(self@, p@);
                }
                match &self.nodes[i].kind {
                    FsKind::Dir => false,
                    FsKind::File { .. } => true,
                }
            },
            None => false,
        }
    }

    /// The content of the file at `p`, when there is one.
    pub fn read_file(&self, p: &SandboxPath) -> (r: Option<String>)
        ensures
            match r {
                Some(c) => is_file_v(self@, p@) && c@ == file_content_v(self@, p@),
                None => !is_file_v(self@, p@),
            },
    {
        if p.depth() == 0 {
            return None;
        }
        match self.find_node(p) {
            Some(i) => {
                proof {
                    lemma_path_index(self@, p@);
                }
                match &self.nodes[i].kind {
                    FsKind::Dir => None,
                    FsKind::File { content, .. } => Some(content.clone()),
                }
            },
            None => None,
        }
    }
}

/// `q` lies strictly below the directory `p`, as its immediate child.
pub open spec fn is_child_of(q: Seq<Seq<char>>, p: Seq<Seq<char>>) -> bool {
    q.len() == p.len() + 1 && q.take(p.len() as int) == p
}

/// `q` is `p` itself or lies below it.
pub open spec fn is_under(q: Seq<Seq<char>>, p: Seq<Seq<char>>) -> bool {
    is_prefix_of(p, q)
}

/// `q` lies strictly below `p`.
pub open spec fn is_strictly_under(q: Seq<Seq<char>>, p: Seq<Seq<char>>) -> bool {
    q.len() > p.len() && q.take(p.len() as int) == p
}

/// What a directory listing shows of one node.
pub struct DirEntryV {
    pub name: Seq<char>,
    pub is_dir: bool,
    pub executable: bool,
}

/// One entry of a directory listing.
pub struct DirEntry {
    pub name: String,
    pub is_dir: bool,
    pub executable: bool,
}

impl View for DirEntry {
    type V = DirEntryV;

    open spec fn view(&self) -> DirEntryV {
        DirEntryV { name: self.name@, is_dir: self.is_dir, executable: self.executable }
    }
}

impl DeepView for DirEntry {
    type V = DirEntryV;

    open spec fn deep_view(&self) -> DirEntryV {
        self@
    }
}

pub open spec fn entry_of(n: FsNodeV) -> DirEntryV {
    DirEntryV {
        name: n.path.last(),
        is_dir: n.kind is Dir,
        executable: if n.kind is File {
            n.kind->File_executable
        } else {
            false
        },
    }
}

/// The listing of the directory `p`: one entry per immediate child, in the
/// order the nodes stand in the tree.
pub open spec fn children_of(ns: Seq<FsNodeV>, p: Seq<Seq<char>>) -> Seq<DirEntryV>
    decreases ns.len(),
{
    if ns.len() == 0 {
        Seq::empty()
    } else {
        children_of(ns.drop_last(), p) + (if is_child_of(ns.last().path, p) {
            seq![entry_of(ns.last())]
        } else {
            Seq::<DirEntryV>::empty()
        })
    }
}

/// The tree after creating every missing directory along `p` up to depth
/// `k`, and whether all of them could be created (a file in the way stops
/// the walk).
pub open spec fn add_dirs(ns: Seq<FsNodeV>, p: Seq<Seq<char>>, k: int) -> (Seq<FsNodeV>, bool)
    decreases p.len() + 1 - k,
{
    if k < 1 || k > p.len() {
        (ns, true)
    } else {
        let pre = p.take(k);
        if is_file_v(ns, pre) {
            (ns, false)
        } else if has_path(ns, pre) {
            add_dirs(ns, p, k + 1)
        } else {
            add_dirs(ns.push(FsNodeV { path: pre, kind: FsKindV::Dir }), p, k + 1)
        }
    }
}

/// The tree without every node at or below `p`.
pub open spec fn drop_under(ns: Seq<FsNodeV>, p: Seq<Seq<char>>) -> Seq<FsNodeV>
    decreases ns.len(),
{
    if ns.len() == 0 {
        Seq::empty()
    } else {
        drop_under(ns.drop_last(), p) + (if is_under(ns.last().path, p) {
            Seq::<FsNodeV>::empty()
        } else {
            seq![ns.last()]
        })
    }
}

pub open spec fn repath_node(n: FsNodeV, src: Seq<Seq<char>>, dst: Seq<Seq<char>>) -> FsNodeV {
    if is_under(n.path, src) {
        FsNodeV { path: dst + n.path.skip(src.len() as int), kind: n.kind }
    } else {
        n
    }
}

/// The tree after renaming `src` to `dst`: whatever stood at or below `dst`
/// is dropped, and the subtree at `src` is re-rooted at `dst`.
pub open spec fn rename_spec(
    ns: Seq<FsNodeV>,
    src: Seq<Seq<char>>,
    dst: Seq<Seq<char>>,
) -> Seq<FsNodeV> {
    let kept = drop_under(ns, dst);
    Seq::new(kept.len(), |i: int| repath_node(kept[i], src, dst))
}

/// The tree after writing `content` into the file at `p`, and whether the
/// write succeeded: a directory target or a file in the way of the parent
/// directories fails it; parents are created; an existing file is replaced,
/// keeping its executable bit.
pub open spec fn write_file_spec(ns: Seq<FsNodeV>, p: Seq<Seq<char>>, content: Seq<char>) -> (
    Seq<FsNodeV>,
    bool,
) {
    if p.len() == 0 || is_dir_v(ns, p) {
        (ns, false)
    } else {
        let (ns2, ok) = add_dirs(ns, p.drop_last(), 1);
        if !ok {
            (ns2, false)
        } else if has_path(ns2, p) && kind_at(ns2, p) is Dir {
            (ns2, false)
        } else if is_file_v(ns2, p) {
            let idx = path_index(ns2, p);
            let ex = ns2[idx].kind->File_executable;
            (
                ns2.remove(idx).push(
                    FsNodeV { path: p, kind: FsKindV::File { content, executable: ex } },
                ),
                true,
            )
        } else {
            (
                ns2.push(FsNodeV { path: p, kind: FsKindV::File { content, executable: false } }),
                true,
            )
        }
    }
}

proof fn lemma_wf_drop_last(ns: Seq<FsNodeV>)
    requires
        wf_nodes(ns),
        ns.len() > 0,
    ensures
        wf_nodes(ns.drop_last()),
{
    assert forall|i: int|
        0 <= i < ns.drop_last().len() implies wf_parts((#[trigger] ns.drop_last()[i]).path)
        && ns.drop_last()[i].path.len() > 0 by {
        assert(ns.drop_last()[i] == ns[i]);
    }
}

proof fn lemma_drop_under_props(ns: Seq<FsNodeV>, p: Seq<Seq<char>>)
    requires
        wf_nodes(ns),
    ensures
        wf_nodes(drop_under(ns, p)),
        forall|k: int|
            0 <= k < drop_under(ns, p).len() ==> !is_under(
                (#[trigger] drop_under(ns, p)[k]).path,
                p,
            ),
        forall|k: int|
            0 <= k < drop_under(ns, p).len() ==> ns.contains(#[trigger] drop_under(ns, p)[k]),
    decreases ns.len(),
{
    if ns.len() > 0 {
        lemma_wf_drop_last(ns);
        lemma_drop_under_props(ns.drop_last(), p);
        let dn = drop_under(ns, p);
        let pre = drop_under(ns.drop_last(), p);
        assert forall|k: int| 0 <= k < dn.len() implies ns.contains(#[trigger] dn[k]) by {
            if k < pre.len() {
                assert(dn[k] == pre[k]);
                let i = choose|i: int|
                    0 <= i < ns.drop_last().len() && ns.drop_last()[i] == pre[k];
                assert(ns[i] == pre[k]);
            } else {
                assert(dn[k] == ns.last());
                assert(ns[ns.len() - 1] == ns.last());
            }
        }
        assert forall|k: int| 0 <= k < dn.len() implies !is_under((#[trigger] dn[k]).path, p) by {
            if k < pre.len() {
                assert(dn[k] == pre[k]);
            } else {
                assert(dn[k] == ns.last());
            }
        }
        assert forall|i: int, j: int| 0 <= i < j < dn.len() implies dn[i].path != dn[j].path by {
            if j < pre.len() {
                assert(dn[i] == pre[i] && dn[j] == pre[j]);
            } else {
                assert(dn[j] == ns.last());
                assert(dn[i] == pre[i]);
                let t = choose|t: int|
                    0 <= t < ns.drop_last().len() && ns.drop_last()[t] == pre[i];
                assert(ns[t] == pre[i]);
                assert(ns[t].path != ns[ns.len() - 1].path);
            }
        }
        assert forall|k: int|
            0 <= k < dn.len() implies wf_parts((#[trigger] dn[k]).path) && dn[k].path.len()
            > 0 by {
            let t = choose|t: int| 0 <= t < ns.len() && ns[t] == dn[k];
            assert(wf_parts(ns[t].path));
        }
    }
}

proof fn lemma_wf_push(ns: Seq<FsNodeV>, n: FsNodeV)
    requires
        wf_nodes(ns),
        wf_parts(n.path),
        n.path.len() > 0,
        !has_path(ns, n.path),
    ensures
        wf_nodes(ns.push(n)),
{
    lemma_path_index(ns, n.path);
    let ns2 = ns.push(n);
    assert forall|i: int|
        0 <= i < ns2.len() implies wf_parts((#[trigger] ns2[i]).path) && ns2[i].path.len()
        > 0 by {
        if i < ns.len() {
            assert(ns2[i] == ns[i]);
        } else {
            assert(ns2[i] == n);
        }
    }
    assert forall|i: int, j: int| 0 <= i < j < ns2.len() implies ns2[i].path != ns2[j].path by {
        if j < ns.len() {
            assert(ns2[i] == ns[i] && ns2[j] == ns[j]);
        } else {
            assert(ns2[j] == n && ns2[i] == ns[i]);
            assert(ns[i].path != n.path);
        }
    }
}

proof fn lemma_wf_remove(ns: Seq<FsNodeV>, i: int)
    requires
        wf_nodes(ns),
        0 <= i < ns.len(),
    ensures
        wf_nodes(ns.remove(i)),
        forall|k: int|
            0 <= k < ns.remove(i).len() ==> (#[trigger] ns.remove(i)[k]) == (if k < i {
                ns[k]
            } else {
                ns[k + 1]
            }),
{
    let rn = ns.remove(i);
    assert forall|k: int| 0 <= k < rn.len() implies (#[trigger] rn[k]) == (if k < i {
        ns[k]
    } else {
        ns[k + 1]
    }) by {}
    assert forall|a: int, b: int| 0 <= a < b < rn.len() implies rn[a].path != rn[b].path by {
        let ra = if a < i {
            a
        } else {
            a + 1
        };
        let rb = if b < i {
            b
        } else {
            b + 1
        };
        assert(rn[a] == ns[ra] && rn[b] == ns[rb]);
        assert(ns[ra].path != ns[rb].path);
    }
    assert forall|k: int|
        0 <= k < rn.len() implies wf_parts((#[trigger] rn[k]).path) && rn[k].path.len() > 0 by {
        let rk = if k < i {
            k
        } else {
            k + 1
        };
        assert(rn[k] == ns[rk]);
    }
}

/// Some node lies strictly below `p`: the directory is not empty.
pub open spec fn has_descendant_v(ns: Seq<FsNodeV>, p: Seq<Seq<char>>) -> bool {
    exists|i: int| 0 <= i < ns.len() && is_strictly_under((#[trigger] ns[i]).path, p)
}

fn clone_kind(k: &FsKind) -> (r: FsKind)
    ensures
        r@ == k@,
{
    match k {
        FsKind::Dir => FsKind::Dir,
        FsKind::File { content, executable } => FsKind::File {
            content: content.clone(),
            executable: *executable,
        },
    }
}

fn clone_node(n: &FsNode) -> (r: FsNode)
    ensures
        r@ == n@,
{
    FsNode { path: n.path.clone_path(), kind: clone_kind(&n.kind) }
}

impl FsModel {
    /// The listing of the directory `p`, in tree order.
    #[verifier::loop_isolation(false)]
    pub fn children(&self, p: &SandboxPath) -> (r: Vec<DirEntry>)
        ensures
            r.deep_view() == children_of(self@, p@),
    {
        let mut out: Vec<DirEntry> = Vec::new();
        let mut i: usize = 0;
        proof {
            assert(self@.take(0) =~= Seq::<FsNodeV>::empty());
            assert(out.deep_view() =~= children_of(self@.take(0), p@));
        }
        while i < self.nodes.len()
            invariant
                i <= self.nodes.len(),
                out.deep_view() == children_of(self@.take(i as int), p@),
            decreases self.nodes.len() - i,
        {
            let ghost pre = out.deep_view();
            let node = &self.nodes[i];
            if node.path.depth() > p.depth() && node.path.depth() - 1 == p.depth()
                && node.path.starts_with(p) {
                let name = node.path.parts[node.path.parts.len() - 1].clone();
                let entry = match &node.kind {
                    FsKind::Dir => DirEntry { name, is_dir: true, executable: false },
                    FsKind::File { executable, .. } => DirEntry {
                        name,
                        is_dir: false,
                        executable: *executable,
                    },
                };
                proof {
                    assert(node.path@.last() == node.path@[node.path@.len() - 1]);
                    assert(entry@ == entry_of(self@[i as int]));
                }
                out.push(entry);
                proof {
                    assert(out.deep_view() =~= pre + seq![entry_of(self@[i as int])]);
                }
            } else {
                proof {
                    assert(!is_child_of(self@[i as int].path, p@));
                    assert(pre + Seq::<DirEntryV>::empty() =~= pre);
                }
            }
            proof {
                assert(self@.take(i + 1).drop_last() =~= self@.take(i as int));
                assert(self@.take(i + 1).last() == self@[i as int]);
            }
            i += 1;
        }
        proof {
            assert(self@.take(self.nodes.len() as int) =~= self@);
        }
        out
    }

    /// Whether anything lies strictly below `p`.
    #[verifier::loop_isolation(false)]
    pub fn has_descendant(&self, p: &SandboxPath) -> (r: bool)
        ensures
            r == has_descendant_v(self@, p@),
    {
        let mut i: usize = 0;
        while i < self.nodes.len()
            invariant
                i <= self.nodes.len(),
                forall|k: int| 0 <= k < i ==> !is_strictly_under((#[trigger] self@[k]).path, p@),
            decreases self.nodes.len() - i,
        {
            let node = &self.nodes[i];
            if node.path.depth() > p.depth() && node.path.starts_with(p) {
                proof {
                    assert(is_strictly_under(self@[i as int].path, p@));
                }
                return true;
            }
            i += 1;
        }
        false
    }

    /// Creates every missing directory along `p`; fails when a file stands
    /// in the way, leaving the directories made up to that point.
    #[verifier::loop_isolation(false)]
    pub fn create_dir_all(&mut self, p: &SandboxPath) -> (ok: bool)
        requires
            old(self).wf(),
            p.wf(),
        ensures
            final(self).wf(),
            (final(self)@, ok) == add_dirs(old(self)@, p@, 1),
    {
        let mut pre = SandboxPath::root();
        let mut idx: usize = 0;
        while idx < p.depth()
            invariant
                0 <= idx <= p@.len(),
                pre@ == p@.take(idx as int),
                self.wf(),
                add_dirs(old(self)@, p@, 1) == add_dirs(self@, p@, idx + 1),
            decreases p@.len() - idx,
        {
            let ghost k: int = idx + 1;
            pre.parts.push(p.parts[idx].clone());
            proof {
                assert(pre@ =~= p@.take(k as int));
            }
            let ghost cur = self@;
            if self.is_file(&pre) {
                return false;
            }
            if !self.exists_path(&pre) {
                let node = FsNode { path: pre.clone_path(), kind: FsKind::Dir };
                proof {
                    assert(node@ == FsNodeV { path: p@.take(k as int), kind: FsKindV::Dir });
                    assert(wf_parts(pre@)) by {
                        assert forall|t: int| 0 <= t < pre@.len() implies wf_parts(p@)
                            && crate::path::wf_component(#[trigger] pre@[t]) by {
                            assert(pre@[t] == p@[t]);
                        }
                    }
                    lemma_wf_push(cur, node@);
                }
                self.nodes.push(node);
                proof {
                    assert(self@ =~= cur.push(
                        FsNodeV { path: p@.take(k as int), kind: FsKindV::Dir },
                    ));
                }
            }
            idx += 1;
        }
        true
    }

    /// Removes the node at `p` from the tree.
    pub fn remove_node(&mut self, p: &SandboxPath)
        requires
            old(self).wf(),
            has_path(old(self)@, p@),
        ensures
            final(self).wf(),
            final(self)@ == old(self)@.remove(path_index(old(self)@, p@)),
    {
        proof {
            lemma_path_index(old(self)@, p@);
        }
        match self.find_node(p) {
            Some(i) => {
                let ghost cur = self@;
                let _ = self.nodes.remove(i);
                proof {
                    assert(self@ =~= cur.remove(i as int));
                    lemma_wf_remove(cur, i as int);
                }
            },
            None => {
                proof {
                    assert(false);
                }
            },
        }
    }

    /// Renames `src` to `dst`: drops whatever stands at or below `dst` and
    /// re-roots the subtree at `src` onto `dst`.
    #[verifier::loop_isolation(false)]
    pub fn rename(&mut self, src: &SandboxPath, dst: &SandboxPath)
        requires
            old(self).wf(),
            src.wf(),
            dst.wf(),
            src@.len() > 0,
            dst@.len() > 0,
        ensures
            final(self).wf(),
            final(self)@ == rename_spec(old(self)@, src@, dst@),
    {
        let ghost oldv = self@;
        let mut kept: Vec<FsNode> = Vec::new();
        let mut i: usize = 0;
        proof {
            assert(oldv.take(0) =~= Seq::<FsNodeV>::empty());
            assert(kept.deep_view() =~= rename_spec(oldv.take(0), src@, dst@));
        }
        while i < self.nodes.len()
            invariant
                i <= self.nodes.len(),
                self@ == oldv,
                kept.deep_view() == rename_spec(oldv.take(i as int), src@, dst@),
            decreases self.nodes.len() - i,
        {
            let ghost pre = kept.deep_view();
            let ghost nv = oldv[i as int];
            let node = &self.nodes[i];
            if !node.path.starts_with(dst) {
                if node.path.starts_with(src) {
                    let mut parts = clone_string_vec(&dst.parts);
                    let mut j: usize = src.parts.len();
                    proof {
                        assert(parts.deep_view() =~= dst@ + nv.path.subrange(
                            src@.len() as int,
                            j as int,
                        ));
                    }
                    while j < node.path.parts.len()
                        invariant
                            src.parts.len() <= j <= node.path.parts.len(),
                            parts.deep_view() == dst@ + nv.path.subrange(
                                src@.len() as int,
                                j as int,
                            ),
                            node.path@ == nv.path,
                        decreases node.path.parts.len() - j,
                    {
                        let ghost pp = parts.deep_view();
                        parts.push(node.path.parts[j].clone());
                        proof {
                            assert(parts.deep_view() =~= pp.push(nv.path[j as int]));
                            assert(pp.push(nv.path[j as int]) =~= dst@ + nv.path.subrange(
                                src@.len() as int,
                                j + 1,
                            ));
                        }
                        j += 1;
                    }
                    proof {
                        assert(nv.path.subrange(src@.len() as int, nv.path.len() as int)
                            =~= nv.path.skip(src@.len() as int));
                    }
                    let new_node = FsNode {
                        path: SandboxPath { parts },
                        kind: clone_kind(&node.kind),
                    };
                    proof {
                        assert(new_node@ == repath_node(nv, src@, dst@));
                    }
                    kept.push(new_node);
                    proof {
                        assert(kept.deep_view() =~= pre.push(repath_node(nv, src@, dst@)));
                    }
                } else {
                    let copy = clone_node(node);
                    proof {
                        assert(copy@ == repath_node(nv, src@, dst@));
                    }
                    kept.push(copy);
                    proof {
                        assert(kept.deep_view() =~= pre.push(repath_node(nv, src@, dst@)));
                    }
                }
                proof {
                    assert(oldv.take(i + 1).drop_last() =~= oldv.take(i as int));
                    assert(oldv.take(i + 1).last() == nv);
                    assert(drop_under(oldv.take(i + 1), dst@) =~= drop_under(
                        oldv.take(i as int),
                        dst@,
                    ) + seq![nv]);
                    assert(kept.deep_view() =~= rename_spec(oldv.take(i + 1), src@, dst@));
                }
            } else {
                proof {
                    assert(oldv.take(i + 1).drop_last() =~= oldv.take(i as int));
                    assert(oldv.take(i + 1).last() == nv);
                    assert(drop_under(oldv.take(i + 1), dst@) =~= drop_under(
                        oldv.take(i as int),
                        dst@,
                    ));
                    assert(kept.deep_view() =~= rename_spec(oldv.take(i + 1), src@, dst@));
                }
            }
            i += 1;
        }
        proof {
            assert(oldv.take(self.nodes.len() as int) =~= oldv);
        }
        self.nodes = kept;
        proof {
            lemma_rename_wf(oldv, src@, dst@);
        }
    }

    /// Writes `content` into the file at `p`, creating parent directories,
    /// replacing an existing file and keeping its executable bit.  Fails on
    /// a directory target or a file in the way of a parent directory.
    #[verifier::loop_isolation(false)]
    pub fn write_file(&mut self, p: &SandboxPath, content: String) -> (ok: bool)
        requires
            old(self).wf(),
            p.wf(),
        ensures
            final(self).wf(),
            (final(self)@, ok) == write_file_spec(old(self)@, p@, content@),
    {
        if p.depth() == 0 {
            return false;
        }
        if self.is_dir(p) {
            return false;
        }
        let mut parent_parts = clone_string_vec(&p.parts);
        let _ = parent_parts.pop();
        let parent = SandboxPath { parts: parent_parts };
        proof {
            assert(parent@ =~= p@.drop_last());
            assert(wf_parts(parent@)) by {
                assert forall|t: int| 0 <= t < parent@.len() implies crate::path::wf_component(
                    #[trigger] parent@[t],
                ) by {
                    assert(parent@[t] == p@[t]);
                }
            }
        }
        if !self.create_dir_all(&parent) {
            return false;
        }
        let ghost ns2 = self@;
        match self.find_node(p) {
            Some(idx) => {
                proof {
                    lemma_path_index(ns2, p@);
                }
                match &self.nodes[idx].kind {
                    FsKind::Dir => false,
                    FsKind::File { executable, .. } => {
                        let ex = *executable;
                        let _ = self.nodes.remove(idx);
                        let node = FsNode {
                            path: p.clone_path(),
                            kind: FsKind::File { content, executable: ex },
                        };
                        let ghost nodev = node@;
                        proof {
                            assert(self@ =~= ns2.remove(idx as int));
                            lemma_wf_remove(ns2, idx as int);
                            assert(!has_path(self@, p@)) by {
                                lemma_path_index(self@, p@);
                                let pi = path_index(self@, p@);
                                if pi >= 0 {
                                    let ri = if pi < idx as int {
                                        pi
                                    } else {
                                        pi + 1
                                    };
                                    assert(self@[pi] == ns2[ri]);
                                    assert(ns2[ri].path == ns2[idx as int].path);
                                }
                            }
                            lemma_wf_push(self@, nodev);
                        }
                        let ghost removed = self@;
                        self.nodes.push(node);
                        proof {
                            assert(self@ =~= removed.push(nodev));
                        }
                        true
                    },
                }
            },
            None => {
                proof {
                    lemma_path_index(ns2, p@);
                }
                let node = FsNode {
                    path: p.clone_path(),
                    kind: FsKind::File { content, executable: false },
                };
                let ghost nodev = node@;
                proof {
                    lemma_wf_push(ns2, nodev);
                }
                self.nodes.push(node);
                proof {
                    assert(self@ =~= ns2.push(nodev));
                }
                true
            },
        }
    }
}

proof fn lemma_rename_wf(ns: Seq<FsNodeV>, src: Seq<Seq<char>>, dst: Seq<Seq<char>>)
    requires
        wf_nodes(ns),
        wf_parts(src),
        wf_parts(dst),
        src.len() > 0,
        dst.len() > 0,
    ensures
        wf_nodes(rename_spec(ns, src, dst)),
{
    lemma_drop_under_props(ns, dst);
    let kept = drop_under(ns, dst);
    let rn = rename_spec(ns, src, dst);
    assert forall|k: int|
        0 <= k < rn.len() implies wf_parts((#[trigger] rn[k]).path) && rn[k].path.len() > 0 by {
        assert(rn[k] == repath_node(kept[k], src, dst));
        assert(wf_parts(kept[k].path) && kept[k].path.len() > 0);
        if is_under(kept[k].path, src) {
            let np = dst + kept[k].path.skip(src.len() as int);
            assert forall|t: int| 0 <= t < np.len() implies crate::path::wf_component(
                #[trigger] np[t],
            ) by {
                if t < dst.len() {
                    assert(np[t] == dst[t]);
                } else {
                    assert(np[t] == kept[k].path[src.len() + t - dst.len()]);
                }
            }
        }
    }
    assert forall|a: int, b: int| 0 <= a < b < rn.len() implies rn[a].path != rn[b].path by {
        let pa = kept[a].path;
        let pb = kept[b].path;
        assert(pa != pb);
        assert(rn[a] == repath_node(kept[a], src, dst));
        assert(rn[b] == repath_node(kept[b], src, dst));
        assert(!is_under(pa, dst) && !is_under(pb, dst));
        if is_under(pa, src) && is_under(pb, src) {
            if rn[a].path == rn[b].path {
                let sa = pa.skip(src.len() as int);
                let sb = pb.skip(src.len() as int);
                assert(sa =~= (dst + sa).skip(dst.len() as int));
                assert(sb =~= (dst + sb).skip(dst.len() as int));
                assert(sa == sb);
                assert(pa =~= src + sa) by {
                    assert(pa.take(src.len() as int) == src);
                }
                assert(pb =~= src + sb) by {
                    assert(pb.take(src.len() as int) == src);
                }
            }
        } else if is_under(pa, src) {
            if rn[a].path == rn[b].path {
                assert(rn[a].path.take(dst.len() as int) =~= dst);
                assert(is_under(pb, dst));
            }
        } else if is_under(pb, src) {
            if rn[a].path == rn[b].path {
                assert(rn[b].path.take(dst.len() as int) =~= dst);
                assert(is_under(pa, dst));
            }
        }
    }
}

/// Equality of two sandbox paths, component by component.
pub fn path_eq(a: &SandboxPath, b: &SandboxPath) -> (r: bool)
    ensures
        r == (a@ == b@),
{
    if a.parts.len() != b.parts.len() {
        proof {
            if a@ == b@ {
                assert(a@.len() == b@.len());
            }
        }
        return false;
    }
    let mut i: usize = 0;
    while i < a.parts.len()
        invariant
            i <= a.parts.len(),
            a.parts.len() == b.parts.len(),
            forall|t: int| 0 <= t < i ==> a@[t] == b@[t],
        decreases a.parts.len() - i,
    {
        if !string_eq(&a.parts[i], b.parts[i].as_str()) {
            proof {
                assert(a@[i as int] == a.parts@[i as int]@);
                assert(b@[i as int] == b.parts@[i as int]@);
            }
            return false;
        }
        i += 1;
    }
    proof {
        assert(a@ =~= b@);
    }
    true
}

/// Whether the path is a file with its executable bit set.  This is what the
/// local-executable handler consults before running `./name`.
pub fn is_executable(fs: &FsModel, path: &SandboxPath) -> (r: bool)
    ensures
        r == file_exec_v(fs@, path@),
{
    if path.depth() == 0 {
        return false;
    }
    match fs.find_node(path) {
        Some(i) => {
            proof {
                lemma_path_index(fs@, path@);
            }
            match &fs.nodes[i].kind {
                FsKind::Dir => false,
                FsKind::File { executable, .. } => *executable,
            }
        },
        None => false,
    }
}

} // verus!
