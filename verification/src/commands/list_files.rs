//! The `ls` built-in: lists directories, coloring directories blue and
//! executables green; paths outside the sandbox are silently dropped.

use vstd::prelude::*;

verus! {

use crate::fs_model::{children_of, exists_v, is_dir_v, is_file_v, DirEntry, DirEntryV, FsModel, FsNodeV};
use crate::format::wrap_section;
use crate::lexer::Command;
use crate::path::{is_prefix_of, join_path, join_spec, SandboxPath};
use crate::strutil::{concat3, join_with};
use vstd::string::StrSliceExecFns;
use vstd::string::StringExecFns;

/// How one directory entry renders: directories blue, executables green,
/// plain files bare, each closed by the splitter.
pub open spec fn entry_render(e: DirEntryV) -> Seq<char> {
    if e.is_dir {
        "^!"@ + e.name + "\n\n"@
    } else if e.executable {
        "^#"@ + e.name + "\n\n"@
    } else {
        e.name + "\n\n"@
    }
}

pub open spec fn entries_render(es: Seq<DirEntryV>) -> Seq<char>
    decreases es.len(),
{
    if es.len() == 0 {
        Seq::empty()
    } else {
        entries_render(es.drop_last()) + entry_render(es.last())
    }
}

/// What `ls` without arguments emits: a List section of the working
/// directory's entries.
pub open spec fn ls_current_spec(ns: Seq<FsNodeV>, cur: Seq<Seq<char>>) -> Seq<char> {
    "?&L"@ + "\n\n"@ + entries_render(children_of(ns, cur))
}

/// The argument paths that stay: resolvable without leaving the sandbox,
/// and at or below the working directory.  A path above the working
/// directory — the sandbox root from a subdirectory included — is dropped
/// without an entry: named listings show only what lies below where the
/// session stands.
pub open spec fn ls_kept_paths(cur: Seq<Seq<char>>, rest: Seq<Seq<char>>) -> Seq<Seq<Seq<char>>>
    decreases rest.len(),
{
    if rest.len() == 0 {
        Seq::empty()
    } else {
        ls_kept_paths(cur, rest.drop_last()) + (match join_spec(cur, rest.last()) {
            Some(p) => if is_prefix_of(cur, p) {
                seq![p]
            } else {
                Seq::<Seq<Seq<char>>>::empty()
            },
            None => Seq::<Seq<Seq<char>>>::empty(),
        })
    }
}

/// The error sections for kept paths that are missing or are files.
pub open spec fn ls_errors(
    ns: Seq<FsNodeV>,
    cur: Seq<Seq<char>>,
    paths: Seq<Seq<Seq<char>>>,
) -> Seq<char>
    decreases paths.len(),
{
    if paths.len() == 0 {
        Seq::empty()
    } else {
        let p = paths.last();
        ls_errors(ns, cur, paths.drop_last()) + (if !exists_v(ns, p) || is_file_v(ns, p) {
            "?&E"@ + "ls: cannot access '"@ + join_with(p.skip(cur.len() as int), "/"@)
                + "': No such file or directory\n"@ + "\n\n"@
        } else {
            Seq::<char>::empty()
        })
    }
}

/// The List sections of the kept paths that are directories, and whether
/// any entry was listed at all.
pub open spec fn ls_listings(ns: Seq<FsNodeV>, paths: Seq<Seq<Seq<char>>>) -> (Seq<char>, bool)
    decreases paths.len(),
{
    if paths.len() == 0 {
        (Seq::<char>::empty(), false)
    } else {
        let (acc, st) = ls_listings(ns, paths.drop_last());
        let p = paths.last();
        if is_dir_v(ns, p) {
            let es = children_of(ns, p);
            (acc + "?&L"@ + "\n\n"@ + entries_render(es), st || es.len() > 0)
        } else {
            (acc, st)
        }
    }
}

/// What `ls` with arguments emits: error sections first, then one List
/// section per named directory; succeeds when some entry was listed.
pub open spec fn ls_named_spec(ns: Seq<FsNodeV>, cur: Seq<Seq<char>>, args: Seq<Seq<char>>) -> (
    Seq<char>,
    bool,
) {
    let paths = ls_kept_paths(cur, args.skip(1));
    let (listings, st) = ls_listings(ns, paths);
    (ls_errors(ns, cur, paths) + listings, st)
}

pub open spec fn ls_spec(ns: Seq<FsNodeV>, cur: Seq<Seq<char>>, args: Seq<Seq<char>>) -> (
    Seq<char>,
    bool,
) {
    if args.len() == 1 {
        (ls_current_spec(ns, cur), true)
    } else {
        ls_named_spec(ns, cur, args)
    }
}

pub struct ListFiles {
    pub current_dir: SandboxPath,
    pub command: Command,
}

fn render_entry(e: &DirEntry) -> (r: String)
    ensures
        r@ == entry_render(e@),
{
    if e.is_dir {
        concat3("^!", e.name.as_str(), "\n\n")
    } else if e.executable {
        concat3("^#", e.name.as_str(), "\n\n")
    } else {
        let r = crate::strutil::concat2(e.name.as_str(), "\n\n");
        r
    }
}

impl ListFiles {
    pub fn new(path: SandboxPath, cmd: Command) -> (r: ListFiles)
        ensures
            r.command@ == cmd@,
            r.current_dir@ == path@,
    {
        ListFiles { current_dir: path, command: cmd }
    }

    /// Lists the working directory itself.
    #[verifier::loop_isolation(false)]
    pub fn get_files_current_dir(&self, fs: &FsModel) -> (r: (String, bool))
        ensures
            r.0@ == ls_current_spec(fs@, self.current_dir@),
            r.1 == true,
    {
        let entries = fs.children(&self.current_dir);
        let ghost ev = entries.deep_view();
        let mut body = String::new();
        let mut i: usize = 0;
        proof {
            assert(ev.take(0) =~= Seq::<DirEntryV>::empty());
            assert(body@ =~= entries_render(ev.take(0)));
        }
        while i < entries.len()
            invariant
                i <= entries.len(),
                body@ == entries_render(ev.take(i as int)),
            decreases entries.len() - i,
        {
            proof {
                assert(ev.take(i + 1).drop_last() =~= ev.take(i as int));
                assert(ev.take(i + 1).last() == ev[i as int]);
            }
            let piece = render_entry(&entries[i]);
            body.append(piece.as_str());
            i += 1;
        }
        proof {
            assert(ev.take(entries.len() as int) =~= ev);
        }
        let head = crate::strutil::concat2("?&L", "\n\n");
        let out = crate::strutil::concat2(head.as_str(), body.as_str());
        proof {
            assert(out@ =~= "?&L"@ + "\n\n"@ + entries_render(ev));
        }
        (out, true)
    }

    /// Lists each named directory, dropping paths that leave the sandbox or
    /// sit above the working directory.
    #[verifier::loop_isolation(false)]
    pub fn get_files_in_dir_name(&self, fs: &FsModel) -> (r: (String, bool))
        requires
            self.command@.args.len() >= 2,
            self.current_dir.wf(),
        ensures
            r.0@ == ls_named_spec(fs@, self.current_dir@, self.command@.args).0,
            r.1 == ls_named_spec(fs@, self.current_dir@, self.command@.args).1,
    {
        let ghost rest = self.command@.args.skip(1);
        let mut paths: Vec<SandboxPath> = Vec::new();
        let mut i: usize = 1;
        proof {
            assert(rest.take(0) =~= Seq::<Seq<char>>::empty());
            assert(paths.deep_view() =~= ls_kept_paths(self.current_dir@, rest.take(0)));
        }
        while i < self.command.cmd.len()
            invariant
                1 <= i <= self.command.cmd.len(),
                paths.deep_view() == ls_kept_paths(self.current_dir@, rest.take(i - 1)),
            decreases self.command.cmd.len() - i,
        {
            proof {
                assert(rest.take(i as int).drop_last() =~= rest.take(i - 1));
                assert(rest.take(i as int).last() == self.command@.args[i as int]);
            }
            let ghost pre = paths.deep_view();
            match join_path(&self.current_dir, self.command.cmd[i].as_str()) {
                Some(p) => {
                    if p.starts_with(&self.current_dir) {
                        paths.push(p);
                        proof {
                            assert(paths.deep_view() =~= pre + seq![
                                ls_kept_paths(self.current_dir@, rest.take(i as int)).last(),
                            ]);
                        }
                    } else {
                        proof {
                            assert(pre + Seq::<Seq<Seq<char>>>::empty() =~= pre);
                        }
                    }
                },
                None => {
                    proof {
                        assert(pre + Seq::<Seq<Seq<char>>>::empty() =~= pre);
                    }
                },
            }
            i += 1;
        }
        proof {
            assert(rest.take(self.command.cmd.len() - 1) =~= rest);
        }
        let ghost pv = paths.deep_view();
        // First pass: error sections for missing or file targets.
        let mut output = String::new();
        let mut j: usize = 0;
        proof {
            assert(pv.take(0) =~= Seq::<Seq<Seq<char>>>::empty());
            assert(output@ =~= ls_errors(fs@, self.current_dir@, pv.take(0)));
        }
        while j < paths.len()
            invariant
                j <= paths.len(),
                pv == paths.deep_view(),
                output@ == ls_errors(fs@, self.current_dir@, pv.take(j as int)),
            decreases paths.len() - j,
        {
            proof {
                assert(pv.take(j + 1).drop_last() =~= pv.take(j as int));
                assert(pv.take(j + 1).last() == pv[j as int]);
            }
            let ghost pre = output@;
            let p = &paths[j];
            if !fs.exists_path(p) || fs.is_file(p) {
                let mut rel_parts: Vec<String> = Vec::new();
                let mut t: usize = self.current_dir.parts.len();
                proof {
                    assert(is_prefix_of(self.current_dir@, pv[j as int])) by {
                        lemma_kept_paths_prefix(self.current_dir@, rest, pv);
                    }
                    assert(rel_parts.deep_view() =~= pv[j as int].subrange(
                        self.current_dir@.len() as int,
                        t as int,
                    ));
                }
                while t < p.parts.len()
                    invariant
                        self.current_dir@.len() <= t <= p.parts.len(),
                        p@ == pv[j as int],
                        rel_parts.deep_view() == pv[j as int].subrange(
                            self.current_dir@.len() as int,
                            t as int,
                        ),
                    decreases p.parts.len() - t,
                {
                    let ghost rp = rel_parts.deep_view();
                    rel_parts.push(p.parts[t].clone());
                    proof {
                        assert(rel_parts.deep_view() =~= rp.push(pv[j as int][t as int]));
                        assert(rp.push(pv[j as int][t as int]) =~= pv[j as int].subrange(
                            self.current_dir@.len() as int,
                            t + 1,
                        ));
                    }
                    t += 1;
                }
                proof {
                    assert(pv[j as int].subrange(
                        self.current_dir@.len() as int,
                        p.parts.len() as int,
                    ) =~= pv[j as int].skip(self.current_dir@.len() as int));
                }
                let rel = crate::strutil::join_strings(&rel_parts, "/");
                let mid = concat3("?&E", "ls: cannot access '", rel.as_str());
                let tail = crate::strutil::concat2(
                    "': No such file or directory\n",
                    "\n\n",
                );
                output.append(mid.as_str());
                output.append(tail.as_str());
                proof {
                    assert(output@ =~= pre + ("?&E"@ + "ls: cannot access '"@ + rel@
                        + "': No such file or directory\n"@ + "\n\n"@));
                }
            } else {
                proof {
                    assert(pre + Seq::<char>::empty() =~= pre);
                }
            }
            j += 1;
        }
        proof {
            assert(pv.take(paths.len() as int) =~= pv);
        }
        // Second pass: one List section per directory.
        let mut succes = false;
        let mut k: usize = 0;
        let ghost errs = output@;
        proof {
            assert(pv.take(0) =~= Seq::<Seq<Seq<char>>>::empty());
            assert((Seq::<char>::empty(), false) == ls_listings(fs@, pv.take(0)));
            assert(errs + Seq::<char>::empty() =~= errs);
        }
        while k < paths.len()
            invariant
                k <= paths.len(),
                pv == paths.deep_view(),
                output@ == errs + ls_listings(fs@, pv.take(k as int)).0,
                succes == ls_listings(fs@, pv.take(k as int)).1,
            decreases paths.len() - k,
        {
            proof {
                assert(pv.take(k + 1).drop_last() =~= pv.take(k as int));
                assert(pv.take(k + 1).last() == pv[k as int]);
            }
            let ghost pre = output@;
            let p = &paths[k];
            if fs.is_dir(p) {
                let entries = fs.children(p);
                let ghost ev = entries.deep_view();
                let mut body = String::new();
                let mut e: usize = 0;
                proof {
                    assert(ev.take(0) =~= Seq::<DirEntryV>::empty());
                    assert(body@ =~= entries_render(ev.take(0)));
                }
                while e < entries.len()
                    invariant
                        e <= entries.len(),
                        ev == entries.deep_view(),
                        body@ == entries_render(ev.take(e as int)),
                    decreases entries.len() - e,
                {
                    proof {
                        assert(ev.take(e + 1).drop_last() =~= ev.take(e as int));
                        assert(ev.take(e + 1).last() == ev[e as int]);
                    }
                    let piece = render_entry(&entries[e]);
                    body.append(piece.as_str());
                    e += 1;
                }
                if entries.len() > 0 {
                    succes = true;
                }
                proof {
                    assert(ev.take(entries.len() as int) =~= ev);
                }
                let head = crate::strutil::concat2("?&L", "\n\n");
                output.append(head.as_str());
                output.append(body.as_str());
                proof {
                    assert(output@ =~= pre + "?&L"@ + "\n\n"@ + entries_render(ev));
                    assert(pre + "?&L"@ + "\n\n"@ + entries_render(ev) =~= errs + (
                    ls_listings(fs@, pv.take(k as int)).0 + "?&L"@ + "\n\n"@
                        + entries_render(ev)));
                }
            }
            k += 1;
        }
        proof {
            assert(pv.take(paths.len() as int) =~= pv);
        }
        (output, succes)
    }

    pub fn get_output(&self, fs: &FsModel) -> (r: (String, bool))
        requires
            self.command@.args.len() >= 1,
            self.current_dir.wf(),
        ensures
            r.0@ == ls_spec(fs@, self.current_dir@, self.command@.args).0,
            r.1 == ls_spec(fs@, self.current_dir@, self.command@.args).1,
    {
        if self.command.cmd.len() == 1 {
            self.get_files_current_dir(fs)
        } else {
            self.get_files_in_dir_name(fs)
        }
    }
}

/// Every kept path has the working directory as a prefix.
proof fn lemma_kept_paths_prefix(cur: Seq<Seq<char>>, rest: Seq<Seq<char>>, pv: Seq<Seq<Seq<char>>>)
    requires
        pv == ls_kept_paths(cur, rest),
    ensures
        forall|k: int| 0 <= k < pv.len() ==> is_prefix_of(cur, #[trigger] pv[k]),
    decreases rest.len(),
{
    if rest.len() > 0 {
        lemma_kept_paths_prefix(cur, rest.drop_last(), ls_kept_paths(cur, rest.drop_last()));
        let pre = ls_kept_paths(cur, rest.drop_last());
        assert forall|k: int| 0 <= k < pv.len() implies is_prefix_of(cur, #[trigger] pv[k]) by {
            if k < pre.len() {
                assert(pv[k] == pre[k]);
            } else {
                match join_spec(cur, rest.last()) {
                    Some(p) => {
                        assert(pv[k] == p);
                    },
                    None => {},
                }
            }
        }
    }
}

} // verus!
