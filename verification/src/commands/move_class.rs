//! The `mv` built-in: renames files and directories inside the sandbox,
//! creating the destination's parent directories.

use vstd::prelude::*;

verus! {

use crate::fs_model::{add_dirs, exists_v, is_under, rename_spec, FsModel, FsNodeV};
use crate::format::wrap_section;
use crate::lexer::Command;
use crate::path::{join_path, join_spec, wf_parts, SandboxPath};
use crate::strutil::{append_line, concat3, join_line};
use vstd::string::StrSliceExecFns;

/// What renaming one source onto the destination `d` does: an error line
/// for a missing source or for a source that is the root or overlaps the
/// destination; otherwise the subtree moves onto `d`.
pub open spec fn mv_step(
    ns: Seq<FsNodeV>,
    cur: Seq<Seq<char>>,
    arg: Seq<char>,
    d: Seq<Seq<char>>,
) -> (Seq<FsNodeV>, Seq<char>, bool) {
    match join_spec(cur, arg) {
        None => (ns, "mv: cannot stat '"@ + arg + "': No such file or directory "@, false),
        Some(s) => {
            if !exists_v(ns, s) {
                (ns, "mv: cannot stat '"@ + arg + "': No such file or directory "@, false)
            } else if s.len() == 0 || is_under(s, d) || is_under(d, s) {
                (ns, "Unexpected Error"@, false)
            } else {
                (rename_spec(ns, s, d), Seq::<char>::empty(), true)
            }
        },
    }
}

pub open spec fn mv_body(
    ns: Seq<FsNodeV>,
    cur: Seq<Seq<char>>,
    rest: Seq<Seq<char>>,
    d: Seq<Seq<char>>,
) -> (Seq<FsNodeV>, Seq<char>, bool)
    decreases rest.len(),
{
    if rest.len() == 0 {
        (ns, Seq::<char>::empty(), true)
    } else {
        let (ns1, acc, st) = mv_body(ns, cur, rest.drop_last(), d);
        let (ns2, line, ok) = mv_step(ns1, cur, rest.last(), d);
        (
            ns2,
            if line.len() == 0 {
                acc
            } else {
                join_line(acc, line)
            },
            st && ok,
        )
    }
}

/// What `mv` does: fewer than two operands are a usage error; the last
/// operand is the destination, whose parent directories are created; each
/// other operand is renamed onto it in turn, error lines collected in a
/// Normal section.
pub open spec fn mv_spec(ns: Seq<FsNodeV>, cur: Seq<Seq<char>>, args: Seq<Seq<char>>) -> (
    Seq<FsNodeV>,
    Seq<char>,
    bool,
) {
    if args.len() <= 2 {
        (ns, "?&E"@ + "mv: missing destination file"@ + "\n\n"@, false)
    } else {
        match join_spec(cur, args.last()) {
            None => (ns, "?&E"@ + "mv: No such file or directory"@ + "\n\n"@, false),
            Some(d) => {
                if d.len() == 0 {
                    (ns, "?&E"@ + "mv: Not a directory"@ + "\n\n"@, false)
                } else {
                    let (ns1, ok) = add_dirs(ns, d.drop_last(), 1);
                    if !ok {
                        (ns1, "?&E"@ + "mv: Not a directory"@ + "\n\n"@, false)
                    } else {
                        let (ns2, body, st) = mv_body(
                            ns1,
                            cur,
                            args.subrange(1, args.len() - 1),
                            d,
                        );
                        (
                            ns2,
                            if body.len() == 0 {
                                Seq::<char>::empty()
                            } else {
                                "?&N"@ + body + "\n\n"@
                            },
                            st,
                        )
                    }
                }
            },
        }
    }
}

pub struct MoveFileAndDir {
    pub command: Command,
    pub current_dir: SandboxPath,
}

impl MoveFileAndDir {
    pub fn new(cmd: Command, path: SandboxPath) -> (r: MoveFileAndDir)
        ensures
            r.command@ == cmd@,
            r.current_dir@ == path@,
    {
        MoveFileAndDir { command: cmd, current_dir: path }
    }

    #[verifier::loop_isolation(false)]
    pub fn get_output(&self, fs: &mut FsModel) -> (r: (String, bool))
        requires
            old(fs).wf(),
            self.command@.args.len() >= 1,
            self.current_dir.wf(),
        ensures
            final(fs).wf(),
            final(fs)@ == mv_spec(old(fs)@, self.current_dir@, self.command@.args).0,
            r.0@ == mv_spec(old(fs)@, self.current_dir@, self.command@.args).1,
            r.1 == mv_spec(old(fs)@, self.current_dir@, self.command@.args).2,
    {
        let n = self.command.cmd.len();
        if n <= 2 {
            let out = wrap_section("?&E", "mv: missing destination file");
            return (out, false);
        }
        proof {
            assert(self.command@.args.last() == self.command@.args[n - 1]);
        }
        let d = match join_path(&self.current_dir, self.command.cmd[n - 1].as_str()) {
            None => {
                let out = wrap_section("?&E", "mv: No such file or directory");
                return (out, false);
            },
            Some(d) => d,
        };
        if d.depth() == 0 {
            let out = wrap_section("?&E", "mv: Not a directory");
            return (out, false);
        }
        let mut parent_parts = crate::path::clone_string_vec(&d.parts);
        let _ = parent_parts.pop();
        let parent = SandboxPath { parts: parent_parts };
        proof {
            assert(parent@ =~= d@.drop_last());
            assert(wf_parts(parent@)) by {
                assert forall|t: int| 0 <= t < parent@.len() implies crate::path::wf_component(
                    #[trigger] parent@[t],
                ) by {
                    assert(parent@[t] == d@[t]);
                }
            }
        }
        if !fs.create_dir_all(&parent) {
            let out = wrap_section("?&E", "mv: Not a directory");
            return (out, false);
        }
        let ghost ns1 = fs@;
        let ghost rest = self.command@.args.subrange(1, self.command@.args.len() - 1);
        let mut output = String::new();
        let mut status = true;
        let mut i: usize = 1;
        proof {
            assert(rest.take(0) =~= Seq::<Seq<char>>::empty());
            assert((fs@, output@, status) == mv_body(ns1, self.current_dir@, rest.take(0), d@));
        }
        while i < n - 1
            invariant
                1 <= i <= n - 1,
                n == self.command.cmd.len(),
                fs.wf(),
                (fs@, output@, status) == mv_body(ns1, self.current_dir@, rest.take(i - 1), d@),
            decreases n - 1 - i,
        {
            proof {
                reveal_strlit("mv: cannot stat '");
                reveal_strlit("Unexpected Error");
                assert(rest.take(i as int).drop_last() =~= rest.take(i - 1));
                assert(rest.take(i as int).last() == self.command@.args[i as int]);
            }
            let arg: &String = &self.command.cmd[i];
            let mut failed = false;
            match join_path(&self.current_dir, arg.as_str()) {
                None => {
                    failed = true;
                    let line = concat3(
                        "mv: cannot stat '",
                        arg.as_str(),
                        "': No such file or directory ",
                    );
                    proof {
                        assert(line@ =~= "mv: cannot stat '"@ + arg@
                            + "': No such file or directory "@);
                    }
                    append_line(&mut output, line.as_str());
                },
                Some(s) => {
                    if !fs.exists_path(&s) {
                        failed = true;
                        let line = concat3(
                            "mv: cannot stat '",
                            arg.as_str(),
                            "': No such file or directory ",
                        );
                        proof {
                            assert(line@ =~= "mv: cannot stat '"@ + arg@
                                + "': No such file or directory "@);
                        }
                        append_line(&mut output, line.as_str());
                    } else if s.depth() == 0 || s.starts_with(&d) || d.starts_with(&s) {
                        failed = true;
                        append_line(&mut output, "Unexpected Error");
                    } else {
                        fs.rename(&s, &d);
                    }
                },
            }
            if failed {
                status = false;
            }
            i += 1;
        }
        proof {
            assert(rest.take(n - 2) =~= rest);
        }
        if output.as_str().unicode_len() == 0 {
            let empty = String::new();
            (empty, status)
        } else {
            let wrapped = wrap_section("?&N", output.as_str());
            (wrapped, status)
        }
    }
}

} // verus!
