//! The `mkdir` built-in: creates directory trees inside the sandbox.

use vstd::prelude::*;

verus! {

use crate::fs_model::{add_dirs, exists_v, FsModel, FsNodeV};
use crate::format::wrap_section;
use crate::lexer::Command;
use crate::path::{join_path, join_spec, SandboxPath};
use crate::strutil::{append_line, concat3, join_line};
use vstd::string::StrSliceExecFns;

/// What one argument does to the tree: creates the directory tree, or
/// leaves an error line for an existing target, a file in the way, or a
/// path that leaves the sandbox.
pub open spec fn mkdir_step(ns: Seq<FsNodeV>, cur: Seq<Seq<char>>, arg: Seq<char>) -> (
    Seq<FsNodeV>,
    Seq<char>,
    bool,
) {
    match join_spec(cur, arg) {
        None => (
            ns,
            "mkdir: cannot create directory `"@ + arg + "`: No such file or directory"@,
            false,
        ),
        Some(p) => {
            if exists_v(ns, p) {
                (ns, "mkdir: cannot create directory `"@ + arg + "`: File exists"@, false)
            } else {
                let (ns2, ok) = add_dirs(ns, p, 1);
                if ok {
                    (ns2, Seq::<char>::empty(), true)
                } else {
                    (ns2, "mkdir: cannot create directory `"@ + arg + "`: Not a directory"@, false)
                }
            }
        },
    }
}

pub open spec fn mkdir_body(ns: Seq<FsNodeV>, cur: Seq<Seq<char>>, rest: Seq<Seq<char>>) -> (
    Seq<FsNodeV>,
    Seq<char>,
    bool,
)
    decreases rest.len(),
{
    if rest.len() == 0 {
        (ns, Seq::<char>::empty(), true)
    } else {
        let (ns1, acc, st) = mkdir_body(ns, cur, rest.drop_last());
        let (ns2, line, ok) = mkdir_step(ns1, cur, rest.last());
        (
            ns2,
            if line.len() == 0 {
                acc
            } else {
                join_line(acc, line)
            },
            st && ok,
        )
    }
}

/// What `mkdir` does: with no operand, a usage error; otherwise each
/// argument's directories are created and the error lines are collected in
/// a Normal section.
pub open spec fn mkdir_spec(ns: Seq<FsNodeV>, cur: Seq<Seq<char>>, args: Seq<Seq<char>>) -> (
    Seq<FsNodeV>,
    Seq<char>,
    bool,
) {
    if args.len() == 1 {
        (ns, "?&E"@ + "mkdir: missing operand"@ + "\n\n"@, false)
    } else {
        let (ns2, body, st) = mkdir_body(ns, cur, args.skip(1));
        (
            ns2,
            if body.len() == 0 {
                Seq::<char>::empty()
            } else {
                "?&N"@ + body + "\n\n"@
            },
            st,
        )
    }
}

pub struct MakeDir {
    pub command: Command,
    pub current_dir: SandboxPath,
}

impl MakeDir {
    pub fn new(cmd: Command, path: SandboxPath) -> (r: MakeDir)
        ensures
            r.command@ == cmd@,
            r.current_dir@ == path@,
    {
        MakeDir { command: cmd, current_dir: path }
    }

    #[verifier::loop_isolation(false)]
    fn try_create_folders(&self, fs: &mut FsModel) -> (r: (String, bool))
        requires
            old(fs).wf(),
            self.command@.args.len() >= 2,
            self.current_dir.wf(),
        ensures
            final(fs).wf(),
            final(fs)@ == mkdir_body(old(fs)@, self.current_dir@, self.command@.args.skip(1)).0,
            ({
                let (ns2, body, st) = mkdir_body(
                    old(fs)@,
                    self.current_dir@,
                    self.command@.args.skip(1),
                );
                r.0@ == (if body.len() == 0 {
                    Seq::<char>::empty()
                } else {
                    "?&N"@ + body + "\n\n"@
                }) && r.1 == st
            }),
    {
        let ghost rest = self.command@.args.skip(1);
        let mut output = String::new();
        let mut succes = true;
        let mut i: usize = 1;
        proof {
            assert(rest.take(0) =~= Seq::<Seq<char>>::empty());
            assert((fs@, output@, succes) == mkdir_body(old(fs)@, self.current_dir@, rest.take(0)));
        }
        while i < self.command.cmd.len()
            invariant
                1 <= i <= self.command.cmd.len(),
                fs.wf(),
                (fs@, output@, succes) == mkdir_body(
                    old(fs)@,
                    self.current_dir@,
                    rest.take(i - 1),
                ),
            decreases self.command.cmd.len() - i,
        {
            proof {
                reveal_strlit("mkdir: cannot create directory `");
                assert(rest.take(i as int).drop_last() =~= rest.take(i - 1));
                assert(rest.take(i as int).last() == self.command@.args[i as int]);
            }
            let arg: &String = &self.command.cmd[i];
            match join_path(&self.current_dir, arg.as_str()) {
                None => {
                    let line = concat3(
                        "mkdir: cannot create directory `",
                        arg.as_str(),
                        "`: No such file or directory",
                    );
                    proof {
                        assert(line@ =~= "mkdir: cannot create directory `"@ + arg@
                            + "`: No such file or directory"@);
                    }
                    append_line(&mut output, line.as_str());
                    succes = false;
                },
                Some(p) => {
                    if fs.exists_path(&p) {
                        let line = concat3(
                            "mkdir: cannot create directory `",
                            arg.as_str(),
                            "`: File exists",
                        );
                        proof {
                            assert(line@ =~= "mkdir: cannot create directory `"@ + arg@
                                + "`: File exists"@);
                        }
                        append_line(&mut output, line.as_str());
                        succes = false;
                    } else {
                        if !fs.create_dir_all(&p) {
                            let line = concat3(
                                "mkdir: cannot create directory `",
                                arg.as_str(),
                                "`: Not a directory",
                            );
                            proof {
                                assert(line@ =~= "mkdir: cannot create directory `"@ + arg@
                                    + "`: Not a directory"@);
                            }
                            append_line(&mut output, line.as_str());
                            succes = false;
                        }
                    }
                },
            }
            i += 1;
        }
        proof {
            assert(rest.take(self.command.cmd.len() - 1) =~= rest);
        }
        if output.as_str().unicode_len() == 0 {
            let empty = String::new();
            (empty, succes)
        } else {
            let wrapped = wrap_section("?&N", output.as_str());
            (wrapped, succes)
        }
    }

    pub fn get_output(&self, fs: &mut FsModel) -> (r: (String, bool))
        requires
            old(fs).wf(),
            self.command@.args.len() >= 1,
            self.current_dir.wf(),
        ensures
            final(fs).wf(),
            final(fs)@ == mkdir_spec(old(fs)@, self.current_dir@, self.command@.args).0,
            r.0@ == mkdir_spec(old(fs)@, self.current_dir@, self.command@.args).1,
            r.1 == mkdir_spec(old(fs)@, self.current_dir@, self.command@.args).2,
    {
        if self.command.cmd.len() == 1 {
            let out = wrap_section("?&E", "mkdir: missing operand");
            (out, false)
        } else {
            self.try_create_folders(fs)
        }
    }
}

} // verus!
