//! The `rm` built-in: removes files inside the sandbox.

use vstd::prelude::*;

verus! {

use crate::fs_model::{exists_v, is_file_v, path_index, FsModel, FsNodeV};
use crate::format::wrap_section;
use crate::lexer::Command;
use crate::path::{join_path, join_spec, SandboxPath};
use crate::strutil::{append_line, concat3, join_line};
use vstd::string::StrSliceExecFns;

/// What one argument does: unlinks an existing file, or leaves an error
/// line for a missing target, a directory, or a path that leaves the
/// sandbox.
pub open spec fn rm_step(ns: Seq<FsNodeV>, cur: Seq<Seq<char>>, arg: Seq<char>) -> (
    Seq<FsNodeV>,
    Seq<char>,
    bool,
) {
    match join_spec(cur, arg) {
        None => (ns, "rm: failed to remove '"@ + arg + "': No such file or directory"@, false),
        Some(p) => {
            if !exists_v(ns, p) {
                (ns, "rm: failed to remove '"@ + arg + "': No such file or directory"@, false)
            } else if !is_file_v(ns, p) {
                (ns, "rm: failed to remove '"@ + arg + "': Not a file"@, false)
            } else {
                (ns.remove(path_index(ns, p)), Seq::<char>::empty(), true)
            }
        },
    }
}

pub open spec fn rm_body(ns: Seq<FsNodeV>, cur: Seq<Seq<char>>, rest: Seq<Seq<char>>) -> (
    Seq<FsNodeV>,
    Seq<char>,
    bool,
)
    decreases rest.len(),
{
    if rest.len() == 0 {
        (ns, Seq::<char>::empty(), true)
    } else {
        let (ns1, acc, st) = rm_body(ns, cur, rest.drop_last());
        let (ns2, line, ok) = rm_step(ns1, cur, rest.last());
        (
            ns2,
            if line.len() == 0 {
                acc
            } else {
                join_line(acc, line)
            },
            st && ok,
        )
    }
}

/// What `rm` does: with no operand, a usage error; otherwise each
/// argument's file is unlinked and the error lines are collected in an
/// Error section.
pub open spec fn rm_spec(ns: Seq<FsNodeV>, cur: Seq<Seq<char>>, args: Seq<Seq<char>>) -> (
    Seq<FsNodeV>,
    Seq<char>,
    bool,
) {
    if args.len() == 1 {
        (ns, "?&E"@ + "rm: missing file"@ + "\n\n"@, false)
    } else {
        let (ns2, body, st) = rm_body(ns, cur, args.skip(1));
        (
            ns2,
            if body.len() == 0 {
                Seq::<char>::empty()
            } else {
                "?&E"@ + body + "\n\n"@
            },
            st,
        )
    }
}

pub struct RemoveFile {
    pub command: Command,
    pub current_dir: SandboxPath,
}

impl RemoveFile {
    pub fn new(cmd: Command, path: SandboxPath) -> (r: RemoveFile)
        ensures
            r.command@ == cmd@,
            r.current_dir@ == path@,
    {
        RemoveFile { command: cmd, current_dir: path }
    }

    #[verifier::loop_isolation(false)]
    fn try_remove_file(&self, fs: &mut FsModel) -> (r: (String, bool))
        requires
            old(fs).wf(),
            self.command@.args.len() >= 2,
            self.current_dir.wf(),
        ensures
            final(fs).wf(),
            final(fs)@ == rm_body(old(fs)@, self.current_dir@, self.command@.args.skip(1)).0,
            ({
                let (ns2, body, st) = rm_body(
                    old(fs)@,
                    self.current_dir@,
                    self.command@.args.skip(1),
                );
                r.0@ == (if body.len() == 0 {
                    Seq::<char>::empty()
                } else {
                    "?&E"@ + body + "\n\n"@
                }) && r.1 == st
            }),
    {
        let ghost rest = self.command@.args.skip(1);
        let mut output = String::new();
        let mut succes = true;
        let mut i: usize = 1;
        proof {
            assert(rest.take(0) =~= Seq::<Seq<char>>::empty());
            assert((fs@, output@, succes) == rm_body(old(fs)@, self.current_dir@, rest.take(0)));
        }
        while i < self.command.cmd.len()
            invariant
                1 <= i <= self.command.cmd.len(),
                fs.wf(),
                (fs@, output@, succes) == rm_body(old(fs)@, self.current_dir@, rest.take(i - 1)),
            decreases self.command.cmd.len() - i,
        {
            proof {
                reveal_strlit("rm: failed to remove '");
                assert(rest.take(i as int).drop_last() =~= rest.take(i - 1));
                assert(rest.take(i as int).last() == self.command@.args[i as int]);
            }
            let arg: &String = &self.command.cmd[i];
            let mut line: Option<&'static str> = None;
            match join_path(&self.current_dir, arg.as_str()) {
                None => {
                    line = Some("': No such file or directory");
                },
                Some(p) => {
                    if !fs.exists_path(&p) {
                        line = Some("': No such file or directory");
                    } else if !fs.is_file(&p) {
                        line = Some("': Not a file");
                    } else {
                        fs.remove_node(&p);
                    }
                },
            }
            match line {
                Some(tail) => {
                    let text = concat3("rm: failed to remove '", arg.as_str(), tail);
                    proof {
                        assert(text@ =~= "rm: failed to remove '"@ + arg@ + tail@);
                    }
                    append_line(&mut output, text.as_str());
                    succes = false;
                },
                None => {},
            }
            i += 1;
        }
        proof {
            assert(rest.take(self.command.cmd.len() - 1) =~= rest);
        }
        if output.as_str().unicode_len() == 0 {
            let empty = String::new();
            (empty, succes)
        } else {
            let wrapped = wrap_section("?&E", output.as_str());
            (wrapped, succes)
        }
    }

    pub fn get_output(&self, fs: &mut FsModel) -> (r: (String, bool))
        requires
            old(fs).wf(),
            self.command@.args.len() >= 1,
            self.current_dir.wf(),
        ensures
            final(fs).wf(),
            final(fs)@ == rm_spec(old(fs)@, self.current_dir@, self.command@.args).0,
            r.0@ == rm_spec(old(fs)@, self.current_dir@, self.command@.args).1,
            r.1 == rm_spec(old(fs)@, self.current_dir@, self.command@.args).2,
    {
        if self.command.cmd.len() == 1 {
            let out = wrap_section("?&E", "rm: missing file");
            (out, false)
        } else {
            self.try_remove_file(fs)
        }
    }
}

} // verus!
