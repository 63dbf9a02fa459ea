//! The `cd` built-in: changes the working directory inside the sandbox.

use vstd::prelude::*;

verus! {

use crate::fs_model::{exists_v, is_dir_v, FsModel, FsNodeV};
use crate::format::wrap_section;
use crate::lexer::Command;
use crate::path::{join_path, join_spec, SandboxPath};
use vstd::string::StrSliceExecFns;

/// What `cd` does: no argument resets to the sandbox root; one argument
/// moves into an existing directory, fails with an error section on a
/// missing target or a file target, and silently resets to the root when
/// the target would leave the sandbox; more arguments are a usage error.
pub open spec fn cd_spec(
    args: Seq<Seq<char>>,
    cur: Seq<Seq<char>>,
    ns: Seq<FsNodeV>,
) -> (Seq<Seq<char>>, Seq<char>, bool) {
    if args.len() == 1 {
        (Seq::<Seq<char>>::empty(), Seq::<char>::empty(), true)
    } else if args.len() == 2 {
        match join_spec(cur, args[1]) {
            None => (Seq::<Seq<char>>::empty(), Seq::<char>::empty(), true),
            Some(p) => {
                if exists_v(ns, p) && is_dir_v(ns, p) {
                    (p, Seq::<char>::empty(), true)
                } else if !exists_v(ns, p) {
                    (cur, "?&E"@ + "cd: No such file or directory"@ + "\n\n"@, false)
                } else {
                    (cur, "?&E"@ + "cd: Not a directory"@ + "\n\n"@, false)
                }
            },
        }
    } else {
        (cur, "?&E"@ + "cd: too many arguments"@ + "\n\n"@, false)
    }
}

pub struct ChangeDIR {
    pub command: Command,
    pub current_dir: SandboxPath,
}

impl ChangeDIR {
    pub fn new(command: Command, path: SandboxPath) -> (r: ChangeDIR)
        ensures
            r.command@ == command@,
            r.current_dir@ == path@,
    {
        ChangeDIR { command, current_dir: path }
    }

    /// The new working directory, the styled output, and the success flag.
    pub fn get_new_path_or_output(&self, fs: &FsModel) -> (r: (SandboxPath, String, bool))
        requires
            self.command@.args.len() >= 1,
            self.current_dir.wf(),
        ensures
            r.0@ == cd_spec(self.command@.args, self.current_dir@, fs@).0,
            r.1@ == cd_spec(self.command@.args, self.current_dir@, fs@).1,
            r.2 == cd_spec(self.command@.args, self.current_dir@, fs@).2,
            r.0.wf(),
    {
        if self.command.cmd.len() == 1 {
            let empty = String::new();
            proof {
                reveal_strlit("");
            }
            (SandboxPath::root(), empty, true)
        } else if self.command.cmd.len() == 2 {
            proof {
                assert(self.command@.args[1] == self.command.cmd@[1]@);
            }
            match join_path(&self.current_dir, self.command.cmd[1].as_str()) {
                None => (SandboxPath::root(), String::new(), true),
                Some(p) => {
                    if fs.exists_path(&p) && fs.is_dir(&p) {
                        (p, String::new(), true)
                    } else if !fs.exists_path(&p) {
                        let out = wrap_section("?&E", "cd: No such file or directory");
                        (self.current_dir.clone_path(), out, false)
                    } else {
                        let out = wrap_section("?&E", "cd: Not a directory");
                        (self.current_dir.clone_path(), out, false)
                    }
                },
            }
        } else {
            let out = wrap_section("?&E", "cd: too many arguments");
            (self.current_dir.clone_path(), out, false)
        }
    }
}

} // verus!
