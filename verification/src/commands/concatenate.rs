//! The `cat` built-in: concatenates file contents, reporting missing files
//! and directories line by line, in one Normal section.

use vstd::prelude::*;

verus! {

use crate::fs_model::{file_content_v, is_file_v, FsModel, FsNodeV};
use crate::format::wrap_section;
use crate::lexer::Command;
use crate::path::{join_path, join_spec, SandboxPath};
use crate::strutil::{concat3, join_line, append_line};
use vstd::string::StrSliceExecFns;

/// What one argument contributes: the file's content, or an error line for
/// a missing target, a directory, or a path that leaves the sandbox.
pub open spec fn cat_piece(ns: Seq<FsNodeV>, cur: Seq<Seq<char>>, arg: Seq<char>) -> Seq<char> {
    match join_spec(cur, arg) {
        Some(p) => if is_file_v(ns, p) {
            file_content_v(ns, p)
        } else {
            "cat: "@ + arg + ": No such file or directory"@
        },
        None => "cat: "@ + arg + ": No such file or directory"@,
    }
}

pub open spec fn cat_body(ns: Seq<FsNodeV>, cur: Seq<Seq<char>>, rest: Seq<Seq<char>>) -> Seq<
    char,
>
    decreases rest.len(),
{
    if rest.len() == 0 {
        Seq::empty()
    } else {
        join_line(cat_body(ns, cur, rest.drop_last()), cat_piece(ns, cur, rest.last()))
    }
}

/// What `cat` emits: the newline-joined pieces in a Normal section; always
/// succeeds.
pub open spec fn cat_spec(ns: Seq<FsNodeV>, cur: Seq<Seq<char>>, args: Seq<Seq<char>>) -> Seq<
    char,
> {
    "?&N"@ + cat_body(ns, cur, args.skip(1)) + "\n\n"@
}

pub struct Cat {
    pub command: Command,
    pub current_dir: SandboxPath,
}

impl Cat {
    pub fn new(cmd: Command, path: SandboxPath) -> (r: Cat)
        ensures
            r.command@ == cmd@,
            r.current_dir@ == path@,
    {
        Cat { command: cmd, current_dir: path }
    }

    #[verifier::loop_isolation(false)]
    pub fn get_output(&self, fs: &FsModel) -> (r: (String, bool))
        requires
            self.command@.args.len() >= 1,
            self.current_dir.wf(),
        ensures
            r.0@ == cat_spec(fs@, self.current_dir@, self.command@.args),
            r.1 == true,
    {
        let ghost rest = self.command@.args.skip(1);
        let mut output = String::new();
        let mut i: usize = 1;
        proof {
            assert(rest.take(0) =~= Seq::<Seq<char>>::empty());
            assert(output@ =~= cat_body(fs@, self.current_dir@, rest.take(0)));
        }
        while i < self.command.cmd.len()
            invariant
                1 <= i <= self.command.cmd.len(),
                output@ == cat_body(fs@, self.current_dir@, rest.take(i - 1)),
            decreases self.command.cmd.len() - i,
        {
            proof {
                assert(rest.take(i as int).drop_last() =~= rest.take(i - 1));
                assert(rest.take(i as int).last() == self.command@.args[i as int]);
            }
            let arg: &String = &self.command.cmd[i];
            let piece: String = match join_path(&self.current_dir, arg.as_str()) {
                Some(p) => {
                    match fs.read_file(&p) {
                        Some(content) => content,
                        None => concat3("cat: ", arg.as_str(), ": No such file or directory"),
                    }
                },
                None => concat3("cat: ", arg.as_str(), ": No such file or directory"),
            };
            proof {
                assert(piece@ == cat_piece(fs@, self.current_dir@, self.command@.args[i as int]));
            }
            append_line(&mut output, piece.as_str());
            i += 1;
        }
        proof {
            assert(rest.take(self.command.cmd.len() - 1) =~= rest);
        }
        let wrapped = wrap_section("?&N", output.as_str());
        (wrapped, true)
    }
}

} // verus!
