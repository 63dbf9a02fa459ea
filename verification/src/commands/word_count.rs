//! The `wc` built-in: counts whitespace-separated words of files or of the
//! piped input.

use vstd::prelude::*;

verus! {

use crate::fs_model::{exists_v, file_content_v, is_file_v, FsModel, FsNodeV};
use crate::format::wrap_section;
use crate::lexer::Command;
use crate::path::{join_path, join_spec, SandboxPath};
use crate::strutil::{
    concat3, dec_str, join_line, split_whitespace_vec, split_ws, usize_to_string,
};
use vstd::string::StrSliceExecFns;
use vstd::string::StringExecFns;

/// The number of whitespace-separated words of `s`.
pub open spec fn wc_count(s: Seq<char>) -> nat {
    split_ws(s).len()
}

/// The accumulated per-file lines and the success flag after processing the
/// given arguments: a counted file appends its count on a fresh line and
/// makes the command succeed; a missing target or a directory appends an
/// error line.
pub open spec fn wc_body(ns: Seq<FsNodeV>, cur: Seq<Seq<char>>, rest: Seq<Seq<char>>) -> (
    Seq<char>,
    bool,
)
    decreases rest.len(),
{
    if rest.len() == 0 {
        (Seq::<char>::empty(), false)
    } else {
        let (acc, st) = wc_body(ns, cur, rest.drop_last());
        let arg = rest.last();
        match join_spec(cur, arg) {
            Some(p) => {
                if is_file_v(ns, p) {
                    (
                        acc + "\n"@ + dec_str(wc_count(file_content_v(ns, p))) + "  ("@ + arg
                            + ")"@,
                        true,
                    )
                } else if exists_v(ns, p) {
                    (join_line(acc, "wc: Is a directory  ("@ + arg + ")"@), st)
                } else {
                    (join_line(acc, "wc: No such file or directory  ("@ + arg + ")"@), st)
                }
            },
            None => (join_line(acc, "wc: No such file or directory  ("@ + arg + ")"@), st),
        }
    }
}

/// What `wc` emits: with file arguments, the per-file lines; without, the
/// word count of the piped input, failing when there is none or it is empty.
pub open spec fn wc_spec(
    ns: Seq<FsNodeV>,
    cur: Seq<Seq<char>>,
    args: Seq<Seq<char>>,
    input: Option<Seq<char>>,
) -> (Seq<char>, bool) {
    if args.len() != 1 {
        let (body, st) = wc_body(ns, cur, args.skip(1));
        ("?&N"@ + body + "\n\n"@, st)
    } else {
        match input {
            Some(s) => ("?&N"@ + dec_str(wc_count(s)) + "\n\n"@, s.len() > 0),
            None => ("?&N"@ + dec_str(0) + "\n\n"@, false),
        }
    }
}

pub struct WordCount {
    pub command: Command,
    pub current_dir: SandboxPath,
    pub input: Option<String>,
}

impl WordCount {
    pub fn new(cmd: Command, input: Option<String>, path: SandboxPath) -> (r: WordCount)
        ensures
            r.command@ == cmd@,
            r.current_dir@ == path@,
            r.input.deep_view() == input.deep_view(),
    {
        WordCount { command: cmd, current_dir: path, input }
    }

    fn get_input_count(&self) -> (r: (String, bool))
        requires
            self.command@.args.len() == 1,
        ensures
            r.0@ == wc_spec(
                Seq::<FsNodeV>::empty(),
                Seq::<Seq<char>>::empty(),
                self.command@.args,
                self.input.deep_view(),
            ).0,
            r.1 == wc_spec(
                Seq::<FsNodeV>::empty(),
                Seq::<Seq<char>>::empty(),
                self.command@.args,
                self.input.deep_view(),
            ).1,
    {
        match &self.input {
            Some(s) => {
                let words = split_whitespace_vec(s.as_str());
                let count = usize_to_string(words.len());
                let wrapped = wrap_section("?&N", count.as_str());
                (wrapped, s.as_str().unicode_len() > 0)
            },
            None => {
                let count = usize_to_string(0);
                let wrapped = wrap_section("?&N", count.as_str());
                (wrapped, false)
            },
        }
    }

    #[verifier::loop_isolation(false)]
    pub fn get_output(&self, fs: &FsModel) -> (r: (String, bool))
        requires
            self.command@.args.len() >= 1,
            self.current_dir.wf(),
        ensures
            r.0@ == wc_spec(fs@, self.current_dir@, self.command@.args, self.input.deep_view()).0,
            r.1 == wc_spec(fs@, self.current_dir@, self.command@.args, self.input.deep_view()).1,
    {
        if self.command.cmd.len() != 1 {
            let ghost rest = self.command@.args.skip(1);
            let mut output = String::new();
            let mut status = false;
            let mut i: usize = 1;
            proof {
                assert(rest.take(0) =~= Seq::<Seq<char>>::empty());
                assert((output@, status) == wc_body(fs@, self.current_dir@, rest.take(0)));
            }
            while i < self.command.cmd.len()
                invariant
                    1 <= i <= self.command.cmd.len(),
                    (output@, status) == wc_body(fs@, self.current_dir@, rest.take(i - 1)),
                decreases self.command.cmd.len() - i,
            {
                proof {
                    assert(rest.take(i as int).drop_last() =~= rest.take(i - 1));
                    assert(rest.take(i as int).last() == self.command@.args[i as int]);
                }
                let ghost pre = output@;
                let arg: &String = &self.command.cmd[i];
                match join_path(&self.current_dir, arg.as_str()) {
                    Some(p) => {
                        match fs.read_file(&p) {
                            Some(content) => {
                                let words = split_whitespace_vec(content.as_str());
                                let count = usize_to_string(words.len());
                                output.append("\n");
                                output.append(count.as_str());
                                output.append("  (");
                                output.append(arg.as_str());
                                output.append(")");
                                status = true;
                                proof {
                                    reveal_strlit("\n");
                                    reveal_strlit("  (");
                                    reveal_strlit(")");
                                    assert(output@ =~= pre + "\n"@ + dec_str(
                                        wc_count(content@),
                                    ) + "  ("@ + arg@ + ")"@);
                                }
                            },
                            None => {
                                if fs.exists_path(&p) {
                                    let line = concat3("wc: Is a directory  (", arg.as_str(), ")");
                                    proof {
                                        assert(line@ =~= "wc: Is a directory  ("@ + arg@ + ")"@);
                                    }
                                    crate::strutil::append_line(&mut output, line.as_str());
                                } else {
                                    let line = concat3(
                                        "wc: No such file or directory  (",
                                        arg.as_str(),
                                        ")",
                                    );
                                    proof {
                                        assert(line@ =~= "wc: No such file or directory  ("@ + arg@
                                            + ")"@);
                                    }
                                    crate::strutil::append_line(&mut output, line.as_str());
                                }
                            },
                        }
                    },
                    None => {
                        let line = concat3("wc: No such file or directory  (", arg.as_str(), ")");
                        proof {
                            assert(line@ =~= "wc: No such file or directory  ("@ + arg@ + ")"@);
                        }
                        crate::strutil::append_line(&mut output, line.as_str());
                    },
                }
                i += 1;
            }
            proof {
                assert(rest.take(self.command.cmd.len() - 1) =~= rest);
            }
            let wrapped = wrap_section("?&N", output.as_str());
            (wrapped, status)
        } else {
            self.get_input_count()
        }
    }
}

} // verus!
