//! The operation handler: interprets the operator that follows a command,
//! steering output accumulation, file redirection and short-circuiting.

use vstd::prelude::*;

verus! {

use crate::fs_model::{write_file_spec, FsModel, FsNodeV};
use crate::format::{get_unformated_text, strip_spec};
use crate::lexer::Command;
use crate::path::{join_path, join_spec, SandboxPath};
use crate::strutil::str_eq;
use vstd::string::StringExecFns;

/// The ways one command connects to the next.
#[derive(PartialEq, Eq, Structural)]
pub enum Operation {
    Pipe,
    InputRedirection,
    OutputRedirection,
    AndLogic,
    OrLogic,
    CommandSeparator,
}

/// Which operation an operator token denotes; anything unknown, the empty
/// token included, separates commands.
pub open spec fn op_of(s: Seq<char>) -> Operation {
    if s == "|"@ {
        Operation::Pipe
    } else if s == "<"@ {
        Operation::InputRedirection
    } else if s == ">"@ {
        Operation::OutputRedirection
    } else if s == "&&"@ {
        Operation::AndLogic
    } else if s == "||"@ {
        Operation::OrLogic
    } else {
        Operation::CommandSeparator
    }
}

/// The operator string of a command record: the empty token when none.
pub open spec fn op_string(op: Option<Seq<char>>) -> Seq<char> {
    match op {
        Some(s) => s,
        None => Seq::empty(),
    }
}

impl Operation {
    pub fn from_str(cmd: &str) -> (r: Operation)
        ensures
            r == op_of(cmd@),
    {
        if str_eq(cmd, "|") {
            Operation::Pipe
        } else if str_eq(cmd, "<") {
            Operation::InputRedirection
        } else if str_eq(cmd, ">") {
            Operation::OutputRedirection
        } else if str_eq(cmd, "&&") {
            Operation::AndLogic
        } else if str_eq(cmd, "||") {
            Operation::OrLogic
        } else {
            Operation::CommandSeparator
        }
    }
}

/// What interpreting the operator yields: the tree after any redirection,
/// the new accumulated output, what is flushed into the reply now, whether
/// the next command is skipped, and the operation's success.
pub open spec fn op_output_spec(
    op: Option<Seq<char>>,
    output: Seq<char>,
    last_output: Seq<char>,
    last_succes: bool,
    target: Option<Seq<char>>,
    dir: Seq<Seq<char>>,
    ns: Seq<FsNodeV>,
) -> (Seq<FsNodeV>, Seq<char>, Seq<char>, bool, bool) {
    match op_of(op_string(op)) {
        Operation::CommandSeparator => (
            ns,
            Seq::<char>::empty(),
            last_output + " "@ + output,
            false,
            true,
        ),
        Operation::OutputRedirection => {
            match join_spec(dir, op_string(target)) {
                Some(p) => {
                    let (ns2, ok) = write_file_spec(ns, p, strip_spec(output));
                    if ok {
                        (ns2, Seq::<char>::empty(), Seq::<char>::empty(), true, true)
                    } else {
                        (ns2, "Error"@, Seq::<char>::empty(), true, false)
                    }
                },
                None => (ns, "Error"@, Seq::<char>::empty(), true, false),
            }
        },
        Operation::AndLogic => {
            if last_succes {
                (ns, last_output + " "@ + output, Seq::<char>::empty(), false, true)
            } else {
                (ns, last_output + " "@, Seq::<char>::empty(), true, false)
            }
        },
        Operation::InputRedirection => (
            ns,
            Seq::<char>::empty(),
            Seq::<char>::empty(),
            true,
            true,
        ),
        Operation::OrLogic => {
            if last_succes {
                (ns, last_output + " "@, Seq::<char>::empty(), true, true)
            } else {
                (ns, last_output + " "@ + output, Seq::<char>::empty(), false, true)
            }
        },
        Operation::Pipe => (
            ns,
            last_output + " "@ + output,
            Seq::<char>::empty(),
            false,
            true,
        ),
    }
}

/// Interprets the operator of one pipeline step.
pub struct OperationHandler {
    pub output: String,
    pub last_output: String,
    pub op: Option<String>,
    pub target: Option<String>,
    pub current_dir: SandboxPath,
    pub last_succes: bool,
}

impl OperationHandler {
    /// Gathers what the step at `idx` needs: its operator and, for a
    /// redirection, the next command's first argument.
    pub fn new(
        output: String,
        last_output: String,
        commands: &Vec<Command>,
        idx: usize,
        path: SandboxPath,
        last_succes: bool,
    ) -> (r: OperationHandler)
        requires
            idx < commands.len(),
        ensures
            r.output@ == output@,
            r.last_output@ == last_output@,
            r.op.deep_view() == commands@[idx as int]@.op,
            r.target.deep_view() == (if idx + 1 < commands.len() && commands@[idx + 1]@.args.len()
                > 0 {
                Some(commands@[idx + 1]@.args[0])
            } else {
                Option::<Seq<char>>::None
            }),
            r.current_dir@ == path@,
            r.last_succes == last_succes,
    {
        let op = match &commands[idx].op {
            Some(s) => Some(s.clone()),
            None => None,
        };
        let target = if idx + 1 < commands.len() && commands[idx + 1].cmd.len() > 0 {
            Some(commands[idx + 1].cmd[0].clone())
        } else {
            None
        };
        OperationHandler {
            output,
            last_output,
            op,
            target,
            current_dir: path,
            last_succes,
        }
    }

    /// Writes the stripped content into the named file below the working
    /// directory, creating parent directories; fails when the target leaves
    /// the sandbox or cannot be written.
    fn write_in_file(&self, fs: &mut FsModel, content: &str, name: &String) -> (ok: bool)
        requires
            old(fs).wf(),
            self.current_dir.wf(),
        ensures
            final(fs).wf(),
            ({
                match join_spec(self.current_dir@, name@) {
                    Some(p) => (final(fs)@, ok) == write_file_spec(
                        old(fs)@,
                        p,
                        strip_spec(content@),
                    ),
                    None => final(fs)@ == old(fs)@ && !ok,
                }
            }),
    {
        match join_path(&self.current_dir, name.as_str()) {
            Some(p) => {
                let text = get_unformated_text(content);
                fs.write_file(&p, text)
            },
            None => false,
        }
    }

    /// Processes the operator and returns the new accumulated output, the
    /// output flushed now, the skip flag for the next command, and the
    /// operation's success.
    pub fn get_output(&self, fs: &mut FsModel) -> (r: (String, String, bool, bool))
        requires
            old(fs).wf(),
            self.current_dir.wf(),
            op_of(op_string(self.op.deep_view())) is OutputRedirection ==> self.target is Some,
        ensures
            final(fs).wf(),
            ({
                let (ns2, cur, emit, jump, ok) = op_output_spec(
                    self.op.deep_view(),
                    self.output@,
                    self.last_output@,
                    self.last_succes,
                    self.target.deep_view(),
                    self.current_dir@,
                    old(fs)@,
                );
                &&& final(fs)@ == ns2
                &&& r.0@ == cur
                &&& r.1@ == emit
                &&& r.2 == jump
                &&& r.3 == ok
            }),
    {
        proof {
            reveal_strlit(" ");
            reveal_strlit("");
            reveal_strlit("Error");
        }
        let op = match &self.op {
            Some(s) => Operation::from_str(s.as_str()),
            None => {
                proof {
                    assert(op_string(self.op.deep_view()) =~= ""@);
                }
                Operation::from_str("")
            },
        };
        match op {
            Operation::CommandSeparator => {
                let mut out = self.last_output.clone();
                out.append(" ");
                out.append(self.output.as_str());
                proof {
                    assert(out@ =~= self.last_output@ + " "@ + self.output@);
                }
                (String::new(), out, false, true)
            },
            Operation::OutputRedirection => {
                let name = match &self.target {
                    Some(n) => n,
                    None => {
                        proof {
                            assert(false);
                        }
                        &self.output
                    },
                };
                proof {
                    assert(name@ == op_string(self.target.deep_view()));
                }
                if self.write_in_file(fs, self.output.as_str(), name) {
                    (String::new(), String::new(), true, true)
                } else {
                    let err = String::from_str("Error");
                    (err, String::new(), true, false)
                }
            },
            Operation::AndLogic => {
                let mut out = self.last_output.clone();
                out.append(" ");
                if self.last_succes {
                    out.append(self.output.as_str());
                    proof {
                        assert(out@ =~= self.last_output@ + " "@ + self.output@);
                    }
                    (out, String::new(), false, true)
                } else {
                    proof {
                        assert(out@ =~= self.last_output@ + " "@);
                    }
                    (out, String::new(), true, false)
                }
            },
            Operation::InputRedirection => (String::new(), String::new(), true, true),
            Operation::OrLogic => {
                let mut out = self.last_output.clone();
                out.append(" ");
                if self.last_succes {
                    proof {
                        assert(out@ =~= self.last_output@ + " "@);
                    }
                    (out, String::new(), true, true)
                } else {
                    out.append(self.output.as_str());
                    proof {
                        assert(out@ =~= self.last_output@ + " "@ + self.output@);
                    }
                    (out, String::new(), false, true)
                }
            },
            Operation::Pipe => {
                let mut out = self.last_output.clone();
                out.append(" ");
                out.append(self.output.as_str());
                proof {
                    assert(out@ =~= self.last_output@ + " "@ + self.output@);
                }
                (out, String::new(), false, true)
            },
        }
    }
}

} // verus!
