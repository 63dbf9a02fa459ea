//! The `./name` handler: resolves a local executable inside the sandbox and
//! decides whether it may run; what a spawned process printed is turned
//! into the reply by a separate, fully checked step.  The spawning itself
//! is outside work that the surrounding application performs.

use vstd::prelude::*;

verus! {

use crate::fs_model::{exists_v, file_exec_v, is_dir_v, is_file_v, FsModel, FsNodeV};
use crate::format::wrap_section;
use crate::lexer::Command;
use crate::path::{join_path, join_spec, SandboxPath};
use crate::strutil::concat3;
use vstd::string::StrSliceExecFns;

/// What a spawned process reported: its standard output and error texts.
pub struct ExecOutcome {
    pub stdout: String,
    pub stderr: String,
}

impl View for ExecOutcome {
    type V = (Seq<char>, Seq<char>);

    open spec fn view(&self) -> (Seq<char>, Seq<char>) {
        (self.stdout@, self.stderr@)
    }
}

impl DeepView for ExecOutcome {
    type V = (Seq<char>, Seq<char>);

    open spec fn deep_view(&self) -> (Seq<char>, Seq<char>) {
        self@
    }
}

/// The decision on a `./name` verb: run the resolved program, or refuse
/// with a styled error.
pub enum ExecDecision {
    Run { program: SandboxPath },
    Refuse { output: String },
}

pub enum ExecDecisionV {
    Run { program: Seq<Seq<char>> },
    Refuse { output: Seq<char> },
}

impl View for ExecDecision {
    type V = ExecDecisionV;

    open spec fn view(&self) -> ExecDecisionV {
        match self {
            ExecDecision::Run { program } => ExecDecisionV::Run { program: program@ },
            ExecDecision::Refuse { output } => ExecDecisionV::Refuse { output: output@ },
        }
    }
}

/// What the check of a `./name` verb decides: a missing target, a
/// directory, a plain file without the executable bit, and a path that
/// leaves the sandbox are refused with the corresponding error section.
pub open spec fn exec_check_spec(
    ns: Seq<FsNodeV>,
    cur: Seq<Seq<char>>,
    args: Seq<Seq<char>>,
) -> ExecDecisionV {
    let arg = args[0];
    match join_spec(cur, arg) {
        None => ExecDecisionV::Refuse {
            output: "?&E"@ + (" "@ + arg + ": No such file or directory"@) + "\n\n"@,
        },
        Some(p) => {
            if exists_v(ns, p) && file_exec_v(ns, p) {
                ExecDecisionV::Run { program: p }
            } else if is_dir_v(ns, p) {
                ExecDecisionV::Refuse {
                    output: "?&E"@ + (" "@ + arg + ": Is a directory"@) + "\n\n"@,
                }
            } else if is_file_v(ns, p) {
                ExecDecisionV::Refuse {
                    output: "?&E"@ + (" "@ + arg
                        + ": cannot execute binary file: Exec format error"@) + "\n\n"@,
                }
            } else {
                ExecDecisionV::Refuse {
                    output: "?&E"@ + (" "@ + arg + ": No such file or directory"@) + "\n\n"@,
                }
            }
        },
    }
}

/// What a run's outcome renders to: the standard output as a Normal section
/// on success; the standard error as a Normal section when the output was
/// empty; an error section when the process could not be run at all.
pub open spec fn exec_reply_spec(outcome: Option<(Seq<char>, Seq<char>)>) -> (Seq<char>, bool) {
    match outcome {
        None => ("?&E"@ + "Unexpected error"@ + "\n\n"@, false),
        Some(o) => {
            if o.0.len() == 0 {
                ("?&N"@ + o.1 + "\n\n"@, false)
            } else {
                ("?&N"@ + o.0 + "\n\n"@, true)
            }
        },
    }
}

/// Renders what a spawned process reported, or its absence, as the reply
/// section of the `./name` step.
pub fn exec_reply(outcome: Option<ExecOutcome>) -> (r: (String, bool))
    ensures
        r.0@ == exec_reply_spec(outcome.deep_view()).0,
        r.1 == exec_reply_spec(outcome.deep_view()).1,
{
    match outcome {
        None => {
            let out = wrap_section("?&E", "Unexpected error");
            (out, false)
        },
        Some(o) => {
            if o.stdout.as_str().unicode_len() == 0 {
                let out = wrap_section("?&N", o.stderr.as_str());
                (out, false)
            } else {
                let out = wrap_section("?&N", o.stdout.as_str());
                (out, true)
            }
        },
    }
}

pub struct Execute {
    pub command: Command,
    pub current_dir: SandboxPath,
}

impl Execute {
    pub fn new(cmd: Command, path: SandboxPath) -> (r: Execute)
        ensures
            r.command@ == cmd@,
            r.current_dir@ == path@,
    {
        Execute { command: cmd, current_dir: path }
    }

    /// Decides whether the verb's target may run.
    pub fn check(&self, fs: &FsModel) -> (r: ExecDecision)
        requires
            self.command@.args.len() >= 1,
            self.current_dir.wf(),
        ensures
            r@ == exec_check_spec(fs@, self.current_dir@, self.command@.args),
            (r@ matches ExecDecisionV::Run { program } ==> ({
                &&& r matches ExecDecision::Run { program: pp } && pp.wf()
                &&& file_exec_v(fs@, program)
            })),
    {
        proof {
            assert(self.command@.args[0] == self.command.cmd@[0]@);
        }
        let arg: &String = &self.command.cmd[0];
        match join_path(&self.current_dir, arg.as_str()) {
            None => {
                let msg = concat3(" ", arg.as_str(), ": No such file or directory");
                let out = wrap_section("?&E", msg.as_str());
                ExecDecision::Refuse { output: out }
            },
            Some(p) => {
                if fs.exists_path(&p) && crate::fs_model::is_executable(fs, &p) {
                    ExecDecision::Run { program: p }
                } else if fs.is_dir(&p) {
                    let msg = concat3(" ", arg.as_str(), ": Is a directory");
                    let out = wrap_section("?&E", msg.as_str());
                    ExecDecision::Refuse { output: out }
                } else if fs.is_file(&p) {
                    let msg = concat3(
                        " ",
                        arg.as_str(),
                        ": cannot execute binary file: Exec format error",
                    );
                    let out = wrap_section("?&E", msg.as_str());
                    ExecDecision::Refuse { output: out }
                } else {
                    let msg = concat3(" ", arg.as_str(), ": No such file or directory");
                    let out = wrap_section("?&E", msg.as_str());
                    ExecDecision::Refuse { output: out }
                }
            },
        }
    }
}

} // verus!
