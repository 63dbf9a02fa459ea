//! The command runner: dispatches one command record to its built-in
//! handler and reports the new working directory, the styled output and the
//! success flag — or that a local executable is to be run.

use vstd::prelude::*;

verus! {

use crate::commands::change_directory::{cd_spec, ChangeDIR};
use crate::commands::concatenate::{cat_spec, Cat};
use crate::commands::echo::{echo_spec, Echo};
use crate::commands::executable_files::{exec_check_spec, ExecDecision, ExecDecisionV, Execute};
use crate::commands::global_regular_expresion_print::{grep_spec, Grep};
use crate::commands::list_files::{ls_spec, ListFiles};
use crate::commands::make_director::{mkdir_spec, MakeDir};
use crate::commands::move_class::{mv_spec, MoveFileAndDir};
use crate::commands::remove_director::{rmdir_spec, RmDir};
use crate::commands::remove_file::{rm_spec, RemoveFile};
use crate::commands::users::{users_spec, ListUsers};
use crate::commands::word_count::{wc_spec, WordCount};
use crate::fs_model::{file_exec_v, FsModel, FsNodeV};
use crate::format::wrap_section;
use crate::lexer::{Command, CommandV};
use crate::path::{clone_string_vec, SandboxPath};
use crate::strutil::{concat3, has_prefix, join_strings, join_with, str_eq, str_starts_with};
use vstd::string::StrSliceExecFns;

/// The built-in verbs, with an `Unknown` case carrying the verb itself.
pub enum Commands {
    ChangeDirectory,
    PrintWorkingDirectory,
    ListFiles,
    Echo,
    Cat,
    Grep,
    MoveFileAndDir,
    MakeDir,
    RemoveDir,
    WordCount,
    Remove,
    Users,
    Unknown(String),
}

pub enum CommandsV {
    ChangeDirectory,
    PrintWorkingDirectory,
    ListFiles,
    Echo,
    Cat,
    Grep,
    MoveFileAndDir,
    MakeDir,
    RemoveDir,
    WordCount,
    Remove,
    Users,
    Unknown(Seq<char>),
}

impl View for Commands {
    type V = CommandsV;

    open spec fn view(&self) -> CommandsV {
        match self {
            Commands::ChangeDirectory => CommandsV::ChangeDirectory,
            Commands::PrintWorkingDirectory => CommandsV::PrintWorkingDirectory,
            Commands::ListFiles => CommandsV::ListFiles,
            Commands::Echo => CommandsV::Echo,
            Commands::Cat => CommandsV::Cat,
            Commands::Grep => CommandsV::Grep,
            Commands::MoveFileAndDir => CommandsV::MoveFileAndDir,
            Commands::MakeDir => CommandsV::MakeDir,
            Commands::RemoveDir => CommandsV::RemoveDir,
            Commands::WordCount => CommandsV::WordCount,
            Commands::Remove => CommandsV::Remove,
            Commands::Users => CommandsV::Users,
            Commands::Unknown(s) => CommandsV::Unknown(s@),
        }
    }
}

/// Which verb a word names; `cd`/`next` and `who`/`users` are aliases.
pub open spec fn verb_of(s: Seq<char>) -> CommandsV {
    if s == "cd"@ || s == "next"@ {
        CommandsV::ChangeDirectory
    } else if s == "pwd"@ {
        CommandsV::PrintWorkingDirectory
    } else if s == "ls"@ {
        CommandsV::ListFiles
    } else if s == "echo"@ {
        CommandsV::Echo
    } else if s == "wc"@ {
        CommandsV::WordCount
    } else if s == "cat"@ {
        CommandsV::Cat
    } else if s == "grep"@ {
        CommandsV::Grep
    } else if s == "mv"@ {
        CommandsV::MoveFileAndDir
    } else if s == "mkdir"@ {
        CommandsV::MakeDir
    } else if s == "rm"@ {
        CommandsV::Remove
    } else if s == "rmdir"@ {
        CommandsV::RemoveDir
    } else if s == "who"@ || s == "users"@ {
        CommandsV::Users
    } else {
        CommandsV::Unknown(s)
    }
}

impl Commands {
    pub fn from_str(cmd: &str) -> (r: Commands)
        ensures
            r@ == verb_of(cmd@),
    {
        if str_eq(cmd, "cd") || str_eq(cmd, "next") {
            Commands::ChangeDirectory
        } else if str_eq(cmd, "pwd") {
            Commands::PrintWorkingDirectory
        } else if str_eq(cmd, "ls") {
            Commands::ListFiles
        } else if str_eq(cmd, "echo") {
            Commands::Echo
        } else if str_eq(cmd, "wc") {
            Commands::WordCount
        } else if str_eq(cmd, "cat") {
            Commands::Cat
        } else if str_eq(cmd, "grep") {
            Commands::Grep
        } else if str_eq(cmd, "mv") {
            Commands::MoveFileAndDir
        } else if str_eq(cmd, "mkdir") {
            Commands::MakeDir
        } else if str_eq(cmd, "rm") {
            Commands::Remove
        } else if str_eq(cmd, "rmdir") {
            Commands::RemoveDir
        } else if str_eq(cmd, "who") || str_eq(cmd, "users") {
            Commands::Users
        } else {
            Commands::Unknown(cmd.to_owned())
        }
    }
}

/// What running one command yields: the new working directory, the output,
/// the success flag and the changed tree — or the resolved program of a
/// local executable that is to be spawned.
pub enum RunStepV {
    Done { path: Seq<Seq<char>>, output: Option<Seq<char>>, ok: bool, fs: Seq<FsNodeV> },
    Exec { program: Seq<Seq<char>> },
}

/// The dispatch of one command over the tree: each verb's handler, `ls` and
/// `echo` silenced under piped input, `./name` resolved as an executable,
/// anything else an unknown-command error.
pub open spec fn run_spec(
    c: CommandV,
    dir: Seq<Seq<char>>,
    input: Option<Seq<char>>,
    users: Seq<Seq<char>>,
    ns: Seq<FsNodeV>,
) -> RunStepV {
    if c.args.len() == 0 {
        RunStepV::Done {
            path: dir,
            output: Some("?&E"@ + ("Error , Command "@ + " not found "@) + "\n\n"@),
            ok: false,
            fs: ns,
        }
    } else {
        match verb_of(c.args[0]) {
            CommandsV::ChangeDirectory => {
                let (p, out, ok) = cd_spec(c.args, dir, ns);
                RunStepV::Done { path: p, output: Some(out), ok, fs: ns }
            },
            CommandsV::PrintWorkingDirectory => RunStepV::Done {
                path: dir,
                output: Some("?&N"@ + ("home:/"@ + join_with(dir, "/"@)) + "\n\n"@),
                ok: true,
                fs: ns,
            },
            CommandsV::ListFiles => {
                let (out, ok) = ls_spec(ns, dir, c.args);
                RunStepV::Done {
                    path: dir,
                    output: Some(
                        if input is Some {
                            Seq::<char>::empty()
                        } else {
                            out
                        },
                    ),
                    ok,
                    fs: ns,
                }
            },
            CommandsV::Echo => RunStepV::Done {
                path: dir,
                output: Some(
                    if input is Some {
                        Seq::<char>::empty()
                    } else {
                        echo_spec(c.args)
                    },
                ),
                ok: true,
                fs: ns,
            },
            CommandsV::Cat => RunStepV::Done {
                path: dir,
                output: Some(cat_spec(ns, dir, c.args)),
                ok: true,
                fs: ns,
            },
            CommandsV::WordCount => {
                let (out, ok) = wc_spec(ns, dir, c.args, input);
                RunStepV::Done { path: dir, output: Some(out), ok, fs: ns }
            },
            CommandsV::Grep => {
                let (out, ok) = grep_spec(ns, dir, c.args, input);
                RunStepV::Done { path: dir, output: Some(out), ok, fs: ns }
            },
            CommandsV::Users => {
                let (out, ok) = users_spec(c.args, users);
                RunStepV::Done { path: dir, output: Some(out), ok, fs: ns }
            },
            CommandsV::MakeDir => {
                let (ns2, out, ok) = mkdir_spec(ns, dir, c.args);
                RunStepV::Done { path: dir, output: Some(out), ok, fs: ns2 }
            },
            CommandsV::RemoveDir => {
                let (ns2, out, ok) = rmdir_spec(ns, dir, c.args);
                RunStepV::Done { path: dir, output: Some(out), ok, fs: ns2 }
            },
            CommandsV::Remove => {
                let (ns2, out, ok) = rm_spec(ns, dir, c.args);
                RunStepV::Done { path: dir, output: Some(out), ok, fs: ns2 }
            },
            CommandsV::MoveFileAndDir => {
                let (ns2, out, ok) = mv_spec(ns, dir, c.args);
                RunStepV::Done { path: dir, output: Some(out), ok, fs: ns2 }
            },
            CommandsV::Unknown(name) => {
                if has_prefix(name, "./"@) {
                    match exec_check_spec(ns, dir, c.args) {
                        ExecDecisionV::Run { program } => RunStepV::Exec { program },
                        ExecDecisionV::Refuse { output } => RunStepV::Done {
                            path: dir,
                            output: Some(output),
                            ok: false,
                            fs: ns,
                        },
                    }
                } else {
                    RunStepV::Done {
                        path: dir,
                        output: Some(
                            "?&E"@ + ("Error , Command "@ + name + " not found "@) + "\n\n"@,
                        ),
                        ok: false,
                        fs: ns,
                    }
                }
            },
        }
    }
}

/// The runner's executable answer for one command.
pub enum RunStep {
    Done { path: SandboxPath, output: Option<String>, ok: bool },
    Exec { program: SandboxPath },
}

/// Runs a single command in its context.
pub struct RunCommand {
    pub path: SandboxPath,
    pub command: Command,
    pub input: Option<String>,
    pub users_list: Vec<String>,
}

impl RunCommand {
    pub fn new(
        current_path: SandboxPath,
        command: Command,
        input: Option<String>,
        users: Vec<String>,
    ) -> (r: RunCommand)
        ensures
            r.path@ == current_path@,
            r.command@ == command@,
            r.input.deep_view() == input.deep_view(),
            r.users_list@ == users@,
    {
        RunCommand { path: current_path, command, input, users_list: users }
    }

    /// Dispatches the command to its handler.
    pub fn test(&self, fs: &mut FsModel) -> (r: RunStep)
        requires
            old(fs).wf(),
            self.path.wf(),
        ensures
            final(fs).wf(),
            ({
                let s = run_spec(
                    self.command@,
                    self.path@,
                    self.input.deep_view(),
                    self.users_list.deep_view(),
                    old(fs)@,
                );
                match r {
                    RunStep::Done { path, output, ok } => {
                        &&& s matches RunStepV::Done { path: sp, output: so, ok: sk, fs: sf }
                            && path@ == sp && output.deep_view() == so && ok == sk && final(fs)@
                            == sf
                        &&& path.wf()
                    },
                    RunStep::Exec { program } => {
                        &&& s matches RunStepV::Exec { program: pp } && program@ == pp
                        &&& program.wf()
                        &&& file_exec_v(final(fs)@, program@)
                        &&& final(fs)@ == old(fs)@
                    },
                }
            }),
    {
        if self.command.cmd.len() == 0 {
            let msg = concat3("Error , Command ", "", " not found ");
            proof {
                reveal_strlit("");
                assert(msg@ =~= "Error , Command "@ + " not found "@);
            }
            let out = wrap_section("?&E", msg.as_str());
            return RunStep::Done { path: self.path.clone_path(), output: Some(out), ok: false };
        }
        proof {
            assert(self.command@.args[0] == self.command.cmd@[0]@);
        }
        let command = Commands::from_str(self.command.cmd[0].as_str());
        match command {
            Commands::ChangeDirectory => {
                let cd = ChangeDIR::new(clone_command(&self.command), self.path.clone_path());
                let (path, new_output, new_succes) = cd.get_new_path_or_output(fs);
                RunStep::Done { path, output: Some(new_output), ok: new_succes }
            },
            Commands::PrintWorkingDirectory => {
                let rel = join_strings(&self.path.parts, "/");
                let body = crate::strutil::concat2("home:/", rel.as_str());
                let out = wrap_section("?&N", body.as_str());
                RunStep::Done { path: self.path.clone_path(), output: Some(out), ok: true }
            },
            Commands::ListFiles => {
                let list = ListFiles::new(self.path.clone_path(), clone_command(&self.command));
                let (new_output, new_succes) = list.get_output(fs);
                let out = if self.input.is_some() {
                    String::new()
                } else {
                    new_output
                };
                RunStep::Done { path: self.path.clone_path(), output: Some(out), ok: new_succes }
            },
            Commands::Echo => {
                let echo = Echo::new(clone_command(&self.command));
                let (new_output, new_succes) = echo.get_output();
                let out = if self.input.is_some() {
                    String::new()
                } else {
                    new_output
                };
                RunStep::Done { path: self.path.clone_path(), output: Some(out), ok: new_succes }
            },
            Commands::Cat => {
                let cat = Cat::new(clone_command(&self.command), self.path.clone_path());
                let (new_output, new_succes) = cat.get_output(fs);
                RunStep::Done {
                    path: self.path.clone_path(),
                    output: Some(new_output),
                    ok: new_succes,
                }
            },
            Commands::WordCount => {
                let wc = WordCount::new(
                    clone_command(&self.command),
                    clone_input(&self.input),
                    self.path.clone_path(),
                );
                let (new_output, new_succes) = wc.get_output(fs);
                RunStep::Done {
                    path: self.path.clone_path(),
                    output: Some(new_output),
                    ok: new_succes,
                }
            },
            Commands::Grep => {
                let grep = Grep::new(
                    clone_command(&self.command),
                    clone_input(&self.input),
                    self.path.clone_path(),
                );
                let (new_output, new_succes) = grep.get_output(fs);
                RunStep::Done {
                    path: self.path.clone_path(),
                    output: Some(new_output),
                    ok: new_succes,
                }
            },
            Commands::Users => {
                let who = ListUsers::new(
                    clone_command(&self.command),
                    clone_string_vec(&self.users_list),
                );
                let (new_output, new_succes) = who.get_output();
                RunStep::Done {
                    path: self.path.clone_path(),
                    output: Some(new_output),
                    ok: new_succes,
                }
            },
            Commands::MakeDir => {
                let mkdir = MakeDir::new(clone_command(&self.command), self.path.clone_path());
                let (new_output, new_succes) = mkdir.get_output(fs);
                RunStep::Done {
                    path: self.path.clone_path(),
                    output: Some(new_output),
                    ok: new_succes,
                }
            },
            Commands::RemoveDir => {
                let rmdir = RmDir::new(clone_command(&self.command), self.path.clone_path());
                let (new_output, new_succes) = rmdir.get_output(fs);
                RunStep::Done {
                    path: self.path.clone_path(),
                    output: Some(new_output),
                    ok: new_succes,
                }
            },
            Commands::Remove => {
                let rm = RemoveFile::new(clone_command(&self.command), self.path.clone_path());
                let (new_output, new_succes) = rm.get_output(fs);
                RunStep::Done {
                    path: self.path.clone_path(),
                    output: Some(new_output),
                    ok: new_succes,
                }
            },
            Commands::MoveFileAndDir => {
                let mv = MoveFileAndDir::new(clone_command(&self.command), self.path.clone_path());
                let (new_output, new_succes) = mv.get_output(fs);
                RunStep::Done {
                    path: self.path.clone_path(),
                    output: Some(new_output),
                    ok: new_succes,
                }
            },
            Commands::Unknown(cmd) => {
                if str_starts_with(cmd.as_str(), "./") {
                    let exe = Execute::new(clone_command(&self.command), self.path.clone_path());
                    match exe.check(fs) {
                        ExecDecision::Run { program } => RunStep::Exec { program },
                        ExecDecision::Refuse { output } => RunStep::Done {
                            path: self.path.clone_path(),
                            output: Some(output),
                            ok: false,
                        },
                    }
                } else {
                    let msg0 = concat3("Error , Command ", cmd.as_str(), " not found ");
                    proof {
                        assert(msg0@ =~= "Error , Command "@ + cmd@ + " not found "@);
                    }
                    let out = wrap_section("?&E", msg0.as_str());
                    RunStep::Done {
                        path: self.path.clone_path(),
                        output: Some(out),
                        ok: false,
                    }
                }
            },
        }
    }
}

/// Clones a command record, field for field.
pub fn clone_command(c: &Command) -> (r: Command)
    ensures
        r@ == c@,
{
    let op = match &c.op {
        Some(s) => Some(s.clone()),
        None => None,
    };
    Command { cmd: clone_string_vec(&c.cmd), op }
}

/// Clones an optional piped input.
pub fn clone_input(i: &Option<String>) -> (r: Option<String>)
    ensures
        r.deep_view() == i.deep_view(),
{
    match i {
        Some(s) => Some(s.clone()),
        None => None,
    }
}

} // verus!
