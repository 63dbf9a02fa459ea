//! The pipeline engine: drives a command sequence with operator-directed
//! data flow — pipes, redirections, short-circuits — and produces the reply
//! envelope.  Running a local executable is outside work: the engine hands
//! the resolved program out and resumes on what the process reported.

use vstd::prelude::*;

verus! {

use crate::commands::executable_files::{exec_reply, exec_reply_spec, ExecOutcome};
use crate::fs_model::{file_content_v, file_exec_v, is_file_v, FsModel, FsNodeV};
use crate::lexer::{commands_of, get_commands, Command, CommandV};
use crate::operation::{op_of, op_output_spec, op_string, OperationHandler};
use crate::path::{clone_string_vec, join_path, join_spec, wf_parts, SandboxPath};
use crate::runner::{clone_command, clone_input, run_spec, RunCommand, RunStep, RunStepV};
use crate::strutil::{join_with, string_eq};
use vstd::string::StrSliceExecFns;
use vstd::string::StringExecFns;

/// The string of an optional piece of output: empty when absent.
pub open spec fn opt_str(o: Option<Seq<char>>) -> Seq<char> {
    match o {
        Some(s) => s,
        None => Seq::empty(),
    }
}

/// The running state of a pipeline between steps.
pub struct PipelineState {
    pub cmds: Vec<Command>,
    pub i: usize,
    pub jump_cmd: bool,
    pub last_succes: bool,
    pub cmd_succes: bool,
    pub result: Option<String>,
    pub cmds_output: String,
    pub input: Option<String>,
    pub final_result: Option<String>,
    pub current_dir: SandboxPath,
    pub users_list: Vec<String>,
}

pub struct StateV {
    pub cmds: Seq<CommandV>,
    pub i: int,
    pub jump: bool,
    pub last_ok: bool,
    pub cmd_ok: bool,
    pub result: Option<Seq<char>>,
    pub acc: Seq<char>,
    pub input: Option<Seq<char>>,
    pub final_out: Option<Seq<char>>,
    pub dir: Seq<Seq<char>>,
    pub users: Seq<Seq<char>>,
}

impl View for PipelineState {
    type V = StateV;

    open spec fn view(&self) -> StateV {
        StateV {
            cmds: self.cmds.deep_view(),
            i: self.i as int,
            jump: self.jump_cmd,
            last_ok: self.last_succes,
            cmd_ok: self.cmd_succes,
            result: self.result.deep_view(),
            acc: self.cmds_output@,
            input: self.input.deep_view(),
            final_out: self.final_result.deep_view(),
            dir: self.current_dir@,
            users: self.users_list.deep_view(),
        }
    }
}

/// What the whole pipeline yields: the reply payload and directory, or a
/// suspension at a local executable.
pub enum SpecStep {
    SDone { payload: Option<Seq<char>>, dir: Seq<Seq<char>>, fs: Seq<FsNodeV> },
    SExec { program: Seq<Seq<char>>, st: StateV, fs: Seq<FsNodeV> },
}

/// The first argument of the following command, when it has one.
pub open spec fn target_of(cmds: Seq<CommandV>, i: int) -> Option<Seq<char>> {
    if i + 1 < cmds.len() && cmds[i + 1].args.len() > 0 {
        Some(cmds[i + 1].args[0])
    } else {
        None
    }
}

/// A redirection operator whose right-hand command is missing or empty
/// aborts the pipeline with no output.
pub open spec fn aborts_at(cmds: Seq<CommandV>, i: int) -> bool {
    let opstr = op_string(cmds[i].op);
    ||| ((opstr == "<"@ || opstr == ">"@) && (i + 1 >= cmds.len() || cmds[i + 1].args.len()
        == 0))
    ||| ((opstr == "<"@ || opstr == ">"@) && cmds[i].args.len() == 0)
}

/// The piped input after the redirect-in check of step `i`: a `<` operator
/// loads the following command's file, an unreadable or out-of-sandbox
/// target loading as empty text.
pub open spec fn input_at(st: StateV, ns: Seq<FsNodeV>) -> Option<Seq<char>> {
    let opstr = op_string(st.cmds[st.i].op);
    if opstr == "<"@ {
        match join_spec(st.dir, st.cmds[st.i + 1].args[0]) {
            Some(p) => if is_file_v(ns, p) {
                Some(file_content_v(ns, p))
            } else {
                Some(Seq::<char>::empty())
            },
            None => Some(Seq::<char>::empty()),
        }
    } else {
        st.input
    }
}

/// One operator-handling step: the state and tree after interpreting the
/// operator of step `i` on the handler result, and moving to step `i + 1`.
pub open spec fn after_once(
    st: StateV,
    ns: Seq<FsNodeV>,
    result: Option<Seq<char>>,
    cmd_ok: bool,
) -> (StateV, Seq<FsNodeV>) {
    let c = st.cmds[st.i];
    let opstr = op_string(c.op);
    let o5 = op_output_spec(
        c.op,
        opt_str(result),
        st.acc,
        st.last_ok && cmd_ok,
        target_of(st.cmds, st.i),
        st.dir,
        ns,
    );
    let ns2 = o5.0;
    let cur = o5.1;
    let emit = o5.2;
    let jump = o5.3;
    let op_ok = o5.4;
    let input2 = if opstr == "|"@ {
        result
    } else {
        st.input
    };
    let cur2 = if opstr == "|"@ {
        Seq::<char>::empty()
    } else {
        cur
    };
    let result2 = if opstr == ">"@ && jump {
        Option::<Seq<char>>::None
    } else {
        result
    };
    let final2 = if opstr == "||"@ && !jump {
        Option::<Seq<char>>::None
    } else {
        st.final_out
    };
    let cur3 = if opstr == "||"@ && !jump {
        Seq::<char>::empty()
    } else {
        cur2
    };
    let final3 = if emit.len() > 0 {
        Some(opt_str(final2) + emit)
    } else {
        final2
    };
    (
        StateV {
            i: st.i + 1,
            jump,
            last_ok: op_ok && cmd_ok,
            cmd_ok,
            result: result2,
            acc: cur3,
            input: input2,
            final_out: final3,
            ..st
        },
        ns2,
    )
}

/// The pipeline from step `i` on: pre-checks, the handler unless skipped,
/// the operator, and so on to the end — or a suspension at an executable.
pub open spec fn spec_run(st: StateV, ns: Seq<FsNodeV>) -> SpecStep
    decreases st.cmds.len() - st.i, 1int
        when 0 <= st.i <= st.cmds.len()
{
    if st.i >= st.cmds.len() {
        SpecStep::SDone { payload: st.final_out, dir: st.dir, fs: ns }
    } else if aborts_at(st.cmds, st.i) {
        SpecStep::SDone { payload: None, dir: st.dir, fs: ns }
    } else {
        let st1 = StateV { input: input_at(st, ns), ..st };
        if st.jump {
            spec_after(st1, ns, st.result, st.cmd_ok)
        } else {
            match run_spec(st.cmds[st.i], st.dir, st1.input, st.users, ns) {
                RunStepV::Done { path, output, ok, fs } => spec_after(
                    StateV { dir: path, ..st1 },
                    fs,
                    output,
                    ok,
                ),
                RunStepV::Exec { program } => SpecStep::SExec { program, st: st1, fs: ns },
            }
        }
    }
}

pub open spec fn spec_after(
    st: StateV,
    ns: Seq<FsNodeV>,
    result: Option<Seq<char>>,
    cmd_ok: bool,
) -> SpecStep
    decreases st.cmds.len() - st.i, 0int
        when 0 <= st.i < st.cmds.len()
{
    let (st2, ns2) = after_once(st, ns, result, cmd_ok);
    spec_run(st2, ns2)
}

/// What resuming a suspended pipeline on a process's outcome yields.
pub open spec fn spec_resume(
    st: StateV,
    outcome: Option<(Seq<char>, Seq<char>)>,
    ns: Seq<FsNodeV>,
) -> SpecStep {
    let (out, ok) = exec_reply_spec(outcome);
    spec_after(st, ns, Some(out), ok)
}

/// The reply envelope: the payload, then the working directory relative to
/// the sandbox root, framed for the wire.
pub open spec fn reply_spec(payload: Option<Seq<char>>, dir: Seq<Seq<char>>) -> Seq<char> {
    opt_str(payload) + "[-]:"@ + join_with(dir, "/"@) + "[-]\r\n\r\n"@
}

/// A suspended pipeline that may be resumed: its position is a real,
/// non-aborting step whose handler has run.
pub open spec fn pending_ok(st: StateV) -> bool {
    &&& 0 <= st.i < st.cmds.len()
    &&& !aborts_at(st.cmds, st.i)
    &&& wf_parts(st.dir)
}

/// The engine's answer: a finished reply, or a local executable to spawn
/// with its arguments, and the state to resume with.
pub enum HandlerStep {
    Done { reply: String, dir: SandboxPath },
    Exec { program: SandboxPath, args: Vec<String>, pending: PipelineState },
}

fn wrap_reply(payload: &Option<String>, dir: &SandboxPath) -> (r: String)
    ensures
        r@ == reply_spec(payload.deep_view(), dir@),
{
    let rel = crate::strutil::join_strings(&dir.parts, "/");
    let mut out = match payload {
        Some(s) => s.clone(),
        None => String::new(),
    };
    out.append("[-]:");
    out.append(rel.as_str());
    out.append("[-]\r\n\r\n");
    proof {
        assert(out@ =~= opt_str(payload.deep_view()) + "[-]:"@ + join_with(dir@, "/"@)
            + "[-]\r\n\r\n"@);
    }
    out
}

/// One operator-handling step of the engine; mirrors `after_once`.
fn after_command(st: PipelineState, fs: &mut FsModel) -> (r: PipelineState)
    requires
        old(fs).wf(),
        0 <= st@.i < st@.cmds.len(),
        !aborts_at(st@.cmds, st@.i),
        wf_parts(st@.dir),
    ensures
        final(fs).wf(),
        (r@, final(fs)@) == after_once(st@, old(fs)@, st@.result, st@.cmd_ok),
        r@.i == st@.i + 1,
        wf_parts(r@.dir),
        r@.cmds == st@.cmds,
        r@.users == st@.users,
{
    let mut st = st;
    let ghost st0 = st@;
    proof {
        reveal_strlit("<");
        reveal_strlit(">");
        reveal_strlit("|");
        reveal_strlit("||");
        reveal_strlit("");
    }
    let opstr: String = match &st.cmds[st.i].op {
        Some(s) => s.clone(),
        None => String::new(),
    };
    proof {
        assert(opstr@ == op_string(st0.cmds[st0.i].op));
        if op_of(op_string(st0.cmds[st0.i].op)) is OutputRedirection {
            assert(op_string(st0.cmds[st0.i].op) == ">"@);
            assert(target_of(st0.cmds, st0.i) is Some);
        }
    }
    let result_str: String = match &st.result {
        Some(s) => s.clone(),
        None => String::new(),
    };
    proof {
        assert(result_str@ == opt_str(st0.result));
    }
    let operation = OperationHandler::new(
        result_str,
        st.cmds_output.clone(),
        &st.cmds,
        st.i,
        st.current_dir.clone_path(),
        st.last_succes && st.cmd_succes,
    );
    let (mut current_output, output_emit, jump, op_succes) = operation.get_output(fs);
    st.jump_cmd = jump;
    if string_eq(&opstr, "|") {
        st.input = clone_input(&st.result);
        current_output = String::new();
    }
    if string_eq(&opstr, ">") && jump {
        st.result = None;
    }
    if string_eq(&opstr, "||") && !jump {
        st.final_result = None;
        current_output = String::new();
    }
    st.cmds_output = current_output;
    st.last_succes = op_succes && st.cmd_succes;
    if output_emit.as_str().unicode_len() > 0 {
        let mut combined = match &st.final_result {
            Some(s) => s.clone(),
            None => String::new(),
        };
        combined.append(output_emit.as_str());
        st.final_result = Some(combined);
    }
    st.i = st.i + 1;
    st
}

/// Drives the pipeline from the given state to its end or to the next
/// executable suspension; mirrors `spec_run`.
#[verifier::rlimit(100)]
fn run_loop(st: PipelineState, fs: &mut FsModel) -> (r: HandlerStep)
    requires
        old(fs).wf(),
        0 <= st@.i <= st@.cmds.len(),
        wf_parts(st@.dir),
    ensures
        final(fs).wf(),
        match r {
            HandlerStep::Done { reply, dir } => {
                &&& spec_run(st@, old(fs)@) == (SpecStep::SDone {
                    payload: (match spec_run(st@, old(fs)@) {
                        SpecStep::SDone { payload, .. } => payload,
                        _ => None,
                    }),
                    dir: dir@,
                    fs: final(fs)@,
                })
                &&& reply@ == reply_spec(
                    match spec_run(st@, old(fs)@) {
                        SpecStep::SDone { payload, .. } => payload,
                        _ => None,
                    },
                    dir@,
                )
                &&& dir.wf()
            },
            HandlerStep::Exec { program, args, pending } => {
                &&& spec_run(st@, old(fs)@) == (SpecStep::SExec {
                    program: program@,
                    st: pending@,
                    fs: final(fs)@,
                })
                &&& program.wf()
                &&& file_exec_v(final(fs)@, program@)
                &&& pending_ok(pending@)
                &&& args.deep_view() == pending@.cmds[pending@.i].args.skip(1)
            },
        },
    decreases st@.cmds.len() - st@.i,
{
    let mut st = st;
    let ghost st_in = st@;
    if st.i >= st.cmds.len() {
        let reply = wrap_reply(&st.final_result, &st.current_dir);
        return HandlerStep::Done { reply, dir: st.current_dir };
    }
    proof {
        reveal_strlit("<");
        reveal_strlit(">");
    }
    let is_lt = match &st.cmds[st.i].op {
        Some(s) => string_eq(s, "<"),
        None => false,
    };
    let is_gt = match &st.cmds[st.i].op {
        Some(s) => string_eq(s, ">"),
        None => false,
    };
    proof {
        assert(is_lt == (op_string(st@.cmds[st@.i].op) == "<"@));
        assert(is_gt == (op_string(st@.cmds[st@.i].op) == ">"@)) by {
            if st@.cmds[st@.i].op is None {
                assert(op_string(st@.cmds[st@.i].op) =~= Seq::<char>::empty());
                assert(">"@.len() == 1);
            }
        }
    }
    if (is_lt || is_gt) && (st.i + 1 >= st.cmds.len() || st.cmds[st.i + 1].cmd.len() == 0) {
        proof {
            assert(aborts_at(st@.cmds, st@.i));
        }
        let none: Option<String> = None;
        let reply = wrap_reply(&none, &st.current_dir);
        return HandlerStep::Done { reply, dir: st.current_dir };
    }
    if (is_lt || is_gt) && st.cmds[st.i].cmd.len() == 0 {
        proof {
            assert(aborts_at(st@.cmds, st@.i));
        }
        let none: Option<String> = None;
        let reply = wrap_reply(&none, &st.current_dir);
        return HandlerStep::Done { reply, dir: st.current_dir };
    }
    proof {
        assert(!aborts_at(st@.cmds, st@.i));
    }
    if is_lt {
        let name: &String = &st.cmds[st.i + 1].cmd[0];
        let loaded: String = match join_path(&st.current_dir, name.as_str()) {
            Some(p) => {
                match fs.read_file(&p) {
                    Some(content) => content,
                    None => String::new(),
                }
            },
            None => String::new(),
        };
        st.input = Some(loaded);
        proof {
            assert(st@.input == input_at(st_in, fs@));
        }
    } else {
        proof {
            assert(st@.input == input_at(st_in, fs@));
        }
    }
    let ghost st1 = st@;
    if !st.jump_cmd {
        let runner = RunCommand::new(
            st.current_dir.clone_path(),
            clone_command(&st.cmds[st.i]),
            clone_input(&st.input),
            clone_string_vec(&st.users_list),
        );
        match runner.test(fs) {
            RunStep::Done { path, output, ok } => {
                st.current_dir = path;
                st.result = output;
                st.cmd_succes = ok;
            },
            RunStep::Exec { program } => {
                let c = &st.cmds[st.i];
                let mut args: Vec<String> = Vec::new();
                let mut j: usize = 1;
                proof {
                    assert(args.deep_view() =~= c@.args.subrange(1, 1));
                }
                while j < c.cmd.len()
                    invariant
                        1 <= j <= c.cmd.len() || (c.cmd.len() == 0 && j == 1),
                        args.deep_view() == c@.args.subrange(1, j as int),
                    decreases c.cmd.len() - j,
                {
                    let ghost pre = args.deep_view();
                    args.push(c.cmd[j].clone());
                    proof {
                        assert(args.deep_view() =~= pre.push(c@.args[j as int]));
                        assert(pre.push(c@.args[j as int]) =~= c@.args.subrange(1, j + 1));
                    }
                    j += 1;
                }
                proof {
                    assert(c@.args.subrange(1, c@.args.len() as int) =~= c@.args.skip(1));
                }
                return HandlerStep::Exec { program, args, pending: st };
            },
        }
    }
    let st2 = after_command(st, fs);
    run_loop(st2, fs)
}

/// Resumes a pipeline suspended at a local executable with what the
/// spawned process reported — or with nothing, when it could not be run.
pub fn resume_pipeline(
    pending: PipelineState,
    outcome: Option<ExecOutcome>,
    fs: &mut FsModel,
) -> (r: HandlerStep)
    requires
        old(fs).wf(),
        pending_ok(pending@),
    ensures
        final(fs).wf(),
        match r {
            HandlerStep::Done { reply, dir } => {
                &&& spec_resume(pending@, outcome.deep_view(), old(fs)@) == (SpecStep::SDone {
                    payload: (match spec_resume(pending@, outcome.deep_view(), old(fs)@) {
                        SpecStep::SDone { payload, .. } => payload,
                        _ => None,
                    }),
                    dir: dir@,
                    fs: final(fs)@,
                })
                &&& reply@ == reply_spec(
                    match spec_resume(pending@, outcome.deep_view(), old(fs)@) {
                        SpecStep::SDone { payload, .. } => payload,
                        _ => None,
                    },
                    dir@,
                )
                &&& dir.wf()
            },
            HandlerStep::Exec { program, args, pending: p2 } => {
                &&& spec_resume(pending@, outcome.deep_view(), old(fs)@) == (SpecStep::SExec {
                    program: program@,
                    st: p2@,
                    fs: final(fs)@,
                })
                &&& program.wf()
                &&& file_exec_v(final(fs)@, program@)
                &&& pending_ok(p2@)
                &&& args.deep_view() == p2@.cmds[p2@.i].args.skip(1)
            },
        },
{
    let mut st = pending;
    let (out, ok) = exec_reply(outcome);
    st.result = Some(out);
    st.cmd_succes = ok;
    let st2 = after_command(st, fs);
    run_loop(st2, fs)
}

/// Parses and executes one request line over the tree.
pub struct CommandHandler {
    pub cmds: Vec<Command>,
    pub current_dir: SandboxPath,
    pub users_list: Vec<String>,
}

impl CommandHandler {
    /// The initial pipeline state of a request.
    pub open spec fn init_state(
        cmds: Seq<CommandV>,
        dir: Seq<Seq<char>>,
        users: Seq<Seq<char>>,
    ) -> StateV {
        StateV {
            cmds,
            i: 0,
            jump: false,
            last_ok: true,
            cmd_ok: true,
            result: None,
            acc: Seq::empty(),
            input: None,
            final_out: None,
            dir,
            users,
        }
    }

    /// Lexes the request line; the working directory and the signed-in
    /// users give the session's context.  A line of whitespace alone lexes
    /// to no commands, so its request is a no-op.
    pub fn new(client_input: &str, current_dir: SandboxPath, users: Vec<String>) -> (r:
        CommandHandler)
        ensures
            r.cmds.deep_view() == commands_of(client_input@),
            (forall|i: int|
                0 <= i < client_input@.len() ==> crate::strutil::is_space_char(
                    client_input@[i],
                )) ==> r.cmds.deep_view().len() == 0,
            r.current_dir@ == current_dir@,
            r.users_list@ == users@,
    {
        CommandHandler { cmds: get_commands(client_input), current_dir, users_list: users }
    }

    /// Runs the whole pipeline: the reply and the new working directory, or
    /// a suspension at a local executable.  The directory of a finished
    /// reply is always a well-formed path inside the sandbox.
    pub fn get_output(&mut self, fs: &mut FsModel) -> (r: HandlerStep)
        requires
            old(fs).wf(),
            old(self).current_dir.wf(),
        ensures
            final(fs).wf(),
            final(self).cmds.deep_view() == old(self).cmds.deep_view(),
            final(self).users_list@ == old(self).users_list@,
            ({
                let s0 = CommandHandler::init_state(
                    old(self).cmds.deep_view(),
                    old(self).current_dir@,
                    old(self).users_list.deep_view(),
                );
                match r {
                    HandlerStep::Done { reply, dir } => {
                        &&& spec_run(s0, old(fs)@) == (SpecStep::SDone {
                            payload: (match spec_run(s0, old(fs)@) {
                                SpecStep::SDone { payload, .. } => payload,
                                _ => None,
                            }),
                            dir: dir@,
                            fs: final(fs)@,
                        })
                        &&& reply@ == reply_spec(
                            match spec_run(s0, old(fs)@) {
                                SpecStep::SDone { payload, .. } => payload,
                                _ => None,
                            },
                            dir@,
                        )
                        &&& dir.wf()
                        &&& final(self).current_dir@ == dir@
                    },
                    HandlerStep::Exec { program, args, pending } => {
                        &&& spec_run(s0, old(fs)@) == (SpecStep::SExec {
                            program: program@,
                            st: pending@,
                            fs: final(fs)@,
                        })
                        &&& program.wf()
                        &&& file_exec_v(final(fs)@, program@)
                        &&& pending_ok(pending@)
                        &&& args.deep_view() == pending@.cmds[pending@.i].args.skip(1)
                    },
                }
            }),
    {
        let mut cmds: Vec<Command> = Vec::new();
        let mut i: usize = 0;
        proof {
            assert(cmds.deep_view() =~= self.cmds.deep_view().subrange(0, 0));
        }
        while i < self.cmds.len()
            invariant
                i <= self.cmds.len(),
                cmds.deep_view() == self.cmds.deep_view().subrange(0, i as int),
                self.cmds.deep_view() == old(self).cmds.deep_view(),
                self == old(self),
            decreases self.cmds.len() - i,
        {
            let ghost pre = cmds.deep_view();
            cmds.push(clone_command(&self.cmds[i]));
            proof {
                assert(cmds.deep_view() =~= pre.push(self.cmds.deep_view()[i as int]));
                assert(pre.push(self.cmds.deep_view()[i as int]) =~= self.cmds.deep_view()
                    .subrange(0, i + 1));
            }
            i += 1;
        }
        proof {
            assert(self.cmds.deep_view().subrange(0, self.cmds.len() as int)
                =~= self.cmds.deep_view());
        }
        let st = PipelineState {
            cmds,
            i: 0,
            jump_cmd: false,
            last_succes: true,
            cmd_succes: true,
            result: None,
            cmds_output: String::new(),
            input: None,
            final_result: None,
            current_dir: self.current_dir.clone_path(),
            users_list: clone_string_vec(&self.users_list),
        };
        proof {
            assert(st@ == CommandHandler::init_state(
                old(self).cmds.deep_view(),
                old(self).current_dir@,
                old(self).users_list.deep_view(),
            ));
        }
        let r = run_loop(st, fs);
        match r {
            HandlerStep::Done { reply, dir } => {
                self.current_dir = dir.clone_path();
                HandlerStep::Done { reply, dir }
            },
            other => other,
        }
    }
}

} // verus!
