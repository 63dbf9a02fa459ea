//! The laws the pipeline obeys: every finished reply matches the payload
//! grammar, short-circuit operators skip exactly as the previous success
//! dictates, the pipe routes output as input, an empty request is a no-op,
//! and a trailing operator yields an empty payload.

use vstd::prelude::*;

verus! {

use crate::commands::change_directory::cd_spec;
use crate::commands::executable_files::{exec_check_spec, exec_reply_spec, ExecDecisionV};
use crate::commands::global_regular_expresion_print::grep_spec;
use crate::commands::list_files::{
    entries_render, entry_render, ls_errors, ls_kept_paths, ls_listings, ls_spec,
};
use crate::commands::word_count::wc_spec;
use crate::format::{
    lemma_payload_concat, lemma_payload_empty, lemma_payload_errword, lemma_payload_section,
    lemma_payload_section_tailed, lemma_payload_sep, payload_wf,
};
use crate::fs_model::FsNodeV;
use crate::handler::{
    after_once, opt_str, spec_after, spec_resume, spec_run, CommandHandler, SpecStep, StateV,
};
use crate::lexer::CommandV;
use crate::operation::{op_of, op_output_spec, op_string, Operation};
use crate::path::join_spec;
use crate::runner::{run_spec, verb_of, CommandsV, RunStepV};

broadcast use vstd::string::group_string_axioms;

/// The payload pieces a running pipeline carries all match the grammar.
pub open spec fn state_pw(st: StateV) -> bool {
    &&& payload_wf(st.acc)
    &&& (match st.result {
        Some(s) => payload_wf(s),
        None => true,
    })
    &&& (match st.final_out {
        Some(s) => payload_wf(s),
        None => true,
    })
}

/// The payload of a finished pipeline matches the grammar; a suspended one
/// still carries grammatical pieces.
pub open spec fn step_pw(s: SpecStep) -> bool {
    match s {
        SpecStep::SDone { payload, .. } => match payload {
            Some(p) => payload_wf(p),
            None => true,
        },
        SpecStep::SExec { st, .. } => state_pw(st),
    }
}

proof fn lemma_cd_output_wf(args: Seq<Seq<char>>, cur: Seq<Seq<char>>, ns: Seq<FsNodeV>)
    ensures
        payload_wf(cd_spec(args, cur, ns).1),
{
    if args.len() == 1 {
        lemma_payload_empty();
    } else if args.len() == 2 {
        match join_spec(cur, args[1]) {
            None => {
                lemma_payload_empty();
            },
            Some(p) => {
                lemma_payload_empty();
                lemma_payload_section("?&E"@, "cd: No such file or directory"@);
                lemma_payload_section("?&E"@, "cd: Not a directory"@);
            },
        }
    } else {
        lemma_payload_section("?&E"@, "cd: too many arguments"@);
    }
}

proof fn lemma_entries_tail(es: Seq<crate::fs_model::DirEntryV>)
    ensures
        es.len() > 0 ==> entries_render(es).len() >= 2 && entries_render(es)[entries_render(
            es,
        ).len() - 2] == '\n' && entries_render(es)[entries_render(es).len() - 1] == '\n',
    decreases es.len(),
{
    reveal_strlit("\n\n");
    if es.len() > 0 {
        lemma_entries_tail(es.drop_last());
        let er = entry_render(es.last());
        assert(er.len() >= 2 && er[er.len() - 2] == '\n' && er[er.len() - 1] == '\n') by {
            reveal_strlit("^!");
            reveal_strlit("^#");
        }
        let whole = entries_render(es);
        assert(whole == entries_render(es.drop_last()) + er);
        assert(whole[whole.len() - 1] == er[er.len() - 1]);
        assert(whole[whole.len() - 2] == er[er.len() - 2]);
    }
}

proof fn lemma_list_section_wf(es: Seq<crate::fs_model::DirEntryV>)
    ensures
        payload_wf("?&L"@ + "\n\n"@ + entries_render(es)),
{
    reveal_strlit("\n\n");
    let body = entries_render(es);
    let rest = "\n\n"@ + body;
    assert(rest.len() >= 2);
    if es.len() == 0 {
        assert(body.len() == 0);
        assert(rest[rest.len() - 2] == '\n' && rest[rest.len() - 1] == '\n');
    } else {
        lemma_entries_tail(es);
        assert(rest[rest.len() - 2] == body[body.len() - 2]);
        assert(rest[rest.len() - 1] == body[body.len() - 1]);
    }
    lemma_payload_section_tailed("?&L"@, rest);
    assert("?&L"@ + rest =~= "?&L"@ + "\n\n"@ + body);
}

proof fn lemma_ls_errors_wf(ns: Seq<FsNodeV>, cur: Seq<Seq<char>>, paths: Seq<Seq<Seq<char>>>)
    ensures
        payload_wf(ls_errors(ns, cur, paths)),
    decreases paths.len(),
{
    if paths.len() == 0 {
        lemma_payload_empty();
    } else {
        lemma_ls_errors_wf(ns, cur, paths.drop_last());
        let p = paths.last();
        if !crate::fs_model::exists_v(ns, p) || crate::fs_model::is_file_v(ns, p) {
            let content = "ls: cannot access '"@ + crate::strutil::join_with(
                p.skip(cur.len() as int),
                "/"@,
            ) + "': No such file or directory\n"@;
            lemma_payload_section("?&E"@, content);
            assert("?&E"@ + content + "\n\n"@ =~= "?&E"@ + "ls: cannot access '"@
                + crate::strutil::join_with(p.skip(cur.len() as int), "/"@)
                + "': No such file or directory\n"@ + "\n\n"@);
            lemma_payload_concat(
                ls_errors(ns, cur, paths.drop_last()),
                "?&E"@ + content + "\n\n"@,
            );
        } else {
            assert(ls_errors(ns, cur, paths) =~= ls_errors(ns, cur, paths.drop_last()));
        }
    }
}

proof fn lemma_ls_listings_wf(ns: Seq<FsNodeV>, paths: Seq<Seq<Seq<char>>>)
    ensures
        payload_wf(ls_listings(ns, paths).0),
    decreases paths.len(),
{
    if paths.len() == 0 {
        lemma_payload_empty();
    } else {
        lemma_ls_listings_wf(ns, paths.drop_last());
        let p = paths.last();
        if crate::fs_model::is_dir_v(ns, p) {
            let es = crate::fs_model::children_of(ns, p);
            lemma_list_section_wf(es);
            lemma_payload_concat(
                ls_listings(ns, paths.drop_last()).0,
                "?&L"@ + "\n\n"@ + entries_render(es),
            );
            assert(ls_listings(ns, paths).0 =~= ls_listings(ns, paths.drop_last()).0 + ("?&L"@
                + "\n\n"@ + entries_render(es)));
        }
    }
}

proof fn lemma_ls_output_wf(ns: Seq<FsNodeV>, cur: Seq<Seq<char>>, args: Seq<Seq<char>>)
    ensures
        payload_wf(ls_spec(ns, cur, args).0),
{
    if args.len() == 1 {
        lemma_list_section_wf(crate::fs_model::children_of(ns, cur));
    } else {
        let paths = ls_kept_paths(cur, args.skip(1));
        lemma_ls_errors_wf(ns, cur, paths);
        lemma_ls_listings_wf(ns, paths);
        lemma_payload_concat(ls_errors(ns, cur, paths), ls_listings(ns, paths).0);
    }
}

proof fn lemma_grep_output_wf(
    ns: Seq<FsNodeV>,
    cur: Seq<Seq<char>>,
    args: Seq<Seq<char>>,
    input: Option<Seq<char>>,
)
    ensures
        payload_wf(grep_spec(ns, cur, args, input).0),
{
    if args.len() >= 3 {
        match join_spec(cur, args.last()) {
            Some(p) => {
                if crate::fs_model::is_file_v(ns, p) {
                    lemma_payload_section(
                        "?&C"@,
                        crate::commands::global_regular_expresion_print::grep_lines(
                            crate::commands::global_regular_expresion_print::lines_of(
                                crate::fs_model::file_content_v(ns, p),
                            ),
                            args[1],
                        ),
                    );
                } else {
                    lemma_payload_section("?&E"@, "grep: Is a directory"@);
                    lemma_payload_section("?&E"@, "grep: No such file or directory"@);
                }
            },
            None => {
                lemma_payload_section("?&E"@, "grep: No such file or directory"@);
            },
        }
    } else if args.len() == 2 && input is Some {
        lemma_payload_section(
            "?&C"@,
            crate::commands::global_regular_expresion_print::grep_lines(
                crate::commands::global_regular_expresion_print::lines_of(
                    crate::format::strip_spec(input->0),
                ),
                args[1],
            ),
        );
    } else {
        lemma_payload_section("?&E"@, "Usage: grep PATTERNS [FILE]"@);
    }
}

/// Every output the command dispatch produces matches the grammar.
pub proof fn lemma_run_output_wf(
    c: CommandV,
    dir: Seq<Seq<char>>,
    input: Option<Seq<char>>,
    users: Seq<Seq<char>>,
    ns: Seq<FsNodeV>,
)
    ensures
        (match run_spec(c, dir, input, users, ns) {
            RunStepV::Done { output, .. } => match output {
                Some(o) => payload_wf(o),
                None => true,
            },
            RunStepV::Exec { .. } => true,
        }),
{
    lemma_payload_empty();
    if c.args.len() == 0 {
        lemma_payload_section("?&E"@, "Error , Command "@ + " not found "@);
    } else {
        match verb_of(c.args[0]) {
            CommandsV::ChangeDirectory => {
                lemma_cd_output_wf(c.args, dir, ns);
            },
            CommandsV::PrintWorkingDirectory => {
                lemma_payload_section(
                    "?&N"@,
                    "home:/"@ + crate::strutil::join_with(dir, "/"@),
                );
            },
            CommandsV::ListFiles => {
                lemma_ls_output_wf(ns, dir, c.args);
            },
            CommandsV::Echo => {
                lemma_payload_section("?&N"@, crate::commands::echo::echo_body(c.args.skip(1)));
            },
            CommandsV::Cat => {
                lemma_payload_section(
                    "?&N"@,
                    crate::commands::concatenate::cat_body(ns, dir, c.args.skip(1)),
                );
            },
            CommandsV::WordCount => {
                let (out, st) = wc_spec(ns, dir, c.args, input);
                if c.args.len() != 1 {
                    lemma_payload_section("?&N"@, wc_spec(ns, dir, c.args, input).0.subrange(
                        3,
                        out.len() - 2,
                    ));
                    let body = crate::commands::word_count::wc_body(ns, dir, c.args.skip(1)).0;
                    lemma_payload_section("?&N"@, body);
                } else {
                    match input {
                        Some(s) => {
                            lemma_payload_section(
                                "?&N"@,
                                crate::strutil::dec_str(
                                    crate::commands::word_count::wc_count(s),
                                ),
                            );
                        },
                        None => {
                            lemma_payload_section("?&N"@, crate::strutil::dec_str(0));
                        },
                    }
                }
            },
            CommandsV::Grep => {
                lemma_grep_output_wf(ns, dir, c.args, input);
            },
            CommandsV::Users => {
                lemma_payload_section(
                    "?&N"@,
                    crate::commands::users::users_body(users),
                );
            },
            CommandsV::MakeDir => {
                lemma_payload_section("?&E"@, "mkdir: missing operand"@);
                let body = crate::commands::make_director::mkdir_body(ns, dir, c.args.skip(1)).1;
                lemma_payload_section("?&N"@, body);
            },
            CommandsV::RemoveDir => {
                lemma_payload_section("?&E"@, "rmdir: missing operand"@);
                let body = crate::commands::remove_director::rmdir_body(ns, dir, c.args.skip(1)).1;
                lemma_payload_section("?&E"@, body);
            },
            CommandsV::Remove => {
                lemma_payload_section("?&E"@, "rm: missing file"@);
                let body = crate::commands::remove_file::rm_body(ns, dir, c.args.skip(1)).1;
                lemma_payload_section("?&E"@, body);
            },
            CommandsV::MoveFileAndDir => {
                lemma_payload_section("?&E"@, "mv: missing destination file"@);
                lemma_payload_section("?&E"@, "mv: No such file or directory"@);
                lemma_payload_section("?&E"@, "mv: Not a directory"@);
                if c.args.len() > 2 {
                    match join_spec(dir, c.args.last()) {
                        Some(d) => {
                            if d.len() > 0 {
                                let body = crate::commands::move_class::mv_body(
                                    crate::fs_model::add_dirs(ns, d.drop_last(), 1).0,
                                    dir,
                                    c.args.subrange(1, c.args.len() - 1),
                                    d,
                                ).1;
                                lemma_payload_section("?&N"@, body);
                            }
                        },
                        None => {},
                    }
                }
            },
            CommandsV::Unknown(name) => {
                if crate::strutil::has_prefix(name, "./"@) {
                    match exec_check_spec(ns, dir, c.args) {
                        ExecDecisionV::Run { .. } => {},
                        ExecDecisionV::Refuse { output } => {
                            let arg = c.args[0];
                            lemma_payload_section(
                                "?&E"@,
                                " "@ + arg + ": No such file or directory"@,
                            );
                            lemma_payload_section("?&E"@, " "@ + arg + ": Is a directory"@);
                            lemma_payload_section(
                                "?&E"@,
                                " "@ + arg + ": cannot execute binary file: Exec format error"@,
                            );
                        },
                    }
                } else {
                    lemma_payload_section("?&E"@, "Error , Command "@ + name + " not found "@);
                }
            },
        }
    }
}

/// One operator step keeps every payload piece grammatical.
proof fn lemma_after_once_pw(
    st: StateV,
    ns: Seq<FsNodeV>,
    result: Option<Seq<char>>,
    cmd_ok: bool,
)
    requires
        0 <= st.i < st.cmds.len(),
        payload_wf(st.acc),
        (match result {
            Some(s) => payload_wf(s),
            None => true,
        }),
        (match st.final_out {
            Some(s) => payload_wf(s),
            None => true,
        }),
    ensures
        ({
            let (st2, ns2) = after_once(st, ns, result, cmd_ok);
            &&& payload_wf(st2.acc)
            &&& (match st2.result {
                Some(s) => payload_wf(s),
                None => true,
            })
            &&& (match st2.final_out {
                Some(s) => payload_wf(s),
                None => true,
            })
            &&& st2.i == st.i + 1
        }),
{
    lemma_payload_empty();
    lemma_payload_sep();
    lemma_payload_errword();
    let out = opt_str(result);
    assert(payload_wf(out)) by {
        match result {
            Some(s) => {},
            None => {},
        }
    }
    lemma_payload_concat(st.acc, " "@);
    lemma_payload_concat(st.acc + " "@, out);
    let o5 = op_output_spec(
        st.cmds[st.i].op,
        out,
        st.acc,
        st.last_ok && cmd_ok,
        crate::handler::target_of(st.cmds, st.i),
        st.dir,
        ns,
    );
    let emit = o5.2;
    let fin2 = opt_str(
        if op_string(st.cmds[st.i].op) == "||"@ && !o5.3 {
            Option::<Seq<char>>::None
        } else {
            st.final_out
        },
    );
    assert(payload_wf(fin2)) by {
        match st.final_out {
            Some(s) => {},
            None => {},
        }
    }
    lemma_payload_concat(fin2, emit);
}

proof fn lemma_spec_run_pw(st: StateV, ns: Seq<FsNodeV>)
    requires
        0 <= st.i <= st.cmds.len(),
        state_pw(st),
    ensures
        step_pw(spec_run(st, ns)),
    decreases st.cmds.len() - st.i, 1int,
{
    if st.i >= st.cmds.len() {
    } else if crate::handler::aborts_at(st.cmds, st.i) {
    } else {
        let st1 = StateV { input: crate::handler::input_at(st, ns), ..st };
        if st.jump {
            lemma_spec_after_pw(st1, ns, st.result, st.cmd_ok);
        } else {
            match run_spec(st.cmds[st.i], st.dir, st1.input, st.users, ns) {
                RunStepV::Done { path, output, ok, fs } => {
                    lemma_run_output_wf(st.cmds[st.i], st.dir, st1.input, st.users, ns);
                    lemma_spec_after_pw(StateV { dir: path, ..st1 }, fs, output, ok);
                },
                RunStepV::Exec { program } => {},
            }
        }
    }
}

proof fn lemma_spec_after_pw(
    st: StateV,
    ns: Seq<FsNodeV>,
    result: Option<Seq<char>>,
    cmd_ok: bool,
)
    requires
        0 <= st.i < st.cmds.len(),
        payload_wf(st.acc),
        (match result {
            Some(s) => payload_wf(s),
            None => true,
        }),
        (match st.final_out {
            Some(s) => payload_wf(s),
            None => true,
        }),
    ensures
        step_pw(spec_after(st, ns, result, cmd_ok)),
    decreases st.cmds.len() - st.i, 0int,
{
    lemma_after_once_pw(st, ns, result, cmd_ok);
    let (st2, ns2) = after_once(st, ns, result, cmd_ok);
    lemma_spec_run_pw(st2, ns2);
}

/// Law: whatever the request, the tree and the session state, every reply
/// the pipeline finishes carries a payload in the styled grammar: a
/// concatenation of styled sections, the spaces the flushing inserts, and
/// the bare word a failed redirection leaves; a suspension at a local
/// executable keeps every carried piece in that grammar too.
/// A two-character pattern absent from `x` stays absent when a character
/// that cannot start it is put in front.
proof fn lemma_no_sub_shift(x: Seq<char>, pat: Seq<char>, c: char)
    requires
        pat.len() == 2,
        !crate::strutil::contains_sub(x, pat),
        c != pat[0],
    ensures
        !crate::strutil::contains_sub(seq![c] + x, pat),
{
    let xp = seq![c] + x;
    crate::strutil::lemma_first_occur(x, pat);
    assert forall|k: int| !crate::strutil::match_at(xp, pat, k) by {
        if crate::strutil::match_at(xp, pat, k) {
            assert(xp.subrange(k, k + 2)[0] == xp[k]);
            assert(xp.subrange(k, k + 2)[1] == xp[k + 1]);
            if k == 0 {
                assert(xp[0] == c);
            } else {
                assert(crate::strutil::match_at(x, pat, k - 1)) by {
                    assert(x.subrange(k - 1, k + 1) =~= xp.subrange(k, k + 2));
                }
            }
        }
    }
    crate::strutil::lemma_first_occur_none(xp, pat);
}

/// A well-formed component joined onto the root resolves to itself.
proof fn lemma_component_join(f: Seq<char>)
    requires
        crate::path::wf_component(f),
    ensures
        join_spec(Seq::<Seq<char>>::empty(), f) == Some(seq![f]),
{
    reveal_strlit("/");
    assert forall|k: int| !crate::strutil::match_at(f, "/"@, k) by {
        if crate::strutil::match_at(f, "/"@, k) {
            assert(f.subrange(k, k + 1)[0] == f[k]);
            assert(f.contains('/'));
        }
    }
    crate::strutil::lemma_first_occur_none(f, "/"@);
    assert(crate::strutil::split_on(f, "/"@) == seq![f]);
    assert(f[0] != '/') by {
        if f[0] == '/' {
            assert(f.contains('/'));
        }
    }
    reveal_strlit(".");
    reveal_strlit("..");
    let empty_dir = Seq::<Seq<char>>::empty();
    assert(crate::path::resolve_rec(empty_dir, seq![f]) == crate::path::resolve_rec(
        empty_dir.push(f),
        seq![f].skip(1),
    ));
    assert(seq![f].skip(1) =~= Seq::<Seq<char>>::empty());
    assert(crate::path::resolve_rec(empty_dir.push(f), Seq::<Seq<char>>::empty()) == Some(
        empty_dir.push(f),
    ));
    assert(empty_dir.push(f) =~= seq![f]);
}

/// A non-empty text without a section break is its own single fragment and
/// its own whitespace-normalized form.
proof fn lemma_single_fragment(xp: Seq<char>)
    requires
        xp.len() > 0,
        !crate::strutil::contains_sub(xp, "\n\n"@),
    ensures
        crate::format::keep_nonempty(crate::strutil::split_on(xp, "\n\n"@)) == seq![xp],
        crate::format::normalized(xp) == xp,
{
    crate::strutil::lemma_first_occur(xp, "\n\n"@);
    assert(crate::strutil::split_on(xp, "\n\n"@) == seq![xp]);
    assert(crate::format::keep_nonempty(seq![xp]) =~= seq![xp]) by {
        assert(seq![xp].drop_last() =~= Seq::<Seq<char>>::empty());
        assert(seq![xp].last() == xp);
        assert(crate::format::keep_nonempty(Seq::<Seq<char>>::empty())
            == Seq::<Seq<char>>::empty());
        assert(crate::format::keep_nonempty(seq![xp])
            == crate::format::keep_nonempty(Seq::<Seq<char>>::empty()) + seq![xp]);
    }
    assert(crate::strutil::join_with(seq![xp], " "@) == xp);
}

/// Law: echoing a word into a fresh file and reading it back.  Over a tree
/// without `f`, the request `echo X > f ; cat f` from the root leaves `f`
/// holding the marker-stripped text ` X`, and the reply payload carries
/// that text in a Normal section behind the flush separators.
#[verifier::rlimit(100)]
pub proof fn lemma_redirect_round_trip(
    x: Seq<char>,
    f: Seq<char>,
    ns: Seq<FsNodeV>,
    users: Seq<Seq<char>>,
)
    requires
        x.len() > 0,
        x.last() != '\n',
        !crate::strutil::contains_sub(x, "?&"@),
        !crate::strutil::contains_sub(x, "\n\n"@),
        crate::path::wf_component(f),
        !crate::fs_model::has_path(ns, seq![f]),
    ensures
        ({
            let cs = seq![
                CommandV { args: seq!["echo"@, x], op: Some(">"@) },
                CommandV { args: seq![f], op: Some(";"@) },
                CommandV { args: seq!["cat"@, f], op: None },
            ];
            let r = spec_run(CommandHandler::init_state(cs, Seq::<Seq<char>>::empty(), users), ns);
            r matches SpecStep::SDone { payload, dir, fs } && payload == Some(
                " "@ + " "@ + ("?&N"@ + (seq![' '] + x) + "\n\n"@),
            ) && dir == Seq::<Seq<char>>::empty() && crate::fs_model::is_file_v(fs, seq![f])
                && crate::fs_model::file_content_v(fs, seq![f]) == seq![' '] + x
        }),
{
    reveal_strlit(">");
    reveal_strlit(";");
    reveal_strlit("|");
    reveal_strlit("<");
    reveal_strlit("&&");
    reveal_strlit("||");
    reveal_strlit("");
    reveal_strlit(" ");
    reveal_strlit("?&N");
    reveal_strlit("?&");
    reveal_strlit("\n\n");
    reveal_strlit("echo");
    reveal_strlit("cat");
    reveal_strlit("cd");
    reveal_strlit("next");
    reveal_strlit("pwd");
    reveal_strlit("ls");
    reveal_strlit("wc");
    reveal_strlit("grep");
    reveal_strlit("mv");
    reveal_strlit("mkdir");
    reveal_strlit("rm");
    reveal_strlit("rmdir");
    reveal_strlit("who");
    reveal_strlit("users");
    assert(">"@[0] == '>' && "<"@[0] == '<' && "|"@[0] == '|' && ";"@[0] == ';');
    assert(">"@.len() == 1 && "<"@.len() == 1 && "|"@.len() == 1 && ";"@.len() == 1
        && "&&"@.len() == 2 && "||"@.len() == 2 && ""@.len() == 0);
    let cs = seq![
        CommandV { args: seq!["echo"@, x], op: Some(">"@) },
        CommandV { args: seq![f], op: Some(";"@) },
        CommandV { args: seq!["cat"@, f], op: None },
    ];
    let root = Seq::<Seq<char>>::empty();
    let empty_txt = Seq::<char>::empty();
    let st0 = CommandHandler::init_state(cs, root, users);
    let xp = seq![' '] + x;
    // Step one: `echo X`, then the `>` redirection writes the stripped text.
    assert(!crate::handler::aborts_at(cs, 0));
    assert(crate::handler::input_at(st0, ns) == st0.input);
    assert(StateV { input: crate::handler::input_at(st0, ns), ..st0 } == st0);
    assert(verb_of("echo"@) == CommandsV::Echo) by {
        assert("next"@[0] == 'n' && "echo"@[0] == 'e');
    }
    let echo_out = crate::commands::echo::echo_spec(cs[0].args);
    assert(cs[0].args.skip(1) =~= seq![x]);
    assert(crate::commands::echo::echo_body(seq![x]) == xp) by {
        assert(seq![x].drop_last() =~= Seq::<Seq<char>>::empty());
        assert(seq![x].last() == x);
        assert(crate::commands::echo::echo_body(Seq::<Seq<char>>::empty()) == empty_txt);
        assert(crate::commands::echo::echo_body(seq![x]) == empty_txt + (seq![' '] + x));
        assert(empty_txt + (seq![' '] + x) =~= xp);
    }
    assert(echo_out == "?&N"@ + xp + "\n\n"@);
    assert(run_spec(cs[0], root, st0.input, users, ns) == (RunStepV::Done {
        path: root,
        output: Some(echo_out),
        ok: true,
        fs: ns,
    }));
    assert(spec_run(st0, ns) == spec_after(st0, ns, Some(echo_out), true));
    // The redirection's write: target `f`, content the stripped section.
    lemma_component_join(f);
    assert(op_string(Some(">"@)) == ">"@);
    assert(op_of(">"@) is OutputRedirection);
    assert(crate::handler::target_of(cs, 0) == Some(f));
    assert(!crate::strutil::contains_sub(xp, "?&"@)) by {
        lemma_no_sub_shift(x, "?&"@, ' ');
    }
    assert(!crate::strutil::contains_sub(xp, "\n\n"@)) by {
        lemma_no_sub_shift(x, "\n\n"@, ' ');
    }
    lemma_single_fragment(xp);
    assert(crate::format::plain_text(xp)) by {
        assert(xp.last() == x.last());
        assert forall|k: int|
            0 <= k < crate::format::keep_nonempty(
                crate::strutil::split_on(xp, "\n\n"@),
            ).len() implies (#[trigger] crate::format::keep_nonempty(
            crate::strutil::split_on(xp, "\n\n"@),
        )[k])[0] != '^' by {
            assert(crate::format::keep_nonempty(crate::strutil::split_on(xp, "\n\n"@))[k]
                == xp);
            assert(xp[0] == ' ');
        }
    }
    crate::format::lemma_strip_wrapped(xp);
    assert(crate::format::strip_spec(echo_out) == xp);
    let new_node = FsNodeV {
        path: seq![f],
        kind: crate::fs_model::FsKindV::File { content: xp, executable: false },
    };
    let ns2 = ns.push(new_node);
    assert(crate::fs_model::write_file_spec(ns, seq![f], xp) == (ns2, true)) by {
        assert(!crate::fs_model::is_dir_v(ns, seq![f]));
        assert(seq![f].drop_last() =~= Seq::<Seq<char>>::empty());
        assert(crate::fs_model::add_dirs(ns, Seq::<Seq<char>>::empty(), 1) == (ns, true));
        assert(!crate::fs_model::is_file_v(ns, seq![f]));
    }
    let o5a = op_output_spec(
        Some(">"@),
        opt_str(Some(echo_out)),
        st0.acc,
        true,
        Some(f),
        root,
        ns,
    );
    assert(o5a == (ns2, empty_txt, empty_txt, true, true));
    let (st_a, ns_a) = after_once(st0, ns, Some(echo_out), true);
    assert(ns_a == ns2);
    assert(st_a.i == 1 && st_a.jump && st_a.last_ok && st_a.cmd_ok && st_a.result is None
        && st_a.acc == empty_txt && st_a.input is None && st_a.final_out is None && st_a.dir
        == root && st_a.cmds == cs);
    assert(spec_after(st0, ns, Some(echo_out), true) == spec_run(st_a, ns2));
    // Step two: the target record is skipped; the separator flushes a space.
    assert(op_string(cs[1].op) == ";"@);
    assert(!crate::handler::aborts_at(cs, 1));
    assert(crate::handler::input_at(st_a, ns2) == st_a.input);
    assert(StateV { input: crate::handler::input_at(st_a, ns2), ..st_a } == st_a);
    assert(spec_run(st_a, ns2) == spec_after(st_a, ns2, st_a.result, st_a.cmd_ok));
    assert(op_of(";"@) is CommandSeparator);
    let sep_emit = empty_txt + " "@ + empty_txt;
    let o5b = op_output_spec(Some(";"@), empty_txt, empty_txt, true, Some("cat"@), root, ns2);
    assert(o5b == (ns2, empty_txt, sep_emit, false, true)) by {
        assert(crate::handler::target_of(cs, 1) == Some("cat"@));
        assert(opt_str(st_a.result) == empty_txt);
    }
    assert(sep_emit.len() == 1);
    let (st_b, ns_b) = after_once(st_a, ns2, st_a.result, true);
    assert(ns_b == ns2);
    let pay1 = empty_txt + sep_emit;
    assert(st_b.i == 2 && !st_b.jump && st_b.last_ok && st_b.cmd_ok && st_b.result is None
        && st_b.acc == empty_txt && st_b.input is None && st_b.final_out == Some(pay1)
        && st_b.dir == root && st_b.cmds == cs);
    assert(spec_after(st_a, ns2, st_a.result, st_a.cmd_ok) == spec_run(st_b, ns2));
    // Step three: `cat f` reads the written text back.
    assert(op_string(cs[2].op) =~= empty_txt);
    assert(!crate::handler::aborts_at(cs, 2));
    assert(crate::handler::input_at(st_b, ns2) == st_b.input);
    assert(StateV { input: crate::handler::input_at(st_b, ns2), ..st_b } == st_b);
    assert(verb_of("cat"@) == CommandsV::Cat) by {
        assert("pwd"@[0] == 'p' && "cat"@[0] == 'c');
    }
    crate::fs_model::lemma_path_index(ns2, seq![f]);
    crate::fs_model::lemma_path_index(ns, seq![f]);
    assert(crate::fs_model::is_file_v(ns2, seq![f]) && crate::fs_model::file_content_v(
        ns2,
        seq![f],
    ) == xp) by {
        assert(ns2[ns.len() as int] == new_node);
        let pi = crate::fs_model::path_index(ns2, seq![f]);
        assert(pi >= 0);
        if pi < ns.len() {
            assert(ns2[pi] == ns[pi]);
        }
        assert(pi == ns.len());
    }
    let cat_out = crate::commands::concatenate::cat_spec(ns2, root, cs[2].args);
    assert(cs[2].args.skip(1) =~= seq![f]);
    assert(crate::commands::concatenate::cat_body(ns2, root, seq![f]) == xp) by {
        assert(seq![f].drop_last() =~= Seq::<Seq<char>>::empty());
        assert(seq![f].last() == f);
        assert(crate::commands::concatenate::cat_body(ns2, root, Seq::<Seq<char>>::empty())
            == empty_txt);
        assert(crate::commands::concatenate::cat_piece(ns2, root, f) == xp);
    }
    assert(cat_out == "?&N"@ + xp + "\n\n"@);
    assert(run_spec(cs[2], root, st_b.input, users, ns2) == (RunStepV::Done {
        path: root,
        output: Some(cat_out),
        ok: true,
        fs: ns2,
    }));
    assert(spec_run(st_b, ns2) == spec_after(st_b, ns2, Some(cat_out), true));
    let cat_emit = empty_txt + " "@ + cat_out;
    let o5c = op_output_spec(Option::<Seq<char>>::None, cat_out, empty_txt, true, None, root, ns2);
    assert(o5c == (ns2, empty_txt, cat_emit, false, true)) by {
        assert(op_of(op_string(Option::<Seq<char>>::None)) is CommandSeparator);
    }
    assert(cat_emit.len() > 0);
    let (st_c, ns_c) = after_once(st_b, ns2, Some(cat_out), true);
    assert(ns_c == ns2);
    assert(st_c.i == 3 && st_c.final_out == Some(pay1 + cat_emit) && st_c.dir == root);
    assert(spec_after(st_b, ns2, Some(cat_out), true) == spec_run(st_c, ns2));
    assert(spec_run(st_c, ns2) == (SpecStep::SDone {
        payload: st_c.final_out,
        dir: root,
        fs: ns2,
    }));
    assert(pay1 + cat_emit =~= " "@ + " "@ + ("?&N"@ + (seq![' '] + x) + "\n\n"@));
}

/// Law: a failed removal short-circuits an `&&`.  Over a tree without `f`,
/// the request `rmdir f && c` from the root leaves the tree unchanged and
/// pays out exactly the one Error section of the failed removal, whatever
/// the skipped command `c` would have printed.
#[verifier::rlimit(100)]
pub proof fn lemma_failed_removal_short_circuit(
    f: Seq<char>,
    c: CommandV,
    ns: Seq<FsNodeV>,
    users: Seq<Seq<char>>,
)
    requires
        crate::path::wf_component(f),
        !crate::fs_model::has_path(ns, seq![f]),
        c.op is None,
    ensures
        ({
            let cs = seq![CommandV { args: seq!["rmdir"@, f], op: Some("&&"@) }, c];
            let r = spec_run(CommandHandler::init_state(cs, Seq::<Seq<char>>::empty(), users), ns);
            r matches SpecStep::SDone { payload, dir, fs } && payload == Some(
                " "@ + " "@ + ("?&E"@ + ("rmdir: failed to remove '"@ + f
                    + "': No such file or directory"@) + "\n\n"@),
            ) && dir == Seq::<Seq<char>>::empty() && fs == ns
        }),
{
    reveal_strlit(">");
    reveal_strlit(";");
    reveal_strlit("|");
    reveal_strlit("<");
    reveal_strlit("&&");
    reveal_strlit("||");
    reveal_strlit("");
    reveal_strlit(" ");
    reveal_strlit("?&E");
    reveal_strlit("\n\n");
    reveal_strlit("rmdir: failed to remove '");
    reveal_strlit("cd");
    reveal_strlit("next");
    reveal_strlit("pwd");
    reveal_strlit("ls");
    reveal_strlit("echo");
    reveal_strlit("wc");
    reveal_strlit("cat");
    reveal_strlit("grep");
    reveal_strlit("mv");
    reveal_strlit("mkdir");
    reveal_strlit("rm");
    reveal_strlit("rmdir");
    reveal_strlit("who");
    reveal_strlit("users");
    assert(">"@[0] == '>' && "<"@[0] == '<' && "|"@[0] == '|' && ";"@[0] == ';' && "&&"@[0]
        == '&' && "||"@[0] == '|');
    assert(">"@.len() == 1 && "<"@.len() == 1 && "|"@.len() == 1 && ";"@.len() == 1
        && "&&"@.len() == 2 && "||"@.len() == 2 && ""@.len() == 0);
    let cs = seq![CommandV { args: seq!["rmdir"@, f], op: Some("&&"@) }, c];
    let root = Seq::<Seq<char>>::empty();
    let empty_txt = Seq::<char>::empty();
    let st0 = CommandHandler::init_state(cs, root, users);
    // Step one: the removal fails on the missing name.
    assert(!crate::handler::aborts_at(cs, 0));
    assert(crate::handler::input_at(st0, ns) == st0.input);
    assert(StateV { input: crate::handler::input_at(st0, ns), ..st0 } == st0);
    assert(verb_of("rmdir"@) == CommandsV::RemoveDir) by {
        assert("mkdir"@[0] == 'm' && "rmdir"@[0] == 'r');
        assert("rmdir"@.len() == 5 && "rm"@.len() == 2 && "mkdir"@.len() == 5);
    }
    lemma_component_join(f);
    let line = "rmdir: failed to remove '"@ + f + "': No such file or directory"@;
    let rmdir_out = "?&E"@ + line + "\n\n"@;
    assert(crate::commands::remove_director::rmdir_spec(ns, root, cs[0].args) == (
        ns,
        rmdir_out,
        false,
    )) by {
        assert(cs[0].args.skip(1) =~= seq![f]);
        assert(seq![f].drop_last() =~= Seq::<Seq<char>>::empty());
        assert(seq![f].last() == f);
        assert(crate::commands::remove_director::rmdir_body(
            ns,
            root,
            Seq::<Seq<char>>::empty(),
        ) == (ns, empty_txt, true));
        assert(!crate::fs_model::exists_v(ns, seq![f]));
        assert(crate::commands::remove_director::rmdir_step(ns, root, f) == (ns, line, false));
        assert(line.len() > 0);
        assert(crate::strutil::join_line(empty_txt, line) == line);
    }
    assert(run_spec(cs[0], root, st0.input, users, ns) == (RunStepV::Done {
        path: root,
        output: Some(rmdir_out),
        ok: false,
        fs: ns,
    }));
    assert(spec_run(st0, ns) == spec_after(st0, ns, Some(rmdir_out), false));
    // The `&&` sees the failure and skips the next command.
    assert(op_of("&&"@) is AndLogic);
    let o5a = op_output_spec(
        Some("&&"@),
        opt_str(Some(rmdir_out)),
        st0.acc,
        st0.last_ok && false,
        crate::handler::target_of(cs, 0),
        root,
        ns,
    );
    assert(o5a == (ns, empty_txt + " "@, empty_txt, true, false));
    let (st_a, ns_a) = after_once(st0, ns, Some(rmdir_out), false);
    assert(ns_a == ns);
    assert(st_a.i == 1 && st_a.jump && !st_a.last_ok && !st_a.cmd_ok && st_a.result == Some(
        rmdir_out,
    ) && st_a.acc == empty_txt + " "@ && st_a.final_out is None && st_a.dir == root
        && st_a.cmds == cs);
    assert(spec_after(st0, ns, Some(rmdir_out), false) == spec_run(st_a, ns));
    // Step two: skipped; the separator flushes the carried error section.
    assert(op_string(cs[1].op) =~= empty_txt);
    assert(!crate::handler::aborts_at(cs, 1));
    assert(crate::handler::input_at(st_a, ns) == st_a.input);
    assert(StateV { input: crate::handler::input_at(st_a, ns), ..st_a } == st_a);
    assert(spec_run(st_a, ns) == spec_after(st_a, ns, st_a.result, st_a.cmd_ok));
    assert(op_of(op_string(cs[1].op)) is CommandSeparator);
    let o5b = op_output_spec(
        cs[1].op,
        opt_str(Some(rmdir_out)),
        st_a.acc,
        st_a.last_ok && st_a.cmd_ok,
        crate::handler::target_of(cs, 1),
        root,
        ns,
    );
    let emit = (empty_txt + " "@) + " "@ + rmdir_out;
    assert(o5b == (ns, empty_txt, emit, false, true));
    assert(emit.len() > 0);
    let (st_b, ns_b) = after_once(st_a, ns, st_a.result, st_a.cmd_ok);
    assert(ns_b == ns);
    assert(st_b.i == 2 && st_b.final_out == Some(empty_txt + emit) && st_b.dir == root);
    assert(spec_after(st_a, ns, st_a.result, st_a.cmd_ok) == spec_run(st_b, ns));
    assert(spec_run(st_b, ns) == (SpecStep::SDone {
        payload: st_b.final_out,
        dir: root,
        fs: ns,
    }));
    assert(empty_txt + emit =~= " "@ + " "@ + ("?&E"@ + ("rmdir: failed to remove '"@ + f
        + "': No such file or directory"@) + "\n\n"@));
}

pub proof fn lemma_reply_grammar(
    cmds: Seq<CommandV>,
    dir: Seq<Seq<char>>,
    users: Seq<Seq<char>>,
    ns: Seq<FsNodeV>,
)
    ensures
        step_pw(spec_run(CommandHandler::init_state(cmds, dir, users), ns)),
{
    lemma_payload_empty();
    lemma_spec_run_pw(CommandHandler::init_state(cmds, dir, users), ns);
}

/// Law: resuming a suspended pipeline on any outcome of the spawned
/// process keeps the finished payload in the grammar.
pub proof fn lemma_resume_grammar(
    st: StateV,
    outcome: Option<(Seq<char>, Seq<char>)>,
    ns: Seq<FsNodeV>,
)
    requires
        0 <= st.i < st.cmds.len(),
        state_pw(st),
    ensures
        step_pw(spec_resume(st, outcome, ns)),
{
    let (out, ok) = exec_reply_spec(outcome);
    assert(payload_wf(out)) by {
        match outcome {
            None => {
                lemma_payload_section("?&E"@, "Unexpected error"@);
            },
            Some(o) => {
                lemma_payload_section("?&N"@, o.1);
                lemma_payload_section("?&N"@, o.0);
            },
        }
    }
    lemma_spec_after_pw(st, ns, Some(out), ok);
}

/// Boundary: an empty request finishes at once with an empty payload and
/// the working directory unchanged.
pub proof fn lemma_empty_input(dir: Seq<Seq<char>>, users: Seq<Seq<char>>, ns: Seq<FsNodeV>)
    ensures
        spec_run(CommandHandler::init_state(Seq::empty(), dir, users), ns)
            == (SpecStep::SDone { payload: Option::<Seq<char>>::None, dir, fs: ns }),
{
}

/// Law: `&&` skips the next command exactly when the step before it did
/// not succeed.
pub proof fn lemma_and_short_circuit(
    st: StateV,
    ns: Seq<FsNodeV>,
    result: Option<Seq<char>>,
    cmd_ok: bool,
)
    requires
        0 <= st.i < st.cmds.len(),
        op_string(st.cmds[st.i].op) == "&&"@,
    ensures
        after_once(st, ns, result, cmd_ok).0.jump == !(st.last_ok && cmd_ok),
        after_once(st, ns, result, cmd_ok).1 == ns,
{
    reveal_strlit("&&");
    reveal_strlit("|");
    reveal_strlit("||");
    reveal_strlit("<");
    reveal_strlit(">");
    assert("&&"@.len() == 2 && "|"@.len() == 1 && "<"@.len() == 1 && ">"@.len() == 1);
    assert("&&"@[0] == '&' && "||"@[0] == '|');
    assert(op_of("&&"@) is AndLogic);
}

/// Law: `||` skips the next command exactly when the step before it
/// succeeded.
pub proof fn lemma_or_short_circuit(
    st: StateV,
    ns: Seq<FsNodeV>,
    result: Option<Seq<char>>,
    cmd_ok: bool,
)
    requires
        0 <= st.i < st.cmds.len(),
        op_string(st.cmds[st.i].op) == "||"@,
    ensures
        after_once(st, ns, result, cmd_ok).0.jump == (st.last_ok && cmd_ok),
        after_once(st, ns, result, cmd_ok).1 == ns,
{
    reveal_strlit("&&");
    reveal_strlit("|");
    reveal_strlit("||");
    reveal_strlit("<");
    reveal_strlit(">");
    assert("||"@.len() == 2 && "|"@.len() == 1 && "<"@.len() == 1 && ">"@.len() == 1);
    assert("||"@[0] == '|' && "&&"@[0] == '&');
    assert(op_of("||"@) is OrLogic);
}

/// Law: `|` hands the step's output on as the next step's piped input, and
/// never skips the next command.
pub proof fn lemma_pipe_routes(
    st: StateV,
    ns: Seq<FsNodeV>,
    result: Option<Seq<char>>,
    cmd_ok: bool,
)
    requires
        0 <= st.i < st.cmds.len(),
        op_string(st.cmds[st.i].op) == "|"@,
    ensures
        after_once(st, ns, result, cmd_ok).0.input == result,
        after_once(st, ns, result, cmd_ok).0.jump == false,
        after_once(st, ns, result, cmd_ok).1 == ns,
{
    reveal_strlit("&&");
    reveal_strlit("|");
    reveal_strlit("||");
    reveal_strlit("<");
    reveal_strlit(">");
    assert("|"@.len() == 1);
    assert("|"@[0] == '|');
    assert(op_of("|"@) is Pipe);
}

/// Boundary: a lone command whose operator expects a right-hand command
/// that is not there yields an empty payload, whatever else happens.
#[verifier::rlimit(100)]
pub proof fn lemma_trailing_operator(
    c: CommandV,
    dir: Seq<Seq<char>>,
    users: Seq<Seq<char>>,
    ns: Seq<FsNodeV>,
)
    requires
        (c.op matches Some(t) && (t == "<"@ || t == ">"@ || t == "|"@ || t == "&&"@ || t
            == "||"@)),
    ensures
        (match spec_run(CommandHandler::init_state(seq![c], dir, users), ns) {
            SpecStep::SDone { payload, .. } => payload is None,
            SpecStep::SExec { st, .. } => forall|outcome: Option<(Seq<char>, Seq<char>)>,
                ns2: Seq<FsNodeV>|
                (#[trigger] spec_resume(st, outcome, ns2)) is SDone && spec_resume(
                    st,
                    outcome,
                    ns2,
                )->SDone_payload is None,
        }),
{
    reveal_strlit("&&");
    reveal_strlit("|");
    reveal_strlit("||");
    reveal_strlit("<");
    reveal_strlit(">");
    let st0 = CommandHandler::init_state(seq![c], dir, users);
    assert(st0.cmds[0] == c);
    let t = c.op->0;
    assert(op_string(c.op) == t);
    if t == "<"@ || t == ">"@ {
        assert(crate::handler::aborts_at(st0.cmds, 0));
    } else {
        assert(op_of(t) is Pipe || op_of(t) is AndLogic || op_of(t) is OrLogic);
        assert(!crate::handler::aborts_at(st0.cmds, 0));
        let st1 = StateV { input: crate::handler::input_at(st0, ns), ..st0 };
        match run_spec(c, dir, st1.input, st0.users, ns) {
            RunStepV::Done { path, output, ok, fs } => {
                let std = StateV { dir: path, ..st1 };
                assert(spec_run(st0, ns) == spec_after(std, fs, output, ok));
                let (st2, ns2) = after_once(std, fs, output, ok);
                let o5 = op_output_spec(
                    c.op,
                    opt_str(output),
                    std.acc,
                    std.last_ok && ok,
                    crate::handler::target_of(std.cmds, 0),
                    std.dir,
                    fs,
                );
                assert(o5.2.len() == 0);
                assert(st2.final_out is None);
                assert(st2.i == 1);
                assert(spec_run(st2, ns2) == (SpecStep::SDone {
                    payload: st2.final_out,
                    dir: st2.dir,
                    fs: ns2,
                }));
            },
            RunStepV::Exec { program } => {
                assert(spec_run(st0, ns) == (SpecStep::SExec { program, st: st1, fs: ns }));
                assert forall|outcome: Option<(Seq<char>, Seq<char>)>, ns2: Seq<FsNodeV>|
                    (#[trigger] spec_resume(st1, outcome, ns2)) is SDone && spec_resume(
                        st1,
                        outcome,
                        ns2,
                    )->SDone_payload is None by {
                    let (out, ok) = exec_reply_spec(outcome);
                    let (st2, ns3) = after_once(st1, ns2, Some(out), ok);
                    let o5 = op_output_spec(
                        c.op,
                        opt_str(Some(out)),
                        st1.acc,
                        st1.last_ok && ok,
                        crate::handler::target_of(st1.cmds, 0),
                        st1.dir,
                        ns2,
                    );
                    assert(o5.2.len() == 0);
                    assert(st2.final_out is None);
                    assert(st2.i == 1);
                    assert(spec_run(st2, ns3) == (SpecStep::SDone {
                        payload: st2.final_out,
                        dir: st2.dir,
                        fs: ns3,
                    }));
                    assert(spec_resume(st1, outcome, ns2) == spec_run(st2, ns3));
                }
            },
        }
    }
}

} // verus!
