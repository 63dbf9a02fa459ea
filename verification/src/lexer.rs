//! The lexer: splits a raw input line into words under shell quoting rules
//! and groups the words into command records separated by operator tokens.

use vstd::prelude::*;

verus! {

use crate::strutil::{is_space_char, lemma_trim_blank, string_eq, trim_spec, trim_str};

/// A parsed command: the verb and its arguments (`cmd[0]` is the verb), and
/// the operator connecting it to the next command in the sequence, if any.
pub struct Command {
    pub cmd: Vec<String>,
    pub op: Option<String>,
}

/// The mathematical view of a command record.
pub struct CommandV {
    pub args: Seq<Seq<char>>,
    pub op: Option<Seq<char>>,
}

impl View for Command {
    type V = CommandV;

    open spec fn view(&self) -> CommandV {
        CommandV { args: self.cmd.deep_view(), op: self.op.deep_view() }
    }
}

impl DeepView for Command {
    type V = CommandV;

    open spec fn deep_view(&self) -> CommandV {
        self@
    }
}

/// The delimiter characters of shell word splitting.
pub open spec fn is_shell_blank(c: char) -> bool {
    c == ' ' || c == '\t' || c == '\n'
}

/// What shell-style word splitting yields for a line: the words in order,
/// or nothing when quoting is unbalanced.
pub uninterp spec fn shell_tokens(s: Seq<char>) -> Option<Seq<Seq<char>>>;

/// Relies on shell_words::split: splits a line into words under shell
/// quoting rules, errors exactly on an unmatched quote, and yields no words
/// for a line of delimiters alone (the empty line included).
#[verifier::external_body]
fn split_words(s: &str) -> (r: Option<Vec<String>>)
    ensures
        r.deep_view() == shell_tokens(s@),
        (forall|i: int| 0 <= i < s@.len() ==> is_shell_blank(s@[i])) ==> r.deep_view() == Some(
            Seq::<Seq<char>>::empty(),
        ),
{
    match shell_words::split(s) {
        Ok(v) => Some(v),
        Err(_) => None,
    }
}

/// The operator tokens that separate commands.
pub open spec fn is_op_token(t: Seq<char>) -> bool {
    ||| t == "&&"@
    ||| t == "|"@
    ||| t == "||"@
    ||| t == "<"@
    ||| t == ">"@
    ||| t == ";"@
}

fn is_op(t: &String) -> (r: bool)
    ensures
        r == is_op_token(t@),
{
    string_eq(t, "&&") || string_eq(t, "|") || string_eq(t, "||") || string_eq(t, "<")
        || string_eq(t, ">") || string_eq(t, ";")
}

/// Groups a token stream into command records: an operator token closes the
/// command collected so far; a final unterminated command carries no operator.
pub open spec fn group_rec(ts: Seq<Seq<char>>, cur: Seq<Seq<char>>) -> Seq<CommandV>
    decreases ts.len(),
{
    if ts.len() == 0 {
        if cur.len() == 0 {
            Seq::empty()
        } else {
            seq![CommandV { args: cur, op: None }]
        }
    } else if is_op_token(ts[0]) {
        seq![CommandV { args: cur, op: Some(ts[0]) }] + group_rec(ts.skip(1), Seq::empty())
    } else {
        group_rec(ts.skip(1), cur.push(ts[0]))
    }
}

pub open spec fn group_tokens(ts: Seq<Seq<char>>) -> Seq<CommandV> {
    group_rec(ts, Seq::empty())
}

/// What the lexer produces for a raw input line: surrounding whitespace
/// trimmed, words grouped into commands, or the empty sequence when
/// quoting is unbalanced.
pub open spec fn commands_of(s: Seq<char>) -> Seq<CommandV> {
    match shell_tokens(trim_spec(s)) {
        Some(ts) => group_tokens(ts),
        None => Seq::empty(),
    }
}

/// Parses a raw input line into the sequence of command records; a line of
/// whitespace alone yields none.
#[verifier::loop_isolation(false)]
pub fn get_commands(client_input: &str) -> (r: Vec<Command>)
    ensures
        r.deep_view() == commands_of(client_input@),
        (forall|i: int| 0 <= i < client_input@.len() ==> is_space_char(client_input@[i]))
            ==> r.deep_view().len() == 0,
{
    proof {
        if forall|i: int| 0 <= i < client_input@.len() ==> is_space_char(client_input@[i]) {
            lemma_trim_blank(client_input@);
        }
    }
    let trimmed = trim_str(client_input);
    let parsed = match split_words(trimmed.as_str()) {
        Some(v) => v,
        None => {
            let r: Vec<Command> = Vec::new();
            proof {
                assert(r.deep_view() =~= commands_of(client_input@));
            }
            return r;
        },
    };
    let ghost ts = parsed.deep_view();
    let mut cmds: Vec<Command> = Vec::new();
    let mut current: Vec<String> = Vec::new();
    let mut i: usize = 0;
    proof {
        assert(ts.skip(0) =~= ts);
        assert(cmds.deep_view() =~= Seq::<CommandV>::empty());
        assert(current.deep_view() =~= Seq::<Seq<char>>::empty());
        assert(Seq::<CommandV>::empty() + group_rec(ts, Seq::empty()) =~= group_rec(
            ts,
            Seq::empty(),
        ));
    }
    while i < parsed.len()
        invariant
            i <= parsed.len(),
            group_tokens(ts) == cmds.deep_view() + group_rec(ts.skip(i as int), current.deep_view()),
        decreases parsed.len() - i,
    {
        proof {
            assert(ts.skip(i as int)[0] == ts[i as int]);
            assert(ts.skip(i as int).skip(1) =~= ts.skip(i + 1));
        }
        let ghost pre_cmds = cmds.deep_view();
        let ghost pre_cur = current.deep_view();
        let token = parsed[i].clone();
        if is_op(&token) {
            let record = Command { cmd: current, op: Some(token) };
            proof {
                assert(record@ == CommandV { args: pre_cur, op: Some(ts[i as int]) });
            }
            cmds.push(record);
            current = Vec::new();
            proof {
                assert(cmds.deep_view() =~= pre_cmds.push(
                    CommandV { args: pre_cur, op: Some(ts[i as int]) },
                ));
                assert(current.deep_view() =~= Seq::<Seq<char>>::empty());
                assert(pre_cmds.push(CommandV { args: pre_cur, op: Some(ts[i as int]) })
                    + group_rec(ts.skip(i + 1), Seq::empty()) =~= pre_cmds + (seq![
                    CommandV { args: pre_cur, op: Some(ts[i as int]) },
                ] + group_rec(ts.skip(i + 1), Seq::empty())));
            }
        } else {
            current.push(token);
            proof {
                assert(current.deep_view() =~= pre_cur.push(ts[i as int]));
            }
        }
        i += 1;
    }
    proof {
        assert(ts.skip(parsed.len() as int) =~= Seq::<Seq<char>>::empty());
    }
    if current.len() > 0 {
        let ghost pre_cmds = cmds.deep_view();
        let ghost pre_cur = current.deep_view();
        let record = Command { cmd: current, op: None };
        proof {
            assert(record@ == CommandV { args: pre_cur, op: None });
        }
        cmds.push(record);
        proof {
            assert(cmds.deep_view() =~= pre_cmds.push(CommandV { args: pre_cur, op: None }));
            assert(pre_cmds.push(CommandV { args: pre_cur, op: None }) =~= pre_cmds + seq![
                CommandV { args: pre_cur, op: None },
            ]);
        }
    } else {
        proof {
            assert(current.deep_view() =~= Seq::<Seq<char>>::empty());
            assert(cmds.deep_view() + Seq::<CommandV>::empty() =~= cmds.deep_view());
        }
    }
    cmds
}

// ---------------------------------------------------------------------------
// Laws of the lexer's grouping.
// ---------------------------------------------------------------------------

/// The token stream a command sequence reconstructs to: each command's
/// arguments followed by its operator token.
pub open spec fn flatten_cmds(cs: Seq<CommandV>) -> Seq<Seq<char>>
    decreases cs.len(),
{
    if cs.len() == 0 {
        Seq::empty()
    } else {
        cs[0].args + (match cs[0].op {
            Some(t) => seq![t],
            None => Seq::<Seq<char>>::empty(),
        }) + flatten_cmds(cs.skip(1))
    }
}

proof fn lemma_flatten_group_rec(ts: Seq<Seq<char>>, cur: Seq<Seq<char>>)
    ensures
        flatten_cmds(group_rec(ts, cur)) == cur + ts,
    decreases ts.len(),
{
    if ts.len() == 0 {
        if cur.len() == 0 {
            assert(flatten_cmds(group_rec(ts, cur)) =~= cur + ts);
        } else {
            let c = CommandV { args: cur, op: None };
            assert(seq![c].skip(1) =~= Seq::<CommandV>::empty());
            assert(seq![c][0] == c);
            assert(flatten_cmds(Seq::<CommandV>::empty()) == Seq::<Seq<char>>::empty());
            assert(flatten_cmds(seq![c]) == cur + Seq::<Seq<char>>::empty()
                + Seq::<Seq<char>>::empty());
            assert(flatten_cmds(seq![c]) =~= cur + ts);
        }
    } else if is_op_token(ts[0]) {
        lemma_flatten_group_rec(ts.skip(1), Seq::empty());
        let c = CommandV { args: cur, op: Some(ts[0]) };
        let g = seq![c] + group_rec(ts.skip(1), Seq::empty());
        assert(g[0] == c);
        assert(g.skip(1) =~= group_rec(ts.skip(1), Seq::empty()));
        assert(flatten_cmds(group_rec(ts.skip(1), Seq::empty())) =~= ts.skip(1));
        assert(cur + seq![ts[0]] + ts.skip(1) =~= cur + ts);
    } else {
        lemma_flatten_group_rec(ts.skip(1), cur.push(ts[0]));
        assert(cur.push(ts[0]) + ts.skip(1) =~= cur + ts);
    }
}

/// Law: reassembling the lexer's command sequence into a token stream gives
/// back exactly the tokens that produced it.
pub proof fn lemma_flatten_group(ts: Seq<Seq<char>>)
    ensures
        flatten_cmds(group_tokens(ts)) == ts,
{
    lemma_flatten_group_rec(ts, Seq::empty());
    assert(Seq::<Seq<char>>::empty() + ts =~= ts);
}

/// Law: the lexer's grouping is idempotent: grouping the reconstructed token
/// stream of a command sequence reproduces that same command sequence.
pub proof fn lemma_group_idempotent(ts: Seq<Seq<char>>)
    ensures
        group_tokens(flatten_cmds(group_tokens(ts))) == group_tokens(ts),
{
    lemma_flatten_group(ts);
}

} // verus!
