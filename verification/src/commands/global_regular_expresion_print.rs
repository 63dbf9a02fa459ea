//! The `grep` built-in: literal-substring search per line, highlighting
//! each occurrence with the red color markers, in a NormalColored section.

use vstd::prelude::*;

verus! {

use crate::fs_model::{exists_v, file_content_v, is_file_v, FsModel, FsNodeV};
use crate::format::{get_unformated_text, keep_nonempty, keep_nonempty_vec, strip_spec, wrap_section};
use crate::lexer::Command;
use crate::path::{join_path, join_spec, SandboxPath};
use crate::strutil::{
    contains_sub, find_sub, first_occur, join_line, lemma_first_occur, split_on, split_str,
    str_contains, append_line,
};
use vstd::string::StrSliceExecFns;
use vstd::string::StringExecFns;

/// One word with every occurrence of the pattern wrapped in the red color
/// run `^@`…`~~`; an empty pattern leaves the word as it is.
pub open spec fn color_occ(p: Seq<char>, pat: Seq<char>) -> Seq<char>
    decreases p.len(),
{
    if pat.len() == 0 {
        p
    } else {
        let i = first_occur(p, pat);
        if i < 0 {
            p
        } else if i + pat.len() >= p.len() {
            p.take(i) + "^@"@ + pat + "~~"@
        } else {
            p.take(i) + "^@"@ + pat + "~~"@ + color_occ(p.skip(i + pat.len() as int), pat)
        }
    }
}

/// The words of a line, split on single spaces.
pub open spec fn parts_of(line: Seq<char>) -> Seq<Seq<char>> {
    keep_nonempty(split_on(line, " "@))
}

pub open spec fn colored_parts(parts: Seq<Seq<char>>, pat: Seq<char>) -> Seq<char>
    decreases parts.len(),
{
    if parts.len() == 0 {
        Seq::empty()
    } else {
        colored_parts(parts.drop_last(), pat) + (if contains_sub(parts.last(), pat) {
            color_occ(parts.last(), pat)
        } else {
            Seq::<char>::empty()
        })
    }
}

pub open spec fn parts_have(parts: Seq<Seq<char>>, pat: Seq<char>) -> bool
    decreases parts.len(),
{
    if parts.len() == 0 {
        false
    } else {
        parts_have(parts.drop_last(), pat) || contains_sub(parts.last(), pat)
    }
}

/// A line's rendering: its pattern-bearing words, highlighted, concatenated.
pub open spec fn line_colored(line: Seq<char>, pat: Seq<char>) -> Seq<char> {
    colored_parts(parts_of(line), pat)
}

pub open spec fn line_has(line: Seq<char>, pat: Seq<char>) -> bool {
    parts_have(parts_of(line), pat)
}

/// A trailing carriage return is not part of a line.
pub open spec fn strip_cr(l: Seq<char>) -> Seq<char> {
    if l.len() > 0 && l.last() == '\r' {
        l.drop_last()
    } else {
        l
    }
}

/// The lines of a text, as `str::lines` yields them.
pub open spec fn lines_of(s: Seq<char>) -> Seq<Seq<char>> {
    let ps = split_on(s, "\n"@);
    let ps2 = if ps.len() > 0 && ps.last().len() == 0 {
        ps.drop_last()
    } else {
        ps
    };
    Seq::new(ps2.len(), |i: int| strip_cr(ps2[i]))
}

pub open spec fn grep_lines(lines: Seq<Seq<char>>, pat: Seq<char>) -> Seq<char>
    decreases lines.len(),
{
    if lines.len() == 0 {
        Seq::empty()
    } else {
        let acc = grep_lines(lines.drop_last(), pat);
        if parts_have(parts_of(lines.last()), pat) {
            join_line(acc, colored_parts(parts_of(lines.last()), pat))
        } else {
            acc
        }
    }
}

/// What highlighting a whole text yields: the matching lines, highlighted,
/// newline-joined, in a NormalColored section.
pub open spec fn colored_spec(input: Seq<char>, pat: Seq<char>) -> Seq<char> {
    "?&C"@ + grep_lines(lines_of(input), pat) + "\n\n"@
}

/// What one file argument yields: its highlighted matches and success, or
/// a failed error section for a missing target, a directory, or a path
/// that leaves the sandbox.
pub open spec fn grep_file_piece(
    ns: Seq<FsNodeV>,
    cur: Seq<Seq<char>>,
    pat: Seq<char>,
    arg: Seq<char>,
) -> (Seq<char>, bool) {
    match join_spec(cur, arg) {
        Some(p) => {
            if is_file_v(ns, p) {
                (colored_spec(file_content_v(ns, p), pat), true)
            } else if exists_v(ns, p) {
                ("?&E"@ + "grep: Is a directory"@ + "\n\n"@, false)
            } else {
                ("?&E"@ + "grep: No such file or directory"@ + "\n\n"@, false)
            }
        },
        None => ("?&E"@ + "grep: No such file or directory"@ + "\n\n"@, false),
    }
}

/// What `grep` emits: with file arguments, the last file's result,
/// succeeding exactly when that file could be searched; with a pattern and
/// piped input, the stripped input's matches; anything else is a usage
/// error.
pub open spec fn grep_spec(
    ns: Seq<FsNodeV>,
    cur: Seq<Seq<char>>,
    args: Seq<Seq<char>>,
    input: Option<Seq<char>>,
) -> (Seq<char>, bool) {
    if args.len() >= 3 {
        grep_file_piece(ns, cur, args[1], args.last())
    } else if args.len() == 2 && input is Some {
        (colored_spec(strip_spec(input->0), args[1]), false)
    } else {
        ("?&E"@ + "Usage: grep PATTERNS [FILE]"@ + "\n\n"@, false)
    }
}

fn color_part(part: &str, pat: &str) -> (r: String)
    ensures
        r@ == color_occ(part@, pat@),
    decreases part@.len(),
{
    proof {
        reveal_strlit("^@");
        reveal_strlit("~~");
    }
    let m = pat.unicode_len();
    if m == 0 {
        return part.to_owned();
    }
    proof {
        lemma_first_occur(part@, pat@);
    }
    match find_sub(part, pat) {
        None => part.to_owned(),
        Some(i) => {
            let n = part.unicode_len();
            let mut out = part.substring_char(0, i).to_owned();
            out.append("^@");
            out.append(pat);
            out.append("~~");
            proof {
                assert(part@.subrange(0, i as int) =~= part@.take(i as int));
                assert(out@ =~= part@.take(i as int) + "^@"@ + pat@ + "~~"@);
            }
            if i + m < n {
                let rest = color_part(part.substring_char(i + m, n), pat);
                out.append(rest.as_str());
                proof {
                    assert(out@ =~= part@.take(i as int) + "^@"@ + pat@ + "~~"@ + color_occ(
                        part@.skip(i + m),
                        pat@,
                    ));
                }
            }
            out
        },
    }
}

#[verifier::loop_isolation(false)]
fn color_line(line: &str, pat: &str) -> (r: (String, bool))
    ensures
        r.0@ == line_colored(line@, pat@),
        r.1 == line_has(line@, pat@),
{
    proof {
        reveal_strlit(" ");
    }
    let pieces = split_str(line, " ");
    let parts = keep_nonempty_vec(pieces);
    let ghost pv = parts.deep_view();
    let m = pat.unicode_len();
    let mut out = String::new();
    let mut has = false;
    let mut i: usize = 0;
    proof {
        assert(pv.take(0) =~= Seq::<Seq<char>>::empty());
        assert(out@ =~= colored_parts(pv.take(0), pat@));
    }
    while i < parts.len()
        invariant
            i <= parts.len(),
            pv == parts.deep_view(),
            out@ == colored_parts(pv.take(i as int), pat@),
            has == parts_have(pv.take(i as int), pat@),
        decreases parts.len() - i,
    {
        proof {
            assert(pv.take(i + 1).drop_last() =~= pv.take(i as int));
            assert(pv.take(i + 1).last() == pv[i as int]);
        }
        let ghost pre = out@;
        let contains = if m == 0 {
            proof {
                assert(first_occur(pv[i as int], pat@) == 0);
            }
            true
        } else {
            str_contains(parts[i].as_str(), pat)
        };
        if contains {
            let piece = color_part(parts[i].as_str(), pat);
            out.append(piece.as_str());
            has = true;
        } else {
            proof {
                assert(pre + Seq::<char>::empty() =~= pre);
            }
        }
        i += 1;
    }
    proof {
        assert(pv.take(parts.len() as int) =~= pv);
    }
    (out, has)
}

#[verifier::loop_isolation(false)]
fn lines_vec(s: &str) -> (r: Vec<String>)
    ensures
        r.deep_view() == lines_of(s@),
{
    proof {
        reveal_strlit("\n");
        reveal_strlit("\r");
    }
    let mut pieces = split_str(s, "\n");
    let ghost ps = pieces.deep_view();
    if pieces.len() > 0 && pieces[pieces.len() - 1].as_str().unicode_len() == 0 {
        let _ = pieces.pop();
        proof {
            assert(pieces.deep_view() =~= ps.drop_last());
        }
    }
    let ghost ps2 = pieces.deep_view();
    let mut out: Vec<String> = Vec::new();
    let mut i: usize = 0;
    while i < pieces.len()
        invariant
            i <= pieces.len(),
            ps2 == pieces.deep_view(),
            out.deep_view() =~= Seq::new(i as nat, |t: int| strip_cr(ps2[t])),
        decreases pieces.len() - i,
    {
        let ghost pre = out.deep_view();
        let piece: &String = &pieces[i];
        let n = piece.as_str().unicode_len();
        if n > 0 && piece.as_str().get_char(n - 1) == '\r' {
            let stripped = piece.as_str().substring_char(0, n - 1).to_owned();
            proof {
                assert(stripped@ =~= ps2[i as int].drop_last());
            }
            out.push(stripped);
        } else {
            out.push(piece.clone());
        }
        proof {
            assert(out.deep_view() =~= pre.push(strip_cr(ps2[i as int])));
            assert(pre.push(strip_cr(ps2[i as int])) =~= Seq::new(
                (i + 1) as nat,
                |t: int| strip_cr(ps2[t]),
            ));
        }
        i += 1;
    }
    proof {
        assert(Seq::new(pieces.len() as nat, |t: int| strip_cr(ps2[t])) =~= lines_of(s@));
    }
    out
}

pub struct Grep {
    pub command: Command,
    pub current_dir: SandboxPath,
    pub input: Option<String>,
}

impl Grep {
    pub fn new(cmd: Command, input: Option<String>, path: SandboxPath) -> (r: Grep)
        ensures
            r.command@ == cmd@,
            r.current_dir@ == path@,
            r.input.deep_view() == input.deep_view(),
    {
        Grep { command: cmd, current_dir: path, input }
    }

    /// Highlights every occurrence of the pattern in the matching lines of
    /// `input`, in a NormalColored section.
    #[verifier::loop_isolation(false)]
    pub fn get_colored_output(&self, input: String, pattern: &String) -> (r: String)
        ensures
            r@ == colored_spec(input@, pattern@),
    {
        let lines = lines_vec(input.as_str());
        let ghost lv = lines.deep_view();
        let mut body = String::new();
        let mut i: usize = 0;
        proof {
            assert(lv.take(0) =~= Seq::<Seq<char>>::empty());
            assert(body@ =~= grep_lines(lv.take(0), pattern@));
        }
        while i < lines.len()
            invariant
                i <= lines.len(),
                lv == lines.deep_view(),
                body@ == grep_lines(lv.take(i as int), pattern@),
            decreases lines.len() - i,
        {
            proof {
                assert(lv.take(i + 1).drop_last() =~= lv.take(i as int));
                assert(lv.take(i + 1).last() == lv[i as int]);
            }
            let (colored, has) = color_line(lines[i].as_str(), pattern.as_str());
            if has {
                append_line(&mut body, colored.as_str());
            }
            i += 1;
        }
        proof {
            assert(lv.take(lines.len() as int) =~= lv);
        }
        wrap_section("?&C", body.as_str())
    }

    pub fn get_output(&self, fs: &FsModel) -> (r: (String, bool))
        requires
            self.command@.args.len() >= 1,
            self.current_dir.wf(),
        ensures
            r.0@ == grep_spec(fs@, self.current_dir@, self.command@.args, self.input.deep_view()).0,
            r.1 == grep_spec(fs@, self.current_dir@, self.command@.args, self.input.deep_view()).1,
    {
        let n = self.command.cmd.len();
        if n >= 3 {
            proof {
                assert(self.command@.args.last() == self.command@.args[n - 1]);
            }
            let arg: &String = &self.command.cmd[n - 1];
            match join_path(&self.current_dir, arg.as_str()) {
                Some(p) => {
                    match fs.read_file(&p) {
                        Some(content) => {
                            let out = self.get_colored_output(content, &self.command.cmd[1]);
                            (out, true)
                        },
                        None => {
                            if fs.exists_path(&p) {
                                (wrap_section("?&E", "grep: Is a directory"), false)
                            } else {
                                (wrap_section("?&E", "grep: No such file or directory"), false)
                            }
                        },
                    }
                },
                None => (wrap_section("?&E", "grep: No such file or directory"), false),
            }
        } else if n == 2 && self.input.is_some() {
            let raw = match &self.input {
                Some(s) => get_unformated_text(s.as_str()),
                None => String::new(),
            };
            let out = self.get_colored_output(raw, &self.command.cmd[1]);
            (out, false)
        } else {
            let out = wrap_section("?&E", "Usage: grep PATTERNS [FILE]");
            (out, false)
        }
    }
}

} // verus!
