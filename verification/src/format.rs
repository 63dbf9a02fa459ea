//! The wire-level styling codec: format markers, section wrapping, and the
//! stripping of markers back to plain text.

use vstd::prelude::*;

verus! {

use crate::strutil::{
    concat3, contains_sub, first_occur, join_with, lemma_first_occur, lemma_first_occur_is,
    lemma_first_occur_none, lemma_split_terminated, match_at, split_on, split_str, str_eq,
    push_char,
};
use vstd::string::StrSliceExecFns;
use vstd::string::StringExecFns;

broadcast use vstd::string::group_string_axioms;

/// The logical format tags of the reply styling.
pub enum Format {
    Error,
    ListDir,
    Color(&'static str),
    Split,
    Normal,
    NormalColored,
}

/// The wire marker of each format tag.
pub open spec fn spec_format(f: Format) -> Seq<char> {
    match f {
        Format::Error => "?&E"@,
        Format::ListDir => "?&L"@,
        Format::NormalColored => "?&C"@,
        Format::Normal => "?&N"@,
        Format::Color(c) => if c@ == "BLUE"@ {
            "^!"@
        } else if c@ == "LIGHT_RED"@ {
            "^@"@
        } else if c@ == "GREEN"@ {
            "^#"@
        } else if c@ == "stop"@ {
            "~~"@
        } else {
            Seq::<char>::empty()
        },
        Format::Split => "\n\n"@,
    }
}

/// Maps a format tag to its literal wire marker.
pub fn get_format(format: Format) -> (r: &'static str)
    ensures
        r@ == spec_format(format),
{
    match format {
        Format::Error => "?&E",
        Format::ListDir => "?&L",
        Format::NormalColored => "?&C",
        Format::Normal => "?&N",
        Format::Color(c) => {
            if str_eq(c, "BLUE") {
                "^!"
            } else if str_eq(c, "LIGHT_RED") {
                "^@"
            } else if str_eq(c, "GREEN") {
                "^#"
            } else if str_eq(c, "stop") {
                "~~"
            } else {
                proof {
                    reveal_strlit("");
                    assert(""@ =~= Seq::<char>::empty());
                }
                ""
            }
        },
        Format::Split => "\n\n",
    }
}

// ---------------------------------------------------------------------------
// The payload grammar: a payload is a concatenation of styled sections and
// single separating spaces.
// ---------------------------------------------------------------------------

/// One building block of a reply payload.
pub enum BlockV {
    /// A single space the pipeline places between flushed outputs.
    Sep,
    /// The bare word a failed `>` redirection leaves in the accumulated
    /// output.
    ErrWord,
    /// A styled section: marker, content, and the section terminator.
    Section { tag: char, content: Seq<char> },
}

pub open spec fn valid_tag(t: char) -> bool {
    t == 'E' || t == 'L' || t == 'N' || t == 'C'
}

pub open spec fn render_block(b: BlockV) -> Seq<char> {
    match b {
        BlockV::Sep => seq![' '],
        BlockV::ErrWord => "Error"@,
        BlockV::Section { tag, content } => seq!['?', '&', tag] + content + seq!['\n', '\n'],
    }
}

pub open spec fn render_blocks(bs: Seq<BlockV>) -> Seq<char>
    decreases bs.len(),
{
    if bs.len() == 0 {
        Seq::empty()
    } else {
        render_block(bs[0]) + render_blocks(bs.skip(1))
    }
}

pub open spec fn wf_blocks(bs: Seq<BlockV>) -> bool {
    forall|i: int|
        0 <= i < bs.len() ==> (bs[i] is Section ==> valid_tag(bs[i]->Section_tag))
}

/// The payload grammar: a concatenation of styled sections and separator
/// spaces.
pub open spec fn payload_wf(s: Seq<char>) -> bool {
    exists|bs: Seq<BlockV>| wf_blocks(bs) && s == render_blocks(bs)
}

pub proof fn lemma_payload_empty()
    ensures
        payload_wf(Seq::<char>::empty()),
{
    let bs = Seq::<BlockV>::empty();
    assert(wf_blocks(bs) && render_blocks(bs) == Seq::<char>::empty());
}

pub proof fn lemma_payload_sep()
    ensures
        payload_wf(" "@),
{
    reveal_strlit(" ");
    let bs = seq![BlockV::Sep];
    assert(bs.skip(1) =~= Seq::<BlockV>::empty());
    assert(render_blocks(bs.skip(1)) == Seq::<char>::empty());
    assert(bs[0] == BlockV::Sep);
    assert(render_block(bs[0]) == seq![' ']);
    assert(render_blocks(bs) == render_block(bs[0]) + render_blocks(bs.skip(1)));
    assert(" "@.len() == 1);
    assert(" "@[0] == ' ');
    assert(render_blocks(bs) =~= " "@);
    assert(wf_blocks(bs));
}

pub proof fn lemma_payload_errword()
    ensures
        payload_wf("Error"@),
{
    let bs = seq![BlockV::ErrWord];
    assert(bs.skip(1) =~= Seq::<BlockV>::empty());
    assert(render_blocks(bs.skip(1)) == Seq::<char>::empty());
    assert(render_blocks(bs) == render_block(bs[0]) + render_blocks(bs.skip(1)));
    assert(render_blocks(bs) =~= "Error"@);
    assert(wf_blocks(bs));
}

/// A marker followed by anything closed by the terminator is a one-section
/// payload.
pub proof fn lemma_payload_section_tailed(m: Seq<char>, rest: Seq<char>)
    requires
        m == "?&E"@ || m == "?&L"@ || m == "?&N"@ || m == "?&C"@,
        rest.len() >= 2,
        rest[rest.len() - 2] == '\n',
        rest[rest.len() - 1] == '\n',
    ensures
        payload_wf(m + rest),
{
    reveal_strlit("\n\n");
    let content = rest.take(rest.len() - 2);
    lemma_payload_section(m, content);
    assert(m + content + "\n\n"@ =~= m + rest);
}

/// A marker, any content, and the terminator form a one-section payload.
pub proof fn lemma_payload_section(m: Seq<char>, content: Seq<char>)
    requires
        m == "?&E"@ || m == "?&L"@ || m == "?&N"@ || m == "?&C"@,
    ensures
        payload_wf(m + content + "\n\n"@),
{
    reveal_strlit("?&E");
    reveal_strlit("?&L");
    reveal_strlit("?&N");
    reveal_strlit("?&C");
    reveal_strlit("\n\n");
    let tag = m[2];
    let bs = seq![BlockV::Section { tag, content }];
    assert(bs.skip(1) =~= Seq::<BlockV>::empty());
    assert(render_blocks(bs.skip(1)) == Seq::<char>::empty());
    assert(render_blocks(bs) == render_block(bs[0]) + render_blocks(bs.skip(1)));
    assert(render_block(bs[0]) == seq!['?', '&', tag] + content + seq!['\n', '\n']);
    assert(m.len() == 3 && m[0] == '?' && m[1] == '&');
    assert(m =~= seq!['?', '&', tag]);
    assert("\n\n"@ =~= seq!['\n', '\n']);
    assert(render_blocks(bs) =~= m + content + "\n\n"@);
    assert(wf_blocks(bs));
}

pub proof fn lemma_render_concat(b1: Seq<BlockV>, b2: Seq<BlockV>)
    ensures
        render_blocks(b1 + b2) == render_blocks(b1) + render_blocks(b2),
    decreases b1.len(),
{
    if b1.len() == 0 {
        assert(b1 + b2 =~= b2);
        assert(render_blocks(b1) + render_blocks(b2) =~= render_blocks(b2));
    } else {
        lemma_render_concat(b1.skip(1), b2);
        assert((b1 + b2).skip(1) =~= b1.skip(1) + b2);
        assert((b1 + b2)[0] == b1[0]);
        assert(render_block(b1[0]) + (render_blocks(b1.skip(1)) + render_blocks(b2))
            =~= (render_block(b1[0]) + render_blocks(b1.skip(1))) + render_blocks(b2));
    }
}

/// Payloads are closed under concatenation.
pub proof fn lemma_payload_concat(a: Seq<char>, b: Seq<char>)
    requires
        payload_wf(a),
        payload_wf(b),
    ensures
        payload_wf(a + b),
{
    let ba = choose|bs: Seq<BlockV>| wf_blocks(bs) && a == render_blocks(bs);
    let bb = choose|bs: Seq<BlockV>| wf_blocks(bs) && b == render_blocks(bs);
    lemma_render_concat(ba, bb);
    assert(wf_blocks(ba + bb)) by {
        assert forall|i: int|
            0 <= i < (ba + bb).len() && (ba + bb)[i] is Section implies valid_tag(
            (ba + bb)[i]->Section_tag,
        ) by {
            if i < ba.len() {
                assert((ba + bb)[i] == ba[i]);
            } else {
                assert((ba + bb)[i] == bb[i - ba.len()]);
            }
        }
    }
}

// ---------------------------------------------------------------------------
// Stripping markers: the exact model of `get_unformated_text`.
// ---------------------------------------------------------------------------

/// Removes the inline color runs `^@` and `~~` character by character.
pub open spec fn strip_colors(e: Seq<char>) -> Seq<char>
    decreases e.len(),
{
    if e.len() == 0 {
        Seq::empty()
    } else if e.len() >= 2 && e[0] == '^' && e[1] == '@' {
        strip_colors(e.skip(2))
    } else if e.len() >= 2 && e[0] == '~' && e[1] == '~' {
        strip_colors(e.skip(2))
    } else {
        seq![e[0]] + strip_colors(e.skip(1))
    }
}

/// A fragment with its two-character `^x` prefix removed, when it has one.
pub open spec fn frag_tail(e: Seq<char>) -> Seq<char> {
    if e.len() >= 1 && e[0] == '^' {
        if e.len() >= 2 {
            e.skip(2)
        } else {
            Seq::<char>::empty()
        }
    } else {
        e
    }
}

/// The non-empty pieces of a piece list, in order.
pub open spec fn keep_nonempty(ps: Seq<Seq<char>>) -> Seq<Seq<char>>
    decreases ps.len(),
{
    if ps.len() == 0 {
        Seq::empty()
    } else {
        keep_nonempty(ps.drop_last()) + (if ps.last().len() > 0 {
            seq![ps.last()]
        } else {
            Seq::<Seq<char>>::empty()
        })
    }
}

/// Fold of the colored branch: fragments are appended with colors removed.
pub open spec fn strip_frags_c(acc: Seq<char>, frags: Seq<Seq<char>>) -> Seq<char>
    decreases frags.len(),
{
    if frags.len() == 0 {
        acc
    } else {
        strip_frags_c(acc + strip_colors(frags[0]), frags.skip(1))
    }
}

/// Fold of the plain branch: fragment tails are joined with single spaces.
pub open spec fn strip_frags_other(acc: Seq<char>, frags: Seq<Seq<char>>) -> Seq<char>
    decreases frags.len(),
{
    if frags.len() == 0 {
        acc
    } else {
        let t = frag_tail(frags[0]);
        let acc2 = if acc.len() == 0 {
            t
        } else {
            acc + seq![' '] + t
        };
        strip_frags_other(acc2, frags.skip(1))
    }
}

/// Processes one `?&` section of the styled text.
pub open spec fn strip_section(acc: Seq<char>, w: Seq<char>) -> Seq<char>
    recommends
        w.len() > 0,
{
    let frags = keep_nonempty(split_on(w.skip(1), "\n\n"@));
    if w[0] == 'C' {
        strip_frags_c(acc, frags)
    } else {
        strip_frags_other(acc, frags)
    }
}

pub open spec fn strip_props(acc: Seq<char>, props: Seq<Seq<char>>) -> Seq<char>
    decreases props.len(),
{
    if props.len() == 0 {
        acc
    } else {
        strip_props(strip_section(acc, props[0]), props.skip(1))
    }
}

/// What stripping all styling markers from `text` yields.
pub open spec fn strip_spec(text: Seq<char>) -> Seq<char> {
    strip_props(Seq::empty(), keep_nonempty(split_on(text, "?&"@)))
}

/// Keeps the non-empty strings, in order.
pub fn keep_nonempty_vec(v: Vec<String>) -> (r: Vec<String>)
    ensures
        r.deep_view() == keep_nonempty(v.deep_view()),
{
    let mut out: Vec<String> = Vec::new();
    let mut i: usize = 0;
    proof {
        assert(v.deep_view().take(0) =~= Seq::<Seq<char>>::empty());
        assert(out.deep_view() =~= Seq::<Seq<char>>::empty());
    }
    while i < v.len()
        invariant
            i <= v.len(),
            out.deep_view() == keep_nonempty(v.deep_view().take(i as int)),
        decreases v.len() - i,
    {
        let ghost pre = out.deep_view();
        if v[i].as_str().unicode_len() > 0 {
            out.push(v[i].clone());
            proof {
                assert(out.deep_view() =~= pre + seq![v.deep_view()[i as int]]);
            }
        }
        proof {
            assert(v.deep_view().take(i + 1).drop_last() =~= v.deep_view().take(i as int));
            assert(v.deep_view().take(i + 1).last() == v.deep_view()[i as int]);
            if v@[i as int]@.len() == 0 {
                assert(pre + Seq::<Seq<char>>::empty() =~= pre);
            }
        }
        i += 1;
    }
    proof {
        assert(v.deep_view().take(v.len() as int) =~= v.deep_view());
    }
    out
}

fn strip_colors_exec(e: &str) -> (r: String)
    ensures
        r@ == strip_colors(e@),
    decreases e@.len(),
{
    let n = e.unicode_len();
    if n == 0 {
        let s = String::new();
        proof {
            assert(s@ =~= strip_colors(e@));
        }
        s
    } else if n >= 2 && ((e.get_char(0) == '^' && e.get_char(1) == '@') || (e.get_char(0) == '~'
        && e.get_char(1) == '~')) {
        strip_colors_exec(e.substring_char(2, n))
    } else {
        let mut s = String::new();
        push_char(&mut s, e.get_char(0));
        let rest = strip_colors_exec(e.substring_char(1, n));
        s.append(rest.as_str());
        proof {
            assert(s@ =~= seq![e@[0]] + strip_colors(e@.skip(1)));
        }
        s
    }
}

fn frag_tail_exec(e: &str) -> (r: String)
    ensures
        r@ == frag_tail(e@),
{
    let n = e.unicode_len();
    if n >= 1 && e.get_char(0) == '^' {
        if n >= 2 {
            e.substring_char(2, n).to_owned()
        } else {
            String::new()
        }
    } else {
        e.to_owned()
    }
}

pub proof fn lemma_keep_nonempty_elts(ps: Seq<Seq<char>>)
    ensures
        forall|k: int|
            0 <= k < keep_nonempty(ps).len() ==> #[trigger] keep_nonempty(ps)[k].len() > 0,
    decreases ps.len(),
{
    if ps.len() > 0 {
        lemma_keep_nonempty_elts(ps.drop_last());
        let pre = keep_nonempty(ps.drop_last());
        assert forall|k: int| 0 <= k < keep_nonempty(ps).len() implies #[trigger] keep_nonempty(
            ps,
        )[k].len() > 0 by {
            if k < pre.len() {
                assert(keep_nonempty(ps)[k] == pre[k]);
            } else {
                assert(keep_nonempty(ps)[k] == ps.last());
            }
        }
    }
}

/// Removes all styling markers from styled text, reconstructing plain text.
/// This is what the `>` redirection writes into its target file.
#[verifier::loop_isolation(false)]
pub fn get_unformated_text(text: &str) -> (r: String)
    ensures
        r@ == strip_spec(text@),
{
    proof {
        reveal_strlit("?&");
        reveal_strlit("\n\n");
    }
    let pieces = split_str(text, "?&");
    let props = keep_nonempty_vec(pieces);
    proof {
        lemma_keep_nonempty_elts(pieces.deep_view());
    }
    let mut acc = String::new();
    let mut i: usize = 0;
    proof {
        assert(props.deep_view().skip(0) =~= props.deep_view());
    }
    while i < props.len()
        invariant
            i <= props.len(),
            props.deep_view() == keep_nonempty(pieces.deep_view()),
            forall|k: int|
                0 <= k < keep_nonempty(pieces.deep_view()).len() ==> #[trigger] keep_nonempty(
                    pieces.deep_view(),
                )[k].len() > 0,
            strip_spec(text@) == strip_props(acc@, props.deep_view().skip(i as int)),
        decreases props.len() - i,
    {
        proof {
            assert(props.deep_view().skip(i as int)[0] == props.deep_view()[i as int]);
            assert(props.deep_view().skip(i as int).skip(1) =~= props.deep_view().skip(i + 1));
        }
        let ghost wv = props.deep_view()[i as int];
        let w: &String = &props[i];
        let wn = w.as_str().unicode_len();
        let tail = w.as_str().substring_char(1, wn);
        proof {
            assert(tail@ == wv.skip(1));
        }
        let frag_pieces = split_str(tail, "\n\n");
        let frags = keep_nonempty_vec(frag_pieces);
        let ghost fv = frags.deep_view();
        let ghost acc0 = acc@;
        proof {
            assert(fv.skip(0) =~= fv);
        }
        if w.as_str().get_char(0) == 'C' {
            let mut j: usize = 0;
            while j < frags.len()
                invariant
                    j <= frags.len(),
                    fv == frags.deep_view(),
                    strip_frags_c(acc@, fv.skip(j as int)) == strip_frags_c(acc0, fv),
                decreases frags.len() - j,
            {
                proof {
                    assert(fv.skip(j as int)[0] == fv[j as int]);
                    assert(fv.skip(j as int).skip(1) =~= fv.skip(j + 1));
                }
                let piece = strip_colors_exec(frags[j].as_str());
                acc.append(piece.as_str());
                j += 1;
            }
            proof {
                assert(fv.skip(frags.len() as int) =~= Seq::<Seq<char>>::empty());
                assert(acc@ == strip_section(acc0, wv));
            }
        } else {
            let mut j: usize = 0;
            while j < frags.len()
                invariant
                    j <= frags.len(),
                    fv == frags.deep_view(),
                    strip_frags_other(acc@, fv.skip(j as int)) == strip_frags_other(acc0, fv),
                decreases frags.len() - j,
            {
                proof {
                    assert(fv.skip(j as int)[0] == fv[j as int]);
                    assert(fv.skip(j as int).skip(1) =~= fv.skip(j + 1));
                }
                let ghost acc_pre = acc@;
                let t = frag_tail_exec(frags[j].as_str());
                if acc.as_str().unicode_len() == 0 {
                    acc = t;
                } else {
                    push_char(&mut acc, ' ');
                    proof {
                        assert(acc@ =~= acc_pre + seq![' ']);
                    }
                    acc.append(t.as_str());
                }
                j += 1;
            }
            proof {
                assert(fv.skip(frags.len() as int) =~= Seq::<Seq<char>>::empty());
                assert(acc@ == strip_section(acc0, wv));
            }
        }
        i += 1;
    }
    proof {
        assert(props.deep_view().skip(props.len() as int) =~= Seq::<Seq<char>>::empty());
    }
    acc
}

/// Wraps content in a styled section: marker, content, terminator.
pub fn wrap_section(marker: &str, content: &str) -> (r: String)
    ensures
        r@ == marker@ + content@ + "\n\n"@,
{
    let r = concat3(marker, content, "\n\n");
    proof {
        assert(marker@ + content@ + "\n\n"@ =~= (marker@ + content@) + "\n\n"@);
    }
    r
}

/// A plain text for the round-trip law: no stray marker, no color prefix
/// on any fragment, and no newline against the terminator.
pub open spec fn plain_text(x: Seq<char>) -> bool {
    &&& !contains_sub(x, "?&"@)
    &&& (x.len() == 0 || x.last() != '\n')
    &&& forall|k: int|
        0 <= k < keep_nonempty(split_on(x, "\n\n"@)).len() ==> (#[trigger] keep_nonempty(
            split_on(x, "\n\n"@),
        )[k])[0] != '^'
}

/// The whitespace-normalized form of a text: its non-empty fragments,
/// joined by single spaces.
pub open spec fn normalized(x: Seq<char>) -> Seq<char> {
    join_with(keep_nonempty(split_on(x, "\n\n"@)), " "@)
}

/// The plain fold reassembles the fragment tails as a space-joined text.
proof fn lemma_fold_join(acc: Seq<char>, frags: Seq<Seq<char>>)
    requires
        forall|k: int|
            0 <= k < frags.len() ==> (#[trigger] frags[k]).len() > 0 && frags[k][0] != '^',
    ensures
        strip_frags_other(acc, frags) == (if frags.len() == 0 {
            acc
        } else if acc.len() == 0 {
            join_with(frags, " "@)
        } else {
            acc + seq![' '] + join_with(frags, " "@)
        }),
    decreases frags.len(),
{
    reveal_strlit(" ");
    assert(" "@ =~= seq![' ']);
    if frags.len() > 0 {
        let f0 = frags[0];
        assert(frag_tail(f0) == f0);
        let rest = frags.skip(1);
        assert forall|k: int|
            0 <= k < rest.len() implies (#[trigger] rest[k]).len() > 0 && rest[k][0] != '^' by {
            assert(rest[k] == frags[k + 1]);
        }
        let acc2 = if acc.len() == 0 {
            f0
        } else {
            acc + seq![' '] + f0
        };
        assert(strip_frags_other(acc, frags) == strip_frags_other(acc2, rest));
        lemma_fold_join(acc2, rest);
        assert(f0.len() > 0);
        if rest.len() == 0 {
            assert(join_with(frags, " "@) == f0);
        } else {
            assert(join_with(frags, " "@) == f0 + " "@ + join_with(rest, " "@));
            if acc.len() == 0 {
                assert(strip_frags_other(acc2, rest) == f0 + seq![' '] + join_with(rest, " "@));
                assert(f0 + seq![' '] + join_with(rest, " "@) =~= f0 + " "@ + join_with(
                    rest,
                    " "@,
                ));
            } else {
                assert(strip_frags_other(acc2, rest) == (acc + seq![' '] + f0) + seq![' ']
                    + join_with(rest, " "@));
                assert((acc + seq![' '] + f0) + seq![' '] + join_with(rest, " "@) =~= acc + seq![
                    ' ',
                ] + (f0 + " "@ + join_with(rest, " "@)));
            }
        }
    }
}

/// Law: stripping a Normal-wrapped plain text yields exactly its
/// whitespace-normalized form, so wrapping and stripping round-trip.
pub proof fn lemma_strip_wrapped(x: Seq<char>)
    requires
        plain_text(x),
    ensures
        strip_spec("?&N"@ + x + "\n\n"@) == normalized(x),
{
    reveal_strlit("?&N");
    reveal_strlit("?&");
    reveal_strlit("\n\n");
    let t = "?&N"@ + x + "\n\n"@;
    let sep = "?&"@;
    let nl = "\n\n"@;
    let n = x.len() as int;
    assert(t.len() == n + 5);
    assert forall|k: int| 0 <= k < t.len() implies t[k] == (if k == 0 {
        '?'
    } else if k == 1 {
        '&'
    } else if k == 2 {
        'N'
    } else if k < n + 3 {
        x[k - 3]
    } else {
        '\n'
    }) by {}
    // The only `?&` occurrence is the leading marker.
    assert(match_at(t, sep, 0)) by {
        assert(t.subrange(0, 2) =~= sep);
    }
    lemma_first_occur_is(t, sep, 0);
    lemma_first_occur(x, sep);
    let rest = t.skip(2);
    assert(rest.len() == n + 3);
    assert forall|k: int| !match_at(rest, sep, k) by {
        if 0 <= k && k + 2 <= rest.len() {
            if rest.subrange(k, k + 2) == sep {
                assert(rest.subrange(k, k + 2)[0] == rest[k]);
                assert(rest.subrange(k, k + 2)[1] == rest[k + 1]);
                assert(rest[k] == t[k + 2] && rest[k + 1] == t[k + 3]);
                assert(rest[k] == '?' && rest[k + 1] == '&');
                if k == 0 {
                    assert(rest[0] == 'N');
                } else if k <= n {
                    assert(rest[k] == x[k - 1]);
                    if k == n {
                        assert(rest[k + 1] == '\n');
                    } else {
                        assert(rest[k + 1] == x[k]);
                        assert(match_at(x, sep, k - 1)) by {
                            assert(x.subrange(k - 1, k + 1) =~= sep);
                        }
                    }
                } else {
                    assert(rest[k] == '\n');
                }
            }
        }
    }
    lemma_first_occur_none(rest, sep);
    // So the split on `?&` is the empty head and the rest.
    assert(split_on(t, sep) =~= seq![Seq::<char>::empty(), rest]) by {
        assert(t.take(0) =~= Seq::<char>::empty());
        assert(split_on(rest, sep) == seq![rest]);
    }
    let props = keep_nonempty(split_on(t, sep));
    assert(props =~= seq![rest]) by {
        let ps = seq![Seq::<char>::empty(), rest];
        assert(ps.drop_last() =~= seq![Seq::<char>::empty()]);
        assert(seq![Seq::<char>::empty()].drop_last() =~= Seq::<Seq<char>>::empty());
        assert(keep_nonempty(Seq::<Seq<char>>::empty()) == Seq::<Seq<char>>::empty());
        assert(seq![Seq::<char>::empty()].last() == Seq::<char>::empty());
        assert(keep_nonempty(seq![Seq::<char>::empty()]) =~= Seq::<Seq<char>>::empty());
        assert(rest.len() > 0);
        assert(split_on(t, sep) == ps);
    }
    assert(strip_spec(t) == strip_section(Seq::empty(), rest)) by {
        assert(props.skip(1) =~= Seq::<Seq<char>>::empty());
        assert(props[0] == rest);
        assert(strip_props(Seq::empty(), props) == strip_props(
            strip_section(Seq::empty(), rest),
            props.skip(1),
        ));
        assert(strip_props(strip_section(Seq::empty(), rest), Seq::<Seq<char>>::empty())
            == strip_section(Seq::empty(), rest));
    }
    // Inside the section: the content splits as the fragments of `x` and
    // one empty terminator piece.
    let body = rest.skip(1);
    assert(body =~= x + nl);
    lemma_split_terminated(x, nl);
    let ps = split_on(x, nl);
    let empty = Seq::<char>::empty();
    assert(split_on(body, nl) == ps.push(empty));
    let frags = keep_nonempty(split_on(body, nl));
    assert(frags == keep_nonempty(ps)) by {
        assert(ps.push(empty).drop_last() =~= ps);
        assert(ps.push(empty).last() == empty);
        assert(keep_nonempty(ps.push(empty)) == keep_nonempty(ps) + Seq::<Seq<char>>::empty());
        assert(keep_nonempty(ps) + Seq::<Seq<char>>::empty() =~= keep_nonempty(ps));
    }
    // The plain branch space-joins the fragments, none of which carries a
    // color prefix.
    assert(rest[0] == 'N');
    assert(strip_section(Seq::empty(), rest) == strip_frags_other(Seq::empty(), frags));
    lemma_keep_nonempty_elts(ps);
    lemma_fold_join(Seq::empty(), frags);
}

} // verus!
