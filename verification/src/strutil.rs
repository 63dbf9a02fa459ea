//! Verified building blocks for working with strings: substring search,
//! splitting, joining, and decimal rendering of counters.

use vstd::prelude::*;

verus! {

use vstd::string::StrSliceExecFns;
use vstd::string::StringExecFns;

/// The pattern `pat` occurs in `s` at offset `k`.
pub open spec fn match_at(s: Seq<char>, pat: Seq<char>, k: int) -> bool {
    &&& 0 <= k
    &&& k + pat.len() <= s.len()
    &&& s.subrange(k, k + pat.len() as int) == pat
}

/// Offset of the first occurrence of `pat` in `s`, or -1 when there is none.
pub open spec fn first_occur(s: Seq<char>, pat: Seq<char>) -> int
    decreases s.len(),
{
    if pat.len() == 0 {
        0
    } else if s.len() < pat.len() {
        -1
    } else if s.subrange(0, pat.len() as int) == pat {
        0
    } else {
        let r = first_occur(s.skip(1), pat);
        if r < 0 {
            -1
        } else {
            r + 1
        }
    }
}

pub proof fn lemma_first_occur(s: Seq<char>, pat: Seq<char>)
    ensures
        first_occur(s, pat) == -1 ==> forall|k: int| !match_at(s, pat, k),
        first_occur(s, pat) >= 0 ==> match_at(s, pat, first_occur(s, pat)),
        first_occur(s, pat) >= 0 ==> forall|k: int|
            0 <= k < first_occur(s, pat) ==> !match_at(s, pat, k),
    decreases s.len(),
{
    if pat.len() == 0 {
        assert(match_at(s, pat, 0)) by {
            assert(s.subrange(0, 0) =~= pat);
        }
    } else if s.len() < pat.len() {
        assert forall|k: int| !match_at(s, pat, k) by {
            if 0 <= k && k + pat.len() <= s.len() {
                assert(pat.len() <= s.len());
            }
        }
    } else if s.subrange(0, pat.len() as int) == pat {
    } else {
        lemma_first_occur(s.skip(1), pat);
        assert forall|k: int| 0 <= k && k + pat.len() <= s.len() - 1 implies match_at(
            s.skip(1),
            pat,
            k,
        ) == match_at(s, pat, k + 1) by {
            assert(s.skip(1).subrange(k, k + pat.len() as int) =~= s.subrange(
                k + 1,
                k + 1 + pat.len() as int,
            ));
        }
        let r = first_occur(s.skip(1), pat);
        if r < 0 {
            assert forall|k: int| !match_at(s, pat, k) by {
                if match_at(s, pat, k) {
                    if k == 0 {
                        assert(s.subrange(0, pat.len() as int) == pat);
                    } else {
                        assert(match_at(s.skip(1), pat, k - 1));
                    }
                }
            }
        } else {
            assert(match_at(s.skip(1), pat, r));
            assert(match_at(s, pat, r + 1)) by {
                assert(s.skip(1).subrange(r, r + pat.len() as int) =~= s.subrange(
                    r + 1,
                    r + 1 + pat.len() as int,
                ));
            }
            assert forall|k: int| 0 <= k < r + 1 implies !match_at(s, pat, k) by {
                if match_at(s, pat, k) {
                    if k == 0 {
                        assert(s.subrange(0, pat.len() as int) == pat);
                    } else {
                        assert(match_at(s.skip(1), pat, k - 1));
                    }
                }
            }
        }
    }
}

pub proof fn lemma_first_occur_is(s: Seq<char>, pat: Seq<char>, i: int)
    requires
        match_at(s, pat, i),
        forall|k: int| 0 <= k < i ==> !match_at(s, pat, k),
    ensures
        first_occur(s, pat) == i,
{
    lemma_first_occur(s, pat);
    let f = first_occur(s, pat);
    if f == -1 {
        assert(!match_at(s, pat, i));
    } else if f < i {
        assert(!match_at(s, pat, f));
    } else if f > i {
        assert(!match_at(s, pat, i));
    }
}

pub proof fn lemma_first_occur_none(s: Seq<char>, pat: Seq<char>)
    requires
        forall|k: int| !match_at(s, pat, k),
    ensures
        first_occur(s, pat) == -1,
{
    lemma_first_occur(s, pat);
    let f = first_occur(s, pat);
    if f >= 0 {
        assert(!match_at(s, pat, f));
    }
}

/// First occurrence of `pat` in `s`, as an executable search.
pub fn find_sub(s: &str, pat: &str) -> (r: Option<usize>)
    requires
        pat@.len() > 0,
    ensures
        match r {
            Some(i) => first_occur(s@, pat@) == i as int,
            None => first_occur(s@, pat@) == -1,
        },
{
    proof {
        lemma_first_occur(s@, pat@);
    }
    let n = s.unicode_len();
    let m = pat.unicode_len();
    if m > n {
        return None;
    }
    let mut i: usize = 0;
    while i <= n - m
        invariant
            n == s@.len(),
            m == pat@.len(),
            0 < m <= n,
            i <= n - m + 1,
            forall|k: int| 0 <= k < i ==> !match_at(s@, pat@, k),
        decreases n - i,
    {
        let mut j: usize = 0;
        let mut mismatch = false;
        while j < m && !mismatch
            invariant
                n == s@.len(),
                m == pat@.len(),
                i + m <= n,
                j <= m,
                forall|t: int| 0 <= t < j ==> s@[i + t] == pat@[t],
                mismatch ==> j < m && s@[i + j as int] != pat@[j as int],
            decreases m - j + (if mismatch {
                0int
            } else {
                1int
            }),
        {
            if s.get_char(i + j) != pat.get_char(j) {
                mismatch = true;
            } else {
                j += 1;
            }
        }
        if !mismatch {
            proof {
                assert(s@.subrange(i as int, i + m as int) =~= pat@);
                assert(match_at(s@, pat@, i as int));
                lemma_first_occur(s@, pat@);
            }
            return Some(i);
        }
        proof {
            assert(!match_at(s@, pat@, i as int)) by {
                if match_at(s@, pat@, i as int) {
                    assert(s@.subrange(i as int, i + m as int)[j as int] == s@[i + j as int]);
                }
            }
        }
        i += 1;
    }
    proof {
        assert forall|k: int| !match_at(s@, pat@, k) by {
            if match_at(s@, pat@, k) {
                assert(k + m <= n);
            }
        }
        lemma_first_occur(s@, pat@);
        if first_occur(s@, pat@) >= 0 {
            assert(match_at(s@, pat@, first_occur(s@, pat@)));
        }
    }
    None
}

/// Whether `sub` occurs somewhere in `s`.
pub open spec fn contains_sub(s: Seq<char>, sub: Seq<char>) -> bool {
    first_occur(s, sub) >= 0
}

pub fn str_contains(s: &str, sub: &str) -> (r: bool)
    requires
        sub@.len() > 0,
    ensures
        r == contains_sub(s@, sub@),
{
    find_sub(s, sub).is_some()
}

/// Pieces of `s` split on every occurrence of `sep`, empty pieces included,
/// as `str::split` produces them.
pub open spec fn split_on(s: Seq<char>, sep: Seq<char>) -> Seq<Seq<char>>
    decreases s.len(),
{
    if sep.len() == 0 {
        seq![s]
    } else {
        let i = first_occur(s, sep);
        if i < 0 {
            seq![s]
        } else if i + sep.len() > s.len() {
            seq![s]
        } else {
            seq![s.take(i)] + split_on(s.skip(i + sep.len() as int), sep)
        }
    }
}

/// Splitting a text with a two-character separator appended splits the
/// text and adds one empty piece, as long as the text's last character
/// cannot start an occurrence that spans the boundary.
pub proof fn lemma_split_terminated(x: Seq<char>, sep: Seq<char>)
    requires
        sep.len() == 2,
        x.len() == 0 || x.last() != sep[0],
    ensures
        split_on(x + sep, sep) == split_on(x, sep).push(Seq::<char>::empty()),
    decreases x.len(),
{
    let t = x + sep;
    lemma_first_occur(x, sep);
    let i = first_occur(x, sep);
    let empty = Seq::<char>::empty();
    if i < 0 {
        assert(match_at(t, sep, x.len() as int)) by {
            assert(t.subrange(x.len() as int, x.len() as int + 2) =~= sep);
        }
        assert forall|k: int| 0 <= k < x.len() implies !match_at(t, sep, k) by {
            if match_at(t, sep, k) {
                assert(t.subrange(k, k + 2)[0] == t[k]);
                assert(t.subrange(k, k + 2)[1] == t[k + 1]);
                if k + 2 <= x.len() {
                    assert(match_at(x, sep, k)) by {
                        assert(x.subrange(k, k + 2) =~= t.subrange(k, k + 2));
                    }
                } else {
                    assert(k == x.len() - 1);
                    assert(t[k] == x.last());
                    assert(t[k] == sep[0]);
                }
            }
        }
        lemma_first_occur_is(t, sep, x.len() as int);
        assert(t.take(x.len() as int) =~= x);
        assert(t.skip(x.len() as int + 2) =~= empty);
        assert(first_occur(empty, sep) == -1);
        assert(split_on(empty, sep) == seq![empty]);
        assert(split_on(t, sep) == seq![x] + seq![empty]);
        assert(split_on(x, sep) == seq![x]);
        assert(seq![x].push(empty) =~= seq![x] + seq![empty]);
    } else {
        assert(match_at(x, sep, i));
        assert(match_at(t, sep, i)) by {
            assert(t.subrange(i, i + 2) =~= x.subrange(i, i + 2));
        }
        assert forall|k: int| 0 <= k < i implies !match_at(t, sep, k) by {
            if match_at(t, sep, k) {
                assert(match_at(x, sep, k)) by {
                    assert(x.subrange(k, k + 2) =~= t.subrange(k, k + 2));
                }
            }
        }
        lemma_first_occur_is(t, sep, i);
        let xr = x.skip(i + 2);
        assert(t.skip(i + 2) =~= xr + sep);
        if xr.len() > 0 {
            assert(xr.last() == x.last());
        }
        lemma_split_terminated(xr, sep);
        assert(t.take(i) =~= x.take(i));
        assert(split_on(t, sep) == seq![x.take(i)] + split_on(xr + sep, sep));
        assert(split_on(x, sep) == seq![x.take(i)] + split_on(xr, sep));
        assert((seq![x.take(i)] + split_on(xr, sep)).push(empty) =~= seq![x.take(i)] + split_on(
            xr,
            sep,
        ).push(empty));
    }
}

pub fn str_eq(a: &str, b: &str) -> (r: bool)
    ensures
        r == (a@ == b@),
{
    let n = a.unicode_len();
    if n != b.unicode_len() {
        return false;
    }
    let mut i: usize = 0;
    while i < n
        invariant
            n == a@.len(),
            n == b@.len(),
            i <= n,
            forall|t: int| 0 <= t < i ==> a@[t] == b@[t],
        decreases n - i,
    {
        if a.get_char(i) != b.get_char(i) {
            return false;
        }
        i += 1;
    }
    proof {
        assert(a@ =~= b@);
    }
    true
}

pub fn string_eq(a: &String, b: &str) -> (r: bool)
    ensures
        r == (a@ == b@),
{
    str_eq(a.as_str(), b)
}

/// `a` followed by `b`.
pub fn concat2(a: &str, b: &str) -> (r: String)
    ensures
        r@ == a@ + b@,
{
    let mut s = a.to_owned();
    s.append(b);
    s
}

/// `a` followed by `b` followed by `c`.
pub fn concat3(a: &str, b: &str, c: &str) -> (r: String)
    ensures
        r@ == a@ + b@ + c@,
{
    let mut s = a.to_owned();
    s.append(b);
    s.append(c);
    s
}

/// Relies on String::push: appends one character to the string.
#[verifier::external_body]
pub fn push_char(s: &mut String, c: char)
    ensures
        final(s)@ == old(s)@.push(c),
{
    s.push(c);
}

/// The character for the decimal digit `d % 10`.
pub open spec fn dec_digit(d: nat) -> char {
    let m = d % 10;
    if m == 0 {
        '0'
    } else if m == 1 {
        '1'
    } else if m == 2 {
        '2'
    } else if m == 3 {
        '3'
    } else if m == 4 {
        '4'
    } else if m == 5 {
        '5'
    } else if m == 6 {
        '6'
    } else if m == 7 {
        '7'
    } else if m == 8 {
        '8'
    } else {
        '9'
    }
}

/// Decimal rendering of `n`, most significant digit first.
pub open spec fn dec_str(n: nat) -> Seq<char>
    decreases n,
{
    if n < 10 {
        seq![dec_digit(n)]
    } else {
        dec_str(n / 10).push(dec_digit(n % 10))
    }
}

fn digit_char(d: usize) -> (c: char)
    ensures
        c == dec_digit(d as nat),
{
    let m = d % 10;
    if m == 0 {
        '0'
    } else if m == 1 {
        '1'
    } else if m == 2 {
        '2'
    } else if m == 3 {
        '3'
    } else if m == 4 {
        '4'
    } else if m == 5 {
        '5'
    } else if m == 6 {
        '6'
    } else if m == 7 {
        '7'
    } else if m == 8 {
        '8'
    } else {
        '9'
    }
}

/// Renders `n` in decimal.
pub fn usize_to_string(n: usize) -> (r: String)
    ensures
        r@ == dec_str(n as nat),
    decreases n,
{
    if n < 10 {
        let mut s = String::new();
        push_char(&mut s, digit_char(n));
        proof {
            assert(s@ =~= dec_str(n as nat));
        }
        s
    } else {
        let mut s = usize_to_string(n / 10);
        push_char(&mut s, digit_char(n % 10));
        s
    }
}

/// The whitespace characters that word splitting recognises.
pub open spec fn is_space_char(c: char) -> bool {
    c == ' ' || c == '\t' || c == '\n' || c == '\r'
}

fn space_char(c: char) -> (r: bool)
    ensures
        r == is_space_char(c),
{
    c == ' ' || c == '\t' || c == '\n' || c == '\r'
}

pub open spec fn trim_front(s: Seq<char>) -> Seq<char>
    decreases s.len(),
{
    if s.len() > 0 && is_space_char(s[0]) {
        trim_front(s.skip(1))
    } else {
        s
    }
}

pub open spec fn trim_back(s: Seq<char>) -> Seq<char>
    decreases s.len(),
{
    if s.len() > 0 && is_space_char(s.last()) {
        trim_back(s.drop_last())
    } else {
        s
    }
}

/// The text without its leading and trailing whitespace.
pub open spec fn trim_spec(s: Seq<char>) -> Seq<char> {
    trim_back(trim_front(s))
}

/// A text of whitespace alone trims to nothing.
pub proof fn lemma_trim_blank(s: Seq<char>)
    requires
        forall|i: int| 0 <= i < s.len() ==> is_space_char(s[i]),
    ensures
        trim_spec(s).len() == 0,
    decreases s.len(),
{
    if s.len() > 0 {
        assert forall|i: int| 0 <= i < s.skip(1).len() implies is_space_char(s.skip(1)[i]) by {
            assert(s.skip(1)[i] == s[i + 1]);
        }
        lemma_trim_blank(s.skip(1));
    }
}

/// Removes leading and trailing whitespace.
pub fn trim_str(s: &str) -> (r: String)
    ensures
        r@ == trim_spec(s@),
{
    let n = s.unicode_len();
    let mut start: usize = 0;
    proof {
        assert(s@.skip(0) =~= s@);
    }
    while start < n && space_char(s.get_char(start))
        invariant
            n == s@.len(),
            start <= n,
            trim_front(s@) == trim_front(s@.skip(start as int)),
        decreases n - start,
    {
        proof {
            assert(s@.skip(start as int)[0] == s@[start as int]);
            assert(s@.skip(start as int).skip(1) =~= s@.skip(start + 1));
        }
        start += 1;
    }
    let ghost u = s@.skip(start as int);
    proof {
        if start < n {
            assert(u[0] == s@[start as int]);
        }
        assert(trim_front(s@) == u);
    }
    let mut end: usize = n;
    proof {
        assert(u.take(n - start) =~= u);
    }
    while end > start && space_char(s.get_char(end - 1))
        invariant
            n == s@.len(),
            start <= end <= n,
            u == s@.skip(start as int),
            trim_back(u) == trim_back(u.take(end - start)),
        decreases end,
    {
        proof {
            assert(u.take(end - start).last() == s@[end - 1]);
            assert(u.take(end - start).drop_last() =~= u.take(end - 1 - start));
        }
        end -= 1;
    }
    proof {
        if end > start {
            assert(u.take(end - start).last() == s@[end - 1]);
        } else {
            assert(u.take(0) =~= Seq::<char>::empty());
        }
        assert(trim_back(u.take(end - start)) == u.take(end - start));
    }
    let r = s.substring_char(start, end).to_owned();
    proof {
        assert(s@.subrange(start as int, end as int) =~= u.take(end - start));
    }
    r
}

pub open spec fn split_ws_rec(s: Seq<char>, cur: Seq<char>) -> Seq<Seq<char>>
    decreases s.len(),
{
    if s.len() == 0 {
        if cur.len() == 0 {
            Seq::empty()
        } else {
            seq![cur]
        }
    } else if is_space_char(s[0]) {
        if cur.len() == 0 {
            split_ws_rec(s.skip(1), Seq::empty())
        } else {
            seq![cur] + split_ws_rec(s.skip(1), Seq::empty())
        }
    } else {
        split_ws_rec(s.skip(1), cur.push(s[0]))
    }
}

/// The whitespace-separated words of `s`, in order.
pub open spec fn split_ws(s: Seq<char>) -> Seq<Seq<char>> {
    split_ws_rec(s, Seq::empty())
}

/// Splits `s` into whitespace-separated words.
pub fn split_whitespace_vec(s: &str) -> (r: Vec<String>)
    ensures
        r.deep_view() == split_ws(s@),
{
    let n = s.unicode_len();
    let mut out: Vec<String> = Vec::new();
    let mut cur = String::new();
    let mut i: usize = 0;
    proof {
        assert(s@.skip(0) =~= s@);
        assert(out.deep_view() =~= Seq::<Seq<char>>::empty());
        assert(Seq::<Seq<char>>::empty() + split_ws_rec(s@, Seq::empty()) =~= split_ws_rec(
            s@,
            Seq::empty(),
        ));
    }
    while i < n
        invariant
            n == s@.len(),
            i <= n,
            split_ws(s@) == out.deep_view() + split_ws_rec(s@.skip(i as int), cur@),
        decreases n - i,
    {
        let ghost pre_out = out.deep_view();
        let ghost pre_cur = cur@;
        proof {
            assert(s@.skip(i as int)[0] == s@[i as int]);
            assert(s@.skip(i as int).skip(1) =~= s@.skip(i + 1));
        }
        let c = s.get_char(i);
        if space_char(c) {
            if cur.unicode_len() > 0 {
                out.push(cur);
                cur = String::new();
                proof {
                    assert(out.deep_view() =~= pre_out.push(pre_cur));
                    assert(pre_out.push(pre_cur) + split_ws_rec(s@.skip(i + 1), Seq::empty())
                        =~= pre_out + (seq![pre_cur] + split_ws_rec(
                        s@.skip(i + 1),
                        Seq::empty(),
                    )));
                }
            } else {
                proof {
                    assert(pre_cur =~= Seq::<char>::empty());
                }
            }
        } else {
            push_char(&mut cur, c);
            proof {
                assert(cur@ == pre_cur.push(s@[i as int]));
            }
        }
        i += 1;
    }
    proof {
        assert(s@.skip(n as int) =~= Seq::<char>::empty());
    }
    if cur.unicode_len() > 0 {
        let ghost pre_out = out.deep_view();
        let ghost pre_cur = cur@;
        out.push(cur);
        proof {
            assert(out.deep_view() =~= pre_out.push(pre_cur));
            assert(pre_out.push(pre_cur) =~= pre_out + seq![pre_cur]);
        }
    }
    out
}

/// The items joined with `sep` between each pair.
pub open spec fn join_with(items: Seq<Seq<char>>, sep: Seq<char>) -> Seq<char>
    decreases items.len(),
{
    if items.len() == 0 {
        Seq::empty()
    } else if items.len() == 1 {
        items[0]
    } else {
        items[0] + sep + join_with(items.skip(1), sep)
    }
}

fn join_from(v: &Vec<String>, sep: &str, i: usize) -> (r: String)
    requires
        i <= v.len(),
    ensures
        r@ == join_with(v.deep_view().skip(i as int), sep@),
    decreases v.len() - i,
{
    if i == v.len() {
        proof {
            assert(v.deep_view().skip(i as int) =~= Seq::<Seq<char>>::empty());
        }
        String::new()
    } else if i + 1 == v.len() {
        proof {
            assert(v.deep_view().skip(i as int)[0] == v[i as int]@);
        }
        v[i].clone()
    } else {
        let rest = join_from(v, sep, i + 1);
        let mut s = v[i].clone();
        s.append(sep);
        s.append(rest.as_str());
        proof {
            assert(v.deep_view().skip(i as int)[0] == v[i as int]@);
            assert(v.deep_view().skip(i as int).skip(1) =~= v.deep_view().skip(i + 1));
        }
        s
    }
}

/// Joins the strings with `sep` between each pair.
pub fn join_strings(v: &Vec<String>, sep: &str) -> (r: String)
    ensures
        r@ == join_with(v.deep_view(), sep@),
{
    let r = join_from(v, sep, 0);
    proof {
        assert(v.deep_view().skip(0) =~= v.deep_view());
    }
    r
}

/// `line` appended to `acc` on a fresh line; a first line starts the text.
pub open spec fn join_line(acc: Seq<char>, line: Seq<char>) -> Seq<char> {
    if acc.len() == 0 {
        line
    } else {
        acc + "\n"@ + line
    }
}

/// Appends `line` to `acc`, separating lines by a newline.
pub fn append_line(acc: &mut String, line: &str)
    ensures
        final(acc)@ == join_line(old(acc)@, line@),
{
    proof {
        reveal_strlit("\n");
    }
    if acc.as_str().unicode_len() == 0 {
        *acc = line.to_owned();
    } else {
        let ghost pre = acc@;
        acc.append("\n");
        proof {
            assert(acc@ =~= pre + "\n"@);
        }
        acc.append(line);
    }
}

/// `pre` is a prefix of `s`.
pub open spec fn has_prefix(s: Seq<char>, pre: Seq<char>) -> bool {
    pre.len() <= s.len() && s.take(pre.len() as int) == pre
}

pub fn str_starts_with(s: &str, pre: &str) -> (r: bool)
    ensures
        r == has_prefix(s@, pre@),
{
    let n = s.unicode_len();
    let m = pre.unicode_len();
    if m > n {
        return false;
    }
    let mut i: usize = 0;
    while i < m
        invariant
            n == s@.len(),
            m == pre@.len(),
            m <= n,
            i <= m,
            forall|t: int| 0 <= t < i ==> s@[t] == pre@[t],
        decreases m - i,
    {
        if s.get_char(i) != pre.get_char(i) {
            proof {
                assert(s@.take(m as int)[i as int] == s@[i as int]);
            }
            return false;
        }
        i += 1;
    }
    proof {
        assert(s@.take(m as int) =~= pre@);
    }
    true
}

/// Splits `s` on every occurrence of `sep`, as `str::split` does.
pub fn split_str(s: &str, sep: &str) -> (r: Vec<String>)
    requires
        sep@.len() > 0,
    ensures
        r.deep_view() == split_on(s@, sep@),
    decreases s@.len(),
{
    proof {
        lemma_first_occur(s@, sep@);
    }
    match find_sub(s, sep) {
        None => {
            let mut r: Vec<String> = Vec::new();
            r.push(s.to_owned());
            proof {
                assert(r.deep_view() =~= split_on(s@, sep@));
            }
            r
        },
        Some(i) => {
            let n = s.unicode_len();
            let m = sep.unicode_len();
            let head = s.substring_char(0, i).to_owned();
            let rest = s.substring_char(i + m, n);
            let mut tail = split_str(rest, sep);
            tail.insert(0, head);
            proof {
                assert(s@.take(i as int) == s@.subrange(0, i as int));
                assert(tail.deep_view() =~= split_on(s@, sep@));
            }
            tail
        },
    }
}

} // verus!
