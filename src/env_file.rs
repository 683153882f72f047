//! `KEY=VALUE` settings files: one setting per line, blank lines and lines
//! that start with `#` skipped, key and value trimmed.
use vstd::prelude::*;
use crate::text::{chars_of, first_of, first_of_exec, lemma_first_of_found};

verus! {

/// White space as `char::is_whitespace` has it.
pub open spec fn is_ws(c: char) -> bool {
    c == ' ' || ('\t' <= c <= '\r') || c == '\u{85}' || c == '\u{a0}' || c == '\u{1680}' || (
    '\u{2000}' <= c <= '\u{200a}') || c == '\u{2028}' || c == '\u{2029}' || c == '\u{202f}' || c
        == '\u{205f}' || c == '\u{3000}'
}

pub open spec fn trim_start(s: Seq<char>) -> Seq<char>
    decreases s.len(),
{
    if s.len() > 0 && is_ws(s[0]) {
        trim_start(s.drop_first())
    } else {
        s
    }
}

pub open spec fn trim_end(s: Seq<char>) -> Seq<char>
    decreases s.len(),
{
    if s.len() > 0 && is_ws(s.last()) {
        trim_end(s.drop_last())
    } else {
        s
    }
}

/// `s` without white space at either end.
pub open spec fn trim(s: Seq<char>) -> Seq<char> {
    trim_end(trim_start(s))
}

/// The setting a line holds, if any.
pub open spec fn env_line(line: Seq<char>) -> Option<(Seq<char>, Seq<char>)> {
    let t = trim(line);
    if t.len() == 0 || t[0] == '#' {
        None
    } else {
        match first_of(t, '=', 0) {
            Some(k) => Some((trim(t.subrange(0, k)), trim(t.subrange(k + 1, t.len() as int)))),
            None => None,
        }
    }
}

pub open spec fn opt_seq(o: Option<(Seq<char>, Seq<char>)>) -> Seq<(Seq<char>, Seq<char>)> {
    match o {
        Some(x) => seq![x],
        None => Seq::empty(),
    }
}

/// The settings of a file, line by line, in order.
pub open spec fn env_entries(s: Seq<char>) -> Seq<(Seq<char>, Seq<char>)>
    decreases s.len(),
{
    match first_of(s, '\n', 0) {
        Some(k) => if 0 <= k < s.len() {
            opt_seq(env_line(s.subrange(0, k))) + env_entries(s.subrange(k + 1, s.len() as int))
        } else {
            Seq::empty()
        },
        None => opt_seq(env_line(s)),
    }
}

/// The value a file gives `key`: its last setting of it.
pub open spec fn env_value(entries: Seq<(Seq<char>, Seq<char>)>, key: Seq<char>) -> Option<Seq<char>>
    decreases entries.len(),
{
    if entries.len() == 0 {
        None
    } else if entries.last().0 == key {
        Some(entries.last().1)
    } else {
        env_value(entries.drop_last(), key)
    }
}

/// The settings as plain text pairs.
pub open spec fn pairs_view(v: Seq<(String, String)>) -> Seq<(Seq<char>, Seq<char>)> {
    v.map_values(|p: (String, String)| (p.0@, p.1@))
}

fn is_ws_exec(c: char) -> (r: bool)
    ensures
        r == is_ws(c),
{
    c == ' ' || ('\t' <= c && c <= '\r') || c == '\u{85}' || c == '\u{a0}' || c == '\u{1680}' || (
    '\u{2000}' <= c && c <= '\u{200a}') || c == '\u{2028}' || c == '\u{2029}' || c == '\u{202f}'
        || c == '\u{205f}' || c == '\u{3000}'
}

proof fn lemma_trim_start_at(s: Seq<char>, i: int)
    requires
        0 <= i <= s.len(),
        forall|k: int| 0 <= k < i ==> is_ws(#[trigger] s[k]),
    ensures
        trim_start(s) == trim_start(s.subrange(i, s.len() as int)),
    decreases i,
{
    if i > 0 {
        assert(s.drop_first().subrange(i - 1, s.len() - 1) =~= s.subrange(i, s.len() as int));
        assert forall|k: int| 0 <= k < i - 1 implies is_ws(#[trigger] s.drop_first()[k]) by {
            assert(s.drop_first()[k] == s[k + 1]);
        }
        lemma_trim_start_at(s.drop_first(), i - 1);
    } else {
        assert(s.subrange(0, s.len() as int) =~= s);
    }
}

proof fn lemma_trim_end_at(s: Seq<char>, j: int)
    requires
        0 <= j <= s.len(),
        forall|k: int| j <= k < s.len() ==> is_ws(#[trigger] s[k]),
    ensures
        trim_end(s) == trim_end(s.subrange(0, j)),
    decreases s.len() - j,
{
    if j < s.len() {
        assert(s.drop_last().subrange(0, j) =~= s.subrange(0, j));
        assert forall|k: int| j <= k < s.len() - 1 implies is_ws(#[trigger] s.drop_last()[k]) by {
            assert(s.drop_last()[k] == s[k]);
        }
        lemma_trim_end_at(s.drop_last(), j);
    } else {
        assert(s.subrange(0, j) =~= s);
    }
}

/// `s` trimmed.
pub fn trim_exec(s: &str) -> (r: String)
    ensures
        r@ == trim(s@),
{
    let cs = chars_of(s);
    let n = cs.len();
    let mut i: usize = 0;
    while i < n && is_ws_exec(cs[i])
        invariant
            n == cs@.len(),
            i <= n,
            forall|k: int| 0 <= k < i ==> is_ws(#[trigger] cs@[k]),
        decreases n - i,
    {
        i = i + 1;
    }
    let mut j: usize = n;
    while j > i && is_ws_exec(cs[j - 1])
        invariant
            n == cs@.len(),
            i <= j <= n,
            forall|k: int| j <= k < n ==> is_ws(#[trigger] cs@[k]),
        decreases j,
    {
        j = j - 1;
    }
    proof {
        lemma_trim_start_at(cs@, i as int);
        let u = cs@.subrange(i as int, n as int);
        assert(i == n || !is_ws(u[0]));
        assert(trim_start(u) == u);
        assert forall|k: int| j - i <= k < u.len() implies is_ws(#[trigger] u[k]) by {
            assert(u[k] == cs@[i + k]);
        }
        lemma_trim_end_at(u, j - i);
        let w = u.subrange(0, j - i);
        assert(w =~= cs@.subrange(i as int, j as int));
        assert(j == i || !is_ws(w.last()));
        assert(trim_end(w) == w);
    }
    String::from_str(s.substring_char(i, j))
}

/// The setting a line holds, as `env_line` says.
fn parse_line(line: &str) -> (r: Option<(String, String)>)
    ensures
        match r {
            Some(p) => env_line(line@) == Some((p.0@, p.1@)),
            None => env_line(line@) is None,
        },
{
    let t = trim_exec(line);
    let cs = chars_of(t.as_str());
    if cs.len() == 0 || cs[0] == '#' {
        return None;
    }
    match first_of_exec(&cs, '=', 0) {
        Some(k) => {
            let key = trim_exec(t.as_str().substring_char(0, k));
            let value = trim_exec(t.as_str().substring_char(k + 1, cs.len()));
            Some((key, value))
        },
        None => None,
    }
}

/// The settings of a file's text, in order.
pub fn parse_env_content(content: &str) -> (r: Vec<(String, String)>)
    ensures
        pairs_view(r@) == env_entries(content@),
{
    let cs = chars_of(content);
    let n = cs.len();
    let mut out: Vec<(String, String)> = Vec::new();
    let mut pos: usize = 0;
    assert(cs@.subrange(0, n as int) =~= cs@);
    assert(pairs_view(out@) =~= Seq::<(Seq<char>, Seq<char>)>::empty());
    loop
        invariant
            n == cs@.len(),
            cs@ == content@,
            pos <= n,
            env_entries(content@) == pairs_view(out@) + env_entries(cs@.subrange(pos as int, n as int)),
        decreases n - pos,
    {
        let ghost rest = cs@.subrange(pos as int, n as int);
        proof {
            lemma_first_of_found(rest, '\n', 0);
            lemma_first_shift(cs@, pos as int, 0);
        }
        let end = match first_of_exec(&cs, '\n', pos) {
            Some(e) => e,
            None => n,
        };
        let line = content.substring_char(pos, end);
        assert(line@ == rest.subrange(0, end - pos) || end == n);
        let ghost old_out = out@;
        let parsed = parse_line(line);
        match parsed {
            Some(p) => {
                out.push(p);
            },
            None => {},
        }
        assert(pairs_view(out@) =~= pairs_view(old_out) + opt_seq(env_line(line@)));
        if end == n {
            assert(line@ =~= rest);
            assert(env_entries(rest) == opt_seq(env_line(rest)));
            assert(env_entries(content@) =~= pairs_view(out@));
            return out;
        }
        assert(line@ =~= rest.subrange(0, end - pos));
        assert(rest.subrange(end - pos + 1, rest.len() as int) =~= cs@.subrange(end + 1, n as int));
        pos = end + 1;
        assert(env_entries(content@) =~= pairs_view(out@) + env_entries(cs@.subrange(pos as int, n as int)));
    }
}

/// Searching a suffix of `s` is searching `s` from where the suffix starts.
proof fn lemma_first_shift(s: Seq<char>, p: int, i: int)
    requires
        0 <= p <= s.len(),
        0 <= i,
    ensures
        match first_of(s.subrange(p, s.len() as int), '\n', i) {
            Some(e) => first_of(s, '\n', p + i) == Some(e + p),
            None => first_of(s, '\n', p + i) is None,
        },
    decreases s.len() - p - i,
{
    if p + i < s.len() && s[p + i] != '\n' {
        lemma_first_shift(s, p, i + 1);
    }
}

/// The value `entries` gives `key`, as `env_value` says.
pub fn env_get<'a>(entries: &'a Vec<(String, String)>, key: &str) -> (r: Option<&'a String>)
    ensures
        match r {
            Some(v) => env_value(pairs_view(entries@), key@) == Some(v@),
            None => env_value(pairs_view(entries@), key@) is None,
        },
{
    let ghost pv = pairs_view(entries@);
    let mut i: usize = entries.len();
    assert(pv.subrange(0, i as int) =~= pv);
    while i > 0
        invariant
            i <= entries@.len(),
            pv == pairs_view(entries@),
            env_value(pv, key@) == env_value(pv.subrange(0, i as int), key@),
        decreases i,
    {
        let ghost sub = pv.subrange(0, i as int);
        assert(sub.last() == pv[i - 1]);
        assert(sub.drop_last() =~= pv.subrange(0, i - 1));
        if crate::text::str_eq(entries[i - 1].0.as_str(), key) {
            return Some(&entries[i - 1].1);
        }
        i = i - 1;
    }
    None
}

} // verus!
