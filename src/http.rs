//! Framing of the runtime's HTTP/1.1 responses: the head/body split, the
//! status line, and the chunked transfer coding.
use vstd::prelude::*;
use vstd::string::is_ascii_spec_bytes;

verus! {

pub open spec fn crlf() -> Seq<u8> {
    seq![13u8, 10u8]
}

pub open spec fn crlfcrlf() -> Seq<u8> {
    seq![13u8, 10u8, 13u8, 10u8]
}

/// The first position at or after `i` where `pat` occurs in `s`.
pub open spec fn find_from(s: Seq<u8>, pat: Seq<u8>, i: int) -> Option<int>
    decreases s.len() - i,
{
    if i < 0 || i >= s.len() || i + pat.len() > s.len() {
        None
    } else if s.subrange(i, i + pat.len()) == pat {
        Some(i)
    } else {
        find_from(s, pat, i + 1)
    }
}

pub open spec fn is_hex_digit(b: u8) -> bool {
    (48 <= b <= 57) || (65 <= b <= 70) || (97 <= b <= 102)
}

pub open spec fn hex_digit_value(b: u8) -> int {
    if 48 <= b <= 57 {
        b - 48
    } else if 65 <= b <= 70 {
        b - 55
    } else {
        b - 87
    }
}

pub open spec fn all_hex(s: Seq<u8>) -> bool {
    forall|i: int| 0 <= i < s.len() ==> is_hex_digit(#[trigger] s[i])
}

/// The number that a run of hexadecimal digits writes.
pub open spec fn hex_value(s: Seq<u8>) -> int
    decreases s.len(),
{
    if s.len() == 0 {
        0
    } else {
        hex_value(s.drop_last()) * 16 + hex_digit_value(s.last())
    }
}

/// The payload of a chunked body: each chunk is a line of hexadecimal digits
/// giving its size, CRLF, that many bytes, CRLF; a chunk of size zero ends it.
/// `None` where the framing is broken.
pub open spec fn dechunk(s: Seq<u8>) -> Option<Seq<u8>>
    decreases s.len(),
{
    match find_from(s, crlf(), 0) {
        None => None,
        Some(e) => {
            let line = s.subrange(0, e);
            let n = hex_value(line);
            let start = e + 2;
            if e <= 0 || !all_hex(line) {
                None
            } else if n <= 0 {
                Some(Seq::empty())
            } else if start + n + 2 <= s.len() && s.subrange(start + n, start + n + 2) == crlf() {
                match dechunk(s.subrange(start + n + 2, s.len() as int)) {
                    Some(rest) => Some(s.subrange(start, start + n) + rest),
                    None => None,
                }
            } else {
                None
            }
        },
    }
}

/// `out` followed by what `rest` decodes to, if it decodes.
pub open spec fn after(out: Seq<u8>, rest: Option<Seq<u8>>) -> Option<Seq<u8>> {
    match rest {
        Some(r) => Some(out + r),
        None => None,
    }
}

proof fn lemma_hex_value_prefix(t: Seq<u8>, k: int)
    requires
        all_hex(t),
        0 <= k <= t.len(),
    ensures
        0 <= hex_value(t.subrange(0, k)) <= hex_value(t),
    decreases t.len() - k,
{
    lemma_hex_value_nonneg(t.subrange(0, k));
    if k < t.len() {
        lemma_hex_value_prefix(t, k + 1);
        assert(t.subrange(0, k + 1).drop_last() =~= t.subrange(0, k));
        lemma_hex_value_nonneg(t.subrange(0, k));
    } else {
        assert(t.subrange(0, k) =~= t);
    }
}

proof fn lemma_hex_value_nonneg(t: Seq<u8>)
    requires
        all_hex(t),
    ensures
        hex_value(t) >= 0,
    decreases t.len(),
{
    if t.len() > 0 {
        assert(all_hex(t.drop_last()));
        lemma_hex_value_nonneg(t.drop_last());
    }
}

/// Whether `s[from..to]` is a non-empty run of hexadecimal digits whose value
/// is at most `limit`; the value if so.
pub fn parse_hex(s: &Vec<u8>, from: usize, to: usize, limit: usize) -> (r: Option<usize>)
    requires
        from <= to <= s@.len(),
    ensures
        match r {
            Some(v) => to > from && all_hex(s@.subrange(from as int, to as int))
                && v == hex_value(s@.subrange(from as int, to as int)) && v <= limit,
            None => to == from || !all_hex(s@.subrange(from as int, to as int))
                || hex_value(s@.subrange(from as int, to as int)) > limit,
        },
{
    if from == to {
        return None;
    }
    let ghost t = s@.subrange(from as int, to as int);
    let mut v: usize = 0;
    let mut i: usize = from;
    while i < to
        invariant
            from <= i <= to <= s@.len(),
            t == s@.subrange(from as int, to as int),
            all_hex(t.subrange(0, i - from)),
            v == hex_value(t.subrange(0, i - from)),
            v <= limit,
        decreases to - i,
    {
        let b = s[i];
        let d: u8;
        if 48 <= b && b <= 57 {
            d = b - 48;
        } else if 65 <= b && b <= 70 {
            d = b - 55;
        } else if 97 <= b && b <= 102 {
            d = b - 87;
        } else {
            assert(t[i - from] == b);
            return None;
        }
        let ghost k = i - from;
        assert(t.subrange(0, k + 1).drop_last() =~= t.subrange(0, k));
        assert(t.subrange(0, k + 1).last() == b);
        assert(all_hex(t.subrange(0, k + 1))) by {
            assert forall|j: int| 0 <= j < k + 1 implies is_hex_digit(#[trigger] t.subrange(0, k + 1)[j]) by {
                if j < k {
                    assert(t.subrange(0, k + 1)[j] == t.subrange(0, k)[j]);
                }
            }
        }
        let nv: u128 = (v as u128) * 16 + (d as u128);
        if nv > limit as u128 {
            proof {
                if all_hex(t) {
                    lemma_hex_value_prefix(t, k + 1);
                }
            }
            return None;
        }
        v = nv as usize;
        i = i + 1;
    }
    assert(t.subrange(0, i - from) =~= t);
    Some(v)
}

/// The first position at or after `i` where `pat` occurs in `s`.
pub fn find_pat(s: &Vec<u8>, pat: &Vec<u8>, i: usize) -> (r: Option<usize>)
    requires
        pat@.len() > 0,
    ensures
        find_from(s@, pat@, i as int) == match r {
            Some(e) => Some(e as int),
            None => None::<int>,
        },
        r matches Some(e) ==> i <= e && e + pat@.len() <= s@.len(),
{
    let n = s.len();
    let m = pat.len();
    let mut j: usize = i;
    while j < n && n - j >= m
        invariant
            n == s@.len(),
            m == pat@.len(),
            m > 0,
            i <= j,
            find_from(s@, pat@, i as int) == find_from(s@, pat@, j as int),
        decreases n - j,
    {
        let mut k: usize = 0;
        let mut same = true;
        while k < m
            invariant
                j + m <= n,
                n == s@.len(),
                m == pat@.len(),
                k <= m,
                same == (forall|t: int| 0 <= t < k ==> s@[j + t] == pat@[t]),
            decreases m - k,
        {
            if s[j + k] != pat[k] {
                same = false;
            }
            k = k + 1;
        }
        if same {
            assert(s@.subrange(j as int, j + m) =~= pat@);
            return Some(j);
        } else {
            assert(s@.subrange(j as int, j + m) != pat@) by {
                let t = choose|t: int| 0 <= t < m && s@[j + t] != pat@[t];
                assert(s@.subrange(j as int, j + m)[t] == s@[j + t]);
            }
        }
        j = j + 1;
    }
    None
}

/// CRLF as a vector.
pub fn crlf_vec() -> (r: Vec<u8>)
    ensures
        r@ == crlf(),
{
    let mut r: Vec<u8> = Vec::new();
    r.push(13u8);
    r.push(10u8);
    assert(r@ =~= crlf());
    r
}

/// `s[from..to]` as a vector of its own.
pub fn copy_range(s: &Vec<u8>, from: usize, to: usize) -> (r: Vec<u8>)
    requires
        from <= to <= s@.len(),
    ensures
        r@ == s@.subrange(from as int, to as int),
{
    let mut r: Vec<u8> = Vec::new();
    let mut j: usize = from;
    while j < to
        invariant
            from <= j <= to <= s@.len(),
            r@ == s@.subrange(from as int, j as int),
        decreases to - j,
    {
        r.push(s[j]);
        j = j + 1;
        assert(r@ =~= s@.subrange(from as int, j as int));
    }
    r
}

/// The framing of `payloads` as chunks, each announced by the size line of
/// the same index, followed by the closing chunk `0`.
pub open spec fn chunk_frames(lines: Seq<Seq<u8>>, payloads: Seq<Seq<u8>>) -> Seq<u8>
    decreases payloads.len(),
{
    if payloads.len() == 0 || lines.len() == 0 {
        seq![48u8] + crlfcrlf()
    } else {
        lines[0] + crlf() + payloads[0] + crlf() + chunk_frames(lines.drop_first(), payloads.drop_first())
    }
}

/// The payloads one after another.
pub open spec fn concat_all(payloads: Seq<Seq<u8>>) -> Seq<u8>
    decreases payloads.len(),
{
    if payloads.len() == 0 {
        Seq::empty()
    } else {
        payloads[0] + concat_all(payloads.drop_first())
    }
}

/// Each size line is a run of hexadecimal digits that gives the length of the
/// non-empty payload of the same index.
pub open spec fn well_framed(lines: Seq<Seq<u8>>, payloads: Seq<Seq<u8>>) -> bool {
    &&& lines.len() == payloads.len()
    &&& forall|i: int| 0 <= i < lines.len() ==> {
        &&& (#[trigger] lines[i]).len() > 0
        &&& all_hex(lines[i])
        &&& hex_value(lines[i]) == payloads[i].len()
        &&& payloads[i].len() > 0
    }
}

proof fn lemma_find_after_hex(line: Seq<u8>, x: Seq<u8>, i: int)
    requires
        all_hex(line),
        0 <= i <= line.len(),
    ensures
        find_from(line + crlf() + x, crlf(), i) == Some(line.len() as int),
    decreases line.len() - i,
{
    let s = line + crlf() + x;
    if i == line.len() {
        assert(s.subrange(i, i + 2) =~= crlf());
    } else {
        assert(s[i] == line[i]);
        assert(is_hex_digit(line[i]));
        assert(s.subrange(i, i + 2)[0] == s[i]);
        lemma_find_after_hex(line, x, i + 1);
    }
}

/// A body sent as any number of chunks decodes to exactly the concatenation
/// of their payloads, in order.
pub proof fn lemma_dechunk_frames(lines: Seq<Seq<u8>>, payloads: Seq<Seq<u8>>)
    requires
        well_framed(lines, payloads),
    ensures
        dechunk(chunk_frames(lines, payloads)) == Some(concat_all(payloads)),
    decreases payloads.len(),
{
    let s = chunk_frames(lines, payloads);
    if payloads.len() == 0 {
        let z = seq![48u8];
        assert(all_hex(z));
        assert(s =~= z + crlf() + crlf());
        lemma_find_after_hex(z, crlf(), 0);
        assert(s.subrange(0, 1) =~= z);
        assert(z.drop_last() =~= Seq::<u8>::empty());
        assert(hex_value(z.drop_last()) == 0);
        assert(z.last() == 48u8);
        assert(hex_value(z) == 0);
    } else {
        let line = lines[0];
        let p = payloads[0];
        let rest = chunk_frames(lines.drop_first(), payloads.drop_first());
        assert(well_framed(lines.drop_first(), payloads.drop_first())) by {
            assert forall|i: int| 0 <= i < lines.drop_first().len() implies {
                &&& (#[trigger] lines.drop_first()[i]).len() > 0
                &&& all_hex(lines.drop_first()[i])
                &&& hex_value(lines.drop_first()[i]) == payloads.drop_first()[i].len()
                &&& payloads.drop_first()[i].len() > 0
            } by {
                assert(lines.drop_first()[i] == lines[i + 1]);
            }
        }
        assert(lines[0].len() > 0 && all_hex(line) && hex_value(line) == p.len() && p.len() > 0);
        lemma_dechunk_frames(lines.drop_first(), payloads.drop_first());
        assert(s =~= line + crlf() + (p + crlf() + rest));
        lemma_find_after_hex(line, p + crlf() + rest, 0);
        let e = line.len() as int;
        let n = p.len() as int;
        assert(s.subrange(0, e) =~= line);
        assert(s.subrange(e + 2, e + 2 + n) =~= p);
        assert(s.subrange(e + 2 + n, e + 2 + n + 2) =~= crlf());
        assert(s.subrange(e + 2 + n + 2, s.len() as int) =~= rest);
    }
}

pub open spec fn is_digit(b: u8) -> bool {
    48 <= b <= 57
}

/// The three-digit code of a status line such as `HTTP/1.1 200 OK`: the
/// digits that follow the first space, ended by a space or by the line's end.
pub open spec fn status_code(line: Seq<u8>) -> Option<int> {
    match find_from(line, seq![32u8], 0) {
        None => None,
        Some(sp) => if 0 <= sp && sp + 4 <= line.len() && is_digit(line[sp + 1]) && is_digit(
            line[sp + 2],
        ) && is_digit(line[sp + 3]) && (sp + 4 == line.len() || line[sp + 4] == 32u8) {
            Some((line[sp + 1] - 48) * 100 + (line[sp + 2] - 48) * 10 + (line[sp + 3] - 48))
        } else {
            None
        },
    }
}

/// ASCII lower case of a byte.
pub open spec fn lower(b: u8) -> u8 {
    if 65 <= b <= 90 {
        (b + 32) as u8
    } else {
        b
    }
}

/// The header line that announces a chunked body, in lower case.
pub open spec fn te_chunked() -> Seq<u8> {
    "transfer-encoding: chunked"@.map_values(|c: char| c as u8)
}

/// `line` is the chunked announcement, in any case.
pub open spec fn is_te_chunked(line: Seq<u8>) -> bool {
    line.len() == te_chunked().len() && forall|i: int|
        0 <= i < line.len() ==> lower(#[trigger] line[i]) == te_chunked()[i]
}

/// Some CRLF-terminated line of `h` is the chunked announcement.
pub open spec fn any_chunked_line(h: Seq<u8>) -> bool
    decreases h.len(),
{
    match find_from(h, crlf(), 0) {
        None => false,
        Some(e) => if e < 0 || e + 2 > h.len() {
            false
        } else {
            is_te_chunked(h.subrange(0, e)) || any_chunked_line(h.subrange(e + 2, h.len() as int))
        },
    }
}

/// Where the head of a response ends: the first blank line.
pub open spec fn head_end(raw: Seq<u8>) -> Option<int> {
    find_from(raw, crlfcrlf(), 0)
}

/// The status code of a response, if its head is complete and its status
/// line well formed.
pub open spec fn response_status(raw: Seq<u8>) -> Option<int> {
    match (head_end(raw), find_from(raw, crlf(), 0)) {
        (Some(h), Some(l)) => status_code(raw.subrange(0, l)),
        _ => None,
    }
}

/// The response announces a chunked body in one of its header lines.
pub open spec fn response_chunked(raw: Seq<u8>) -> bool {
    match (head_end(raw), find_from(raw, crlf(), 0)) {
        (Some(h), Some(l)) => any_chunked_line(raw.subrange(l + 2, h + 2)),
        _ => false,
    }
}

/// The bytes after the blank line, as sent.
pub open spec fn raw_body(raw: Seq<u8>) -> Seq<u8> {
    match head_end(raw) {
        Some(h) => raw.subrange(h + 4, raw.len() as int),
        None => Seq::empty(),
    }
}

/// The body with its transfer coding removed, if that coding is well formed.
pub open spec fn response_body(raw: Seq<u8>) -> Option<Seq<u8>> {
    if response_chunked(raw) {
        dechunk(raw_body(raw))
    } else {
        Some(raw_body(raw))
    }
}

pub proof fn lemma_line_before_head(raw: Seq<u8>, i: int, h: int)
    requires
        find_from(raw, crlfcrlf(), 0) == Some(h),
        0 <= i <= h,
    ensures
        find_from(raw, crlf(), i) matches Some(l) && i <= l <= h && l + 2 <= raw.len(),
    decreases h - i,
{
    lemma_find_found(raw, crlfcrlf(), 0);
    assert(raw.subrange(h, h + 4) == crlfcrlf());
    if i == h {
        assert(raw.subrange(h, h + 2) =~= crlf()) by {
            assert(raw.subrange(h, h + 2)[0] == raw.subrange(h, h + 4)[0]);
            assert(raw.subrange(h, h + 2)[1] == raw.subrange(h, h + 4)[1]);
        }
    } else if raw.subrange(i, i + 2) != crlf() {
        lemma_line_before_head(raw, i + 1, h);
    }
}

proof fn lemma_find_found(s: Seq<u8>, pat: Seq<u8>, i: int)
    requires
        find_from(s, pat, i) is Some,
    ensures
        find_from(s, pat, i) matches Some(e) && i <= e && e + pat.len() <= s.len()
            && s.subrange(e, e + pat.len()) == pat,
    decreases s.len() - i,
{
    if !(i < 0 || i >= s.len() || i + pat.len() > s.len()) && s.subrange(i, i + pat.len()) != pat {
        lemma_find_found(s, pat, i + 1);
    }
}

/// The code of a status line, as `status_code` reads it.
pub fn parse_status(line: &Vec<u8>) -> (r: Option<u16>)
    ensures
        match r {
            Some(c) => status_code(line@) == Some(c as int),
            None => status_code(line@) is None,
        },
{
    let mut space: Vec<u8> = Vec::new();
    space.push(32u8);
    assert(space@ =~= seq![32u8]);
    let sp = match find_pat(line, &space, 0) {
        Some(sp) => sp,
        None => {
            return None;
        },
    };
    let n = line.len();
    if n - sp < 4 {
        return None;
    }
    let a = line[sp + 1];
    let b = line[sp + 2];
    let c = line[sp + 3];
    if !(48 <= a && a <= 57 && 48 <= b && b <= 57 && 48 <= c && c <= 57) {
        return None;
    }
    if sp + 4 != n && line[sp + 4] != 32 {
        return None;
    }
    Some(((a - 48) as u16) * 100 + ((b - 48) as u16) * 10 + ((c - 48) as u16))
}

/// The bytes of the chunked announcement.
fn te_chunked_vec() -> (r: Vec<u8>)
    ensures
        r@ == te_chunked(),
{
    broadcast use is_ascii_spec_bytes;

    let lit = "transfer-encoding: chunked";
    proof {
        reveal_strlit("transfer-encoding: chunked");
    }
    assert(lit.is_ascii());
    let r = lit.as_bytes_vec();
    assert(r@ =~= te_chunked());
    r
}

/// Whether `line` is the chunked announcement, in any case.
fn line_is_te_chunked(line: &Vec<u8>, te: &Vec<u8>) -> (r: bool)
    requires
        te@ == te_chunked(),
    ensures
        r == is_te_chunked(line@),
{
    if line.len() != te.len() {
        return false;
    }
    let mut i: usize = 0;
    while i < line.len()
        invariant
            line@.len() == te@.len(),
            te@ == te_chunked(),
            i <= line@.len(),
            forall|k: int| 0 <= k < i ==> lower(#[trigger] line@[k]) == te@[k],
        decreases line.len() - i,
    {
        let b = line[i];
        let lb = if 65 <= b && b <= 90 {
            b + 32
        } else {
            b
        };
        if lb != te[i] {
            return false;
        }
        i = i + 1;
    }
    true
}

/// Whether some CRLF-terminated line of `head` is the chunked announcement.
pub fn has_chunked_line(head: &Vec<u8>) -> (r: bool)
    ensures
        r == any_chunked_line(head@),
{
    let n = head.len();
    let nl = crlf_vec();
    let te = te_chunked_vec();
    let mut pos: usize = 0;
    assert(head@.subrange(0, n as int) =~= head@);
    while pos < n
        invariant
            n == head@.len(),
            nl@ == crlf(),
            te@ == te_chunked(),
            pos <= n,
            any_chunked_line(head@) == any_chunked_line(head@.subrange(pos as int, n as int)),
        decreases n - pos,
    {
        let ghost rest = head@.subrange(pos as int, n as int);
        proof { lemma_find_shift(head@, crlf(), pos as int, 0); }
        let e = match find_pat(head, &nl, pos) {
            Some(e) => e,
            None => {
                return false;
            },
        };
        let line = copy_range(head, pos, e);
        assert(rest.subrange(0, e - pos) =~= line@);
        if line_is_te_chunked(&line, &te) {
            return true;
        }
        assert(rest.subrange(e - pos + 2, rest.len() as int) =~= head@.subrange(e + 2, n as int));
        pos = e + 2;
    }
    assert(find_from(head@.subrange(pos as int, n as int), crlf(), 0) is None);
    false
}

/// Searching a suffix of `s` is searching `s` from where the suffix starts.
pub proof fn lemma_find_shift(s: Seq<u8>, pat: Seq<u8>, p: int, i: int)
    requires
        0 <= p <= s.len(),
        0 <= i,
        pat.len() > 0,
    ensures
        match find_from(s.subrange(p, s.len() as int), pat, i) {
            Some(e) => find_from(s, pat, p + i) == Some(e + p),
            None => find_from(s, pat, p + i) is None,
        },
    decreases s.len() - p - i,
{
    let t = s.subrange(p, s.len() as int);
    if i + pat.len() > t.len() {
    } else {
        assert(t.subrange(i, i + pat.len()) =~= s.subrange(p + i, p + i + pat.len()));
        if t.subrange(i, i + pat.len()) != pat {
            lemma_find_shift(s, pat, p, i + 1);
        }
    }
}

} // verus!
