//! Deriving the logical service behind a container: an ordered list of
//! naming conventions, each of which matches or does not.
use vstd::prelude::*;
use crate::text::chars_of;
use crate::types::{label_value, Container};

verus! {

/// The label under which compose records a container's service.
pub open spec fn compose_service_key() -> Seq<char> {
    "com.docker.compose.service"@
}

/// `s` without its leading slashes.
pub open spec fn skip_slashes(s: Seq<char>) -> Seq<char>
    decreases s.len(),
{
    if s.len() > 0 && s[0] == '/' {
        skip_slashes(s.drop_first())
    } else {
        s
    }
}

/// The last position before `end` that holds `c`.
pub open spec fn last_before(s: Seq<char>, c: char, end: int) -> Option<int>
    decreases end,
{
    if end <= 0 {
        None
    } else if s[end - 1] == c {
        Some(end - 1)
    } else {
        last_before(s, c, end - 1)
    }
}

pub open spec fn is_dec_digit(c: char) -> bool {
    '0' <= c <= '9'
}

/// The number that a run of decimal digits writes.
pub open spec fn dec_value(s: Seq<char>) -> int
    decreases s.len(),
{
    if s.len() == 0 {
        0
    } else {
        dec_value(s.drop_last()) * 10 + (s.last() as int - '0' as int)
    }
}

/// `t` reads as a `u32`: an optional `+`, then at least one decimal digit,
/// with a value that fits in 32 bits.
pub open spec fn parses_u32(t: Seq<char>) -> bool {
    let d = unsigned_digits(t);
    d.len() > 0 && all_dec(d) && dec_value(d) <= 0xffff_ffff
}

/// `t` without a leading `+`.
pub open spec fn unsigned_digits(t: Seq<char>) -> Seq<char> {
    if t.len() > 0 && t[0] == '+' {
        t.drop_first()
    } else {
        t
    }
}

pub open spec fn all_dec(d: Seq<char>) -> bool {
    forall|i: int| 0 <= i < d.len() ==> is_dec_digit(#[trigger] d[i])
}

/// `{project}_{service}_{index}`: the segment between the last two underscores.
pub open spec fn underscore_service(s: Seq<char>) -> Option<Seq<char>> {
    match last_before(s, '_', s.len() as int) {
        Some(k) => match last_before(s, '_', k) {
            Some(j) => Some(s.subrange(j + 1, k)),
            None => None,
        },
        None => None,
    }
}

/// `{...}-{service}-{index}`: the dash-delimited segment before a numeric
/// last segment.
pub open spec fn dash_service(s: Seq<char>) -> Option<Seq<char>> {
    match last_before(s, '-', s.len() as int) {
        Some(k) => if parses_u32(s.subrange(k + 1, s.len() as int)) {
            match last_before(s, '-', k) {
                Some(j) => Some(s.subrange(j + 1, k)),
                None => Some(s.subrange(0, k)),
            }
        } else {
            None
        },
        None => None,
    }
}

/// The service a name stands for: the first convention that matches, else
/// the name itself.
pub open spec fn service_from_name(name: Seq<char>) -> Seq<char> {
    let n = skip_slashes(name);
    match underscore_service(n) {
        Some(x) => x,
        None => match dash_service(n) {
            Some(x) => x,
            None => n,
        },
    }
}

/// The service of a container: its compose label, else what its first name
/// gives, else empty.
pub open spec fn service_of(c: Container) -> Seq<char> {
    match c.labels {
        Some(l) if label_value(l@, compose_service_key()) is Some => label_value(
            l@,
            compose_service_key(),
        ).unwrap(),
        _ => if c.names@.len() > 0 {
            service_from_name(c.names@[0]@)
        } else {
            Seq::empty()
        },
    }
}

proof fn lemma_last_before_bounds(s: Seq<char>, c: char, end: int)
    requires
        end <= s.len(),
    ensures
        last_before(s, c, end) matches Some(k) ==> 0 <= k < end && s[k] == c,
        last_before(s, c, end) is None ==> forall|i: int| 0 <= i < end ==> s[i] != c,
    decreases end,
{
    if end > 0 && s[end - 1] != c {
        lemma_last_before_bounds(s, c, end - 1);
    }
}

/// The last position before `end` that holds `c`, as `last_before` says.
fn find_last(s: &Vec<char>, c: char, end: usize) -> (r: Option<usize>)
    requires
        end <= s@.len(),
    ensures
        last_before(s@, c, end as int) == match r {
            Some(k) => Some(k as int),
            None => None::<int>,
        },
        r matches Some(k) ==> k < end,
{
    let mut e: usize = end;
    while e > 0
        invariant
            e <= end <= s@.len(),
            last_before(s@, c, end as int) == last_before(s@, c, e as int),
        decreases e,
    {
        if s[e - 1] == c {
            return Some(e - 1);
        }
        e = e - 1;
    }
    None
}

proof fn lemma_dec_value_prefix(t: Seq<char>, k: int)
    requires
        forall|i: int| 0 <= i < t.len() ==> is_dec_digit(#[trigger] t[i]),
        0 <= k <= t.len(),
    ensures
        0 <= dec_value(t.subrange(0, k)) <= dec_value(t),
    decreases t.len() - k,
{
    lemma_dec_value_nonneg(t.subrange(0, k));
    if k < t.len() {
        lemma_dec_value_prefix(t, k + 1);
        assert(t.subrange(0, k + 1).drop_last() =~= t.subrange(0, k));
    } else {
        assert(t.subrange(0, k) =~= t);
    }
}

proof fn lemma_dec_value_nonneg(t: Seq<char>)
    requires
        forall|i: int| 0 <= i < t.len() ==> is_dec_digit(#[trigger] t[i]),
    ensures
        dec_value(t) >= 0,
    decreases t.len(),
{
    if t.len() > 0 {
        let u = t.drop_last();
        assert forall|i: int| 0 <= i < u.len() implies is_dec_digit(#[trigger] u[i]) by {
            assert(u[i] == t[i]);
        }
        lemma_dec_value_nonneg(u);
    }
}

/// Whether `s[from..]` reads as a `u32`.
fn parses_u32_exec(s: &Vec<char>, from: usize) -> (r: bool)
    requires
        from <= s@.len(),
    ensures
        r == parses_u32(s@.subrange(from as int, s@.len() as int)),
{
    let n = s.len();
    let ghost t = s@.subrange(from as int, n as int);
    let mut i: usize = from;
    if i < n && s[i] == '+' {
        i = i + 1;
    }
    let ghost d = s@.subrange(i as int, n as int);
    assert(d =~= unsigned_digits(t));
    if i == n {
        return false;
    }
    let start = i;
    let mut v: u64 = 0;
    while i < n
        invariant
            start <= i <= n == s@.len(),
            d == s@.subrange(start as int, n as int),
            t == s@.subrange(from as int, n as int),
            d == unsigned_digits(t),
            forall|k: int| 0 <= k < i - start ==> is_dec_digit(#[trigger] d[k]),
            v == dec_value(d.subrange(0, i - start)),
            v <= 0xffff_ffff,
        decreases n - i,
    {
        let c = s[i];
        if !('0' <= c && c <= '9') {
            assert(d[i - start] == c);
            assert(!all_dec(d));
            return false;
        }
        let ghost k = i - start;
        assert(d.subrange(0, k + 1).drop_last() =~= d.subrange(0, k));
        assert(d.subrange(0, k + 1).last() == c);
        let nv: u64 = v * 10 + (c as u64 - '0' as u64);
        if nv > 0xffff_ffff {
            proof {
                if all_dec(d) {
                    lemma_dec_value_prefix(d, k + 1);
                }
            }
            return false;
        }
        v = nv;
        i = i + 1;
    }
    assert(d.subrange(0, i - start) =~= d);
    true
}

/// `s[from..to]` as a string.
fn slice_string(s: &str, from: usize, to: usize) -> (r: String)
    requires
        from <= to <= s@.len(),
    ensures
        r@ == s@.subrange(from as int, to as int),
{
    String::from_str(s.substring_char(from, to))
}

/// The `{project}_{service}_{index}` convention.
pub fn underscore_convention(name: &str) -> (r: Option<String>)
    ensures
        match r {
            Some(x) => underscore_service(name@) == Some(x@),
            None => underscore_service(name@) is None,
        },
{
    let s = chars_of(name);
    match find_last(&s, '_', s.len()) {
        Some(k) => match find_last(&s, '_', k) {
            Some(j) => Some(slice_string(name, j + 1, k)),
            None => None,
        },
        None => None,
    }
}

/// The `{...}-{service}-{index}` convention.
pub fn dash_convention(name: &str) -> (r: Option<String>)
    ensures
        match r {
            Some(x) => dash_service(name@) == Some(x@),
            None => dash_service(name@) is None,
        },
{
    let s = chars_of(name);
    match find_last(&s, '-', s.len()) {
        Some(k) => {
            if !parses_u32_exec(&s, k + 1) {
                return None;
            }
            match find_last(&s, '-', k) {
                Some(j) => Some(slice_string(name, j + 1, k)),
                None => Some(slice_string(name, 0, k)),
            }
        },
        None => None,
    }
}

/// The service that a container name stands for.
pub fn service_name_from_name(name: &str) -> (r: String)
    ensures
        r@ == service_from_name(name@),
{
    let s = chars_of(name);
    let mut p: usize = 0;
    assert(s@.subrange(0, s@.len() as int) =~= s@);
    while p < s.len() && s[p] == '/'
        invariant
            p <= s@.len(),
            skip_slashes(s@) == skip_slashes(s@.subrange(p as int, s@.len() as int)),
        decreases s.len() - p,
    {
        assert(s@.subrange(p as int, s@.len() as int).drop_first() =~= s@.subrange(
            p + 1,
            s@.len() as int,
        ));
        p = p + 1;
    }
    let trimmed = slice_string(name, p, s.len());
    assert(skip_slashes(trimmed@) == trimmed@);
    match underscore_convention(trimmed.as_str()) {
        Some(x) => x,
        None => match dash_convention(trimmed.as_str()) {
            Some(x) => x,
            None => trimmed,
        },
    }
}

} // verus!
