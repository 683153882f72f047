//! The compose document and the rewrite of one volume mount's source.
//!
//! A document is a tree of YAML nodes. Services are the entries of the
//! top-level `services` mapping, in document order; each may hold a `volumes`
//! sequence whose entries are either `source:target[:mode]` strings or
//! mappings with `source` and `target` keys.
use vstd::prelude::*;
use crate::text::{
    chars_of, ends_with_seq, first_of, first_of_exec, lemma_first_of_found, str_eq, str_ends_with,
};

verus! {

/// A YAML node. Numbers keep the text they were written with.
#[derive(PartialEq, Debug)]
pub enum YamlNode {
    Null,
    Bool(bool),
    Number(String),
    Str(String),
    List(Vec<YamlNode>),
    Mapping(Vec<(YamlNode, YamlNode)>),
    Tagged(String, Box<YamlNode>),
}

/// Which volume entry a patch is for.
pub enum VolumeMatch {
    /// The entry mounted at this path inside the container.
    Target(String),
    /// The entry whose source ends with this text.
    SourceSuffix(String),
}

/// `n` is the string `key`.
pub open spec fn is_key(n: YamlNode, key: Seq<char>) -> bool {
    n matches YamlNode::Str(s) && s@ == key
}

/// The first entry at or after `t` whose key is the string `key`.
pub open spec fn key_index_from(es: Seq<(YamlNode, YamlNode)>, key: Seq<char>, t: int) -> Option<int>
    decreases es.len() - t,
{
    if t < 0 || t >= es.len() {
        None
    } else if is_key(es[t].0, key) {
        Some(t)
    } else {
        key_index_from(es, key, t + 1)
    }
}

pub open spec fn key_index(es: Seq<(YamlNode, YamlNode)>, key: Seq<char>) -> Option<int> {
    key_index_from(es, key, 0)
}

/// The string value under `key`, if the value is a string.
pub open spec fn field_str(es: Seq<(YamlNode, YamlNode)>, key: Seq<char>) -> Option<Seq<char>> {
    match key_index(es, key) {
        Some(k) => match es[k].1 {
            YamlNode::Str(x) => Some(x@),
            _ => None,
        },
        None => None,
    }
}

/// The services of a document, as (name, definition) entries.
pub open spec fn services(doc: YamlNode) -> Option<Seq<(YamlNode, YamlNode)>> {
    match doc {
        YamlNode::Mapping(top) => match key_index(top@, "services"@) {
            Some(si) => match top@[si].1 {
                YamlNode::Mapping(svcs) => Some(svcs@),
                _ => None,
            },
            None => None,
        },
        _ => None,
    }
}

/// The `volumes` sequence of a service definition.
pub open spec fn volumes(svc: YamlNode) -> Option<Seq<YamlNode>> {
    match svc {
        YamlNode::Mapping(f) => match key_index(f@, "volumes"@) {
            Some(vi) => match f@[vi].1 {
                YamlNode::List(vols) => Some(vols@),
                _ => None,
            },
            None => None,
        },
        _ => None,
    }
}

/// The volume list of service `i`.
pub open spec fn svc_vols(doc: YamlNode, i: int) -> Option<Seq<YamlNode>> {
    match services(doc) {
        Some(svcs) => if 0 <= i < svcs.len() {
            volumes(svcs[i].1)
        } else {
            None
        },
        None => None,
    }
}

/// Volume entry `j` of service `i`.
pub open spec fn vol_at(doc: YamlNode, i: int, j: int) -> Option<YamlNode> {
    match svc_vols(doc, i) {
        Some(vols) => if 0 <= j < vols.len() {
            Some(vols[j])
        } else {
            None
        },
        None => None,
    }
}

/// Source and target of a `source:target[:mode]` string.
pub open spec fn compact_parts(s: Seq<char>) -> Option<(Seq<char>, Seq<char>)> {
    match first_of(s, ':', 0) {
        Some(c) => {
            let end = match first_of(s, ':', c + 1) {
                Some(e) => e,
                None => s.len() as int,
            };
            Some((s.subrange(0, c), s.subrange(c + 1, end)))
        },
        None => None,
    }
}

/// The source an entry names now.
pub open spec fn entry_source(v: YamlNode) -> Option<Seq<char>> {
    match v {
        YamlNode::Str(s) => match compact_parts(s@) {
            Some(p) => Some(p.0),
            None => None,
        },
        YamlNode::Mapping(es) => field_str(es@, "source"@),
        _ => None,
    }
}

/// The target an entry names.
pub open spec fn entry_target(v: YamlNode) -> Option<Seq<char>> {
    match v {
        YamlNode::Str(s) => match compact_parts(s@) {
            Some(p) => Some(p.1),
            None => None,
        },
        YamlNode::Mapping(es) => field_str(es@, "target"@),
        _ => None,
    }
}

/// A match request as plain values: by target (`true`) or by source suffix,
/// and the text to compare with.
pub open spec fn match_of(m: VolumeMatch) -> (bool, Seq<char>) {
    match m {
        VolumeMatch::Target(t) => (true, t@),
        VolumeMatch::SourceSuffix(x) => (false, x@),
    }
}

pub open spec fn entry_matches(v: YamlNode, m: (bool, Seq<char>)) -> bool {
    if m.0 {
        entry_target(v) == Some(m.1)
    } else {
        entry_source(v) matches Some(s) && ends_with_seq(s, m.1)
    }
}

pub open spec fn match_at(doc: YamlNode, m: (bool, Seq<char>), i: int, j: int) -> bool {
    vol_at(doc, i, j) matches Some(v) && entry_matches(v, m)
}

/// `(i, j)` is the first match in document order.
pub open spec fn first_match(doc: YamlNode, m: (bool, Seq<char>), i: int, j: int) -> bool {
    &&& match_at(doc, m, i, j)
    &&& forall|i2: int, j2: int|
        (i2 < i || (i2 == i && j2 < j)) ==> !#[trigger] match_at(doc, m, i2, j2)
}

pub open spec fn no_match(doc: YamlNode, m: (bool, Seq<char>)) -> bool {
    forall|i: int, j: int| !#[trigger] match_at(doc, m, i, j)
}

/// `i` is the first service that has a volume list.
pub open spec fn first_with_volumes(doc: YamlNode, i: int) -> bool {
    &&& svc_vols(doc, i) is Some
    &&& forall|i2: int| i2 < i ==> #[trigger] svc_vols(doc, i2) is None
}

pub open spec fn no_volumes(doc: YamlNode) -> bool {
    forall|i: int| #[trigger] svc_vols(doc, i) is None
}

/// Two entry lists that differ at most in the value at `k`.
pub open spec fn same_but(a: Seq<(YamlNode, YamlNode)>, b: Seq<(YamlNode, YamlNode)>, k: int) -> bool {
    &&& a.len() == b.len()
    &&& 0 <= k < a.len()
    &&& b[k].0 == a[k].0
    &&& forall|t: int| 0 <= t < a.len() && t != k ==> #[trigger] b[t] == a[t]
}

/// `new` is `old` with at most the volume list of service `i` changed.
pub open spec fn only_volumes_of(old: YamlNode, new: YamlNode, i: int) -> bool {
    match (old, new) {
        (YamlNode::Mapping(top), YamlNode::Mapping(top2)) => match key_index(top@, "services"@) {
            Some(si) => same_but(top@, top2@, si) && match (top@[si].1, top2@[si].1) {
                (YamlNode::Mapping(s1), YamlNode::Mapping(s2)) => same_but(s1@, s2@, i) && match (
                    s1@[i].1,
                    s2@[i].1,
                ) {
                    (YamlNode::Mapping(f1), YamlNode::Mapping(f2)) => match key_index(
                        f1@,
                        "volumes"@,
                    ) {
                        Some(vi) => same_but(f1@, f2@, vi) && f1@[vi].1 is List && f2@[vi].1 is List,
                        None => false,
                    },
                    _ => false,
                },
                _ => false,
            },
            None => false,
        },
        _ => false,
    }
}

/// `new` is the entry `old` pointing at `src`: for a string, `src` followed
/// by everything from the first colon on; for a mapping, the `source` value
/// set to `src` (added last where it was missing), every other entry kept.
pub open spec fn entry_patched(old: YamlNode, new: YamlNode, src: Seq<char>) -> bool {
    match (old, new) {
        (YamlNode::Str(s), YamlNode::Str(s2)) => match first_of(s@, ':', 0) {
            Some(c) => s2@ == src + s@.subrange(c, s@.len() as int),
            None => false,
        },
        (YamlNode::Mapping(a), YamlNode::Mapping(b)) => match key_index(a@, "source"@) {
            Some(k) => same_but(a@, b@, k) && is_key(b@[k].1, src),
            None => b@.len() == a@.len() + 1 && b@.take(a@.len() as int) == a@ && is_key(
                b@.last().0,
                "source"@,
            ) && is_key(b@.last().1, src),
        },
        _ => false,
    }
}

/// The compact entry that a patch adds where nothing matched.
pub open spec fn appended_entry(src: Seq<char>, target: Seq<char>) -> Seq<char> {
    src + ":"@ + target + ":rw"@
}

/// Service `i`'s list `a` became `b`, equal but for entry `j`, which now
/// points at `src`.
pub open spec fn vols_rewritten(old: YamlNode, new: YamlNode, i: int, j: int, src: Seq<char>) -> bool {
    only_volumes_of(old, new, i) && match (svc_vols(old, i), svc_vols(new, i)) {
        (Some(a), Some(b)) => a.len() == b.len() && 0 <= j < a.len() && (forall|t: int|
            0 <= t < a.len() && t != j ==> #[trigger] b[t] == a[t]) && entry_patched(a[j], b[j], src),
        _ => false,
    }
}

/// Service `f`'s list `a` became `a` followed by the string `text`.
pub open spec fn vols_appended(old: YamlNode, new: YamlNode, f: int, text: Seq<char>) -> bool {
    only_volumes_of(old, new, f) && match (svc_vols(old, f), svc_vols(new, f)) {
        (Some(a), Some(b)) => b.len() == a.len() + 1 && b.take(a.len() as int) == a && is_key(
            b.last(),
            text,
        ),
        _ => false,
    }
}

/// What patching `old` for `m` with the source `src` leaves: the first
/// matching entry rewritten (nothing changes where it already names `src`);
/// where none matches and `m` names a target, a new entry appended to the
/// first service with a volume list; else nothing.
pub open spec fn patch_outcome(old: YamlNode, new: YamlNode, m: (bool, Seq<char>), src: Seq<char>, changed: bool) -> bool {
    if exists|i: int, j: int| first_match(old, m, i, j) {
        exists|i: int, j: int|
            #![trigger first_match(old, m, i, j)]
            first_match(old, m, i, j) && if entry_source(vol_at(old, i, j).unwrap()) == Some(src) {
                !changed && new == old
            } else {
                changed && vols_rewritten(old, new, i, j, src)
            }
    } else {
        no_match(old, m) && if m.0 {
            if exists|f: int| first_with_volumes(old, f) {
                exists|f: int|
                    #![trigger first_with_volumes(old, f)]
                    first_with_volumes(old, f) && changed && vols_appended(
                        old,
                        new,
                        f,
                        appended_entry(src, m.1),
                    )
            } else {
                !changed && new == old
            }
        } else {
            !changed && new == old
        }
    }
}

proof fn lemma_key_index_same_keys(
    a: Seq<(YamlNode, YamlNode)>,
    b: Seq<(YamlNode, YamlNode)>,
    key: Seq<char>,
    t: int,
)
    requires
        a.len() == b.len(),
        forall|u: int| 0 <= u < a.len() ==> (#[trigger] a[u]).0 == b[u].0,
        t >= 0,
    ensures
        key_index_from(a, key, t) == key_index_from(b, key, t),
    decreases a.len() - t,
{
    if t < a.len() {
        lemma_key_index_same_keys(a, b, key, t + 1);
    }
}

proof fn lemma_key_index_found(es: Seq<(YamlNode, YamlNode)>, key: Seq<char>, t: int)
    requires
        t >= 0,
    ensures
        key_index_from(es, key, t) matches Some(k) ==> t <= k < es.len() && is_key(es[k].0, key),
    decreases es.len() - t,
{
    if t < es.len() && !is_key(es[t].0, key) {
        lemma_key_index_found(es, key, t + 1);
    }
}

/// The index of the first entry keyed by the string `key`.
pub fn key_index_exec(es: &Vec<(YamlNode, YamlNode)>, key: &str) -> (r: Option<usize>)
    ensures
        key_index(es@, key@) == match r {
            Some(k) => Some(k as int),
            None => None::<int>,
        },
        r matches Some(k) ==> k < es@.len(),
{
    let mut t: usize = 0;
    while t < es.len()
        invariant
            t <= es@.len(),
            key_index(es@, key@) == key_index_from(es@, key@, t as int),
        decreases es.len() - t,
    {
        let is = match &es[t].0 {
            YamlNode::Str(k) => str_eq(k.as_str(), key),
            _ => false,
        };
        if is {
            return Some(t);
        }
        t = t + 1;
    }
    None
}

/// The services of a document, if it has a `services` mapping.
fn services_exec(doc: &YamlNode) -> (r: Option<&Vec<(YamlNode, YamlNode)>>)
    ensures
        match r {
            Some(v) => services(*doc) == Some(v@),
            None => services(*doc) is None,
        },
{
    match doc {
        YamlNode::Mapping(top) => match key_index_exec(top, "services") {
            Some(si) => match &top[si].1 {
                YamlNode::Mapping(svcs) => Some(svcs),
                _ => None,
            },
            None => None,
        },
        _ => None,
    }
}

/// The volume list of a service definition, if it has one.
fn volumes_exec(svc: &YamlNode) -> (r: Option<&Vec<YamlNode>>)
    ensures
        match r {
            Some(v) => volumes(*svc) == Some(v@),
            None => volumes(*svc) is None,
        },
{
    match svc {
        YamlNode::Mapping(f) => match key_index_exec(f, "volumes") {
            Some(vi) => match &f[vi].1 {
                YamlNode::List(vols) => Some(vols),
                _ => None,
            },
            None => None,
        },
        _ => None,
    }
}

/// Source and target of a compact entry, as positions: the first colon and
/// where the target ends.
fn compact_exec(s: &Vec<char>) -> (r: Option<(usize, usize)>)
    ensures
        match r {
            Some((c, end)) => c < end <= s@.len() && s@[c as int] == ':' && first_of(s@, ':', 0)
                == Some(c as int) && compact_parts(s@) == Some(
                (s@.subrange(0, c as int), s@.subrange(c + 1, end as int)),
            ),
            None => compact_parts(s@) is None,
        },
{
    let n = s.len();
    proof {
        lemma_first_of_found(s@, ':', 0);
    }
    match first_of_exec(s, ':', 0) {
        Some(c) => {
            let end = match first_of_exec(s, ':', c + 1) {
                Some(e) => e,
                None => s.len(),
            };
            Some((c, end))
        },
        None => None,
    }
}

/// The source an entry names, compared with `x`: does it end with `x`, or
/// equal it.
fn entry_source_test(v: &YamlNode, x: &str, suffix: bool) -> (r: bool)
    ensures
        r == (entry_source(*v) matches Some(s) && (if suffix {
            ends_with_seq(s, x@)
        } else {
            s == x@
        })),
{
    let src: String = match v {
        YamlNode::Str(s) => {
            let cs = chars_of(s.as_str());
            match compact_exec(&cs) {
                Some((c, _)) => String::from_str(s.as_str().substring_char(0, c)),
                None => {
                    return false;
                },
            }
        },
        YamlNode::Mapping(es) => match key_index_exec(es, "source") {
            Some(k) => match &es[k].1 {
                YamlNode::Str(y) => y.clone(),
                _ => {
                    return false;
                },
            },
            None => {
                return false;
            },
        },
        _ => {
            return false;
        },
    };
    if suffix {
        str_ends_with(src.as_str(), x)
    } else {
        str_eq(src.as_str(), x)
    }
}

/// Whether an entry is the one `m` asks for.
fn entry_matches_exec(v: &YamlNode, m: &VolumeMatch) -> (r: bool)
    ensures
        r == entry_matches(*v, match_of(*m)),
{
    match m {
        VolumeMatch::Target(t) => {
            let tgt: String = match v {
                YamlNode::Str(s) => {
                    let cs = chars_of(s.as_str());
                    match compact_exec(&cs) {
                        Some((c, end)) => String::from_str(s.as_str().substring_char(c + 1, end)),
                        None => {
                            return false;
                        },
                    }
                },
                YamlNode::Mapping(es) => match key_index_exec(es, "target") {
                    Some(k) => match &es[k].1 {
                        YamlNode::Str(y) => y.clone(),
                        _ => {
                            return false;
                        },
                    },
                    None => {
                        return false;
                    },
                },
                _ => {
                    return false;
                },
            };
            str_eq(tgt.as_str(), t.as_str())
        },
        VolumeMatch::SourceSuffix(x) => entry_source_test(v, x.as_str(), true),
    }
}

/// The first matching entry in document order, as (service, entry).
fn find_first_match(doc: &YamlNode, m: &VolumeMatch) -> (r: Option<(usize, usize)>)
    ensures
        match r {
            Some((i, j)) => first_match(*doc, match_of(*m), i as int, j as int),
            None => no_match(*doc, match_of(*m)),
        },
{
    let svcs = match services_exec(doc) {
        Some(v) => v,
        None => {
            assert forall|i: int, j: int| !#[trigger] match_at(*doc, match_of(*m), i, j) by {}
            return None;
        },
    };
    let mut i: usize = 0;
    while i < svcs.len()
        invariant
            services(*doc) == Some(svcs@),
            i <= svcs@.len(),
            forall|i2: int, j2: int| i2 < i ==> !#[trigger] match_at(*doc, match_of(*m), i2, j2),
        decreases svcs.len() - i,
    {
        match volumes_exec(&svcs[i].1) {
            Some(vols) => {
                let mut j: usize = 0;
                while j < vols.len()
                    invariant
                        services(*doc) == Some(svcs@),
                        i < svcs@.len(),
                        svc_vols(*doc, i as int) == Some(vols@),
                        j <= vols@.len(),
                        forall|i2: int, j2: int|
                            (i2 < i || (i2 == i && j2 < j)) ==> !#[trigger] match_at(*doc, match_of(*m), i2, j2),
                    decreases vols.len() - j,
                {
                    if entry_matches_exec(&vols[j], m) {
                        assert(match_at(*doc, match_of(*m), i as int, j as int));
                        return Some((i, j));
                    }
                    j = j + 1;
                }
                assert forall|i2: int, j2: int| i2 < i + 1 implies !#[trigger] match_at(*doc, match_of(*m), i2, j2) by {
                    if i2 == i && j2 >= j {
                        assert(vol_at(*doc, i2, j2) is None);
                    }
                }
            },
            None => {
                assert forall|i2: int, j2: int| i2 < i + 1 implies !#[trigger] match_at(*doc, match_of(*m), i2, j2) by {
                    if i2 == i {
                        assert(svc_vols(*doc, i2) is None);
                    }
                }
            },
        }
        i = i + 1;
    }
    assert forall|i: int, j: int| !#[trigger] match_at(*doc, match_of(*m), i, j) by {
        if i >= svcs@.len() {
            assert(svc_vols(*doc, i) is None);
        }
    }
    None
}

/// The first service that has a volume list.
fn find_first_with_volumes(doc: &YamlNode) -> (r: Option<usize>)
    ensures
        match r {
            Some(i) => first_with_volumes(*doc, i as int),
            None => no_volumes(*doc),
        },
{
    let svcs = match services_exec(doc) {
        Some(v) => v,
        None => {
            assert forall|i: int| #[trigger] svc_vols(*doc, i) is None by {}
            return None;
        },
    };
    let mut i: usize = 0;
    while i < svcs.len()
        invariant
            services(*doc) == Some(svcs@),
            i <= svcs@.len(),
            forall|i2: int| i2 < i ==> #[trigger] svc_vols(*doc, i2) is None,
        decreases svcs.len() - i,
    {
        if volumes_exec(&svcs[i].1).is_some() {
            return Some(i);
        }
        i = i + 1;
    }
    assert forall|i2: int| #[trigger] svc_vols(*doc, i2) is None by {
        if i2 >= svcs@.len() {
        }
    }
    None
}

/// The entry `old` pointing at `src` (see `entry_patched`).
fn patch_entry(old: YamlNode, src: &str) -> (r: YamlNode)
    requires
        entry_source(old) is Some || entry_target(old) is Some,
    ensures
        entry_patched(old, r, src@),
{
    match old {
        YamlNode::Str(s) => {
            let cs = chars_of(s.as_str());
            let c = match first_of_exec(&cs, ':', 0) {
                Some(c) => c,
                None => {
                    return YamlNode::Str(s);
                },
            };
            let mut t = String::from_str(src);
            t.append(s.as_str().substring_char(c, cs.len()));
            YamlNode::Str(t)
        },
        YamlNode::Mapping(mut es) => {
            let ghost a = es@;
            match key_index_exec(&es, "source") {
                Some(k) => {
                    let (key, _) = es.remove(k);
                    es.insert(k, (key, YamlNode::Str(String::from_str(src))));
                    assert(es@ =~= a.update(k as int, es@[k as int]));
                },
                None => {
                    es.push((YamlNode::Str(String::from_str("source")), YamlNode::Str(String::from_str(src))));
                    assert(es@.take(a.len() as int) =~= a);
                },
            }
            YamlNode::Mapping(es)
        },
        other => other,
    }
}

/// How a volume list is to change.
enum VolumeEdit {
    /// Point entry `j` at the new source.
    Rewrite(usize),
    /// Add this compact entry at the end.
    Append(String),
}

/// Applies `edit` to the volume list of service `i`, leaving the rest of the
/// document as it was.
fn edit_volumes(doc: &mut YamlNode, i: usize, edit: VolumeEdit, src: &str)
    requires
        svc_vols(*old(doc), i as int) is Some,
        edit matches VolumeEdit::Rewrite(j) ==> j < svc_vols(*old(doc), i as int).unwrap().len() && (
        entry_source(svc_vols(*old(doc), i as int).unwrap()[j as int]) is Some || entry_target(
            svc_vols(*old(doc), i as int).unwrap()[j as int],
        ) is Some),
    ensures
        match edit {
            VolumeEdit::Rewrite(j) => vols_rewritten(*old(doc), *final(doc), i as int, j as int, src@),
            VolumeEdit::Append(t) => vols_appended(*old(doc), *final(doc), i as int, t@),
        },
{
    let ghost d0 = *doc;
    let mut d = YamlNode::Null;
    std::mem::swap(doc, &mut d);
    if let YamlNode::Mapping(mut top) = d {
        let ghost top0 = top@;
        let si = match key_index_exec(&top, "services") {
            Some(si) => si,
            None => {
                *doc = YamlNode::Mapping(top);
                return;
            },
        };
        let (k1, v1) = top.remove(si);
        if let YamlNode::Mapping(mut svcs) = v1 {
            let ghost svcs0 = svcs@;
            let (k2, v2) = svcs.remove(i);
            if let YamlNode::Mapping(mut f) = v2 {
                let ghost f0 = f@;
                let vi = match key_index_exec(&f, "volumes") {
                    Some(vi) => vi,
                    None => {
                        *doc = YamlNode::Null;
                        return;
                    },
                };
                let (k3, v3) = f.remove(vi);
                if let YamlNode::List(mut vols) = v3 {
                    let ghost vols0 = vols@;
                    match edit {
                        VolumeEdit::Rewrite(j) => {
                            let e = vols.remove(j);
                            let e2 = patch_entry(e, src);
                            vols.insert(j, e2);
                            assert(vols@ =~= vols0.update(j as int, vols@[j as int]));
                        },
                        VolumeEdit::Append(t) => {
                            vols.push(YamlNode::Str(t));
                            assert(vols@.take(vols0.len() as int) =~= vols0);
                        },
                    }
                    let ghost vols1 = vols@;
                    f.insert(vi, (k3, YamlNode::List(vols)));
                    assert(f@ =~= f0.update(vi as int, f@[vi as int]));
                    proof {
                        lemma_key_index_same_keys(f0, f@, "volumes"@, 0);
                    }
                    let ghost f1 = f@;
                    svcs.insert(i, (k2, YamlNode::Mapping(f)));
                    assert(svcs@ =~= svcs0.update(i as int, svcs@[i as int]));
                    top.insert(si, (k1, YamlNode::Mapping(svcs)));
                    assert(top@ =~= top0.update(si as int, top@[si as int]));
                    proof {
                        lemma_key_index_same_keys(top0, top@, "services"@, 0);
                    }
                    *doc = YamlNode::Mapping(top);
                    assert(svc_vols(*doc, i as int) == Some(vols1));
                } else {
                    *doc = YamlNode::Null;
                }
            } else {
                *doc = YamlNode::Null;
            }
        } else {
            *doc = YamlNode::Null;
        }
    } else {
        *doc = d;
    }
}

/// Points the first volume entry that `m` picks at `new_source`: only that
/// entry's source changes, and only the first match in document order is
/// touched. Where nothing matches and `m` names a target, the entry
/// `new_source:target:rw` is added to the first service with a volume list.
/// Returns whether the document changed; where it did not, writing it back
/// can be skipped.
pub fn patch_volume_source(doc: &mut YamlNode, m: &VolumeMatch, new_source: &str) -> (changed: bool)
    ensures
        patch_outcome(*old(doc), *final(doc), match_of(*m), new_source@, changed),
{
    let ghost d0 = *doc;
    match find_first_match(doc, m) {
        Some((i, j)) => {
            let same = {
                let svcs = match services_exec(doc) {
                    Some(v) => v,
                    None => {
                        return false;
                    },
                };
                let vols = match volumes_exec(&svcs[i].1) {
                    Some(v) => v,
                    None => {
                        return false;
                    },
                };
                entry_source_test(&vols[j], new_source, false)
            };
            if same {
                assert(first_match(d0, match_of(*m), i as int, j as int));
                return false;
            }
            edit_volumes(doc, i, VolumeEdit::Rewrite(j), new_source);
            assert(first_match(d0, match_of(*m), i as int, j as int));
            true
        },
        None => {
            assert(!exists|i: int, j: int| first_match(d0, match_of(*m), i, j));
            match m {
                VolumeMatch::Target(t) => match find_first_with_volumes(doc) {
                    Some(f) => {
                        let mut text = String::from_str(new_source);
                        text.append(":");
                        text.append(t.as_str());
                        text.append(":rw");
                        edit_volumes(doc, f, VolumeEdit::Append(text), new_source);
                        assert(first_with_volumes(d0, f as int));
                        true
                    },
                    None => {
                        assert(!exists|f: int| first_with_volumes(d0, f));
                        false
                    },
                },
                VolumeMatch::SourceSuffix(_) => false,
            }
        },
    }
}

proof fn lemma_first_match_unique(d: YamlNode, m: (bool, Seq<char>), i: int, j: int, i2: int, j2: int)
    requires
        first_match(d, m, i, j),
        first_match(d, m, i2, j2),
    ensures
        i == i2 && j == j2,
{
    if i < i2 || (i == i2 && j < j2) {
        assert(!match_at(d, m, i, j));
    } else if i2 < i || (i == i2 && j2 < j) {
        assert(!match_at(d, m, i2, j2));
    }
}

/// Searching `x + y` past `x` is searching `y`.
proof fn lemma_first_of_concat(x: Seq<char>, y: Seq<char>, c: char, k: int)
    requires
        k >= 0,
    ensures
        first_of(x + y, c, x.len() + k) == match first_of(y, c, k) {
            Some(e) => Some(e + x.len()),
            None => None::<int>,
        },
    decreases y.len() - k,
{
    if k < y.len() {
        assert((x + y)[x.len() + k] == y[k]);
        if y[k] != c {
            lemma_first_of_concat(x, y, c, k + 1);
        }
    }
}

/// Where `x` has no `c` from `i` on, searching `x + y` from `i` is searching
/// from the end of `x`.
proof fn lemma_first_of_skip(x: Seq<char>, y: Seq<char>, c: char, i: int)
    requires
        0 <= i <= x.len(),
        forall|t: int| i <= t < x.len() ==> x[t] != c,
    ensures
        first_of(x + y, c, i) == first_of(x + y, c, x.len() as int),
    decreases x.len() - i,
{
    if i < x.len() {
        assert((x + y)[i] == x[i]);
        lemma_first_of_skip(x, y, c, i + 1);
    }
}

pub open spec fn has_no_colon(s: Seq<char>) -> bool {
    forall|k: int| 0 <= k < s.len() ==> s[k] != ':'
}

/// A compact entry whose source is replaced by a colon-free `src` keeps its
/// target and names `src`.
proof fn lemma_compact_rewrite(s: Seq<char>, src: Seq<char>, c: int)
    requires
        first_of(s, ':', 0) == Some(c),
        has_no_colon(src),
    ensures
        compact_parts(src + s.subrange(c, s.len() as int)) matches Some(p) && p.0 == src && Some(p.1)
            == match compact_parts(s) {
            Some(q) => Some(q.1),
            None => None::<Seq<char>>,
        },
{
    lemma_first_of_found(s, ':', 0);
    let x = s.subrange(0, c);
    let y = s.subrange(c, s.len() as int);
    let n = src + y;
    assert(s =~= x + y);
    lemma_first_of_skip(src, y, ':', 0);
    lemma_first_of_concat(src, y, ':', 0);
    assert(y[0] == ':');
    assert(first_of(n, ':', 0) == Some(src.len() as int));
    lemma_first_of_concat(src, y, ':', 1);
    lemma_first_of_concat(x, y, ':', 1);
    let end_old = match first_of(s, ':', c + 1) {
        Some(e) => e,
        None => s.len() as int,
    };
    let end_new = match first_of(n, ':', src.len() as int + 1) {
        Some(e) => e,
        None => n.len() as int,
    };
    assert(end_new == end_old - c + src.len());
    lemma_first_of_found(s, ':', c + 1);
    assert(n.subrange(0, src.len() as int) =~= src);
    assert(n.subrange(src.len() as int + 1, end_new) =~= s.subrange(c + 1, end_old));
}

/// The entry a patch appends names `src` and the target.
proof fn lemma_appended_parts(src: Seq<char>, t: Seq<char>)
    requires
        has_no_colon(src),
        has_no_colon(t),
    ensures
        compact_parts(appended_entry(src, t)) == Some((src, t)),
{
    reveal_strlit(":");
    reveal_strlit(":rw");
    let x = src + ":"@ + t;
    let text = appended_entry(src, t);
    assert(text =~= x + ":rw"@);
    assert(text =~= src + (":"@ + t + ":rw"@));
    lemma_first_of_skip(src, ":"@ + t + ":rw"@, ':', 0);
    lemma_first_of_concat(src, ":"@ + t + ":rw"@, ':', 0);
    assert((":"@ + t + ":rw"@)[0] == ':');
    assert(first_of(text, ':', 0) == Some(src.len() as int));
    assert forall|k: int| src.len() + 1 <= k < x.len() implies x[k] != ':' by {
        assert(x[k] == t[k - src.len() - 1]);
    }
    lemma_first_of_skip(x, ":rw"@, ':', src.len() as int + 1);
    lemma_first_of_concat(x, ":rw"@, ':', 0);
    assert(first_of(text, ':', src.len() as int + 1) == Some(x.len() as int));
    assert(text.subrange(0, src.len() as int) =~= src);
    assert(text.subrange(src.len() as int + 1, x.len() as int) =~= t);
}

proof fn lemma_key_index_push(a: Seq<(YamlNode, YamlNode)>, e: (YamlNode, YamlNode), key: Seq<char>, t: int)
    requires
        0 <= t <= a.len(),
    ensures
        key_index_from(a.push(e), key, t) == match key_index_from(a, key, t) {
            Some(k) => Some(k),
            None => if is_key(e.0, key) {
                Some(a.len() as int)
            } else {
                None::<int>
            },
        },
    decreases a.len() - t,
{
    if t < a.len() {
        assert(a.push(e)[t] == a[t]);
        lemma_key_index_push(a, e, key, t + 1);
    } else {
        assert(a.push(e)[t] == e);
        assert(key_index_from(a.push(e), key, t + 1) is None);
    }
}

proof fn lemma_source_target_differ()
    ensures
        "source"@ != "target"@,
{
    reveal_strlit("source");
    reveal_strlit("target");
    assert("source"@[0] != "target"@[0]);
}

/// A patched mapping entry keeps its target and names `src`.
proof fn lemma_mapping_rewrite(old: YamlNode, new: YamlNode, src: Seq<char>)
    requires
        old is Mapping,
        entry_patched(old, new, src),
    ensures
        entry_source(new) == Some(src),
        entry_target(new) == entry_target(old),
{
    lemma_source_target_differ();
    match (old, new) {
        (YamlNode::Mapping(av), YamlNode::Mapping(bv)) => {
            let a = av@;
            let b = bv@;
            lemma_key_index_found(a, "source"@, 0);
            lemma_key_index_found(a, "target"@, 0);
            match key_index(a, "source"@) {
                Some(k) => {
                    assert forall|u: int| 0 <= u < a.len() implies (#[trigger] a[u]).0 == b[u].0 by {
                        if u != k {
                            assert(b[u] == a[u]);
                        }
                    }
                    lemma_key_index_same_keys(a, b, "source"@, 0);
                    lemma_key_index_same_keys(a, b, "target"@, 0);
                    match key_index(a, "target"@) {
                        Some(kt) => {
                            assert(kt != k);
                            assert(b[kt] == a[kt]);
                        },
                        None => {},
                    }
                },
                None => {
                    assert(b =~= a.push(b.last()));
                    lemma_key_index_push(a, b.last(), "source"@, 0);
                    lemma_key_index_push(a, b.last(), "target"@, 0);
                    match key_index(a, "target"@) {
                        Some(kt) => {
                            assert(b[kt] == a[kt]);
                        },
                        None => {},
                    }
                },
            }
        },
        _ => {},
    }
}

/// Outside service `i`, a volume-list edit leaves every service's list as it was.
proof fn lemma_only_volumes(d0: YamlNode, d1: YamlNode, i: int)
    requires
        only_volumes_of(d0, d1, i),
    ensures
        forall|i2: int| i2 != i ==> #[trigger] svc_vols(d1, i2) == svc_vols(d0, i2),
{
    match (d0, d1) {
        (YamlNode::Mapping(t0), YamlNode::Mapping(t1)) => {
            let si = key_index(t0@, "services"@).unwrap();
            assert forall|u: int| 0 <= u < t0@.len() implies (#[trigger] t0@[u]).0 == t1@[u].0 by {
                if u != si {
                    assert(t1@[u] == t0@[u]);
                }
            }
            lemma_key_index_same_keys(t0@, t1@, "services"@, 0);
            assert forall|i2: int| i2 != i implies #[trigger] svc_vols(d1, i2) == svc_vols(d0, i2) by {
                match (t0@[si].1, t1@[si].1) {
                    (YamlNode::Mapping(s0), YamlNode::Mapping(s1)) => {
                        if 0 <= i2 < s0@.len() {
                            assert(s1@[i2] == s0@[i2]);
                        }
                    },
                    _ => {},
                }
            }
        },
        _ => {},
    }
}

/// Rewriting a matching entry keeps it matching and makes it name `src`.
proof fn lemma_entry_rewrite(old: YamlNode, new: YamlNode, m: (bool, Seq<char>), src: Seq<char>)
    requires
        entry_matches(old, m),
        entry_patched(old, new, src),
        has_no_colon(src),
        !m.0 ==> ends_with_seq(src, m.1),
    ensures
        entry_matches(new, m),
        entry_source(new) == Some(src),
{
    match (old, new) {
        (YamlNode::Str(a), YamlNode::Str(b)) => {
            let c = first_of(a@, ':', 0).unwrap();
            lemma_compact_rewrite(a@, src, c);
        },
        (YamlNode::Mapping(_), _) => {
            lemma_mapping_rewrite(old, new, src);
        },
        _ => {},
    }
}

/// Patching is idempotent: applying the same patch to its own result changes
/// nothing more. This holds where the new source has no colon, a target to
/// match has none either, and a new source asked for by suffix ends with that
/// suffix (else the patched entry would no longer be the one matched).
pub proof fn lemma_patch_idempotent(
    d0: YamlNode,
    d1: YamlNode,
    d2: YamlNode,
    m: (bool, Seq<char>),
    src: Seq<char>,
    c1: bool,
    c2: bool,
)
    requires
        patch_outcome(d0, d1, m, src, c1),
        patch_outcome(d1, d2, m, src, c2),
        has_no_colon(src),
        m.0 ==> has_no_colon(m.1),
        !m.0 ==> ends_with_seq(src, m.1),
    ensures
        d2 == d1,
        !c2,
{
    if exists|i: int, j: int| first_match(d0, m, i, j) {
        let (i, j) = choose|i: int, j: int|
            #![trigger first_match(d0, m, i, j)]
            first_match(d0, m, i, j) && if entry_source(vol_at(d0, i, j).unwrap()) == Some(src) {
                !c1 && d1 == d0
            } else {
                c1 && vols_rewritten(d0, d1, i, j, src)
            };
        if entry_source(vol_at(d0, i, j).unwrap()) == Some(src) {
            lemma_settled(d1, d2, m, src, c2, i, j);
        } else {
            lemma_only_volumes(d0, d1, i);
            let a = svc_vols(d0, i).unwrap();
            let b = svc_vols(d1, i).unwrap();
            lemma_entry_rewrite(a[j], b[j], m, src);
            assert(match_at(d1, m, i, j));
            assert forall|i2: int, j2: int| (i2 < i || (i2 == i && j2 < j)) implies !#[trigger] match_at(
                d1,
                m,
                i2,
                j2,
            ) by {
                if i2 != i {
                    assert(svc_vols(d1, i2) == svc_vols(d0, i2));
                    assert(!match_at(d0, m, i2, j2));
                } else if 0 <= j2 {
                    assert(b[j2] == a[j2]);
                    assert(!match_at(d0, m, i2, j2));
                }
            }
            assert(first_match(d1, m, i, j));
            lemma_settled(d1, d2, m, src, c2, i, j);
        }
    } else if m.0 && exists|f: int| first_with_volumes(d0, f) {
        let f = choose|f: int|
            #![trigger first_with_volumes(d0, f)]
            first_with_volumes(d0, f) && c1 && vols_appended(d0, d1, f, appended_entry(src, m.1));
        lemma_only_volumes(d0, d1, f);
        let a = svc_vols(d0, f).unwrap();
        let b = svc_vols(d1, f).unwrap();
        let j = a.len() as int;
        lemma_appended_parts(src, m.1);
        assert(b[j] == b.last());
        assert(entry_source(b[j]) == Some(src));
        assert(match_at(d1, m, f, j));
        assert forall|i2: int, j2: int| (i2 < f || (i2 == f && j2 < j)) implies !#[trigger] match_at(
            d1,
            m,
            i2,
            j2,
        ) by {
            if i2 != f {
                assert(svc_vols(d1, i2) == svc_vols(d0, i2));
            } else if 0 <= j2 {
                assert(b[j2] == b.take(j)[j2]);
                assert(!match_at(d0, m, i2, j2));
            }
        }
        assert(first_match(d1, m, f, j));
        lemma_settled(d1, d2, m, src, c2, f, j);
    } else {
        assert(d1 == d0);
    }
}

/// Where the first match already names `src`, a patch changes nothing.
proof fn lemma_settled(d1: YamlNode, d2: YamlNode, m: (bool, Seq<char>), src: Seq<char>, c2: bool, i: int, j: int)
    requires
        first_match(d1, m, i, j),
        entry_source(vol_at(d1, i, j).unwrap()) == Some(src),
        patch_outcome(d1, d2, m, src, c2),
    ensures
        d2 == d1,
        !c2,
{
    let (i2, j2) = choose|i2: int, j2: int|
        #![trigger first_match(d1, m, i2, j2)]
        first_match(d1, m, i2, j2) && if entry_source(vol_at(d1, i2, j2).unwrap()) == Some(src) {
            !c2 && d2 == d1
        } else {
            c2 && vols_rewritten(d1, d2, i2, j2, src)
        };
    lemma_first_match_unique(d1, m, i, j, i2, j2);
}

} // verus!
