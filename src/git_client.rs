//! The versioned configuration store: one directory per tag under a base
//! path, a `current` pointer that names the live one, and retention.
use vstd::prelude::*;
use crate::text::chars_of;

verus! {

/// The store itself holds no state: everything lives on disk under a base path.
pub struct GitClient;

/// `{base}/config-{tag}`: where the checkout of `tag` lives.
pub open spec fn version_dir(base: Seq<char>, tag: Seq<char>) -> Seq<char> {
    base + "/config-"@ + tag
}

/// `{base}/current`: the live pointer.
pub open spec fn pointer_path(base: Seq<char>) -> Seq<char> {
    base + "/current"@
}

/// `{base}/.current.tmp`: the name under which a new pointer is made before it
/// is renamed over the live one.
pub open spec fn pointer_temp_path(base: Seq<char>) -> Seq<char> {
    base + "/.current.tmp"@
}

/// Two tags under one base never share a directory.
pub proof fn lemma_version_dir_injective(base: Seq<char>, t1: Seq<char>, t2: Seq<char>)
    requires
        t1 != t2,
    ensures
        version_dir(base, t1) != version_dir(base, t2),
{
    let p = base + "/config-"@;
    if version_dir(base, t1) == version_dir(base, t2) {
        assert((p + t1).len() == (p + t2).len());
        assert(t1 =~= (p + t1).subrange(p.len() as int, (p + t1).len() as int));
        assert(t2 =~= (p + t2).subrange(p.len() as int, (p + t2).len() as int));
    }
}

impl GitClient {
    /// The directory that holds the checkout of `tag` under `base_path`.
    pub fn versioned_path(base_path: &str, tag: &str) -> (r: String)
        ensures
            r@ == version_dir(base_path@, tag@),
    {
        let mut r = String::from_str(base_path);
        r.append("/config-");
        r.append(tag);
        r
    }

    /// The path of the live pointer under `base_path`.
    pub fn current_path(base_path: &str) -> (r: String)
        ensures
            r@ == pointer_path(base_path@),
    {
        let mut r = String::from_str(base_path);
        r.append("/current");
        r
    }

    /// The temporary name of a pointer that is about to replace the live one.
    pub fn current_temp_path(base_path: &str) -> (r: String)
        ensures
            r@ == pointer_temp_path(base_path@),
    {
        let mut r = String::from_str(base_path);
        r.append("/.current.tmp");
        r
    }
}

/// A directory found under the base path, with its creation time.
pub struct VersionDir {
    pub name: String,
    pub path: String,
    pub created: u64,
}

/// The naming convention of version directories: `config-{tag}`.
pub open spec fn is_version_name(name: Seq<char>) -> bool {
    name.len() >= 7 && name.subrange(0, 7) == "config-"@
}

/// Entry `j` comes before entry `i` in the order newest first (ties keep the
/// listing order); only version directories take part.
pub open spec fn ranks_before(s: Seq<VersionDir>, j: int, i: int) -> bool {
    is_version_name(s[j].name@) && (s[j].created > s[i].created || (s[j].created == s[i].created
        && j < i))
}

/// How many of the first `n` entries come before entry `i`.
pub open spec fn rank_upto(s: Seq<VersionDir>, i: int, n: int) -> nat
    decreases n,
{
    if n <= 0 {
        0
    } else {
        rank_upto(s, i, n - 1) + if ranks_before(s, n - 1, i) {
            1nat
        } else {
            0nat
        }
    }
}

/// Entry `i`'s place in the order newest first, from 0.
pub open spec fn rank(s: Seq<VersionDir>, i: int) -> nat {
    rank_upto(s, i, s.len() as int)
}

/// Retention removes entry `i`: a version directory with `keep` or more
/// newer ones.
pub open spec fn is_removed(s: Seq<VersionDir>, i: int, keep: int) -> bool {
    is_version_name(s[i].name@) && rank(s, i) >= keep
}

/// The paths retention removes, among the first `n` entries, in listing order.
pub open spec fn removals_upto(s: Seq<VersionDir>, keep: int, n: int) -> Seq<Seq<char>>
    decreases n,
{
    if n <= 0 {
        Seq::empty()
    } else {
        removals_upto(s, keep, n - 1) + if is_removed(s, n - 1, keep) {
            seq![s[n - 1].path@]
        } else {
            Seq::empty()
        }
    }
}

pub open spec fn removals(s: Seq<VersionDir>, keep: int) -> Seq<Seq<char>> {
    removals_upto(s, keep, s.len() as int)
}

proof fn lemma_rank_upto_bound(s: Seq<VersionDir>, i: int, n: int)
    requires
        0 <= i < s.len(),
        0 <= n <= s.len(),
    ensures
        rank_upto(s, i, n) <= if i < n {
            n - 1
        } else {
            n
        },
    decreases n,
{
    if n > 0 {
        lemma_rank_upto_bound(s, i, n - 1);
    }
}

/// With no more directories than are kept, retention removes nothing.
pub proof fn lemma_few_versions_kept(s: Seq<VersionDir>, keep: int)
    requires
        s.len() <= keep,
    ensures
        removals(s, keep) == Seq::<Seq<char>>::empty(),
{
    lemma_removals_none(s, keep, s.len() as int);
}

proof fn lemma_removals_none(s: Seq<VersionDir>, keep: int, n: int)
    requires
        s.len() <= keep,
        0 <= n <= s.len(),
    ensures
        removals_upto(s, keep, n) == Seq::<Seq<char>>::empty(),
    decreases n,
{
    if n > 0 {
        lemma_removals_none(s, keep, n - 1);
        lemma_rank_upto_bound(s, n - 1, s.len() as int);
        assert(removals_upto(s, keep, n) =~= Seq::<Seq<char>>::empty());
    }
}

proof fn lemma_rank_monotone(s: Seq<VersionDir>, i: int, r: int, n: int)
    requires
        0 <= i < s.len(),
        0 <= r < s.len(),
        0 <= n <= s.len(),
        is_version_name(s[r].name@),
        s[r].created > s[i].created,
    ensures
        rank_upto(s, i, n) >= rank_upto(s, r, n) + if r < n {
            1nat
        } else {
            0nat
        },
    decreases n,
{
    if n > 0 {
        lemma_rank_monotone(s, i, r, n - 1);
    }
}

/// Every version directory that retention keeps is at least as new as every
/// one it removes.
pub proof fn lemma_kept_are_newest(s: Seq<VersionDir>, keep: int, i: int, r: int)
    requires
        0 <= i < s.len(),
        0 <= r < s.len(),
        is_version_name(s[i].name@),
        !is_removed(s, i, keep),
        is_removed(s, r, keep),
    ensures
        s[i].created >= s[r].created,
{
    if s[r].created > s[i].created {
        lemma_rank_monotone(s, i, r, s.len() as int);
    }
}

/// The paths of `s`, in order.
pub open spec fn paths(s: Seq<VersionDir>) -> Seq<Seq<char>> {
    s.map_values(|d: VersionDir| d.path@)
}

/// Version directories listed oldest first, with distinct creation times.
pub open spec fn oldest_first(s: Seq<VersionDir>) -> bool {
    &&& forall|i: int| 0 <= i < s.len() ==> is_version_name((#[trigger] s[i]).name@)
    &&& forall|i: int, j: int| 0 <= i < j < s.len() ==> (#[trigger] s[i]).created < (#[trigger] s[j]).created
}

proof fn lemma_rank_oldest_first(s: Seq<VersionDir>, i: int, k: int)
    requires
        oldest_first(s),
        0 <= i < s.len(),
        0 <= k <= s.len(),
    ensures
        rank_upto(s, i, k) == if k > i + 1 {
            k - i - 1
        } else {
            0
        },
    decreases k,
{
    if k > 0 {
        lemma_rank_oldest_first(s, i, k - 1);
        let j = k - 1;
        if j > i {
            assert(s[i].created < s[j].created);
        } else if j < i {
            assert(s[j].created < s[i].created);
        }
    }
}

proof fn lemma_removals_oldest_first(s: Seq<VersionDir>, keep: int, k: int)
    requires
        oldest_first(s),
        keep >= 0,
        0 <= k <= s.len(),
    ensures
        removals_upto(s, keep, k) == paths(s.take(if k < s.len() - keep {
            k
        } else if s.len() - keep > 0 {
            s.len() - keep
        } else {
            0
        })),
    decreases k,
{
    if k > 0 {
        lemma_removals_oldest_first(s, keep, k - 1);
        lemma_rank_oldest_first(s, k - 1, s.len() as int);
        let prev = if k - 1 < s.len() - keep {
            k - 1
        } else if s.len() - keep > 0 {
            s.len() - keep
        } else {
            0
        };
        if k - 1 < s.len() - keep {
            assert(s.take(k) =~= s.take(k - 1).push(s[k - 1]));
            assert(paths(s.take(k)) =~= paths(s.take(k - 1)).push(s[k - 1].path@));
            assert(removals_upto(s, keep, k) =~= paths(s.take(k - 1)) + seq![s[k - 1].path@]);
        } else {
            assert(removals_upto(s, keep, k) =~= removals_upto(s, keep, k - 1));
        }
    } else {
        assert(paths(s.take(0)) =~= Seq::<Seq<char>>::empty());
    }
}

/// Of version directories listed oldest first, retention removes exactly the
/// oldest ones beyond the `keep` newest: the first `n - keep`, or none.
pub proof fn lemma_retention_oldest_first(s: Seq<VersionDir>, keep: int)
    requires
        oldest_first(s),
        keep >= 0,
    ensures
        removals(s, keep) == paths(s.take(if s.len() > keep {
            s.len() - keep
        } else {
            0
        })),
{
    lemma_removals_oldest_first(s, keep, s.len() as int);
}

fn is_version_name_exec(name: &str) -> (r: bool)
    ensures
        r == is_version_name(name@),
{
    let cs = chars_of(name);
    let p = chars_of("config-");
    proof {
        reveal_strlit("config-");
    }
    assert(p@.len() == 7);
    if cs.len() < 7 {
        return false;
    }
    let mut i: usize = 0;
    while i < 7
        invariant
            cs@.len() >= 7,
            cs@ == name@,
            p@ == "config-"@,
            p@.len() == 7,
            i <= 7,
            forall|k: int| 0 <= k < i ==> cs@[k] == p@[k],
        decreases 7 - i,
    {
        if cs[i] != p[i] {
            assert(cs@.subrange(0, 7)[i as int] != "config-"@[i as int]);
            assert(cs@.subrange(0, 7) != "config-"@);
            return false;
        }
        i = i + 1;
    }
    assert(cs@.subrange(0, 7) =~= "config-"@);
    true
}

impl GitClient {
    /// The paths that retention removes from a listing of the base path: every
    /// version directory beyond the `keep` newest by creation time, in listing
    /// order. Other entries are never removed.
    pub fn select_removals(entries: &Vec<VersionDir>, keep: usize) -> (r: Vec<String>)
        ensures
            r@.map_values(|p: String| p@) == removals(entries@, keep as int),
    {
        let ghost s = entries@;
        let n = entries.len();
        let mut flags: Vec<bool> = Vec::new();
        let mut i: usize = 0;
        while i < n
            invariant
                n == s.len(),
                s == entries@,
                i <= n,
                flags@.len() == i,
                forall|k: int| 0 <= k < i ==> #[trigger] flags@[k] == is_version_name(s[k].name@),
            decreases n - i,
        {
            flags.push(is_version_name_exec(entries[i].name.as_str()));
            i = i + 1;
        }
        let mut out: Vec<String> = Vec::new();
        let mut i: usize = 0;
        while i < n
            invariant
                n == s.len(),
                s == entries@,
                flags@.len() == n,
                forall|k: int| 0 <= k < n ==> #[trigger] flags@[k] == is_version_name(s[k].name@),
                i <= n,
                out@.map_values(|p: String| p@) == removals_upto(s, keep as int, i as int),
            decreases n - i,
        {
            let mut count: usize = 0;
            let mut j: usize = 0;
            while j < n
                invariant
                    n == s.len(),
                    s == entries@,
                    flags@.len() == n,
                    forall|k: int| 0 <= k < n ==> #[trigger] flags@[k] == is_version_name(s[k].name@),
                    i < n,
                    j <= n,
                    count == rank_upto(s, i as int, j as int),
                    count <= j,
                decreases n - j,
            {
                let before = flags[j] && (entries[j].created > entries[i].created || (
                entries[j].created == entries[i].created && j < i));
                if before {
                    count = count + 1;
                }
                j = j + 1;
            }
            let ghost old_out = out@;
            if flags[i] && count >= keep {
                out.push(entries[i].path.clone());
            }
            assert(out@.map_values(|p: String| p@) =~= removals_upto(s, keep as int, i + 1));
            i = i + 1;
        }
        out
    }
}

} // verus!
