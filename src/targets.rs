//! Which services a single-host rollout recreates: the running containers of
//! the project, each mapped to its service, each service once.
use vstd::prelude::*;
use crate::docker_client::{any_contains, is_running};
use crate::deployment_manager::DeploymentManager;
use crate::naming::service_of;
use crate::text::{contains_seq, str_contains, str_eq};
use crate::types::{find_label, label_value, Container};

verus! {

/// The label under which compose records a container's project.
pub open spec fn compose_project_key() -> Seq<char> {
    "com.docker.compose.project"@
}

/// A running container that belongs to `project`: by its compose project
/// label, by one of its names, or by its image reference.
pub open spec fn is_target(c: Container, project: Seq<char>) -> bool {
    is_running(c) && ((c.labels matches Some(l) && label_value(l@, compose_project_key()) == Some(
        project,
    )) || (exists|i: int| 0 <= i < c.names@.len() && contains_seq(#[trigger] c.names@[i]@, project))
        || contains_seq(c.image@, project))
}

/// The services of the project's containers, in listing order, repeats kept.
pub open spec fn target_services(cs: Seq<Container>, project: Seq<char>) -> Seq<Seq<char>>
    decreases cs.len(),
{
    if cs.len() == 0 {
        Seq::empty()
    } else {
        let rest = target_services(cs.drop_last(), project);
        if is_target(cs.last(), project) {
            rest.push(service_of(cs.last()))
        } else {
            rest
        }
    }
}

/// `s` with every repeat of an earlier element left out.
pub open spec fn dedup(s: Seq<Seq<char>>) -> Seq<Seq<char>>
    decreases s.len(),
{
    if s.len() == 0 {
        s
    } else {
        let d = dedup(s.drop_last());
        if d.contains(s.last()) {
            d
        } else {
            d.push(s.last())
        }
    }
}

/// The services a rollout recreates, in the order it recreates them.
pub open spec fn rollout_services(cs: Seq<Container>, project: Seq<char>) -> Seq<Seq<char>> {
    dedup(target_services(cs, project))
}

/// No service is named twice after de-duplication, and every service of the
/// input is still named.
pub proof fn lemma_dedup_distinct(s: Seq<Seq<char>>)
    ensures
        forall|a: int, b: int| 0 <= a < b < dedup(s).len() ==> dedup(s)[a] != dedup(s)[b],
        forall|x: Seq<char>| s.contains(x) <==> dedup(s).contains(x),
    decreases s.len(),
{
    if s.len() > 0 {
        let t = s.drop_last();
        lemma_dedup_distinct(t);
        let d = dedup(t);
        let l = s.last();
        assert forall|x: Seq<char>| s.contains(x) <==> (t.contains(x) || x == l) by {
            if s.contains(x) {
                let k = choose|k: int| 0 <= k < s.len() && s[k] == x;
                if k < s.len() - 1 {
                    assert(t[k] == x);
                }
            }
            if t.contains(x) {
                let k = choose|k: int| 0 <= k < t.len() && t[k] == x;
                assert(s[k] == x);
            }
            if x == l {
                assert(s[s.len() - 1] == x);
            }
        }
        if !d.contains(l) {
            assert forall|x: Seq<char>| d.push(l).contains(x) <==> (d.contains(x) || x == l) by {
                if d.push(l).contains(x) {
                    let k = choose|k: int| 0 <= k < d.len() + 1 && d.push(l)[k] == x;
                    if k < d.len() {
                        assert(d[k] == x);
                    }
                }
                if d.contains(x) {
                    let k = choose|k: int| 0 <= k < d.len() && d[k] == x;
                    assert(d.push(l)[k] == x);
                }
                if x == l {
                    assert(d.push(l)[d.len() as int] == x);
                }
            }
            assert forall|a: int, b: int| 0 <= a < b < d.push(l).len() implies d.push(l)[a] != d.push(l)[b] by {
                if b == d.len() {
                    assert(d.push(l)[a] == d[a]);
                    if d[a] == l {
                        assert(d.contains(l));
                    }
                } else {
                    assert(d.push(l)[a] == d[a]);
                    assert(d.push(l)[b] == d[b]);
                }
            }
        }
    }
}

fn is_target_exec(c: &Container, project: &str) -> (r: bool)
    ensures
        r == is_target(*c, project@),
{
    if !str_eq(c.state.as_str(), "running") {
        return false;
    }
    let by_label = match &c.labels {
        Some(l) => match find_label(l, "com.docker.compose.project") {
            Some(v) => str_eq(v.as_str(), project),
            None => false,
        },
        None => false,
    };
    by_label || any_contains(&c.names, project) || str_contains(c.image.as_str(), project)
}

/// Whether `name` is among `names`.
fn holds_name(names: &Vec<String>, name: &String) -> (r: bool)
    ensures
        r == names@.map_values(|s: String| s@).contains(name@),
{
    let ghost v = names@.map_values(|s: String| s@);
    let mut i: usize = 0;
    while i < names.len()
        invariant
            i <= names@.len(),
            v == names@.map_values(|s: String| s@),
            forall|k: int| 0 <= k < i ==> v[k] != name@,
        decreases names.len() - i,
    {
        if str_eq(names[i].as_str(), name.as_str()) {
            assert(v[i as int] == name@);
            return true;
        }
        i = i + 1;
    }
    false
}

/// The services to recreate for `project`: the service of each running
/// container of the project, in listing order, each once.
pub fn rollout_targets(containers: &Vec<Container>, project: &str) -> (r: Vec<String>)
    ensures
        r@.map_values(|s: String| s@) == rollout_services(containers@, project@),
{
    let ghost cs = containers@;
    let mut out: Vec<String> = Vec::new();
    let mut k: usize = 0;
    assert(cs.take(0) =~= Seq::<Container>::empty());
    assert(out@.map_values(|s: String| s@) =~= dedup(target_services(cs.take(0), project@)));
    while k < containers.len()
        invariant
            k <= cs.len(),
            cs == containers@,
            out@.map_values(|s: String| s@) == dedup(target_services(cs.take(k as int), project@)),
        decreases containers.len() - k,
    {
        let c = &containers[k];
        assert(cs.take(k + 1).drop_last() =~= cs.take(k as int));
        assert(cs.take(k + 1).last() == cs[k as int]);
        if is_target_exec(c, project) {
            let name = DeploymentManager::extract_service_name(c);
            let ghost before = target_services(cs.take(k as int), project@);
            assert(target_services(cs.take(k + 1), project@) == before.push(name@));
            assert(before.push(name@).drop_last() =~= before);
            if !holds_name(&out, &name) {
                let ghost old_out = out@;
                out.push(name);
                assert(out@.map_values(|s: String| s@) =~= old_out.map_values(|s: String| s@).push(
                    out@.last()@,
                ));
            }
        }
        k = k + 1;
    }
    assert(cs.take(k as int) =~= cs);
    out
}

} // verus!
