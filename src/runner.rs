//! Ordering a host's or a cluster's test phases, and resolving the channel
//! and host of each command.
use crate::config::{Cluster, Host};
use crate::exec::{Exec, ExecResult};
use crate::session::{kind_of, kind_positions, seed_type_of, SessionSeed};
use vstd::prelude::*;

verus! {

/// One command to run: where it stands in the phases, on which host, and
/// through which seed. `seed` is `None` where no seed of the command's
/// channel kind exists: such a command is skipped.
pub struct Planned {
    /// 0 for pre, 1 for main, 2 for post.
    pub phase: usize,
    /// Position within its phase.
    pub index: usize,
    /// Position of the target host among the provisioned ones, where it was found.
    pub host: Option<usize>,
    /// Position of the seed among the target host's seeds.
    pub seed: Option<usize>,
}

/// The first seed of kind `k`, if any.
pub open spec fn first_of_kind(seeds: Seq<SessionSeed>, k: crate::session::SeedType) -> Option<
    int,
> {
    let ps = kind_positions(seeds, k, seeds.len() as int);
    if ps.len() == 0 {
        None
    } else {
        Some(ps[0])
    }
}

proof fn lemma_first_of_kind(seeds: Seq<SessionSeed>, k: crate::session::SeedType, n: int)
    requires
        0 <= n <= seeds.len(),
    ensures
        kind_positions(seeds, k, n).len() == 0 <==> forall|j: int|
            0 <= j < n ==> kind_of(#[trigger] seeds[j]) != k,
        kind_positions(seeds, k, n).len() > 0 ==> {
            let i = kind_positions(seeds, k, n)[0];
            0 <= i < n && kind_of(seeds[i]) == k && forall|j: int|
                0 <= j < i ==> kind_of(#[trigger] seeds[j]) != k
        },
    decreases n,
{
    if n > 0 {
        lemma_first_of_kind(seeds, k, n - 1);
    }
}

/// The first seed whose kind serves the command's channel kind.
pub fn resolve_seed(seeds: &Vec<SessionSeed>, exec: &Exec) -> (r: Option<usize>)
    ensures
        r matches Some(i) ==> first_of_kind(seeds@, seed_type_of(exec.exec_type)) == Some(
            i as int,
        ),
        r is None ==> first_of_kind(seeds@, seed_type_of(exec.exec_type)) is None,
{
    let k = crate::session::SeedType::from_exec_type(&exec.exec_type).unwrap();
    proof {
        lemma_first_of_kind(seeds@, k, seeds@.len() as int);
    }
    let mut i: usize = 0;
    while i < seeds.len()
        invariant
            0 <= i <= seeds@.len(),
            k == seed_type_of(exec.exec_type),
            forall|j: int| 0 <= j < i ==> kind_of(#[trigger] seeds@[j]) != k,
            kind_positions(seeds@, k, seeds@.len() as int).len() == 0 <==> forall|j: int|
                0 <= j < seeds@.len() ==> kind_of(#[trigger] seeds@[j]) != k,
            kind_positions(seeds@, k, seeds@.len() as int).len() > 0 ==> {
                let f = kind_positions(seeds@, k, seeds@.len() as int)[0];
                0 <= f < seeds@.len() && kind_of(seeds@[f]) == k && forall|j: int|
                    0 <= j < f ==> kind_of(#[trigger] seeds@[j]) != k
            },
        decreases seeds@.len() - i,
    {
        if seeds[i].seed_type() == k {
            return Some(i);
        }
        i += 1;
    }
    None
}

/// The target host of a cluster command among the provisioned host names.
pub fn resolve_host(names: &Vec<String>, exec: &Exec) -> (r: Option<usize>)
    ensures
        exec.host is None ==> r is None,
        exec.host matches Some(h) ==> (r matches Some(i) ==> i < names@.len() && names@[i as int]@
            == h@ && forall|j: int| 0 <= j < i ==> names@[j]@ != h@),
        exec.host matches Some(h) ==> (r is None ==> forall|j: int|
            0 <= j < names@.len() ==> names@[j]@ != h@),
{
    match &exec.host {
        None => None,
        Some(h) => {
            let mut i: usize = 0;
            while i < names.len()
                invariant
                    0 <= i <= names@.len(),
                    exec.host == Some(*h),
                    forall|j: int| 0 <= j < i ==> names@[j]@ != h@,
                decreases names@.len() - i,
            {
                if names[i] == *h {
                    return Some(i);
                }
                i += 1;
            }
            None
        },
    }
}

/// Where position `k` of the concatenated phases falls: phase and index.
pub open spec fn phase_slot(pre: int, main: int, k: int) -> (int, int) {
    if k < pre {
        (0, k)
    } else if k < pre + main {
        (1, k - pre)
    } else {
        (2, k - pre - main)
    }
}

fn plan_phase(
    out: &mut Vec<Planned>,
    phase: usize,
    execs: &Vec<Exec>,
    seeds: &Vec<SessionSeed>,
)
    ensures
        final(out)@.len() == old(out)@.len() + execs@.len(),
        forall|k: int| 0 <= k < old(out)@.len() ==> #[trigger] final(out)@[k] == old(out)@[k],
        forall|i: int|
            0 <= i < execs@.len() ==> {
                let p = #[trigger] final(out)@[old(out)@.len() + i];
                &&& p.phase == phase
                &&& p.index == i
                &&& p.host is None
                &&& p.seed matches Some(s) ==> first_of_kind(
                    seeds@,
                    seed_type_of(execs@[i].exec_type),
                ) == Some(s as int)
                &&& p.seed is None ==> first_of_kind(
                    seeds@,
                    seed_type_of(execs@[i].exec_type),
                ) is None
            },
{
    let ghost start = old(out)@.len();
    let mut i: usize = 0;
    while i < execs.len()
        invariant
            0 <= i <= execs@.len(),
            start == old(out)@.len(),
            out@.len() == start + i,
            forall|k: int| 0 <= k < start ==> #[trigger] out@[k] == old(out)@[k],
            forall|j: int|
                0 <= j < i ==> {
                    let p = #[trigger] out@[start + j];
                    &&& p.phase == phase
                    &&& p.index == j
                    &&& p.host is None
                    &&& p.seed matches Some(s) ==> first_of_kind(
                        seeds@,
                        seed_type_of(execs@[j].exec_type),
                    ) == Some(s as int)
                    &&& p.seed is None ==> first_of_kind(
                        seeds@,
                        seed_type_of(execs@[j].exec_type),
                    ) is None
                },
        decreases execs@.len() - i,
    {
        let seed = resolve_seed(seeds, &execs[i]);
        out.push(Planned { phase, index: i, host: None, seed });
        i += 1;
    }
}

/// The commands of a host's own phases, pre, main and post, each in
/// declared order, with the seed each runs through.
pub fn plan_host_tests(config: &Host, seeds: &Vec<SessionSeed>) -> (r: Vec<Planned>)
    ensures
        r@.len() == config.solo_pre_tests@.len() + config.solo_tests@.len()
            + config.solo_post_tests@.len(),
        forall|k: int|
            0 <= k < r@.len() ==> {
                let (ph, ix) = phase_slot(
                    config.solo_pre_tests@.len() as int,
                    config.solo_tests@.len() as int,
                    k,
                );
                let e = if ph == 0 {
                    config.solo_pre_tests@[ix]
                } else if ph == 1 {
                    config.solo_tests@[ix]
                } else {
                    config.solo_post_tests@[ix]
                };
                &&& (#[trigger] r@[k]).phase == ph
                &&& r@[k].index == ix
                &&& r@[k].host is None
                &&& r@[k].seed matches Some(s) ==> first_of_kind(
                    seeds@,
                    seed_type_of(e.exec_type),
                ) == Some(s as int)
                &&& r@[k].seed is None ==> first_of_kind(seeds@, seed_type_of(e.exec_type)) is None
            },
{
    let mut out: Vec<Planned> = Vec::new();
    plan_phase(&mut out, 0, &config.solo_pre_tests, seeds);
    let ghost a = out@;
    plan_phase(&mut out, 1, &config.solo_tests, seeds);
    let ghost b = out@;
    plan_phase(&mut out, 2, &config.solo_post_tests, seeds);
    let ghost n0 = config.solo_pre_tests@.len() as int;
    let ghost n1 = config.solo_tests@.len() as int;
    assert forall|k: int| 0 <= k < out@.len() implies {
        let (ph, ix) = phase_slot(n0, n1, k);
        let e = if ph == 0 {
            config.solo_pre_tests@[ix]
        } else if ph == 1 {
            config.solo_tests@[ix]
        } else {
            config.solo_post_tests@[ix]
        };
        &&& (#[trigger] out@[k]).phase == ph
        &&& out@[k].index == ix
        &&& out@[k].host is None
        &&& out@[k].seed matches Some(s) ==> first_of_kind(seeds@, seed_type_of(e.exec_type))
            == Some(s as int)
        &&& out@[k].seed is None ==> first_of_kind(seeds@, seed_type_of(e.exec_type)) is None
    } by {
        if k < n0 {
            assert(out@[k] == b[k]);
            assert(b[k] == a[k]);
            assert(a[k] == a[0 + k]);
        } else if k < n0 + n1 {
            assert(out@[k] == b[k]);
            assert(b[k] == b[n0 + (k - n0)]);
        } else {
            assert(out@[k] == out@[(n0 + n1) + (k - n0 - n1)]);
        }
    }
    out
}

/// The host a cluster command targets, and the seed it runs through there.
pub open spec fn cluster_target(
    names: Seq<String>,
    seeds: Seq<Vec<SessionSeed>>,
    e: Exec,
    host: Option<usize>,
    seed: Option<usize>,
) -> bool {
    &&& e.host is None ==> host is None
    &&& e.host matches Some(h) ==> (host matches Some(i) ==> i < names.len() && names[i as int]@
        == h@ && forall|j: int| 0 <= j < i ==> names[j]@ != h@)
    &&& e.host matches Some(h) ==> (host is None ==> forall|j: int|
        0 <= j < names.len() ==> names[j]@ != h@)
    &&& host is None ==> seed is None
    &&& host matches Some(i) ==> (seed matches Some(s) ==> first_of_kind(
        seeds[i as int]@,
        seed_type_of(e.exec_type),
    ) == Some(s as int))
    &&& host matches Some(i) ==> (seed is None ==> first_of_kind(
        seeds[i as int]@,
        seed_type_of(e.exec_type),
    ) is None)
}

fn plan_cluster_phase(
    out: &mut Vec<Planned>,
    phase: usize,
    execs: &Vec<Exec>,
    names: &Vec<String>,
    seeds: &Vec<Vec<SessionSeed>>,
)
    requires
        names@.len() == seeds@.len(),
    ensures
        final(out)@.len() == old(out)@.len() + execs@.len(),
        forall|k: int| 0 <= k < old(out)@.len() ==> #[trigger] final(out)@[k] == old(out)@[k],
        forall|i: int|
            0 <= i < execs@.len() ==> {
                let p = #[trigger] final(out)@[old(out)@.len() + i];
                &&& p.phase == phase
                &&& p.index == i
                &&& cluster_target(names@, seeds@, execs@[i], p.host, p.seed)
            },
{
    let ghost start = old(out)@.len();
    let mut i: usize = 0;
    while i < execs.len()
        invariant
            0 <= i <= execs@.len(),
            names@.len() == seeds@.len(),
            start == old(out)@.len(),
            out@.len() == start + i,
            forall|k: int| 0 <= k < start ==> #[trigger] out@[k] == old(out)@[k],
            forall|j: int|
                0 <= j < i ==> {
                    let p = #[trigger] out@[start + j];
                    &&& p.phase == phase
                    &&& p.index == j
                    &&& cluster_target(names@, seeds@, execs@[j], p.host, p.seed)
                },
        decreases execs@.len() - i,
    {
        let host = resolve_host(names, &execs[i]);
        let seed = match host {
            Some(h) => resolve_seed(&seeds[h], &execs[i]),
            None => None,
        };
        out.push(Planned { phase, index: i, host, seed });
        i += 1;
    }
}

/// The commands of a cluster's phases, pre, main and post, each in declared
/// order, with the provisioned host each targets (by name, among `names`)
/// and the seed of that host (among `seeds[host]`) it runs through.
pub fn plan_cluster_tests(
    cluster: &Cluster,
    names: &Vec<String>,
    seeds: &Vec<Vec<SessionSeed>>,
) -> (r: Vec<Planned>)
    requires
        names@.len() == seeds@.len(),
    ensures
        r@.len() == cluster.pre_tests@.len() + cluster.tests@.len() + cluster.post_tests@.len(),
        forall|k: int|
            0 <= k < r@.len() ==> {
                let (ph, ix) = phase_slot(
                    cluster.pre_tests@.len() as int,
                    cluster.tests@.len() as int,
                    k,
                );
                let e = if ph == 0 {
                    cluster.pre_tests@[ix]
                } else if ph == 1 {
                    cluster.tests@[ix]
                } else {
                    cluster.post_tests@[ix]
                };
                &&& (#[trigger] r@[k]).phase == ph
                &&& r@[k].index == ix
                &&& cluster_target(names@, seeds@, e, r@[k].host, r@[k].seed)
            },
{
    let mut out: Vec<Planned> = Vec::new();
    plan_cluster_phase(&mut out, 0, &cluster.pre_tests, names, seeds);
    let ghost a = out@;
    plan_cluster_phase(&mut out, 1, &cluster.tests, names, seeds);
    let ghost b = out@;
    plan_cluster_phase(&mut out, 2, &cluster.post_tests, names, seeds);
    let ghost n0 = cluster.pre_tests@.len() as int;
    let ghost n1 = cluster.tests@.len() as int;
    assert forall|k: int| 0 <= k < out@.len() implies {
        let (ph, ix) = phase_slot(n0, n1, k);
        let e = if ph == 0 {
            cluster.pre_tests@[ix]
        } else if ph == 1 {
            cluster.tests@[ix]
        } else {
            cluster.post_tests@[ix]
        };
        &&& (#[trigger] out@[k]).phase == ph
        &&& out@[k].index == ix
        &&& cluster_target(names@, seeds@, e, out@[k].host, out@[k].seed)
    } by {
        if k < n0 {
            assert(out@[k] == b[k]);
            assert(b[k] == a[k]);
            assert(a[k] == a[0 + k]);
        } else if k < n0 + n1 {
            assert(out@[k] == b[k]);
            assert(b[k] == b[n0 + (k - n0)]);
        } else {
            assert(out@[k] == out@[(n0 + n1) + (k - n0 - n1)]);
        }
    }
    out
}

/// Whether every recorded command passed.
pub fn all_passed(results: &Vec<ExecResult>) -> (r: bool)
    ensures
        r == forall|i: int| 0 <= i < results@.len() ==> (#[trigger] results@[i]).passed,
{
    let mut i: usize = 0;
    while i < results.len()
        invariant
            0 <= i <= results@.len(),
            forall|j: int| 0 <= j < i ==> (#[trigger] results@[j]).passed,
        decreases results@.len() - i,
    {
        if !results[i].passed {
            return false;
        }
        i += 1;
    }
    true
}

} // verus!
