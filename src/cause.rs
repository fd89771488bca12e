//! Deciding whether a cluster's tests must run again, and why.
use crate::config::Cluster;
use crate::exec::ExecResult;
use crate::history::{history_update, History, RunLog};
use crate::watch::{PerceptionView, WatchPoint, WatchPointPerception, WatchPointView};
use vstd::prelude::*;

verus! {

/// Why a cluster's tests are run.
pub enum Cause {
    /// No completed run of this cluster configuration was ever recorded.
    FirstRun,
    /// A watchpoint was perceived in a state other than the last one recorded.
    WatchPoint { ident: WatchPointPerception },
}

pub enum CauseView {
    FirstRun,
    WatchPoint(PerceptionView),
}

impl View for Cause {
    type V = CauseView;

    open spec fn view(&self) -> CauseView {
        match self {
            Cause::FirstRun => CauseView::FirstRun,
            Cause::WatchPoint { ident } => CauseView::WatchPoint(ident@),
        }
    }
}

pub open spec fn causes_view(s: Seq<Cause>) -> Seq<CauseView> {
    s.map_values(|c: Cause| c@)
}

pub open spec fn perceptions_view(s: Seq<WatchPointPerception>) -> Seq<PerceptionView> {
    s.map_values(|p: WatchPointPerception| p@)
}

pub open spec fn watchpoints_view(s: Seq<WatchPoint>) -> Seq<WatchPointView> {
    s.map_values(|w: WatchPoint| w@)
}

/// The outcome of a completed run of a cluster.
pub struct ClusterTestResult {
    pub cluster: u64,
    pub causes: Vec<Cause>,
    pub results: Vec<ExecResult>,
}

/// The outcome of a completed run of one host's own tests.
pub struct HostTestResult {
    pub host: u64,
    pub causes: Vec<Cause>,
    pub results: Vec<ExecResult>,
}

/// Pushes each current perception, in declaration order, into the history;
/// gives the history after that and the perceptions that changed it.
pub open spec fn scan(
    h: Map<WatchPointView, Seq<PerceptionView>>,
    ws: Seq<WatchPointView>,
    ps: Seq<PerceptionView>,
) -> (Map<WatchPointView, Seq<PerceptionView>>, Seq<PerceptionView>)
    decreases ws.len(),
{
    if ws.len() == 0 || ps.len() == 0 {
        (h, seq![])
    } else {
        let (h1, changed) = scan(h, ws.drop_last(), ps.drop_last());
        let (h2, c) = history_update(h1, ws.last(), ps.last());
        (h2, if c {
            changed.push(ps.last())
        } else {
            changed
        })
    }
}

/// The causes that `causes_for` gives.
pub open spec fn causes_spec(
    has_run: bool,
    h: Map<WatchPointView, Seq<PerceptionView>>,
    ws: Seq<WatchPointView>,
    ps: Seq<PerceptionView>,
) -> Seq<CauseView> {
    if !has_run {
        seq![CauseView::FirstRun]
    } else {
        scan(h, ws, ps).1.map_values(|p: PerceptionView| CauseView::WatchPoint(p))
    }
}

/// Decides why the cluster recorded under `cluster` must run again, given
/// `current[i]`, the perception just taken of `watchpoints[i]`. Every
/// perception that differs from the last one recorded for its watchpoint is
/// recorded. Where no run of the cluster was ever recorded, the answer is
/// `[FirstRun]`; otherwise one cause per changed perception, in declaration
/// order, and an empty answer means the run is skipped.
pub fn causes_for(
    history: &mut History,
    runs: &RunLog<ClusterTestResult>,
    cluster: u64,
    watchpoints: &Vec<WatchPoint>,
    current: &Vec<WatchPointPerception>,
) -> (r: Vec<Cause>)
    requires
        old(history).wf(),
        runs.wf(),
        watchpoints@.len() == current@.len(),
    ensures
        final(history).wf(),
        final(history)@ == scan(
            old(history)@,
            watchpoints_view(watchpoints@),
            perceptions_view(current@),
        ).0,
        causes_view(r@) == causes_spec(
            runs@.contains_key(cluster),
            old(history)@,
            watchpoints_view(watchpoints@),
            perceptions_view(current@),
        ),
{
    let has_run = runs.contains(cluster);
    let ghost h0 = history@;
    let ghost ws = watchpoints_view(watchpoints@);
    let ghost ps = perceptions_view(current@);
    let mut causes: Vec<Cause> = Vec::new();
    let mut i: usize = 0;
    while i < watchpoints.len()
        invariant
            history.wf(),
            0 <= i <= watchpoints@.len(),
            watchpoints@.len() == current@.len(),
            ws == watchpoints_view(watchpoints@),
            ps == perceptions_view(current@),
            history@ == scan(h0, ws.take(i as int), ps.take(i as int)).0,
            causes_view(causes@) == scan(h0, ws.take(i as int), ps.take(i as int)).1.map_values(
                |p: PerceptionView| CauseView::WatchPoint(p),
            ),
        decreases watchpoints@.len() - i,
    {
        let ghost wsi = ws.take(i + 1);
        let ghost psi = ps.take(i + 1);
        assert(wsi.drop_last() =~= ws.take(i as int));
        assert(psi.drop_last() =~= ps.take(i as int));
        assert(wsi.last() == watchpoints@[i as int]@);
        assert(psi.last() == current@[i as int]@);
        let changed = history.update(&watchpoints[i], current[i].duplicate());
        if changed {
            let ghost prev = causes@;
            causes.push(Cause::WatchPoint { ident: current[i].duplicate() });
            assert(causes_view(causes@) =~= causes_view(prev).push(
                CauseView::WatchPoint(current@[i as int]@),
            ));
        }
        i += 1;
        assert(causes_view(causes@) =~= scan(h0, wsi, psi).1.map_values(
            |p: PerceptionView| CauseView::WatchPoint(p),
        ));
    }
    assert(ws.take(watchpoints@.len() as int) =~= ws);
    assert(ps.take(watchpoints@.len() as int) =~= ps);
    if !has_run {
        let r = vec![Cause::FirstRun];
        assert(causes_view(r@) =~= seq![CauseView::FirstRun]);
        r
    } else {
        causes
    }
}


/// The orchestrator's records: perceptions of watchpoints, and the runs of
/// clusters and hosts.
pub struct Manager {
    pub history: History,
    pub cluster_runs: RunLog<ClusterTestResult>,
    pub host_runs: RunLog<HostTestResult>,
}

impl Manager {
    pub open spec fn wf(&self) -> bool {
        self.history.wf() && self.cluster_runs.wf() && self.host_runs.wf()
    }

    /// A manager with nothing recorded.
    pub fn new() -> (r: Manager)
        ensures
            r.wf(),
            r.history@ == Map::<WatchPointView, Seq<PerceptionView>>::empty(),
            r.cluster_runs@ == Map::<u64, Seq<ClusterTestResult>>::empty(),
            r.host_runs@ == Map::<u64, Seq<HostTestResult>>::empty(),
    {
        Manager { history: History::new(), cluster_runs: RunLog::new(), host_runs: RunLog::new() }
    }

    /// Why `cluster`, recorded under `key`, must run again, given the
    /// perceptions just taken of its watchpoints (see `causes_for`).
    pub fn cause_of_next_cluster_run(
        &mut self,
        cluster: &Cluster,
        key: u64,
        current: &Vec<WatchPointPerception>,
    ) -> (r: Vec<Cause>)
        requires
            old(self).wf(),
            cluster.watchpoints@.len() == current@.len(),
        ensures
            final(self).wf(),
            final(self).cluster_runs == old(self).cluster_runs,
            final(self).host_runs == old(self).host_runs,
            final(self).history@ == scan(
                old(self).history@,
                watchpoints_view(cluster.watchpoints@),
                perceptions_view(current@),
            ).0,
            causes_view(r@) == causes_spec(
                old(self).cluster_runs@.contains_key(key),
                old(self).history@,
                watchpoints_view(cluster.watchpoints@),
                perceptions_view(current@),
            ),
    {
        causes_for(&mut self.history, &self.cluster_runs, key, &cluster.watchpoints, current)
    }

    /// Records a completed run of the cluster under `key`.
    pub fn record_cluster_run(&mut self, key: u64, result: ClusterTestResult)
        requires
            old(self).wf(),
        ensures
            final(self).wf(),
            final(self).history == old(self).history,
            final(self).host_runs == old(self).host_runs,
            final(self).cluster_runs@ == old(self).cluster_runs@.insert(
                key,
                if old(self).cluster_runs@.contains_key(key) {
                    old(self).cluster_runs@[key].push(result)
                } else {
                    seq![result]
                },
            ),
    {
        self.cluster_runs.append(key, result);
    }

    /// Records a completed run of a host's own tests under `key`.
    pub fn record_host_run(&mut self, key: u64, result: HostTestResult)
        requires
            old(self).wf(),
        ensures
            final(self).wf(),
            final(self).history == old(self).history,
            final(self).cluster_runs == old(self).cluster_runs,
            final(self).host_runs@ == old(self).host_runs@.insert(
                key,
                if old(self).host_runs@.contains_key(key) {
                    old(self).host_runs@[key].push(result)
                } else {
                    seq![result]
                },
            ),
    {
        self.host_runs.append(key, result);
    }
}

proof fn lemma_scan_keeps_keys(
    h: Map<WatchPointView, Seq<PerceptionView>>,
    ws: Seq<WatchPointView>,
    ps: Seq<PerceptionView>,
)
    requires
        ws.len() == ps.len(),
    ensures
        forall|k: WatchPointView| h.contains_key(k) ==> #[trigger] scan(h, ws, ps).0.contains_key(k),
        forall|i: int| 0 <= i < ws.len() ==> scan(h, ws, ps).0.contains_key(#[trigger] ws[i]),
    decreases ws.len(),
{
    if ws.len() > 0 {
        lemma_scan_keeps_keys(h, ws.drop_last(), ps.drop_last());
        assert forall|k: WatchPointView| h.contains_key(k) implies #[trigger] scan(
            h,
            ws,
            ps,
        ).0.contains_key(k) by {
            assert(scan(h, ws.drop_last(), ps.drop_last()).0.contains_key(k));
        }
        assert forall|i: int| 0 <= i < ws.len() implies scan(h, ws, ps).0.contains_key(
            #[trigger] ws[i],
        ) by {
            if i < ws.len() - 1 {
                assert(ws.drop_last()[i] == ws[i]);
            }
        }
    }
}

/// After a scan, the last record of each scanned watchpoint is its current perception.
proof fn lemma_scan_pins(
    h: Map<WatchPointView, Seq<PerceptionView>>,
    ws: Seq<WatchPointView>,
    ps: Seq<PerceptionView>,
)
    requires
        ws.len() == ps.len(),
        ws.no_duplicates(),
    ensures
        forall|i: int|
            0 <= i < ws.len() ==> scan(h, ws, ps).0.contains_key(#[trigger] ws[i]) && scan(
                h,
                ws,
                ps,
            ).0[ws[i]].last() == ps[i],
    decreases ws.len(),
{
    if ws.len() > 0 {
        lemma_scan_pins(h, ws.drop_last(), ps.drop_last());
        assert forall|i: int| 0 <= i < ws.len() implies scan(h, ws, ps).0.contains_key(
            #[trigger] ws[i],
        ) && scan(h, ws, ps).0[ws[i]].last() == ps[i] by {
            if i < ws.len() - 1 {
                assert(ws.drop_last()[i] == ws[i]);
                assert(ps.drop_last()[i] == ps[i]);
                assert(ws[i] != ws.last());
            }
        }
    }
}

/// A scan that finds every watchpoint already at its current perception
/// changes nothing.
proof fn lemma_scan_stable(
    h: Map<WatchPointView, Seq<PerceptionView>>,
    ws: Seq<WatchPointView>,
    ps: Seq<PerceptionView>,
)
    requires
        ws.len() == ps.len(),
        forall|i: int|
            0 <= i < ws.len() ==> h.contains_key(#[trigger] ws[i]) && h[ws[i]].last() == ps[i],
    ensures
        scan(h, ws, ps) == (h, Seq::<PerceptionView>::empty()),
    decreases ws.len(),
{
    if ws.len() > 0 {
        let ws1 = ws.drop_last();
        let ps1 = ps.drop_last();
        assert forall|i: int| 0 <= i < ws1.len() implies h.contains_key(#[trigger] ws1[i])
            && h[ws1[i]].last() == ps1[i] by {
            assert(ws1[i] == ws[i]);
        }
        lemma_scan_stable(h, ws1, ps1);
        assert(h.contains_key(ws[ws.len() - 1]));
    }
}

/// A scan in which exactly one watchpoint, `wk` at position `k`, is found
/// away from its current perception `pk`.
proof fn lemma_scan_one(
    g: Map<WatchPointView, Seq<PerceptionView>>,
    ws: Seq<WatchPointView>,
    ps: Seq<PerceptionView>,
    k: int,
    wk: WatchPointView,
    pk: PerceptionView,
)
    requires
        ws.len() == ps.len(),
        0 <= k,
        g.contains_key(wk),
        g[wk].last() != pk,
        k < ws.len() ==> ws[k] == wk && ps[k] == pk,
        forall|i: int|
            0 <= i < ws.len() && i != k ==> #[trigger] ws[i] != wk && g.contains_key(ws[i])
                && g[ws[i]].last() == ps[i],
    ensures
        k < ws.len() ==> scan(g, ws, ps) == (g.insert(wk, g[wk].push(pk)), seq![pk]),
        k >= ws.len() ==> scan(g, ws, ps) == (g, Seq::<PerceptionView>::empty()),
    decreases ws.len(),
{
    if ws.len() > 0 {
        let ws1 = ws.drop_last();
        let ps1 = ps.drop_last();
        assert forall|i: int| 0 <= i < ws1.len() && i != k implies #[trigger] ws1[i] != wk
            && g.contains_key(ws1[i]) && g[ws1[i]].last() == ps1[i] by {
            assert(ws1[i] == ws[i]);
            assert(ps1[i] == ps[i]);
        }
        if k < ws1.len() {
            assert(ws1[k] == ws[k]);
            assert(ps1[k] == ps[k]);
        }
        lemma_scan_one(g, ws1, ps1, k, wk, pk);
        let n = ws.len() - 1;
        if k < n {
            let g2 = g.insert(wk, g[wk].push(pk));
            assert(ws[n] != wk);
            assert(g2[ws[n]] == g[ws[n]]);
        } else if k == n {
        } else {
            assert(g.contains_key(ws[n]));
        }
    }
}

/// On a cluster with no recorded run, the answer is exactly `[FirstRun]`,
/// and afterwards every watchpoint of the cluster has a recorded perception.
pub proof fn lemma_first_run_pins(
    h: Map<WatchPointView, Seq<PerceptionView>>,
    ws: Seq<WatchPointView>,
    ps: Seq<PerceptionView>,
)
    requires
        ws.len() == ps.len(),
    ensures
        causes_spec(false, h, ws, ps) == seq![CauseView::FirstRun],
        forall|i: int| 0 <= i < ws.len() ==> scan(h, ws, ps).0.contains_key(#[trigger] ws[i]),
{
    lemma_scan_keeps_keys(h, ws, ps);
}

/// A second evaluation with no external change, after a recorded run, gives
/// no cause: the run is skipped.
pub proof fn lemma_unchanged_skips(
    h: Map<WatchPointView, Seq<PerceptionView>>,
    ws: Seq<WatchPointView>,
    ps: Seq<PerceptionView>,
)
    requires
        ws.len() == ps.len(),
        ws.no_duplicates(),
    ensures
        causes_spec(true, scan(h, ws, ps).0, ws, ps) == Seq::<CauseView>::empty(),
{
    lemma_scan_pins(h, ws, ps);
    lemma_scan_stable(scan(h, ws, ps).0, ws, ps);
    assert(causes_spec(true, scan(h, ws, ps).0, ws, ps) =~= Seq::<CauseView>::empty());
}

/// After one watchpoint's state changes, with the others unchanged, the
/// next evaluation gives exactly one cause: that watchpoint's new perception.
pub proof fn lemma_one_change_one_cause(
    h: Map<WatchPointView, Seq<PerceptionView>>,
    ws: Seq<WatchPointView>,
    before: Seq<PerceptionView>,
    after: Seq<PerceptionView>,
    k: int,
)
    requires
        ws.len() == before.len(),
        ws.len() == after.len(),
        ws.no_duplicates(),
        0 <= k < ws.len(),
        after[k] != before[k],
        forall|i: int| 0 <= i < ws.len() && i != k ==> after[i] == before[i],
    ensures
        causes_spec(true, scan(h, ws, before).0, ws, after) == seq![
            CauseView::WatchPoint(after[k]),
        ],
{
    let g = scan(h, ws, before).0;
    lemma_scan_pins(h, ws, before);
    assert forall|i: int| 0 <= i < ws.len() && i != k implies #[trigger] ws[i] != ws[k]
        && g.contains_key(ws[i]) && g[ws[i]].last() == after[i] by {}
    lemma_scan_one(g, ws, after, k, ws[k], after[k]);
    assert(causes_spec(true, g, ws, after) =~= seq![CauseView::WatchPoint(after[k])]);
}

} // verus!
