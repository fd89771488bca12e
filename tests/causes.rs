use flota::cause::{causes_for, Cause, ClusterTestResult};
use flota::checksum::checksum;
use flota::history::{History, RunLog};
use flota::watch::{
    perceive_file, perceive_git, Observation, WatchPoint, WatchPointPerception,
    WatchPointPerceptionValue,
};

fn file_wp(path: &str) -> WatchPoint {
    WatchPoint::File { path: path.to_string() }
}

fn git_wp(refs: &[&str]) -> WatchPoint {
    WatchPoint::Git {
        uri: "https://example.com/repo.git".to_string(),
        remote: "origin".to_string(),
        refs: refs.iter().map(|r| r.to_string()).collect(),
        checkout_dir: "/tmp/checkout".to_string(),
    }
}

fn file_perception(content: &[u8]) -> WatchPointPerception {
    WatchPointPerception::new(perceive_file(&content.to_vec()))
}

fn git_perception(wp: &WatchPoint, heads: &[(&str, u8)]) -> WatchPointPerception {
    let advertised: Vec<(String, Vec<u8>)> =
        heads.iter().map(|(n, c)| (n.to_string(), vec![*c; 20])).collect();
    WatchPointPerception::perceive(wp, &Observation::Refs(advertised)).unwrap()
}

fn checksum_of(p: &WatchPointPerception) -> Vec<u8> {
    match &p.value {
        WatchPointPerceptionValue::File { checksum } => checksum.clone(),
        _ => panic!("not a file perception"),
    }
}

fn record_run(runs: &mut RunLog<ClusterTestResult>, cluster: u64, causes: Vec<Cause>) {
    runs.append(cluster, ClusterTestResult { cluster, causes, results: vec![] });
}

#[test]
fn update_twice_is_idempotent() {
    let mut h = History::new();
    let wp = file_wp("/etc/app.conf");
    assert!(h.find(&wp).is_none());
    assert!(h.update(&wp, file_perception(b"v1")));
    assert!(!h.update(&wp, file_perception(b"v1")));
    assert_eq!(h.find(&wp).unwrap().len(), 1);
    assert!(h.update(&wp, file_perception(b"v2")));
    assert!(!h.update(&wp, file_perception(b"v2")));
    assert_eq!(h.find(&wp).unwrap().len(), 2);
    assert!(h.update(&wp, file_perception(b"v1")));
    assert_eq!(h.find(&wp).unwrap().len(), 3);
    assert!(h.last(&wp).unwrap().same_as(&file_perception(b"v1")));
    assert!(h.last(&file_wp("/other")).is_none());
}

#[test]
fn first_run_pins_every_watchpoint() {
    let mut h = History::new();
    let runs: RunLog<ClusterTestResult> = RunLog::new();
    let a = file_wp("/a");
    let b = git_wp(&["refs/heads/master"]);
    let pa = file_perception(b"a");
    let pb = git_perception(&b, &[("refs/heads/master", 1), ("refs/heads/dev", 2)]);
    let causes = causes_for(&mut h, &runs, 7, &vec![a, b], &vec![pa, pb]);
    assert_eq!(causes.len(), 1);
    assert!(matches!(causes[0], Cause::FirstRun));
    assert!(h.find(&file_wp("/a")).is_some());
    assert!(h.find(&git_wp(&["refs/heads/master"])).is_some());
}

#[test]
fn unchanged_second_call_skips() {
    let mut h = History::new();
    let mut runs: RunLog<ClusterTestResult> = RunLog::new();
    let wps = vec![file_wp("/a"), file_wp("/b")];
    let first = causes_for(&mut h, &runs, 1, &wps, &vec![file_perception(b"a"), file_perception(b"b")]);
    record_run(&mut runs, 1, first);
    let second =
        causes_for(&mut h, &runs, 1, &wps, &vec![file_perception(b"a"), file_perception(b"b")]);
    assert!(second.is_empty());
}

#[test]
fn one_ref_advance_gives_one_cause() {
    let mut h = History::new();
    let mut runs: RunLog<ClusterTestResult> = RunLog::new();
    let git = git_wp(&["refs/heads/master"]);
    let wps = vec![file_wp("/a"), git_wp(&["refs/heads/master"])];
    let before = vec![file_perception(b"a"), git_perception(&git, &[("refs/heads/master", 1)])];
    let first = causes_for(&mut h, &runs, 9, &wps, &before);
    record_run(&mut runs, 9, first);
    let after = vec![file_perception(b"a"), git_perception(&git, &[("refs/heads/master", 2)])];
    let causes = causes_for(&mut h, &runs, 9, &wps, &after);
    assert_eq!(causes.len(), 1);
    match &causes[0] {
        Cause::WatchPoint { ident } => assert!(ident.same_as(&after[1])),
        Cause::FirstRun => panic!("expected a watchpoint cause"),
    }
}

#[test]
fn unrelated_ref_does_not_trigger() {
    let mut h = History::new();
    let mut runs: RunLog<ClusterTestResult> = RunLog::new();
    let git = git_wp(&["refs/heads/master"]);
    let wps = vec![git_wp(&["refs/heads/master"])];
    let first = causes_for(
        &mut h,
        &runs,
        3,
        &wps,
        &vec![git_perception(&git, &[("refs/heads/master", 1), ("refs/heads/dev", 1)])],
    );
    record_run(&mut runs, 3, first);
    let causes = causes_for(
        &mut h,
        &runs,
        3,
        &wps,
        &vec![git_perception(&git, &[("refs/heads/master", 1), ("refs/heads/dev", 5)])],
    );
    assert!(causes.is_empty());
}

#[test]
fn file_watch_scenario() {
    let mut h = History::new();
    let mut runs: RunLog<ClusterTestResult> = RunLog::new();
    let wps = vec![file_wp("/srv/config")];
    let first = causes_for(&mut h, &runs, 42, &wps, &vec![file_perception(b"original")]);
    assert_eq!(first.len(), 1);
    assert!(matches!(first[0], Cause::FirstRun));
    record_run(&mut runs, 42, first);
    assert_eq!(runs.find(42).unwrap().len(), 1);
    let second = causes_for(&mut h, &runs, 42, &wps, &vec![file_perception(b"original")]);
    assert!(second.is_empty());
    let third = causes_for(&mut h, &runs, 42, &wps, &vec![file_perception(b"modified")]);
    assert_eq!(third.len(), 1);
    match &third[0] {
        Cause::WatchPoint { ident } => {
            assert_eq!(checksum_of(ident), checksum(&b"modified".to_vec()));
            assert_ne!(checksum_of(ident), checksum(&b"original".to_vec()));
        }
        Cause::FirstRun => panic!("expected a watchpoint cause"),
    }
    assert_eq!(h.find(&file_wp("/srv/config")).unwrap().len(), 2);
}

#[test]
fn run_log_appends() {
    let mut runs: RunLog<u32> = RunLog::new();
    assert!(!runs.contains(5));
    runs.append(5, 10);
    runs.append(6, 11);
    runs.append(5, 12);
    assert!(runs.contains(5));
    assert_eq!(runs.find(5).unwrap(), &vec![10, 12]);
    assert_eq!(runs.find(6).unwrap(), &vec![11]);
    assert!(runs.find(7).is_none());
}

#[test]
fn perceive_git_keeps_configured_refs() {
    let heads: Vec<(String, Vec<u8>)> = vec![
        ("refs/heads/master".to_string(), vec![1; 20]),
        ("refs/heads/dev".to_string(), vec![2; 20]),
        ("refs/tags/v1".to_string(), vec![3; 20]),
    ];
    let kept = perceive_git(&heads, &vec!["refs/tags/v1".to_string(), "refs/heads/master".to_string()]);
    match kept {
        WatchPointPerceptionValue::Git { ref_commit_ids } => {
            assert_eq!(ref_commit_ids.len(), 2);
            assert_eq!(ref_commit_ids[0].0, "refs/heads/master");
            assert_eq!(ref_commit_ids[1].0, "refs/tags/v1");
            assert_eq!(ref_commit_ids[1].1, vec![3; 20]);
        }
        _ => panic!("expected a git perception"),
    }
    match perceive_git(&heads, &vec!["*".to_string()]) {
        WatchPointPerceptionValue::Git { ref_commit_ids } => assert_eq!(ref_commit_ids.len(), 3),
        _ => panic!("expected a git perception"),
    }
    match perceive_git(&heads, &vec!["*".to_string(), "refs/heads/dev".to_string()]) {
        WatchPointPerceptionValue::Git { ref_commit_ids } => {
            assert_eq!(ref_commit_ids.len(), 1);
            assert_eq!(ref_commit_ids[0].0, "refs/heads/dev");
        }
        _ => panic!("expected a git perception"),
    }
}

#[test]
fn perceive_checks_kind() {
    let wp = file_wp("/a");
    assert!(WatchPointPerception::perceive(&wp, &Observation::Refs(vec![])).is_none());
    let p = WatchPointPerception::perceive(&wp, &Observation::Content(b"x".to_vec())).unwrap();
    assert!(p.same_as(&file_perception(b"x")));
    let again = WatchPointPerception::perceive(&wp, &Observation::Content(b"x".to_vec())).unwrap();
    assert!(p.same_as(&again));
}
