use flota::config::{Cluster, Host};
use flota::exec::{Exec, ExecResult, ExecType, Output};
use flota::ipv4::IPv4;
use flota::runner::{all_passed, plan_cluster_tests, plan_host_tests, resolve_seed};
use flota::session::{
    known_host_action, retarget, try_spawn, ChannelError, KnownHostAction, KnownHostCheck,
    Return, SeedType, SessConsole, SessLocal, SessSeedConsole, SessSeedLocal, SessSeedSsh,
    Session, SessionSeed, SpawnError,
};

fn ssh(user: &str) -> SessionSeed {
    SessionSeed::Ssh(SessSeedSsh::new(user, None, 22, "/root/.ssh/id_rsa"))
}

fn exec(t: ExecType, host: Option<&str>, cmd: &str) -> Exec {
    Exec {
        exec_type: t,
        host: host.map(|h| h.to_string()),
        command: cmd.to_string(),
        expect_stdout: None,
        expect_stderr: None,
        expect_status: Some(0),
        abort_on_failure: false,
    }
}

#[test]
fn spawn_order_follows_priority() {
    let seeds = vec![
        SessionSeed::Local(SessSeedLocal {}),
        ssh("a"),
        SessionSeed::Console(SessSeedConsole {}),
        ssh("b"),
    ];
    assert_eq!(try_spawn(&seeds, &vec![SeedType::Ssh]).unwrap(), vec![1, 3]);
    assert_eq!(
        try_spawn(&seeds, &vec![SeedType::Console, SeedType::Ssh, SeedType::Local]).unwrap(),
        vec![2, 1, 3, 0]
    );
    let only_local = vec![SessionSeed::Local(SessSeedLocal {})];
    assert_eq!(try_spawn(&only_local, &vec![SeedType::Ssh]), Err(SpawnError::NoChannelAvailable));
    assert_eq!(try_spawn(&seeds, &vec![]), Err(SpawnError::NoChannelAvailable));
}

#[test]
fn retarget_touches_ssh_only() {
    let ip = IPv4::from_cidr_notation("192.168.122.50/24").unwrap();
    let mut seeds = vec![ssh("root"), SessionSeed::Local(SessSeedLocal {})];
    retarget(&mut seeds, &ip);
    match &seeds[0] {
        SessionSeed::Ssh(s) => {
            assert_eq!(s.ip.unwrap().ip(), "192.168.122.50");
            assert_eq!(s.user, "root");
            assert_eq!(s.port, 22);
        }
        _ => panic!("expected ssh"),
    }
    assert_eq!(seeds[1].seed_type(), SeedType::Local);
}

#[test]
fn seed_type_of_exec_type() {
    assert_eq!(SeedType::from_exec_type(&ExecType::Ssh), Some(SeedType::Ssh));
    assert_eq!(SeedType::from_exec_type(&ExecType::Console), Some(SeedType::Console));
    assert_eq!(SeedType::from_exec_type(&ExecType::Local), Some(SeedType::Local));
}

#[test]
fn known_host_decisions() {
    assert_eq!(known_host_action(KnownHostCheck::Match), KnownHostAction::Keep);
    assert_eq!(known_host_action(KnownHostCheck::NotFound), KnownHostAction::Add);
    assert_eq!(known_host_action(KnownHostCheck::Mismatch), KnownHostAction::Replace);
    assert_eq!(known_host_action(KnownHostCheck::Failure), KnownHostAction::Refuse);
}

fn host(name: &str) -> Host {
    Host {
        hostname: name.to_string(),
        interfaces: vec![],
        solo_pre_tests: vec![exec(ExecType::Ssh, None, "setup")],
        solo_tests: vec![exec(ExecType::Console, None, "test"), exec(ExecType::Ssh, None, "t2")],
        solo_post_tests: vec![exec(ExecType::Local, None, "cleanup")],
        destroy_when_finished: true,
        persistent: true,
        template: "base".to_string(),
    }
}

#[test]
fn host_phases_in_order() {
    let seeds = vec![SessionSeed::Local(SessSeedLocal {}), ssh("root")];
    let plan = plan_host_tests(&host("h1"), &seeds);
    let got: Vec<(usize, usize, Option<usize>)> =
        plan.iter().map(|p| (p.phase, p.index, p.seed)).collect();
    assert_eq!(got, vec![(0, 0, Some(1)), (1, 0, None), (1, 1, Some(1)), (2, 0, Some(0))]);
    assert_eq!(resolve_seed(&seeds, &exec(ExecType::Console, None, "x")), None);
}

#[test]
fn cluster_phases_target_hosts() {
    let cluster = Cluster {
        name: "c".to_string(),
        watchpoints: vec![],
        hosts: vec![host("h1"), host("h2")],
        pre_tests: vec![exec(ExecType::Ssh, Some("h2"), "pre")],
        tests: vec![exec(ExecType::Ssh, Some("h9"), "lost"), exec(ExecType::Local, Some("h1"), "x")],
        post_tests: vec![exec(ExecType::Ssh, None, "anywhere")],
        destroy_when_finished: true,
        persistent: false,
    };
    let names = vec!["h1".to_string(), "h2".to_string()];
    let seeds = vec![vec![ssh("root")], vec![SessionSeed::Local(SessSeedLocal {}), ssh("root")]];
    let plan = plan_cluster_tests(&cluster, &names, &seeds);
    let got: Vec<(usize, usize, Option<usize>, Option<usize>)> =
        plan.iter().map(|p| (p.phase, p.index, p.host, p.seed)).collect();
    assert_eq!(
        got,
        vec![(0, 0, Some(1), Some(1)), (1, 0, None, None), (1, 1, Some(0), None), (2, 0, None, None)]
    );
}

#[test]
fn all_passed_aggregates() {
    let e = exec(ExecType::Ssh, None, "true");
    let ok = |s: i32| Output { stdout: None, stderr: None, status: Some(s) };
    let results = vec![
        ExecResult::record(&e, "h".to_string(), ok(0)),
        ExecResult::record(&e, "h".to_string(), ok(0)),
    ];
    assert!(all_passed(&results));
    let mixed = vec![
        ExecResult::record(&e, "h".to_string(), ok(0)),
        ExecResult::record(&e, "h".to_string(), ok(1)),
    ];
    assert!(!all_passed(&mixed));
    assert!(all_passed(&vec![]));
}

#[test]
fn unprovided_channels_refuse() {
    assert_eq!(SessConsole {}.exec("ls").unwrap_err(), ChannelError::Unsupported);
    assert_eq!(SessLocal {}.exec("ls").unwrap_err(), ChannelError::Unsupported);
}

#[test]
fn return_as_output() {
    let o = Return { stdout: "a".to_string(), stderr: "b".to_string(), status: 3 }.into_output();
    assert_eq!(o.stdout.as_deref(), Some("a"));
    assert_eq!(o.stderr.as_deref(), Some("b"));
    assert_eq!(o.status, Some(3));
}
