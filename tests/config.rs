use flota::cause::{Cause, ClusterTestResult, HostTestResult, Manager};
use flota::config::{
    template_for, watchpoint_from_fields, Cluster, Config, ConfigError, Host, HostInterface,
    Ingredient, Setting, Template,
};
use flota::exec::{Exec, ExecType};
use flota::ipv4::IPv4;
use flota::watch::{perceive_file, WatchPoint, WatchPointPerception};

fn s(x: &str) -> String {
    x.to_string()
}

#[test]
fn exec_entries() {
    let e = Exec::from_fields("ssh", Some(s("web")), s("ls"), Some(s("a")), None, Some(0), None)
        .unwrap();
    assert_eq!(e.exec_type, ExecType::Ssh);
    assert_eq!(e.host.as_deref(), Some("web"));
    assert!(!e.abort_on_failure);
    let l = Exec::from_fields("local", None, s("ls"), None, None, None, Some(true)).unwrap();
    assert_eq!(l.exec_type, ExecType::Local);
    assert_eq!(l.host.as_deref(), Some("localhost"));
    assert!(l.abort_on_failure);
    let c = Exec::from_fields("console", None, s("ls"), None, None, None, None).unwrap();
    assert_eq!(c.exec_type, ExecType::Console);
    assert!(c.host.is_none());
    assert!(matches!(
        Exec::from_fields("telnet", None, s("ls"), None, None, None, None),
        Err(ConfigError::UnknownExecType)
    ));
}

#[test]
fn watchpoint_entries() {
    match watchpoint_from_fields("git", s("https://h/r.git"), None, Some(vec![s("*")]), s("/c"), s(""))
        .unwrap()
    {
        WatchPoint::Git { remote, refs, .. } => {
            assert_eq!(remote, "origin");
            assert_eq!(refs, vec![s("*")]);
        }
        _ => panic!("expected git"),
    }
    assert!(matches!(
        watchpoint_from_fields("git", s("u"), None, None, s("/c"), s("")),
        Err(ConfigError::GitNeedsRefs)
    ));
    assert!(matches!(
        watchpoint_from_fields("file", s(""), None, None, s(""), s("/etc/x")),
        Ok(WatchPoint::File { .. })
    ));
    assert!(matches!(
        watchpoint_from_fields("svn", s(""), None, None, s(""), s("")),
        Err(ConfigError::UnsupportedWatchPoint)
    ));
}

#[test]
fn ingredient_kinds() {
    assert!(matches!(
        Ingredient::distinguish(Some(s("centos6")), None, None, None, None),
        Ok(Ingredient::OffTheShelf { .. })
    ));
    assert!(matches!(
        Ingredient::distinguish(None, Some(s("i")), None, Some(s("v")), Some(s("r"))),
        Ok(Ingredient::Custom { .. })
    ));
    assert!(matches!(
        Ingredient::distinguish(Some(s("d")), Some(s("i")), None, Some(s("v")), Some(s("r"))),
        Err(ConfigError::AmbiguousIngredient)
    ));
    assert!(matches!(
        Ingredient::distinguish(None, Some(s("i")), None, None, Some(s("r"))),
        Err(ConfigError::InsufficientIngredient)
    ));
}

fn sample(name: &str, persistent: bool) -> Config {
    Config {
        setting: Setting {
            hypervisor: s("qemu:///system"),
            pool_root: s("/tmp"),
            default_network: IPv4::from_cidr_notation("203.0.113.0/24").unwrap(),
            default_storage_pool_name: s("_flota"),
            persistent: true,
            delete_unused_template: true,
            daemonized: false,
        },
        templates: vec![Template {
            name: s("base"),
            arch: s("x86_64"),
            ingredient: Ingredient::OffTheShelf { distro: s("centos6") },
            ks: None,
            mgmt_user: s("root"),
            mgmt_user_ssh_private_key: s("/root/.ssh/id_rsa"),
        }],
        clusters: vec![Cluster {
            name: s(name),
            watchpoints: vec![WatchPoint::File { path: s("/etc/x") }],
            hosts: vec![Host {
                hostname: s("h1"),
                interfaces: vec![HostInterface {
                    dev: s("eth1"),
                    ip: IPv4::from_cidr_notation("10.0.0.2/24").unwrap(),
                }],
                solo_pre_tests: vec![],
                solo_tests: vec![],
                solo_post_tests: vec![],
                destroy_when_finished: true,
                persistent,
                template: s("base"),
            }],
            pre_tests: vec![],
            tests: vec![],
            post_tests: vec![],
            destroy_when_finished: true,
            persistent: true,
        }],
    }
}

#[test]
fn config_differ_from() {
    assert!(!sample("c", true).differ_from(&sample("c", true)));
    assert!(sample("c", true).differ_from(&sample("d", true)));
    assert!(sample("c", true).differ_from(&sample("c", false)));
}

#[test]
fn template_lookup_and_ids() {
    let cfg = sample("c", true);
    let host = &cfg.clusters[0].hosts[0];
    assert_eq!(template_for(&vec![s("other"), s("base")], host), Some(1));
    assert_eq!(template_for(&vec![s("other")], host), None);
    assert_eq!(cfg.clusters[0].id(), sample("c", true).clusters[0].id());
    assert_ne!(cfg.clusters[0].id(), sample("d", true).clusters[0].id());
    assert_eq!(host.id(), sample("c", true).clusters[0].hosts[0].id());
}

#[test]
fn manager_records_runs() {
    let cfg = sample("c", true);
    let cluster = &cfg.clusters[0];
    let key = cluster.id();
    let mut m = Manager::new();
    let now = vec![WatchPointPerception::new(perceive_file(&b"x".to_vec()))];
    let first = m.cause_of_next_cluster_run(cluster, key, &now);
    assert!(matches!(first[..], [Cause::FirstRun]));
    m.record_host_run(cluster.hosts[0].id(), HostTestResult { host: 1, causes: vec![], results: vec![] });
    m.record_cluster_run(key, ClusterTestResult { cluster: key, causes: first, results: vec![] });
    assert!(m.cluster_runs.contains(key));
    assert!(m.host_runs.contains(cluster.hosts[0].id()));
    let again = vec![WatchPointPerception::new(perceive_file(&b"x".to_vec()))];
    assert!(m.cause_of_next_cluster_run(cluster, key, &again).is_empty());
}

#[test]
fn default_settings() {
    let st = Setting::default();
    assert_eq!(st.hypervisor, "qemu:///system");
    assert_eq!(st.pool_root, "/tmp");
    assert_eq!(st.default_network.ip(), "203.0.113.0");
    assert_eq!(st.default_network.mask_bit(), 24);
    assert_eq!(st.default_storage_pool_name, "_flota");
    assert!(st.persistent && st.delete_unused_template && !st.daemonized);
    let cfg = Config::default();
    assert!(cfg.templates.is_empty() && cfg.clusters.is_empty());
}
