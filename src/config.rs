//! The configured shape of clusters and their hosts.
use crate::exec::{Exec, ExecType};
use crate::text::text_is;
use crate::ipv4::IPv4;
use crate::watch::WatchPoint;
use std::hash::{Hash, Hasher};
use vstd::prelude::*;

verus! {

/// A network interface of a guest.
#[derive(Hash)]
pub struct HostInterface {
    /// Device name on the guest side.
    pub dev: String,
    pub ip: IPv4,
}

/// A configured host of a cluster.
#[derive(Hash)]
pub struct Host {
    pub hostname: String,
    pub interfaces: Vec<HostInterface>,
    /// Setup run before the host's own tests.
    pub solo_pre_tests: Vec<Exec>,
    /// The host's own tests.
    pub solo_tests: Vec<Exec>,
    /// Run after the host's own tests.
    pub solo_post_tests: Vec<Exec>,
    /// Power the host off once its cluster is done.
    pub destroy_when_finished: bool,
    /// Keep the host's disk once its cluster is done.
    pub persistent: bool,
    /// Name of the template the host is built from.
    pub template: String,
}

/// A configured cluster: hosts, watched inputs and three ordered test phases.
#[derive(Hash)]
pub struct Cluster {
    pub name: String,
    /// Inputs whose change triggers a re-run; may be empty.
    pub watchpoints: Vec<WatchPoint>,
    /// Hosts, set up in this order.
    pub hosts: Vec<Host>,
    /// Run after every host is up.
    pub pre_tests: Vec<Exec>,
    pub tests: Vec<Exec>,
    pub post_tests: Vec<Exec>,
    pub destroy_when_finished: bool,
    pub persistent: bool,
}

/// Global settings.
pub struct Setting {
    /// Hypervisor URI to connect to.
    pub hypervisor: String,
    /// Root directory of the disk images.
    pub pool_root: String,
    /// The default network.
    pub default_network: IPv4,
    pub default_storage_pool_name: String,
    /// Keep what was built when the program exits.
    pub persistent: bool,
    /// Delete templates no longer used (in daemon mode).
    pub delete_unused_template: bool,
    /// Run as a daemon.
    pub daemonized: bool,
}

impl Default for Setting {
    /// The local system hypervisor, images under `/tmp`, the documentation
    /// network 203.0.113.0/24, the pool `_flota`; keep what was built, delete
    /// unused templates, do not daemonize.
    fn default() -> (r: Setting)
        ensures
            r.hypervisor@ == "qemu:///system"@,
            r.pool_root@ == "/tmp"@,
            r.default_network.addr_spec() == 0xCB007100,
            r.default_network.prefix_spec() == 24,
            r.default_storage_pool_name@ == "_flota"@,
            r.persistent,
            r.delete_unused_template,
            !r.daemonized,
    {
        Setting {
            hypervisor: "qemu:///system".to_owned(),
            pool_root: "/tmp".to_owned(),
            default_network: IPv4::from_parts(0xCB007100, 24),
            default_storage_pool_name: "_flota".to_owned(),
            persistent: true,
            delete_unused_template: true,
            daemonized: false,
        }
    }
}

/// What a template is built from.
pub enum Ingredient {
    /// A known distribution.
    OffTheShelf { distro: String },
    /// An installation image with its kernel and initrd.
    Custom { iso: String, iso_md5sum: Option<String>, vmlinuz: String, initrd: String },
}

/// A configured template: a base image and its management credentials.
pub struct Template {
    pub name: String,
    pub arch: String,
    pub ingredient: Ingredient,
    /// Unattended installation script, where one is given.
    pub ks: Option<String>,
    /// Login user for management.
    pub mgmt_user: String,
    /// Path of that user's private SSH key.
    pub mgmt_user_ssh_private_key: String,
}

/// The whole configuration.
pub struct Config {
    pub setting: Setting,
    pub templates: Vec<Template>,
    pub clusters: Vec<Cluster>,
}

impl Default for Config {
    /// Default settings, no template, no cluster.
    fn default() -> (r: Config)
        ensures
            r.templates@.len() == 0,
            r.clusters@.len() == 0,
            r.setting.hypervisor@ == "qemu:///system"@,
            r.setting.pool_root@ == "/tmp"@,
            r.setting.default_network.addr_spec() == 0xCB007100,
            r.setting.default_network.prefix_spec() == 24,
            r.setting.default_storage_pool_name@ == "_flota"@,
            r.setting.persistent,
            r.setting.delete_unused_template,
            !r.setting.daemonized,
    {
        Config { setting: Setting::default(), templates: Vec::new(), clusters: Vec::new() }
    }
}

pub open spec fn same_opt_text(a: Option<String>, b: Option<String>) -> bool {
    match (a, b) {
        (None, None) => true,
        (Some(x), Some(y)) => x@ == y@,
        _ => false,
    }
}

pub open spec fn same_exec(a: Exec, b: Exec) -> bool {
    &&& a.exec_type == b.exec_type
    &&& same_opt_text(a.host, b.host)
    &&& a.command@ == b.command@
    &&& same_opt_text(a.expect_stdout, b.expect_stdout)
    &&& same_opt_text(a.expect_stderr, b.expect_stderr)
    &&& a.expect_status == b.expect_status
    &&& a.abort_on_failure == b.abort_on_failure
}

pub open spec fn same_execs(a: Seq<Exec>, b: Seq<Exec>) -> bool {
    a.len() == b.len() && forall|i: int| 0 <= i < a.len() ==> same_exec(#[trigger] a[i], b[i])
}

pub open spec fn same_ip(a: IPv4, b: IPv4) -> bool {
    a.addr_spec() == b.addr_spec() && a.prefix_spec() == b.prefix_spec()
}

pub open spec fn same_interfaces(a: Seq<HostInterface>, b: Seq<HostInterface>) -> bool {
    a.len() == b.len() && forall|i: int|
        0 <= i < a.len() ==> (#[trigger] a[i]).dev@ == b[i].dev@ && same_ip(a[i].ip, b[i].ip)
}

pub open spec fn same_host(a: Host, b: Host) -> bool {
    &&& a.hostname@ == b.hostname@
    &&& same_interfaces(a.interfaces@, b.interfaces@)
    &&& same_execs(a.solo_pre_tests@, b.solo_pre_tests@)
    &&& same_execs(a.solo_tests@, b.solo_tests@)
    &&& same_execs(a.solo_post_tests@, b.solo_post_tests@)
    &&& a.destroy_when_finished == b.destroy_when_finished
    &&& a.persistent == b.persistent
    &&& a.template@ == b.template@
}

pub open spec fn same_hosts(a: Seq<Host>, b: Seq<Host>) -> bool {
    a.len() == b.len() && forall|i: int| 0 <= i < a.len() ==> same_host(#[trigger] a[i], b[i])
}

pub open spec fn same_watchpoints(a: Seq<WatchPoint>, b: Seq<WatchPoint>) -> bool {
    a.len() == b.len() && forall|i: int| 0 <= i < a.len() ==> (#[trigger] a[i])@ == b[i]@
}

pub open spec fn same_cluster(a: Cluster, b: Cluster) -> bool {
    &&& a.name@ == b.name@
    &&& same_watchpoints(a.watchpoints@, b.watchpoints@)
    &&& same_hosts(a.hosts@, b.hosts@)
    &&& same_execs(a.pre_tests@, b.pre_tests@)
    &&& same_execs(a.tests@, b.tests@)
    &&& same_execs(a.post_tests@, b.post_tests@)
    &&& a.destroy_when_finished == b.destroy_when_finished
    &&& a.persistent == b.persistent
}

pub open spec fn same_clusters(a: Seq<Cluster>, b: Seq<Cluster>) -> bool {
    a.len() == b.len() && forall|i: int| 0 <= i < a.len() ==> same_cluster(#[trigger] a[i], b[i])
}

pub open spec fn same_ingredient(a: Ingredient, b: Ingredient) -> bool {
    match (a, b) {
        (Ingredient::OffTheShelf { distro: x }, Ingredient::OffTheShelf { distro: y }) => x@
            == y@,
        (
            Ingredient::Custom { iso: i1, iso_md5sum: m1, vmlinuz: v1, initrd: r1 },
            Ingredient::Custom { iso: i2, iso_md5sum: m2, vmlinuz: v2, initrd: r2 },
        ) => i1@ == i2@ && same_opt_text(m1, m2) && v1@ == v2@ && r1@ == r2@,
        _ => false,
    }
}

pub open spec fn same_template(a: Template, b: Template) -> bool {
    &&& a.name@ == b.name@
    &&& a.arch@ == b.arch@
    &&& same_ingredient(a.ingredient, b.ingredient)
    &&& same_opt_text(a.ks, b.ks)
    &&& a.mgmt_user@ == b.mgmt_user@
    &&& a.mgmt_user_ssh_private_key@ == b.mgmt_user_ssh_private_key@
}

pub open spec fn same_templates(a: Seq<Template>, b: Seq<Template>) -> bool {
    a.len() == b.len() && forall|i: int| 0 <= i < a.len() ==> same_template(#[trigger] a[i], b[i])
}

pub open spec fn same_setting(a: Setting, b: Setting) -> bool {
    &&& a.hypervisor@ == b.hypervisor@
    &&& a.pool_root@ == b.pool_root@
    &&& same_ip(a.default_network, b.default_network)
    &&& a.default_storage_pool_name@ == b.default_storage_pool_name@
    &&& a.persistent == b.persistent
    &&& a.delete_unused_template == b.delete_unused_template
    &&& a.daemonized == b.daemonized
}

/// Two configurations are the same, field by field.
pub open spec fn same_config(a: Config, b: Config) -> bool {
    &&& same_setting(a.setting, b.setting)
    &&& same_templates(a.templates@, b.templates@)
    &&& same_clusters(a.clusters@, b.clusters@)
}

fn eq_opt_text(a: &Option<String>, b: &Option<String>) -> (r: bool)
    ensures
        r == same_opt_text(*a, *b),
{
    match (a, b) {
        (None, None) => true,
        (Some(x), Some(y)) => *x == *y,
        _ => false,
    }
}

fn eq_exec(a: &Exec, b: &Exec) -> (r: bool)
    ensures
        r == same_exec(*a, *b),
{
    a.exec_type == b.exec_type && eq_opt_text(&a.host, &b.host) && a.command == b.command
        && eq_opt_text(&a.expect_stdout, &b.expect_stdout) && eq_opt_text(
        &a.expect_stderr,
        &b.expect_stderr,
    ) && a.expect_status == b.expect_status && a.abort_on_failure == b.abort_on_failure
}

fn eq_execs(a: &Vec<Exec>, b: &Vec<Exec>) -> (r: bool)
    ensures
        r == same_execs(a@, b@),
{
    if a.len() != b.len() {
        return false;
    }
    let mut i: usize = 0;
    while i < a.len()
        invariant
            a@.len() == b@.len(),
            0 <= i <= a@.len(),
            forall|j: int| 0 <= j < i ==> same_exec(#[trigger] a@[j], b@[j]),
        decreases a@.len() - i,
    {
        if !eq_exec(&a[i], &b[i]) {
            return false;
        }
        i += 1;
    }
    true
}

fn eq_interfaces(a: &Vec<HostInterface>, b: &Vec<HostInterface>) -> (r: bool)
    ensures
        r == same_interfaces(a@, b@),
{
    if a.len() != b.len() {
        return false;
    }
    let mut i: usize = 0;
    while i < a.len()
        invariant
            a@.len() == b@.len(),
            0 <= i <= a@.len(),
            forall|j: int|
                0 <= j < i ==> (#[trigger] a@[j]).dev@ == b@[j].dev@ && same_ip(a@[j].ip, b@[j].ip),
        decreases a@.len() - i,
    {
        if !(a[i].dev == b[i].dev && a[i].ip.same_as(&b[i].ip)) {
            return false;
        }
        i += 1;
    }
    true
}

fn eq_host(a: &Host, b: &Host) -> (r: bool)
    ensures
        r == same_host(*a, *b),
{
    a.hostname == b.hostname && eq_interfaces(&a.interfaces, &b.interfaces) && eq_execs(
        &a.solo_pre_tests,
        &b.solo_pre_tests,
    ) && eq_execs(&a.solo_tests, &b.solo_tests) && eq_execs(
        &a.solo_post_tests,
        &b.solo_post_tests,
    ) && a.destroy_when_finished == b.destroy_when_finished && a.persistent == b.persistent
        && a.template == b.template
}

fn eq_hosts(a: &Vec<Host>, b: &Vec<Host>) -> (r: bool)
    ensures
        r == same_hosts(a@, b@),
{
    if a.len() != b.len() {
        return false;
    }
    let mut i: usize = 0;
    while i < a.len()
        invariant
            a@.len() == b@.len(),
            0 <= i <= a@.len(),
            forall|j: int| 0 <= j < i ==> same_host(#[trigger] a@[j], b@[j]),
        decreases a@.len() - i,
    {
        if !eq_host(&a[i], &b[i]) {
            return false;
        }
        i += 1;
    }
    true
}

fn eq_watchpoints(a: &Vec<WatchPoint>, b: &Vec<WatchPoint>) -> (r: bool)
    ensures
        r == same_watchpoints(a@, b@),
{
    if a.len() != b.len() {
        return false;
    }
    let mut i: usize = 0;
    while i < a.len()
        invariant
            a@.len() == b@.len(),
            0 <= i <= a@.len(),
            forall|j: int| 0 <= j < i ==> (#[trigger] a@[j])@ == b@[j]@,
        decreases a@.len() - i,
    {
        if !a[i].same_as(&b[i]) {
            return false;
        }
        i += 1;
    }
    true
}

fn eq_cluster(a: &Cluster, b: &Cluster) -> (r: bool)
    ensures
        r == same_cluster(*a, *b),
{
    a.name == b.name && eq_watchpoints(&a.watchpoints, &b.watchpoints) && eq_hosts(
        &a.hosts,
        &b.hosts,
    ) && eq_execs(&a.pre_tests, &b.pre_tests) && eq_execs(&a.tests, &b.tests) && eq_execs(
        &a.post_tests,
        &b.post_tests,
    ) && a.destroy_when_finished == b.destroy_when_finished && a.persistent == b.persistent
}

fn eq_clusters(a: &Vec<Cluster>, b: &Vec<Cluster>) -> (r: bool)
    ensures
        r == same_clusters(a@, b@),
{
    if a.len() != b.len() {
        return false;
    }
    let mut i: usize = 0;
    while i < a.len()
        invariant
            a@.len() == b@.len(),
            0 <= i <= a@.len(),
            forall|j: int| 0 <= j < i ==> same_cluster(#[trigger] a@[j], b@[j]),
        decreases a@.len() - i,
    {
        if !eq_cluster(&a[i], &b[i]) {
            return false;
        }
        i += 1;
    }
    true
}

fn eq_ingredient(a: &Ingredient, b: &Ingredient) -> (r: bool)
    ensures
        r == same_ingredient(*a, *b),
{
    match (a, b) {
        (Ingredient::OffTheShelf { distro: x }, Ingredient::OffTheShelf { distro: y }) => *x
            == *y,
        (
            Ingredient::Custom { iso: i1, iso_md5sum: m1, vmlinuz: v1, initrd: r1 },
            Ingredient::Custom { iso: i2, iso_md5sum: m2, vmlinuz: v2, initrd: r2 },
        ) => *i1 == *i2 && eq_opt_text(m1, m2) && *v1 == *v2 && *r1 == *r2,
        _ => false,
    }
}

fn eq_template(a: &Template, b: &Template) -> (r: bool)
    ensures
        r == same_template(*a, *b),
{
    a.name == b.name && a.arch == b.arch && eq_ingredient(&a.ingredient, &b.ingredient)
        && eq_opt_text(&a.ks, &b.ks) && a.mgmt_user == b.mgmt_user && a.mgmt_user_ssh_private_key
        == b.mgmt_user_ssh_private_key
}

fn eq_templates(a: &Vec<Template>, b: &Vec<Template>) -> (r: bool)
    ensures
        r == same_templates(a@, b@),
{
    if a.len() != b.len() {
        return false;
    }
    let mut i: usize = 0;
    while i < a.len()
        invariant
            a@.len() == b@.len(),
            0 <= i <= a@.len(),
            forall|j: int| 0 <= j < i ==> same_template(#[trigger] a@[j], b@[j]),
        decreases a@.len() - i,
    {
        if !eq_template(&a[i], &b[i]) {
            return false;
        }
        i += 1;
    }
    true
}

fn eq_setting(a: &Setting, b: &Setting) -> (r: bool)
    ensures
        r == same_setting(*a, *b),
{
    a.hypervisor == b.hypervisor && a.pool_root == b.pool_root && a.default_network.same_as(
        &b.default_network,
    ) && a.default_storage_pool_name == b.default_storage_pool_name && a.persistent
        == b.persistent && a.delete_unused_template == b.delete_unused_template && a.daemonized
        == b.daemonized
}

impl Config {
    /// Whether the two configurations differ in any field.
    pub fn differ_from(&self, config: &Config) -> (r: bool)
        ensures
            r == !same_config(*self, *config),
    {
        !(eq_setting(&self.setting, &config.setting) && eq_templates(
            &self.templates,
            &config.templates,
        ) && eq_clusters(&self.clusters, &config.clusters))
    }
}

/// Why a configuration entry was refused.
#[derive(PartialEq, Eq, Structural, Clone, Copy, Debug)]
pub enum ConfigError {
    /// An exec's type is none of `console`, `local`, `ssh`.
    UnknownExecType,
    /// A `git` watchpoint has no `refs` list.
    GitNeedsRefs,
    /// A watchpoint's type is neither `git` nor `file`.
    UnsupportedWatchPoint,
    /// Both a distribution and a custom image are given.
    AmbiguousIngredient,
    /// Neither a distribution nor a complete custom image is given.
    InsufficientIngredient,
}

impl Exec {
    /// An exec entry from its fields: `kind` is `console`, `local` or `ssh`;
    /// a local command runs on `localhost`; `abort_on_failure` defaults to false.
    pub fn from_fields(
        kind: &str,
        host: Option<String>,
        command: String,
        stdout: Option<String>,
        stderr: Option<String>,
        status: Option<i32>,
        abort_on_failure: Option<bool>,
    ) -> (r: Result<Exec, ConfigError>)
        ensures
            kind@ != "console"@ && kind@ != "local"@ && kind@ != "ssh"@ ==> r == Err::<
                Exec,
                ConfigError,
            >(ConfigError::UnknownExecType),
            kind@ == "console"@ || kind@ == "local"@ || kind@ == "ssh"@ ==> (r matches Ok(e) && (
            e.exec_type == if kind@ == "console"@ {
                ExecType::Console
            } else if kind@ == "local"@ {
                ExecType::Local
            } else {
                ExecType::Ssh
            }) && (if kind@ == "local"@ {
                e.host matches Some(h) && h@ == "localhost"@
            } else {
                e.host == host
            }) && e.command == command && e.expect_stdout == stdout && e.expect_stderr == stderr
                && e.expect_status == status && e.abort_on_failure == (abort_on_failure
                == Some(true))),
    {
        proof {
            reveal_strlit("console");
            reveal_strlit("local");
            reveal_strlit("ssh");
            reveal_strlit("localhost");
            assert("console"@.len() == 7 && "local"@.len() == 5 && "ssh"@.len() == 3);
            assert("console"@ != "local"@ && "console"@ != "ssh"@ && "local"@ != "ssh"@);
        }
        let abort = match abort_on_failure {
            Some(b) => b,
            None => false,
        };
        let (exec_type, host) = if text_is(kind, "console") {
            (ExecType::Console, host)
        } else if text_is(kind, "local") {
            (ExecType::Local, Some("localhost".to_owned()))
        } else if text_is(kind, "ssh") {
            (ExecType::Ssh, host)
        } else {
            return Err(ConfigError::UnknownExecType);
        };
        Ok(
            Exec {
                exec_type,
                host,
                command,
                expect_stdout: stdout,
                expect_stderr: stderr,
                expect_status: status,
                abort_on_failure: abort,
            },
        )
    }
}

/// A watchpoint entry from its fields: `kind` is `git` (which needs a ref
/// list; the remote defaults to `origin`) or `file`.
pub fn watchpoint_from_fields(
    kind: &str,
    uri: String,
    remote: Option<String>,
    refs: Option<Vec<String>>,
    checkout_dir: String,
    path: String,
) -> (r: Result<WatchPoint, ConfigError>)
    ensures
        kind@ == "git"@ && refs is None ==> r == Err::<WatchPoint, ConfigError>(
            ConfigError::GitNeedsRefs,
        ),
        kind@ == "git"@ && refs is Some ==> (r matches Ok(WatchPoint::Git {
            uri: u,
            remote: m,
            refs: f,
            checkout_dir: c,
        }) && u == uri && f == refs->0 && c == checkout_dir && match remote {
            Some(x) => m == x,
            None => m@ == "origin"@,
        }),
        kind@ == "file"@ ==> (r matches Ok(WatchPoint::File { path: p }) && p == path),
        kind@ != "git"@ && kind@ != "file"@ ==> r == Err::<WatchPoint, ConfigError>(
            ConfigError::UnsupportedWatchPoint,
        ),
{
    proof {
        reveal_strlit("git");
        reveal_strlit("file");
        reveal_strlit("origin");
        assert("git"@.len() == 3 && "file"@.len() == 4);
        assert("git"@ != "file"@);
    }
    if text_is(kind, "git") {
        match refs {
            None => Err(ConfigError::GitNeedsRefs),
            Some(refs) => {
                let remote = match remote {
                    Some(x) => x,
                    None => "origin".to_owned(),
                };
                Ok(WatchPoint::Git { uri, remote, refs, checkout_dir })
            },
        }
    } else if text_is(kind, "file") {
        Ok(WatchPoint::File { path })
    } else {
        Err(ConfigError::UnsupportedWatchPoint)
    }
}

impl Ingredient {
    /// Tells a distribution from a custom image: a distribution alone, or an
    /// image with its kernel and initrd (and an optional checksum file).
    pub fn distinguish(
        distro: Option<String>,
        iso: Option<String>,
        iso_md5sum: Option<String>,
        vmlinuz: Option<String>,
        initrd: Option<String>,
    ) -> (r: Result<Ingredient, ConfigError>)
        ensures
            distro is Some && iso is Some && vmlinuz is Some && initrd is Some ==> r == Err::<
                Ingredient,
                ConfigError,
            >(ConfigError::AmbiguousIngredient),
            distro is Some && !(iso is Some && vmlinuz is Some && initrd is Some) ==> (
            r matches Ok(Ingredient::OffTheShelf { distro: d }) && d == distro->0),
            distro is None && iso is Some && vmlinuz is Some && initrd is Some ==> (
            r matches Ok(Ingredient::Custom { iso: i, iso_md5sum: m, vmlinuz: v, initrd: n })
                && i == iso->0 && m == iso_md5sum && v == vmlinuz->0 && n == initrd->0),
            distro is None && !(iso is Some && vmlinuz is Some && initrd is Some) ==> r == Err::<
                Ingredient,
                ConfigError,
            >(ConfigError::InsufficientIngredient),
    {
        match (distro, iso, vmlinuz, initrd) {
            (Some(_), Some(_), Some(_), Some(_)) => Err(ConfigError::AmbiguousIngredient),
            (Some(d), _, _, _) => Ok(Ingredient::OffTheShelf { distro: d }),
            (None, Some(i), Some(v), Some(n)) => Ok(
                Ingredient::Custom { iso: i, iso_md5sum, vmlinuz: v, initrd: n },
            ),
            _ => Err(ConfigError::InsufficientIngredient),
        }
    }
}

/// Relies on std's `DefaultHasher` (`new`, `Hash::hash`, `finish`) over the
/// derived `Hash`: a digest of the value's structure, used as a record key.
/// Nothing is stated of it: std leaves its algorithm open, and it differs
/// between platforms.
#[verifier::external_body]
pub fn hash<T: Hash>(t: &T) -> u64 {
    let mut s = std::collections::hash_map::DefaultHasher::new();
    t.hash(&mut s);
    s.finish()
}

impl Host {
    /// The key under which this host's results are recorded.
    pub fn id(&self) -> u64 {
        hash(self)
    }
}

impl Cluster {
    /// The key under which this cluster's runs are recorded.
    pub fn id(&self) -> u64 {
        hash(self)
    }
}

/// Where the template of `host` stands among `templates` (by name); the
/// first match.
pub fn template_for(templates: &Vec<String>, host: &Host) -> (r: Option<usize>)
    ensures
        r matches Some(i) ==> i < templates@.len() && templates@[i as int]@ == host.template@
            && forall|j: int| 0 <= j < i ==> templates@[j]@ != host.template@,
        r is None ==> forall|j: int|
            0 <= j < templates@.len() ==> templates@[j]@ != host.template@,
{
    let mut i: usize = 0;
    while i < templates.len()
        invariant
            0 <= i <= templates@.len(),
            forall|j: int| 0 <= j < i ==> templates@[j]@ != host.template@,
        decreases templates@.len() - i,
    {
        if templates[i] == host.template {
            return Some(i);
        }
        i += 1;
    }
    None
}

} // verus!
