//! Seeds of execution channels, and the order in which they are tried.
use crate::exec::{ExecType, Output};
use crate::ipv4::IPv4;
use vstd::prelude::*;

verus! {

/// The kind of an execution channel.
#[derive(PartialEq, Eq, Structural, Clone, Copy, Debug)]
pub enum SeedType {
    Ssh,
    Console,
    Local,
}

impl SeedType {
    /// The channel kind through which a command of this type runs.
    pub fn from_exec_type(exec_type: &ExecType) -> (r: Option<SeedType>)
        ensures
            r == Some(seed_type_of(*exec_type)),
    {
        match exec_type {
            ExecType::Console => Some(SeedType::Console),
            ExecType::Ssh => Some(SeedType::Ssh),
            ExecType::Local => Some(SeedType::Local),
        }
    }
}

pub open spec fn seed_type_of(t: ExecType) -> SeedType {
    match t {
        ExecType::Console => SeedType::Console,
        ExecType::Ssh => SeedType::Ssh,
        ExecType::Local => SeedType::Local,
    }
}

/// Connection parameters of an SSH channel. The address is unknown until
/// the guest has booted, and is filled in then.
pub struct SessSeedSsh {
    pub user: String,
    pub ip: Option<IPv4>,
    pub port: i32,
    pub priv_key: String,
}

impl SessSeedSsh {
    /// A seed for `user` at `ip:port`, authenticating with the key at `priv_key`.
    pub fn new(user: &str, ip: Option<&IPv4>, port: i32, priv_key: &str) -> (r: SessSeedSsh)
        ensures
            r.user@ == user@,
            r.ip == match ip {
                Some(v) => Some(*v),
                None => None::<IPv4>,
            },
            r.port == port,
            r.priv_key@ == priv_key@,
    {
        SessSeedSsh {
            user: user.to_owned(),
            ip: match ip {
                Some(v) => Some(*v),
                None => None,
            },
            port,
            priv_key: priv_key.to_owned(),
        }
    }

    /// Retargets the seed at `ip`.
    pub fn override_ip(&mut self, ip: &IPv4)
        ensures
            final(self).ip == Some(*ip),
            final(self).user == old(self).user,
            final(self).port == old(self).port,
            final(self).priv_key == old(self).priv_key,
    {
        self.ip = Some(*ip);
    }
}

/// How the local known-hosts registry judged a remote host's key.
#[derive(PartialEq, Eq, Structural, Clone, Copy, Debug)]
pub enum KnownHostCheck {
    Match,
    NotFound,
    Mismatch,
    Failure,
}

/// What to do to the known-hosts registry after a check.
#[derive(PartialEq, Eq, Structural, Clone, Copy, Debug)]
pub enum KnownHostAction {
    /// The key is already known: nothing to do.
    Keep,
    /// Add the key.
    Add,
    /// Remove the entries recorded for the host, then add the key.
    Replace,
    /// The registry could not be checked: a fatal error, the key is not trusted.
    Refuse,
}

/// The registry update that a check calls for.
pub fn known_host_action(check: KnownHostCheck) -> (r: KnownHostAction)
    ensures
        check == KnownHostCheck::Match ==> r == KnownHostAction::Keep,
        check == KnownHostCheck::NotFound ==> r == KnownHostAction::Add,
        check == KnownHostCheck::Mismatch ==> r == KnownHostAction::Replace,
        check == KnownHostCheck::Failure ==> r == KnownHostAction::Refuse,
{
    match check {
        KnownHostCheck::Match => KnownHostAction::Keep,
        KnownHostCheck::NotFound => KnownHostAction::Add,
        KnownHostCheck::Mismatch => KnownHostAction::Replace,
        KnownHostCheck::Failure => KnownHostAction::Refuse,
    }
}

/// A hypervisor console channel.
pub struct SessSeedConsole {}

/// A channel on the local machine.
pub struct SessSeedLocal {}

/// Why a command could not be run through a channel.
#[derive(PartialEq, Eq, Structural, Clone, Copy, Debug)]
pub enum ChannelError {
    /// This kind of channel is not available in this deployment.
    Unsupported,
    /// The channel failed while running the command.
    Failed,
}

/// A live execution channel: runs a command and captures what it produced.
pub trait Session {
    fn exec(&self, command: &str) -> Result<Output, ChannelError>;
}

/// A live console channel; console attachment is not provided here.
pub struct SessConsole {}

/// A live local channel; local execution is not provided here.
pub struct SessLocal {}

impl Session for SessConsole {
    fn exec(&self, command: &str) -> Result<Output, ChannelError> {
        Err(ChannelError::Unsupported)
    }
}

impl Session for SessLocal {
    fn exec(&self, command: &str) -> Result<Output, ChannelError> {
        Err(ChannelError::Unsupported)
    }
}

/// Output of a command that ran to completion: both streams and the status.
pub struct Return {
    pub stdout: String,
    pub stderr: String,
    pub status: i32,
}

impl Return {
    /// The same outcome as an `Output`, with every field captured.
    pub fn into_output(self) -> (r: Output)
        ensures
            r.stdout == Some(self.stdout),
            r.stderr == Some(self.stderr),
            r.status == Some(self.status),
    {
        Output { stdout: Some(self.stdout), stderr: Some(self.stderr), status: Some(self.status) }
    }
}

/// A lazily spawned execution channel, one variant per kind.
pub enum SessionSeed {
    Ssh(SessSeedSsh),
    Console(SessSeedConsole),
    Local(SessSeedLocal),
}

pub open spec fn kind_of(s: SessionSeed) -> SeedType {
    match s {
        SessionSeed::Ssh(_) => SeedType::Ssh,
        SessionSeed::Console(_) => SeedType::Console,
        SessionSeed::Local(_) => SeedType::Local,
    }
}

impl SessionSeed {
    /// The kind of channel this seed spawns.
    pub fn seed_type(&self) -> (r: SeedType)
        ensures
            r == kind_of(*self),
    {
        match self {
            SessionSeed::Ssh(_) => SeedType::Ssh,
            SessionSeed::Console(_) => SeedType::Console,
            SessionSeed::Local(_) => SeedType::Local,
        }
    }
}

/// Points every SSH seed at `ip`; other seeds are left as they are.
pub fn retarget(seeds: &mut Vec<SessionSeed>, ip: &IPv4)
    ensures
        final(seeds)@.len() == old(seeds)@.len(),
        forall|i: int|
            0 <= i < old(seeds)@.len() ==> match #[trigger] old(seeds)@[i] {
                SessionSeed::Ssh(s) => final(seeds)@[i] matches SessionSeed::Ssh(t) && t.ip == Some(
                    *ip,
                ) && t.user == s.user && t.port == s.port && t.priv_key == s.priv_key,
                _ => final(seeds)@[i] == old(seeds)@[i],
            },
{
    let mut i: usize = 0;
    while i < seeds.len()
        invariant
            0 <= i <= seeds@.len(),
            seeds@.len() == old(seeds)@.len(),
            forall|j: int|
                i <= j < seeds@.len() ==> #[trigger] seeds@[j] == old(seeds)@[j],
            forall|j: int|
                0 <= j < i ==> match #[trigger] old(seeds)@[j] {
                    SessionSeed::Ssh(s) => seeds@[j] matches SessionSeed::Ssh(t) && t.ip == Some(
                        *ip,
                    ) && t.user == s.user && t.port == s.port && t.priv_key == s.priv_key,
                    _ => seeds@[j] == old(seeds)@[j],
                },
        decreases seeds@.len() - i,
    {
        if let SessionSeed::Ssh(s) = &mut seeds[i] {
            s.override_ip(ip);
        }
        i += 1;
    }
}

/// The positions of the seeds of kind `k` among the first `n`, in order.
pub open spec fn kind_positions(seeds: Seq<SessionSeed>, k: SeedType, n: int) -> Seq<int>
    decreases n,
{
    if n <= 0 {
        seq![]
    } else if kind_of(seeds[n - 1]) == k {
        kind_positions(seeds, k, n - 1).push(n - 1)
    } else {
        kind_positions(seeds, k, n - 1)
    }
}

/// The order in which seeds are tried: for each requested kind in priority
/// order, every seed of that kind in list order.
pub open spec fn spawn_order(seeds: Seq<SessionSeed>, prio: Seq<SeedType>) -> Seq<int>
    decreases prio.len(),
{
    if prio.len() == 0 {
        seq![]
    } else {
        spawn_order(seeds, prio.drop_last()) + kind_positions(seeds, prio.last(), seeds.len() as int)
    }
}

/// Why no channel could be had.
#[derive(PartialEq, Eq, Structural, Clone, Copy, Debug)]
pub enum SpawnError {
    /// No seed of a requested kind exists, or none of them spawned.
    NoChannelAvailable,
}

fn positions_of_kind(seeds: &Vec<SessionSeed>, k: SeedType, out: &mut Vec<usize>)
    ensures
        final(out)@.map_values(|i: usize| i as int) == old(out)@.map_values(|i: usize| i as int)
            + kind_positions(seeds@, k, seeds@.len() as int),
{
    let ghost start = old(out)@.map_values(|i: usize| i as int);
    let mut i: usize = 0;
    while i < seeds.len()
        invariant
            0 <= i <= seeds@.len(),
            out@.map_values(|i: usize| i as int) == start + kind_positions(seeds@, k, i as int),
        decreases seeds@.len() - i,
    {
        let ghost prev = out@;
        if seeds[i].seed_type() == k {
            out.push(i);
            assert(out@.map_values(|i: usize| i as int) =~= prev.map_values(|i: usize| i as int).push(
                i as int,
            ));
        }
        i += 1;
    }
}

/// The seeds to spawn, in the order to try them, for the kinds of `prio`
/// in priority order; fails where no seed of a requested kind exists. The
/// caller spawns them in turn and keeps the first channel that comes up.
pub fn try_spawn(seeds: &Vec<SessionSeed>, prio: &Vec<SeedType>) -> (r: Result<
    Vec<usize>,
    SpawnError,
>)
    ensures
        spawn_order(seeds@, prio@).len() == 0 ==> r == Err::<Vec<usize>, SpawnError>(
            SpawnError::NoChannelAvailable,
        ),
        spawn_order(seeds@, prio@).len() > 0 ==> (r matches Ok(v) && v@.map_values(
            |i: usize| i as int,
        ) == spawn_order(seeds@, prio@)),
{
    let mut out: Vec<usize> = Vec::new();
    let mut j: usize = 0;
    while j < prio.len()
        invariant
            0 <= j <= prio@.len(),
            out@.map_values(|i: usize| i as int) == spawn_order(seeds@, prio@.take(j as int)),
        decreases prio@.len() - j,
    {
        assert(prio@.take(j + 1).drop_last() =~= prio@.take(j as int));
        positions_of_kind(seeds, prio[j], &mut out);
        j += 1;
    }
    assert(prio@.take(prio@.len() as int) =~= prio@);
    if out.len() == 0 {
        assert(out@.map_values(|i: usize| i as int).len() == 0);
        Err(SpawnError::NoChannelAvailable)
    } else {
        Ok(out)
    }
}

} // verus!
