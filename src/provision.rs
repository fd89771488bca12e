//! Bringing a host up: boot, wait for a channel, adapt its network, with
//! bounded retries at fixed spacing.
use vstd::prelude::*;

verus! {

/// How often a step is tried, and how long to wait between two tries.
#[derive(PartialEq, Eq, Structural, Clone, Copy, Debug)]
pub struct RetryPolicy {
    pub max_attempts: u32,
    pub interval_secs: u32,
}

/// What to do after one try of a bounded retry.
#[derive(PartialEq, Eq, Structural, Clone, Copy, Debug)]
pub enum PollAction {
    /// The try succeeded: stop polling.
    Done,
    /// The try failed: sleep this many seconds, then try again.
    Retry(u32),
    /// The try failed and the budget is spent.
    Exhausted,
}

/// A bounded retry in progress: `attempts` tries made so far.
#[derive(PartialEq, Eq, Structural, Clone, Copy, Debug)]
pub struct Poll {
    pub policy: RetryPolicy,
    pub attempts: u32,
}

/// The decision after a try, given the tries made before it.
pub open spec fn poll_decision(policy: RetryPolicy, attempts: int, succeeded: bool) -> PollAction {
    if succeeded {
        PollAction::Done
    } else if attempts + 1 < policy.max_attempts {
        PollAction::Retry(policy.interval_secs)
    } else {
        PollAction::Exhausted
    }
}

/// The decisions taken over a run of tries whose outcomes are `outcomes`,
/// up to and including the one that stops the poll.
pub open spec fn poll_run(policy: RetryPolicy, attempts: int, outcomes: Seq<bool>) -> Seq<
    PollAction,
>
    decreases outcomes.len(),
{
    if outcomes.len() == 0 {
        seq![]
    } else {
        let act = poll_decision(policy, attempts, outcomes[0]);
        if act is Retry {
            seq![act] + poll_run(policy, attempts + 1, outcomes.drop_first())
        } else {
            seq![act]
        }
    }
}

impl Poll {
    /// A poll with no try made yet.
    pub fn new(policy: RetryPolicy) -> (r: Poll)
        ensures
            r.policy == policy,
            r.attempts == 0,
    {
        Poll { policy, attempts: 0 }
    }

    /// Records the outcome of one try and says what to do next.
    pub fn on_attempt(&mut self, succeeded: bool) -> (r: PollAction)
        requires
            old(self).attempts < old(self).policy.max_attempts,
        ensures
            r == poll_decision(old(self).policy, old(self).attempts as int, succeeded),
            final(self).policy == old(self).policy,
            final(self).attempts == old(self).attempts + 1,
    {
        self.attempts = self.attempts + 1;
        if succeeded {
            PollAction::Done
        } else if self.attempts < self.policy.max_attempts {
            PollAction::Retry(self.policy.interval_secs)
        } else {
            PollAction::Exhausted
        }
    }
}

/// A poll whose first success comes at try `j` (counting from zero), within
/// the budget, sleeps the policy's interval after each of the `j` failed
/// tries and stops at once on the success: no sleep follows it.
pub proof fn lemma_poll_stops_on_success(policy: RetryPolicy, outcomes: Seq<bool>, j: int)
    requires
        0 <= j < outcomes.len(),
        j < policy.max_attempts,
        outcomes[j],
        forall|i: int| 0 <= i < j ==> !outcomes[i],
    ensures
        poll_run(policy, 0, outcomes) == Seq::new(j as nat, |i: int| PollAction::Retry(policy.interval_secs)).push(
            PollAction::Done,
        ),
{
    lemma_poll_run_from(policy, 0, outcomes, j);
}

proof fn lemma_poll_run_from(policy: RetryPolicy, start: int, outcomes: Seq<bool>, j: int)
    requires
        0 <= start,
        0 <= j < outcomes.len(),
        start + j < policy.max_attempts,
        outcomes[j],
        forall|i: int| 0 <= i < j ==> !outcomes[i],
    ensures
        poll_run(policy, start, outcomes) == Seq::new(j as nat, |i: int| PollAction::Retry(policy.interval_secs)).push(
            PollAction::Done,
        ),
    decreases j,
{
    if j > 0 {
        let rest = outcomes.drop_first();
        assert forall|i: int| 0 <= i < j - 1 implies !rest[i] by {
            assert(rest[i] == outcomes[i + 1]);
        }
        lemma_poll_run_from(policy, start + 1, rest, j - 1);
        assert(poll_run(policy, start, outcomes) =~= Seq::new(j as nat, |i: int| PollAction::Retry(policy.interval_secs)).push(
            PollAction::Done,
        ));
    } else {
        assert(poll_run(policy, start, outcomes) =~= Seq::new(0, |i: int| PollAction::Retry(policy.interval_secs)).push(
            PollAction::Done,
        ));
    }
}


/// One entry of a network's DHCP lease table.
pub struct Lease {
    pub mac: String,
    pub ipaddr: String,
    pub prefix: u32,
}

/// The first lease bound to `mac`, if any.
pub fn find_lease(leases: &Vec<Lease>, mac: &String) -> (r: Option<usize>)
    ensures
        r matches Some(i) ==> i < leases@.len() && leases@[i as int].mac@ == mac@ && forall|j: int|
            0 <= j < i ==> leases@[j].mac@ != mac@,
        r is None ==> forall|j: int| 0 <= j < leases@.len() ==> leases@[j].mac@ != mac@,
{
    let mut i: usize = 0;
    while i < leases.len()
        invariant
            0 <= i <= leases@.len(),
            forall|j: int| 0 <= j < i ==> leases@[j].mac@ != mac@,
        decreases leases@.len() - i,
    {
        if leases[i].mac == *mac {
            return Some(i);
        }
        i += 1;
    }
    None
}

/// Where a host's provisioning stands.
#[derive(PartialEq, Eq, Structural, Clone, Copy, Debug)]
pub enum Stage {
    NotBooted,
    Booting,
    WaitingForChannel,
    AdaptingNetwork,
    Ready,
    Failed,
}

/// What was observed since the last step.
#[derive(PartialEq, Eq, Structural, Clone, Copy, Debug)]
pub enum Event {
    /// Provisioning is asked for.
    Start,
    /// The networks, the volume and the domain are up, or not.
    Booted(bool),
    /// A lease was found for the management interface and a channel was
    /// spawned at its address, or not.
    ChannelProbed(bool),
    /// The network adaptation over the live channel succeeded, or not.
    Adapted(bool),
}

/// What the caller is to do next.
#[derive(PartialEq, Eq, Structural, Clone, Copy, Debug)]
pub enum Action {
    /// Ensure the networks and the volume, and boot the domain.
    Boot,
    /// Sleep this many seconds, then look up the lease and spawn a channel.
    ProbeChannel(u32),
    /// Adapt the guest's network over the live channel.
    Adapt,
    /// Sleep this many seconds, re-resolve a channel and adapt again.
    RetryAdapt(u32),
    /// Record the guest's addresses in the local hosts mapping: the host is ready.
    UpdateHosts,
    /// Give up: the host, and its cluster, fail.
    Abort,
    /// The event does not apply in this stage: nothing to do.
    Ignore,
}

/// A host's provisioning: its stage and the two retry budgets.
#[derive(PartialEq, Eq, Structural, Clone, Copy, Debug)]
pub struct Provision {
    pub stage: Stage,
    pub wait: Poll,
    pub adapt: Poll,
}

/// The retry budgets are consistent: no more tries than allowed, and none
/// left unspent in a stage that has not been reached.
pub open spec fn provision_wf(p: Provision) -> bool {
    &&& p.wait.attempts <= p.wait.policy.max_attempts
    &&& p.adapt.attempts <= p.adapt.policy.max_attempts
    &&& (p.stage == Stage::NotBooted || p.stage == Stage::Booting ==> p.wait.attempts == 0)
    &&& (p.stage == Stage::NotBooted || p.stage == Stage::Booting || p.stage
        == Stage::WaitingForChannel ==> p.adapt.attempts == 0)
    &&& (p.stage == Stage::WaitingForChannel ==> p.wait.attempts < p.wait.policy.max_attempts)
    &&& (p.stage == Stage::AdaptingNetwork ==> p.adapt.attempts < p.adapt.policy.max_attempts)
}

/// The next provisioning state and action, given an event.
pub open spec fn provision_step(p: Provision, e: Event) -> (Provision, Action) {
    match (p.stage, e) {
        (Stage::NotBooted, Event::Start) => (Provision { stage: Stage::Booting, ..p }, Action::Boot),
        (Stage::Booting, Event::Booted(ok)) => if !ok {
            (Provision { stage: Stage::Failed, ..p }, Action::Abort)
        } else if p.wait.policy.max_attempts == 0 {
            (Provision { stage: Stage::Failed, ..p }, Action::Abort)
        } else {
            (Provision { stage: Stage::WaitingForChannel, ..p }, Action::ProbeChannel(0))
        },
        (Stage::WaitingForChannel, Event::ChannelProbed(ok)) => {
            let wait = Poll { attempts: (p.wait.attempts + 1) as u32, ..p.wait };
            match poll_decision(p.wait.policy, p.wait.attempts as int, ok) {
                PollAction::Done => if p.adapt.policy.max_attempts == 0 {
                    (Provision { stage: Stage::Failed, wait, ..p }, Action::Abort)
                } else {
                    (Provision { stage: Stage::AdaptingNetwork, wait, ..p }, Action::Adapt)
                },
                PollAction::Retry(s) => (Provision { wait, ..p }, Action::ProbeChannel(s)),
                PollAction::Exhausted => (
                    Provision { stage: Stage::Failed, wait, ..p },
                    Action::Abort,
                ),
            }
        },
        (Stage::AdaptingNetwork, Event::Adapted(ok)) => {
            let adapt = Poll { attempts: (p.adapt.attempts + 1) as u32, ..p.adapt };
            match poll_decision(p.adapt.policy, p.adapt.attempts as int, ok) {
                PollAction::Done => (
                    Provision { stage: Stage::Ready, adapt, ..p },
                    Action::UpdateHosts,
                ),
                PollAction::Retry(s) => (Provision { adapt, ..p }, Action::RetryAdapt(s)),
                PollAction::Exhausted => (
                    Provision { stage: Stage::Failed, adapt, ..p },
                    Action::Abort,
                ),
            }
        },
        _ => (p, Action::Ignore),
    }
}

impl Provision {
    /// A host not yet booted, with the budgets for waiting on a channel and
    /// for retrying the network adaptation.
    pub fn new(wait: RetryPolicy, adapt: RetryPolicy) -> (r: Provision)
        ensures
            r.stage == Stage::NotBooted,
            r.wait == Poll::new_spec(wait),
            r.adapt == Poll::new_spec(adapt),
            provision_wf(r),
    {
        Provision { stage: Stage::NotBooted, wait: Poll::new(wait), adapt: Poll::new(adapt) }
    }

    /// Takes one event and says what to do next.
    pub fn step(&mut self, event: Event) -> (r: Action)
        requires
            provision_wf(*old(self)),
        ensures
            (*final(self), r) == provision_step(*old(self), event),
            provision_wf(*final(self)),
    {
        match (self.stage, event) {
            (Stage::NotBooted, Event::Start) => {
                self.stage = Stage::Booting;
                Action::Boot
            },
            (Stage::Booting, Event::Booted(ok)) => {
                if !ok || self.wait.policy.max_attempts == 0 {
                    self.stage = Stage::Failed;
                    Action::Abort
                } else {
                    self.stage = Stage::WaitingForChannel;
                    Action::ProbeChannel(0)
                }
            },
            (Stage::WaitingForChannel, Event::ChannelProbed(ok)) => {
                match self.wait.on_attempt(ok) {
                    PollAction::Done => {
                        if self.adapt.policy.max_attempts == 0 {
                            self.stage = Stage::Failed;
                            Action::Abort
                        } else {
                            self.stage = Stage::AdaptingNetwork;
                            Action::Adapt
                        }
                    },
                    PollAction::Retry(s) => Action::ProbeChannel(s),
                    PollAction::Exhausted => {
                        self.stage = Stage::Failed;
                        Action::Abort
                    },
                }
            },
            (Stage::AdaptingNetwork, Event::Adapted(ok)) => {
                match self.adapt.on_attempt(ok) {
                    PollAction::Done => {
                        self.stage = Stage::Ready;
                        Action::UpdateHosts
                    },
                    PollAction::Retry(s) => Action::RetryAdapt(s),
                    PollAction::Exhausted => {
                        self.stage = Stage::Failed;
                        Action::Abort
                    },
                }
            },
            _ => Action::Ignore,
        }
    }
}

impl Poll {
    pub open spec fn new_spec(policy: RetryPolicy) -> Poll {
        Poll { policy, attempts: 0 }
    }
}

/// Ready and Failed are final: no event leaves them, and none asks for work.
pub proof fn lemma_terminal_stages(p: Provision, e: Event)
    requires
        p.stage == Stage::Ready || p.stage == Stage::Failed,
    ensures
        provision_step(p, e) == (p, Action::Ignore),
{
}

/// Every step keeps the tries within their budgets.
pub proof fn lemma_step_within_budget(p: Provision, e: Event)
    requires
        provision_wf(p),
    ensures
        provision_wf(provision_step(p, e).0),
        provision_step(p, e).0.wait.attempts <= p.wait.policy.max_attempts,
        provision_step(p, e).0.adapt.attempts <= p.adapt.policy.max_attempts,
{
}

} // verus!
