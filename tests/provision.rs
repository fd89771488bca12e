use flota::provision::{
    find_lease, Action, Event, Lease, Poll, PollAction, Provision, RetryPolicy, Stage,
};

fn lease(mac: &str, ip: &str) -> Lease {
    Lease { mac: mac.to_string(), ipaddr: ip.to_string(), prefix: 24 }
}

#[test]
fn lease_on_fifth_attempt_stops_polling() {
    let mut poll = Poll::new(RetryPolicy { max_attempts: 20, interval_secs: 3 });
    let mut sleeps = 0;
    let mut found = None;
    for attempt in 1..=20 {
        let leases = if attempt >= 5 { vec![lease("52:54:00:aa", "10.0.0.5")] } else { vec![] };
        let hit = find_lease(&leases, &"52:54:00:aa".to_string());
        match poll.on_attempt(hit.is_some()) {
            PollAction::Done => {
                found = Some(leases[hit.unwrap()].ipaddr.clone());
                break;
            }
            PollAction::Retry(s) => {
                assert_eq!(s, 3);
                sleeps += 1;
            }
            PollAction::Exhausted => break,
        }
    }
    assert_eq!(found.as_deref(), Some("10.0.0.5"));
    assert_eq!(sleeps, 4);
    assert_eq!(poll.attempts, 5);
}

#[test]
fn poll_exhausts_budget() {
    let mut poll = Poll::new(RetryPolicy { max_attempts: 3, interval_secs: 1 });
    assert_eq!(poll.on_attempt(false), PollAction::Retry(1));
    assert_eq!(poll.on_attempt(false), PollAction::Retry(1));
    assert_eq!(poll.on_attempt(false), PollAction::Exhausted);
}

#[test]
fn find_lease_takes_first_match() {
    let leases = vec![lease("a", "10.0.0.1"), lease("b", "10.0.0.2"), lease("b", "10.0.0.3")];
    assert_eq!(find_lease(&leases, &"b".to_string()), Some(1));
    assert_eq!(find_lease(&leases, &"c".to_string()), None);
    assert_eq!(find_lease(&vec![], &"a".to_string()), None);
}

fn machine() -> Provision {
    Provision::new(
        RetryPolicy { max_attempts: 20, interval_secs: 3 },
        RetryPolicy { max_attempts: 10, interval_secs: 3 },
    )
}

#[test]
fn provisioning_happy_path() {
    let mut p = machine();
    assert_eq!(p.step(Event::Start), Action::Boot);
    assert_eq!(p.step(Event::Booted(true)), Action::ProbeChannel(0));
    assert_eq!(p.stage, Stage::WaitingForChannel);
    assert_eq!(p.step(Event::ChannelProbed(false)), Action::ProbeChannel(3));
    assert_eq!(p.step(Event::ChannelProbed(true)), Action::Adapt);
    assert_eq!(p.stage, Stage::AdaptingNetwork);
    assert_eq!(p.step(Event::Adapted(false)), Action::RetryAdapt(3));
    assert_eq!(p.step(Event::Adapted(true)), Action::UpdateHosts);
    assert_eq!(p.stage, Stage::Ready);
    assert_eq!(p.step(Event::Start), Action::Ignore);
}

#[test]
fn boot_failure_is_terminal() {
    let mut p = machine();
    p.step(Event::Start);
    assert_eq!(p.step(Event::Booted(false)), Action::Abort);
    assert_eq!(p.stage, Stage::Failed);
    assert_eq!(p.step(Event::Booted(true)), Action::Ignore);
    assert_eq!(p.stage, Stage::Failed);
}

#[test]
fn channel_wait_is_bounded() {
    let mut p = machine();
    p.step(Event::Start);
    p.step(Event::Booted(true));
    for _ in 0..19 {
        assert_eq!(p.step(Event::ChannelProbed(false)), Action::ProbeChannel(3));
    }
    assert_eq!(p.step(Event::ChannelProbed(false)), Action::Abort);
    assert_eq!(p.stage, Stage::Failed);
}

#[test]
fn adaptation_retry_is_bounded() {
    let mut p = machine();
    p.step(Event::Start);
    p.step(Event::Booted(true));
    p.step(Event::ChannelProbed(true));
    for _ in 0..9 {
        assert_eq!(p.step(Event::Adapted(false)), Action::RetryAdapt(3));
    }
    assert_eq!(p.step(Event::Adapted(false)), Action::Abort);
    assert_eq!(p.stage, Stage::Failed);
}
