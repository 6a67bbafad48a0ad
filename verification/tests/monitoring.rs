use turnon_net::addr::{IpAddress, Ipv4Address};
use turnon_net::monitor::{absorbed_candidates, resolved_candidates, Monitor, ResolveError, RoundPlan};
use turnon_net::probe::{ProbeError, ProbeSession};
use turnon_net::target::Target;

fn bytes(text: &str) -> Vec<u8> {
    text.as_bytes().to_vec()
}

fn v4(o0: u8, o1: u8, o2: u8, o3: u8) -> IpAddress {
    IpAddress::V4(Ipv4Address { o0, o1, o2, o3 })
}

#[test]
fn first_round_fires_at_once() {
    let mut m = Monitor::new(Target::parse(bytes("127.0.0.1")), 1000);
    assert_eq!(m.delay_before_next_round(), 0);
    m.begin_round();
    m.finish_round(None);
    assert_eq!(m.delay_before_next_round(), 1000);
    m.begin_round();
    m.finish_round(Some(v4(127, 0, 0, 1)));
    assert_eq!(m.delay_before_next_round(), 1000);
}

#[test]
fn failed_round_is_false_and_clears_cache() {
    let mut m = Monitor::new(Target::parse(bytes("127.0.0.1")), 500);
    match m.begin_round() {
        RoundPlan::Probe(v) => assert_eq!(v, vec![v4(127, 0, 0, 1)]),
        RoundPlan::Resolve(_) => panic!("a literal target needs no resolution"),
    }
    assert!(!m.finish_round(None));
    assert_eq!(m.cached, None);
    // The next round starts from the target again, not from a stale cache.
    match m.begin_round() {
        RoundPlan::Probe(v) => assert_eq!(v, vec![v4(127, 0, 0, 1)]),
        RoundPlan::Resolve(_) => panic!("a literal target needs no resolution"),
    }
}

#[test]
fn empty_resolution_is_a_false_round() {
    let mut m = Monitor::new(Target::parse(bytes("sleeper.example")), 500);
    let name = match m.begin_round() {
        RoundPlan::Resolve(name) => name,
        RoundPlan::Probe(_) => panic!("a name must be resolved first"),
    };
    assert_eq!(name, bytes("sleeper.example"));
    let outcome = resolved_candidates(Some(Vec::new()));
    assert_eq!(outcome, Err(ResolveError::NotFound));
    let candidates = absorbed_candidates(outcome);
    assert!(candidates.is_empty());
    assert!(!m.finish_round(None));
    assert_eq!(m.cached, None);
}

#[test]
fn resolver_failure_is_distinct_from_empty() {
    assert_eq!(resolved_candidates(None), Err(ResolveError::ResolutionFailed));
    let two = vec![v4(10, 0, 0, 1), v4(10, 0, 0, 2)];
    assert_eq!(resolved_candidates(Some(two.clone())), Ok(two));
}

#[test]
fn probe_loopback_with_nothing_listening() {
    // A probe of 127.0.0.1 where no reply ever arrives: the wait for
    // read-readiness fails, and the round comes out false.
    let mut m = Monitor::new(Target::parse(bytes("127.0.0.1")), 250);
    let candidates = match m.begin_round() {
        RoundPlan::Probe(v) => v,
        RoundPlan::Resolve(_) => panic!("a literal target needs no resolution"),
    };
    let mut session = ProbeSession::start(&candidates[0]);
    session.on_socket(true);
    session.on_writable(true);
    let request = session.request();
    assert_eq!(request.len(), 56);
    session.on_sent(request.len());
    session.on_readable(false);
    assert!(session.finished());
    assert_eq!(session.outcome(), Some(Err(ProbeError::NotReadable)));
    assert!(!m.finish_round(None));
    assert_eq!(m.cached, None);
}

#[test]
fn probe_loopback_with_unexpected_reply() {
    let addr = v4(127, 0, 0, 1);
    let mut session = ProbeSession::start(&addr);
    session.on_socket(true);
    session.on_writable(true);
    session.on_sent(56);
    session.on_readable(true);
    // The stack mirrors our own request back: type 8 is not a reply.
    let mut echoed = vec![0u8; 56];
    echoed[0] = 8;
    session.on_reply(&echoed);
    assert_eq!(session.outcome(), Some(Err(ProbeError::UnexpectedReply)));
}

#[test]
fn probe_error_steps() {
    let addr = v4(192, 168, 1, 9);
    let mut no_socket = ProbeSession::start(&addr);
    no_socket.on_socket(false);
    assert_eq!(no_socket.outcome(), Some(Err(ProbeError::SocketSetup)));

    let mut not_writable = ProbeSession::start(&addr);
    not_writable.on_socket(true);
    not_writable.on_writable(false);
    assert_eq!(not_writable.outcome(), Some(Err(ProbeError::NotWritable)));

    let mut short_write = ProbeSession::start(&addr);
    short_write.on_socket(true);
    short_write.on_writable(true);
    short_write.on_sent(20);
    assert_eq!(short_write.outcome(), Some(Err(ProbeError::ShortWrite)));

    let mut short_read = ProbeSession::start(&addr);
    short_read.on_socket(true);
    short_read.on_writable(true);
    short_read.on_sent(56);
    short_read.on_readable(true);
    short_read.on_reply(&vec![0u8; 40]);
    assert_eq!(short_read.outcome(), Some(Err(ProbeError::ShortRead)));
}

#[test]
fn second_address_wins_the_race() {
    // A name resolves to two addresses; the second replies first, so it
    // wins the race, the round is true, and it is cached for the next round.
    let mut m = Monitor::new(Target::parse(bytes("two-homed.example")), 1000);
    let name = match m.begin_round() {
        RoundPlan::Resolve(name) => name,
        RoundPlan::Probe(_) => panic!("a name must be resolved first"),
    };
    assert_eq!(name, bytes("two-homed.example"));
    let first = v4(10, 0, 0, 1);
    let second = v4(10, 0, 0, 2);
    let candidates = absorbed_candidates(resolved_candidates(Some(vec![first, second])));
    assert_eq!(candidates.len(), 2);

    // The second candidate's probe completes first with a valid reply.
    let mut winner_session = ProbeSession::start(&candidates[1]);
    winner_session.on_socket(true);
    winner_session.on_writable(true);
    winner_session.on_sent(56);
    winner_session.on_readable(true);
    winner_session.on_reply(&vec![0u8; 56]);
    assert_eq!(winner_session.outcome(), Some(Ok(())));

    assert!(m.finish_round(Some(second)));
    assert_eq!(m.cached, Some(second));

    // The cached winner is the next round's only candidate.
    match m.begin_round() {
        RoundPlan::Probe(v) => assert_eq!(v, vec![second]),
        RoundPlan::Resolve(_) => panic!("a cached address needs no resolution"),
    }
}
