use dyndns::reconciler::{Event, Phase, Reconciler, Request, Step};
use dyndns::record::{find_managed, DnsRecord, ErrorKind, Outcome, Target};
use dyndns::scheduler::{Command, Scheduler, DEFAULT_INTERVAL_SECS};

fn target() -> Target {
    Target { domain: "example.com".to_string(), subdomain: "home".to_string() }
}

fn record(id: u64, name: &str, kind: &str, value: &str) -> DnsRecord {
    DnsRecord {
        id,
        name: name.to_string(),
        kind: kind.to_string(),
        value: value.to_string(),
    }
}

fn ip(text: &str) -> Option<String> {
    Some(text.to_string())
}

/// Runs one cycle against canned answers and returns the requests made and
/// the outcome.
fn cycle(
    r: &mut Reconciler,
    resolved: Result<String, ErrorKind>,
    listed: Result<Vec<DnsRecord>, ErrorKind>,
    written: Result<(), ErrorKind>,
) -> (Vec<Request>, Outcome) {
    let mut requests = Vec::new();
    let mut resolved = Some(resolved);
    let mut listed = Some(listed);
    let mut written = Some(written);
    let mut step = r.step(Event::Start).unwrap();
    loop {
        let request = match step {
            Step::Done(outcome) => return (requests, outcome),
            Step::Call(request) => request,
        };
        let event = match &request {
            Request::ResolveIp => Event::Resolved(resolved.take().unwrap()),
            Request::ListRecords { .. } => Event::Listed(listed.take().unwrap()),
            Request::CreateRecord { .. } | Request::UpdateRecord { .. } => {
                Event::Written(written.take().unwrap())
            }
        };
        requests.push(request);
        step = r.step(event).unwrap();
    }
}

/// A reconciler that has applied `address` in a first cycle.
fn settled(address: &str) -> Reconciler {
    let mut r = Reconciler::new(target());
    let (_, outcome) = cycle(&mut r, Ok(address.to_string()), Ok(vec![]), Ok(()));
    assert_eq!(outcome, Outcome::Created(address.to_string()));
    assert_eq!(r.observed_ip(), ip(address));
    r
}

#[test]
fn first_cycle_creates_the_record() {
    let mut r = Reconciler::new(target());
    assert_eq!(r.observed_ip(), None);
    let (requests, outcome) = cycle(&mut r, Ok("203.0.113.5".to_string()), Ok(vec![]), Ok(()));
    assert_eq!(outcome, Outcome::Created("203.0.113.5".to_string()));
    assert_eq!(
        requests,
        vec![
            Request::ResolveIp,
            Request::ListRecords { domain: "example.com".to_string() },
            Request::CreateRecord {
                domain: "example.com".to_string(),
                kind: "A".to_string(),
                name: "home".to_string(),
                value: "203.0.113.5".to_string(),
            },
        ]
    );
    assert_eq!(r.observed_ip(), ip("203.0.113.5"));
    assert!(r.is_idle());
}

#[test]
fn same_address_is_unchanged_and_calls_no_provider() {
    let mut r = settled("203.0.113.5");
    let (requests, outcome) = cycle(
        &mut r,
        Ok("203.0.113.5".to_string()),
        Err(ErrorKind::Network),
        Err(ErrorKind::Network),
    );
    assert_eq!(outcome, Outcome::Unchanged);
    assert_eq!(requests, vec![Request::ResolveIp]);
    assert_eq!(r.observed_ip(), ip("203.0.113.5"));
}

#[test]
fn changed_address_updates_the_existing_record() {
    let mut r = settled("203.0.113.5");
    let listing = vec![record(42, "home", "A", "203.0.113.5")];
    let (requests, outcome) = cycle(&mut r, Ok("203.0.113.9".to_string()), Ok(listing), Ok(()));
    assert_eq!(outcome, Outcome::Updated("203.0.113.9".to_string()));
    assert_eq!(
        requests,
        vec![
            Request::ResolveIp,
            Request::ListRecords { domain: "example.com".to_string() },
            Request::UpdateRecord {
                domain: "example.com".to_string(),
                id: 42,
                value: "203.0.113.9".to_string(),
            },
        ]
    );
    assert_eq!(r.observed_ip(), ip("203.0.113.9"));
}

#[test]
fn resolver_failure_fails_the_cycle_and_the_loop_goes_on() {
    let mut s = Scheduler::new(target(), None);
    assert_eq!(s.advance(Event::Start), Some(Command::Call(Request::ResolveIp)));
    assert_eq!(
        s.advance(Event::Resolved(Err(ErrorKind::Network))),
        Some(Command::Wait {
            outcome: Outcome::Failed(ErrorKind::Network),
            seconds: DEFAULT_INTERVAL_SECS,
        })
    );
    assert_eq!(s.reconciler().observed_ip(), None);
    assert!(s.reconciler().is_idle());
    assert_eq!(s.advance(Event::Start), Some(Command::Call(Request::ResolveIp)));
}

#[test]
fn repeated_cycles_with_the_same_address_never_reach_the_store() {
    let mut r = settled("198.51.100.7");
    let before = r.clone();
    for _ in 0..5 {
        let (requests, outcome) =
            cycle(&mut r, Ok("198.51.100.7".to_string()), Ok(vec![]), Ok(()));
        assert_eq!(requests, vec![Request::ResolveIp]);
        assert_eq!(outcome, Outcome::Unchanged);
        assert_eq!(r, before);
    }
}

#[test]
fn a_change_makes_exactly_one_write() {
    let listings = vec![
        vec![],
        vec![record(1, "home", "A", "192.0.2.1")],
        vec![record(1, "home", "A", "192.0.2.1"), record(2, "home", "CNAME", "x")],
        vec![record(3, "www", "A", "192.0.2.1")],
    ];
    for listing in listings {
        let mut r = settled("192.0.2.1");
        let (requests, _) = cycle(&mut r, Ok("192.0.2.2".to_string()), Ok(listing), Ok(()));
        let writes = requests
            .iter()
            .filter(|q| {
                matches!(q, Request::CreateRecord { .. } | Request::UpdateRecord { .. })
            })
            .count();
        assert_eq!(writes, 1);
        assert_eq!(requests.len(), 3);
    }
}

#[test]
fn the_first_matching_record_is_the_one_updated() {
    let listing = vec![
        record(7, "www", "A", "192.0.2.1"),
        record(8, "home", "TXT", "note"),
        record(9, "home", "CNAME", "elsewhere.example.com"),
        record(10, "home", "A", "192.0.2.1"),
    ];
    assert_eq!(find_managed(&listing, &"home".to_string()), Some(2));
    let mut r = Reconciler::new(target());
    let (requests, outcome) = cycle(&mut r, Ok("192.0.2.2".to_string()), Ok(listing), Ok(()));
    assert_eq!(
        requests[2],
        Request::UpdateRecord {
            domain: "example.com".to_string(),
            id: 9,
            value: "192.0.2.2".to_string(),
        }
    );
    assert_eq!(outcome, Outcome::Updated("192.0.2.2".to_string()));
}

#[test]
fn a_listing_without_a_match_leads_to_a_creation() {
    let listing = vec![
        record(7, "www", "A", "192.0.2.1"),
        record(8, "home", "TXT", "note"),
        record(9, "home", "a", "192.0.2.1"),
        record(10, "Home", "A", "192.0.2.1"),
        record(11, "home", "AAAA", "2001:db8::1"),
    ];
    assert_eq!(find_managed(&listing, &"home".to_string()), None);
    assert_eq!(find_managed(&Vec::new(), &"home".to_string()), None);
    let mut r = Reconciler::new(target());
    let (requests, outcome) = cycle(&mut r, Ok("192.0.2.2".to_string()), Ok(listing), Ok(()));
    assert_eq!(
        requests[2],
        Request::CreateRecord {
            domain: "example.com".to_string(),
            kind: "A".to_string(),
            name: "home".to_string(),
            value: "192.0.2.2".to_string(),
        }
    );
    assert_eq!(outcome, Outcome::Created("192.0.2.2".to_string()));
}

#[test]
fn record_candidates_are_told_by_name_and_kind() {
    let host = "home".to_string();
    assert!(record(1, "home", "A", "").is_managed_for(&host));
    assert!(record(1, "home", "CNAME", "").is_managed_for(&host));
    assert!(!record(1, "home", "MX", "").is_managed_for(&host));
    assert!(!record(1, "home", "", "").is_managed_for(&host));
    assert!(!record(1, "homer", "A", "").is_managed_for(&host));
    assert!(!record(1, "", "A", "").is_managed_for(&host));
}

#[test]
fn a_failed_write_keeps_the_old_address_and_is_retried() {
    let mut r = settled("192.0.2.1");
    let listing = vec![record(5, "home", "A", "192.0.2.1")];
    let (first, outcome) = cycle(
        &mut r,
        Ok("192.0.2.2".to_string()),
        Ok(listing.clone()),
        Err(ErrorKind::NotFound),
    );
    assert_eq!(outcome, Outcome::Failed(ErrorKind::NotFound));
    assert_eq!(r.observed_ip(), ip("192.0.2.1"));
    assert!(r.is_idle());
    let (second, outcome) = cycle(&mut r, Ok("192.0.2.2".to_string()), Ok(listing), Ok(()));
    assert_eq!(second, first);
    assert!(matches!(second[2], Request::UpdateRecord { id: 5, .. }));
    assert_eq!(outcome, Outcome::Updated("192.0.2.2".to_string()));
    assert_eq!(r.observed_ip(), ip("192.0.2.2"));
}

#[test]
fn a_failed_creation_reports_the_conflict() {
    let mut r = Reconciler::new(target());
    let (requests, outcome) =
        cycle(&mut r, Ok("192.0.2.2".to_string()), Ok(vec![]), Err(ErrorKind::Conflict));
    assert_eq!(requests.len(), 3);
    assert_eq!(outcome, Outcome::Failed(ErrorKind::Conflict));
    assert_eq!(r.observed_ip(), None);
}

#[test]
fn a_failed_listing_makes_no_write() {
    let mut r = settled("192.0.2.1");
    let (requests, outcome) =
        cycle(&mut r, Ok("192.0.2.2".to_string()), Err(ErrorKind::Auth), Ok(()));
    assert_eq!(
        requests,
        vec![Request::ResolveIp, Request::ListRecords { domain: "example.com".to_string() }]
    );
    assert_eq!(outcome, Outcome::Failed(ErrorKind::Auth));
    assert_eq!(r.observed_ip(), ip("192.0.2.1"));
}

#[test]
fn a_parse_failure_ends_the_cycle() {
    let mut r = Reconciler::new(target());
    let (requests, outcome) = cycle(&mut r, Err(ErrorKind::Parse), Ok(vec![]), Ok(()));
    assert_eq!(requests, vec![Request::ResolveIp]);
    assert_eq!(outcome, Outcome::Failed(ErrorKind::Parse));
}

#[test]
fn events_out_of_turn_are_refused() {
    let mut r = Reconciler::new(target());
    assert_eq!(r.step(Event::Written(Ok(()))), None);
    assert_eq!(r.step(Event::Listed(Ok(vec![]))), None);
    assert_eq!(r.step(Event::Resolved(Ok("192.0.2.2".to_string()))), None);
    assert_eq!(*r.phase(), Phase::Idle);
    assert_eq!(r.step(Event::Start), Some(Step::Call(Request::ResolveIp)));
    assert_eq!(r.step(Event::Start), None);
    assert_eq!(*r.phase(), Phase::Resolving);
    assert!(r.step(Event::Resolved(Ok("192.0.2.2".to_string()))).is_some());
    assert_eq!(r.step(Event::Written(Ok(()))), None);
    assert_eq!(*r.phase(), Phase::Listing { ip: "192.0.2.2".to_string() });
    assert!(r.step(Event::Listed(Ok(vec![]))).is_some());
    assert_eq!(r.step(Event::Listed(Ok(vec![]))), None);
    assert_eq!(*r.phase(), Phase::Writing { ip: "192.0.2.2".to_string(), creating: true });
    assert_eq!(*r.target(), target());
}

#[test]
fn the_scheduler_waits_the_same_interval_after_every_outcome() {
    let mut s = Scheduler::new(target(), Some(60));
    assert_eq!(s.interval_secs(), 60);
    assert_eq!(s.advance(Event::Start), Some(Command::Call(Request::ResolveIp)));
    assert_eq!(
        s.advance(Event::Resolved(Ok("192.0.2.2".to_string()))),
        Some(Command::Call(Request::ListRecords { domain: "example.com".to_string() }))
    );
    assert!(matches!(
        s.advance(Event::Listed(Ok(vec![]))),
        Some(Command::Call(Request::CreateRecord { .. }))
    ));
    assert_eq!(
        s.advance(Event::Written(Ok(()))),
        Some(Command::Wait { outcome: Outcome::Created("192.0.2.2".to_string()), seconds: 60 })
    );
    assert_eq!(s.advance(Event::Written(Ok(()))), None);
    assert_eq!(s.advance(Event::Start), Some(Command::Call(Request::ResolveIp)));
    assert_eq!(
        s.advance(Event::Resolved(Ok("192.0.2.2".to_string()))),
        Some(Command::Wait { outcome: Outcome::Unchanged, seconds: 60 })
    );
    assert_eq!(s.advance(Event::Start), Some(Command::Call(Request::ResolveIp)));
    assert_eq!(
        s.advance(Event::Resolved(Err(ErrorKind::Network))),
        Some(Command::Wait { outcome: Outcome::Failed(ErrorKind::Network), seconds: 60 })
    );
}

#[test]
fn the_default_interval_is_five_minutes() {
    let s = Scheduler::new(target(), None);
    assert_eq!(DEFAULT_INTERVAL_SECS, 300);
    assert_eq!(s.interval_secs(), 300);
    assert_eq!(s.reconciler().observed_ip(), None);
}
