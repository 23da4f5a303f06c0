use deltaver::package::{Date, Package};
use deltaver::parsed_reqs::outcome_of;
use deltaver::parsers::DependencyRef;
use deltaver::registry::{
    next_step, parse_upload_time, release_date_in, release_day_from_uploads, ErrorKind, FetchEvent,
    Release, Step, TransientKind, UploadTime,
};

fn release(version: &str, times: &[&str]) -> Release {
    Release {
        version: version.to_string(),
        upload_times: times.iter().map(|t| t.to_string()).collect(),
    }
}

#[test]
fn naive_timestamp_is_read_as_utc() {
    let t = parse_upload_time("2023-09-11T15:41:23").unwrap();
    assert_eq!(t.seconds, 1694446883);
    assert_eq!(t.day, 738774);
}

#[test]
fn rfc3339_timestamp_keeps_its_own_date() {
    let t = parse_upload_time("2023-09-10T23:30:00-05:00").unwrap();
    assert_eq!(t.seconds, 1694406600);
    assert_eq!(t.day, 738773);
}

#[test]
fn unreadable_timestamp_is_rejected() {
    assert_eq!(parse_upload_time("yesterday"), None);
    let rels = vec![release("1.0", &["not a time"])];
    assert_eq!(release_date_in(&rels, "1.0"), Err(ErrorKind::InvalidReleaseTimestamp));
}

#[test]
fn latest_upload_wins_by_instant() {
    // Later as text, earlier as an instant.
    let rels = vec![release(
        "1.0",
        &["2023-09-11T01:00:00+05:00", "2023-09-10T22:00:00Z"],
    )];
    let d = release_date_in(&rels, "1.0").unwrap();
    assert_eq!(d.days_from_ce, 738773);
}

#[test]
fn version_is_matched_exactly() {
    let rels = vec![release("1.0.0", &["2023-09-11T15:41:23"])];
    assert_eq!(release_date_in(&rels, "1.0"), Err(ErrorKind::VersionNotFound));
    assert_eq!(release_date_in(&rels, "1.0.0"), Ok(Date { days_from_ce: 738774 }));
    let empty = vec![release("2.0", &[])];
    assert_eq!(release_date_in(&empty, "2.0"), Err(ErrorKind::NoUploadRecords));
}

#[test]
fn release_day_from_parsed_uploads() {
    let a = UploadTime { seconds: 10, nanos: 0, day: 1 };
    let b = UploadTime { seconds: 10, nanos: 5, day: 2 };
    assert_eq!(release_day_from_uploads(&vec![Some(a), Some(b)]), Ok(Date { days_from_ce: 2 }));
    assert_eq!(release_day_from_uploads(&vec![Some(b), Some(a)]), Ok(Date { days_from_ce: 2 }));
    assert_eq!(
        release_day_from_uploads(&vec![Some(a), None]),
        Err(ErrorKind::InvalidReleaseTimestamp)
    );
    assert_eq!(release_day_from_uploads(&vec![]), Err(ErrorKind::NoUploadRecords));
}

#[test]
fn two_timeouts_then_success() {
    let mut delays = Vec::new();
    let mut attempt = 1;
    let events = vec![
        FetchEvent::Transient(TransientKind::Timeout),
        FetchEvent::Transient(TransientKind::Timeout),
        FetchEvent::Body(vec![release("0.25.0", &["2023-09-11T15:41:23"])]),
    ];
    let mut result = None;
    for event in &events {
        match next_step(attempt, "0.25.0", event) {
            Step::Retry { delay_ms } => {
                delays.push(delay_ms);
                attempt += 1;
            }
            Step::Finish(r) => {
                result = Some(r);
                break;
            }
        }
    }
    assert_eq!(delays, vec![200, 400]);
    assert_eq!(result, Some(Ok(Date { days_from_ce: 738774 })));
}

#[test]
fn transient_failure_on_last_attempt_is_final() {
    assert_eq!(
        next_step(3, "1", &FetchEvent::Transient(TransientKind::Connect)),
        Step::Finish(Err(ErrorKind::RegistryUnavailable(TransientKind::Connect)))
    );
}

#[test]
fn http_error_is_not_retried() {
    assert_eq!(
        next_step(1, "1", &FetchEvent::HttpStatus(404)),
        Step::Finish(Err(ErrorKind::RegistryHttpError(404)))
    );
}

#[test]
fn resolving_twice_gives_the_same_day() {
    let rels = vec![release("1.0", &["2023-09-11T15:41:23", "2023-09-12T00:00:00"])];
    assert_eq!(release_date_in(&rels, "1.0"), release_date_in(&rels, "1.0"));
}

#[test]
fn outcome_tags_failures_with_the_dependency() {
    let dep = DependencyRef { name: "a".to_string(), version: "1".to_string() };
    match outcome_of(dep, Err(ErrorKind::VersionNotFound)) {
        Err(e) => {
            assert_eq!(e.name, "a");
            assert_eq!(e.version, "1");
            assert_eq!(e.kind, ErrorKind::VersionNotFound);
        }
        Ok(_) => panic!("expected a failure"),
    }
    let dep = DependencyRef { name: "b".to_string(), version: "2.0rc1".to_string() };
    let p: Package = outcome_of(dep, Ok(Date { days_from_ce: 5 })).unwrap();
    assert_eq!(p.release_date.days_from_ce, 5);
    assert!(p.is_prerealese());
}

#[test]
fn missing_key_fails_on_first_answer() {
    let answer = FetchEvent::Body(vec![release("1.0.0", &["2023-09-11T15:41:23"])]);
    assert_eq!(
        next_step(1, "1.0", &answer),
        Step::Finish(Err(ErrorKind::VersionNotFound))
    );
}

#[test]
fn key_found_wherever_it_stands() {
    let rels = vec![
        release("0.9", &["2020-01-01T00:00:00"]),
        release("1.0", &["2023-09-11T15:41:23"]),
    ];
    assert_eq!(release_date_in(&rels, "1.0"), Ok(Date { days_from_ce: 738774 }));
}
