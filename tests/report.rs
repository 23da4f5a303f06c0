use deltaver::cli::{Cli, Formats};
use deltaver::config::{Config, DeltaverConfig};
use deltaver::package::{Date, Package};
use deltaver::registry::ErrorKind;
use deltaver::staleness::{aggregate, Mean, PackageError, StalenessReport};
use deltaver::threshold::{evaluate, Thresholds, Verdict, ViolatedLimit};

const REFERENCE: i32 = 738800;

fn resolved(name: &str, days_late: i32) -> Result<Package, PackageError> {
    Ok(Package::new(
        name.to_string(),
        "1.0".to_string(),
        Date::from_days_from_ce(REFERENCE - days_late),
    ))
}

fn failed(name: &str, kind: ErrorKind) -> Result<Package, PackageError> {
    Err(PackageError { name: name.to_string(), version: "1.0".to_string(), kind })
}

fn report(outcomes: &Vec<Result<Package, PackageError>>, excluded: &[&str]) -> StalenessReport {
    let excluded: Vec<String> = excluded.iter().map(|s| s.to_string()).collect();
    aggregate(outcomes, &excluded, Date::from_days_from_ce(REFERENCE))
}

fn mean_value(m: Mean) -> f64 {
    m.total as f64 / m.count as f64
}

#[test]
fn aggregation_over_three_packages() {
    let outs = vec![resolved("a", 5), resolved("b", 10), resolved("c", 15)];
    let r = report(&outs, &[]);
    assert_eq!(mean_value(r.average_days_late.unwrap()), 10.0);
    assert_eq!(r.max_days_late, Some(15));
    assert_eq!(r.per_package.len(), 3);
    let r = report(&outs, &["c"]);
    assert_eq!(mean_value(r.average_days_late.unwrap()), 7.5);
    assert_eq!(r.max_days_late, Some(10));
    assert_eq!(r.per_package, vec![("a".to_string(), 5), ("b".to_string(), 10)]);
    assert_eq!(r.excluded, vec!["c".to_string()]);
}

#[test]
fn threshold_on_average() {
    let outs = vec![resolved("a", 5), resolved("b", 10), resolved("c", 15)];
    let r = report(&outs, &[]);
    match evaluate(&r, &Thresholds { max_avg_days: Some(9), max_single_days: None }) {
        Verdict::Fail(v) => {
            assert_eq!(v.len(), 1);
            match &v[0] {
                ViolatedLimit::Average { mean, limit } => {
                    assert_eq!(mean_value(*mean), 10.0);
                    assert_eq!(*limit, 9);
                }
                _ => panic!("expected the average to be named"),
            }
        }
        _ => panic!("expected a failure"),
    }
    assert!(matches!(
        evaluate(&r, &Thresholds { max_avg_days: Some(11), max_single_days: None }),
        Verdict::Pass { no_data: false }
    ));
}

#[test]
fn threshold_on_single_package() {
    let outs = vec![resolved("a", 5), resolved("b", 10), resolved("c", 15)];
    let r = report(&outs, &[]);
    match evaluate(&r, &Thresholds { max_avg_days: None, max_single_days: Some(9) }) {
        Verdict::Fail(v) => {
            let names: Vec<(String, i64)> = v
                .into_iter()
                .map(|l| match l {
                    ViolatedLimit::Single { name, days_late, limit } => {
                        assert_eq!(limit, 9);
                        (name, days_late)
                    }
                    _ => panic!("expected single-package limits"),
                })
                .collect();
            assert_eq!(names, vec![("b".to_string(), 10), ("c".to_string(), 15)]);
        }
        _ => panic!("expected a failure"),
    }
}

#[test]
fn empty_report_has_no_statistics_and_passes() {
    let outs = vec![failed("a", ErrorKind::VersionNotFound), resolved("b", 3)];
    let r = report(&outs, &["b"]);
    assert_eq!(r.average_days_late, None);
    assert_eq!(r.max_days_late, None);
    assert!(matches!(
        evaluate(&r, &Thresholds { max_avg_days: Some(0), max_single_days: Some(0) }),
        Verdict::Pass { no_data: true }
    ));
    assert!(matches!(
        evaluate(&r, &Thresholds { max_avg_days: None, max_single_days: None }),
        Verdict::Pass { no_data: false }
    ));
}

#[test]
fn failures_do_not_disturb_other_packages() {
    let outs = vec![
        failed("a", ErrorKind::RegistryHttpError(500)),
        resolved("b", 7),
        failed("c", ErrorKind::InvalidReleaseTimestamp),
    ];
    let r = report(&outs, &[]);
    assert_eq!(r.per_package, vec![("b".to_string(), 7)]);
    assert_eq!(r.failed.len(), 2);
    assert_eq!(r.failed[0].name, "a");
    assert_eq!(r.failed[1].kind, ErrorKind::InvalidReleaseTimestamp);
    assert_eq!(r.max_days_late, Some(7));
}

#[test]
fn release_after_reference_is_negative() {
    let outs = vec![resolved("a", -4)];
    let r = report(&outs, &[]);
    assert_eq!(r.per_package, vec![("a".to_string(), -4)]);
    assert_eq!(r.average_days_late, Some(Mean { total: -4, count: 1 }));
}

#[test]
fn command_line_wins_over_file() {
    let cli = Cli {
        path_to_file: "requirements.txt".to_string(),
        file_format: Formats::PipFreeze,
        fail_on_average: Some(3),
        fail_on_max: None,
        exclude_deps: vec![],
    };
    let file = DeltaverConfig {
        path_to_file: None,
        file_format: None,
        excluded: Some(vec!["x".to_string()]),
        fail_on_avg: Some(30),
        fail_on_max: Some(60),
    };
    let cfg = Config::from_cli(&cli, Some(file));
    assert_eq!(cfg.fail_on_avg, Some(3));
    assert_eq!(cfg.fail_on_max, Some(60));
    assert_eq!(cfg.excluded, vec!["x".to_string()]);
    assert_eq!(cfg.path_to_file, "requirements.txt");
    let t = cfg.thresholds();
    assert_eq!(t, Thresholds { max_avg_days: Some(3), max_single_days: Some(60) });

    let cli = Cli { exclude_deps: vec!["y".to_string()], ..cli };
    let cfg = Config::from_cli(&cli, None);
    assert_eq!(cfg.excluded, vec!["y".to_string()]);
    assert_eq!(cfg.fail_on_max, None);
}

#[test]
fn statistics_ignore_arrival_order() {
    let first = vec![resolved("a", 5), failed("x", ErrorKind::VersionNotFound), resolved("b", 12)];
    let second = vec![resolved("b", 12), resolved("a", 5), failed("x", ErrorKind::VersionNotFound)];
    let r1 = report(&first, &[]);
    let r2 = report(&second, &[]);
    assert_eq!(r1.average_days_late, r2.average_days_late);
    assert_eq!(r1.max_days_late, Some(12));
    assert_eq!(r2.max_days_late, Some(12));
}
