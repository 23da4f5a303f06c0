use deltaver::cli::Formats;
use deltaver::parsed_reqs::{create_parser, ParsedReqs};
use deltaver::parsers::{self, manifest_dependencies, ParseError, PLACEHOLDER_RELEASE_DAY};
use deltaver::{parse_dependency_line, Ecosystem, RequirementsParser};

#[test]
fn test_parse_dependency_line() {
    assert_eq!(
        parse_dependency_line("httpx==0.25.0"),
        Some(("httpx".to_string(), "0.25.0".to_string()))
    )
}

#[test]
fn parse_line_trims_name_and_version() {
    assert_eq!(
        parse_dependency_line("  requests ==  2.31.0 \r"),
        Some(("requests".to_string(), "2.31.0".to_string()))
    );
}

#[test]
fn parse_line_rejects_comments_blanks_and_bad_lines() {
    assert_eq!(parse_dependency_line("# comment"), None);
    assert_eq!(parse_dependency_line("   "), None);
    assert_eq!(parse_dependency_line(""), None);
    assert_eq!(parse_dependency_line("bad-line"), None);
    assert_eq!(parse_dependency_line("a==1==2"), None);
    assert_eq!(parse_dependency_line("==1.0"), None);
    assert_eq!(parse_dependency_line("pkg=="), None);
}

#[test]
fn parse_line_splits_at_first_separator() {
    assert_eq!(
        parse_dependency_line("a===b"),
        Some(("a".to_string(), "=b".to_string()))
    );
}

#[test]
fn manifest_keeps_declared_lines_in_order() {
    let deps = manifest_dependencies("# header\nhttpx==0.25.0\n\nbad-line\r\nrich == 13.7.1\r\n");
    let got: Vec<(String, String)> = deps.into_iter().map(|d| (d.name, d.version)).collect();
    assert_eq!(
        got,
        vec![
            ("httpx".to_string(), "0.25.0".to_string()),
            ("rich".to_string(), "13.7.1".to_string())
        ]
    );
}

#[test]
fn manifest_last_line_without_newline() {
    let deps = manifest_dependencies("a==1\nb==2");
    assert_eq!(deps.len(), 2);
    assert_eq!(deps[1].name, "b");
    assert_eq!(deps[1].version, "2");
}

#[test]
fn requirements_parser_dates_packages() {
    let parser = parsers::create_parser("requirements").unwrap();
    let packages = parser.parse("httpx==0.25.0\n").unwrap();
    assert_eq!(packages.len(), 1);
    assert_eq!(packages[0].name(), "httpx");
    assert_eq!(packages[0].release_date.days_from_ce, PLACEHOLDER_RELEASE_DAY);
    assert!(parsers::create_parser("poetry").is_none());
}

#[test]
fn placeholder_day_is_new_year_2023() {
    let day = chrono::NaiveDate::from_num_days_from_ce_opt(PLACEHOLDER_RELEASE_DAY).unwrap();
    assert_eq!(day, chrono::NaiveDate::from_ymd_opt(2023, 1, 1).unwrap());
}

#[test]
fn empty_manifest_is_a_parse_error() {
    let parser = RequirementsParser;
    assert!(matches!(parser.parse("# nothing\n\n"), Err(ParseError::NoDependencies)));
    let reqs = ParsedReqs::new("\n# only a comment\n");
    assert!(matches!(reqs.dependencies(), Err(ParseError::NoDependencies)));
}

#[test]
fn parsed_reqs_reads_every_format_as_lines() {
    let reqs = create_parser(Formats::MixLock, "x==1\ny==2\n").unwrap();
    let deps = reqs.dependencies().unwrap();
    assert_eq!(deps.len(), 2);
    assert_eq!(deps[0].name, "x");
}

#[test]
fn names_of_formats_and_ecosystems() {
    assert_eq!(Formats::PipFreeze.as_str(), "pip-freeze");
    assert_eq!(Formats::MixLock.as_str(), "mix-lock");
    assert_eq!(Formats::default(), Formats::PipFreeze);
    assert_eq!(Ecosystem::PyPi.name(), "PyPi");
    assert_eq!(Ecosystem::Go.name(), "Go");
}

fn parse_with<P: deltaver::Parser>(parser: &P, content: &str) -> usize {
    parser.parse(content).map(|p| p.len()).unwrap_or(0)
}

#[test]
fn requirements_parser_through_the_trait() {
    assert_eq!(parse_with(&RequirementsParser, "a==1\nb==2\n# c==3\n"), 2);
}
