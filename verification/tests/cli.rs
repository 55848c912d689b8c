use repo_analyzer::cli::{parse_duration, Cli, CliError, ShallowStep};
use repo_analyzer::types::{Date, Duration, OutputFormat, ReportKind, TimeRange};

#[test]
fn test_parse_duration_days() {
    let d = parse_duration("30d").unwrap();
    assert_eq!(d.num_days(), 30);
}

#[test]
fn test_parse_duration_weeks() {
    let d = parse_duration("2w").unwrap();
    assert_eq!(d.num_days(), 14);
}

#[test]
fn test_parse_duration_months() {
    let d = parse_duration("6m").unwrap();
    assert_eq!(d.num_days(), 180);
}

#[test]
fn test_parse_duration_years() {
    let d = parse_duration("1y").unwrap();
    assert_eq!(d.num_days(), 365);
}

#[test]
fn test_parse_duration_invalid_suffix() {
    assert!(parse_duration("10x").is_err());
}

#[test]
fn test_parse_report_kinds_single() {
    let cli = Cli {
        path: ".".to_string(),
        format: OutputFormat::Table,
        only: Some("hotspots".to_string()),
        since: None,
        from: None,
        to: None,
        top: None,
        output: None,
        quiet: false,
        threads: 0,
        channel_capacity: 4,
        batch_size: 64,
        object_cache_mb: 4,
        unshallow: false,
        quick_composition: false,
    };
    let kinds = cli.parse_report_kinds().unwrap();
    assert_eq!(kinds, vec![ReportKind::Hotspots]);
}

#[test]
fn test_parse_report_kinds_multiple() {
    let cli = Cli {
        path: ".".to_string(),
        format: OutputFormat::Table,
        only: Some("authors,churn,age".to_string()),
        since: None,
        from: None,
        to: None,
        top: None,
        output: None,
        quiet: false,
        threads: 0,
        channel_capacity: 4,
        batch_size: 64,
        object_cache_mb: 4,
        unshallow: false,
        quick_composition: false,
    };
    let kinds = cli.parse_report_kinds().unwrap();
    assert_eq!(
        kinds,
        vec![ReportKind::Authors, ReportKind::Churn, ReportKind::Age]
    );
}


fn bare() -> Cli {
    Cli {
        path: ".".to_string(),
        format: OutputFormat::Table,
        only: None,
        since: None,
        from: None,
        to: None,
        top: None,
        output: None,
        quiet: false,
        threads: 0,
        channel_capacity: 0,
        batch_size: 64,
        object_cache_mb: 0,
        unshallow: false,
        quick_composition: false,
    }
}

#[test]
fn durations_that_are_none() {
    let said = |s: &str| parse_duration(s).unwrap_err().message();
    assert_eq!(said("  "), "Empty duration string");
    assert_eq!(said("xd"), "Invalid duration number: 'x'");
    assert_eq!(said("d"), "Invalid duration number: ''");
    assert_eq!(said("0d"), "Duration must be positive, got 0");
    assert_eq!(said("-3w"), "Duration must be positive, got -3");
    assert_eq!(said("10x"), "Unknown duration suffix: 'x'. Use d, w, m, or y.");
    assert_eq!(said("9223372036854775807y"), "Duration is too long: 9223372036854775807");
    assert_eq!(said("9223372036854775808d"), "Invalid duration number: '9223372036854775808'");
    assert_eq!(said("1\u{e9}"), "Unknown duration suffix: '\u{e9}'. Use d, w, m, or y.");
    assert_eq!(parse_duration(" +12d ").unwrap().num_days(), 12);
    assert_eq!(parse_duration("106751991167d").unwrap().num_days(), 106751991167);
}

#[test]
fn time_ranges() {
    assert_eq!(bare().parse_time_range().unwrap(), TimeRange::All);
    let mut c = bare();
    c.since = Some("2w".to_string());
    assert_eq!(c.parse_time_range().unwrap(), TimeRange::Since(Duration { days: 14 }));
    c.to = Some("2025-01-01".to_string());
    assert!(matches!(c.parse_time_range(), Err(CliError::SinceWithDates)));
    let mut c = bare();
    c.from = Some("1970-01-02".to_string());
    assert!(matches!(c.parse_time_range(), Err(CliError::FromWithoutTo)));
    c.to = Some("1970-02-01".to_string());
    assert_eq!(
        c.parse_time_range().unwrap(),
        TimeRange::Between { from: Date { days: 1 }, to: Date { days: 31 } }
    );
    c.from = None;
    assert!(matches!(c.parse_time_range(), Err(CliError::ToWithoutFrom)));
    c.from = Some("1970-02-02".to_string());
    assert!(matches!(c.parse_time_range(), Err(CliError::Reversed)));
    c.from = Some("soon".to_string());
    assert!(c.parse_time_range().unwrap_err().message().starts_with("Invalid --from date: "));
    c.from = Some("1970-01-01".to_string());
    c.to = Some("1970-13-01".to_string());
    assert!(matches!(c.parse_time_range(), Err(CliError::InvalidTo(_))));
}

#[test]
fn report_kinds_that_are_none() {
    let mut c = bare();
    let all = c.parse_report_kinds().unwrap();
    assert_eq!(all.len(), 29);
    assert!(!all.contains(&ReportKind::HalfLife));
    c.only = Some(" half_life ,, age".to_string());
    assert_eq!(c.parse_report_kinds().unwrap(), vec![ReportKind::HalfLife, ReportKind::Age]);
    c.only = Some("age, nothing".to_string());
    assert_eq!(c.parse_report_kinds().unwrap_err().message(), "Unknown report kind: 'nothing'");
    c.only = Some(" , ".to_string());
    assert!(matches!(c.parse_report_kinds(), Err(CliError::NoReport)));
}

#[test]
fn kinds_are_found_by_name() {
    for k in ReportKind::default_set() {
        assert_eq!(ReportKind::parse(k.name()), Some(k));
    }
    assert_eq!(ReportKind::parse("half_life"), Some(ReportKind::HalfLife));
    assert_eq!(ReportKind::parse("Age"), None);
}

#[test]
fn tuning_is_at_least_one() {
    let t = bare().tuning();
    assert_eq!(t.threads, None);
    assert_eq!((t.channel_capacity, t.batch_size, t.object_cache_mb), (1, 64, 1));
    let mut c = bare();
    c.threads = 3;
    assert_eq!(c.tuning().threads, Some(3));
}

#[test]
fn shallow_clones_are_dealt_with() {
    let cli = |quiet: bool, unshallow: bool| Cli {
        path: ".".to_string(),
        format: OutputFormat::Table,
        only: None,
        since: None,
        from: None,
        to: None,
        top: None,
        output: None,
        quiet,
        threads: 0,
        channel_capacity: 4,
        batch_size: 64,
        object_cache_mb: 4,
        unshallow,
        quick_composition: false,
    };
    assert_eq!(cli(false, false).on_shallow(), ShallowStep::Ask);
    assert_eq!(cli(true, false).on_shallow(), ShallowStep::Abort);
    assert_eq!(cli(false, true).on_shallow(), ShallowStep::Fetch);
    assert_eq!(cli(true, true).on_shallow(), ShallowStep::Fetch);
}
