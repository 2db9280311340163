use y2logs::datetime::DateTime;
use y2logs::log::{Entry, Level, Location, Log, Pid};
use y2logs::parser::parse_datetime;

fn dt(s: &str) -> DateTime {
    parse_datetime(s).unwrap()
}

fn entry(second: u32, level: Level, pid: u32, component: &str, hostname: &str, message: &str) -> Entry {
    Entry {
        datetime: DateTime { year: 2022, month: 8, day: 25, hour: 14, minute: 28, second },
        level,
        hostname: hostname.to_string(),
        pid: Pid(pid),
        component: component.to_string(),
        location: Location { file: "f.cc".to_string(), method: None, line: None },
        message: message.to_string(),
    }
}

fn sample_log() -> Log {
    Log::from_entries(vec![
        entry(1, Level::Info, 100, "storage", "alpha", "one"),
        entry(2, Level::Debug, 100, "ui", "beta", "two"),
        entry(3, Level::Info, 200, "storage", "alpha", "three"),
        entry(4, Level::Error, 200, "ui", "alpha", "four"),
        entry(5, Level::Info, 100, "storage", "beta", "five"),
    ])
}

fn messages(log: &Log) -> Vec<String> {
    log.entries().iter().map(|e| e.message.clone()).collect()
}

#[test]
fn level_ordinal_round_trip() {
    let levels = [
        Level::Debug,
        Level::Info,
        Level::Warn,
        Level::Error,
        Level::Fatal,
        Level::Unknown,
    ];
    for (i, level) in levels.iter().enumerate() {
        assert_eq!(level.to_ordinal(), i as u32);
        assert_eq!(Level::from_ordinal(level.to_ordinal()), *level);
    }
    assert_eq!(Level::from_ordinal(6), Level::Unknown);
    assert_eq!(Level::from_ordinal(9), Level::Unknown);
    assert_eq!(Level::from_ordinal(u32::MAX), Level::Unknown);
}

#[test]
fn level_from_str_tokens() {
    assert_eq!(Level::from_str("debug"), Ok(Level::Debug));
    assert_eq!(Level::from_str("info"), Ok(Level::Info));
    assert_eq!(Level::from_str("warn"), Ok(Level::Warn));
    assert_eq!(Level::from_str("error"), Ok(Level::Error));
    assert_eq!(Level::from_str("fatal"), Ok(Level::Fatal));
    assert_eq!(Level::from_str("unknown"), Ok(Level::Unknown));
    assert!(Level::from_str("Info").is_err());
    assert!(Level::from_str("").is_err());
}

#[test]
fn pid_from_str_decodes_decimal() {
    assert_eq!(Pid::from_str("12375"), Ok(Pid(12375)));
    assert_eq!(Pid::from_str("0"), Ok(Pid(0)));
    assert!(Pid::from_str("12x").is_err());
    assert!(Pid::from_str("").is_err());
    assert!(Pid::from_str("-3").is_err());
    assert!(Pid::from_str("99999999999999999999").is_err());
}

#[test]
fn no_predicate_keeps_everything() {
    let log = sample_log();
    let query = log.query();
    let filtered = query.to_log();
    assert_eq!(messages(&filtered), vec!["one", "two", "three", "four", "five"]);
}

#[test]
fn predicate_overwrite_uses_last_value() {
    let log = sample_log();
    let mut query = log.query();
    query.with_pid(Pid(100));
    query.with_pid(Pid(200));
    let filtered = query.to_log();
    assert_eq!(messages(&filtered), vec!["three", "four"]);
}

#[test]
fn conjunctive_filtering_is_an_intersection() {
    let log = sample_log();
    let mut query = log.query();
    query.with_level(Level::Info);
    query.with_pid(Pid(100));
    let filtered = query.to_log();
    // Entries matching only the level ("three") or only the pid ("two")
    // are out; survivors match both.
    assert_eq!(messages(&filtered), vec!["one", "five"]);
}

#[test]
fn filtering_preserves_original_order() {
    let log = sample_log();
    let mut query = log.query();
    query.with_component("storage".to_string());
    let filtered = query.to_log();
    assert_eq!(messages(&filtered), vec!["one", "three", "five"]);
}

#[test]
fn hostname_filter_is_exact() {
    let log = sample_log();
    let mut query = log.query();
    query.with_hostname("alpha".to_string());
    let filtered = query.to_log();
    assert_eq!(messages(&filtered), vec!["one", "three", "four"]);

    let mut query = log.query();
    query.with_hostname("alph".to_string());
    assert_eq!(query.to_log().entries().len(), 0);
}

#[test]
fn datetime_range_bounds_are_inclusive() {
    let log = sample_log();
    let mut query = log.query();
    query.from_datetime(dt("2022-08-25 14:28:02"));
    query.to_datetime(dt("2022-08-25 14:28:04"));
    let filtered = query.to_log();
    assert_eq!(messages(&filtered), vec!["two", "three", "four"]);
}

#[test]
fn from_bound_alone_keeps_the_tail() {
    let log = sample_log();
    let mut query = log.query();
    query.from_datetime(dt("2022-08-25 14:28:05"));
    assert_eq!(messages(&query.to_log()), vec!["five"]);
}

#[test]
fn to_bound_alone_keeps_the_head() {
    let log = sample_log();
    let mut query = log.query();
    query.to_datetime(dt("2022-08-25 14:28:01"));
    assert_eq!(messages(&query.to_log()), vec!["one"]);
}

#[test]
fn query_does_not_mutate_the_source_log() {
    let log = sample_log();
    let mut query = log.query();
    query.with_pid(Pid(100));
    let _ = query.to_log();
    assert_eq!(log.entries().len(), 5);
    assert_eq!(messages(&log), vec!["one", "two", "three", "four", "five"]);
}

#[test]
fn display_line_has_the_canonical_form() {
    let e = Entry {
        datetime: dt("2022-08-25 14:28:44"),
        level: Level::Info,
        hostname: "localhost.localdomain".to_string(),
        pid: Pid(12375),
        component: "libstorage".to_string(),
        location: Location {
            file: "SystemCmd.cc".to_string(),
            method: Some("addLine".to_string()),
            line: Some(569),
        },
        message: "Adding Line 14...".to_string(),
    };
    assert_eq!(
        e.to_display_string(),
        "2022-08-25 14:28:44 <1> localhost.localdomain(12375) [libstorage] SystemCmd.cc(addLine):569 Adding Line 14..."
    );
}

#[test]
fn datetime_rendering_is_zero_padded() {
    let d = DateTime { year: 33, month: 8, day: 2, hour: 0, minute: 5, second: 9 };
    assert_eq!(d.to_display_string(), "0033-08-02 00:05:09");
}

#[test]
fn location_rendering_variants() {
    let file_only = Location { file: "YaPI".to_string(), method: None, line: None };
    assert_eq!(file_only.to_display_string(), "YaPI");
    let with_method = Location {
        file: "mod.rb".to_string(),
        method: Some("Set".to_string()),
        line: None,
    };
    assert_eq!(with_method.to_display_string(), "mod.rb(Set)");
    let with_line = Location { file: "mod.rb".to_string(), method: None, line: Some(79) };
    assert_eq!(with_line.to_display_string(), "mod.rb:79");
    let full = Location {
        file: "mod.rb".to_string(),
        method: Some("Set".to_string()),
        line: Some(79),
    };
    assert_eq!(full.to_display_string(), "mod.rb(Set):79");
}

#[test]
fn datetime_rendering_keeps_wide_fields() {
    // Padding is a minimum width, not a truncation.
    let d = DateTime { year: 12345, month: 11, day: 30, hour: 23, minute: 59, second: 60 };
    assert_eq!(d.to_display_string(), "12345-11-30 23:59:60");
}

#[test]
fn display_keeps_embedded_line_breaks() {
    let e = Entry {
        datetime: dt("2022-08-25 14:28:44"),
        level: Level::Fatal,
        hostname: "".to_string(),
        pid: Pid(1),
        component: "".to_string(),
        location: Location { file: "f".to_string(), method: None, line: None },
        message: "a\nb".to_string(),
    };
    assert_eq!(e.to_display_string(), "2022-08-25 14:28:44 <4> (1) [] f a\nb");
}

#[test]
fn level_and_pid_rendering() {
    assert_eq!(Level::Debug.to_display_string(), "0");
    assert_eq!(Level::Unknown.to_display_string(), "5");
    assert_eq!(Pid(0).to_display_string(), "0");
    assert_eq!(Pid(4294967295).to_display_string(), "4294967295");
}
