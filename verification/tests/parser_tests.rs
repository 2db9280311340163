use y2logs::datetime::DateTime;
use y2logs::log::{Entry, Level, Location, Pid};
use y2logs::parser::{parse_datetime, parse_line, parse_location, parse_string, ParseError};

fn dt(s: &str) -> DateTime {
    parse_datetime(s).unwrap()
}

#[test]
fn test_parse_y2log() {
    let y2log = r#"2022-08-25 14:28:44 <1> localhost.localdomain(12375) [libstorage] SystemCmd.cc(addLine):569 Adding Line 14...
Done
2022-08-25 14:28:44 <0> localhost.localdomain(12375) [libstorage] CmdParted.cc(parse):139 device:/dev/nvme0n1"#;
    let lines = parse_string(&y2log).unwrap();

    let datetime = dt("2022-08-25 14:28:44");
    assert_eq!(
        lines[0],
        Entry {
            datetime,
            level: Level::Info,
            hostname: "localhost.localdomain".to_string(),
            pid: Pid(12375),
            component: "libstorage".to_string(),
            location: Location {
                file: "SystemCmd.cc".to_string(),
                method: Some("addLine".to_string()),
                line: Some(569)
            },
            message: "Adding Line 14...\nDone".to_string()
        }
    );
    assert_eq!(
        lines[1],
        Entry {
            datetime,
            level: Level::Debug,
            hostname: "localhost.localdomain".to_string(),
            pid: Pid(12375),
            component: "libstorage".to_string(),
            location: Location {
                file: "CmdParted.cc".to_string(),
                method: Some("parse".to_string()),
                line: Some(139)
            },
            message: "device:/dev/nvme0n1".to_string()
        }
    );
}

#[test]
fn test_parse_line() {
    let line = String::from("2022-08-25 14:28:44 <1> localhost.localdomain(12375) [libstorage] SystemCmd.cc(addLine):569 Adding Line 14...");
    let (consumed, entry) = parse_line(&line).unwrap();
    let datetime = dt("2022-08-25 14:28:44");
    assert_eq!(
        entry,
        Entry {
            datetime,
            level: Level::Info,
            hostname: "localhost.localdomain".to_string(),
            pid: Pid(12375),
            component: "libstorage".to_string(),
            location: Location {
                file: "SystemCmd.cc".to_string(),
                method: Some("addLine".to_string()),
                line: Some(569)
            },
            message: "Adding Line 14...".to_string()
        }
    );
    assert_eq!(consumed, line.chars().count());
}

#[test]
fn test_complete_location() {
    let str = "y2storage/storage_manager.rb(probe_performed):471";
    let (consumed, location) = parse_location(&str).unwrap();
    assert_eq!(
        location,
        Location {
            file: "y2storage/storage_manager.rb".to_string(),
            method: Some("probe_performed".to_string()),
            line: Some(471)
        }
    );
    assert_eq!(consumed, str.chars().count());
}

#[test]
fn test_simple_location() {
    let str = "YaPI";
    let (consumed, location) = parse_location(&str).unwrap();
    assert_eq!(
        location,
        Location {
            file: "YaPI".to_string(),
            method: None,
            line: None
        }
    );
    assert_eq!(consumed, str.chars().count());
}

#[test]
fn test_location_with_method() {
    let str = "modules/Stage.rb(Set)";
    let (consumed, location) = parse_location(&str).unwrap();
    assert_eq!(
        location,
        Location {
            file: "modules/Stage.rb".to_string(),
            method: Some("Set".to_string()),
            line: None
        }
    );
    assert_eq!(consumed, str.chars().count());
}

#[test]
fn test_location_with_line() {
    let str = "modules/Stage.rb:79";
    let (consumed, location) = parse_location(&str).unwrap();
    assert_eq!(
        location,
        Location {
            file: "modules/Stage.rb".to_string(),
            method: None,
            line: Some(79)
        }
    );
    assert_eq!(consumed, str.chars().count());
}

#[test]
fn multi_line_message_continuation() {
    let text = "2022-08-25 14:28:44 <1> host(100) [comp] file.cc(m):5 first line\ncontinuation line\n2022-08-25 14:28:45 <0> host(100) [comp] file.cc(m):6 next entry";
    let entries = parse_string(text).unwrap();
    assert_eq!(entries.len(), 2);
    assert_eq!(entries[0].message, "first line\ncontinuation line");
    assert_eq!(entries[1].message, "next entry");
}

#[test]
fn empty_input_is_empty_log() {
    let entries = parse_string("").unwrap();
    assert_eq!(entries.len(), 0);
}

#[test]
fn non_numeric_severity_is_parse_failure() {
    let text = "2022-08-25 14:28:44 <x> host(100) [comp] file.cc m";
    assert_eq!(parse_string(text), Err(ParseError));
}

#[test]
fn out_of_range_severity_decodes_to_unknown() {
    let text = "2022-08-25 14:28:44 <9> host(100) [comp] file.cc m";
    let entries = parse_string(text).unwrap();
    assert_eq!(entries.len(), 1);
    assert_eq!(entries[0].level, Level::Unknown);
}

#[test]
fn huge_severity_code_decodes_to_unknown() {
    let text = "2022-08-25 14:28:44 <99999999999999999999> host(100) [comp] file.cc m";
    let entries = parse_string(text).unwrap();
    assert_eq!(entries[0].level, Level::Unknown);
}

#[test]
fn malformed_text_fails_as_a_whole() {
    // The first record is fine; the garbage after it voids the whole parse.
    let text = "2022-08-25 14:28:44 <1> host(100) [comp] file.cc ok\n123-not a record";
    assert_eq!(parse_string(text), Err(ParseError));
}

#[test]
fn trailing_newline_stays_in_last_message() {
    let text = "2022-08-25 14:28:44 <1> host(100) [comp] file.cc msg\n";
    let entries = parse_string(text).unwrap();
    assert_eq!(entries[0].message, "msg\n");
}

#[test]
fn empty_hostname_and_component_parse() {
    let text = "2022-08-25 14:28:44 <2> (1) [] f.cc hi";
    let entries = parse_string(text).unwrap();
    assert_eq!(entries[0].hostname, "");
    assert_eq!(entries[0].component, "");
    assert_eq!(entries[0].level, Level::Warn);
}

#[test]
fn unicode_letters_count_as_alphanumeric() {
    let text = "2022-08-25 14:28:44 <1> höst-1.local(7) [übermodul] f.cc ok";
    let entries = parse_string(text).unwrap();
    assert_eq!(entries[0].hostname, "höst-1.local");
    assert_eq!(entries[0].component, "übermodul");
}

#[test]
fn space_ends_the_hostname_run() {
    // A hostname may be empty, but a stray character where the pid belongs
    // fails the record.
    let text = "2022-08-25 14:28:44 <1> bad host(7) [c] f.cc ok";
    assert_eq!(parse_string(text), Err(ParseError));
}

#[test]
fn pid_out_of_range_is_parse_failure() {
    let text = "2022-08-25 14:28:44 <1> host(99999999999999999999) [c] f.cc ok";
    assert_eq!(parse_string(text), Err(ParseError));
}

#[test]
fn empty_message_parses() {
    let text = "2022-08-25 14:28:44 <1> host(7) [c] f.cc ";
    let entries = parse_string(text).unwrap();
    assert_eq!(entries[0].message, "");
}

#[test]
fn location_with_unclosed_method_is_not_a_method() {
    // An opening parenthesis with no closing one is not part of the
    // location, so the record cannot continue and the parse fails.
    let text = "2022-08-25 14:28:44 <1> host(7) [c] f.cc(open forever";
    assert_eq!(parse_string(text), Err(ParseError));
}

#[test]
fn parse_datetime_accepts_exact_form_only() {
    let d = dt("2022-08-25 14:28:44");
    assert_eq!(
        d,
        DateTime { year: 2022, month: 8, day: 25, hour: 14, minute: 28, second: 44 }
    );
    assert!(parse_datetime("2022-08-25").is_err());
    assert!(parse_datetime("2022-8-25 14:28:44").is_err());
    assert!(parse_datetime("2022-08-25 14:28:44 ").is_err());
    assert!(parse_datetime("not a date").is_err());
}

#[test]
fn parse_error_message() {
    assert_eq!(ParseError.message(), "unable to parse the log");
}
