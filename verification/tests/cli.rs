use bluedot::cli::{parse_args, Command, USAGE};
use bluedot::Error;

fn args(words: &[&str]) -> Vec<String> {
    words.iter().map(|w| w.to_string()).collect()
}

fn usage_message(words: &[&str]) -> String {
    match parse_args(&args(words)) {
        Err(Error::Usage(msg)) => msg,
        other => panic!("expected a usage error, got {other:?}"),
    }
}

#[test]
fn no_arguments_ask_for_usage() {
    assert!(matches!(parse_args(&args(&[])), Ok(Command::Usage)));
    assert!(matches!(parse_args(&args(&["ingest"])), Ok(Command::Usage)));
}

#[test]
fn acs_needs_indicator_and_vintages() {
    match parse_args(&args(&[
        "ingest", "acs", "--indicator", "B01003_001", "--vintage", "2021", "--vintage", "2023",
    ])) {
        Ok(Command::IngestAcs { indicator, vintages, out_dir }) => {
            assert_eq!(indicator, "B01003_001");
            assert_eq!(vintages, vec![2021, 2023]);
            assert_eq!(out_dir, "data");
        }
        other => panic!("{other:?}"),
    }
    let msg = usage_message(&["ingest", "acs", "--vintage", "2021"]);
    assert_eq!(msg, format!("--indicator is required\n{USAGE}"));
    let msg = usage_message(&["ingest", "acs", "--indicator", "B01003_001"]);
    assert!(msg.starts_with("at least one --vintage is required\n"));
}

#[test]
fn pep_reads_vintages_and_out() {
    match parse_args(&args(&["ingest", "pep", "--vintage", "2022", "--out", "/tmp/x"])) {
        Ok(Command::IngestPep { vintages, out_dir }) => {
            assert_eq!(vintages, vec![2022]);
            assert_eq!(out_dir, "/tmp/x");
        }
        other => panic!("{other:?}"),
    }
}

#[test]
fn snapshot_sources_take_no_vintage() {
    match parse_args(&args(&["ingest", "echo"])) {
        Ok(Command::IngestEcho { naics, out_dir }) => {
            assert_eq!(naics, "518210");
            assert_eq!(out_dir, "data");
        }
        other => panic!("{other:?}"),
    }
    match parse_args(&args(&["ingest", "echo", "--naics", "5182"])) {
        Ok(Command::IngestEcho { naics, .. }) => assert_eq!(naics, "5182"),
        other => panic!("{other:?}"),
    }
    assert!(matches!(
        parse_args(&args(&["ingest", "pwc", "--out", "o"])),
        Ok(Command::IngestPwc { out_dir }) if out_dir == "o"
    ));
    let msg = usage_message(&["ingest", "pwc", "--vintage", "2024"]);
    assert!(msg.starts_with("snapshot-dated sources take no --vintage\n"));
}

#[test]
fn refuses_bad_command_lines() {
    assert_eq!(
        usage_message(&["fetch", "acs"]),
        format!("unknown command \"fetch\" \"acs\"\n{USAGE}")
    );
    assert!(usage_message(&["ingest", "pep", "--vintage"]).starts_with("--vintage needs a value\n"));
    assert!(usage_message(&["ingest", "pep", "--vintage", "20x2"])
        .starts_with("--vintage \"20x2\" is not a year\n"));
    assert!(usage_message(&["ingest", "pep", "--vintage", "2022", "--vintage", "2022"])
        .starts_with("--vintage 2022 given twice\n"));
    assert!(usage_message(&["ingest", "pep", "--naics", "1"])
        .starts_with("unknown flag \"--naics\" for `ingest pep`\n"));
    assert!(usage_message(&["ingest", "echo", "--indicator", "B"])
        .starts_with("unknown flag \"--indicator\" for `ingest echo`\n"));
    // a year is a u16, with an optional plus sign
    assert!(usage_message(&["ingest", "pep", "--vintage", "70000"]).contains("is not a year"));
    match parse_args(&args(&["ingest", "pep", "--vintage", "+2024"])) {
        Ok(Command::IngestPep { vintages, .. }) => assert_eq!(vintages, vec![2024]),
        other => panic!("{other:?}"),
    }
}
