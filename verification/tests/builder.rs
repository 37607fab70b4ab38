use toplist_core::builder::{build, RawRecord};
use toplist_core::errors::ApiError;

fn row(name: &str, steamid: &str, time: &str) -> RawRecord {
    RawRecord {
        player_name: name.to_string(),
        steamid: steamid.to_string(),
        course_time: time.to_string(),
        date: Some("2023-01-15".to_string()),
    }
}

#[test]
fn two_rows_ascending() {
    let rows = vec![
        row("a", "[U:1:19432566]", "00:01:23.450000"),
        row("b", "[U:1:19432567]", "00:01:25.450000"),
    ];
    let out = build(rows).unwrap();
    assert_eq!(out.len(), 2);
    assert_eq!(out[0].diff, "WR");
    assert_eq!(out[1].diff, "+00:00:02.00");
}

#[test]
fn empty_input_is_empty_output() {
    let out = build(Vec::new()).unwrap();
    assert!(out.is_empty());
}

#[test]
fn single_row_is_world_record() {
    let rows = vec![row("solo", "[U:1:19432566]", "00:02:00.000000")];
    let out = build(rows).unwrap();
    assert_eq!(out.len(), 1);
    assert_eq!(out[0].diff, "WR");
}

#[test]
fn first_row_always_carries_the_marker() {
    let rows = vec![
        row("a", "[U:1:1]", "00:05:00.000000"),
        row("b", "[U:1:2]", "00:05:00.000000"),
        row("c", "[U:1:3]", "00:06:30.120000"),
    ];
    let out = build(rows).unwrap();
    assert_eq!(out[0].diff, "WR");
}

#[test]
fn equal_time_is_formatted_zero_not_marker() {
    let rows = vec![
        row("a", "[U:1:1]", "00:02:00.000000"),
        row("b", "[U:1:2]", "00:02:00.000000"),
    ];
    let out = build(rows).unwrap();
    assert_eq!(out[0].diff, "WR");
    assert_eq!(out[1].diff, "+00:00:00.00");
}

#[test]
fn descending_batches_use_the_same_absolute_delta() {
    // a reverse-direction result set: the best (largest) time stands first
    let rows = vec![
        row("a", "[U:1:1]", "00:03:00.000000"),
        row("b", "[U:1:2]", "00:02:00.000000"),
    ];
    let out = build(rows).unwrap();
    assert_eq!(out[0].diff, "WR");
    assert_eq!(out[1].diff, "+00:01:00.00");
}

#[test]
fn identifiers_are_externalized_and_fields_kept() {
    let rows = vec![row("menko", "[U:1:19432566]", "00:01:23.450000")];
    let out = build(rows).unwrap();
    assert_eq!(out[0].steamid, "76561197979698294");
    assert_eq!(out[0].player_name, "menko");
    assert_eq!(out[0].course_time, "00:01:23.450000");
    assert_eq!(out[0].date.as_deref(), Some("2023-01-15"));
}

#[test]
fn malformed_time_anywhere_fails_the_whole_batch() {
    let rows = vec![
        row("a", "[U:1:1]", "00:01:23.450000"),
        row("b", "[U:1:2]", "not-a-time"),
        row("c", "[U:1:3]", "00:01:25.450000"),
    ];
    assert_eq!(build(rows).unwrap_err(), ApiError::TimeParseError);
}

#[test]
fn malformed_reference_time_fails_the_whole_batch() {
    let rows = vec![
        row("a", "[U:1:1]", "bogus"),
        row("b", "[U:1:2]", "00:01:25.450000"),
    ];
    assert_eq!(build(rows).unwrap_err(), ApiError::TimeParseError);
}

#[test]
fn malformed_identifier_is_a_format_error() {
    let rows = vec![
        row("a", "[U:1:1]", "00:01:23.450000"),
        row("b", "[U:1:oops]", "00:01:25.450000"),
    ];
    assert_eq!(build(rows).unwrap_err(), ApiError::FormatError);
}

#[test]
fn a_bad_time_outranks_a_bad_identifier() {
    // one bad row invalidates the batch on the time first: the reference
    // time itself may be the bad one
    let rows = vec![
        row("a", "[U:1:oops]", "00:01:23.450000"),
        row("b", "[U:1:2]", "nonsense"),
    ];
    assert_eq!(build(rows).unwrap_err(), ApiError::TimeParseError);
}

#[test]
fn deltas_grow_with_distance_from_the_reference() {
    let rows = vec![
        row("a", "[U:1:1]", "00:01:00.000000"),
        row("b", "[U:1:2]", "00:01:00.500000"),
        row("c", "[U:1:3]", "00:01:02.000000"),
        row("d", "[U:1:4]", "00:11:02.340000"),
    ];
    let out = build(rows).unwrap();
    assert_eq!(out[1].diff, "+00:00:00.50");
    assert_eq!(out[2].diff, "+00:00:02.00");
    assert_eq!(out[3].diff, "+00:10:02.34");
}
