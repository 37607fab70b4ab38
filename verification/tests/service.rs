use toplist_core::builder::RawRecord;
use toplist_core::errors::ApiError;
use toplist_core::selector::{Dataset, SortOrder};
use toplist_core::service::{get_ranked_records, records_query_plan, Course};

fn course(reverse: i8) -> Course {
    Course {
        course_id: 7,
        course_name: "main".to_string(),
        mapfk: "bhop_badges".to_string(),
        reverse,
    }
}

#[test]
fn missing_course_is_not_found() {
    assert_eq!(
        records_query_plan(None, false).unwrap_err(),
        ApiError::NotFound
    );
}

#[test]
fn forward_course_plans_by_the_table() {
    let p = records_query_plan(Some(&course(0)), false).unwrap();
    assert_eq!(p.dataset, Dataset::Standard);
    assert_eq!(p.order, SortOrder::Ascending);
    let p = records_query_plan(Some(&course(0)), true).unwrap();
    assert_eq!(p.dataset, Dataset::Checkpoint);
    assert_eq!(p.order, SortOrder::Ascending);
}

#[test]
fn reverse_course_plans_standard_descending() {
    let p = records_query_plan(Some(&course(1)), true).unwrap();
    assert_eq!(p.dataset, Dataset::Standard);
    assert_eq!(p.order, SortOrder::Descending);
}

#[test]
fn failed_read_is_a_storage_error() {
    assert_eq!(
        get_ranked_records(None).unwrap_err(),
        ApiError::StorageError
    );
}

#[test]
fn successful_read_is_ranked_whole() {
    let rows = vec![
        RawRecord {
            player_name: "a".to_string(),
            steamid: "[U:1:19432566]".to_string(),
            course_time: "00:01:23.450000".to_string(),
            date: None,
        },
        RawRecord {
            player_name: "b".to_string(),
            steamid: "[U:1:19432567]".to_string(),
            course_time: "00:01:25.450000".to_string(),
            date: None,
        },
    ];
    let out = get_ranked_records(Some(rows)).unwrap();
    assert_eq!(out.len(), 2);
    assert_eq!(out[0].diff, "WR");
    assert_eq!(out[0].steamid, "76561197979698294");
    assert_eq!(out[1].diff, "+00:00:02.00");
    assert_eq!(out[1].date, None);
}
