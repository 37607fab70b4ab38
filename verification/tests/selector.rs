use toplist_core::selector::{
    direction_from_flag, select_query, Dataset, Direction, SortOrder,
};

#[test]
fn forward_standard_is_ascending() {
    let p = select_query(Direction::Forward, false);
    assert_eq!(p.dataset, Dataset::Standard);
    assert_eq!(p.order, SortOrder::Ascending);
}

#[test]
fn forward_checkpoint_is_ascending() {
    let p = select_query(Direction::Forward, true);
    assert_eq!(p.dataset, Dataset::Checkpoint);
    assert_eq!(p.order, SortOrder::Ascending);
}

#[test]
fn reverse_without_checkpoints_is_standard_descending() {
    let p = select_query(Direction::Reverse, false);
    assert_eq!(p.dataset, Dataset::Standard);
    assert_eq!(p.order, SortOrder::Descending);
}

#[test]
fn reverse_ignores_checkpoint_flag() {
    let p = select_query(Direction::Reverse, true);
    assert_eq!(p.dataset, Dataset::Standard);
    assert_eq!(p.order, SortOrder::Descending);
}

#[test]
fn direction_flag_zero_is_forward() {
    assert_eq!(direction_from_flag(0), Direction::Forward);
}

#[test]
fn direction_flag_nonzero_is_reverse() {
    assert_eq!(direction_from_flag(1), Direction::Reverse);
    assert_eq!(direction_from_flag(-1), Direction::Reverse);
}
