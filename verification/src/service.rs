//! Orchestration of one records request: a missed course lookup and a
//! failed storage read surface as their own errors, and a successful read
//! is ranked as a whole — never partially.

use crate::builder::{build, build_post, RankedRecord, RawRecord};
use crate::errors::ApiError;
use crate::selector::{direction_from_flag, select_query, select_spec, Direction, QueryPlan};
use vstd::prelude::*;

verus! {

/// A course row as the lookup collaborator returns it.
#[derive(Debug)]
pub struct Course {
    pub course_id: i32,
    pub course_name: String,
    pub mapfk: String,
    pub reverse: i8,
}

/// Plans the storage read for a looked-up course: a missed lookup is
/// `NotFound`; otherwise the selection table decides dataset and order from
/// the course's stored direction flag and the caller's checkpoint flag.
pub fn records_query_plan(course: Option<&Course>, checkpoints: bool) -> (r: Result<
    QueryPlan,
    ApiError,
>)
    ensures
        course is None ==> r == Err::<QueryPlan, ApiError>(ApiError::NotFound),
        course matches Some(c) ==> r == Ok::<QueryPlan, ApiError>(
            select_spec(
                if c.reverse == 0 {
                    Direction::Forward
                } else {
                    Direction::Reverse
                },
                checkpoints,
            ),
        ),
{
    match course {
        None => Err(ApiError::NotFound),
        Some(c) => {
            let d = direction_from_flag(c.reverse);
            Ok(select_query(d, checkpoints))
        },
    }
}

/// Finishes a request from what the storage read returned: a failed read is
/// `StorageError`; the rows of a successful read are ranked as one batch,
/// with every promise of the builder carried through.
pub fn get_ranked_records(read: Option<Vec<RawRecord>>) -> (r: Result<Vec<RankedRecord>, ApiError>)
    ensures
        read is None ==> r == Err::<Vec<RankedRecord>, ApiError>(ApiError::StorageError),
        read matches Some(rows) ==> build_post(rows@, r),
{
    match read {
        None => Err(ApiError::StorageError),
        Some(rows) => build(rows),
    }
}

} // verus!
