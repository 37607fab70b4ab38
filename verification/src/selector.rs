//! Query selection: which record dataset to read for a course
//! configuration, and in which order.
//!
//! The tie-break behind the primary key is fixed for every branch: date set
//! ascending, then the insertion sequence identifier ascending, so equal
//! times are never left unordered. Those two keys belong to the storage
//! read itself; the plan here carries the dataset and the primary order.

use vstd::prelude::*;

verus! {

/// Direction a course is raced in.
#[derive(Clone, Copy, Debug, PartialEq, Eq, Structural)]
pub enum Direction {
    Forward,
    Reverse,
}

/// Which record dataset a query reads.
#[derive(Clone, Copy, Debug, PartialEq, Eq, Structural)]
pub enum Dataset {
    Standard,
    Checkpoint,
}

/// Primary sort order of the course-time key.
#[derive(Clone, Copy, Debug, PartialEq, Eq, Structural)]
pub enum SortOrder {
    Ascending,
    Descending,
}

/// Dataset and primary order one storage read uses.
#[derive(Clone, Copy, Debug, PartialEq, Eq, Structural)]
pub struct QueryPlan {
    pub dataset: Dataset,
    pub order: SortOrder,
}

/// The selection table: forward courses read the dataset their checkpoint
/// flag names, ascending; reverse courses are never raced in checkpoint
/// mode, so they always read the standard dataset, descending.
pub open spec fn select_spec(direction: Direction, checkpoints: bool) -> QueryPlan {
    match direction {
        Direction::Forward => (QueryPlan {
            dataset: if checkpoints {
                Dataset::Checkpoint
            } else {
                Dataset::Standard
            },
            order: SortOrder::Ascending,
        }),
        Direction::Reverse => (QueryPlan { dataset: Dataset::Standard, order: SortOrder::Descending }),
    }
}

/// Picks the dataset and order for a course configuration, exactly by the
/// selection table.
pub fn select_query(direction: Direction, checkpoints: bool) -> (p: QueryPlan)
    ensures
        p == select_spec(direction, checkpoints),
        direction is Forward && !checkpoints ==> p.dataset is Standard && p.order is Ascending,
        direction is Forward && checkpoints ==> p.dataset is Checkpoint && p.order is Ascending,
        direction is Reverse ==> p.dataset is Standard && p.order is Descending,
{
    match direction {
        Direction::Forward => QueryPlan {
            dataset: if checkpoints {
                Dataset::Checkpoint
            } else {
                Dataset::Standard
            },
            order: SortOrder::Ascending,
        },
        Direction::Reverse => QueryPlan { dataset: Dataset::Standard, order: SortOrder::Descending },
    }
}

/// Reads the stored direction flag: zero marks a forward course, anything
/// else a reverse one.
pub fn direction_from_flag(rflag: i8) -> (d: Direction)
    ensures
        d == (if rflag == 0 {
            Direction::Forward
        } else {
            Direction::Reverse
        }),
{
    if rflag == 0 {
        Direction::Forward
    } else {
        Direction::Reverse
    }
}

} // verus!
