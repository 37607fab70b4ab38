//! Verified core of a time-trial leaderboard service: ranked-record
//! construction with time deltas, query selection for course
//! configurations, and the bidirectional player-identifier codec.

pub mod builder;
pub mod codec;
pub mod course_time;
pub mod digits;
pub mod errors;
pub mod selector;
pub mod service;
