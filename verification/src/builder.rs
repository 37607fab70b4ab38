//! Ranked-record construction: establishes the reference time of an
//! ordered batch of raw rows, converts each row's identifier, and renders
//! each row's delta to the reference — the world-record marker at position
//! zero, a formatted non-negative duration everywhere else.

use crate::codec::{to_external, to_external_spec};
use crate::course_time::{
    delta_display_centis, delta_rep, format_delta, lemma_delta_display_monotone, parse_time,
    time_micros, valid_time_text,
};
use crate::errors::ApiError;
use vstd::prelude::*;
use vstd::string::StringExecFns;

verus! {

/// One persisted best-time entry, as the storage read hands it over: the
/// identifier still in its internal form, the course time in the wire
/// format.
#[derive(Debug)]
pub struct RawRecord {
    pub player_name: String,
    pub steamid: String,
    pub course_time: String,
    pub date: Option<String>,
}

/// One entry of the public ranked shape: the identifier in its external
/// form, and the delta against the reference time filled in. Rank is
/// positional and not stored.
#[derive(Debug)]
pub struct RankedRecord {
    pub player_name: String,
    pub steamid: String,
    pub course_time: String,
    pub date: Option<String>,
    pub diff: String,
}

/// The literal world-record marker text.
pub open spec fn wr_rep() -> Seq<char> {
    seq!['W', 'R']
}

/// Every row of the batch carries a well-formed course time.
pub open spec fn times_ok(rows: Seq<RawRecord>) -> bool {
    forall|i: int| 0 <= i < rows.len() ==> valid_time_text(#[trigger] rows[i].course_time@)
}

/// Every row of the batch carries a convertible identifier.
pub open spec fn ids_ok(rows: Seq<RawRecord>) -> bool {
    forall|i: int| 0 <= i < rows.len() ==> to_external_spec(#[trigger] rows[i].steamid@) is Some
}

pub open spec fn abs_diff(a: nat, b: nat) -> nat {
    if a >= b {
        (a - b) as nat
    } else {
        (b - a) as nat
    }
}

/// Distance of row `i`'s time from the reference time at row zero, in
/// microseconds; the sign is discarded, so the one formatter serves both
/// course directions.
pub open spec fn row_delta(rows: Seq<RawRecord>, i: int) -> nat {
    abs_diff(time_micros(rows[i].course_time@), time_micros(rows[0].course_time@))
}

/// The fields a ranked row keeps from its raw row: everything unchanged but
/// the identifier, which is converted to its external form.
pub open spec fn ranked_matches(out: RankedRecord, row: RawRecord) -> bool {
    &&& out.player_name == row.player_name
    &&& Some(out.steamid@) == to_external_spec(row.steamid@)
    &&& out.course_time == row.course_time
    &&& out.date == row.date
}

/// Everything `build` promises: success exactly on fully well-formed
/// batches, a malformed time anywhere failing the whole batch first; on
/// success, one output row per input row in input order, the marker at
/// position zero, and each later row's delta rendered from its distance to
/// the reference time.
pub open spec fn build_post(rows: Seq<RawRecord>, r: Result<Vec<RankedRecord>, ApiError>) -> bool {
    &&& (r is Ok <==> times_ok(rows) && ids_ok(rows))
    &&& (!times_ok(rows) ==> r == Err::<Vec<RankedRecord>, ApiError>(ApiError::TimeParseError))
    &&& (times_ok(rows) && !ids_ok(rows) ==> r == Err::<Vec<RankedRecord>, ApiError>(
        ApiError::FormatError,
    ))
    &&& (r is Ok ==> {
        let out = r->Ok_0@;
        &&& out.len() == rows.len()
        &&& (forall|i: int| 0 <= i < rows.len() ==> ranked_matches(#[trigger] out[i], rows[i]))
        &&& (rows.len() > 0 ==> out[0].diff@ == wr_rep())
        &&& (forall|i: int|
            1 <= i < rows.len() ==> (#[trigger] out[i]).diff@ == delta_rep(row_delta(rows, i)))
    })
}

/// The world-record marker as a fresh string.
pub fn wr_marker() -> (r: String)
    ensures
        r@ == wr_rep(),
{
    let s = String::from_str("WR");
    proof {
        reveal_strlit("WR");
        assert(s@ =~= wr_rep());
    }
    s
}

/// Builds the ranked shape of an already-ordered batch. An empty batch is
/// an empty result, not an error; a malformed course time anywhere is fatal
/// for the whole batch, and no partial output is ever returned.
pub fn build(rows: Vec<RawRecord>) -> (r: Result<Vec<RankedRecord>, ApiError>)
    ensures
        build_post(rows@, r),
{
    let n = rows.len();
    let mut times: Vec<u64> = Vec::new();
    let mut i: usize = 0;
    while i < n
        invariant
            n == rows@.len(),
            i <= n,
            times@.len() == i,
            forall|j: int| 0 <= j < i ==> valid_time_text(#[trigger] rows@[j].course_time@),
            forall|j: int| 0 <= j < i ==> times@[j] == time_micros(rows@[j].course_time@),
        decreases n - i,
    {
        match parse_time(rows[i].course_time.as_str()) {
            Ok(t) => {
                times.push(t);
            },
            Err(e) => {
                proof {
                    assert(!valid_time_text(rows@[i as int].course_time@));
                }
                return Err(e);
            },
        }
        i = i + 1;
    }
    let mut ids: Vec<String> = Vec::new();
    let mut k: usize = 0;
    while k < n
        invariant
            n == rows@.len(),
            k <= n,
            ids@.len() == k,
            times_ok(rows@),
            forall|j: int|
                0 <= j < k ==> Some((#[trigger] ids@[j])@) == to_external_spec(rows@[j].steamid@),
        decreases n - k,
    {
        match to_external(rows[k].steamid.as_str()) {
            Ok(x) => {
                ids.push(x);
            },
            Err(e) => {
                proof {
                    assert(to_external_spec(rows@[k as int].steamid@) is None);
                }
                return Err(e);
            },
        }
        k = k + 1;
    }
    proof {
        assert forall|j: int| 0 <= j < n implies to_external_spec(
            #[trigger] rows@[j].steamid@,
        ) is Some by {
            assert(Some(ids@[j]@) == to_external_spec(rows@[j].steamid@));
        }
    }
    if n == 0 {
        return Ok(Vec::new());
    }
    let ref_t = times[0];
    let mut out: Vec<RankedRecord> = Vec::new();
    let mut m: usize = 0;
    while m < n
        invariant
            n == rows@.len(),
            n >= 1,
            m <= n,
            out@.len() == m,
            times_ok(rows@),
            ids_ok(rows@),
            times@.len() == n,
            ids@.len() == n,
            forall|j: int| 0 <= j < n ==> times@[j] == time_micros(rows@[j].course_time@),
            forall|j: int|
                0 <= j < n ==> Some((#[trigger] ids@[j])@) == to_external_spec(rows@[j].steamid@),
            ref_t == time_micros(rows@[0].course_time@),
            forall|j: int| 0 <= j < m ==> ranked_matches(#[trigger] out@[j], rows@[j]),
            m > 0 ==> out@[0].diff@ == wr_rep(),
            forall|j: int|
                1 <= j < m ==> (#[trigger] out@[j]).diff@ == delta_rep(row_delta(rows@, j)),
        decreases n - m,
    {
        let t = times[m];
        let d = if t >= ref_t {
            t - ref_t
        } else {
            ref_t - t
        };
        let diff = if m == 0 {
            wr_marker()
        } else {
            format_delta(d)
        };
        let date = match &rows[m].date {
            Some(ds) => Some(ds.clone()),
            None => None,
        };
        let entry = RankedRecord {
            player_name: rows[m].player_name.clone(),
            steamid: ids[m].clone(),
            course_time: rows[m].course_time.clone(),
            date,
            diff,
        };
        out.push(entry);
        m = m + 1;
    }
    Ok(out)
}

/// Law of the rendered deltas: within one built batch, a row whose time
/// stands no nearer to the reference time never displays a smaller delta
/// magnitude — the output is a pure function of per-row times, never
/// re-sorted.
pub proof fn lemma_build_delta_monotone(
    rows: Seq<RawRecord>,
    r: Result<Vec<RankedRecord>, ApiError>,
    i: int,
    j: int,
)
    requires
        build_post(rows, r),
        r is Ok,
        1 <= i < rows.len(),
        1 <= j < rows.len(),
        row_delta(rows, i) <= row_delta(rows, j),
    ensures
        delta_display_centis(r->Ok_0@[i].diff@) <= delta_display_centis(r->Ok_0@[j].diff@),
{
    lemma_delta_display_monotone(row_delta(rows, i), row_delta(rows, j));
}

} // verus!
