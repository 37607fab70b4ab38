//! Course-time text: parsing of the `HH:MM:SS.ffffff` wire format into
//! microseconds, and rendering of time deltas as `+HH:MM:SS.ff`.

use crate::digits::{
    all_digits, digits_val, digits_val_capped, lemma_digits_val_bound, lemma_pad2_props, pad2_rep,
    pow10, push_pad2,
};
use crate::errors::ApiError;
use vstd::arithmetic::div_mod::{
    lemma_breakdown, lemma_div_is_ordered, lemma_fundamental_div_mod,
    lemma_fundamental_div_mod_converse_div,
};
use vstd::prelude::*;
use vstd::string::{StrSliceExecFns, StringExecFns};

verus! {

/// Largest hour count a course time may carry; keeps every valid time,
/// expressed in microseconds, within the machine word.
pub const MAX_HOURS: u64 = 4_000_000_000;

pub const MICROS_PER_SECOND: u64 = 1_000_000;

pub const MICROS_PER_MINUTE: u64 = 60_000_000;

pub const MICROS_PER_HOUR: u64 = 3_600_000_000;

/// Microseconds shown by one unit of the two-digit sub-second display.
pub const MICROS_PER_CENTI: u64 = 10_000;

/// Hour digits of a time string: everything before the fixed-width tail.
pub open spec fn time_hours(s: Seq<char>) -> nat {
    digits_val(s.subrange(0, s.len() - 13))
}

pub open spec fn time_minutes(s: Seq<char>) -> nat {
    digits_val(s.subrange(s.len() - 12, s.len() - 10))
}

pub open spec fn time_seconds(s: Seq<char>) -> nat {
    digits_val(s.subrange(s.len() - 9, s.len() - 7))
}

pub open spec fn time_frac_micros(s: Seq<char>) -> nat {
    digits_val(s.subrange(s.len() - 6, s.len() as int))
}

/// The wire format of a course time: unbounded hour digits, two-digit
/// minutes and seconds below sixty, and a six-digit microsecond fraction.
pub open spec fn valid_time_text(s: Seq<char>) -> bool {
    &&& s.len() >= 14
    &&& all_digits(s.subrange(0, s.len() - 13))
    &&& s[s.len() - 13] == ':'
    &&& all_digits(s.subrange(s.len() - 12, s.len() - 10))
    &&& s[s.len() - 10] == ':'
    &&& all_digits(s.subrange(s.len() - 9, s.len() - 7))
    &&& s[s.len() - 7] == '.'
    &&& all_digits(s.subrange(s.len() - 6, s.len() as int))
    &&& time_hours(s) <= MAX_HOURS
    &&& time_minutes(s) < 60
    &&& time_seconds(s) < 60
}

/// Value of a valid time string, in microseconds since the zero mark.
pub open spec fn time_micros(s: Seq<char>) -> nat {
    time_hours(s) * (MICROS_PER_HOUR as nat) + time_minutes(s) * (MICROS_PER_MINUTE as nat)
        + time_seconds(s) * (MICROS_PER_SECOND as nat) + time_frac_micros(s)
}

/// Small powers of ten, unfolded for use at the fixed-width fields.
proof fn lemma_pow10_small()
    ensures
        pow10(2) == 100,
        pow10(6) == 1_000_000,
{
    assert(pow10(0) == 1);
    assert(pow10(1) == 10);
    assert(pow10(2) == 100);
    assert(pow10(3) == 1_000);
    assert(pow10(4) == 10_000);
    assert(pow10(5) == 100_000);
    assert(pow10(6) == 1_000_000);
}

/// Parses a course time in the wire format; any departure from the format
/// is a time-parse error.
pub fn parse_time(s: &str) -> (r: Result<u64, ApiError>)
    ensures
        r is Ok <==> valid_time_text(s@),
        r is Ok ==> r->Ok_0 == time_micros(s@),
        r is Err ==> r->Err_0 == ApiError::TimeParseError,
{
    let n = s.unicode_len();
    if n < 14 {
        return Err(ApiError::TimeParseError);
    }
    if s.get_char(n - 13) != ':' {
        return Err(ApiError::TimeParseError);
    }
    if s.get_char(n - 10) != ':' {
        return Err(ApiError::TimeParseError);
    }
    if s.get_char(n - 7) != '.' {
        return Err(ApiError::TimeParseError);
    }
    let hours_v = match digits_val_capped(s, 0, n - 13, (MAX_HOURS + 1) as u128) {
        None => {
            return Err(ApiError::TimeParseError);
        },
        Some(h) => h,
    };
    if hours_v > MAX_HOURS as u128 {
        return Err(ApiError::TimeParseError);
    }
    let minutes_v = match digits_val_capped(s, n - 12, n - 10, 100) {
        None => {
            return Err(ApiError::TimeParseError);
        },
        Some(m) => m,
    };
    proof {
        lemma_digits_val_bound(s@.subrange(n - 12, n - 10));
        lemma_pow10_small();
    }
    if minutes_v >= 60 {
        return Err(ApiError::TimeParseError);
    }
    let seconds_v = match digits_val_capped(s, n - 9, n - 7, 100) {
        None => {
            return Err(ApiError::TimeParseError);
        },
        Some(v) => v,
    };
    proof {
        lemma_digits_val_bound(s@.subrange(n - 9, n - 7));
    }
    if seconds_v >= 60 {
        return Err(ApiError::TimeParseError);
    }
    let frac_v = match digits_val_capped(s, n - 6, n, 1_000_000) {
        None => {
            return Err(ApiError::TimeParseError);
        },
        Some(f) => f,
    };
    proof {
        lemma_digits_val_bound(s@.subrange(n - 6, n as int));
        lemma_pow10_small();
    }
    let hours = hours_v as u64;
    let minutes = minutes_v as u64;
    let seconds = seconds_v as u64;
    let frac = frac_v as u64;
    Ok(
        hours * MICROS_PER_HOUR + minutes * MICROS_PER_MINUTE + seconds * MICROS_PER_SECOND
            + frac,
    )
}

pub open spec fn delta_hours(d: nat) -> nat {
    d / (MICROS_PER_HOUR as nat)
}

pub open spec fn delta_minutes(d: nat) -> nat {
    (d / (MICROS_PER_MINUTE as nat)) % 60
}

pub open spec fn delta_seconds(d: nat) -> nat {
    (d / (MICROS_PER_SECOND as nat)) % 60
}

/// The two displayed sub-second digits: the microsecond remainder truncated
/// (not rounded) to display precision.
pub open spec fn delta_centis(d: nat) -> nat {
    (d % (MICROS_PER_SECOND as nat)) / (MICROS_PER_CENTI as nat)
}

/// Rendering of a non-negative delta of `d` microseconds: `+HH:MM:SS.ff`,
/// each field two-digit zero-padded, hours growing wider when needed.
pub open spec fn delta_rep(d: nat) -> Seq<char> {
    seq!['+'] + pad2_rep(delta_hours(d)) + seq![':'] + pad2_rep(delta_minutes(d)) + seq![':']
        + pad2_rep(delta_seconds(d)) + seq!['.'] + pad2_rep(delta_centis(d))
}

/// Renders a non-negative delta of `d` microseconds for display.
pub fn format_delta(d: u64) -> (r: String)
    ensures
        r@ == delta_rep(d as nat),
{
    let mut out = String::new();
    out.append("+");
    push_pad2(&mut out, d / MICROS_PER_HOUR);
    out.append(":");
    push_pad2(&mut out, (d / MICROS_PER_MINUTE) % 60);
    out.append(":");
    push_pad2(&mut out, (d / MICROS_PER_SECOND) % 60);
    out.append(".");
    push_pad2(&mut out, (d % MICROS_PER_SECOND) / MICROS_PER_CENTI);
    proof {
        reveal_strlit("+");
        reveal_strlit(":");
        reveal_strlit(".");
        assert(out@ =~= delta_rep(d as nat));
    }
    out
}

/// Magnitude a reader parses back out of a rendered delta, in centiseconds:
/// hour, minute and second fields scaled, plus the two sub-second digits.
pub open spec fn delta_display_centis(s: Seq<char>) -> nat {
    ((digits_val(s.subrange(1, s.len() - 9)) * 60 + digits_val(
        s.subrange(s.len() - 8, s.len() - 6),
    )) * 60 + digits_val(s.subrange(s.len() - 5, s.len() - 3))) * 100 + digits_val(
        s.subrange(s.len() - 2, s.len() as int),
    )
}

/// The rendered delta reads back as exactly the delta's magnitude truncated
/// to display precision: rendering loses nothing but the sub-centisecond
/// remainder.
pub proof fn lemma_delta_rep_centis(d: nat)
    ensures
        delta_display_centis(delta_rep(d)) == d / (MICROS_PER_CENTI as nat),
{
    let h = delta_hours(d);
    let m = delta_minutes(d);
    let sec = delta_seconds(d);
    let c = delta_centis(d);
    let hh = pad2_rep(h);
    let mm = pad2_rep(m);
    let ss = pad2_rep(sec);
    let ff = pad2_rep(c);
    lemma_pad2_props(h);
    lemma_pad2_props(m);
    lemma_pad2_props(sec);
    lemma_pad2_props(c);
    assert(c < 100) by {
        lemma_div_is_ordered(
            (d % (MICROS_PER_SECOND as nat)) as int,
            999_999,
            MICROS_PER_CENTI as int,
        );
    }
    let s = delta_rep(d);
    assert(s.len() == hh.len() + 10);
    assert(s.subrange(1, s.len() - 9) =~= hh);
    assert(s.subrange(s.len() - 8, s.len() - 6) =~= mm);
    assert(s.subrange(s.len() - 5, s.len() - 3) =~= ss);
    assert(s.subrange(s.len() - 2, s.len() as int) =~= ff);
    let q = ((h * 60 + m) * 60 + sec) * 100 + c;
    assert(delta_display_centis(s) == q);
    lemma_fundamental_div_mod(d as int, MICROS_PER_HOUR as int);
    lemma_breakdown(d as int, MICROS_PER_MINUTE as int, 60);
    lemma_breakdown(d as int, MICROS_PER_SECOND as int, 60);
    lemma_fundamental_div_mod((d % (MICROS_PER_SECOND as nat)) as int, MICROS_PER_CENTI as int);
    let rest = (d % (MICROS_PER_SECOND as nat)) % (MICROS_PER_CENTI as nat);
    assert(d == (MICROS_PER_HOUR as nat) * h + (MICROS_PER_MINUTE as nat) * m + (
    MICROS_PER_SECOND as nat) * sec + (MICROS_PER_CENTI as nat) * c + rest);
    lemma_fundamental_div_mod_converse_div(
        d as int,
        MICROS_PER_CENTI as int,
        q as int,
        rest as int,
    );
}

/// Displayed delta magnitudes never move against the underlying
/// microsecond distances: a row no nearer to the reference time never shows
/// a smaller delta.
pub proof fn lemma_delta_display_monotone(d1: nat, d2: nat)
    requires
        d1 <= d2,
    ensures
        delta_display_centis(delta_rep(d1)) <= delta_display_centis(delta_rep(d2)),
{
    lemma_delta_rep_centis(d1);
    lemma_delta_rep_centis(d2);
    lemma_div_is_ordered(d1 as int, d2 as int, MICROS_PER_CENTI as int);
}

} // verus!
