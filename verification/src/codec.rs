//! Identifier codec: the bidirectional transform between the external
//! identifier (decimal text in the 64-bit identity space) and the internal
//! bracketed-triplet form `[U:1:<offset>]`, related by a fixed protocol
//! constant.

use crate::digits::{
    all_digits, char_is_digit, dec_rep, digits_val, digits_val_capped, i64_dec_string, int_rep,
    lemma_dec_rep_props,
};
use crate::errors::ApiError;
use vstd::prelude::*;
use vstd::string::{StrSliceExecFns, StringExecFns};

verus! {

/// Additive protocol constant between the two numbering conventions for the
/// same identity space.
pub const STEAM_ID_BASE: i64 = 76_561_197_960_265_728;

/// Value of signed decimal text: an optional single sign followed by at
/// least one digit.
pub open spec fn signed_text_val(s: Seq<char>) -> Option<int> {
    if s.len() == 0 {
        None
    } else {
        let neg = s[0] == '-';
        let ds = if s[0] == '-' || s[0] == '+' {
            s.subrange(1, s.len() as int)
        } else {
            s
        };
        if ds.len() >= 1 && all_digits(ds) {
            if neg {
                Some(-(digits_val(ds) as int))
            } else {
                Some(digits_val(ds) as int)
            }
        } else {
            None
        }
    }
}

/// Value of decimal text that names a 64-bit signed machine integer.
pub open spec fn i64_text_val(s: Seq<char>) -> Option<int> {
    match signed_text_val(s) {
        Some(v) => if i64::MIN <= v <= i64::MAX {
            Some(v)
        } else {
            None
        },
        None => None,
    }
}

/// The suffix of `s` after its last colon; all of `s` when no colon occurs.
pub open spec fn after_last_colon(s: Seq<char>) -> Seq<char>
    decreases s.len(),
{
    if s.len() == 0 {
        s
    } else if s.last() == ':' {
        Seq::empty()
    } else {
        after_last_colon(s.drop_last()).push(s.last())
    }
}

/// The internal form carried by offset `off`: `[U:1:` then the offset's
/// decimal text, then `]`.
pub open spec fn internal_rep(off: int) -> Seq<char> {
    seq!['[', 'U', ':', '1', ':'] + int_rep(off) + seq![']']
}

/// What converting external text to the internal form returns: defined
/// exactly when the text names a machine integer whose offset from the
/// protocol constant is again a machine integer.
pub open spec fn to_internal_spec(s: Seq<char>) -> Option<Seq<char>> {
    match i64_text_val(s) {
        Some(v) => if i64::MIN <= v - STEAM_ID_BASE {
            Some(internal_rep(v - STEAM_ID_BASE))
        } else {
            None
        },
        None => None,
    }
}

/// What converting internal text to the external form returns: the numeric
/// segment after the last colon, stripped of its final character, must name
/// a machine integer, and the protocol constant added to it must be one
/// again.
pub open spec fn to_external_spec(s: Seq<char>) -> Option<Seq<char>> {
    let comp = after_last_colon(s);
    if comp.len() == 0 {
        None
    } else {
        match i64_text_val(comp.drop_last()) {
            Some(off) => if off + STEAM_ID_BASE <= i64::MAX {
                Some(int_rep(off + STEAM_ID_BASE))
            } else {
                None
            },
            None => None,
        }
    }
}

/// Parses signed decimal text as a 64-bit machine integer.
pub fn parse_i64_text(s: &str) -> (r: Option<i64>)
    ensures
        r is Some <==> i64_text_val(s@) is Some,
        r is Some ==> Some(r->0 as int) == i64_text_val(s@),
{
    let n = s.unicode_len();
    if n == 0 {
        return None;
    }
    let c0 = s.get_char(0);
    let neg = c0 == '-';
    let start: usize = if c0 == '-' || c0 == '+' {
        1
    } else {
        0
    };
    if start >= n {
        return None;
    }
    let m = match digits_val_capped(s, start, n, 9_223_372_036_854_775_809u128) {
        None => {
            return None;
        },
        Some(m) => m,
    };
    proof {
        if start == 0 {
            assert(s@.subrange(0, n as int) =~= s@);
        }
    }
    if neg {
        if m <= 9_223_372_036_854_775_808u128 {
            Some((-(m as i128)) as i64)
        } else {
            None
        }
    } else {
        if m <= 9_223_372_036_854_775_807u128 {
            Some(m as i64)
        } else {
            None
        }
    }
}

/// Converts an external identifier to the internal form by subtracting the
/// protocol constant; malformed or out-of-range text is a format error.
pub fn to_internal(external: &str) -> (r: Result<String, ApiError>)
    ensures
        r is Ok <==> to_internal_spec(external@) is Some,
        r is Ok ==> Some(r->Ok_0@) == to_internal_spec(external@),
        r is Err ==> r->Err_0 == ApiError::FormatError,
{
    let v = match parse_i64_text(external) {
        None => {
            return Err(ApiError::FormatError);
        },
        Some(v) => v,
    };
    let off_wide = (v as i128) - (STEAM_ID_BASE as i128);
    if off_wide < i64::MIN as i128 {
        return Err(ApiError::FormatError);
    }
    let off = off_wide as i64;
    let mut out = String::new();
    out.append("[U:1:");
    let num = i64_dec_string(off);
    out.append(num.as_str());
    out.append("]");
    proof {
        reveal_strlit("[U:1:");
        reveal_strlit("]");
        assert(out@ =~= internal_rep(off as int));
    }
    Ok(out)
}

/// Converts an internal identifier to the external form by adding the
/// protocol constant to the numeric segment after the last colon; malformed
/// or out-of-range text is a format error.
pub fn to_external(internal: &str) -> (r: Result<String, ApiError>)
    ensures
        r is Ok <==> to_external_spec(internal@) is Some,
        r is Ok ==> Some(r->Ok_0@) == to_external_spec(internal@),
        r is Err ==> r->Err_0 == ApiError::FormatError,
{
    let n = internal.unicode_len();
    let mut cut: usize = 0;
    let mut found = false;
    let mut k: usize = 0;
    while k < n
        invariant
            k <= n <= internal@.len(),
            n == internal@.len(),
            found ==> 1 <= cut <= k && internal@[cut - 1] == ':',
            found ==> forall|t: int| cut <= t < k ==> internal@[t] != ':',
            !found ==> cut == 0 && (forall|t: int| 0 <= t < k ==> internal@[t] != ':'),
        decreases n - k,
    {
        if internal.get_char(k) == ':' {
            cut = k + 1;
            found = true;
        }
        k = k + 1;
    }
    proof {
        if found {
            lemma_after_last_colon_at(internal@, cut - 1);
        } else {
            lemma_after_last_colon_absent(internal@);
            assert(internal@.subrange(0, n as int) =~= internal@);
        }
        assert(after_last_colon(internal@) =~= internal@.subrange(cut as int, n as int));
    }
    if cut >= n {
        return Err(ApiError::FormatError);
    }
    let num_str = internal.substring_char(cut, n - 1);
    proof {
        assert(num_str@ =~= after_last_colon(internal@).drop_last());
    }
    let off = match parse_i64_text(num_str) {
        None => {
            return Err(ApiError::FormatError);
        },
        Some(v) => v,
    };
    let sum_wide = (off as i128) + (STEAM_ID_BASE as i128);
    if sum_wide > i64::MAX as i128 {
        return Err(ApiError::FormatError);
    }
    Ok(i64_dec_string(sum_wide as i64))
}

/// The suffix after the last colon, located: when the colon at `j` is the
/// final one, the suffix is everything beyond `j`.
proof fn lemma_after_last_colon_at(s: Seq<char>, j: int)
    requires
        0 <= j < s.len(),
        s[j] == ':',
        forall|t: int| j < t < s.len() ==> s[t] != ':',
    ensures
        after_last_colon(s) == s.subrange(j + 1, s.len() as int),
    decreases s.len(),
{
    if j == s.len() - 1 {
        assert(after_last_colon(s) =~= s.subrange(j + 1, s.len() as int));
    } else {
        assert(s.last() != ':');
        assert(s.drop_last()[j] == ':');
        assert(forall|t: int| j < t < s.drop_last().len() ==> s.drop_last()[t] != ':');
        lemma_after_last_colon_at(s.drop_last(), j);
        assert(after_last_colon(s) =~= s.subrange(j + 1, s.len() as int));
    }
}

/// A string without a colon is its own suffix after the last colon.
proof fn lemma_after_last_colon_absent(s: Seq<char>)
    requires
        forall|t: int| 0 <= t < s.len() ==> s[t] != ':',
    ensures
        after_last_colon(s) == s,
    decreases s.len(),
{
    if s.len() == 0 {
    } else {
        assert(forall|t: int| 0 <= t < s.drop_last().len() ==> s.drop_last()[t] != ':');
        lemma_after_last_colon_absent(s.drop_last());
        assert(after_last_colon(s) =~= s);
    }
}

/// Canonical decimal text parses back to the number it renders.
pub proof fn lemma_int_rep_parses(v: int)
    requires
        i64::MIN <= v <= i64::MAX,
    ensures
        i64_text_val(int_rep(v)) == Some(v),
{
    if v < 0 {
        lemma_dec_rep_props((-v) as nat);
        let s = int_rep(v);
        assert(s[0] == '-');
        assert(s.subrange(1, s.len() as int) =~= dec_rep((-v) as nat));
    } else {
        lemma_dec_rep_props(v as nat);
        let s = int_rep(v);
        assert(char_is_digit(s[0]));
        assert(s[0] != '-' && s[0] != '+');
    }
}

/// No character of canonical decimal text is a colon.
proof fn lemma_int_rep_no_colon(v: int)
    ensures
        forall|t: int| 0 <= t < int_rep(v).len() ==> int_rep(v)[t] != ':',
{
    if v < 0 {
        lemma_dec_rep_props((-v) as nat);
    } else {
        lemma_dec_rep_props(v as nat);
    }
}

/// The internal form of `off` converts externally to the canonical text of
/// `off` plus the protocol constant.
proof fn lemma_internal_converts_back(off: int)
    requires
        i64::MIN <= off,
        off + STEAM_ID_BASE <= i64::MAX,
    ensures
        to_external_spec(internal_rep(off)) == Some(int_rep(off + STEAM_ID_BASE)),
{
    let s = internal_rep(off);
    assert(s[4] == ':');
    lemma_int_rep_no_colon(off);
    assert(forall|t: int| 4 < t < s.len() ==> s[t] != ':') by {
        assert(forall|t: int|
            5 <= t < 5 + int_rep(off).len() ==> s[t] == int_rep(off)[t - 5]);
        assert(s[s.len() - 1] == ']');
    }
    lemma_after_last_colon_at(s, 4);
    let comp = after_last_colon(s);
    assert(comp =~= int_rep(off) + seq![']']);
    assert(comp.drop_last() =~= int_rep(off));
    lemma_int_rep_parses(off);
}

/// Round trip of the codec, external side: converting canonical external
/// text to the internal form and back returns the original text, whenever
/// both arithmetic steps stay in the machine-integer range.
pub proof fn lemma_codec_round_trip_external(v: int)
    requires
        i64::MIN <= v <= i64::MAX,
        i64::MIN + STEAM_ID_BASE <= v,
    ensures
        to_internal_spec(int_rep(v)) == Some(internal_rep(v - STEAM_ID_BASE)),
        to_external_spec(internal_rep(v - STEAM_ID_BASE)) == Some(int_rep(v)),
{
    lemma_int_rep_parses(v);
    lemma_internal_converts_back(v - STEAM_ID_BASE);
}

/// Round trip of the codec, internal side: converting the internal form of
/// an offset to external text and back returns the same internal form,
/// whenever both arithmetic steps stay in the machine-integer range.
pub proof fn lemma_codec_round_trip_internal(off: int)
    requires
        i64::MIN <= off,
        off + STEAM_ID_BASE <= i64::MAX,
    ensures
        to_external_spec(internal_rep(off)) == Some(int_rep(off + STEAM_ID_BASE)),
        to_internal_spec(int_rep(off + STEAM_ID_BASE)) == Some(internal_rep(off)),
{
    lemma_internal_converts_back(off);
    lemma_int_rep_parses(off + STEAM_ID_BASE);
}

} // verus!
