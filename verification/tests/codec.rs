use toplist_core::codec::{parse_i64_text, to_external, to_internal};
use toplist_core::errors::ApiError;

#[test]
fn external_to_internal_known_value() {
    assert_eq!(to_internal("76561197979698294").unwrap(), "[U:1:19432566]");
}

#[test]
fn internal_to_external_known_value() {
    assert_eq!(to_external("[U:1:19432566]").unwrap(), "76561197979698294");
}

#[test]
fn round_trip_through_internal() {
    let internal = to_internal("76561197979698294").unwrap();
    assert_eq!(to_external(&internal).unwrap(), "76561197979698294");
}

#[test]
fn round_trip_through_external() {
    let external = to_external("[U:1:19432566]").unwrap();
    assert_eq!(to_internal(&external).unwrap(), "[U:1:19432566]");
}

#[test]
fn negative_offset_round_trips() {
    assert_eq!(to_internal("76561197960265727").unwrap(), "[U:1:-1]");
    assert_eq!(to_external("[U:1:-1]").unwrap(), "76561197960265727");
}

#[test]
fn zero_offset() {
    assert_eq!(to_internal("76561197960265728").unwrap(), "[U:1:0]");
    assert_eq!(to_external("[U:1:0]").unwrap(), "76561197960265728");
}

#[test]
fn leading_zeros_still_convert() {
    assert_eq!(to_internal("076561197979698294").unwrap(), "[U:1:19432566]");
}

#[test]
fn non_numeric_external_is_format_error() {
    assert_eq!(to_internal("abc").unwrap_err(), ApiError::FormatError);
    assert_eq!(to_internal("").unwrap_err(), ApiError::FormatError);
    assert_eq!(to_internal("123x").unwrap_err(), ApiError::FormatError);
    assert_eq!(to_internal("12 3").unwrap_err(), ApiError::FormatError);
}

#[test]
fn external_below_identifier_space_is_format_error() {
    // the offset would leave the 64-bit range
    assert_eq!(
        to_internal("-9223372036854775808").unwrap_err(),
        ApiError::FormatError
    );
}

#[test]
fn malformed_internal_is_format_error() {
    assert_eq!(to_external("").unwrap_err(), ApiError::FormatError);
    assert_eq!(to_external("[U:1:]").unwrap_err(), ApiError::FormatError);
    assert_eq!(to_external("[U:1:1a2]").unwrap_err(), ApiError::FormatError);
    assert_eq!(to_external("[U:1:").unwrap_err(), ApiError::FormatError);
}

#[test]
fn internal_offset_overflow_is_format_error() {
    assert_eq!(
        to_external("[U:1:9223372036854775807]").unwrap_err(),
        ApiError::FormatError
    );
}

#[test]
fn numeric_segment_is_taken_after_the_last_colon() {
    // everything before the last colon is ignored; the final character is
    // stripped whatever it is
    assert_eq!(to_external("19432566]").unwrap(), "76561197979698294");
    assert_eq!(to_external("[X:9:19432566]").unwrap(), "76561197979698294");
}

#[test]
fn parse_i64_text_accepts_signs_and_rejects_garbage() {
    assert_eq!(parse_i64_text("42"), Some(42));
    assert_eq!(parse_i64_text("+42"), Some(42));
    assert_eq!(parse_i64_text("-42"), Some(-42));
    assert_eq!(parse_i64_text("007"), Some(7));
    assert_eq!(parse_i64_text(""), None);
    assert_eq!(parse_i64_text("-"), None);
    assert_eq!(parse_i64_text("+"), None);
    assert_eq!(parse_i64_text("4 2"), None);
    assert_eq!(parse_i64_text("--4"), None);
}

#[test]
fn parse_i64_text_honours_machine_bounds() {
    assert_eq!(parse_i64_text("9223372036854775807"), Some(i64::MAX));
    assert_eq!(parse_i64_text("-9223372036854775808"), Some(i64::MIN));
    assert_eq!(parse_i64_text("9223372036854775808"), None);
    assert_eq!(parse_i64_text("-9223372036854775809"), None);
    assert_eq!(parse_i64_text("99999999999999999999999"), None);
}
