use pomotimer::codec::{
    BareConvention, IsoDuration, ParseError, as_hours, parse, parse_bare, subhour_min, submin_sec,
};

fn format(v: u64) -> String {
    pomotimer::codec::format(v)
}

#[test]
fn parse_plain_forms() {
    assert_eq!(parse("25m"), Ok(1500));
    assert_eq!(parse("5m"), Ok(300));
    assert_eq!(parse("45s"), Ok(45));
    assert_eq!(parse("2h"), Ok(7200));
    assert_eq!(parse("1h30m"), Ok(5400));
    assert_eq!(parse("3h2m1s"), Ok(3 * 3600 + 2 * 60 + 1));
    assert_eq!(parse("1h1s"), Ok(3601));
    assert_eq!(parse("90m"), Ok(5400));
    assert_eq!(parse("0s"), Ok(0));
    assert_eq!(parse("0h0m0s"), Ok(0));
}

#[test]
fn parse_is_case_insensitive() {
    assert_eq!(parse("1H30M"), Ok(5400));
    assert_eq!(parse("2H"), Ok(7200));
    assert_eq!(parse("10S"), Ok(10));
}

#[test]
fn parse_rejects_missing_units() {
    assert_eq!(parse(""), Err(ParseError::NoUnitsFound));
    assert_eq!(parse("123"), Err(ParseError::NoUnitsFound));
    assert_eq!(parse("12x"), Err(ParseError::NoUnitsFound));
    assert_eq!(parse("10h30"), Err(ParseError::NoUnitsFound));
}

#[test]
fn parse_rejects_bad_numbers() {
    assert_eq!(parse("h"), Err(ParseError::InvalidHours));
    assert_eq!(parse("m"), Err(ParseError::InvalidMinutes));
    assert_eq!(parse("s"), Err(ParseError::InvalidSeconds));
    assert_eq!(parse("1hm"), Err(ParseError::InvalidMinutes));
    assert_eq!(parse("12x3m"), Err(ParseError::InvalidMinutes));
    assert_eq!(parse("-5m"), Err(ParseError::InvalidMinutes));
    // One digit beyond what fits in 64 bits.
    assert_eq!(parse("99999999999999999999s"), Err(ParseError::InvalidSeconds));
}

#[test]
fn parse_rejects_out_of_order_units() {
    assert_eq!(parse("5m3h"), Err(ParseError::UnitOutOfOrder));
    assert_eq!(parse("3h5h"), Err(ParseError::UnitOutOfOrder));
    assert_eq!(parse("10s5m"), Err(ParseError::UnitOutOfOrder));
}

#[test]
fn parse_rejects_overflowing_totals() {
    // u64::MAX hours fits per component but not as seconds.
    assert_eq!(parse("18446744073709551615h"), Err(ParseError::Overflow));
    // u64::MAX seconds alone is fine.
    assert_eq!(parse("18446744073709551615s"), Ok(u64::MAX));
}

#[test]
fn format_omission_rule() {
    assert_eq!(format(90), "1m30s");
    assert_eq!(format(60), "1m");
    assert_eq!(format(65), "1m5s");
    assert_eq!(format(3600), "1h");
    assert_eq!(format(0), "0s");
}

#[test]
fn format_more_spans() {
    assert_eq!(format(59), "59s");
    assert_eq!(format(61), "1m1s");
    assert_eq!(format(3599), "59m59s");
    assert_eq!(format(3601), "1h1s");
    assert_eq!(format(3660), "1h1m");
    assert_eq!(format(3661), "1h1m1s");
    assert_eq!(format(7200), "2h");
    assert_eq!(format(86400), "24h");
    assert_eq!(format(1500), "25m");
}

#[test]
fn format_then_parse_round_trips() {
    let samples = [
        0u64, 1, 59, 60, 61, 90, 3599, 3600, 3601, 3660, 5400, 7205, 86399, 86400, 123456789,
    ];
    for &v in samples.iter() {
        let text = format(v);
        assert_eq!(parse(&text), Ok(v));
        // Idempotence: re-formatting the re-parsed value gives the same text.
        assert_eq!(format(parse(&text).unwrap()), text);
    }
}

#[test]
fn triple_strings_parse_to_their_total() {
    // Spans written out as h/m/s components, including oversized minutes.
    assert_eq!(parse("1h30m"), Ok(1 * 3600 + 30 * 60));
    assert_eq!(parse("90m30s"), Ok(90 * 60 + 30));
    assert_eq!(parse("2h2m2s"), Ok(2 * 3600 + 2 * 60 + 2));
    assert_eq!(parse("100h"), Ok(360000));
}

#[test]
fn bare_integer_conventions() {
    assert_eq!(parse_bare("25", BareConvention::WholeMinutes), Ok(1500));
    assert_eq!(parse_bare("0", BareConvention::WholeMinutes), Ok(0));
    assert_eq!(parse_bare("1500", BareConvention::WholeMilliseconds), Ok(1));
    assert_eq!(parse_bare("999", BareConvention::WholeMilliseconds), Ok(0));
    assert_eq!(parse_bare("", BareConvention::WholeMinutes), Err(ParseError::InvalidMinutes));
    assert_eq!(parse_bare("25m", BareConvention::WholeMinutes), Err(ParseError::InvalidMinutes));
    assert_eq!(
        parse_bare("12x", BareConvention::WholeMilliseconds),
        Err(ParseError::InvalidSeconds)
    );
    // Fits as an integer, but not as seconds once scaled to minutes.
    assert_eq!(
        parse_bare("18446744073709551615", BareConvention::WholeMinutes),
        Err(ParseError::Overflow)
    );
}

#[test]
fn component_helpers() {
    assert_eq!(as_hours(7322), 2);
    assert_eq!(subhour_min(7322), 2);
    assert_eq!(submin_sec(7322), 2);
    assert_eq!(as_hours(59), 0);
    assert_eq!(subhour_min(3600), 0);
    assert_eq!(submin_sec(60), 0);
}

#[test]
fn iso_duration_components() {
    let d = IsoDuration::from_secs(90);
    assert_eq!(d.h, None);
    assert_eq!(d.m, Some(1));
    assert_eq!(d.s, Some(30));
    assert_eq!(d.to_text(), "1m30s");

    let d = IsoDuration::from_secs(3600);
    assert_eq!(d.h, Some(1));
    assert_eq!(d.m, None);
    assert_eq!(d.s, None);
    assert_eq!(d.to_text(), "1h");

    let d = IsoDuration::from_secs(0);
    assert_eq!(d.h, None);
    assert_eq!(d.m, None);
    assert_eq!(d.s, Some(0));
    assert_eq!(d.to_text(), "0s");
}
