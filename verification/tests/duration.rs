use jr::duration::{format_duration, parse_duration_validate};

#[test]
fn test_parse_duration_validate_rejects_input_longer_than_max() {
    let too_long = "1d".repeat(40);
    let result = parse_duration_validate(&too_long);
    assert!(result.is_err(), "input over cap must be rejected");
    let err_msg = result.unwrap_err().message();
    assert!(
        err_msg.contains("too long"),
        "error must mention size; got: {}",
        err_msg
    );
    assert!(
        err_msg.contains("64"),
        "error must cite the cap; got: {}",
        err_msg
    );
}

#[test]
fn test_parse_duration_validate_accepts_input_at_max_boundary() {
    let just_under_cap = "1m".repeat(31);
    assert_eq!(
        just_under_cap.len(),
        62,
        "precondition: input must be 62 bytes"
    );
    let result = parse_duration_validate(&just_under_cap);
    assert!(
        result.is_ok(),
        "input under cap with valid syntax must be accepted; got: {:?}",
        result
    );
}

#[test]
fn test_format_minutes() {
    assert_eq!(format_duration(1800), "30m");
}
#[test]
fn test_format_hours() {
    assert_eq!(format_duration(7200), "2h");
}
#[test]
fn test_format_hours_and_minutes() {
    assert_eq!(format_duration(5400), "1h30m");
}

#[test]
fn durations_are_numbers_each_followed_by_a_unit_in_either_case() {
    for ok in ["1w2d3h30m", "2d 3h 30m", "2H", "1W 2D", " 45m ", "0m"] {
        assert!(parse_duration_validate(ok).is_ok(), "{ok:?} should be accepted");
    }
    for bad in ["", "   ", "h", "2", "2h3", "2x", "2hh", "2 h x", "h2"] {
        assert!(parse_duration_validate(bad).is_err(), "{bad:?} should be rejected");
    }
}
