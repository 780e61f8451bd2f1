use error_handling::aggregate::{
    parse_all, parse_all_or_first_error, parse_successes, parse_u8_collecting_errors,
    partition_outcomes,
};
use error_handling::parse::{IntErrorKind, ParseIntError};

fn err(kind: IntErrorKind) -> ParseIntError {
    ParseIntError { kind }
}

#[test]
fn raw_keeps_every_outcome_in_order() {
    assert_eq!(
        parse_all(&["tofu", "93", "18"]),
        vec![Err(err(IntErrorKind::InvalidDigit)), Ok(93), Ok(18)]
    );
    assert_eq!(parse_all(&[]), vec![]);
}

#[test]
fn filtered_keeps_values_only() {
    assert_eq!(parse_successes(&["tofu", "93", "18"]), vec![93, 18]);
    assert_eq!(parse_successes(&["a", "", "-"]), Vec::<i32>::new());
}

#[test]
fn side_channel_collects_failures_in_order() {
    let mut errors = vec![];
    let numbers = parse_u8_collecting_errors(&["42", "tofu", "93", "999", "18"], &mut errors);
    assert_eq!(numbers, vec![42, 93, 18]);
    assert_eq!(errors, vec![err(IntErrorKind::InvalidDigit), err(IntErrorKind::PosOverflow)]);
}

#[test]
fn side_channel_appends_to_earlier_failures() {
    let mut errors = vec![err(IntErrorKind::Empty)];
    let numbers = parse_u8_collecting_errors(&["7", "256"], &mut errors);
    assert_eq!(numbers, vec![7]);
    assert_eq!(errors, vec![err(IntErrorKind::Empty), err(IntErrorKind::PosOverflow)]);
}

#[test]
fn fail_fast_reports_first_failure_only() {
    assert_eq!(parse_all_or_first_error(&["tofu", "93", "18"]), Err(err(IntErrorKind::InvalidDigit)));
    assert_eq!(parse_all_or_first_error(&["93", "", "x"]), Err(err(IntErrorKind::Empty)));
    assert_eq!(parse_all_or_first_error(&["93", "18"]), Ok(vec![93, 18]));
    assert_eq!(parse_all_or_first_error(&[]), Ok(vec![]));
}

#[test]
fn bucketed_keeps_outcomes_whole() {
    let (oks, errs) = partition_outcomes(&["tofu", "93", "18"]);
    assert_eq!(oks, vec![Ok(93), Ok(18)]);
    assert_eq!(errs, vec![Err(err(IntErrorKind::InvalidDigit))]);
}

#[test]
fn counts_add_up_to_input_length() {
    let input = ["1", "x", "2", "", "99999999999", "3"];
    let (oks, errs) = partition_outcomes(&input);
    assert_eq!(oks.len() + errs.len(), input.len());
    let mut errors = vec![];
    let numbers = parse_u8_collecting_errors(&input, &mut errors);
    assert_eq!(numbers.len() + errors.len(), input.len());
}

#[test]
fn rerunning_gives_identical_results() {
    let input = ["42", "tofu", "93", "999", "18"];
    assert_eq!(parse_all(&input), parse_all(&input));
    assert_eq!(parse_successes(&input), parse_successes(&input));
    let (mut e1, mut e2) = (vec![], vec![]);
    assert_eq!(
        parse_u8_collecting_errors(&input, &mut e1),
        parse_u8_collecting_errors(&input, &mut e2)
    );
    assert_eq!(e1, e2);
    assert_eq!(parse_all_or_first_error(&input), parse_all_or_first_error(&input));
    assert_eq!(partition_outcomes(&input), partition_outcomes(&input));
}
