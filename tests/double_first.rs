use error_handling::boxed_error;
use error_handling::early_return;
use error_handling::failure::{DynamicError, Failure};
use error_handling::marker_error;
use error_handling::parse::{IntErrorKind, ParseIntError};
use error_handling::wrapped_error;

fn chain(d: &DynamicError) -> Vec<String> {
    let mut out = vec![d.message()];
    let mut at = d.cause();
    while let Some(c) = at {
        out.push(c.message());
        at = c.cause();
    }
    out
}

#[test]
fn marker_doubles_first_number() {
    assert_eq!(marker_error::double_first(vec!["42", "93", "18"]), Ok(84));
}

#[test]
fn marker_fails_on_empty() {
    assert_eq!(marker_error::double_first(vec![]), Err(marker_error::DoubleError));
}

#[test]
fn marker_fails_on_unparsable_first() {
    let r = marker_error::double_first(vec!["tofu", "93", "18"]);
    assert_eq!(r, Err(marker_error::DoubleError));
    assert_eq!(r.unwrap_err().message(), "invalid first item to double");
}

#[test]
fn marker_demonstration() {
    let (a, b, c) = marker_error::test();
    assert_eq!(a, Ok(84));
    assert_eq!(b, Err(marker_error::DoubleError));
    assert_eq!(c, Err(marker_error::DoubleError));
}

#[test]
fn boxed_doubles_first_number() {
    assert_eq!(boxed_error::double_first(vec!["42", "93", "18"]).unwrap(), 84);
}

#[test]
fn boxed_fails_on_empty() {
    let d = boxed_error::double_first(vec![]).unwrap_err();
    assert_eq!(chain(&d), vec!["invalid first item to double".to_string()]);
}

#[test]
fn boxed_fails_on_unparsable_first() {
    let d = boxed_error::double_first(vec!["tofu", "93", "18"]).unwrap_err();
    assert_eq!(d.message(), "invalid digit found in string");
    assert!(d.cause().is_none());
}

#[test]
fn boxed_demonstration() {
    let (a, b, c) = boxed_error::test();
    assert_eq!(a.unwrap(), 84);
    assert_eq!(b.unwrap_err().message(), "invalid first item to double");
    assert_eq!(c.unwrap_err().message(), "invalid digit found in string");
}

#[test]
fn early_return_doubles_first_number() {
    assert_eq!(early_return::double_first(vec!["42", "93", "18"]).unwrap(), 84);
}

#[test]
fn early_return_fails_on_empty() {
    let d = early_return::double_first(vec![]).unwrap_err();
    assert_eq!(chain(&d), vec!["invalid first item to double".to_string()]);
}

#[test]
fn early_return_fails_on_unparsable_first() {
    let d = early_return::double_first(vec!["tofu", "93", "18"]).unwrap_err();
    assert_eq!(chain(&d), vec!["invalid digit found in string".to_string()]);
}

#[test]
fn early_return_matches_branching() {
    let inputs: Vec<Vec<&str>> = vec![vec!["42", "93"], vec![], vec!["tofu"], vec!["99999999999"], vec!["-7"]];
    for v in inputs {
        match (boxed_error::double_first(v.clone()), early_return::double_first(v)) {
            (Ok(a), Ok(b)) => assert_eq!(a, b),
            (Err(a), Err(b)) => assert_eq!(chain(&a), chain(&b)),
            _ => panic!("the two strategies disagree"),
        }
    }
}

#[test]
fn early_return_demonstration() {
    let (a, b, c) = early_return::test();
    assert_eq!(a.unwrap(), 84);
    assert_eq!(b.unwrap_err().message(), "invalid first item to double");
    assert_eq!(c.unwrap_err().message(), "invalid digit found in string");
}

#[test]
fn wrapped_doubles_first_number() {
    assert_eq!(wrapped_error::double_first(vec!["42", "93", "18"]), Ok(84));
}

#[test]
fn wrapped_fails_on_empty() {
    let e = wrapped_error::double_first(vec![]).unwrap_err();
    assert_eq!(e, wrapped_error::DoubleError::EmptyVec);
    assert_eq!(e.message(), "please use a vector with at least one element");
    assert!(e.source().is_none());
}

#[test]
fn wrapped_fails_on_unparsable_first() {
    let e = wrapped_error::double_first(vec!["tofu", "93", "18"]).unwrap_err();
    assert_eq!(
        e,
        wrapped_error::DoubleError::Parse(ParseIntError { kind: IntErrorKind::InvalidDigit })
    );
    assert_eq!(e.message(), "the provided string could not be parsed as int");
    assert_eq!(e.source().unwrap().message(), "invalid digit found in string");
}

#[test]
fn wrapped_cause_chain_ends_after_one_hop() {
    let e = wrapped_error::double_first(vec!["tofu", "93", "18"]).unwrap_err();
    let cause = e.source().unwrap();
    assert!(cause.cause().is_none());
    let whole = DynamicError::wrap(e);
    assert_eq!(
        chain(&whole),
        vec![
            "the provided string could not be parsed as int".to_string(),
            "invalid digit found in string".to_string()
        ]
    );
    assert!(whole.cause().unwrap().cause().is_none());
}

#[test]
fn wrapped_from_parse_error() {
    let p = ParseIntError { kind: IntErrorKind::PosOverflow };
    assert_eq!(wrapped_error::DoubleError::from(p), wrapped_error::DoubleError::Parse(p));
}

#[test]
fn wrapped_demonstration() {
    let (a, b, c) = wrapped_error::test();
    assert_eq!(a, Ok(84));
    assert_eq!(b, Err(wrapped_error::DoubleError::EmptyVec));
    assert_eq!(
        c,
        Err(wrapped_error::DoubleError::Parse(ParseIntError { kind: IntErrorKind::InvalidDigit }))
    );
}

#[test]
fn doubling_preserves_sign() {
    assert_eq!(marker_error::double_first(vec!["-21"]), Ok(-42));
    assert_eq!(boxed_error::double_first(vec!["-21"]).unwrap(), -42);
    assert_eq!(early_return::double_first(vec!["+5", "x"]).unwrap(), 10);
    assert_eq!(wrapped_error::double_first(vec!["0"]), Ok(0));
}

#[test]
fn overflowing_first_reports_range() {
    let e = wrapped_error::double_first(vec!["2147483648"]).unwrap_err();
    assert_eq!(e.source().unwrap().message(), "number too large to fit in target type");
    let d = boxed_error::double_first(vec!["-2147483649"]).unwrap_err();
    assert_eq!(d.message(), "number too small to fit in target type");
}
