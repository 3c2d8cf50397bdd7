//! Reading duration strings.

use nudge::duration::{parse, ParseError};
use nudge::time::Duration;

fn d(secs: u64) -> Duration {
    Duration::from_secs(secs)
}

#[test]
fn single_units() {
    assert_eq!(parse("30s").unwrap(), d(30));
    assert_eq!(parse("5m").unwrap(), d(300));
    assert_eq!(parse("2h").unwrap(), d(7200));
}

#[test]
fn compound() {
    assert_eq!(parse("1h30m").unwrap(), d(5400));
    assert_eq!(parse("2m30s").unwrap(), d(150));
    assert_eq!(parse("1h30m45s").unwrap(), d(5445));
}

#[test]
fn rejects_empty() {
    assert_eq!(parse(""), Err(ParseError::Empty));
}

#[test]
fn rejects_zero() {
    assert_eq!(parse("0s"), Err(ParseError::Zero));
    assert_eq!(parse("0h0m0s"), Err(ParseError::Zero));
}

#[test]
fn rejects_missing_unit() {
    assert_eq!(parse("30"), Err(ParseError::MissingUnit));
    assert_eq!(parse("1h30"), Err(ParseError::MissingUnit));
}

#[test]
fn rejects_unknown_unit() {
    assert!(matches!(parse("5d"), Err(ParseError::UnexpectedChar('d', _))));
}

#[test]
fn rejects_duplicate_unit() {
    assert_eq!(parse("5m5m"), Err(ParseError::DuplicateUnit('m')));
}

#[test]
fn rejects_out_of_order() {
    assert_eq!(parse("30s5m"), Err(ParseError::OutOfOrderUnit('m')));
    assert_eq!(parse("5m1h"), Err(ParseError::OutOfOrderUnit('h')));
    assert_eq!(parse("30s1h"), Err(ParseError::OutOfOrderUnit('h')));
}

#[test]
fn rejects_leading_unit() {
    assert!(matches!(parse("h30"), Err(ParseError::UnexpectedChar('h', 0))));
}

#[test]
fn handles_large_values() {
    // 90 minutes parsed as a single m component should still work
    assert_eq!(parse("90m").unwrap(), d(5400));
}

#[test]
fn unexpected_characters_carry_their_position() {
    assert_eq!(parse("5d"), Err(ParseError::UnexpectedChar('d', 1)));
    assert_eq!(parse("1h 30m"), Err(ParseError::UnexpectedChar(' ', 2)));
    assert_eq!(parse("-5m"), Err(ParseError::UnexpectedChar('-', 0)));
    assert_eq!(parse("1h2é"), Err(ParseError::UnexpectedChar('é', 3)));
    assert_eq!(parse("1hm"), Err(ParseError::UnexpectedChar('m', 2)));
    // Digits of other scripts are no digits here.
    assert_eq!(parse("٣m"), Err(ParseError::UnexpectedChar('٣', 0)));
}

#[test]
fn numbers_up_to_the_limit() {
    assert_eq!(parse("18446744073709551615s").unwrap(), d(u64::MAX));
    assert_eq!(parse("18446744073709551616s"), Err(ParseError::Overflow));
    assert_eq!(parse("99999999999999999999999x"), Err(ParseError::Overflow));
    assert_eq!(parse("5124095576030431h").unwrap(), d(18446744073709551600));
    assert_eq!(parse("5124095576030432h"), Err(ParseError::Overflow));
    assert_eq!(parse("5124095576030431h15s").unwrap(), d(u64::MAX));
    assert_eq!(parse("5124095576030431h16s"), Err(ParseError::Overflow));
}

#[test]
fn grammar_components_may_be_left_out() {
    assert_eq!(parse("1h5s").unwrap(), d(3605));
    assert_eq!(parse("007m").unwrap(), d(420));
    assert_eq!(parse("0h1m0s").unwrap(), d(60));
}

#[test]
fn parse_errors_read_well() {
    assert_eq!(ParseError::Empty.to_string(), "empty duration string");
    assert_eq!(
        ParseError::UnexpectedChar('d', 1).to_string(),
        "unexpected character 'd' at position 1"
    );
    assert_eq!(
        ParseError::UnexpectedChar('\n', 12).to_string(),
        "unexpected character '\\n' at position 12"
    );
    assert_eq!(
        ParseError::MissingUnit.to_string(),
        "missing unit suffix after number"
    );
    assert_eq!(ParseError::Overflow.to_string(), "number overflow");
    assert_eq!(
        ParseError::DuplicateUnit('m').to_string(),
        "unit 'm' appears twice"
    );
    assert_eq!(
        ParseError::OutOfOrderUnit('h').to_string(),
        "unit 'h' appears after smaller unit (must be ordered h, m, s)"
    );
    assert_eq!(
        ParseError::Zero.to_string(),
        "duration must be greater than zero"
    );
}

#[test]
fn plain_characters_are_quoted_as_they_are() {
    for c in ' '..='~' {
        if c != '\'' && c != '\\' {
            assert_eq!(
                ParseError::DuplicateUnit(c).to_string(),
                format!("unit '{c}' appears twice")
            );
        }
    }
    assert_eq!(
        ParseError::DuplicateUnit('\'').to_string(),
        "unit '\\'' appears twice"
    );
    assert_eq!(
        ParseError::DuplicateUnit('\\').to_string(),
        "unit '\\\\' appears twice"
    );
}
