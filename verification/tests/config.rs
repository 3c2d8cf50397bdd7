//! Checking what the command line says.

use nudge::config::{Cli, Config, ConfigError, DecayFactor};
use nudge::duration::ParseError;
use nudge::time::Duration;

fn factor(x: f64) -> DecayFactor {
    DecayFactor { bits: x.to_bits() }
}

/// Build a Cli with defaults for every field except those overridden,
/// to keep test bodies focused on the field being exercised.
fn cli(duration: &str) -> Cli {
    Cli {
        duration: duration.into(),
        runway: None,
        decay: factor(0.5),
        floor: "5s".into(),
        message: "test".into(),
        alert_duration: "2s".into(),
        beep: false,
    }
}

#[test]
fn config_accepts_canonical_examples() {
    // The four everyday invocations.
    let mut c = cli("25m");
    assert!(Config::from_cli(c).is_ok());
    c = cli("2h");
    c.runway = Some("15m".into());
    assert!(Config::from_cli(c).is_ok());
    c = cli("90m");
    assert!(Config::from_cli(c).is_ok());
    c = cli("30s");
    c.runway = Some("10s".into());
    assert!(Config::from_cli(c).is_ok());
}

#[test]
fn config_rejects_decay_out_of_range() {
    let mut c = cli("5m");
    c.decay = factor(0.0);
    assert!(Config::from_cli(c).is_err());
    let mut c = cli("5m");
    c.decay = factor(1.0);
    assert!(Config::from_cli(c).is_err());
    let mut c = cli("5m");
    c.decay = factor(1.5);
    assert!(Config::from_cli(c).is_err());
    let mut c = cli("5m");
    c.decay = factor(-0.5);
    assert!(Config::from_cli(c).is_err());
}

#[test]
fn config_rejects_initial_at_or_below_floor() {
    // initial == floor is invalid (would alert and lock instantly).
    let mut c = cli("5s");
    c.floor = "5s".into();
    assert!(Config::from_cli(c).is_err());
    let mut c = cli("3s");
    c.floor = "5s".into();
    assert!(Config::from_cli(c).is_err());
}

#[test]
fn config_rejects_runway_at_or_below_floor() {
    // runway must be strictly above floor or the loop locks immediately
    // after the first alert.
    let mut c = cli("10m");
    c.runway = Some("5s".into());
    c.floor = "5s".into();
    assert!(Config::from_cli(c).is_err());
    let mut c = cli("10m");
    c.runway = Some("3s".into());
    c.floor = "5s".into();
    assert!(Config::from_cli(c).is_err());
}

#[test]
fn config_allows_runway_greater_than_initial() {
    // Documented as allowed: "their problem". Exercise it.
    let mut c = cli("5m");
    c.runway = Some("30m".into());
    let cfg = Config::from_cli(c).expect("should be allowed");
    assert!(cfg.runway > cfg.initial);
}

#[test]
fn config_rejects_unparseable_durations() {
    // Bad initial.
    let c = cli("not-a-duration");
    assert!(Config::from_cli(c).is_err());
    // Bad runway.
    let mut c = cli("5m");
    c.runway = Some("garbage".into());
    assert!(Config::from_cli(c).is_err());
    // Bad floor.
    let mut c = cli("5m");
    c.floor = "?".into();
    assert!(Config::from_cli(c).is_err());
    // Bad alert duration.
    let mut c = cli("5m");
    c.alert_duration = "soon".into();
    assert!(Config::from_cli(c).is_err());
}

#[test]
fn config_uses_default_runway_when_omitted() {
    // <2h initial -> 10m default
    let cfg = Config::from_cli(cli("30m")).unwrap();
    assert_eq!(cfg.runway, Duration::from_secs(10 * 60));

    // >=2h initial -> 20m default
    let cfg = Config::from_cli(cli("3h")).unwrap();
    assert_eq!(cfg.runway, Duration::from_secs(20 * 60));
}

#[test]
fn config_carries_every_value_over() {
    let mut c = cli("1h30m");
    c.runway = Some("15m".into());
    c.decay = factor(0.25);
    c.floor = "7s".into();
    c.message = "stand up".into();
    c.alert_duration = "3s".into();
    c.beep = true;
    let cfg = Config::from_cli(c).unwrap();
    assert_eq!(cfg.initial, Duration::from_secs(5400));
    assert_eq!(cfg.runway, Duration::from_secs(900));
    assert_eq!(cfg.decay, factor(0.25));
    assert_eq!(cfg.floor, Duration::from_secs(7));
    assert_eq!(cfg.message, "stand up");
    assert_eq!(cfg.alert_duration, Duration::from_secs(3));
    assert!(cfg.beep);
}

#[test]
fn decay_factor_range_agrees_with_floating_point() {
    for x in [
        0.0,
        -0.0,
        0.5,
        0.01,
        0.99,
        1.0,
        1.5,
        2.0,
        -0.5,
        -1.0,
        f64::MIN_POSITIVE,
        f64::from_bits(1),
        1.0 - f64::EPSILON / 2.0,
        1.0 + f64::EPSILON,
        f64::MAX,
        f64::MIN,
        f64::INFINITY,
        f64::NEG_INFINITY,
        f64::NAN,
        -f64::NAN,
    ] {
        assert_eq!(factor(x).is_valid(), x > 0.0 && x < 1.0, "{x}");
    }
}

#[test]
fn config_reports_the_first_problem() {
    let error = |c: Cli| Config::from_cli(c).err();

    let mut c = cli("x");
    c.decay = factor(2.0);
    assert_eq!(error(c), Some(ConfigError::Decay));

    let mut c = cli("x");
    c.floor = "".into();
    assert_eq!(
        error(c),
        Some(ConfigError::Duration(ParseError::UnexpectedChar('x', 0)))
    );

    let mut c = cli("5m");
    c.floor = "".into();
    c.alert_duration = "0s".into();
    assert_eq!(error(c), Some(ConfigError::Floor(ParseError::Empty)));

    let mut c = cli("5m");
    c.alert_duration = "0s".into();
    c.runway = Some("5m5m".into());
    assert_eq!(error(c), Some(ConfigError::AlertDuration(ParseError::Zero)));

    let mut c = cli("5s");
    c.runway = Some("5m5m".into());
    assert_eq!(
        error(c),
        Some(ConfigError::Runway(ParseError::DuplicateUnit('m')))
    );

    let mut c = cli("3s");
    c.runway = Some("2s".into());
    assert_eq!(error(c), Some(ConfigError::DurationNotAboveFloor(3, 5)));

    let mut c = cli("5m");
    c.runway = Some("2s".into());
    assert_eq!(error(c), Some(ConfigError::RunwayNotAboveFloor(2, 5)));

    // The default runway has to be above the floor too.
    let mut c = cli("1h");
    c.floor = "15m".into();
    assert_eq!(error(c), Some(ConfigError::RunwayNotAboveFloor(600, 900)));
}

#[test]
fn config_errors_read_well() {
    assert_eq!(
        ConfigError::Decay.message("1.5"),
        "--decay must be in (0, 1), got 1.5"
    );
    assert_eq!(
        ConfigError::Duration(ParseError::Zero).message("0.5"),
        "invalid <DURATION>: duration must be greater than zero"
    );
    assert_eq!(
        ConfigError::Floor(ParseError::UnexpectedChar('?', 0)).message("0.5"),
        "invalid --floor: unexpected character '?' at position 0"
    );
    assert_eq!(
        ConfigError::AlertDuration(ParseError::MissingUnit).message("0.5"),
        "invalid --alert-duration: missing unit suffix after number"
    );
    assert_eq!(
        ConfigError::Runway(ParseError::Empty).message("0.5"),
        "invalid <RUNWAY>: empty duration string"
    );
    assert_eq!(
        ConfigError::DurationNotAboveFloor(3, 5).message("0.5"),
        "<DURATION> (3s) must be greater than --floor (5s)"
    );
    assert_eq!(
        ConfigError::RunwayNotAboveFloor(600, 900).message("0.5"),
        "<RUNWAY> (600s) must be greater than --floor (900s)"
    );
}
