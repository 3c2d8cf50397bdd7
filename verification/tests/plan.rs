//! The wait schedule and what is shown of it.

use nudge::duration::parse;
use nudge::plan::{default_runway, humanize, plan, Plan};
use nudge::time::Duration;

/// Multiply a length of time by a factor, in floating point.
fn decay(prev: Duration, factor: f64) -> Duration {
    let secs = std::time::Duration::new(prev.as_secs(), prev.subsec_nanos()).as_secs_f64() * factor;
    let next = if secs.is_finite() && secs >= 0.0 {
        std::time::Duration::from_secs_f64(secs)
    } else {
        std::time::Duration::ZERO
    };
    Duration::new(next.as_secs(), next.subsec_nanos())
}

fn secs_f64(d: &Duration) -> f64 {
    std::time::Duration::new(d.as_secs(), d.subsec_nanos()).as_secs_f64()
}

/// Helper: build a Plan from human-readable durations.
fn p(initial: &str, runway: &str, factor: f64, floor: &str) -> Plan {
    plan(
        parse(initial).unwrap(),
        parse(runway).unwrap(),
        |wait| decay(wait, factor),
        parse(floor).unwrap(),
    )
}

/// Helper: the waits after the initial one, added up.
fn tail(plan: &Plan) -> Duration {
    Plan {
        waits: plan.waits[1..].to_vec(),
    }
    .total()
}

#[test]
fn humanize_seconds_only() {
    assert_eq!(humanize(Duration::from_secs(5)), "5s");
    assert_eq!(humanize(Duration::from_secs(45)), "45s");
}

#[test]
fn humanize_minutes_only() {
    assert_eq!(humanize(Duration::from_secs(60)), "1m");
    assert_eq!(humanize(Duration::from_secs(300)), "5m");
}

#[test]
fn humanize_minutes_and_seconds() {
    assert_eq!(humanize(Duration::from_secs(150)), "2m 30s");
    assert_eq!(humanize(Duration::from_secs(75)), "1m 15s");
}

#[test]
fn humanize_hours() {
    assert_eq!(humanize(Duration::from_secs(3600)), "1h");
    assert_eq!(humanize(Duration::from_secs(5400)), "1h 30m");
    assert_eq!(humanize(Duration::from_secs(7290)), "2h 1m");
}

#[test]
fn default_runway_short_initial() {
    // Anything below 2h gets the short default.
    assert_eq!(
        default_runway(Duration::from_secs(60)),
        Duration::from_secs(600)
    );
    assert_eq!(
        default_runway(Duration::from_secs(3600)),
        Duration::from_secs(600)
    );
    assert_eq!(
        default_runway(Duration::from_secs(2 * 3600 - 1)),
        Duration::from_secs(600),
    );
}

#[test]
fn default_runway_long_initial() {
    // 2h on the dot or longer gets the long default.
    assert_eq!(
        default_runway(Duration::from_secs(2 * 3600)),
        Duration::from_secs(20 * 60),
    );
    assert_eq!(
        default_runway(Duration::from_secs(4 * 3600)),
        Duration::from_secs(20 * 60),
    );
}

#[test]
fn humanize_zero() {
    assert_eq!(humanize(Duration::from_secs(0)), "0s");
}

#[test]
fn humanize_exactly_one_minute() {
    // 60s should render as "1m", not "60s": minute boundary takes priority.
    assert_eq!(humanize(Duration::from_secs(60)), "1m");
}

#[test]
fn humanize_exactly_one_hour() {
    // 3600s should render as "1h", not "60m".
    assert_eq!(humanize(Duration::from_secs(3600)), "1h");
}

#[test]
fn humanize_drops_seconds_above_one_hour() {
    // Above 1h, sub-minute precision is intentionally dropped.
    // 1h 0m 30s -> "1h", not "1h 0m 30s".
    assert_eq!(humanize(Duration::from_secs(3630)), "1h");
    // 1h 5m 45s -> "1h 5m" (seconds dropped).
    assert_eq!(humanize(Duration::from_secs(3945)), "1h 5m");
}

#[test]
fn humanize_just_under_one_minute() {
    // 59s stays in seconds.
    assert_eq!(humanize(Duration::from_secs(59)), "59s");
}

#[test]
fn humanize_just_under_one_hour() {
    // 59m 59s stays as "59m 59s": no rounding up to "1h".
    assert_eq!(humanize(Duration::from_secs(3599)), "59m 59s");
}

#[test]
fn humanize_cuts_to_whole_seconds() {
    assert_eq!(humanize(Duration::new(9, 375_000_000)), "9s");
    assert_eq!(
        humanize(Duration::from_secs(u64::MAX)),
        "5124095576030431h"
    );
}

#[test]
fn humanized_form_reads_back() {
    for secs in [1, 45, 59, 60, 61, 150, 3599, 3600, 3630, 5400, 7290, 86_399] {
        let text = humanize(Duration::from_secs(secs)).replace(' ', "");
        let shown = if secs < 3600 { secs } else { secs - secs % 60 };
        assert_eq!(parse(&text), Ok(Duration::from_secs(shown)));
    }
}

#[test]
fn plan_single_alert_when_runway_decays_to_floor_immediately() {
    // 30s 10s -> first decay 10s × 0.5 = 5s = floor -> stop.
    // Only the initial wait is scheduled; the alert it precedes is final.
    let plan = p("30s", "10s", 0.5, "5s");
    assert_eq!(plan.alert_count(), 1);
    assert_eq!(plan.waits, vec![Duration::from_secs(30)]);
}

#[test]
fn plan_25m_with_default_runway_matches_readme() {
    // 25m -> ~35 minutes total, ending in lock.
    let plan = p("25m", "10m", 0.5, "5s");
    assert_eq!(plan.alert_count(), 7);

    // First wait is the initial duration.
    assert_eq!(plan.waits[0], Duration::from_secs(25 * 60));

    // Tail values: 5m, 2m30s, 1m15s, 37.5s, 18.75s, 9.375s.
    let tail_secs: Vec<f64> = plan.waits[1..].iter().map(secs_f64).collect();
    assert_eq!(tail_secs, vec![300.0, 150.0, 75.0, 37.5, 18.75, 9.375]);

    // Total ~ 25m + 9m50s ~ 34m50s.
    let total = plan.total();
    assert!(
        total >= Duration::from_secs(34 * 60 + 45) && total <= Duration::from_secs(35 * 60 + 5),
        "expected total ~35min, got {total:?}",
    );
}

#[test]
fn plan_2h_15m_train_example() {
    // 2h 15m -> alert at 2h, then ~15m of nudges.
    let plan = p("2h", "15m", 0.5, "5s");
    assert_eq!(plan.waits[0], Duration::from_secs(2 * 3600));

    // Tail (excluding initial) should sum to roughly the runway value.
    // Geometric series: 15m × Σ(0.5^k for k=1..) ≈ 15m as floor approaches 0.
    // With a 5s floor we lose the smallest terms, so it's a bit less.
    let tail = tail(&plan);
    let runway = Duration::from_secs(15 * 60);
    let half_runway = Duration::from_secs(15 * 30);
    // Tail is ~runway × (1 - epsilon). Allow generous bounds.
    assert!(
        tail >= half_runway && tail <= runway,
        "expected tail in (runway/2, runway], got {tail:?} vs runway={runway:?}",
    );

    // Total should land within ~30s of (initial + runway).
    let total = secs_f64(&plan.total());
    let expected = (2 * 3600 + 15 * 60) as f64;
    let diff = (total - expected).abs();
    assert!(
        diff < 30.0,
        "total {total:?} expected ~{expected:?} (diff {diff:?})",
    );
}

#[test]
fn plan_first_alert_always_at_initial_duration() {
    // No matter what the runway is, the very first wait equals initial.
    for (init, run) in [("1m", "30s"), ("2h", "20m"), ("5m", "20m"), ("30s", "10s")] {
        let plan = p(init, run, 0.5, "5s");
        assert_eq!(plan.waits[0], parse(init).unwrap());
    }
}

#[test]
fn plan_strictly_decreasing_after_initial() {
    // Each post-initial wait must be shorter than the one before it
    // (decay factor < 1).
    let plan = p("1h", "30m", 0.5, "5s");
    for window in plan.waits[1..].windows(2) {
        assert!(window[0] > window[1], "tail not decreasing: {window:?}");
    }
}

#[test]
fn plan_terminates_for_high_decay_factor() {
    // factor=0.99 means tail shrinks slowly. Must still terminate before
    // the test times out (5s floor is well above 0).
    let plan = p("10m", "1m", 0.99, "5s");
    assert!(plan.alert_count() < 1000, "plan grew too large");
    assert!(plan.alert_count() > 1);
}

#[test]
fn plan_floor_at_or_above_runway_yields_one_alert() {
    // If floor is so high that the first decay step is already below it,
    // we get a single alert (the initial one) and lock.
    let plan = p("5m", "10s", 0.5, "10s");
    assert_eq!(plan.alert_count(), 1);
    assert_eq!(plan.waits, vec![Duration::from_secs(300)]);
}

#[test]
fn plan_subtitle_humanization_is_nonempty() {
    // For every scheduled wait, the humanized form must be non-empty:
    // it's what gets shown to the user as the alert subtitle.
    let plan = p("1h", "20m", 0.5, "5s");
    for w in &plan.waits {
        assert!(!humanize(*w).is_empty(), "empty subtitle for {w:?}");
    }
}

#[test]
fn plan_long_initial_short_runway_useful_pattern() {
    // The "don't miss the train" pattern: long initial, short runway.
    // Should produce one alert at the deadline, then a couple of close-
    // together nudges, then lock.
    let plan = p("2h", "1m", 0.5, "5s");
    assert!(plan.alert_count() >= 2);
    assert_eq!(plan.waits[0], Duration::from_secs(2 * 3600));

    // Tail should sum to less than runway (it's a partial geometric
    // series cut off at the floor).
    let tail = tail(&plan);
    assert!(tail <= Duration::from_secs(60));
}

#[test]
fn plan_decays_from_the_runway_and_stays_above_the_floor() {
    let plan = plan(
        Duration::from_secs(100),
        Duration::from_secs(81),
        |wait| Duration::from_secs(wait.as_secs() / 3),
        Duration::from_secs(1),
    );
    let secs: Vec<u64> = plan.waits.iter().map(|w| w.as_secs()).collect();
    assert_eq!(secs, vec![100, 27, 9, 3]);
    assert_eq!(plan.total(), Duration::from_secs(139));
}

#[test]
fn total_of_no_waits_is_zero() {
    let plan = Plan { waits: Vec::new() };
    assert_eq!(plan.alert_count(), 0);
    assert!(plan.total().is_zero());
}

#[test]
fn halving_stays_within_two_floors_of_the_runway() {
    for (runway, floor) in [("10m", "5s"), ("15m", "5s"), ("20m", "30s"), ("1m", "1s")] {
        let plan = p("1h", runway, 0.5, floor);
        let tail = tail(&plan);
        let runway = parse(runway).unwrap();
        let floor = parse(floor).unwrap();
        assert!(tail <= runway);
        let reach = tail.checked_add(floor).unwrap().checked_add(floor).unwrap();
        assert!(runway <= reach);
    }
}

#[test]
fn same_parameters_give_the_same_plan() {
    assert_eq!(p("25m", "10m", 0.7, "5s"), p("25m", "10m", 0.7, "5s"));
}

#[test]
fn total_is_the_initial_wait_and_the_tail() {
    let plan = p("25m", "10m", 0.5, "5s");
    assert_eq!(
        plan.waits[0].checked_add(tail(&plan)),
        Some(plan.total())
    );
    assert_eq!(plan.total(), Duration::new(2090, 625_000_000));
}
