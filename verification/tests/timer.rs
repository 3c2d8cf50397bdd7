//! Walking through a plan.

use nudge::config::{Config, DecayFactor};
use nudge::plan::Plan;
use nudge::time::Duration;
use nudge::timer::{exit_code, sleep_slice, sleep_until, Step, Timer};
use nudge::ui::UiError;

fn config(initial: u64, runway: u64) -> Config {
    Config {
        initial: Duration::from_secs(initial),
        runway: Duration::from_secs(runway),
        decay: DecayFactor {
            bits: 0.5f64.to_bits(),
        },
        floor: Duration::from_secs(5),
        message: "POMODORO DONE".into(),
        alert_duration: Duration::from_secs(2),
        beep: true,
    }
}

fn timer() -> Timer {
    Timer::new(config(1500, 600), |d| {
        Duration::from_millis(d.as_secs() * 500 + u64::from(d.subsec_nanos() / 2_000_000))
    })
}

#[test]
fn a_run_left_alone_walks_the_plan() {
    let timer = timer();
    assert_eq!(timer.plan.alert_count(), 7);
    let mut slept = Vec::new();
    let mut subtitles = Vec::new();
    let mut locks = 0;
    let mut step = timer.start();
    loop {
        step = match step {
            Step::Sleep(idx) => {
                assert_eq!(locks, 0);
                slept.push(timer.wait(idx));
                timer.after_sleep(idx, false)
            }
            Step::Alert(idx) => {
                assert_eq!(slept.len(), idx + 1);
                let alert = timer.alert(idx);
                assert!(alert.beep);
                assert_eq!(alert.message, "POMODORO DONE");
                assert_eq!(alert.duration, Duration::from_secs(2));
                subtitles.push(alert.subtitle);
                timer.after_alert(idx, Ok(()), false)
            }
            Step::Lock => {
                locks += 1;
                timer.after_lock(Ok(()))
            }
            Step::Done(result) => {
                assert_eq!(result, Ok(()));
                break;
            }
        };
    }
    assert_eq!(slept, timer.plan.waits);
    assert_eq!(locks, 1);
    assert_eq!(
        subtitles,
        vec![
            "next nudge in 5m",
            "next nudge in 2m 30s",
            "next nudge in 1m 15s",
            "next nudge in 37s",
            "next nudge in 18s",
            "next nudge in 9s",
            "locking screen",
        ]
    );
    let total = Plan { waits: slept }.total();
    assert_eq!(total, timer.plan.total());
    assert_eq!(total, Duration::new(2090, 625_000_000));
}

#[test]
fn a_cancelled_sleep_ends_the_run() {
    assert!(matches!(
        timer().after_sleep(0, true),
        Step::Done(Ok(()))
    ));
}

#[test]
fn a_cancelled_alert_ends_the_run_without_a_lock() {
    let timer = timer();
    assert!(matches!(
        timer.after_alert(0, Ok(()), true),
        Step::Done(Ok(()))
    ));
    assert!(matches!(
        timer.after_alert(6, Ok(()), true),
        Step::Done(Ok(()))
    ));
}

#[test]
fn a_failed_alert_ends_the_run_with_an_error() {
    let timer = timer();
    for cancelled in [false, true] {
        let step = timer.after_alert(2, Err(UiError::Runtime("surface lost".into())), cancelled);
        match step {
            Step::Done(Err(reason)) => {
                assert_eq!(reason, "alert failed: overlay runtime error: surface lost")
            }
            other => panic!("{other:?}"),
        }
    }
}

#[test]
fn the_lock_decides_how_the_run_ends() {
    match timer().after_lock(Err("no locker".into())) {
        Step::Done(Err(reason)) => assert_eq!(reason, "no locker"),
        other => panic!("{other:?}"),
    }
}

#[test]
fn a_plan_without_waits_is_done_at_once() {
    let timer = Timer {
        config: config(30, 10),
        plan: Plan { waits: Vec::new() },
    };
    assert!(matches!(timer.start(), Step::Done(Ok(()))));
}

#[test]
fn sleeping_goes_in_short_slices() {
    let slice = Duration::from_millis(100);
    assert_eq!(sleep_slice(Duration::from_secs(60), false), Some(slice));
    assert_eq!(sleep_slice(slice, false), Some(slice));
    let rest = Duration::from_millis(30);
    assert_eq!(sleep_slice(rest, false), Some(rest));
    assert_eq!(sleep_slice(Duration::from_secs(0), false), None);
    assert_eq!(sleep_slice(Duration::from_secs(60), true), None);
}

#[test]
fn sleeping_is_anchored_to_the_deadline() {
    let deadline = Duration::from_secs(60);
    let slice = Duration::from_millis(100);
    let at = |millis| sleep_until(deadline, Duration::from_millis(millis), false);
    assert_eq!(at(0), Some(slice));
    assert_eq!(at(59_900), Some(slice));
    assert_eq!(at(59_970), Some(Duration::from_millis(30)));
    assert_eq!(at(60_000), None);
    assert_eq!(at(61_000), None);
    assert_eq!(sleep_until(deadline, Duration::from_secs(0), true), None);

    // Slices that take half as long again still end at the deadline.
    let mut now = 0;
    while let Some(slice) = at(now) {
        now += u64::from(slice.subsec_nanos() / 1_000_000) * 3 / 2;
    }
    assert!((60_000..60_050).contains(&now));
}

#[test]
fn exit_codes_follow_convention() {
    assert_eq!(exit_code(&Ok(()), false, 0), 0);
    assert_eq!(exit_code(&Ok(()), true, 2), 130);
    assert_eq!(exit_code(&Ok(()), true, 15), 143);
    assert_eq!(exit_code(&Ok(()), true, 0), 143);
    assert_eq!(exit_code(&Err("alert failed".into()), false, 0), 1);
    assert_eq!(exit_code(&Err("alert failed".into()), true, 2), 1);
}
