//! Choosing how to lock the screen.

use nudge::locker::{LockStep, Locker};

fn commands(current: &str, session: &str) -> Vec<(String, bool)> {
    Locker::new(current, session)
        .attempts
        .iter()
        .map(|a| (a.argv.join(" "), a.detached))
        .collect()
}

fn list(commands: &[(&str, bool)]) -> Vec<(String, bool)> {
    commands
        .iter()
        .map(|(command, detached)| (command.to_string(), *detached))
        .collect()
}

#[test]
fn unknown_desktop_tries_the_generic_lockers() {
    let generic = list(&[
        ("loginctl lock-session", false),
        ("hyprlock", true),
        ("swaylock", true),
        ("waylock", true),
        ("xdg-screensaver lock", false),
    ]);
    assert_eq!(commands("", ""), generic);
    assert_eq!(commands("sway", "kd"), generic);
    // A name does not stretch over the two values.
    assert_eq!(commands("kd", "e"), generic);
}

#[test]
fn hyprland_tries_hyprlock_first() {
    let expected = list(&[
        ("loginctl lock-session", false),
        ("hyprlock", true),
        ("hyprlock", true),
        ("swaylock", true),
        ("waylock", true),
        ("xdg-screensaver lock", false),
    ]);
    assert_eq!(commands("Hyprland", ""), expected);
    assert_eq!(commands("", "hyprland-session"), expected);
}

#[test]
fn kde_tries_the_bus() {
    let expected = list(&[
        ("loginctl lock-session", false),
        ("qdbus org.freedesktop.ScreenSaver /ScreenSaver Lock", false),
        (
            "dbus-send --session --dest=org.freedesktop.ScreenSaver --type=method_call /ScreenSaver org.freedesktop.ScreenSaver.Lock",
            false,
        ),
        ("hyprlock", true),
        ("swaylock", true),
        ("waylock", true),
        ("xdg-screensaver lock", false),
    ]);
    assert_eq!(commands("KDE", ""), expected);
    assert_eq!(commands("", "plasmawayland"), expected);
}

#[test]
fn gnome_tries_its_screensaver() {
    let expected = list(&[
        ("loginctl lock-session", false),
        ("gnome-screensaver-command --lock", false),
        ("hyprlock", true),
        ("swaylock", true),
        ("waylock", true),
        ("xdg-screensaver lock", false),
    ]);
    assert_eq!(commands("ubuntu:GNOME", "ubuntu"), expected);
    assert_eq!(commands("Unity", ""), expected);
}

#[test]
fn the_first_way_that_works_wins() {
    let locker = Locker::new("", "");
    let mut tried = Vec::new();
    let mut step = locker.start();
    while let LockStep::Try(idx) = step {
        tried.push(locker.attempts[idx].argv[0]);
        let outcome = if idx == 2 {
            Ok(())
        } else {
            Err(format!("reason {idx}"))
        };
        step = locker.after_attempt(idx, outcome);
    }
    assert!(matches!(step, LockStep::Locked));
    assert_eq!(tried, vec!["loginctl", "hyprlock", "swaylock"]);
}

#[test]
fn locking_fails_with_the_error_from_the_last_way() {
    let locker = Locker::new("", "");
    let mut tried = 0;
    let mut step = locker.start();
    while let LockStep::Try(idx) = step {
        assert_eq!(idx, tried);
        tried += 1;
        step = locker.after_attempt(idx, Err(format!("reason {idx}")));
    }
    assert_eq!(tried, 5);
    match step {
        LockStep::Failed(reason) => assert_eq!(reason, "reason 4"),
        other => panic!("{other:?}"),
    }
}

#[test]
fn locking_fails_at_once_with_nothing_to_try() {
    let locker = Locker {
        attempts: Vec::new(),
    };
    match locker.start() {
        LockStep::Failed(reason) => assert_eq!(
            reason,
            "could not find a screen locker; tried loginctl, hyprlock, swaylock, waylock, gnome-screensaver-command, xdg-screensaver. Install one or ensure loginctl lock-session works."
        ),
        other => panic!("{other:?}"),
    }
}
