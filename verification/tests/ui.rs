//! Alerts: backends, what is shown, and for how long.

use nudge::alert::{
    settings, AlertApp, Effect, Flags, KeyboardInteractivity, Layer, Message, Outputs, Rgb,
};
use nudge::time::Duration;
use nudge::ui::iced::IcedLayerShellUi;
use nudge::ui::{UiBackend, UiError};
use std::cell::RefCell;

/// In-memory test backend. Records every alert call so tests can assert
/// on the sequence the timer loop produced.
struct MockUi {
    calls: RefCell<Vec<(String, Option<String>, Duration)>>,
}

impl MockUi {
    fn new() -> Self {
        Self {
            calls: RefCell::new(Vec::new()),
        }
    }
}

impl UiBackend for MockUi {
    fn alert(
        &self,
        message: &str,
        subtitle: Option<&str>,
        duration: Duration,
    ) -> Result<(), UiError> {
        self.calls.borrow_mut().push((
            message.to_owned(),
            subtitle.map(str::to_owned),
            duration,
        ));
        Ok(())
    }
}

#[test]
fn mock_backend_records_calls() {
    // The trait is implementable by a non-iced type, and the recorded
    // arguments match what was passed in. This guards the trait
    // contract: no hidden assumptions, no required state on the
    // implementor, no panics on call.
    let ui = MockUi::new();
    ui.alert("hi", Some("sub"), Duration::from_secs(1)).unwrap();
    ui.alert("bye", None, Duration::from_secs(2)).unwrap();
    let calls = ui.calls.borrow();
    assert_eq!(calls.len(), 2);
    assert_eq!(calls[0].0, "hi");
    assert_eq!(calls[0].1.as_deref(), Some("sub"));
    assert_eq!(calls[0].2, Duration::from_secs(1));
    assert_eq!(calls[1].0, "bye");
    assert_eq!(calls[1].1, None);
    assert_eq!(calls[1].2, Duration::from_secs(2));
}

#[test]
fn ui_error_messages_are_reasonable() {
    // Errors should be informative when displayed.
    let init = UiError::Init("display unavailable".into());
    let runtime = UiError::Runtime("surface lost".into());
    assert!(init.to_string().contains("display unavailable"));
    assert!(runtime.to_string().contains("surface lost"));
    assert_eq!(
        init.to_string(),
        "failed to initialise overlay: display unavailable"
    );
    assert_eq!(runtime.to_string(), "overlay runtime error: surface lost");
}

fn flags(subtitle: Option<&str>) -> Flags {
    IcedLayerShellUi::new().flags("time expired", subtitle, Duration::from_secs(2))
}

#[test]
fn layer_shell_backend_passes_the_alert_on() {
    let shown = flags(Some("locking screen"));
    assert_eq!(shown.message, "time expired");
    assert_eq!(shown.subtitle.as_deref(), Some("locking screen"));
    assert_eq!(shown.duration, Duration::from_secs(2));
    assert_eq!(flags(None).subtitle, None);
}

#[test]
fn layer_shell_backend_reports_failures() {
    let ui = IcedLayerShellUi::default();
    assert!(ui.outcome(Ok(())).is_ok());
    match ui.outcome(Err("surface lost".into())) {
        Err(UiError::Runtime(reason)) => assert_eq!(reason, "surface lost"),
        other => panic!("{other:?}"),
    }
}

#[test]
fn alert_closes_at_its_deadline() {
    let now = Duration::from_millis(500);
    let app = AlertApp::new(flags(None), now);
    assert_eq!(app.update(Message::Tick, now), Effect::Stay);
    assert_eq!(
        app.update(Message::Tick, Duration::new(2, 499_999_999)),
        Effect::Stay
    );
    assert_eq!(
        app.update(Message::Tick, Duration::from_millis(2500)),
        Effect::Exit
    );
    assert_eq!(
        app.update(Message::Tick, Duration::from_secs(9)),
        Effect::Exit
    );
}

#[test]
fn alert_shows_message_and_smaller_subtitle() {
    let now = Duration::from_secs(0);
    let white = Rgb {
        r: 255,
        g: 255,
        b: 255,
    };
    let app = AlertApp::new(flags(Some("next nudge in 5m")), now);
    let screen = app.view();
    assert_eq!(screen.background, Rgb { r: 255, g: 0, b: 0 });
    assert_eq!(screen.lines.len(), 2);
    assert_eq!(screen.lines[0].text, "time expired");
    assert_eq!(screen.lines[0].size, 96);
    assert_eq!(screen.lines[0].color, white);
    assert_eq!(screen.lines[1].text, "next nudge in 5m");
    assert!(screen.lines[1].size < screen.lines[0].size);
    assert_eq!(AlertApp::new(flags(None), now).view().lines.len(), 1);
    assert_eq!(app.namespace(), "nudge.alert");
    assert_eq!(app.tick_interval(), Duration::from_millis(16));
}

#[test]
fn overlay_covers_everything_and_takes_no_input() {
    let settings = settings(flags(Some("locking screen")));
    let layer = settings.layer_settings;
    assert!(layer.anchor.top && layer.anchor.bottom && layer.anchor.left && layer.anchor.right);
    assert_eq!(layer.size, None);
    assert_eq!(layer.margin, (0, 0, 0, 0));
    assert_eq!(layer.exclusive_zone, -1);
    assert_eq!(layer.outputs, Outputs::All);
    assert_eq!(layer.layer, Layer::Overlay);
    assert_eq!(layer.keyboard_interactivity, KeyboardInteractivity::Never);
    assert!(layer.events_transparent);
    assert!(settings.antialiasing);
    assert_eq!(settings.id.as_deref(), Some("nudge"));
    assert_eq!(settings.flags.message, "time expired");
}
