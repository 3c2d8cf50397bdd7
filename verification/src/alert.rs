//! One alert: a fullscreen red overlay with centered text that closes by
//! itself after a fixed duration.
//!
//! What the overlay shows, when it closes and how its surface is set up is
//! plain data here. Drawing it is left to a windowing toolkit.
//!
//! The overlay is configured to NOT grab keyboard or pointer input. This is
//! intentional: the alert is a visual nudge, not coercion.

use crate::time::Duration;
use vstd::prelude::*;

verus! {

/// Text size of the message.
pub const MESSAGE_SIZE: u16 = 96;

/// Text size of the subtitle, noticeably smaller than the message.
pub const SUBTITLE_SIZE: u16 = 48;

/// What an alert is to show, and for how long.
#[derive(Debug, Clone)]
pub struct Flags {
    pub message: String,
    pub subtitle: Option<String>,
    pub duration: Duration,
}

/// What happens to an alert while it is up.
#[derive(Debug, Clone, Copy, PartialEq, Eq, Structural)]
pub enum Message {
    /// The clock has moved on.
    Tick,
}

/// What is to be done after a message.
#[derive(Debug, Clone, Copy, PartialEq, Eq, Structural)]
pub enum Effect {
    /// Leave the overlay up.
    Stay,
    /// Close the overlay.
    Exit,
}

/// A color by its red, green and blue parts.
#[derive(Debug, Clone, Copy, PartialEq, Eq, Structural)]
pub struct Rgb {
    pub r: u8,
    pub g: u8,
    pub b: u8,
}

/// One centered line of text.
#[derive(Debug, PartialEq, Eq)]
pub struct Line {
    pub text: String,
    pub size: u16,
    pub color: Rgb,
}

/// What fills the screen: a solid background and lines of text in its
/// middle, top to bottom.
#[derive(Debug, PartialEq, Eq)]
pub struct Screen {
    pub background: Rgb,
    pub lines: Vec<Line>,
}

/// An alert that is up.
///
/// The deadline is a moment on a clock that never goes backwards, as the time
/// since some fixed moment.
pub struct AlertApp {
    message: String,
    subtitle: Option<String>,
    deadline: Duration,
}

/// The text of an optional string.
pub open spec fn optional_text(s: Option<String>) -> Option<Seq<char>> {
    match s {
        Some(s) => Some(s@),
        None => None,
    }
}

impl AlertApp {
    /// The message on the overlay.
    pub closed spec fn message(self) -> Seq<char> {
        self.message@
    }

    /// The text below the message.
    pub closed spec fn subtitle(self) -> Option<Seq<char>> {
        optional_text(self.subtitle)
    }

    /// When the overlay closes, in nanoseconds.
    pub closed spec fn deadline(self) -> nat {
        self.deadline@
    }

    /// Put up an alert at the moment `now`.
    pub fn new(flags: Flags, now: Duration) -> (app: AlertApp)
        requires
            now@ + flags.duration@ <= crate::time::MAX_NANOS,
        ensures
            app.message() == flags.message@,
            app.subtitle() == optional_text(flags.subtitle),
            app.deadline() == now@ + flags.duration@,
    {
        let deadline = now.checked_add(flags.duration).unwrap();
        AlertApp { message: flags.message, subtitle: flags.subtitle, deadline }
    }

    /// The name of the surface.
    pub fn namespace(&self) -> (name: String)
        ensures
            name@ == "nudge.alert"@,
    {
        "nudge.alert".to_owned()
    }

    /// How often the clock is looked at. At 60Hz it is cheap, and all there
    /// is to know is whether the deadline is past.
    pub fn tick_interval(&self) -> (interval: Duration)
        ensures
            interval@ == 16 * crate::time::NANOS_PER_MILLI,
    {
        Duration::from_millis(16)
    }

    /// React to a message at the moment `now`: from the deadline on, close.
    pub fn update(&self, msg: Message, now: Duration) -> (effect: Effect)
        ensures
            effect == match msg {
                Message::Tick => if now@ >= self.deadline() {
                    Effect::Exit
                } else {
                    Effect::Stay
                },
            },
    {
        match msg {
            Message::Tick => {
                if now >= self.deadline {
                    Effect::Exit
                } else {
                    Effect::Stay
                }
            },
        }
    }

    /// What the overlay shows: solid red, the message in large white text,
    /// and below it the subtitle, smaller, where there is one.
    pub fn view(&self) -> (screen: Screen)
        ensures
            screen.background == (Rgb { r: 255, g: 0, b: 0 }),
            screen.lines@.len() == if self.subtitle() is Some {
                2int
            } else {
                1
            },
            screen.lines@[0].text@ == self.message(),
            screen.lines@[0].size == MESSAGE_SIZE,
            screen.lines@[0].color == (Rgb { r: 255, g: 255, b: 255 }),
            self.subtitle() matches Some(subtitle) ==> {
                &&& screen.lines@[1].text@ == subtitle
                &&& screen.lines@[1].size == SUBTITLE_SIZE
                &&& screen.lines@[1].color == (Rgb { r: 255, g: 255, b: 255 })
            },
            forall|i: int|
                1 <= i < screen.lines@.len() ==> (#[trigger] screen.lines@[i]).size
                    < screen.lines@[0].size,
    {
        let white = Rgb { r: 255, g: 255, b: 255 };
        let mut lines: Vec<Line> = Vec::new();
        lines.push(Line { text: self.message.clone(), size: MESSAGE_SIZE, color: white });
        if let Some(subtitle) = &self.subtitle {
            lines.push(Line { text: subtitle.clone(), size: SUBTITLE_SIZE, color: white });
        }
        Screen { background: Rgb { r: 255, g: 0, b: 0 }, lines }
    }
}

/// The edges of an output that a surface is attached to.
#[derive(Debug, Clone, Copy, PartialEq, Eq, Structural)]
pub struct Anchor {
    pub top: bool,
    pub bottom: bool,
    pub left: bool,
    pub right: bool,
}

/// The layers of surfaces, lowest first.
#[derive(Debug, Clone, Copy, PartialEq, Eq, Structural)]
pub enum Layer {
    Background,
    Bottom,
    Top,
    /// Above all windows, fullscreen ones too.
    Overlay,
}

/// Whether a surface takes the keyboard.
#[derive(Debug, Clone, Copy, PartialEq, Eq, Structural)]
pub enum KeyboardInteractivity {
    Never,
    Exclusive,
    OnDemand,
}

/// The outputs that a surface is shown on.
#[derive(Debug, Clone, Copy, PartialEq, Eq, Structural)]
pub enum Outputs {
    Active,
    All,
}

/// How the surface of an overlay is set up.
#[derive(Debug, Clone, Copy, PartialEq, Eq)]
pub struct LayerShellSettings {
    /// Width and height, or `None` for what the anchor gives.
    pub size: Option<(u32, u32)>,
    pub anchor: Anchor,
    pub layer: Layer,
    pub keyboard_interactivity: KeyboardInteractivity,
    /// Whether pointer input goes through to what lies below.
    pub events_transparent: bool,
    /// Distance from each of the four edges.
    pub margin: (i32, i32, i32, i32),
    /// The space that other surfaces leave free, or -1 to ignore what they
    /// ask for.
    pub exclusive_zone: i32,
    pub outputs: Outputs,
}

impl LayerShellSettings {
    /// Whether the surface fills each output it is on.
    pub open spec fn fills_output(self) -> bool {
        &&& self.anchor.top && self.anchor.bottom && self.anchor.left && self.anchor.right
        &&& self.size is None
        &&& self.margin == (0i32, 0i32, 0i32, 0i32)
        &&& self.exclusive_zone == -1
    }

    /// Whether the surface leaves keyboard and pointer to what lies below.
    pub open spec fn leaves_input_alone(self) -> bool {
        &&& self.keyboard_interactivity == KeyboardInteractivity::Never
        &&& self.events_transparent
    }
}

/// All that is needed to put up an alert.
#[derive(Debug)]
pub struct Settings {
    pub layer_settings: LayerShellSettings,
    pub flags: Flags,
    pub antialiasing: bool,
    pub id: Option<String>,
}

/// Build the layer-shell settings for the alert overlay.
///
/// Anchor on all four edges with no size override -> cover the entire output.
/// Layer = Overlay -> sits above fullscreen windows.
/// KeyboardInteractivity::Never and transparent to events -> no input grab,
/// purely visual.
pub fn settings(flags: Flags) -> (settings: Settings)
    ensures
        settings.layer_settings.fills_output(),
        settings.layer_settings.outputs == Outputs::All,
        settings.layer_settings.layer == Layer::Overlay,
        settings.layer_settings.leaves_input_alone(),
        settings.flags == flags,
        settings.antialiasing,
        optional_text(settings.id) == Some("nudge"@),
{
    Settings {
        layer_settings: LayerShellSettings {
            size: None,
            anchor: Anchor { top: true, bottom: true, left: true, right: true },
            layer: Layer::Overlay,
            keyboard_interactivity: KeyboardInteractivity::Never,
            events_transparent: true,
            margin: (0, 0, 0, 0),
            exclusive_zone: -1,
            outputs: Outputs::All,
        },
        flags,
        antialiasing: true,
        id: Some("nudge".to_owned()),
    }
}

/// An optional text is there exactly if the string is, and is its text.
pub proof fn optional_text_is_the_text(s: String)
    ensures
        optional_text(Some(s)) == Some(s@),
        optional_text(None) is None,
{
}

/// A surface fills its outputs if it is attached to all four edges without a
/// size, a margin or room for others, and leaves input alone if it takes
/// neither the keyboard nor the pointer. Nothing less will do.
pub proof fn overlay_is_purely_visual(settings: LayerShellSettings)
    ensures
        settings.fills_output() <==> settings.anchor.top && settings.anchor.bottom
            && settings.anchor.left && settings.anchor.right && settings.size is None
            && settings.margin.0 == 0 && settings.margin.1 == 0 && settings.margin.2 == 0
            && settings.margin.3 == 0 && settings.exclusive_zone == -1,
        settings.leaves_input_alone() <==> settings.keyboard_interactivity
            == KeyboardInteractivity::Never && settings.events_transparent,
{
}

} // verus!
