//! UI backend abstraction for showing the red alert overlay.
//!
//! The timer core is UI-agnostic. Concrete backends live in submodules:
//!   - [`iced`]: Wayland layer-shell (default)
//!
//! Future backends (X11, macOS) need only implement [`UiBackend`].

use crate::time::Duration;
use vstd::prelude::*;

pub mod iced;

verus! {

/// Errors a UI backend may return when showing an alert.
#[derive(Debug)]
pub enum UiError {
    /// The overlay could not be set up.
    Init(String),
    /// The overlay failed while it was up.
    Runtime(String),
}

impl UiError {
    /// The wording of the error.
    pub open spec fn text(self) -> Seq<char> {
        match self {
            UiError::Init(reason) => "failed to initialise overlay: "@ + reason@,
            UiError::Runtime(reason) => "overlay runtime error: "@ + reason@,
        }
    }

    /// The error in words.
    pub fn to_string(&self) -> (text: String)
        ensures
            text@ == self.text(),
    {
        match self {
            UiError::Init(reason) => "failed to initialise overlay: ".to_owned().concat(
                reason.as_str(),
            ),
            UiError::Runtime(reason) => "overlay runtime error: ".to_owned().concat(
                reason.as_str(),
            ),
        }
    }
}

/// A UI backend capable of showing a single fullscreen red alert overlay.
///
/// Implementations must:
///   - cover all monitors
///   - render above all windows including fullscreen
///   - NOT grab keyboard or pointer input (visual only)
///   - block until the overlay has been visible for `duration`, then return
pub trait UiBackend {
    /// Show the alert for `duration`, then return.
    ///
    /// `message` is the primary text (large, centered).
    /// `subtitle` is optional smaller text shown below the message (e.g.
    /// "next nudge in 2m 30s" or "locking now"). Backends should render it
    /// at a noticeably smaller size than `message`, or omit it if `None`.
    fn alert(&self, message: &str, subtitle: Option<&str>, duration: Duration) -> Result<
        (),
        UiError,
    >;
}

/// The wording of an error says what failed, and ends in the reason.
pub proof fn errors_give_the_reason(reason: String)
    ensures
        UiError::Init(reason).text() == "failed to initialise overlay: "@ + reason@,
        UiError::Runtime(reason).text() == "overlay runtime error: "@ + reason@,
{
}

} // verus!
