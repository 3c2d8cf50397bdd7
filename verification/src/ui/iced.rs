//! The Wayland layer-shell backend: what it puts up for an alert, and what
//! it reports when the overlay is gone.
//!
//! Each alert spins up a fresh overlay, which blocks until the alert duration
//! has elapsed and then exits. Nothing is kept alive between alerts.

use super::UiError;
use crate::alert::Flags;
use crate::time::Duration;
use vstd::prelude::*;

verus! {

/// Wayland layer-shell UI backend: a fullscreen red overlay on every output,
/// above all windows including fullscreen.
#[derive(Debug, Clone, Copy, PartialEq, Eq, Structural)]
pub struct IcedLayerShellUi;

impl IcedLayerShellUi {
    /// A backend. It holds nothing.
    pub fn new() -> (ui: Self)
        ensures
            ui == IcedLayerShellUi,
    {
        IcedLayerShellUi
    }

    /// What to put up for an alert.
    pub fn flags(&self, message: &str, subtitle: Option<&str>, duration: Duration) -> (flags: Flags)
        ensures
            flags.message@ == message@,
            crate::alert::optional_text(flags.subtitle) == match subtitle {
                Some(subtitle) => Some(subtitle@),
                None => None,
            },
            flags.duration == duration,
    {
        Flags {
            message: message.to_owned(),
            subtitle: match subtitle {
                Some(subtitle) => Some(subtitle.to_owned()),
                None => None,
            },
            duration,
        }
    }

    /// What an alert comes to after the overlay has run: whatever made it
    /// fail, it failed while it was up.
    pub fn outcome(&self, ran: Result<(), String>) -> (outcome: Result<(), UiError>)
        ensures
            outcome == match ran {
                Ok(()) => Ok::<(), UiError>(()),
                Err(reason) => Err(UiError::Runtime(reason)),
            },
    {
        match ran {
            Ok(()) => Ok(()),
            Err(reason) => Err(UiError::Runtime(reason)),
        }
    }
}

impl Default for IcedLayerShellUi {
    fn default() -> (ui: Self)
        ensures
            ui == IcedLayerShellUi,
    {
        IcedLayerShellUi::new()
    }
}

} // verus!
