//! An escalating self-nudge timer: the part of it that is arithmetic, text
//! and decisions.
//!
//! Nothing in here sleeps, draws, spawns processes or reads a clock. What
//! does so hands in plain values and acts on the plain values it gets back.

pub mod alert;
pub mod config;
pub mod duration;
pub mod locker;
pub mod plan;
pub mod text;
pub mod time;
pub mod timer;
pub mod ui;
