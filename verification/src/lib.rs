//! Core of a fan-out/fan-in command runner: one line of input is piped to
//! several independently configured external commands, and each command's
//! trimmed output or failure description is delivered, as it becomes ready,
//! to a single consumer that owns the presentation slots.

pub mod command;
pub mod config;
pub mod dispatch;
pub mod panel;
pub mod text;
pub mod worker;
