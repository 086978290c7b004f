//! A pomodoro-technique session library.
//!
//! The library holds everything of the timer that computes: validating the
//! three numeric answers a user gives at the prompts (`parse`, `config`),
//! laying out the exact sequence of work phases, break phases, alerts and
//! announcements a run performs (`schedule`), and rendering the progress bar
//! line for an active phase (`progress`). Reading the prompts, waiting the
//! phases out and sounding the alert are left to the program around it, which
//! performs the planned steps in order.

pub mod config;
pub mod parse;
pub mod progress;
pub mod schedule;
