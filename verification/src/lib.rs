//! Core of a desktop status-indicator utility: each configured application is
//! polled for a textual badge value; a change-detecting watcher turns the
//! stream of polled values into deduplicated update events for a display
//! layer. The polling loop, the external status query and the display layer
//! live outside this crate; the change detection, the status-label parsing
//! and the configuration model are verified here.

pub mod app_monitor;
pub mod config;
pub mod probe;
