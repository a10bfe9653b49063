//! Verified core of the Parapet status bar.
//!
//! The crate holds the logic of the bar that does not need a display or the
//! operating system: configuration defaults and validation, the interval
//! scheduler that drives widget refreshes, parsers for the text that system
//! tools print, ranking of launcher search results, and the decisions that
//! turn widget data into bar labels. Everything that touches GTK, sysfs,
//! D-Bus, the network or the system time lives in the application around it.

pub mod bar;
pub mod clock;
pub mod config;
pub mod dropdown;
pub mod frames_config;
pub mod labels;
pub mod launcher;
pub mod numbers;
pub mod paths;
pub mod poll;
pub mod providers;
pub mod setup;
pub mod text;
pub mod validation;
pub mod volume;
pub mod widget;
pub mod workspaces;
