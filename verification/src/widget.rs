//! Plain data types shared by widget providers and renderers.

use vstd::prelude::*;

verus! {

/// Semantic version of the widget API contract.
pub const WIDGET_API_VERSION: &'static str = "1.7.0";

/// One row in the disk summary shown in the disk widget's tooltip.
#[derive(Debug, Clone, PartialEq, Eq)]
pub struct DiskEntry {
    /// Mount point path (e.g. `"/"`, `"/home"`).
    pub mount: String,
    /// Bytes currently in use.
    pub used_bytes: u64,
    /// Total bytes on the filesystem.
    pub total_bytes: u64,
}

/// Temperature display unit for the weather widget.
#[derive(Debug, Clone, Copy, PartialEq, Eq, Structural)]
pub enum TempUnit {
    /// Degrees Celsius.
    Celsius,
    /// Degrees Fahrenheit.
    Fahrenheit,
}

/// MPRIS2 playback status. `Stopped` also stands for "no player present".
#[derive(Debug, Clone, Copy, PartialEq, Eq, Structural)]
pub enum PlaybackStatus {
    /// A track is actively playing.
    Playing,
    /// Playback is paused.
    Paused,
    /// The player is stopped or no player is present.
    Stopped,
}

/// Battery charging status as reported by the power-supply `status` file.
#[derive(Debug, Clone, Copy, PartialEq, Eq, Structural)]
pub enum BatteryStatus {
    /// The battery is actively charging.
    Charging,
    /// The battery is discharging.
    Discharging,
    /// The battery is full (or not charging).
    Full,
    /// The status string was not recognised or is absent.
    Unknown,
}

} // verus!
