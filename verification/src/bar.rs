//! Geometry of the bar window: where it sits on its monitor and the screen
//! space it reserves from other windows (the EWMH strut).

use vstd::prelude::*;
use crate::config::BarPosition;

verus! {

/// The `_NET_WM_STRUT_PARTIAL` values reserving `height` pixels along the
/// bar's edge, over the monitor's horizontal extent `[x, x + width)`:
/// left, right, top, bottom, then the start/end pairs of the left, right,
/// top and bottom edges.
pub open spec fn strut_of(position: BarPosition, height: u32, x: u32, width: u32) -> Seq<u32> {
    match position {
        BarPosition::Top => seq![0, 0, height, 0, 0, 0, 0, 0, x, (x + width) as u32, 0, 0],
        BarPosition::Bottom => seq![0, 0, 0, height, 0, 0, 0, 0, 0, 0, x, (x + width) as u32],
    }
}

/// Compute the partial strut of a bar of `height` pixels on the monitor
/// whose geometry starts at `monitor_x` and is `monitor_width` wide (both
/// reinterpreted as unsigned, as the window system takes them).
pub fn strut_partial(position: BarPosition, height: u32, monitor_x: i32, monitor_width: i32) -> (r: [u32; 12])
    requires
        (monitor_x as u32) + (monitor_width as u32) <= u32::MAX,
    ensures
        r@ == strut_of(position, height, monitor_x as u32, monitor_width as u32),
{
    let x = monitor_x as u32;
    let w = monitor_width as u32;
    let r = match position {
        BarPosition::Top => [0, 0, height, 0, 0, 0, 0, 0, x, x + w, 0, 0],
        BarPosition::Bottom => [0, 0, 0, height, 0, 0, 0, 0, 0, 0, x, x + w],
    };
    assert(r@ =~= strut_of(position, height, x, w));
    r
}

/// The legacy `_NET_WM_STRUT` values: the first four of the partial strut.
pub fn strut_legacy(partial: &[u32; 12]) -> (r: [u32; 4])
    ensures
        r@ == partial@.take(4),
{
    let r = [partial[0], partial[1], partial[2], partial[3]];
    assert(r@ =~= partial@.take(4));
    r
}

/// Vertical position of the bar's window: the monitor's top edge, or its
/// bottom edge minus the bar height.
pub open spec fn bar_y_of(position: BarPosition, monitor_y: i32, monitor_height: i32, height: u32) -> int {
    match position {
        BarPosition::Top => monitor_y as int,
        BarPosition::Bottom => monitor_y + monitor_height - (height as i32),
    }
}

/// Where the bar's window goes vertically on its monitor.
pub fn bar_y(position: BarPosition, monitor_y: i32, monitor_height: i32, height: u32) -> (y: i32)
    requires
        position is Bottom ==> i32::MIN <= monitor_y + monitor_height <= i32::MAX,
        position is Bottom ==> i32::MIN <= monitor_y + monitor_height - (height as i32) <= i32::MAX,
    ensures
        y == bar_y_of(position, monitor_y, monitor_height, height),
{
    match position {
        BarPosition::Top => monitor_y,
        BarPosition::Bottom => monitor_y + monitor_height - (height as i32),
    }
}

} // verus!
