//! How the launcher's dropdown answers clicks, pointer crossings and its
//! two timers: a delayed open on hover over the button, and a delayed close
//! once the pointer has left both the button and the dropdown, so that the
//! pointer can travel from one to the other. Crossings into or out of a
//! child widget ("inferior" crossings) are ignored.
//!
//! The application keeps the GTK side: it reports each event with whether
//! the dropdown is visible, and carries out the returned actions in the
//! order of the fields: cancel timers, hide or show, start timers.

use vstd::prelude::*;

verus! {

/// Milliseconds between the pointer leaving and the dropdown closing.
pub const CLOSE_DELAY_MS: u64 = 250u64;

/// Which of the dropdown's timers are pending.
#[derive(Debug, Clone, Copy, PartialEq, Eq, Structural)]
pub struct DropdownTimers {
    /// A hover-open timer is running.
    pub open_pending: bool,
    /// A close timer is running.
    pub close_pending: bool,
}

/// What happened to the launcher button or its dropdown.
#[derive(Debug, Clone, Copy, PartialEq, Eq, Structural)]
pub enum DropdownEvent {
    /// The button was clicked.
    Clicked,
    /// The pointer entered the button; `inferior` when it came from a child.
    ButtonEntered { inferior: bool },
    /// The pointer left the button; `inferior` when it went into a child.
    ButtonLeft { inferior: bool },
    /// The pointer entered the dropdown.
    PopupEntered { inferior: bool },
    /// The pointer left the dropdown.
    PopupLeft { inferior: bool },
    /// The hover-open timer fired.
    OpenTimerFired,
    /// The close timer fired.
    CloseTimerFired,
}

/// What the application does in answer to an event, in field order.
#[derive(Debug, Clone, Copy, PartialEq, Eq, Structural)]
pub struct DropdownActions {
    /// Cancel a pending hover-open timer.
    pub cancel_open_timer: bool,
    /// Cancel a pending close timer.
    pub cancel_close_timer: bool,
    /// Hide the dropdown.
    pub hide: bool,
    /// Show the dropdown, refilled and placed below the button; `Some(true)`
    /// also moves keyboard focus to its search entry.
    pub show: Option<bool>,
    /// Start the hover-open timer with this many milliseconds.
    pub start_open_timer: Option<u64>,
    /// Start the close timer with this many milliseconds.
    pub start_close_timer: Option<u64>,
}

/// Doing nothing.
pub open spec fn no_actions() -> DropdownActions {
    DropdownActions {
        cancel_open_timer: false,
        cancel_close_timer: false,
        hide: false,
        show: None,
        start_open_timer: None,
        start_close_timer: None,
    }
}

/// The answer to `event` while the dropdown is `visible`:
/// - a click cancels a pending close and toggles the dropdown, opening it
///   with focus on the search entry;
/// - entering the button cancels both timers and, when the dropdown is
///   hidden, opens it at once (a zero `hover_delay_ms`) or starts the
///   hover-open timer;
/// - leaving the button cancels a pending open and (re)starts the close
///   timer; leaving the dropdown (re)starts the close timer; entering the
///   dropdown cancels a pending close;
/// - the hover-open timer shows the dropdown without focus, the close timer
///   hides it;
/// - crossings from or into a child widget change nothing.
pub open spec fn dropdown_actions(event: DropdownEvent, visible: bool, hover_delay_ms: u64) -> DropdownActions {
    match event {
        DropdownEvent::Clicked => DropdownActions {
            cancel_close_timer: true,
            hide: visible,
            show: if visible {
                None
            } else {
                Some(true)
            },
            ..no_actions()
        },
        DropdownEvent::ButtonEntered { inferior } => if inferior {
            no_actions()
        } else {
            DropdownActions {
                cancel_open_timer: true,
                cancel_close_timer: true,
                show: if !visible && hover_delay_ms == 0 {
                    Some(false)
                } else {
                    None
                },
                start_open_timer: if !visible && hover_delay_ms > 0 {
                    Some(hover_delay_ms)
                } else {
                    None
                },
                ..no_actions()
            }
        },
        DropdownEvent::ButtonLeft { inferior } => if inferior {
            no_actions()
        } else {
            DropdownActions {
                cancel_open_timer: true,
                cancel_close_timer: true,
                start_close_timer: Some(CLOSE_DELAY_MS),
                ..no_actions()
            }
        },
        DropdownEvent::PopupEntered { inferior } => if inferior {
            no_actions()
        } else {
            DropdownActions { cancel_close_timer: true, ..no_actions() }
        },
        DropdownEvent::PopupLeft { inferior } => if inferior {
            no_actions()
        } else {
            DropdownActions {
                cancel_close_timer: true,
                start_close_timer: Some(CLOSE_DELAY_MS),
                ..no_actions()
            }
        },
        DropdownEvent::OpenTimerFired => DropdownActions { show: Some(false), ..no_actions() },
        DropdownEvent::CloseTimerFired => DropdownActions { hide: true, ..no_actions() },
    }
}

/// The timers pending after `event` was answered with `a`: a timer that
/// fired or was cancelled is gone, a started one is pending.
pub open spec fn timers_after(t: DropdownTimers, event: DropdownEvent, a: DropdownActions) -> DropdownTimers {
    DropdownTimers {
        open_pending: (t.open_pending && !a.cancel_open_timer && event != DropdownEvent::OpenTimerFired)
            || a.start_open_timer is Some,
        close_pending: (t.close_pending && !a.cancel_close_timer && event != DropdownEvent::CloseTimerFired)
            || a.start_close_timer is Some,
    }
}

/// Answer `event` while the dropdown is `visible`, with the hover delay
/// `hover_delay_ms`: the actions to carry out, and the timers pending after
/// them.
pub fn dropdown_step(timers: DropdownTimers, event: DropdownEvent, visible: bool, hover_delay_ms: u64) -> (r: (
    DropdownTimers,
    DropdownActions,
))
    ensures
        r.1 == dropdown_actions(event, visible, hover_delay_ms),
        r.0 == timers_after(timers, event, r.1),
{
    let none = DropdownActions {
        cancel_open_timer: false,
        cancel_close_timer: false,
        hide: false,
        show: None,
        start_open_timer: None,
        start_close_timer: None,
    };
    let a = match event {
        DropdownEvent::Clicked => DropdownActions {
            cancel_close_timer: true,
            hide: visible,
            show: if visible {
                None
            } else {
                Some(true)
            },
            ..none
        },
        DropdownEvent::ButtonEntered { inferior } => if inferior {
            none
        } else {
            DropdownActions {
                cancel_open_timer: true,
                cancel_close_timer: true,
                show: if !visible && hover_delay_ms == 0 {
                    Some(false)
                } else {
                    None
                },
                start_open_timer: if !visible && hover_delay_ms > 0 {
                    Some(hover_delay_ms)
                } else {
                    None
                },
                ..none
            }
        },
        DropdownEvent::ButtonLeft { inferior } => if inferior {
            none
        } else {
            DropdownActions {
                cancel_open_timer: true,
                cancel_close_timer: true,
                start_close_timer: Some(CLOSE_DELAY_MS),
                ..none
            }
        },
        DropdownEvent::PopupEntered { inferior } => if inferior {
            none
        } else {
            DropdownActions { cancel_close_timer: true, ..none }
        },
        DropdownEvent::PopupLeft { inferior } => if inferior {
            none
        } else {
            DropdownActions { cancel_close_timer: true, start_close_timer: Some(CLOSE_DELAY_MS), ..none }
        },
        DropdownEvent::OpenTimerFired => DropdownActions { show: Some(false), ..none },
        DropdownEvent::CloseTimerFired => DropdownActions { hide: true, ..none },
    };
    let open_fired = match event {
        DropdownEvent::OpenTimerFired => true,
        _ => false,
    };
    let close_fired = match event {
        DropdownEvent::CloseTimerFired => true,
        _ => false,
    };
    let t = DropdownTimers {
        open_pending: (timers.open_pending && !a.cancel_open_timer && !open_fired) || a.start_open_timer.is_some(),
        close_pending: (timers.close_pending && !a.cancel_close_timer && !close_fired)
            || a.start_close_timer.is_some(),
    };
    (t, a)
}

/// Whether Up pressed in the result list returns focus to the search entry:
/// when no row is selected, or the first row is.
pub fn up_returns_to_search(selected_row: Option<usize>) -> (b: bool)
    ensures
        b == (selected_row is None || selected_row == Some(0usize)),
{
    match selected_row {
        None => true,
        Some(i) => i == 0,
    }
}

/// The row that Enter in the search entry launches: the selected row, or
/// else the first row when there is one.
pub fn activation_target(selected_row: Option<usize>, row_count: usize) -> (r: Option<usize>)
    ensures
        r == match selected_row {
            Some(i) => Some(i),
            None => if row_count > 0 {
                Some(0usize)
            } else {
                None
            },
        },
{
    match selected_row {
        Some(i) => Some(i),
        None => if row_count > 0 {
            Some(0)
        } else {
            None
        },
    }
}

// ── Laws ──────────────────────────────────────────────────────────────────────

/// Leaving the button before the hover delay has passed means the dropdown
/// does not open: neither crossing shows it, and no hover-open timer is
/// left pending.
pub proof fn lemma_drive_by_hover_does_not_open(t: DropdownTimers, hover_delay_ms: u64)
    requires
        hover_delay_ms > 0,
    ensures
        ({
            let enter = DropdownEvent::ButtonEntered { inferior: false };
            let leave = DropdownEvent::ButtonLeft { inferior: false };
            let a1 = dropdown_actions(enter, false, hover_delay_ms);
            let t1 = timers_after(t, enter, a1);
            let a2 = dropdown_actions(leave, false, hover_delay_ms);
            let t2 = timers_after(t1, leave, a2);
            &&& a1.show is None
            &&& a2.show is None
            &&& !t2.open_pending
        }),
{
}

/// Moving the pointer from the button into the dropdown keeps it open: the
/// close started on leaving the button is cancelled on entering the dropdown.
pub proof fn lemma_button_to_popup_keeps_open(t: DropdownTimers, visible: bool, hover_delay_ms: u64)
    ensures
        ({
            let leave = DropdownEvent::ButtonLeft { inferior: false };
            let enter = DropdownEvent::PopupEntered { inferior: false };
            let a1 = dropdown_actions(leave, visible, hover_delay_ms);
            let t1 = timers_after(t, leave, a1);
            let a2 = dropdown_actions(enter, visible, hover_delay_ms);
            let t2 = timers_after(t1, enter, a2);
            &&& !a1.hide && !a2.hide
            &&& !t2.close_pending
        }),
{
}

/// Moving the pointer from the dropdown back onto the button keeps it open:
/// the close started on leaving the dropdown is cancelled on entering the
/// button, nothing hides it, and no new close is started.
pub proof fn lemma_popup_to_button_keeps_open(t: DropdownTimers, visible: bool, hover_delay_ms: u64)
    ensures
        ({
            let leave = DropdownEvent::PopupLeft { inferior: false };
            let enter = DropdownEvent::ButtonEntered { inferior: false };
            let a1 = dropdown_actions(leave, visible, hover_delay_ms);
            let t1 = timers_after(t, leave, a1);
            let a2 = dropdown_actions(enter, visible, hover_delay_ms);
            let t2 = timers_after(t1, enter, a2);
            &&& !a1.hide && !a2.hide
            &&& a2.cancel_close_timer
            &&& a2.start_close_timer is None
            &&& !t2.close_pending
        }),
{
}

/// Whatever timers are pending, entering the button (not from a child)
/// leaves no close pending and hides nothing, and entering it while the
/// dropdown is visible shows nothing new and starts no open.
pub proof fn lemma_button_enter_cancels_close(t: DropdownTimers, visible: bool, hover_delay_ms: u64)
    ensures
        ({
            let enter = DropdownEvent::ButtonEntered { inferior: false };
            let a = dropdown_actions(enter, visible, hover_delay_ms);
            &&& a.cancel_close_timer
            &&& !a.hide
            &&& !timers_after(t, enter, a).close_pending
            &&& visible ==> a.show is None && a.start_open_timer is None
        }),
{
}

/// A click toggles the dropdown: a visible one is hidden, a hidden one is
/// shown with focus on its search entry.
pub proof fn lemma_click_toggles(visible: bool, hover_delay_ms: u64)
    ensures
        dropdown_actions(DropdownEvent::Clicked, visible, hover_delay_ms).hide == visible,
        dropdown_actions(DropdownEvent::Clicked, visible, hover_delay_ms).show == if visible {
            None
        } else {
            Some(true)
        },
{
}

/// With no hover delay, entering the button of a hidden dropdown shows it at
/// once, without focus, and starts no timer.
pub proof fn lemma_zero_delay_opens_at_once()
    ensures
        dropdown_actions(DropdownEvent::ButtonEntered { inferior: false }, false, 0).show == Some(false),
        dropdown_actions(DropdownEvent::ButtonEntered { inferior: false }, false, 0).start_open_timer is None,
{
}

} // verus!
