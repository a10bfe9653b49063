use parapet::dropdown::{
    activation_target, dropdown_step, up_returns_to_search, DropdownActions, DropdownEvent,
    DropdownTimers, CLOSE_DELAY_MS,
};

const IDLE: DropdownTimers = DropdownTimers { open_pending: false, close_pending: false };

#[test]
fn hover_starts_open_timer_and_leave_cancels_it() {
    let (t1, a1) = dropdown_step(IDLE, DropdownEvent::ButtonEntered { inferior: false }, false, 300);
    assert_eq!(a1.start_open_timer, Some(300));
    assert_eq!(a1.show, None);
    assert!(t1.open_pending);
    let (t2, a2) = dropdown_step(t1, DropdownEvent::ButtonLeft { inferior: false }, false, 300);
    assert!(a2.cancel_open_timer);
    assert_eq!(a2.start_close_timer, Some(CLOSE_DELAY_MS));
    assert!(!t2.open_pending);
    assert!(t2.close_pending);
}

#[test]
fn zero_delay_opens_immediately() {
    let (t, a) = dropdown_step(IDLE, DropdownEvent::ButtonEntered { inferior: false }, false, 0);
    assert_eq!(a.show, Some(false));
    assert_eq!(a.start_open_timer, None);
    assert!(!t.open_pending);
}

#[test]
fn entering_popup_cancels_close() {
    let (t1, _) = dropdown_step(IDLE, DropdownEvent::ButtonLeft { inferior: false }, true, 300);
    assert!(t1.close_pending);
    let (t2, a2) = dropdown_step(t1, DropdownEvent::PopupEntered { inferior: false }, true, 300);
    assert!(a2.cancel_close_timer);
    assert!(!t2.close_pending);
    let (t3, a3) = dropdown_step(t2, DropdownEvent::PopupLeft { inferior: false }, true, 300);
    assert_eq!(a3.start_close_timer, Some(250));
    let (t4, a4) = dropdown_step(t3, DropdownEvent::CloseTimerFired, true, 300);
    assert!(a4.hide);
    assert!(!t4.close_pending);
}

#[test]
fn inferior_crossings_are_ignored() {
    let none = DropdownActions {
        cancel_open_timer: false,
        cancel_close_timer: false,
        hide: false,
        show: None,
        start_open_timer: None,
        start_close_timer: None,
    };
    let pending = DropdownTimers { open_pending: true, close_pending: true };
    for e in [
        DropdownEvent::ButtonEntered { inferior: true },
        DropdownEvent::ButtonLeft { inferior: true },
        DropdownEvent::PopupEntered { inferior: true },
        DropdownEvent::PopupLeft { inferior: true },
    ] {
        assert_eq!(dropdown_step(pending, e, true, 100), (pending, none));
    }
}

#[test]
fn click_toggles_dropdown() {
    let (_, a) = dropdown_step(IDLE, DropdownEvent::Clicked, false, 300);
    assert_eq!(a.show, Some(true));
    assert!(!a.hide);
    let (_, b) = dropdown_step(IDLE, DropdownEvent::Clicked, true, 300);
    assert!(b.hide);
    assert_eq!(b.show, None);
    let (t, c) = dropdown_step(IDLE, DropdownEvent::OpenTimerFired, false, 300);
    assert_eq!(c.show, Some(false));
    assert!(!t.open_pending);
}

#[test]
fn keyboard_navigation_targets() {
    assert!(up_returns_to_search(None));
    assert!(up_returns_to_search(Some(0)));
    assert!(!up_returns_to_search(Some(2)));
    assert_eq!(activation_target(Some(3), 5), Some(3));
    assert_eq!(activation_target(None, 5), Some(0));
    assert_eq!(activation_target(None, 0), None);
}
