use parapet::bar::{bar_y, strut_legacy, strut_partial};
use parapet::config::BarPosition;

#[test]
fn strut_top_and_bottom() {
    let top = strut_partial(BarPosition::Top, 30, 0, 1920);
    assert_eq!(top, [0, 0, 30, 0, 0, 0, 0, 0, 0, 1920, 0, 0]);
    let bottom = strut_partial(BarPosition::Bottom, 28, 1920, 1280);
    assert_eq!(bottom, [0, 0, 0, 28, 0, 0, 0, 0, 0, 0, 1920, 3200]);
    assert_eq!(strut_legacy(&bottom), [0, 0, 0, 28]);
}

#[test]
fn bar_vertical_position() {
    assert_eq!(bar_y(BarPosition::Top, 0, 1080, 30), 0);
    assert_eq!(bar_y(BarPosition::Bottom, 0, 1080, 30), 1050);
    assert_eq!(bar_y(BarPosition::Bottom, 100, 1080, 30), 1150);
}
