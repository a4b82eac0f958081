use openflow::overlay::overlay_position;

#[test]
fn overlay_centred_above_the_bottom() {
    // 1920x1080 monitor at the origin, 400x120 overlay: margin 72 + 21
    assert_eq!(overlay_position(0, 0, 1920, 1080, 400, 120), (760, 1080 - 120 - 93));
    // second monitor to the left
    assert_eq!(overlay_position(-2560, 0, 2560, 1440, 400, 120), (-2560 + 1080, 1440 - 120 - 100));
    // a window wider than the monitor: division rounds toward zero
    assert_eq!(overlay_position(0, 0, 100, 1000, 401, 10), (-150, 1000 - 10 - 92));
}
