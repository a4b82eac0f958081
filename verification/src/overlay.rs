//! Where the dictation overlay goes on the monitor under the cursor.
use vstd::prelude::*;

verus! {

/// `a / 2` rounded toward zero, as Rust's integer division does.
pub open spec fn half_toward_zero(a: int) -> int {
    if a >= 0 {
        a / 2
    } else {
        -((-a) / 2)
    }
}

/// Distance kept from the bottom of the monitor: 72 px plus 2% of the monitor
/// height (the fixed part alone touched the dock on large screens).
pub open spec fn bottom_margin(mon_h: int) -> int {
    72 + mon_h * 2 / 100
}

/// Top-left corner of the overlay: centred horizontally on the monitor, its bottom
/// edge [`bottom_margin`] above the monitor's bottom edge.
pub open spec fn overlay_xy(mon_x: int, mon_y: int, mon_w: int, mon_h: int, win_w: int, win_h: int) -> (
    int,
    int,
) {
    (mon_x + half_toward_zero(mon_w - win_w), mon_y + mon_h - win_h - bottom_margin(mon_h))
}

/// Position of the overlay window of size `win_w` x `win_h` on the monitor at
/// (`mon_x`, `mon_y`) of size `mon_w` x `mon_h`. Sizes fit in `i32`, and so do the
/// intermediate sums (monitor coordinates are far from the `i32` limits).
pub fn overlay_position(mon_x: i32, mon_y: i32, mon_w: u32, mon_h: u32, win_w: u32, win_h: u32) -> (r: (
    i32,
    i32,
))
    requires
        mon_w <= i32::MAX,
        win_w <= i32::MAX,
        mon_h * 2 <= i32::MAX,
        win_h <= i32::MAX,
        i32::MIN <= mon_x + half_toward_zero(mon_w - win_w) <= i32::MAX,
        i32::MIN <= mon_y + mon_h <= i32::MAX,
        i32::MIN <= mon_y + mon_h - win_h <= i32::MAX,
        i32::MIN <= mon_y + mon_h - win_h - bottom_margin(mon_h as int) <= i32::MAX,
    ensures
        (r.0 as int, r.1 as int) == overlay_xy(
            mon_x as int,
            mon_y as int,
            mon_w as int,
            mon_h as int,
            win_w as int,
            win_h as int,
        ),
{
    let w = mon_w as i32;
    let h = mon_h as i32;
    let sw = win_w as i32;
    let sh = win_h as i32;
    let d = w - sw;
    // integer division rounds toward zero, also for a window wider than the monitor
    let half = if d >= 0 { d / 2 } else { -((-d) / 2) };
    let x = mon_x + half;
    let margem = 72 + h * 2 / 100;
    let y = mon_y + h - sh - margem;
    (x, y)
}

} // verus!
