//! Fixed layout presets: each preset has a list of slots, and windows are
//! assigned to slots in order; windows beyond the last slot get none.

use crate::model::Rect;
use vstd::prelude::*;

verus! {

/// Rust's integer division (rounding toward zero) by a positive divisor.
pub open spec fn trunc_div(a: int, b: int) -> int
    recommends
        b > 0,
{
    if a >= 0 {
        a / b
    } else {
        -((-a) / b)
    }
}

/// The rectangle with the given corner and size.
pub open spec fn rect(x: int, y: int, width: int, height: int) -> Rect {
    Rect { x: x as i32, y: y as i32, width: width as i32, height: height as i32 }
}

/// The first `min(ids.len(), slots.len())` ids, each paired with the slot of the same index.
pub open spec fn assign_slots(ids: Seq<u64>, slots: Seq<Rect>) -> Seq<(u64, Rect)> {
    let n = if ids.len() <= slots.len() {
        ids.len()
    } else {
        slots.len()
    };
    Seq::new(n, |i: int| (ids[i], slots[i]))
}

/// Fullscreen: one slot, the whole monitor.
pub open spec fn fullscreen_slots(m: Rect) -> Seq<Rect> {
    seq![m]
}

/// SideBySide: left half, and the right part that absorbs an odd pixel.
pub open spec fn side_by_side_slots(m: Rect) -> Seq<Rect> {
    let hw = trunc_div(m.width as int, 2);
    seq![rect(m.x as int, m.y as int, hw, m.height as int), rect(m.x + hw, m.y as int, m.width - hw, m.height as int)]
}

/// TopBottom: top half, and the bottom part that absorbs an odd pixel.
pub open spec fn top_bottom_slots(m: Rect) -> Seq<Rect> {
    let hh = trunc_div(m.height as int, 2);
    seq![rect(m.x as int, m.y as int, m.width as int, hh), rect(m.x as int, m.y + hh, m.width as int, m.height - hh)]
}

/// Quadrants: top-left, top-right, bottom-left, bottom-right; the right column
/// and the bottom row absorb odd pixels.
pub open spec fn quadrant_slots(m: Rect) -> Seq<Rect> {
    let hw = trunc_div(m.width as int, 2);
    let hh = trunc_div(m.height as int, 2);
    seq![
        rect(m.x as int, m.y as int, hw, hh),
        rect(m.x + hw, m.y as int, m.width - hw, hh),
        rect(m.x as int, m.y + hh, hw, m.height - hh),
        rect(m.x + hw, m.y + hh, m.width - hw, m.height - hh),
    ]
}

/// The coordinates of a left/right split of a monitor stay within `i32`.
pub open spec fn width_split_fits(m: Rect) -> bool {
    &&& i32::MIN <= m.x + trunc_div(m.width as int, 2) <= i32::MAX
    &&& i32::MIN <= m.width - trunc_div(m.width as int, 2) <= i32::MAX
}

/// The coordinates of a top/bottom split of a monitor stay within `i32`.
pub open spec fn height_split_fits(m: Rect) -> bool {
    &&& i32::MIN <= m.y + trunc_div(m.height as int, 2) <= i32::MAX
    &&& i32::MIN <= m.height - trunc_div(m.height as int, 2) <= i32::MAX
}

/// The splitting coordinates of a monitor stay within `i32` both ways.
pub open spec fn splits_fit(m: Rect) -> bool {
    width_split_fits(m) && height_split_fits(m)
}

/// Pair `ids` with `slots` in order, stopping at whichever runs out first.
fn assign(window_ids: &[u64], slots: &Vec<Rect>) -> (r: Vec<(u64, Rect)>)
    ensures
        r@ == assign_slots(window_ids@, slots@),
{
    let mut r: Vec<(u64, Rect)> = Vec::new();
    let mut i: usize = 0;
    while i < window_ids.len() && i < slots.len()
        invariant
            i <= window_ids@.len(),
            i <= slots@.len(),
            r@.len() == i,
            forall|j: int| 0 <= j < i ==> #[trigger] r@[j] == (window_ids@[j], slots@[j]),
        decreases window_ids@.len() - i,
    {
        r.push((window_ids[i], slots[i]));
        i = i + 1;
    }
    assert(r@ =~= assign_slots(window_ids@, slots@));
    r
}

/// Fullscreen: 1 slot, window fills the entire monitor.
pub fn apply_fullscreen(window_ids: &[u64], monitor: Rect) -> (r: Vec<(u64, Rect)>)
    ensures
        r@ == assign_slots(window_ids@, fullscreen_slots(monitor)),
{
    let mut slots: Vec<Rect> = Vec::new();
    slots.push(monitor);
    assert(slots@ =~= fullscreen_slots(monitor));
    assign(window_ids, &slots)
}

/// SideBySide: 2 slots, left and right halves.
pub fn apply_side_by_side(window_ids: &[u64], monitor: Rect) -> (r: Vec<(u64, Rect)>)
    requires
        width_split_fits(monitor),
    ensures
        r@ == assign_slots(window_ids@, side_by_side_slots(monitor)),
{
    let half_w = monitor.width / 2;
    let mut slots: Vec<Rect> = Vec::new();
    slots.push(Rect { x: monitor.x, y: monitor.y, width: half_w, height: monitor.height });
    slots.push(
        Rect {
            x: monitor.x + half_w,
            y: monitor.y,
            width: monitor.width - half_w,
            height: monitor.height,
        },
    );
    assert(slots@ =~= side_by_side_slots(monitor));
    assign(window_ids, &slots)
}

/// TopBottom: 2 slots, top and bottom halves.
pub fn apply_top_bottom(window_ids: &[u64], monitor: Rect) -> (r: Vec<(u64, Rect)>)
    requires
        height_split_fits(monitor),
    ensures
        r@ == assign_slots(window_ids@, top_bottom_slots(monitor)),
{
    let half_h = monitor.height / 2;
    let mut slots: Vec<Rect> = Vec::new();
    slots.push(Rect { x: monitor.x, y: monitor.y, width: monitor.width, height: half_h });
    slots.push(
        Rect {
            x: monitor.x,
            y: monitor.y + half_h,
            width: monitor.width,
            height: monitor.height - half_h,
        },
    );
    assert(slots@ =~= top_bottom_slots(monitor));
    assign(window_ids, &slots)
}

/// Quadrants: 4 slots in a 2x2 grid (top-left, top-right, bottom-left, bottom-right).
pub fn apply_quadrants(window_ids: &[u64], monitor: Rect) -> (r: Vec<(u64, Rect)>)
    requires
        splits_fit(monitor),
    ensures
        r@ == assign_slots(window_ids@, quadrant_slots(monitor)),
{
    let half_w = monitor.width / 2;
    let half_h = monitor.height / 2;
    let right_w = monitor.width - half_w;
    let bottom_h = monitor.height - half_h;
    let mut slots: Vec<Rect> = Vec::new();
    slots.push(Rect { x: monitor.x, y: monitor.y, width: half_w, height: half_h });
    slots.push(Rect { x: monitor.x + half_w, y: monitor.y, width: right_w, height: half_h });
    slots.push(Rect { x: monitor.x, y: monitor.y + half_h, width: half_w, height: bottom_h });
    slots.push(
        Rect { x: monitor.x + half_w, y: monitor.y + half_h, width: right_w, height: bottom_h },
    );
    assert(slots@ =~= quadrant_slots(monitor));
    assign(window_ids, &slots)
}

} // verus!

verus! {

/// Every preset's slots tile the monitor without gaps or overlap: fullscreen
/// is the monitor itself; side-by-side halves meet in the middle and span
/// the width; top/bottom halves meet and span the height; the quadrants form
/// a 2x2 grid spanning both.
pub proof fn law_presets_cover_monitor(m: Rect)
    requires
        splits_fit(m),
    ensures
        fullscreen_slots(m)[0] == m,
        ({
            let s = side_by_side_slots(m);
            &&& s[0].x == m.x && s[0].y == m.y && s[1].y == m.y
            &&& s[0].height == m.height && s[1].height == m.height
            &&& s[1].x == s[0].x + s[0].width
            &&& s[1].x + s[1].width == m.x + m.width
        }),
        ({
            let s = top_bottom_slots(m);
            &&& s[0].x == m.x && s[0].y == m.y && s[1].x == m.x
            &&& s[0].width == m.width && s[1].width == m.width
            &&& s[1].y == s[0].y + s[0].height
            &&& s[1].y + s[1].height == m.y + m.height
        }),
        ({
            let q = quadrant_slots(m);
            &&& q[0].x == m.x && q[0].y == m.y
            &&& q[1].x == q[0].x + q[0].width && q[1].y == m.y
            &&& q[2].x == m.x && q[2].y == q[0].y + q[0].height
            &&& q[3].x == q[1].x && q[3].y == q[2].y
            &&& q[1].x + q[1].width == m.x + m.width && q[3].x + q[3].width == m.x + m.width
            &&& q[2].y + q[2].height == m.y + m.height && q[3].y + q[3].height == m.y + m.height
            &&& q[0].width == q[2].width && q[1].width == q[3].width
            &&& q[0].height == q[1].height && q[2].height == q[3].height
        }),
{
    let hw = trunc_div(m.width as int, 2);
    let hh = trunc_div(m.height as int, 2);
    assert(i32::MIN <= hw <= i32::MAX);
    assert(i32::MIN <= hh <= i32::MAX);
}

} // verus!
