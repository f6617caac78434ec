//! Window placement on the work area of the screen, in whole pixels.
use vstd::prelude::*;

verus! {

/// The gap, in pixels, between a pet in the corner and the right edge of
/// the work area.
pub const CORNER_MARGIN_PX: i32 = 24;

/// Where a `w` x `h` window sits in the bottom right corner of a work area
/// whose right and bottom edges are `work_right` and `work_bottom`.
pub fn corner_position(work_right: i32, work_bottom: i32, w: i32, h: i32) -> (r: (i32, i32))
    requires
        i32::MIN <= work_right - w - CORNER_MARGIN_PX,
        work_right - w <= i32::MAX,
        i32::MIN <= work_bottom - h <= i32::MAX,
    ensures
        r.0 == work_right - w - CORNER_MARGIN_PX,
        r.1 == work_bottom - h,
{
    (work_right - w - CORNER_MARGIN_PX, work_bottom - h)
}

/// `v` brought into `lo ..= hi`.
pub open spec fn clamp_spec(v: int, lo: int, hi: int) -> int {
    if v < lo {
        lo
    } else if v > hi {
        hi
    } else {
        v
    }
}

/// The position `(x, y)` of a `w` x `h` window moved just far enough to lie
/// inside the work area `(left, top, right, bottom)`; the window must fit.
pub fn clamp_position(x: i32, y: i32, area: (i32, i32, i32, i32), w: i32, h: i32) -> (r: (i32, i32))
    requires
        i32::MIN <= area.2 - w <= i32::MAX,
        i32::MIN <= area.3 - h <= i32::MAX,
        area.0 <= area.2 - w,
        area.1 <= area.3 - h,
    ensures
        r.0 == clamp_spec(x as int, area.0 as int, area.2 - w),
        r.1 == clamp_spec(y as int, area.1 as int, area.3 - h),
{
    let (lx, ly, rx, ry) = area;
    let hx = rx - w;
    let hy = ry - h;
    let cx = if x < lx {
        lx
    } else if x > hx {
        hx
    } else {
        x
    };
    let cy = if y < ly {
        ly
    } else if y > hy {
        hy
    } else {
        y
    };
    (cx, cy)
}

/// A clamped window lies inside the work area, and a window that already
/// did stays where it was.
pub proof fn lemma_clamp_inside(x: int, y: int, area: (int, int, int, int), w: int, h: int)
    requires
        area.0 <= area.2 - w,
        area.1 <= area.3 - h,
    ensures
        area.0 <= clamp_spec(x, area.0, area.2 - w),
        clamp_spec(x, area.0, area.2 - w) + w <= area.2,
        area.1 <= clamp_spec(y, area.1, area.3 - h),
        clamp_spec(y, area.1, area.3 - h) + h <= area.3,
        area.0 <= x && x + w <= area.2 ==> clamp_spec(x, area.0, area.2 - w) == x,
        area.1 <= y && y + h <= area.3 ==> clamp_spec(y, area.1, area.3 - h) == y,
{
}

/// The top of a window `new_h` high whose bottom edge stays where the
/// bottom edge `old_bottom` of the window before the resize was.
pub fn keep_bottom(old_bottom: i32, new_h: i32) -> (y: i32)
    requires
        i32::MIN <= old_bottom - new_h <= i32::MAX,
        old_bottom - new_h + 1 <= i32::MAX,
    ensures
        y == old_bottom - new_h + 1,
{
    old_bottom - new_h + 1
}

} // verus!
