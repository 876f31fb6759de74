//! Panel placement: centering the dialog inside the host's drawing area.

use vstd::prelude::*;

verus! {

/// A rectangle in terminal cells, as the host's renderer understands it.
#[derive(Clone, Copy, PartialEq, Eq, Structural, Debug)]
pub struct Rect {
    pub x: u16,
    pub y: u16,
    pub width: u16,
    pub height: u16,
}

/// A rectangle whose far edges stay within the coordinate space.
pub open spec fn rect_wf(r: Rect) -> bool {
    &&& r.x + r.width <= u16::MAX
    &&& r.y + r.height <= u16::MAX
}

/// The panel sized to the given percentages of the area and centered in it.
///
/// The width is `percent_x` percent of the area's width (rounded down) and
/// the left margin is half of the remaining percentage, both in integer
/// arithmetic; the vertical axis is treated the same way.
pub fn centered_rect(percent_x: u16, percent_y: u16, r: Rect) -> (res: Rect)
    requires
        percent_x <= 100,
        percent_y <= 100,
        rect_wf(r),
    ensures
        res.width == r.width * percent_x / 100,
        res.height == r.height * percent_y / 100,
        res.x == r.x + r.width * ((100 - percent_x) / 2) / 100,
        res.y == r.y + r.height * ((100 - percent_y) / 2) / 100,
        r.x <= res.x,
        r.y <= res.y,
        res.x + res.width <= r.x + r.width,
        res.y + res.height <= r.y + r.height,
        rect_wf(res),
{
    proof {
        lemma_percent_product_bounded(r.width as int, percent_x as int);
        lemma_percent_product_bounded(r.height as int, percent_y as int);
        lemma_percent_product_bounded(r.width as int, (100 - percent_x) as int / 2);
        lemma_percent_product_bounded(r.height as int, (100 - percent_y) as int / 2);
        lemma_scaled_parts_fit(r.width as int, percent_x as int);
        lemma_scaled_parts_fit(r.height as int, percent_y as int);
    }
    let w: u16 = ((r.width as u32 * percent_x as u32) / 100) as u16;
    let h: u16 = ((r.height as u32 * percent_y as u32) / 100) as u16;
    let mx: u16 = ((r.width as u32 * ((100 - percent_x) / 2) as u32) / 100) as u16;
    let my: u16 = ((r.height as u32 * ((100 - percent_y) / 2) as u32) / 100) as u16;
    Rect { x: r.x + mx, y: r.y + my, width: w, height: h }
}

/// A width within `u16` times a percentage stays within `u32`, and the
/// scaled value stays within the given width.
proof fn lemma_percent_product_bounded(w: int, p: int)
    requires
        0 <= w <= 65535,
        0 <= p <= 100,
    ensures
        0 <= w * p <= 6553500,
        w * p / 100 <= w,
{
    assert(0 <= w * p <= 6553500) by (nonlinear_arith)
        requires 0 <= w <= 65535 && 0 <= p <= 100;
    assert(w * p <= w * 100) by (nonlinear_arith)
        requires 0 <= w && p <= 100;
}

/// The scaled width and the centering margin never exceed the whole:
/// `p` percent of `w` plus a margin of `(100 - p) / 2` percent stays in `w`.
proof fn lemma_scaled_parts_fit(w: int, p: int)
    requires
        0 <= w,
        0 <= p <= 100,
    ensures
        w * ((100 - p) / 2) / 100 + w * p / 100 <= w,
        w * p / 100 <= w,
        w * ((100 - p) / 2) / 100 <= w,
{
    let m = (100 - p) / 2;
    assert(m + p <= 100);
    assert(w * m + w * p == w * (m + p)) by (nonlinear_arith);
    assert(w * m / 100 + w * p / 100 <= (w * m + w * p) / 100) by (nonlinear_arith)
        requires 0 <= w * m && 0 <= w * p;
    assert(0 <= w * m) by (nonlinear_arith)
        requires 0 <= w && 0 <= m;
    assert(0 <= w * p) by (nonlinear_arith)
        requires 0 <= w && 0 <= p;
    assert(w * (m + p) <= w * 100) by (nonlinear_arith)
        requires 0 <= w && m + p <= 100;
    assert(w * (m + p) / 100 <= w * 100 / 100) by (nonlinear_arith)
        requires w * (m + p) <= w * 100;
    assert(w * 100 / 100 == w) by (nonlinear_arith);
}

} // verus!
