//! Screen geometry in physical pixels: window rectangles, work areas and the
//! clamping rules that keep the pet and its popups on a visible monitor.
use vstd::prelude::*;

use crate::text::{chars_of, lemma_newline_at, newline_index};

verus! {

/// `i32` saturating arithmetic as a mathematical function.
pub open spec fn sat_i32(value: int) -> int {
    if value > i32::MAX {
        i32::MAX as int
    } else if value < i32::MIN {
        i32::MIN as int
    } else {
        value
    }
}

/// `value / 2` as Rust computes it on integers: rounded toward zero.
pub open spec fn half_toward_zero(value: int) -> int {
    if value >= 0 {
        value / 2
    } else {
        -((-value) / 2)
    }
}

/// `value.clamp(low, high)` for `low <= high`.
pub open spec fn clamp_spec(value: int, low: int, high: int) -> int {
    if value < low {
        low
    } else if value > high {
        high
    } else {
        value
    }
}

pub open spec fn max_spec(a: int, b: int) -> int {
    if a >= b {
        a
    } else {
        b
    }
}

/// `a.saturating_add(b)` on `i32`.
pub fn saturating_add_i32(a: i32, b: i32) -> (r: i32)
    ensures
        r == sat_i32(a + b),
{
    let wide: i64 = a as i64 + b as i64;
    if wide > i32::MAX as i64 {
        i32::MAX
    } else if wide < i32::MIN as i64 {
        i32::MIN
    } else {
        wide as i32
    }
}

/// `a.saturating_sub(b)` on `i32`.
pub fn saturating_sub_i32(a: i32, b: i32) -> (r: i32)
    ensures
        r == sat_i32(a - b),
{
    let wide: i64 = a as i64 - b as i64;
    if wide > i32::MAX as i64 {
        i32::MAX
    } else if wide < i32::MIN as i64 {
        i32::MIN
    } else {
        wide as i32
    }
}

/// `value.clamp(low, high)` on `i32`.
pub fn clamp_i32(value: i32, low: i32, high: i32) -> (r: i32)
    requires
        low <= high,
    ensures
        r == clamp_spec(value as int, low as int, high as int),
        low <= r <= high,
{
    if value < low {
        low
    } else if value > high {
        high
    } else {
        value
    }
}

/// `a.max(b)` on `i32`.
pub fn max_i32(a: i32, b: i32) -> (r: i32)
    ensures
        r == max_spec(a as int, b as int),
{
    if a >= b {
        a
    } else {
        b
    }
}

/// A rectangle in physical screen pixels (origin top-left).
#[derive(Debug, Clone, Copy, PartialEq, Eq, Structural)]
pub struct PhysicalRect {
    pub x: i32,
    pub y: i32,
    pub width: i32,
    pub height: i32,
}

impl PhysicalRect {
    pub open spec fn spec_right(self) -> int {
        sat_i32(self.x + self.width)
    }

    pub open spec fn spec_bottom(self) -> int {
        sat_i32(self.y + self.height)
    }

    pub open spec fn spec_contains(self, x: int, y: int) -> bool {
        self.x <= x < self.spec_right() && self.y <= y < self.spec_bottom()
    }

    pub fn new(x: i32, y: i32, width: i32, height: i32) -> (r: Self)
        ensures
            r == (PhysicalRect { x, y, width, height }),
    {
        PhysicalRect { x, y, width, height }
    }

    /// Right edge (exclusive), saturating.
    pub fn right(&self) -> (r: i32)
        ensures
            r == self.spec_right(),
    {
        saturating_add_i32(self.x, self.width)
    }

    /// Bottom edge (exclusive), saturating.
    pub fn bottom(&self) -> (r: i32)
        ensures
            r == self.spec_bottom(),
    {
        saturating_add_i32(self.y, self.height)
    }

    /// Centre point, rounding the half extents toward zero.
    pub fn center(&self) -> (r: (i32, i32))
        ensures
            r.0 == sat_i32(self.x + half_toward_zero(self.width as int)),
            r.1 == sat_i32(self.y + half_toward_zero(self.height as int)),
    {
        let half_w: i32 = self.width / 2;
        let half_h: i32 = self.height / 2;
        (saturating_add_i32(self.x, half_w), saturating_add_i32(self.y, half_h))
    }

    /// Half-open containment test.
    pub fn contains(&self, x: i32, y: i32) -> (r: bool)
        ensures
            r == self.spec_contains(x as int, y as int),
    {
        x >= self.x && x < self.right() && y >= self.y && y < self.bottom()
    }
}

/// The rectangle after [`clamp_rect_to_work_area`].
pub open spec fn clamped_rect(rect: PhysicalRect, work: PhysicalRect) -> PhysicalRect {
    let max_x = max_spec(sat_i32(work.spec_right() - rect.width), work.x as int);
    let max_y = max_spec(sat_i32(work.spec_bottom() - rect.height), work.y as int);
    PhysicalRect {
        x: clamp_spec(rect.x as int, work.x as int, max_x) as i32,
        y: clamp_spec(rect.y as int, work.y as int, max_y) as i32,
        width: rect.width,
        height: rect.height,
    }
}

/// Clamp `rect` so it stays inside `work`; a rect larger than the work area is
/// pinned to its top-left corner instead of being pushed outside.
pub fn clamp_rect_to_work_area(rect: PhysicalRect, work: PhysicalRect) -> (r: PhysicalRect)
    ensures
        r == clamped_rect(rect, work),
        r.width == rect.width,
        r.height == rect.height,
        work.x <= r.x,
        work.y <= r.y,
{
    let max_x = max_i32(saturating_sub_i32(work.right(), rect.width), work.x);
    let max_y = max_i32(saturating_sub_i32(work.bottom(), rect.height), work.y);
    PhysicalRect::new(
        clamp_i32(rect.x, work.x, max_x),
        clamp_i32(rect.y, work.y, max_y),
        rect.width,
        rect.height,
    )
}

/// Slack, in pixels, allowed for DPI rounding by [`rect_within_work_area`].
pub const WORK_AREA_TOLERANCE: i32 = 2;

pub open spec fn within_work_area(rect: PhysicalRect, work: PhysicalRect) -> bool {
    &&& rect.x >= work.x - WORK_AREA_TOLERANCE
    &&& rect.y >= work.y - WORK_AREA_TOLERANCE
    &&& rect.spec_right() <= work.spec_right() + WORK_AREA_TOLERANCE
    &&& rect.spec_bottom() <= work.spec_bottom() + WORK_AREA_TOLERANCE
}

/// Does the window rectangle fit inside the work area (with a couple of pixels
/// of slack for DPI rounding)?
pub fn rect_within_work_area(rect: PhysicalRect, work: PhysicalRect) -> (r: bool)
    ensures
        r == within_work_area(rect, work),
{
    let left: i64 = work.x as i64 - WORK_AREA_TOLERANCE as i64;
    let top: i64 = work.y as i64 - WORK_AREA_TOLERANCE as i64;
    let right: i64 = work.right() as i64 + WORK_AREA_TOLERANCE as i64;
    let bottom: i64 = work.bottom() as i64 + WORK_AREA_TOLERANCE as i64;
    rect.x as i64 >= left && rect.y as i64 >= top && rect.right() as i64 <= right
        && rect.bottom() as i64 <= bottom
}

/// A non-negative rectangle that fits its own coordinate range: its edges do
/// not saturate.
pub open spec fn plain_rect(r: PhysicalRect) -> bool {
    &&& r.width >= 0
    &&& r.height >= 0
    &&& r.x + r.width <= i32::MAX
    &&& r.y + r.height <= i32::MAX
}

/// Clamping fits any window into a work area at least as large as the window.
pub proof fn lemma_clamped_rect_fits(rect: PhysicalRect, work: PhysicalRect)
    requires
        plain_rect(rect),
        plain_rect(work),
        rect.width <= work.width,
        rect.height <= work.height,
    ensures
        within_work_area(clamped_rect(rect, work), work),
        clamped_rect(rect, work).spec_right() <= work.spec_right(),
        clamped_rect(rect, work).spec_bottom() <= work.spec_bottom(),
{
}

/// A window that already fits its work area is left where it is.
pub proof fn lemma_clamp_keeps_fitting_rect(rect: PhysicalRect, work: PhysicalRect)
    requires
        plain_rect(rect),
        plain_rect(work),
        work.x <= rect.x,
        work.y <= rect.y,
        rect.spec_right() <= work.spec_right(),
        rect.spec_bottom() <= work.spec_bottom(),
    ensures
        clamped_rect(rect, work) == rect,
{
}

/// Clamping is idempotent.
pub proof fn lemma_clamp_idempotent(rect: PhysicalRect, work: PhysicalRect)
    requires
        plain_rect(rect),
        plain_rect(work),
    ensures
        clamped_rect(clamped_rect(rect, work), work) == clamped_rect(rect, work),
{
}

/// The point after [`clamp_point_to_rect`].
pub open spec fn clamped_point(x: int, y: int, work: PhysicalRect, inset: int) -> (int, int) {
    let inset = max_spec(inset, 0);
    let min_x = sat_i32(work.x + inset);
    let max_x = max_spec(sat_i32(work.spec_right() - inset), min_x);
    let min_y = sat_i32(work.y + inset);
    let max_y = max_spec(sat_i32(work.spec_bottom() - inset), min_y);
    (clamp_spec(x, min_x, max_x), clamp_spec(y, min_y, max_y))
}

/// Clamp a point into `work`, keeping `inset` pixels away from every edge
/// where the work area is large enough for that.
pub fn clamp_point_to_rect(x: i32, y: i32, work: PhysicalRect, inset: i32) -> (r: (i32, i32))
    ensures
        (r.0 as int, r.1 as int) == clamped_point(x as int, y as int, work, inset as int),
{
    let inset = max_i32(inset, 0);
    let min_x = saturating_add_i32(work.x, inset);
    let max_x = max_i32(saturating_sub_i32(work.right(), inset), min_x);
    let min_y = saturating_add_i32(work.y, inset);
    let max_y = max_i32(saturating_sub_i32(work.bottom(), inset), min_y);
    (clamp_i32(x, min_x, max_x), clamp_i32(y, min_y, max_y))
}

/// Clamp a point into the work area of the monitor nearest to it. `work` is
/// that monitor's work area as the platform reported it; without one the
/// point is returned unchanged.
pub fn clamp_point_to_work_area(x: i32, y: i32, inset: i32, work: Option<PhysicalRect>) -> (r: (
    i32,
    i32,
))
    ensures
        work is None ==> r == (x, y),
        work matches Some(w) ==> (r.0 as int, r.1 as int) == clamped_point(
            x as int,
            y as int,
            w,
            inset as int,
        ),
{
    match work {
        None => (x, y),
        Some(work) => clamp_point_to_rect(x, y, work, inset),
    }
}

/// A clamped point lies inside the work area shrunk by the inset.
pub proof fn lemma_clamped_point_inside(x: int, y: int, work: PhysicalRect, inset: int)
    requires
        plain_rect(work),
        0 <= inset,
        2 * inset <= work.width,
        2 * inset <= work.height,
    ensures
        work.x + inset <= clamped_point(x, y, work, inset).0 <= work.x + work.width - inset,
        work.y + inset <= clamped_point(x, y, work, inset).1 <= work.y + work.height - inset,
{
}

/// Squared distance between a monitor's centre and a point.
pub open spec fn center_distance2(bounds: PhysicalRect, x: int, y: int) -> int {
    let cx = sat_i32(bounds.x + half_toward_zero(bounds.width as int));
    let cy = sat_i32(bounds.y + half_toward_zero(bounds.height as int));
    (cx - x) * (cx - x) + (cy - y) * (cy - y)
}

/// Index of the monitor for a point: the first one whose bounds contain the
/// point, else the first one with the smallest centre distance. An unplugged
/// monitor therefore falls back to the closest visible one instead of leaving
/// the pet off-screen.
pub fn monitor_for_point(monitors: &Vec<PhysicalRect>, x: i32, y: i32) -> (r: Option<usize>)
    ensures
        monitors.len() == 0 <==> r is None,
        r matches Some(i) ==> i < monitors.len(),
        r matches Some(i) ==> (monitors@[i as int].spec_contains(x as int, y as int) && forall|
            j: int,
        |
            0 <= j < i ==> !#[trigger] monitors@[j].spec_contains(x as int, y as int)) || ((
        forall|j: int|
            0 <= j < monitors.len() ==> !#[trigger] monitors@[j].spec_contains(x as int, y as int))
            && (forall|j: int|
            0 <= j < monitors.len() ==> center_distance2(monitors@[i as int], x as int, y as int)
                <= #[trigger] center_distance2(monitors@[j], x as int, y as int)) && (forall|j: int|
            0 <= j < i ==> center_distance2(monitors@[i as int], x as int, y as int)
                < #[trigger] center_distance2(monitors@[j], x as int, y as int))),
{
    let mut i: usize = 0;
    while i < monitors.len()
        invariant
            i <= monitors.len(),
            forall|j: int| 0 <= j < i ==> !#[trigger] monitors@[j].spec_contains(x as int, y as int),
        decreases monitors.len() - i,
    {
        if monitors[i].contains(x, y) {
            return Some(i);
        }
        i = i + 1;
    }
    if monitors.len() == 0 {
        return None;
    }
    let mut best: usize = 0;
    let mut best_d: i128 = distance2(&monitors[0], x, y);
    let mut k: usize = 1;
    while k < monitors.len()
        invariant
            1 <= k <= monitors.len(),
            best < k,
            best_d == center_distance2(monitors@[best as int], x as int, y as int),
            forall|j: int|
                0 <= j < k ==> best_d <= #[trigger] center_distance2(monitors@[j], x as int, y as int),
            forall|j: int|
                0 <= j < best ==> best_d < #[trigger] center_distance2(monitors@[j], x as int, y as int),
        decreases monitors.len() - k,
    {
        let d = distance2(&monitors[k], x, y);
        if d < best_d {
            best = k;
            best_d = d;
        }
        k = k + 1;
    }
    Some(best)
}

fn distance2(bounds: &PhysicalRect, x: i32, y: i32) -> (r: i128)
    ensures
        r == center_distance2(*bounds, x as int, y as int),
{
    let (cx, cy) = bounds.center();
    let dx: i128 = cx as i128 - x as i128;
    let dy: i128 = cy as i128 - y as i128;
    assert(dx * dx <= 0x1_0000_0000 * 0x1_0000_0000) by (nonlinear_arith)
        requires
            -0x1_0000_0000 <= dx <= 0x1_0000_0000,
    ;
    assert(dy * dy <= 0x1_0000_0000 * 0x1_0000_0000) by (nonlinear_arith)
        requires
            -0x1_0000_0000 <= dy <= 0x1_0000_0000,
    ;
    assert(0 <= dx * dx) by (nonlinear_arith);
    assert(0 <= dy * dy) by (nonlinear_arith);
    dx * dx + dy * dy
}

/// Did the pointer button go down since the last poll? A press reported by
/// the event stream counts even when the polled state missed it.
pub fn button_pressed_edge(current_down: bool, previous_down: bool, event_pressed: bool) -> (r: bool)
    ensures
        r == (event_pressed || (current_down && !previous_down)),
{
    event_pressed || (current_down && !previous_down)
}

/// Side length of the generated tray icon, in pixels.
pub const TRAY_ICON_SIZE: usize = 32;

/// Colour of one tray icon pixel: two dark eyes on an orange disc, the rest
/// transparent.
pub open spec fn tray_pixel(x: int, y: int) -> Seq<u8> {
    let dx = x - 16;
    let dy = y - 16;
    let inside = dx * dx + dy * dy <= 14 * 14;
    let eye = (11 <= x <= 13 && 11 <= y <= 13) || (18 <= x <= 20 && 11 <= y <= 13);
    if eye {
        seq![24u8, 24u8, 28u8, 255u8]
    } else if inside {
        seq![255u8, 170u8, 64u8, 255u8]
    } else {
        seq![0u8, 0u8, 0u8, 0u8]
    }
}

/// RGBA pixels of the fallback tray icon, row by row.
pub fn tray_icon_rgba() -> (pixels: Vec<u8>)
    ensures
        pixels.len() == 32 * 32 * 4,
        forall|y: int, x: int, c: int|
            0 <= y < 32 && 0 <= x < 32 && 0 <= c < 4 ==> #[trigger] pixels@[(y * 32 + x) * 4 + c]
                == tray_pixel(x, y)[c],
{
    let mut pixels: Vec<u8> = Vec::new();
    let mut y: i32 = 0;
    while y < 32
        invariant
            0 <= y <= 32,
            pixels.len() == y * 32 * 4,
            forall|yy: int, x: int, c: int|
                0 <= yy < y && 0 <= x < 32 && 0 <= c < 4 ==> #[trigger] pixels@[(yy * 32 + x) * 4
                    + c] == tray_pixel(x, yy)[c],
        decreases 32 - y,
    {
        let mut x: i32 = 0;
        while x < 32
            invariant
                0 <= y < 32,
                0 <= x <= 32,
                pixels.len() == (y * 32 + x) * 4,
                forall|yy: int, xx: int, c: int|
                    0 <= yy < y && 0 <= xx < 32 && 0 <= c < 4 ==> #[trigger] pixels@[(yy * 32 + xx)
                        * 4 + c] == tray_pixel(xx, yy)[c],
                forall|xx: int, c: int|
                    0 <= xx < x && 0 <= c < 4 ==> #[trigger] pixels@[(y * 32 + xx) * 4 + c]
                        == tray_pixel(xx, y as int)[c],
            decreases 32 - x,
        {
            let dx: i32 = x - 16;
            let dy: i32 = y - 16;
            assert(0 <= dx * dx <= 256 && 0 <= dy * dy <= 256) by (nonlinear_arith)
                requires
                    -16 <= dx <= 16,
                    -16 <= dy <= 16,
            ;
            let inside = dx * dx + dy * dy <= 14 * 14;
            let eye = (11 <= x && x <= 13 && 11 <= y && y <= 13) || (18 <= x && x <= 20 && 11 <= y
                && y <= 13);
            let color: [u8; 4] = if eye {
                [24, 24, 28, 255]
            } else if inside {
                [255, 170, 64, 255]
            } else {
                [0, 0, 0, 0]
            };
            let ghost before = pixels@;
            pixels.push(color[0]);
            pixels.push(color[1]);
            pixels.push(color[2]);
            pixels.push(color[3]);
            proof {
                assert((y * 32 + x) * 4 + 4 == (y * 32 + (x + 1)) * 4) by (nonlinear_arith);
                assert forall|yy: int, xx: int, c: int|
                    0 <= yy < y && 0 <= xx < 32 && 0 <= c < 4 implies #[trigger] pixels@[(yy * 32
                    + xx) * 4 + c] == tray_pixel(xx, yy)[c] by {
                    assert((yy * 32 + xx) * 4 + c < (y * 32) * 4) by (nonlinear_arith)
                        requires
                            0 <= yy < y,
                            0 <= xx < 32,
                            0 <= c < 4,
                    ;
                    assert((y * 32) * 4 <= (y * 32 + x) * 4) by (nonlinear_arith)
                        requires
                            0 <= x,
                    ;
                    assert(pixels@[(yy * 32 + xx) * 4 + c] == before[(yy * 32 + xx) * 4 + c]);
                }
                assert forall|xx: int, c: int|
                    0 <= xx < x + 1 && 0 <= c < 4 implies #[trigger] pixels@[(y * 32 + xx) * 4 + c]
                    == tray_pixel(xx, y as int)[c] by {
                    if xx < x {
                        assert((y * 32 + xx) * 4 + c < (y * 32 + x) * 4) by (nonlinear_arith)
                            requires
                                0 <= xx < x,
                                0 <= c < 4,
                        ;
                        assert(pixels@[(y * 32 + xx) * 4 + c] == before[(y * 32 + xx) * 4 + c]);
                    } else {
                        assert(xx == x);
                        assert(dx * dx + dy * dy == (xx - 16) * (xx - 16) + (y - 16) * (y - 16));
                    }
                }
            }
            x = x + 1;
        }
        proof {
            assert((y * 32 + 32) * 4 == (y + 1) * 32 * 4) by (nonlinear_arith);
            assert forall|yy: int, xx: int, c: int|
                0 <= yy < y + 1 && 0 <= xx < 32 && 0 <= c < 4 implies #[trigger] pixels@[(yy * 32
                + xx) * 4 + c] == tray_pixel(xx, yy)[c] by {
                if yy == y {
                    assert(pixels@[(y * 32 + xx) * 4 + c] == tray_pixel(xx, y as int)[c]);
                }
            }
        }
        y = y + 1;
    }
    pixels
}


// ------------------------------------------------------------------------------------------
// The conversation input
// ------------------------------------------------------------------------------------------
/// Rows one line of `len` characters takes when `per_row` characters fit in
/// a row: the rounded-up quotient, and one row for an empty line.
pub open spec fn line_rows(len: nat, per_row: nat) -> nat {
    if len == 0 {
        1
    } else {
        ((len - 1) as nat / per_row + 1) as nat
    }
}

/// Rows a text takes: the rows of each of its `'\n'`-separated lines, added.
pub open spec fn text_rows(s: Seq<char>, per_row: nat) -> nat
    decreases s.len(),
{
    let k = newline_index(s);
    if 0 <= k < s.len() {
        line_rows(k as nat, per_row) + text_rows(s.skip(k + 1), per_row)
    } else {
        line_rows(s.len(), per_row)
    }
}

/// Rows of the conversation input for `text` when `chars_per_row` characters
/// fit in a row (at least one is assumed): the rows the text takes, kept
/// between 1 and 5.
pub fn input_rows(text: &str, chars_per_row: usize) -> (r: usize)
    ensures
        r == clamp_spec(text_rows(text@, max_spec(chars_per_row as int, 1) as nat) as int, 1, 5),
{
    let per: usize = if chars_per_row < 1 {
        1
    } else {
        chars_per_row
    };
    let ghost pn = per as nat;
    let s = chars_of(text);
    let mut total: usize = 0;
    let mut start: usize = 0;
    assert(s@.skip(0) =~= s@);
    loop
        invariant
            start <= s.len(),
            total < 5,
            per >= 1,
            pn == per,
            s@ == text@,
            pn == max_spec(chars_per_row as int, 1),
            text_rows(s@, pn) == total + text_rows(s@.skip(start as int), pn),
        decreases s.len() - start,
    {
        let mut k = start;
        while k < s.len() && s[k] != '\n'
            invariant
                start <= k <= s.len(),
                forall|i: int| start <= i < k ==> s@[i] != '\n',
            decreases s.len() - k,
        {
            k = k + 1;
        }
        let ghost rest = s@.skip(start as int);
        proof {
            assert forall|i: int| 0 <= i < k - start implies rest[i] != '\n' by {
                assert(rest[i] == s@[start + i]);
            }
            if k < s.len() {
                assert(rest[k - start] == s@[k as int]);
            }
            lemma_newline_at(rest, k - start);
        }
        let len = k - start;
        let rows: usize = if len == 0 {
            1
        } else {
            (len - 1) / per + 1
        };
        assert(rows == line_rows(len as nat, pn));
        if k < s.len() {
            assert(rest.skip(k - start + 1) =~= s@.skip(k + 1));
        }
        if rows >= 5 - total {
            return 5;
        }
        total = total + rows;
        if k == s.len() {
            return total;
        }
        start = k + 1;
    }
}

} // verus!
