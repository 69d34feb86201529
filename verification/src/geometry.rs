//! Logical and physical pixel geometry: points, sizes, rectangles, and the
//! aspect-preserving fit used to place a window inside an output.

use vstd::prelude::*;

verus! {

/// A point in the shared logical coordinate space.
#[derive(Clone, Copy, Debug, PartialEq, Eq, Structural)]
pub struct Pos {
    pub x: i32,
    pub y: i32,
}

/// A width/height pair in logical pixels.
#[derive(Clone, Copy, Debug, PartialEq, Eq, Structural)]
pub struct Extent {
    pub w: u32,
    pub h: u32,
}

/// An axis-aligned rectangle: location of the top-left corner plus extent.
#[derive(Clone, Copy, Debug, PartialEq, Eq, Structural)]
pub struct Rect {
    pub loc: Pos,
    pub size: Extent,
}

impl Rect {
    /// The rectangle covers at least one pixel.
    pub open spec fn is_nonempty(self) -> bool {
        self.size.w > 0 && self.size.h > 0
    }

    /// Right and bottom edges stay within `i32`, so edge arithmetic is exact.
    pub open spec fn edges_in_range(self) -> bool {
        self.loc.x + self.size.w <= i32::MAX && self.loc.y + self.size.h <= i32::MAX
    }

    pub open spec fn spec_right(self) -> int {
        self.loc.x + self.size.w
    }

    pub open spec fn spec_bottom(self) -> int {
        self.loc.y + self.size.h
    }

    /// Two rectangles share at least one pixel.
    pub open spec fn spec_overlaps(self, other: Rect) -> bool {
        &&& self.loc.x < other.spec_right()
        &&& other.loc.x < self.spec_right()
        &&& self.loc.y < other.spec_bottom()
        &&& other.loc.y < self.spec_bottom()
    }

    pub fn right(&self) -> (r: i64)
        ensures
            r == self.spec_right(),
    {
        self.loc.x as i64 + self.size.w as i64
    }

    pub fn bottom(&self) -> (r: i64)
        ensures
            r == self.spec_bottom(),
    {
        self.loc.y as i64 + self.size.h as i64
    }

    pub fn overlaps(&self, other: &Rect) -> (r: bool)
        ensures
            r == self.spec_overlaps(*other),
    {
        (self.loc.x as i64) < other.right() && (other.loc.x as i64) < self.right()
            && (self.loc.y as i64) < other.bottom() && (other.loc.y as i64) < self.bottom()
    }
}

/// The output is at least as tall, relative to its width, as the window:
/// the width ratio `o.w / w.w` is the smaller of the two scale ratios.
pub open spec fn width_limited(output: Rect, win: Extent) -> bool {
    output.size.w * win.h <= output.size.h * win.w
}

/// Width of the window after scaling by `min(o.w / w.w, o.h / w.h)`,
/// rounded down to whole pixels.
pub open spec fn fit_w(output: Rect, win: Extent) -> int {
    if width_limited(output, win) {
        output.size.w as int
    } else {
        win.w * output.size.h / win.h as int
    }
}

/// Height of the window after scaling by `min(o.w / w.w, o.h / w.h)`,
/// rounded down to whole pixels.
pub open spec fn fit_h(output: Rect, win: Extent) -> int {
    if width_limited(output, win) {
        win.h * output.size.w / win.w as int
    } else {
        output.size.h as int
    }
}

/// Left edge of the fitted window: the output's own origin plus half of the
/// horizontal slack.
pub open spec fn fit_x(output: Rect, win: Extent) -> int {
    output.loc.x + (output.size.w - fit_w(output, win)) / 2
}

/// Top edge of the fitted window: the output's own origin plus half of the
/// vertical slack.
pub open spec fn fit_y(output: Rect, win: Extent) -> int {
    output.loc.y + (output.size.h - fit_h(output, win)) / 2
}

/// The fitted size never exceeds the output on either axis.
pub proof fn lemma_fit_within(output: Rect, win: Extent)
    requires
        win.w > 0,
        win.h > 0,
    ensures
        0 <= fit_w(output, win) <= output.size.w,
        0 <= fit_h(output, win) <= output.size.h,
{
    if width_limited(output, win) {
        assert(win.h * output.size.w == output.size.w * win.h) by (nonlinear_arith);
        vstd::arithmetic::div_mod::lemma_div_is_ordered(
            win.h * output.size.w,
            output.size.h * win.w,
            win.w as int,
        );
        assert(output.size.h * win.w / win.w as int == output.size.h) by (nonlinear_arith)
            requires win.w > 0;
        assert(win.h * output.size.w >= 0) by (nonlinear_arith);
        vstd::arithmetic::div_mod::lemma_div_pos_is_pos(win.h * output.size.w, win.w as int);
    } else {
        assert(win.w * output.size.h == output.size.h * win.w) by (nonlinear_arith);
        assert(output.size.h * win.w <= output.size.w * win.h) by (nonlinear_arith)
            requires output.size.w * win.h > output.size.h * win.w;
        vstd::arithmetic::div_mod::lemma_div_is_ordered(
            win.w * output.size.h,
            output.size.w * win.h,
            win.h as int,
        );
        assert(output.size.w * win.h / win.h as int == output.size.w) by (nonlinear_arith)
            requires win.h > 0;
        assert(win.w * output.size.h >= 0) by (nonlinear_arith);
        vstd::arithmetic::div_mod::lemma_div_pos_is_pos(win.w * output.size.h, win.h as int);
    }
}

/// Place a window of extent `win` inside `output`, scaled uniformly by the
/// smaller of the two axis ratios and centered on the axis with slack.
pub fn fit_rect(output: &Rect, win: &Extent) -> (r: Rect)
    requires
        win.w > 0,
        win.h > 0,
        output.edges_in_range(),
    ensures
        r.size.w == fit_w(*output, *win),
        r.size.h == fit_h(*output, *win),
        r.loc.x == fit_x(*output, *win),
        r.loc.y == fit_y(*output, *win),
{
    proof {
        lemma_fit_within(*output, *win);
    }
    let ow = output.size.w as u64;
    let oh = output.size.h as u64;
    let ww = win.w as u64;
    let wh = win.h as u64;
    proof {
        assert(ow * wh <= u64::MAX && oh * ww <= u64::MAX && wh * ow <= u64::MAX && ww * oh
            <= u64::MAX) by (nonlinear_arith)
            requires
                ow <= u32::MAX,
                oh <= u32::MAX,
                ww <= u32::MAX,
                wh <= u32::MAX,
        ;
    }
    let fw: u64;
    let fh: u64;
    if ow * wh <= oh * ww {
        fw = ow;
        fh = wh * ow / ww;
    } else {
        fw = ww * oh / wh;
        fh = oh;
    }
    let off_x = (output.size.w - fw as u32) / 2;
    let off_y = (output.size.h - fh as u32) / 2;
    Rect {
        loc: Pos { x: output.loc.x + off_x as i32, y: output.loc.y + off_y as i32 },
        size: Extent { w: fw as u32, h: fh as u32 },
    }
}

/// A logical coordinate scaled to physical pixels by a fractional scale
/// factor given in thousandths, rounded to the nearest integer with halves
/// away from zero.
pub open spec fn phys_round(v: int, scale_millis: int) -> int {
    if v >= 0 {
        (v * scale_millis + 500) / 1000
    } else {
        -(((-v) * scale_millis + 500) / 1000)
    }
}

/// Convert a logical coordinate to physical pixels under the output's
/// fractional scale factor, with round-to-nearest semantics.
pub fn to_physical(v: i32, scale_millis: u32) -> (r: i64)
    requires
        scale_millis <= 1_000_000,
    ensures
        r == phys_round(v as int, scale_millis as int),
{
    if v >= 0 {
        proof {
            assert((v as u64) * (scale_millis as u64) <= 0x8000_0000u64 * 1_000_000)
                by (nonlinear_arith)
                requires
                    v as u64 <= 0x8000_0000u64,
                    scale_millis as u64 <= 1_000_000,
            ;
        }
        let vm = (v as u64) * (scale_millis as u64);
        ((vm + 500) / 1000) as i64
    } else {
        let mag = (-(v as i64)) as u64;
        proof {
            assert(mag * (scale_millis as u64) <= 0x8000_0000u64 * 1_000_000)
                by (nonlinear_arith)
                requires
                    mag <= 0x8000_0000u64,
                    scale_millis as u64 <= 1_000_000,
            ;
        }
        let vm = mag * (scale_millis as u64);
        -(((vm + 500) / 1000) as i64)
    }
}

/// In Single mode the rendered rectangle lies inside the output, is centered
/// on each axis, and scales the bounding box by exactly the smaller of the
/// two axis ratios: the axis that limits keeps the output's full extent, and
/// the other axis gets the bounding box scaled by that same ratio, with the
/// rounding remainder below one denominator unit.
pub proof fn lemma_single_mode_placement(output: Rect, win: Extent)
    requires
        win.w > 0,
        win.h > 0,
        output.edges_in_range(),
    ensures
        0 <= fit_w(output, win) <= output.size.w,
        0 <= fit_h(output, win) <= output.size.h,
        output.loc.x <= fit_x(output, win),
        fit_x(output, win) + fit_w(output, win) <= output.spec_right(),
        output.loc.y <= fit_y(output, win),
        fit_y(output, win) + fit_h(output, win) <= output.spec_bottom(),
        fit_x(output, win) - output.loc.x == (output.size.w - fit_w(output, win)) / 2,
        fit_y(output, win) - output.loc.y == (output.size.h - fit_h(output, win)) / 2,
        width_limited(output, win) ==> fit_w(output, win) == output.size.w
            && win.w * fit_h(output, win) <= win.h * output.size.w
            && win.h * output.size.w < win.w * (fit_h(output, win) + 1),
        !width_limited(output, win) ==> fit_h(output, win) == output.size.h
            && win.h * fit_w(output, win) <= win.w * output.size.h
            && win.w * output.size.h < win.h * (fit_w(output, win) + 1),
{
    lemma_fit_within(output, win);
    if width_limited(output, win) {
        let q = win.h * output.size.w / win.w as int;
        vstd::arithmetic::div_mod::lemma_fundamental_div_mod(win.h * output.size.w, win.w as int);
        vstd::arithmetic::div_mod::lemma_remainder_upper(win.h * output.size.w, win.w as int);
        vstd::arithmetic::div_mod::lemma_remainder_lower(win.h * output.size.w, win.w as int);
        assert(win.w * q <= win.h * output.size.w < win.w * (q + 1)) by (nonlinear_arith)
            requires
                win.w > 0,
                win.h * output.size.w == win.w as int * q + (win.h * output.size.w) % win.w as int,
                0 <= (win.h * output.size.w) % (win.w as int),
                (win.h * output.size.w) % (win.w as int) < win.w,
        ;
    } else {
        let q = win.w * output.size.h / win.h as int;
        vstd::arithmetic::div_mod::lemma_fundamental_div_mod(win.w * output.size.h, win.h as int);
        vstd::arithmetic::div_mod::lemma_remainder_upper(win.w * output.size.h, win.h as int);
        vstd::arithmetic::div_mod::lemma_remainder_lower(win.w * output.size.h, win.h as int);
        assert(win.h * q <= win.w * output.size.h < win.h * (q + 1)) by (nonlinear_arith)
            requires
                win.h > 0,
                win.w * output.size.h == win.h as int * q + (win.w * output.size.h) % win.h as int,
                0 <= (win.w * output.size.h) % (win.h as int),
                (win.w * output.size.h) % (win.h as int) < win.h,
        ;
    }
}

} // verus!
