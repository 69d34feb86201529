//! The scene composer: the per-frame decision of what is drawn where. It has
//! two states - `Single`, which shows only the topmost window scaled to fill
//! the output while preserving its aspect ratio, and `MenuOpen`, which shows
//! the whole stack as a list of thumbnails with a highlight around the
//! current selection. Across a full output the five compositing tiers keep a
//! fixed order: background, bottom, the application windows, top, overlay.

use vstd::prelude::*;

use crate::geometry::{fit_h, fit_w, fit_x, fit_y, width_limited, Extent, Pos, Rect};
use crate::tree::LogicalOp;

verus! {

/// Height of one row of the window-switcher menu, in logical pixels.
pub const MENU_ROW_HEIGHT: u32 = 100;

/// Width of the thumbnail area of a menu row.
pub const MENU_THUMB_WIDTH: u32 = 200;

/// Horizontal position where a menu row's title starts.
pub const MENU_TITLE_X: i32 = 220;

/// Vertical offset of a row's title within the row.
pub const MENU_TITLE_Y: i32 = 42;

/// What the scene composer renders this frame.
#[derive(Clone, Copy, Debug, PartialEq, Eq, Structural)]
pub enum SceneMode {
    /// Only the topmost window, full-bleed, aspect-preserving.
    Single,
    /// The window-switcher menu with the row at `selected` highlighted.
    MenuOpen { selected: usize },
}

impl SceneMode {
    /// The selection index always lies in `[0, window_count)`.
    pub open spec fn wf(self, window_count: nat) -> bool {
        match self {
            SceneMode::Single => true,
            SceneMode::MenuOpen { selected } => (selected as nat) < window_count,
        }
    }

    /// While the menu is open it consumes all pointer motion and axis input.
    pub fn consumes_pointer(&self) -> (r: bool)
        ensures
            r == (*self is MenuOpen),
    {
        match self {
            SceneMode::MenuOpen { .. } => true,
            SceneMode::Single => false,
        }
    }

    /// The menu-toggle keybinding: opens the menu with the selection at the
    /// topmost window. With no windows there is nothing to select, so the
    /// scene stays in `Single`; an already open menu is left as it is, since
    /// confirm and back are the only transitions out.
    pub fn toggle_menu(&mut self, window_count: usize)
        requires
            old(self).wf(window_count as nat),
        ensures
            final(self).wf(window_count as nat),
            *old(self) is Single && window_count > 0 ==> *final(self) == (SceneMode::MenuOpen {
                selected: 0usize,
            }),
            *old(self) is MenuOpen || window_count == 0 ==> *final(self) == *old(self),
    {
        if let SceneMode::Single = self {
            if window_count > 0 {
                *self = SceneMode::MenuOpen { selected: 0 };
            }
        }
    }

    /// Move the selection one row up. At row 0 this is a no-op: the
    /// selection clamps and never wraps.
    pub fn selection_up(&mut self, window_count: usize)
        requires
            old(self).wf(window_count as nat),
        ensures
            final(self).wf(window_count as nat),
            match *old(self) {
                SceneMode::MenuOpen { selected } => *final(self) == (SceneMode::MenuOpen {
                    selected: if selected > 0 {
                        (selected - 1) as usize
                    } else {
                        0usize
                    },
                }),
                SceneMode::Single => *final(self) == *old(self),
            },
    {
        if let SceneMode::MenuOpen { selected } = self {
            if *selected > 0 {
                *self = SceneMode::MenuOpen { selected: *selected - 1 };
            }
        }
    }

    /// Move the selection one row down. At the last row this is a no-op: the
    /// selection clamps and never wraps.
    pub fn selection_down(&mut self, window_count: usize)
        requires
            old(self).wf(window_count as nat),
        ensures
            final(self).wf(window_count as nat),
            match *old(self) {
                SceneMode::MenuOpen { selected } => *final(self) == (SceneMode::MenuOpen {
                    selected: if selected + 1 < window_count {
                        (selected + 1) as usize
                    } else {
                        selected
                    },
                }),
                SceneMode::Single => *final(self) == *old(self),
            },
    {
        if let SceneMode::MenuOpen { selected } = self {
            if *selected + 1 < window_count {
                *self = SceneMode::MenuOpen { selected: *selected + 1 };
            }
        }
    }

    /// Confirm the selection: leave the menu and report which stacking index
    /// the caller must bring to the top. In `Single` mode there is nothing to
    /// confirm.
    pub fn confirm(&mut self) -> (r: Option<usize>)
        ensures
            *final(self) == SceneMode::Single,
            match *old(self) {
                SceneMode::MenuOpen { selected } => r == Some(selected),
                SceneMode::Single => r is None,
            },
    {
        let r = match self {
            SceneMode::MenuOpen { selected } => Some(*selected),
            SceneMode::Single => None,
        };
        *self = SceneMode::Single;
        r
    }

    /// Cancel the menu without committing a selection.
    pub fn cancel(&mut self)
        ensures
            *final(self) == SceneMode::Single,
    {
        *self = SceneMode::Single;
    }
}

/// One row of the window-switcher menu.
#[derive(Clone, Copy, Debug, PartialEq, Eq, Structural)]
pub struct MenuRow {
    /// Destination rectangle of the window thumbnail.
    pub thumb_dest: Rect,
    /// The highlight box drawn under the selected row, spanning the output's
    /// width.
    pub highlighted: bool,
    pub highlight: Rect,
    /// Where the window title is drawn.
    pub title_pos: Pos,
}

/// The row layout at index `i`: rows stack downward, `MENU_ROW_HEIGHT` each.
pub open spec fn spec_menu_row(i: int, selected: int, output: Rect) -> MenuRow {
    MenuRow {
        thumb_dest: Rect {
            loc: Pos { x: 0, y: (i * MENU_ROW_HEIGHT) as i32 },
            size: Extent { w: MENU_THUMB_WIDTH, h: MENU_ROW_HEIGHT },
        },
        highlighted: i == selected,
        highlight: Rect {
            loc: Pos { x: 0, y: (i * MENU_ROW_HEIGHT) as i32 },
            size: Extent { w: output.size.w, h: MENU_ROW_HEIGHT },
        },
        title_pos: Pos { x: MENU_TITLE_X, y: (i * MENU_ROW_HEIGHT + MENU_TITLE_Y) as i32 },
    }
}

/// Lay the menu out: one row per window, top of the stack first, the row at
/// `selected` highlighted.
pub fn menu_layout(window_count: usize, selected: usize, output: &Rect) -> (r: Vec<MenuRow>)
    requires
        window_count * MENU_ROW_HEIGHT + MENU_TITLE_Y <= i32::MAX,
    ensures
        r@.len() == window_count,
        forall|i: int|
            0 <= i < window_count ==> r@[i] == spec_menu_row(i, selected as int, *output),
{
    let mut rows: Vec<MenuRow> = Vec::new();
    let mut i: usize = 0;
    while i < window_count
        invariant
            i <= window_count,
            window_count * MENU_ROW_HEIGHT + MENU_TITLE_Y <= i32::MAX,
            rows@.len() == i,
            forall|j: int| 0 <= j < i ==> rows@[j] == spec_menu_row(j, selected as int, *output),
        decreases window_count - i,
    {
        proof {
            assert(i * MENU_ROW_HEIGHT + MENU_TITLE_Y <= window_count * MENU_ROW_HEIGHT
                + MENU_TITLE_Y) by (nonlinear_arith)
                requires
                    i < window_count,
            ;
        }
        let y = (i as u32) * MENU_ROW_HEIGHT;
        rows.push(
            MenuRow {
                thumb_dest: Rect {
                    loc: Pos { x: 0, y: y as i32 },
                    size: Extent { w: MENU_THUMB_WIDTH, h: MENU_ROW_HEIGHT },
                },
                highlighted: i == selected,
                highlight: Rect {
                    loc: Pos { x: 0, y: y as i32 },
                    size: Extent { w: output.size.w, h: MENU_ROW_HEIGHT },
                },
                title_pos: Pos { x: MENU_TITLE_X, y: y as i32 + MENU_TITLE_Y },
            },
        );
        i += 1;
    }
    rows
}

/// A draw operation in physical pixels, ready for the renderer backend.
#[derive(Clone, Copy, Debug, PartialEq, Eq, Structural)]
pub struct PhysOp {
    pub texture: u64,
    pub x: i64,
    pub y: i64,
    pub w: u64,
    pub h: u64,
}

/// Numerator of the Single-mode scale ratio.
pub open spec fn scale_num(output: Rect, bbox: Rect) -> int {
    if width_limited(output, bbox.size) {
        output.size.w as int
    } else {
        output.size.h as int
    }
}

/// Denominator of the Single-mode scale ratio.
pub open spec fn scale_den(output: Rect, bbox: Rect) -> int {
    if width_limited(output, bbox.size) {
        bbox.size.w as int
    } else {
        bbox.size.h as int
    }
}

/// Where a logical operation lands when the window is fitted into the
/// output: position relative to the bounding box scales by the fit ratio and
/// lands inside the centered fitted rectangle.
pub open spec fn spec_place_scaled(op: LogicalOp, output: Rect, bbox: Rect) -> PhysOp {
    let num = scale_num(output, bbox);
    let den = scale_den(output, bbox);
    PhysOp {
        texture: op.texture,
        x: (fit_x(output, bbox.size) + (op.x - bbox.loc.x) * num / den) as i64,
        y: (fit_y(output, bbox.size) + (op.y - bbox.loc.y) * num / den) as i64,
        w: (op.size.w * num / den) as u64,
        h: (op.size.h * num / den) as u64,
    }
}

/// A quotient `d * num / den` stays under `cap` when the scaled upper bound
/// `dcap * num / den` does.
proof fn lemma_ratio_bound(d: int, num: int, den: int, dcap: int, cap: int)
    requires
        0 < den,
        0 <= num,
        0 <= d <= dcap,
        dcap * num / den <= cap,
    ensures
        0 <= d * num / den <= cap,
{
    assert(d * num <= dcap * num) by (nonlinear_arith)
        requires
            0 <= num,
            d <= dcap,
    ;
    vstd::arithmetic::div_mod::lemma_div_is_ordered(d * num, dcap * num, den);
    assert(d * num >= 0) by (nonlinear_arith)
        requires
            0 <= d,
            0 <= num,
    ;
    vstd::arithmetic::div_mod::lemma_div_pos_is_pos(d * num, den);
}

/// The position of an in-box operation scales to within the output's extent.
proof fn lemma_scaled_within(output: Rect, bbox: Rect, dx: int, dy: int)
    requires
        bbox.is_nonempty(),
        0 <= dx <= bbox.size.w,
        0 <= dy <= bbox.size.h,
    ensures
        0 <= dx * scale_num(output, bbox) / scale_den(output, bbox) <= output.size.w,
        0 <= dy * scale_num(output, bbox) / scale_den(output, bbox) <= output.size.h,
{
    let num = scale_num(output, bbox);
    let den = scale_den(output, bbox);
    crate::geometry::lemma_fit_within(output, bbox.size);
    if width_limited(output, bbox.size) {
        assert(bbox.size.w * num / den == output.size.w) by (nonlinear_arith)
            requires
                den == bbox.size.w,
                num == output.size.w,
                den > 0,
        ;
        lemma_ratio_bound(dx, num, den, bbox.size.w as int, output.size.w as int);
        assert(bbox.size.h * num / den == fit_h(output, bbox.size));
        lemma_ratio_bound(dy, num, den, bbox.size.h as int, output.size.h as int);
    } else {
        assert(bbox.size.h * num / den == output.size.h) by (nonlinear_arith)
            requires
                den == bbox.size.h,
                num == output.size.h,
                den > 0,
        ;
        assert(bbox.size.w * num / den == fit_w(output, bbox.size));
        lemma_ratio_bound(dx, num, den, bbox.size.w as int, output.size.w as int);
        lemma_ratio_bound(dy, num, den, bbox.size.h as int, output.size.h as int);
    }
}

/// Scale one logical operation of a window with bounding box `bbox` into the
/// output rectangle, by the same uniform ratio and centering that
/// `fit_rect` chooses. The operation lies within the bounding box, which is
/// what makes it a bounding box.
pub fn place_scaled(op: &LogicalOp, output: &Rect, bbox: &Rect) -> (r: PhysOp)
    requires
        bbox.is_nonempty(),
        output.edges_in_range(),
        bbox.loc.x <= op.x && op.x <= bbox.spec_right(),
        bbox.loc.y <= op.y && op.y <= bbox.spec_bottom(),
    ensures
        r == spec_place_scaled(*op, *output, *bbox),
{
    proof {
        lemma_scaled_within(
            *output,
            *bbox,
            op.x - bbox.loc.x,
            op.y - bbox.loc.y,
        );
    }
    let num: u64;
    let den: u64;
    let ow = output.size.w as u64;
    let oh = output.size.h as u64;
    let bw = bbox.size.w as u64;
    let bh = bbox.size.h as u64;
    proof {
        assert(ow * bh <= u64::MAX && oh * bw <= u64::MAX) by (nonlinear_arith)
            requires
                ow <= u32::MAX,
                oh <= u32::MAX,
                bw <= u32::MAX,
                bh <= u32::MAX,
        ;
    }
    if ow * bh <= oh * bw {
        num = ow;
        den = bw;
    } else {
        num = oh;
        den = bh;
    }
    let fitted = crate::geometry::fit_rect(output, &bbox.size);
    let dx = (op.x as i64 - bbox.loc.x as i64) as u64;
    let dy = (op.y as i64 - bbox.loc.y as i64) as u64;
    proof {
        assert(dx * num <= u64::MAX && dy * num <= u64::MAX && (op.size.w as u64) * num <= u64::MAX
            && (op.size.h as u64) * num <= u64::MAX) by (nonlinear_arith)
            requires
                dx <= u32::MAX as u64 + 1,
                dy <= u32::MAX as u64 + 1,
                op.size.w <= u32::MAX,
                op.size.h <= u32::MAX,
                num <= u32::MAX,
        ;
    }
    PhysOp {
        texture: op.texture,
        x: fitted.loc.x as i64 + (dx * num / den) as i64,
        y: fitted.loc.y as i64 + (dy * num / den) as i64,
        w: (op.size.w as u64) * num / den,
        h: (op.size.h as u64) * num / den,
    }
}

/// Compose the Single-mode view of one window: every operation of its
/// surface tree, fitted into the output.
pub fn place_window(ops: &Vec<LogicalOp>, output: &Rect, bbox: &Rect) -> (r: Vec<PhysOp>)
    requires
        bbox.is_nonempty(),
        output.edges_in_range(),
        forall|i: int|
            0 <= i < ops@.len() ==> bbox.loc.x <= #[trigger] ops@[i].x && ops@[i].x
                <= bbox.spec_right() && bbox.loc.y <= ops@[i].y && ops@[i].y
                <= bbox.spec_bottom(),
    ensures
        r@.len() == ops@.len(),
        forall|i: int|
            0 <= i < ops@.len() ==> r@[i] == spec_place_scaled(ops@[i], *output, *bbox),
{
    let mut out: Vec<PhysOp> = Vec::new();
    let mut i: usize = 0;
    while i < ops.len()
        invariant
            i <= ops@.len(),
            out@.len() == i,
            bbox.is_nonempty(),
            output.edges_in_range(),
            forall|j: int|
                0 <= j < ops@.len() ==> bbox.loc.x <= #[trigger] ops@[j].x && ops@[j].x
                    <= bbox.spec_right() && bbox.loc.y <= ops@[j].y && ops@[j].y
                    <= bbox.spec_bottom(),
            forall|j: int| 0 <= j < i ==> out@[j] == spec_place_scaled(ops@[j], *output, *bbox),
        decreases ops@.len() - i,
    {
        let p = place_scaled(&ops[i], output, bbox);
        out.push(p);
        i += 1;
    }
    out
}

/// Whether a stack entry is an unmanaged X11 popup, which draws above the
/// window it belongs to.
pub open spec fn spec_is_override_redirect(e: crate::stack::WindowEntry) -> bool {
    e.kind == (crate::stack::WindowKind::X11 { override_redirect: true })
}

/// What the application tier of a frame shows: walking the stack from the
/// top, every leading unmanaged X11 popup, then the first real window -
/// native or managed X11 - which is the one Single mode renders; the popups
/// draw above it.
pub fn select_app_windows(stack: &crate::stack::WindowStack) -> (r: (Vec<u64>, Option<u64>))
    ensures
        ({
            let s = stack@;
            match r.1 {
                Some(w) => exists|k: int|
                    {
                        &&& 0 <= k < s.len()
                        &&& !spec_is_override_redirect(#[trigger] s[k])
                        &&& w == s[k].id
                        &&& (forall|j: int| 0 <= j < k ==> spec_is_override_redirect(#[trigger] s[j]))
                        &&& r.0@.len() == k
                        &&& (forall|j: int| 0 <= j < k ==> r.0@[j] == (#[trigger] s[j]).id)
                    },
                None => (forall|j: int|
                    0 <= j < s.len() ==> spec_is_override_redirect(#[trigger] s[j])) && r.0@.len()
                    == s.len() && (forall|j: int|
                    0 <= j < s.len() ==> r.0@[j] == (#[trigger] s[j]).id),
            }
        }),
{
    let mut popups: Vec<u64> = Vec::new();
    let mut i: usize = 0;
    while i < stack.len()
        invariant
            i <= stack@.len(),
            popups@.len() == i,
            forall|j: int| 0 <= j < i ==> spec_is_override_redirect(#[trigger] stack@[j]),
            forall|j: int| 0 <= j < i ==> popups@[j] == (#[trigger] stack@[j]).id,
        decreases stack@.len() - i,
    {
        let e = stack.get(i);
        let over = match e.kind {
            crate::stack::WindowKind::X11 { override_redirect } => override_redirect,
            crate::stack::WindowKind::Wayland => false,
        };
        if !over {
            return (popups, Some(e.id));
        }
        popups.push(e.id);
        i += 1;
    }
    (popups, None)
}

/// The five compositing tiers of a full output frame, bottom-most first.
/// Clients cannot reorder their surfaces beyond their assigned tier.
pub fn compose_frame(
    background: Vec<PhysOp>,
    bottom: Vec<PhysOp>,
    app: Vec<PhysOp>,
    top: Vec<PhysOp>,
    overlay: Vec<PhysOp>,
) -> (r: Vec<PhysOp>)
    ensures
        r@ == background@ + bottom@ + app@ + top@ + overlay@,
{
    let mut r = background;
    let mut bottom = bottom;
    let mut app = app;
    let mut top = top;
    let mut overlay = overlay;
    r.append(&mut bottom);
    r.append(&mut app);
    r.append(&mut top);
    r.append(&mut overlay);
    r
}

} // verus!
