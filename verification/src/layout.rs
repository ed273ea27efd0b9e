//! Viewport nodes and their composition operations.
//!
//! A `DrawContext` is one node of the viewport tree: a cumulative transform
//! from normalized viewport space to the node's local space, the node's
//! size, and a snapshot of the cursor state. Every composition operation
//! (rescale, margin, split, aspect-ratio enforcement, animation) returns a
//! new node and leaves its receiver untouched.
//!
//! All sizes and percentages are exact fractions; an operation returns
//! `None` exactly when its exact result cannot be represented within the
//! working range, and the contracts say precisely when that is.

use vstd::prelude::*;
use vstd::arithmetic::div_mod::lemma_div_is_ordered;
use vstd::arithmetic::div_mod::lemma_div_multiples_vanish;
use vstd::arithmetic::div_mod::lemma_div_pos_is_pos;

use crate::animations::Animation;
use crate::animations::Interpolation;
use crate::animations::PROGRESS_GRID;
use crate::matrix::Mat;
use crate::matrix::Matrix;
use crate::matrix::mat_fits;
use crate::matrix::mat_identity;
use crate::matrix::mat_mul_s;
use crate::num::Frac;
use crate::num::Rat;
use crate::num::WORKING_RANGE;
use crate::num::in_range;
use crate::num::int_rat;
use crate::num::lemma_mul_bound;
use crate::num::lemma_mul_bound2;
use crate::num::lemma_mul_pos;
use crate::num::rat_div;
use crate::num::rat_fits;
use crate::num::rat_lt;
use crate::num::rat_mul;
use crate::num::rat_sub;
use crate::state::SharedDrawContext;
use crate::state::UiState;
use crate::state::WidgetId;

verus! {

/// Describes a horizontal alignment.
#[derive(Copy, Clone, Debug, PartialEq, Eq, Structural)]
pub enum HorizontalAlignment {
    /// Align in the middle.
    Center,
    /// Align left.
    Left,
    /// Align right.
    Right,
}

/// Describes a vertical alignment.
#[derive(Copy, Clone, Debug, PartialEq, Eq, Structural)]
pub enum VerticalAlignment {
    /// Align in the middle.
    Center,
    /// Align top.
    Top,
    /// Align bottom.
    Bottom,
}

/// Represents the alignment of a viewport.
#[derive(Copy, Clone, Debug, PartialEq, Eq, Structural)]
pub struct Alignment {
    /// The horizontal alignment.
    pub horizontal: HorizontalAlignment,
    /// The vertical alignment.
    pub vertical: VerticalAlignment,
}

impl Alignment {
    /// Shortcut for `(center, center)`.
    pub fn center() -> (r: Alignment)
        ensures
            r.horizontal is Center && r.vertical is Center,
    {
        Alignment { horizontal: HorizontalAlignment::Center, vertical: VerticalAlignment::Center }
    }

    /// Shortcut for `(center, bottom)`.
    pub fn bottom() -> (r: Alignment)
        ensures
            r.horizontal is Center && r.vertical is Bottom,
    {
        Alignment { horizontal: HorizontalAlignment::Center, vertical: VerticalAlignment::Bottom }
    }

    /// Shortcut for `(center, top)`.
    pub fn top() -> (r: Alignment)
        ensures
            r.horizontal is Center && r.vertical is Top,
    {
        Alignment { horizontal: HorizontalAlignment::Center, vertical: VerticalAlignment::Top }
    }

    /// Shortcut for `(right, center)`.
    pub fn right() -> (r: Alignment)
        ensures
            r.horizontal is Right && r.vertical is Center,
    {
        Alignment { horizontal: HorizontalAlignment::Right, vertical: VerticalAlignment::Center }
    }

    /// Shortcut for `(left, center)`.
    pub fn left() -> (r: Alignment)
        ensures
            r.horizontal is Left && r.vertical is Center,
    {
        Alignment { horizontal: HorizontalAlignment::Left, vertical: VerticalAlignment::Center }
    }

    /// Shortcut for `(left, top)`.
    pub fn top_left() -> (r: Alignment)
        ensures
            r.horizontal is Left && r.vertical is Top,
    {
        Alignment { horizontal: HorizontalAlignment::Left, vertical: VerticalAlignment::Top }
    }

    /// Shortcut for `(right, top)`.
    pub fn top_right() -> (r: Alignment)
        ensures
            r.horizontal is Right && r.vertical is Top,
    {
        Alignment { horizontal: HorizontalAlignment::Right, vertical: VerticalAlignment::Top }
    }

    /// Shortcut for `(right, bottom)`.
    pub fn bottom_right() -> (r: Alignment)
        ensures
            r.horizontal is Right && r.vertical is Bottom,
    {
        Alignment { horizontal: HorizontalAlignment::Right, vertical: VerticalAlignment::Bottom }
    }

    /// Shortcut for `(left, bottom)`.
    pub fn bottom_left() -> (r: Alignment)
        ensures
            r.horizontal is Left && r.vertical is Bottom,
    {
        Alignment { horizontal: HorizontalAlignment::Left, vertical: VerticalAlignment::Bottom }
    }
}

/// A cursor position in root-normalized coordinates: both axes run from -1
/// to 1 across the root viewport.
#[derive(Copy, Clone, Debug, PartialEq, Eq, Structural)]
pub struct CursorPos {
    /// Horizontal coordinate.
    pub x: Frac,
    /// Vertical coordinate.
    pub y: Frac,
}

/// Contains everything required to draw a widget: one node of the viewport
/// tree.
#[derive(Copy, Clone, Debug)]
pub struct DrawContext {
    /// Cumulative transform from this node's local space to root space.
    pub matrix: Matrix,
    /// Width of the node, in abstract size units.
    pub width: Frac,
    /// Height of the node, in abstract size units.
    pub height: Frac,
    /// Cursor position in root-normalized coordinates, if any.
    pub cursor: Option<CursorPos>,
    /// Whether the cursor went from up to down during this frame.
    pub cursor_was_pressed: bool,
    /// Whether the cursor went from down to up during this frame.
    pub cursor_was_released: bool,
    /// Index of the surface tree this node belongs to, within the session.
    pub surface: usize,
}

/// The geometric part of a node at the specification level.
pub ghost struct CtxS {
    /// Cumulative transform.
    pub m: Mat,
    /// Width.
    pub w: Rat,
    /// Height.
    pub h: Rat,
}

/// The geometric model of a node.
pub open spec fn ctx_s(c: DrawContext) -> CtxS {
    CtxS { m: c.matrix@, w: c.width@, h: c.height@ }
}

/// The numerator of the alignment offset along one axis, over the
/// denominator of the scale: 0 centered, `scale - 1` flush low, `1 - scale`
/// flush high.
pub open spec fn halign_num(s: Rat, a: HorizontalAlignment) -> int {
    match a {
        HorizontalAlignment::Center => 0,
        HorizontalAlignment::Left => s.n - s.d,
        HorizontalAlignment::Right => s.d - s.n,
    }
}

/// As `halign_num`, for the vertical axis.
pub open spec fn valign_num(s: Rat, a: VerticalAlignment) -> int {
    match a {
        VerticalAlignment::Center => 0,
        VerticalAlignment::Bottom => s.n - s.d,
        VerticalAlignment::Top => s.d - s.n,
    }
}

/// The placement transform of `rescale`: translate by the alignment offset,
/// then scale by `(wp, hp)`, over the common denominator.
pub open spec fn align_mat_s(wp: Rat, hp: Rat, al: Alignment) -> Mat {
    Mat {
        m00: wp.n * hp.d, m01: 0, m02: halign_num(wp, al.horizontal) * hp.d,
        m10: 0, m11: hp.n * wp.d, m12: valign_num(hp, al.vertical) * wp.d,
        m20: 0, m21: 0, m22: wp.d * hp.d,
        den: wp.d * hp.d,
    }
}

/// The placement transform of `vertical_rescale`: the horizontal axis is
/// kept, the vertical axis is scaled by `s` and aligned.
pub open spec fn vcell_s(s: Rat, a: VerticalAlignment) -> Mat {
    Mat {
        m00: s.d, m01: 0, m02: 0,
        m10: 0, m11: s.n, m12: valign_num(s, a),
        m20: 0, m21: 0, m22: s.d,
        den: s.d,
    }
}

/// The placement transform of `horizontal_rescale`.
pub open spec fn hcell_s(s: Rat, a: HorizontalAlignment) -> Mat {
    Mat {
        m00: s.n, m01: 0, m02: halign_num(s, a),
        m10: 0, m11: s.d, m12: 0,
        m20: 0, m21: 0, m22: s.d,
        den: s.d,
    }
}

/// Result of `rescale` on the geometric model.
pub open spec fn rescale_s(c: CtxS, wp: Rat, hp: Rat, al: Alignment) -> CtxS {
    CtxS {
        m: mat_mul_s(c.m, align_mat_s(wp, hp, al)),
        w: rat_mul(c.w, wp),
        h: rat_mul(c.h, hp),
    }
}

/// Whether the exact result of `rescale` is representable.
pub open spec fn rescale_ok(c: CtxS, wp: Rat, hp: Rat, al: Alignment) -> bool {
    &&& mat_fits(align_mat_s(wp, hp, al))
    &&& mat_fits(mat_mul_s(c.m, align_mat_s(wp, hp, al)))
    &&& rat_fits(rat_mul(c.w, wp))
    &&& rat_fits(rat_mul(c.h, hp))
}

/// Result of `vertical_rescale` on the geometric model.
pub open spec fn vrescale_s(c: CtxS, s: Rat, a: VerticalAlignment) -> CtxS {
    CtxS { m: mat_mul_s(c.m, vcell_s(s, a)), w: c.w, h: rat_mul(c.h, s) }
}

/// Whether the exact result of `vertical_rescale` is representable.
pub open spec fn vrescale_ok(c: CtxS, s: Rat, a: VerticalAlignment) -> bool {
    &&& mat_fits(vcell_s(s, a))
    &&& mat_fits(mat_mul_s(c.m, vcell_s(s, a)))
    &&& rat_fits(rat_mul(c.h, s))
}

/// Result of `horizontal_rescale` on the geometric model.
pub open spec fn hrescale_s(c: CtxS, s: Rat, a: HorizontalAlignment) -> CtxS {
    CtxS { m: mat_mul_s(c.m, hcell_s(s, a)), w: rat_mul(c.w, s), h: c.h }
}

/// Whether the exact result of `horizontal_rescale` is representable.
pub open spec fn hrescale_ok(c: CtxS, s: Rat, a: HorizontalAlignment) -> bool {
    &&& mat_fits(hcell_s(s, a))
    &&& mat_fits(mat_mul_s(c.m, hcell_s(s, a)))
    &&& rat_fits(rat_mul(c.w, s))
}

/// Result of `margin` on the geometric model: shrink towards the
/// bottom-right by the left and top margins, then shrink the result
/// towards the top-left by the right and bottom margins.
pub open spec fn margin_s(c: CtxS, top: Rat, right: Rat, bottom: Rat, left: Rat) -> CtxS {
    let first = rescale_s(c, rat_sub(int_rat(1), left), rat_sub(int_rat(1), top),
        Alignment { horizontal: HorizontalAlignment::Right, vertical: VerticalAlignment::Bottom });
    rescale_s(first, rat_sub(int_rat(1), right), rat_sub(int_rat(1), bottom),
        Alignment { horizontal: HorizontalAlignment::Left, vertical: VerticalAlignment::Top })
}

/// Whether the exact result of `margin` is representable.
pub open spec fn margin_ok(c: CtxS, top: Rat, right: Rat, bottom: Rat, left: Rat) -> bool {
    let wp1 = rat_sub(int_rat(1), left);
    let hp1 = rat_sub(int_rat(1), top);
    let first = rescale_s(c, wp1, hp1,
        Alignment { horizontal: HorizontalAlignment::Right, vertical: VerticalAlignment::Bottom });
    &&& rat_fits(wp1) && rat_fits(hp1)
    &&& rescale_ok(c, wp1, hp1,
        Alignment { horizontal: HorizontalAlignment::Right, vertical: VerticalAlignment::Bottom })
    &&& rat_fits(rat_sub(int_rat(1), right)) && rat_fits(rat_sub(int_rat(1), bottom))
    &&& rescale_ok(first, rat_sub(int_rat(1), right), rat_sub(int_rat(1), bottom),
        Alignment { horizontal: HorizontalAlignment::Left, vertical: VerticalAlignment::Top })
}

/// The other fields of a node are copied unchanged into a derived node.
pub open spec fn same_frame(a: DrawContext, b: DrawContext) -> bool {
    &&& a.cursor == b.cursor
    &&& a.cursor_was_pressed == b.cursor_was_pressed
    &&& a.cursor_was_released == b.cursor_was_released
    &&& a.surface == b.surface
}

impl SharedDrawContext {
    /// Starts drawing one surface: returns the root node of a fresh
    /// viewport tree covering the whole surface, with the identity
    /// transform. The cursor position is in root-normalized coordinates.
    pub fn draw(&mut self, width: Frac, height: Frac, cursor: Option<CursorPos>,
        cursor_was_pressed: bool, cursor_was_released: bool) -> (r: DrawContext)
        requires
            width.wf(),
            height.wf(),
            cursor matches Some(c) ==> c.x.wf() && c.y.wf(),
            old(self).surfaces@.len() < usize::MAX,
        ensures
            r.wf(),
            r.matrix@ == mat_identity(),
            r.width == width,
            r.height == height,
            r.cursor == cursor,
            r.cursor_was_pressed == cursor_was_pressed,
            r.cursor_was_released == cursor_was_released,
            r.surface == old(self).surfaces@.len(),
            final(self).surfaces@ == old(self).surfaces@.push(false),
            final(self).ui_state == old(self).ui_state,
            final(self).next_widget_id == old(self).next_widget_id,
            final(self).hovered == old(self).hovered,
    {
        let surface = self.surfaces.len();
        self.surfaces.push(false);
        DrawContext {
            matrix: Matrix::identity(),
            width,
            height,
            cursor,
            cursor_was_pressed,
            cursor_was_released,
            surface,
        }
    }
}

impl DrawContext {
    /// All carried values are well-formed.
    pub open spec fn wf(&self) -> bool {
        &&& self.matrix.wf()
        &&& self.width.wf()
        &&& self.height.wf()
        &&& (self.cursor matches Some(c) ==> c.x.wf() && c.y.wf())
    }

    /// The cumulative transform of this node.
    pub fn matrix(&self) -> (r: Matrix)
        ensures
            r == self.matrix,
    {
        self.matrix
    }

    /// True if the cursor went from up to down in the current frame.
    pub fn cursor_was_pressed(&self) -> (r: bool)
        ensures
            r == self.cursor_was_pressed,
    {
        self.cursor_was_pressed
    }

    /// True if the cursor went from down to up in the current frame.
    pub fn cursor_was_released(&self) -> (r: bool)
        ensures
            r == self.cursor_was_released,
    {
        self.cursor_was_released
    }

    /// True if some widget drawn in this surface tree reported the cursor
    /// hovering it.
    pub fn cursor_hovered_widget(&self, shared: &SharedDrawContext) -> (r: bool)
        requires
            self.surface < shared.surfaces@.len(),
        ensures
            r == shared.surfaces@[self.surface as int],
    {
        shared.surfaces[self.surface]
    }

    /// Signals that the cursor is currently hovering this node: sets both
    /// the session-wide flag and this surface tree's flag.
    pub fn set_cursor_hovered_widget(&self, shared: &mut SharedDrawContext)
        requires
            self.surface < old(shared).surfaces@.len(),
        ensures
            final(shared).hovered == true,
            final(shared).surfaces@ == old(shared).surfaces@.update(self.surface as int, true),
            final(shared).ui_state == old(shared).ui_state,
            final(shared).next_widget_id == old(shared).next_widget_id,
    {
        shared.hovered = true;
        shared.surfaces.set(self.surface, true);
    }

    /// Reserves a fresh widget id; ids are handed out in increasing order
    /// and never reused within a session.
    pub fn reserve_widget_id(&self, shared: &mut SharedDrawContext) -> (r: WidgetId)
        requires
            old(shared).next_widget_id < u64::MAX,
        ensures
            r.id == old(shared).next_widget_id,
            final(shared).next_widget_id == old(shared).next_widget_id + 1,
            final(shared).ui_state == old(shared).ui_state,
            final(shared).hovered == old(shared).hovered,
            final(shared).surfaces@ == old(shared).surfaces@,
    {
        let id = shared.next_widget_id;
        shared.next_widget_id = id + 1;
        WidgetId { id }
    }

    /// The widget currently holding input focus, if any.
    pub fn get_active_widget(&self, shared: &SharedDrawContext) -> (r: Option<WidgetId>)
        ensures
            r == shared.ui_state.active_widget,
    {
        shared.ui_state.active_widget
    }

    /// Claims input focus for the given widget.
    pub fn write_active_widget(&self, shared: &mut SharedDrawContext, id: WidgetId)
        ensures
            final(shared).ui_state.active_widget == Some(id),
            final(shared).next_widget_id == old(shared).next_widget_id,
            final(shared).hovered == old(shared).hovered,
            final(shared).surfaces@ == old(shared).surfaces@,
    {
        shared.ui_state = UiState { active_widget: Some(id) };
    }

    /// Releases input focus.
    pub fn clear_active_widget(&self, shared: &mut SharedDrawContext)
        ensures
            final(shared).ui_state.active_widget is None,
            final(shared).next_widget_id == old(shared).next_widget_id,
            final(shared).hovered == old(shared).hovered,
            final(shared).surfaces@ == old(shared).surfaces@,
    {
        shared.ui_state = UiState { active_widget: None };
    }

    /// The ratio of the width of the surface divided by its height; `None`
    /// when the height is zero or the exact quotient is not representable.
    pub fn width_per_height(&self) -> (r: Option<Frac>)
        requires
            self.wf(),
        ensures
            r matches Some(f) ==> f.wf() && f@ == rat_div(self.width@, self.height@),
            (r is Some) <==> (self.height@.n != 0 && rat_fits(rat_div(self.width@, self.height@))),
    {
        self.width.div(self.height)
    }

    /// Scales the vertical axis by `scale`, keeping the width; the
    /// alignment places the new viewport inside the old one.
    pub fn vertical_rescale(&self, scale: Frac, alignment: &VerticalAlignment)
        -> (r: Option<DrawContext>)
        requires
            self.wf(),
            scale.wf(),
        ensures
            r matches Some(d) ==> d.wf() && same_frame(*self, d)
                && ctx_s(d) == vrescale_s(ctx_s(*self), scale@, *alignment),
            (r is Some) <==> vrescale_ok(ctx_s(*self), scale@, *alignment),
    {
        let yn: i128 = match alignment {
            VerticalAlignment::Center => 0,
            VerticalAlignment::Bottom => scale.num - scale.den,
            VerticalAlignment::Top => scale.den - scale.num,
        };
        if !(-WORKING_RANGE <= yn && yn <= WORKING_RANGE) {
            return None;
        }
        let cell = Matrix {
            m00: scale.den, m01: 0, m02: 0,
            m10: 0, m11: scale.num, m12: yn,
            m20: 0, m21: 0, m22: scale.den,
            den: scale.den,
        };
        let nm = match self.matrix.multiply(&cell) {
            Some(m) => m,
            None => {
                return None;
            },
        };
        let nh = match self.height.mul(scale) {
            Some(h) => h,
            None => {
                return None;
            },
        };
        Some(DrawContext { matrix: nm, height: nh, ..*self })
    }

    /// Scales the horizontal axis by `scale`, keeping the height; the
    /// alignment places the new viewport inside the old one.
    pub fn horizontal_rescale(&self, scale: Frac, alignment: &HorizontalAlignment)
        -> (r: Option<DrawContext>)
        requires
            self.wf(),
            scale.wf(),
        ensures
            r matches Some(d) ==> d.wf() && same_frame(*self, d)
                && ctx_s(d) == hrescale_s(ctx_s(*self), scale@, *alignment),
            (r is Some) <==> hrescale_ok(ctx_s(*self), scale@, *alignment),
    {
        let xn: i128 = match alignment {
            HorizontalAlignment::Center => 0,
            HorizontalAlignment::Left => scale.num - scale.den,
            HorizontalAlignment::Right => scale.den - scale.num,
        };
        if !(-WORKING_RANGE <= xn && xn <= WORKING_RANGE) {
            return None;
        }
        let cell = Matrix {
            m00: scale.num, m01: 0, m02: xn,
            m10: 0, m11: scale.den, m12: 0,
            m20: 0, m21: 0, m22: scale.den,
            den: scale.den,
        };
        let nm = match self.matrix.multiply(&cell) {
            Some(m) => m,
            None => {
                return None;
            },
        };
        let nw = match self.width.mul(scale) {
            Some(w) => w,
            None => {
                return None;
            },
        };
        Some(DrawContext { matrix: nm, width: nw, ..*self })
    }

    /// Changes both dimensions of the node, as percentages of the current
    /// ones; the alignment places the new viewport inside the old one.
    pub fn rescale(&self, width_percent: Frac, height_percent: Frac, alignment: &Alignment)
        -> (r: Option<DrawContext>)
        requires
            self.wf(),
            width_percent.wf(),
            height_percent.wf(),
        ensures
            r matches Some(d) ==> d.wf() && same_frame(*self, d)
                && ctx_s(d) == rescale_s(ctx_s(*self), width_percent@, height_percent@, *alignment),
            (r is Some) <==> rescale_ok(ctx_s(*self), width_percent@, height_percent@, *alignment),
    {
        let xn: i128 = match alignment.horizontal {
            HorizontalAlignment::Center => 0,
            HorizontalAlignment::Left => width_percent.num - width_percent.den,
            HorizontalAlignment::Right => width_percent.den - width_percent.num,
        };
        let yn: i128 = match alignment.vertical {
            VerticalAlignment::Center => 0,
            VerticalAlignment::Bottom => height_percent.num - height_percent.den,
            VerticalAlignment::Top => height_percent.den - height_percent.num,
        };
        proof {
            lemma_mul_bound(width_percent.num as int, height_percent.den as int,
                WORKING_RANGE as int);
            lemma_mul_bound(height_percent.num as int, width_percent.den as int,
                WORKING_RANGE as int);
            lemma_mul_bound(width_percent.den as int, height_percent.den as int,
                WORKING_RANGE as int);
            lemma_mul_bound2(xn as int, height_percent.den as int,
                2 * WORKING_RANGE as int, WORKING_RANGE as int);
            lemma_mul_bound2(yn as int, width_percent.den as int,
                2 * WORKING_RANGE as int, WORKING_RANGE as int);
            lemma_mul_pos(width_percent.den as int, height_percent.den as int);
        }
        let e00 = width_percent.num * height_percent.den;
        let e02 = xn * height_percent.den;
        let e11 = height_percent.num * width_percent.den;
        let e12 = yn * width_percent.den;
        let dd = width_percent.den * height_percent.den;
        if !(-WORKING_RANGE <= e00 && e00 <= WORKING_RANGE
            && -WORKING_RANGE <= e02 && e02 <= WORKING_RANGE
            && -WORKING_RANGE <= e11 && e11 <= WORKING_RANGE
            && -WORKING_RANGE <= e12 && e12 <= WORKING_RANGE
            && dd <= WORKING_RANGE) {
            return None;
        }
        let cell = Matrix {
            m00: e00, m01: 0, m02: e02,
            m10: 0, m11: e11, m12: e12,
            m20: 0, m21: 0, m22: dd,
            den: dd,
        };
        let nm = match self.matrix.multiply(&cell) {
            Some(m) => m,
            None => {
                return None;
            },
        };
        let nw = match self.width.mul(width_percent) {
            Some(w) => w,
            None => {
                return None;
            },
        };
        let nh = match self.height.mul(height_percent) {
            Some(h) => h,
            None => {
                return None;
            },
        };
        Some(DrawContext { matrix: nm, width: nw, height: nh, ..*self })
    }

    /// Builds a sub-viewport inset by the given margins, each a percentage
    /// of the corresponding full dimension of the current surface.
    pub fn margin(&self, top: Frac, right: Frac, bottom: Frac, left: Frac)
        -> (r: Option<DrawContext>)
        requires
            self.wf(),
            top.wf(),
            right.wf(),
            bottom.wf(),
            left.wf(),
        ensures
            r matches Some(d) ==> d.wf() && same_frame(*self, d)
                && ctx_s(d) == margin_s(ctx_s(*self), top@, right@, bottom@, left@),
            (r is Some) <==> margin_ok(ctx_s(*self), top@, right@, bottom@, left@),
    {
        let one = Frac::one();
        let wp1 = match one.sub(left) {
            Some(f) => f,
            None => {
                return None;
            },
        };
        let hp1 = match one.sub(top) {
            Some(f) => f,
            None => {
                return None;
            },
        };
        let first = match self.rescale(wp1, hp1, &Alignment::bottom_right()) {
            Some(c) => c,
            None => {
                return None;
            },
        };
        let wp2 = match one.sub(right) {
            Some(f) => f,
            None => {
                return None;
            },
        };
        let hp2 = match one.sub(bottom) {
            Some(f) => f,
            None => {
                return None;
            },
        };
        first.rescale(wp2, hp2, &Alignment::top_left())
    }
}


/// One margin clamped from below by 1, as used by `uniform_margin`.
pub open spec fn clamp_min_one(x: Rat) -> Rat {
    if rat_lt(x, int_rat(1)) {
        int_rat(1)
    } else {
        x
    }
}

/// The argument handed to `margin` for the top and bottom sides by
/// `uniform_margin`: the margin divided by the clamped height-per-width.
pub open spec fn um_h_arg(c: CtxS, v: Rat) -> Rat {
    rat_div(v, clamp_min_one(rat_div(int_rat(1), rat_div(c.w, c.h))))
}

/// The argument handed to `margin` for the left and right sides by
/// `uniform_margin`: the margin divided by the clamped width-per-height.
pub open spec fn um_w_arg(c: CtxS, v: Rat) -> Rat {
    rat_div(v, clamp_min_one(rat_div(c.w, c.h)))
}

/// Whether the exact result of `uniform_margin` is representable.
pub open spec fn uniform_margin_ok(c: CtxS, top: Rat, right: Rat, bottom: Rat, left: Rat) -> bool {
    let wph = rat_div(c.w, c.h);
    let hpw = rat_div(int_rat(1), wph);
    let wph_c = clamp_min_one(wph);
    let hpw_c = clamp_min_one(hpw);
    &&& c.h.n != 0 && rat_fits(wph)
    &&& wph.n != 0 && rat_fits(hpw)
    &&& hpw_c.n != 0 && rat_fits(rat_div(top, hpw_c))
    &&& wph_c.n != 0 && rat_fits(rat_div(right, wph_c))
    &&& rat_fits(rat_div(bottom, hpw_c))
    &&& rat_fits(rat_div(left, wph_c))
    &&& margin_ok(c, um_h_arg(c, top), um_w_arg(c, right), um_h_arg(c, bottom), um_w_arg(c, left))
}

/// Result of `enforce_aspect_ratio_downscale` on the geometric model: if
/// the target is wider than the current shape, shrink vertically, else
/// shrink horizontally; the result's width-per-height is the target.
pub open spec fn enforce_down_s(c: CtxS, t: Rat, al: Alignment) -> CtxS {
    let cur = rat_div(c.w, c.h);
    if rat_lt(cur, t) {
        vrescale_s(c, rat_div(cur, t), al.vertical)
    } else {
        hrescale_s(c, rat_div(t, cur), al.horizontal)
    }
}

/// Whether the exact result of `enforce_aspect_ratio_downscale` is
/// representable.
pub open spec fn enforce_down_ok(c: CtxS, t: Rat, al: Alignment) -> bool {
    let cur = rat_div(c.w, c.h);
    &&& c.h.n != 0 && rat_fits(cur)
    &&& if rat_lt(cur, t) {
        t.n != 0 && rat_fits(rat_div(cur, t)) && vrescale_ok(c, rat_div(cur, t), al.vertical)
    } else {
        cur.n != 0 && rat_fits(rat_div(t, cur)) && hrescale_ok(c, rat_div(t, cur), al.horizontal)
    }
}

/// Result of `enforce_aspect_ratio_upscale` on the geometric model: the
/// mirror image of the downscaling variant, growing instead of shrinking.
pub open spec fn enforce_up_s(c: CtxS, t: Rat, al: Alignment) -> CtxS {
    let cur = rat_div(c.w, c.h);
    if rat_lt(cur, t) {
        hrescale_s(c, rat_div(t, cur), al.horizontal)
    } else {
        vrescale_s(c, rat_div(cur, t), al.vertical)
    }
}

/// Whether the exact result of `enforce_aspect_ratio_upscale` is
/// representable.
pub open spec fn enforce_up_ok(c: CtxS, t: Rat, al: Alignment) -> bool {
    let cur = rat_div(c.w, c.h);
    &&& c.h.n != 0 && rat_fits(cur)
    &&& if rat_lt(cur, t) {
        cur.n != 0 && rat_fits(rat_div(t, cur)) && hrescale_ok(c, rat_div(t, cur), al.horizontal)
    } else {
        t.n != 0 && rat_fits(rat_div(cur, t)) && vrescale_ok(c, rat_div(cur, t), al.vertical)
    }
}

impl DrawContext {
    /// Builds a sub-viewport inset by margins that represent the same
    /// absolute distance on both axes: the top and bottom margins are
    /// normalized by the height-per-width, the left and right margins by
    /// the width-per-height, each clamped to at least 1.
    pub fn uniform_margin(&self, top: Frac, right: Frac, bottom: Frac, left: Frac)
        -> (r: Option<DrawContext>)
        requires
            self.wf(),
            top.wf(),
            right.wf(),
            bottom.wf(),
            left.wf(),
        ensures
            r matches Some(d) ==> d.wf() && same_frame(*self, d)
                && ctx_s(d) == margin_s(ctx_s(*self), um_h_arg(ctx_s(*self), top@),
                    um_w_arg(ctx_s(*self), right@), um_h_arg(ctx_s(*self), bottom@),
                    um_w_arg(ctx_s(*self), left@)),
            (r is Some) <==> uniform_margin_ok(ctx_s(*self), top@, right@, bottom@, left@),
    {
        let one = Frac::one();
        let wph = match self.width_per_height() {
            Some(f) => f,
            None => {
                return None;
            },
        };
        let hpw = match one.div(wph) {
            Some(f) => f,
            None => {
                return None;
            },
        };
        let wph_c = if wph.lt(one) {
            one
        } else {
            wph
        };
        let hpw_c = if hpw.lt(one) {
            one
        } else {
            hpw
        };
        let t2 = match top.div(hpw_c) {
            Some(f) => f,
            None => {
                return None;
            },
        };
        let r2 = match right.div(wph_c) {
            Some(f) => f,
            None => {
                return None;
            },
        };
        let b2 = match bottom.div(hpw_c) {
            Some(f) => f,
            None => {
                return None;
            },
        };
        let l2 = match left.div(wph_c) {
            Some(f) => f,
            None => {
                return None;
            },
        };
        self.margin(t2, r2, b2, l2)
    }

    /// Shrinks the viewport (never grows it) so that its width-per-height
    /// becomes exactly `width_per_height`.
    pub fn enforce_aspect_ratio_downscale(&self, width_per_height: Frac, alignment: &Alignment)
        -> (r: Option<DrawContext>)
        requires
            self.wf(),
            width_per_height.wf(),
        ensures
            r matches Some(d) ==> d.wf() && same_frame(*self, d)
                && ctx_s(d) == enforce_down_s(ctx_s(*self), width_per_height@, *alignment),
            (r is Some) <==> enforce_down_ok(ctx_s(*self), width_per_height@, *alignment),
    {
        let cur = match self.width_per_height() {
            Some(f) => f,
            None => {
                return None;
            },
        };
        if cur.lt(width_per_height) {
            let scale = match cur.div(width_per_height) {
                Some(f) => f,
                None => {
                    return None;
                },
            };
            self.vertical_rescale(scale, &alignment.vertical)
        } else {
            let scale = match width_per_height.div(cur) {
                Some(f) => f,
                None => {
                    return None;
                },
            };
            self.horizontal_rescale(scale, &alignment.horizontal)
        }
    }

    /// Grows the viewport (never shrinks it) so that its width-per-height
    /// becomes exactly `width_per_height`.
    pub fn enforce_aspect_ratio_upscale(&self, width_per_height: Frac, alignment: &Alignment)
        -> (r: Option<DrawContext>)
        requires
            self.wf(),
            width_per_height.wf(),
        ensures
            r matches Some(d) ==> d.wf() && same_frame(*self, d)
                && ctx_s(d) == enforce_up_s(ctx_s(*self), width_per_height@, *alignment),
            (r is Some) <==> enforce_up_ok(ctx_s(*self), width_per_height@, *alignment),
    {
        let cur = match self.width_per_height() {
            Some(f) => f,
            None => {
                return None;
            },
        };
        if cur.lt(width_per_height) {
            let scale = match width_per_height.div(cur) {
                Some(f) => f,
                None => {
                    return None;
                },
            };
            self.horizontal_rescale(scale, &alignment.horizontal)
        } else {
            let scale = match cur.div(width_per_height) {
                Some(f) => f,
                None => {
                    return None;
                },
            };
            self.vertical_rescale(scale, &alignment.vertical)
        }
    }
}


/// The views of a sequence of executable fractions.
pub open spec fn frac_views(ws: Seq<Frac>) -> Seq<Rat> {
    ws.map_values(|f: Frac| f@)
}

/// Sum of the first `k` weights, folded left to right without reduction.
pub open spec fn rat_sum_prefix(ws: Seq<Rat>, k: int) -> Rat
    decreases k,
{
    if k <= 0 {
        int_rat(0)
    } else {
        crate::num::rat_add(rat_sum_prefix(ws, k - 1), ws[k - 1])
    }
}

/// Every prefix sum of the weights stays within the working range.
pub open spec fn sum_fits(ws: Seq<Rat>) -> bool {
    forall|k: int| 0 <= k <= ws.len() ==> rat_fits(rat_sum_prefix(ws, k))
}

/// Half of a fraction.
pub open spec fn rat_half(a: Rat) -> Rat {
    Rat { n: a.n, d: 2 * a.d }
}

/// Twice a fraction.
pub open spec fn rat_twice(a: Rat) -> Rat {
    Rat { n: 2 * a.n, d: a.d }
}

/// The center of chunk `i` along the split axis, as a fraction of the
/// whole axis: the offset of the chunk plus half its weight, over the
/// total weight.
pub open spec fn split_pos(ws: Seq<Rat>, i: int) -> Rat {
    rat_div(
        crate::num::rat_add(rat_sum_prefix(ws, i), rat_half(ws[i])),
        rat_sum_prefix(ws, ws.len() as int),
    )
}

/// The translated coordinate of chunk `i`: vertical offsets grow downward
/// from the top, horizontal offsets grow rightward.
pub open spec fn split_coord(ws: Seq<Rat>, i: int, vertical: bool) -> Rat {
    if vertical {
        rat_sub(int_rat(1), rat_twice(split_pos(ws, i)))
    } else {
        rat_sub(rat_twice(split_pos(ws, i)), int_rat(1))
    }
}

/// The placement transform of one vertical chunk: scale the vertical axis
/// by `s` and translate it to `y`.
pub open spec fn split_cell_v(s: Rat, y: Rat) -> Mat {
    Mat {
        m00: s.d * y.d, m01: 0, m02: 0,
        m10: 0, m11: s.n * y.d, m12: y.n * s.d,
        m20: 0, m21: 0, m22: s.d * y.d,
        den: s.d * y.d,
    }
}

/// The placement transform of one horizontal chunk.
pub open spec fn split_cell_h(s: Rat, x: Rat) -> Mat {
    Mat {
        m00: s.n * x.d, m01: 0, m02: x.n * s.d,
        m10: 0, m11: s.d * x.d, m12: 0,
        m20: 0, m21: 0, m22: s.d * x.d,
        den: s.d * x.d,
    }
}

/// The placement transform of chunk `i`.
pub open spec fn split_cell(ws: Seq<Rat>, i: int, vertical: bool) -> Mat {
    let s = rat_div(ws[i], rat_sum_prefix(ws, ws.len() as int));
    if vertical {
        split_cell_v(s, split_coord(ws, i, vertical))
    } else {
        split_cell_h(s, split_coord(ws, i, vertical))
    }
}

/// Chunk `i` of a split on the geometric model: the axis being split is
/// scaled by this chunk's share of the total weight, the other axis is
/// kept.
pub open spec fn split_chunk_s(c: CtxS, ws: Seq<Rat>, i: int, vertical: bool) -> CtxS {
    let s = rat_div(ws[i], rat_sum_prefix(ws, ws.len() as int));
    CtxS {
        m: mat_mul_s(c.m, split_cell(ws, i, vertical)),
        w: if vertical { c.w } else { rat_mul(c.w, s) },
        h: if vertical { rat_mul(c.h, s) } else { c.h },
    }
}

/// Whether every exact intermediate of chunk `i` stays representable.
pub open spec fn split_chunk_ok(c: CtxS, ws: Seq<Rat>, i: int, vertical: bool) -> bool {
    let total = rat_sum_prefix(ws, ws.len() as int);
    let s = rat_div(ws[i], total);
    let t = crate::num::rat_add(rat_sum_prefix(ws, i), rat_half(ws[i]));
    let pos = rat_div(t, total);
    let coord = split_coord(ws, i, vertical);
    &&& rat_fits(s)
    &&& in_range(2 * ws[i].d)
    &&& rat_fits(t)
    &&& rat_fits(pos)
    &&& in_range(2 * pos.n)
    &&& rat_fits(coord)
    &&& mat_fits(split_cell(ws, i, vertical))
    &&& mat_fits(mat_mul_s(c.m, split_cell(ws, i, vertical)))
    &&& (if vertical { rat_fits(rat_mul(c.h, s)) } else { rat_fits(rat_mul(c.w, s)) })
}

/// Whether a split succeeds: all prefix sums representable, a non-zero
/// total weight, and every chunk representable.
pub open spec fn split_ok(c: CtxS, ws: Seq<Rat>, vertical: bool) -> bool {
    &&& sum_fits(ws)
    &&& rat_sum_prefix(ws, ws.len() as int).n != 0
    &&& forall|i: int| 0 <= i < ws.len() ==> split_chunk_ok(c, ws, i, vertical)
}

/// Well-formed, non-negative weights.
pub open spec fn weights_wf(ws: Seq<Frac>) -> bool {
    forall|i: int| 0 <= i < ws.len() ==> (#[trigger] ws[i]).wf() && ws[i]@.n >= 0
}

impl DrawContext {
    /// Internal implementation of the split functions: cuts the viewport
    /// into one chunk per weight, in order along the chosen axis, with no
    /// gaps and no overlap; chunk `i` receives the fraction
    /// `weight_i / total` of the axis.
    fn split_weights(&self, weights: &Vec<Frac>, vertical: bool) -> (r: Option<Vec<DrawContext>>)
        requires
            self.wf(),
            weights@.len() >= 1,
            weights_wf(weights@),
        ensures
            r matches Some(v) ==> {
                &&& v@.len() == weights@.len()
                &&& forall|i: int| 0 <= i < v@.len() ==> (#[trigger] v@[i]).wf()
                    && same_frame(*self, v@[i])
                    && ctx_s(v@[i]) == split_chunk_s(ctx_s(*self), frac_views(weights@), i, vertical)
            },
            (r is Some) <==> split_ok(ctx_s(*self), frac_views(weights@), vertical),
    {
        let ghost vs = frac_views(weights@);
        let n = weights.len();
        let mut total = Frac::zero();
        let mut k: usize = 0;
        proof {
            assert(vs.len() == weights@.len());
        }
        while k < n
            invariant
                n == weights@.len(),
                vs == frac_views(weights@),
                vs.len() == n,
                weights_wf(weights@),
                k <= n,
                total.wf(),
                total@ == rat_sum_prefix(vs, k as int),
                forall|j: int| 0 <= j <= k ==> rat_fits(rat_sum_prefix(vs, j)),
            decreases n - k,
        {
            let w = weights[k];
            proof {
                assert(vs[k as int] == w@);
            }
            total = match total.add(w) {
                Some(t) => t,
                None => {
                    proof {
                        assert(0 <= k + 1 <= vs.len() && !rat_fits(rat_sum_prefix(vs, k + 1)));
                        assert(!sum_fits(vs));
                    }
                    return None;
                },
            };
            k += 1;
        }
        if total.num == 0 {
            proof {
                assert(rat_sum_prefix(vs, vs.len() as int).n == 0);
            }
            return None;
        }
        let one = Frac::one();
        let mut out: Vec<DrawContext> = Vec::new();
        let mut off = Frac::zero();
        let mut i: usize = 0;
        while i < n
            invariant
                n == weights@.len(),
                vs == frac_views(weights@),
                vs.len() == n,
                weights_wf(weights@),
                self.wf(),
                one == (Frac { num: 1i128, den: 1i128 }),
                i <= n,
                off.wf(),
                off@ == rat_sum_prefix(vs, i as int),
                total.wf(),
                total@ == rat_sum_prefix(vs, vs.len() as int),
                total@.n != 0,
                sum_fits(vs),
                out@.len() == i,
                forall|j: int| 0 <= j < i ==> (#[trigger] out@[j]).wf()
                    && same_frame(*self, out@[j])
                    && ctx_s(out@[j]) == split_chunk_s(ctx_s(*self), vs, j, vertical),
                forall|j: int| 0 <= j < i ==> split_chunk_ok(ctx_s(*self), vs, j, vertical),
            decreases n - i,
        {
            let w = weights[i];
            proof {
                assert(vs[i as int] == w@);
            }
            let s = match w.div(total) {
                Some(f) => f,
                None => {
                    proof {
                        assert(!split_chunk_ok(ctx_s(*self), vs, i as int, vertical));
                        assert(!split_ok(ctx_s(*self), vs, vertical));
                    }
                    return None;
                },
            };
            let hd = 2 * w.den;
            if hd > WORKING_RANGE {
                proof {
                    assert(!split_chunk_ok(ctx_s(*self), vs, i as int, vertical));
                    assert(!split_ok(ctx_s(*self), vs, vertical));
                }
                return None;
            }
            let half = Frac { num: w.num, den: hd };
            proof {
                assert(half@ == rat_half(w@));
            }
            let t = match off.add(half) {
                Some(f) => f,
                None => {
                    proof {
                        assert(!split_chunk_ok(ctx_s(*self), vs, i as int, vertical));
                        assert(!split_ok(ctx_s(*self), vs, vertical));
                    }
                    return None;
                },
            };
            let pos = match t.div(total) {
                Some(f) => f,
                None => {
                    proof {
                        assert(!split_chunk_ok(ctx_s(*self), vs, i as int, vertical));
                        assert(!split_ok(ctx_s(*self), vs, vertical));
                    }
                    return None;
                },
            };
            let tn = 2 * pos.num;
            if !(-WORKING_RANGE <= tn && tn <= WORKING_RANGE) {
                proof {
                    assert(!split_chunk_ok(ctx_s(*self), vs, i as int, vertical));
                    assert(!split_ok(ctx_s(*self), vs, vertical));
                }
                return None;
            }
            let tw = Frac { num: tn, den: pos.den };
            proof {
                assert(tw@ == rat_twice(pos@));
            }
            let coord = if vertical {
                match one.sub(tw) {
                    Some(f) => f,
                    None => {
                        proof {
                            assert(!split_chunk_ok(ctx_s(*self), vs, i as int, vertical));
                            assert(!split_ok(ctx_s(*self), vs, vertical));
                        }
                        return None;
                    },
                }
            } else {
                match tw.sub(one) {
                    Some(f) => f,
                    None => {
                        proof {
                            assert(!split_chunk_ok(ctx_s(*self), vs, i as int, vertical));
                            assert(!split_ok(ctx_s(*self), vs, vertical));
                        }
                        return None;
                    },
                }
            };
            proof {
                lemma_mul_bound(s.den as int, coord.den as int, WORKING_RANGE as int);
                lemma_mul_bound(s.num as int, coord.den as int, WORKING_RANGE as int);
                lemma_mul_bound(coord.num as int, s.den as int, WORKING_RANGE as int);
                lemma_mul_pos(s.den as int, coord.den as int);
            }
            let dd = s.den * coord.den;
            let e1 = s.num * coord.den;
            let e2 = coord.num * s.den;
            if !(dd <= WORKING_RANGE
                && -WORKING_RANGE <= e1 && e1 <= WORKING_RANGE
                && -WORKING_RANGE <= e2 && e2 <= WORKING_RANGE) {
                proof {
                    assert(!split_chunk_ok(ctx_s(*self), vs, i as int, vertical));
                    assert(!split_ok(ctx_s(*self), vs, vertical));
                }
                return None;
            }
            let cell = if vertical {
                Matrix {
                    m00: dd, m01: 0, m02: 0,
                    m10: 0, m11: e1, m12: e2,
                    m20: 0, m21: 0, m22: dd,
                    den: dd,
                }
            } else {
                Matrix {
                    m00: e1, m01: 0, m02: e2,
                    m10: 0, m11: dd, m12: 0,
                    m20: 0, m21: 0, m22: dd,
                    den: dd,
                }
            };
            let nm = match self.matrix.multiply(&cell) {
                Some(m) => m,
                None => {
                    proof {
                        assert(!split_chunk_ok(ctx_s(*self), vs, i as int, vertical));
                        assert(!split_ok(ctx_s(*self), vs, vertical));
                    }
                    return None;
                },
            };
            let chunk = if vertical {
                let nh = match self.height.mul(s) {
                    Some(h) => h,
                    None => {
                        proof {
                            assert(!split_chunk_ok(ctx_s(*self), vs, i as int, vertical));
                            assert(!split_ok(ctx_s(*self), vs, vertical));
                        }
                        return None;
                    },
                };
                DrawContext { matrix: nm, height: nh, ..*self }
            } else {
                let nw = match self.width.mul(s) {
                    Some(w) => w,
                    None => {
                        proof {
                            assert(!split_chunk_ok(ctx_s(*self), vs, i as int, vertical));
                            assert(!split_ok(ctx_s(*self), vs, vertical));
                        }
                        return None;
                    },
                };
                DrawContext { matrix: nm, width: nw, ..*self }
            };
            out.push(chunk);
            proof {
                assert(rat_fits(rat_sum_prefix(vs, i + 1)));
            }
            off = off.add(w).unwrap();
            i += 1;
        }
        Some(out)
    }

    /// Splits the viewport into weighted vertical chunks, stacked top to
    /// bottom; chunk `i` receives `weight_i / total` of the height.
    pub fn vertical_split_weights(&self, weights: &Vec<Frac>) -> (r: Option<Vec<DrawContext>>)
        requires
            self.wf(),
            weights@.len() >= 1,
            weights_wf(weights@),
        ensures
            r matches Some(v) ==> {
                &&& v@.len() == weights@.len()
                &&& forall|i: int| 0 <= i < v@.len() ==> (#[trigger] v@[i]).wf()
                    && same_frame(*self, v@[i])
                    && ctx_s(v@[i]) == split_chunk_s(ctx_s(*self), frac_views(weights@), i, true)
            },
            (r is Some) <==> split_ok(ctx_s(*self), frac_views(weights@), true),
    {
        self.split_weights(weights, true)
    }

    /// Splits the viewport into weighted horizontal chunks, laid out left
    /// to right; chunk `i` receives `weight_i / total` of the width.
    pub fn horizontal_split_weights(&self, weights: &Vec<Frac>) -> (r: Option<Vec<DrawContext>>)
        requires
            self.wf(),
            weights@.len() >= 1,
            weights_wf(weights@),
        ensures
            r matches Some(v) ==> {
                &&& v@.len() == weights@.len()
                &&& forall|i: int| 0 <= i < v@.len() ==> (#[trigger] v@[i]).wf()
                    && same_frame(*self, v@[i])
                    && ctx_s(v@[i]) == split_chunk_s(ctx_s(*self), frac_views(weights@), i, false)
            },
            (r is Some) <==> split_ok(ctx_s(*self), frac_views(weights@), false),
    {
        self.split_weights(weights, false)
    }

    /// Splits the viewport into `splits` vertical chunks of equal size.
    pub fn vertical_split(&self, splits: usize) -> (r: Option<Vec<DrawContext>>)
        requires
            self.wf(),
            splits >= 1,
        ensures
            r matches Some(v) ==> {
                &&& v@.len() == splits
                &&& forall|i: int| 0 <= i < v@.len() ==> (#[trigger] v@[i]).wf()
                    && same_frame(*self, v@[i])
                    && ctx_s(v@[i]) == split_chunk_s(ctx_s(*self),
                        Seq::new(splits as nat, |j: int| int_rat(1)), i, true)
            },
            (r is Some) <==> split_ok(ctx_s(*self), Seq::new(splits as nat, |j: int| int_rat(1)),
                true),
    {
        let ws = ones(splits);
        self.split_weights(&ws, true)
    }

    /// Splits the viewport into `splits` horizontal chunks of equal size.
    pub fn horizontal_split(&self, splits: usize) -> (r: Option<Vec<DrawContext>>)
        requires
            self.wf(),
            splits >= 1,
        ensures
            r matches Some(v) ==> {
                &&& v@.len() == splits
                &&& forall|i: int| 0 <= i < v@.len() ==> (#[trigger] v@[i]).wf()
                    && same_frame(*self, v@[i])
                    && ctx_s(v@[i]) == split_chunk_s(ctx_s(*self),
                        Seq::new(splits as nat, |j: int| int_rat(1)), i, false)
            },
            (r is Some) <==> split_ok(ctx_s(*self), Seq::new(splits as nat, |j: int| int_rat(1)),
                false),
    {
        let ws = ones(splits);
        self.split_weights(&ws, false)
    }
}

/// A vector of `n` unit weights.
fn ones(n: usize) -> (r: Vec<Frac>)
    ensures
        r@.len() == n,
        frac_views(r@) == Seq::new(n as nat, |j: int| int_rat(1)),
        weights_wf(r@),
{
    let mut ws: Vec<Frac> = Vec::new();
    let mut i: usize = 0;
    while i < n
        invariant
            i <= n,
            ws@.len() == i,
            forall|j: int| 0 <= j < i ==> ws@[j] == (Frac { num: 1i128, den: 1i128 }),
        decreases n - i,
    {
        ws.push(Frac { num: 1, den: 1 });
        i += 1;
    }
    proof {
        assert(frac_views(ws@) =~= Seq::new(n as nat, |j: int| int_rat(1)));
    }
    ws
}


/// A progress value snapped to the fixed progress grid: the largest grid
/// fraction not above it.
pub open spec fn quantize_s(p: Rat) -> Rat {
    Rat { n: (p.n * 65536) / p.d, d: 65536 }
}

/// Snaps a progress value in `[0, 1]` to the progress grid.
fn quantize(p: Frac) -> (r: Frac)
    requires
        p.wf(),
        crate::num::rat_le(int_rat(0), p@),
        crate::num::rat_le(p@, int_rat(1)),
    ensures
        r.wf(),
        r@ == quantize_s(p@),
        r@.d == PROGRESS_GRID as int,
        crate::num::rat_le(int_rat(0), r@),
        crate::num::rat_le(r@, int_rat(1)),
{
    proof {
        lemma_mul_bound2(p.num as int, 65536, WORKING_RANGE as int, 65536);
        lemma_div_pos_is_pos(p.num as int * 65536, p.den as int);
        lemma_div_is_ordered(p.num as int * 65536, p.den as int * 65536, p.den as int);
        lemma_div_multiples_vanish(65536, p.den as int);
    }
    let q = (p.num * 65536) / p.den;
    Frac { num: q, den: PROGRESS_GRID }
}

/// The contract of one animation step at a known instant `now`: on
/// success the node's transform is composed with the animation transform
/// sampled at the quantized progress, the size is unchanged; the step
/// fails exactly when the composed transform leaves the working range.
pub open spec fn animate_post<A: Animation, I: Interpolation>(
    c: DrawContext,
    animation: A,
    interpolation: I,
    now: u64,
    start_time: u64,
    duration_ns: u64,
    r: Option<DrawContext>,
) -> bool {
    let target = mat_mul_s(c.matrix@,
        animation.model(quantize_s(interpolation.model(now, start_time, duration_ns))));
    &&& (r matches Some(d) ==> d.wf() && same_frame(c, d) && d.matrix@ == target
        && d.width == c.width && d.height == c.height)
    &&& ((r is Some) <==> mat_fits(target))
}

impl DrawContext {
    /// One animation step at the given instant: samples the interpolation,
    /// snaps the progress to the grid, samples the animation and composes
    /// the node's transform with the result.
    pub fn animate_at<A: Animation, I: Interpolation>(&self, animation: &A, interpolation: &I,
        now: u64, start_time: u64, duration_ns: u64) -> (r: Option<DrawContext>)
        requires
            self.wf(),
            animation.wf(),
            interpolation.wf(),
            0 < duration_ns,
            duration_ns as int <= 0x1000_0000_0000_0000,
        ensures
            animate_post(*self, *animation, *interpolation, now, start_time, duration_ns, r),
    {
        let p = interpolation.calculate(now, start_time, duration_ns);
        let q = quantize(p);
        let am = animation.animate(q);
        match self.matrix.multiply(&am) {
            Some(m) => Some(DrawContext { matrix: m, ..*self }),
            None => None,
        }
    }

    /// Animates the node against the current clock: as `animate_at`, with
    /// `now` read from the system's nanosecond timer, so the contract holds
    /// for some instant.
    pub fn animate<A: Animation, I: Interpolation>(&self, animation: &A, interpolation: &I,
        start_time: u64, duration_ns: u64) -> (r: Option<DrawContext>)
        requires
            self.wf(),
            animation.wf(),
            interpolation.wf(),
            0 < duration_ns,
            duration_ns as int <= 0x1000_0000_0000_0000,
        ensures
            exists|now: u64|
                animate_post(*self, *animation, *interpolation, now, start_time, duration_ns, r),
    {
        let now = now_ns();
        let r = self.animate_at(animation, interpolation, now, start_time, duration_ns);
        proof {
            assert(animate_post(*self, *animation, *interpolation, now, start_time, duration_ns,
                r));
        }
        r
    }
}

/// Relies on time::precise_time_ns: the current instant of a monotonic
/// clock, in nanoseconds. Nothing is assumed of the value.
#[verifier::external_body]
fn now_ns() -> u64 {
    time::precise_time_ns()
}

/// Magnitude bound under which the hit test is computed exactly.
pub const HOVER_RANGE: i128 = 0x100000;

/// Whether a component is small enough for the exact hit test.
pub open spec fn hover_in_range(x: int) -> bool {
    -(HOVER_RANGE as int) <= x <= HOVER_RANGE as int
}

/// Whether the transform and the cursor are small enough for the exact
/// hit test.
pub open spec fn hover_small(m: Mat, p: CursorPos) -> bool {
    &&& hover_in_range(m.m00) && hover_in_range(m.m01) && hover_in_range(m.m02)
    &&& hover_in_range(m.m10) && hover_in_range(m.m11) && hover_in_range(m.m12)
    &&& hover_in_range(m.m20) && hover_in_range(m.m21) && hover_in_range(m.m22)
    &&& hover_in_range(m.den)
    &&& hover_in_range(p.x@.n) && hover_in_range(p.x@.d)
    &&& hover_in_range(p.y@.n) && hover_in_range(p.y@.d)
}

/// First homogeneous component of a transformed corner `(cx, cy, 1)`.
pub open spec fn corner_xs(m: Mat, cx: int, cy: int) -> int {
    m.m00 * cx + m.m01 * cy + m.m02
}

/// Second homogeneous component of a transformed corner.
pub open spec fn corner_ys(m: Mat, cx: int, cy: int) -> int {
    m.m10 * cx + m.m11 * cy + m.m12
}

/// Third homogeneous component of a transformed corner.
pub open spec fn corner_ws(m: Mat, cx: int, cy: int) -> int {
    m.m20 * cx + m.m21 * cy + m.m22
}

/// Whether the cursor lies strictly on the outer side of the oriented edge
/// from corner `a` to corner `b` (each a projected homogeneous triple):
/// the dot product of `cursor - a` with `b - a` is negative. The sign is
/// decided exactly, by clearing all denominators.
pub open spec fn edge_out_s(xa: int, ya: int, wa: int, xb: int, yb: int, wb: int, p: CursorPos)
    -> bool {
    let u1 = p.x@.n * wa - xa * p.x@.d;
    let v1 = xb * wa - xa * wb;
    let u2 = p.y@.n * wa - ya * p.y@.d;
    let v2 = yb * wa - ya * wb;
    let num = u1 * v1 * p.y@.d + u2 * v2 * p.x@.d;
    if wb > 0 {
        num < 0
    } else {
        num > 0
    }
}

/// Whether the cursor lies inside the quadrilateral formed by the four
/// transformed corners of the unit square, walked top-left, top-right,
/// bottom-right, bottom-left. Corners whose homogeneous weight is zero
/// cannot be projected; such a shape is treated as missed.
pub open spec fn is_hovering_s(m: Mat, p: CursorPos) -> bool {
    let tlw = corner_ws(m, -1, 1);
    let trw = corner_ws(m, 1, 1);
    let brw = corner_ws(m, 1, -1);
    let blw = corner_ws(m, -1, -1);
    &&& tlw != 0 && trw != 0 && brw != 0 && blw != 0
    &&& !edge_out_s(corner_xs(m, -1, 1), corner_ys(m, -1, 1), tlw,
        corner_xs(m, 1, 1), corner_ys(m, 1, 1), trw, p)
    &&& !edge_out_s(corner_xs(m, 1, 1), corner_ys(m, 1, 1), trw,
        corner_xs(m, 1, -1), corner_ys(m, 1, -1), brw, p)
    &&& !edge_out_s(corner_xs(m, 1, -1), corner_ys(m, 1, -1), brw,
        corner_xs(m, -1, -1), corner_ys(m, -1, -1), blw, p)
    &&& !edge_out_s(corner_xs(m, -1, -1), corner_ys(m, -1, -1), blw,
        corner_xs(m, -1, 1), corner_ys(m, -1, 1), tlw, p)
}

/// Whether a machine value lies within the hit-test range.
fn hover_chk(x: i128) -> (r: bool)
    ensures
        r == hover_in_range(x as int),
{
    -HOVER_RANGE <= x && x <= HOVER_RANGE
}

/// Decides one oriented edge of the hit test exactly.
fn edge_out(xa: i128, ya: i128, wa: i128, xb: i128, yb: i128, wb: i128, p: &CursorPos)
    -> (r: bool)
    requires
        -0x400000 <= xa <= 0x400000,
        -0x400000 <= ya <= 0x400000,
        -0x400000 <= wa <= 0x400000,
        -0x400000 <= xb <= 0x400000,
        -0x400000 <= yb <= 0x400000,
        -0x400000 <= wb <= 0x400000,
        hover_in_range(p.x@.n) && hover_in_range(p.x@.d),
        hover_in_range(p.y@.n) && hover_in_range(p.y@.d),
    ensures
        r == edge_out_s(xa as int, ya as int, wa as int, xb as int, yb as int, wb as int, *p),
{
    proof {
        lemma_mul_bound2(p.x.num as int, wa as int, HOVER_RANGE as int, 0x400000);
        lemma_mul_bound2(xa as int, p.x.den as int, 0x400000, HOVER_RANGE as int);
        lemma_mul_bound2(xb as int, wa as int, 0x400000, 0x400000);
        lemma_mul_bound2(xa as int, wb as int, 0x400000, 0x400000);
        lemma_mul_bound2(p.y.num as int, wa as int, HOVER_RANGE as int, 0x400000);
        lemma_mul_bound2(ya as int, p.y.den as int, 0x400000, HOVER_RANGE as int);
        lemma_mul_bound2(yb as int, wa as int, 0x400000, 0x400000);
        lemma_mul_bound2(ya as int, wb as int, 0x400000, 0x400000);
    }
    let u1 = p.x.num * wa - xa * p.x.den;
    let v1 = xb * wa - xa * wb;
    let u2 = p.y.num * wa - ya * p.y.den;
    let v2 = yb * wa - ya * wb;
    proof {
        lemma_mul_bound2(u1 as int, v1 as int, 0x100000000000, 0x200000000000);
        lemma_mul_bound2(u2 as int, v2 as int, 0x100000000000, 0x200000000000);
        lemma_mul_bound2(u1 as int * v1 as int, p.y.den as int,
            0x20000000000000000000000, HOVER_RANGE as int);
        lemma_mul_bound2(u2 as int * v2 as int, p.x.den as int,
            0x20000000000000000000000, HOVER_RANGE as int);
    }
    let num = u1 * v1 * p.y.den + u2 * v2 * p.x.den;
    if wb > 0 {
        num < 0
    } else {
        num > 0
    }
}

impl DrawContext {
    /// True if the cursor is currently hovering this node: its position
    /// lies inside the node's transformed rectangle. Exact whenever the
    /// transform and the cursor lie within the hit-test range; shapes
    /// beyond that range are reported as not hovered.
    pub fn is_cursor_hovering(&self) -> (r: bool)
        requires
            self.wf(),
        ensures
            r == (match self.cursor {
                Some(p) => hover_small(self.matrix@, p) && is_hovering_s(self.matrix@, p),
                None => false,
            }),
    {
        let p = match self.cursor {
            Some(p) => p,
            None => {
                return false;
            },
        };
        let m = &self.matrix;
        if !(hover_chk(m.m00) && hover_chk(m.m01) && hover_chk(m.m02)
            && hover_chk(m.m10) && hover_chk(m.m11) && hover_chk(m.m12)
            && hover_chk(m.m20) && hover_chk(m.m21) && hover_chk(m.m22)
            && hover_chk(m.den)
            && hover_chk(p.x.num) && hover_chk(p.x.den)
            && hover_chk(p.y.num) && hover_chk(p.y.den)) {
            return false;
        }
        let tlx = -m.m00 + m.m01 + m.m02;
        let tly = -m.m10 + m.m11 + m.m12;
        let tlw = -m.m20 + m.m21 + m.m22;
        let trx = m.m00 + m.m01 + m.m02;
        let try_ = m.m10 + m.m11 + m.m12;
        let trw = m.m20 + m.m21 + m.m22;
        let brx = m.m00 - m.m01 + m.m02;
        let bry = m.m10 - m.m11 + m.m12;
        let brw = m.m20 - m.m21 + m.m22;
        let blx = -m.m00 - m.m01 + m.m02;
        let bly = -m.m10 - m.m11 + m.m12;
        let blw = -m.m20 - m.m21 + m.m22;
        if tlw == 0 || trw == 0 || brw == 0 || blw == 0 {
            return false;
        }
        !edge_out(tlx, tly, tlw, trx, try_, trw, &p)
            && !edge_out(trx, try_, trw, brx, bry, brw, &p)
            && !edge_out(brx, bry, brw, blx, bly, blw, &p)
            && !edge_out(blx, bly, blw, tlx, tly, tlw, &p)
    }
}

/// First numerator of the cursor mapped through the inverse transform,
/// over the common denominator of the cursor coordinates.
pub open spec fn map_xs(inv: Mat, p: CursorPos) -> int {
    inv.m00 * p.x@.n * p.y@.d + inv.m01 * p.y@.n * p.x@.d + inv.m02 * (p.x@.d * p.y@.d)
}

/// Second numerator of the mapped cursor.
pub open spec fn map_ys(inv: Mat, p: CursorPos) -> int {
    inv.m10 * p.x@.n * p.y@.d + inv.m11 * p.y@.n * p.x@.d + inv.m12 * (p.x@.d * p.y@.d)
}

/// Homogeneous weight of the mapped cursor.
pub open spec fn map_ws(inv: Mat, p: CursorPos) -> int {
    inv.m20 * p.x@.n * p.y@.d + inv.m21 * p.y@.n * p.x@.d + inv.m22 * (p.x@.d * p.y@.d)
}

/// The local x coordinate of the cursor, with the sign of the weight
/// moved into the numerator so the denominator is positive.
pub open spec fn coord_x_s(inv: Mat, p: CursorPos) -> Rat {
    if map_ws(inv, p) > 0 {
        Rat { n: map_xs(inv, p), d: map_ws(inv, p) }
    } else {
        Rat { n: -map_xs(inv, p), d: -map_ws(inv, p) }
    }
}

/// The local y coordinate of the cursor.
pub open spec fn coord_y_s(inv: Mat, p: CursorPos) -> Rat {
    if map_ws(inv, p) > 0 {
        Rat { n: map_ys(inv, p), d: map_ws(inv, p) }
    } else {
        Rat { n: -map_ys(inv, p), d: -map_ws(inv, p) }
    }
}

/// Whether hover coordinates exist: a cursor, an invertible and
/// representable transform, a small cursor, a non-zero mapped weight, a
/// mapped point within the unit square, and a representable result.
pub open spec fn coords_ok(c: DrawContext) -> bool {
    match c.cursor {
        None => false,
        Some(p) => {
            &&& crate::matrix::mat_invert_ok(c.matrix@)
            &&& hover_in_range(p.x@.n) && hover_in_range(p.x@.d)
            &&& hover_in_range(p.y@.n) && hover_in_range(p.y@.d)
            &&& map_ws(crate::matrix::mat_invert_s(c.matrix@), p) != 0
            &&& ({
                let cx = coord_x_s(crate::matrix::mat_invert_s(c.matrix@), p);
                let cy = coord_y_s(crate::matrix::mat_invert_s(c.matrix@), p);
                &&& -cx.d <= cx.n <= cx.d
                &&& -cy.d <= cy.n <= cy.d
                &&& in_range(cx.n) && in_range(cy.n) && in_range(cx.d)
            })
        },
    }
}

impl DrawContext {
    /// If the cursor is within the node, returns its position in the
    /// node's own space, where both axes run from -1 to 1. Returns `None`
    /// when there is no cursor, the transform is singular or not
    /// representable, or the mapped position falls outside the node.
    pub fn cursor_hover_coordinates(&self) -> (r: Option<CursorPos>)
        requires
            self.wf(),
        ensures
            r matches Some(q) ==> {
                &&& self.cursor matches Some(p) ==> q.x.wf() && q.y.wf()
                    && q.x@ == coord_x_s(crate::matrix::mat_invert_s(self.matrix@), p)
                    && q.y@ == coord_y_s(crate::matrix::mat_invert_s(self.matrix@), p)
            },
            (r is Some) <==> coords_ok(*self),
    {
        let p = match self.cursor {
            Some(p) => p,
            None => {
                return None;
            },
        };
        let inv = match self.matrix.invert() {
            Some(i) => i,
            None => {
                return None;
            },
        };
        if !(hover_chk(p.x.num) && hover_chk(p.x.den) && hover_chk(p.y.num)
            && hover_chk(p.y.den)) {
            return None;
        }
        proof {
            lemma_map_bounds(inv@, p);
        }
        let pd = p.x.den * p.y.den;
        let ox = inv.m00 * p.x.num * p.y.den + inv.m01 * p.y.num * p.x.den + inv.m02 * pd;
        let oy = inv.m10 * p.x.num * p.y.den + inv.m11 * p.y.num * p.x.den + inv.m12 * pd;
        let ow = inv.m20 * p.x.num * p.y.den + inv.m21 * p.y.num * p.x.den + inv.m22 * pd;
        if ow == 0 {
            return None;
        }
        let (oxn, oyn, own) = if ow > 0 {
            (ox, oy, ow)
        } else {
            (-ox, -oy, -ow)
        };
        if !(-own <= oxn && oxn <= own && -own <= oyn && oyn <= own) {
            return None;
        }
        if !(-WORKING_RANGE <= oxn && oxn <= WORKING_RANGE
            && -WORKING_RANGE <= oyn && oyn <= WORKING_RANGE
            && own <= WORKING_RANGE) {
            return None;
        }
        Some(CursorPos { x: Frac { num: oxn, den: own }, y: Frac { num: oyn, den: own } })
    }
}

/// Bounds for the products that map a small cursor through a well-formed
/// inverse transform.
proof fn lemma_map_bounds(inv: Mat, p: CursorPos)
    requires
        crate::matrix::mat_fits(inv),
        hover_in_range(p.x@.n) && hover_in_range(p.x@.d),
        hover_in_range(p.y@.n) && hover_in_range(p.y@.d),
    ensures
        in_range(p.x@.d * p.y@.d),
        -(0x100000000000000000000) <= inv.m00 * p.x@.n <= 0x100000000000000000000,
        -(0x100000000000000000000) <= inv.m01 * p.y@.n <= 0x100000000000000000000,
        -(0x100000000000000000000) <= inv.m10 * p.x@.n <= 0x100000000000000000000,
        -(0x100000000000000000000) <= inv.m11 * p.y@.n <= 0x100000000000000000000,
        -(0x100000000000000000000) <= inv.m20 * p.x@.n <= 0x100000000000000000000,
        -(0x100000000000000000000) <= inv.m21 * p.y@.n <= 0x100000000000000000000,
        -(0x100000000000000000000000000) <= inv.m00 * p.x@.n * p.y@.d
            <= 0x100000000000000000000000000,
        -(0x100000000000000000000000000) <= inv.m01 * p.y@.n * p.x@.d
            <= 0x100000000000000000000000000,
        -(0x100000000000000000000000000) <= inv.m02 * (p.x@.d * p.y@.d)
            <= 0x100000000000000000000000000,
        -(0x100000000000000000000000000) <= inv.m10 * p.x@.n * p.y@.d
            <= 0x100000000000000000000000000,
        -(0x100000000000000000000000000) <= inv.m11 * p.y@.n * p.x@.d
            <= 0x100000000000000000000000000,
        -(0x100000000000000000000000000) <= inv.m12 * (p.x@.d * p.y@.d)
            <= 0x100000000000000000000000000,
        -(0x100000000000000000000000000) <= inv.m20 * p.x@.n * p.y@.d
            <= 0x100000000000000000000000000,
        -(0x100000000000000000000000000) <= inv.m21 * p.y@.n * p.x@.d
            <= 0x100000000000000000000000000,
        -(0x100000000000000000000000000) <= inv.m22 * (p.x@.d * p.y@.d)
            <= 0x100000000000000000000000000,
{
    lemma_mul_bound2(p.x@.d, p.y@.d, HOVER_RANGE as int, HOVER_RANGE as int);
    lemma_mul_bound2(inv.m00, p.x@.n, WORKING_RANGE as int, HOVER_RANGE as int);
    lemma_mul_bound2(inv.m00 * p.x@.n, p.y@.d, 0x100000000000000000000, HOVER_RANGE as int);
    lemma_mul_bound2(inv.m01, p.y@.n, WORKING_RANGE as int, HOVER_RANGE as int);
    lemma_mul_bound2(inv.m01 * p.y@.n, p.x@.d, 0x100000000000000000000, HOVER_RANGE as int);
    lemma_mul_bound2(inv.m02, p.x@.d * p.y@.d, WORKING_RANGE as int, 0x10000000000);
    lemma_mul_bound2(inv.m10, p.x@.n, WORKING_RANGE as int, HOVER_RANGE as int);
    lemma_mul_bound2(inv.m10 * p.x@.n, p.y@.d, 0x100000000000000000000, HOVER_RANGE as int);
    lemma_mul_bound2(inv.m11, p.y@.n, WORKING_RANGE as int, HOVER_RANGE as int);
    lemma_mul_bound2(inv.m11 * p.y@.n, p.x@.d, 0x100000000000000000000, HOVER_RANGE as int);
    lemma_mul_bound2(inv.m12, p.x@.d * p.y@.d, WORKING_RANGE as int, 0x10000000000);
    lemma_mul_bound2(inv.m20, p.x@.n, WORKING_RANGE as int, HOVER_RANGE as int);
    lemma_mul_bound2(inv.m20 * p.x@.n, p.y@.d, 0x100000000000000000000, HOVER_RANGE as int);
    lemma_mul_bound2(inv.m21, p.y@.n, WORKING_RANGE as int, HOVER_RANGE as int);
    lemma_mul_bound2(inv.m21 * p.y@.n, p.x@.d, 0x100000000000000000000, HOVER_RANGE as int);
    lemma_mul_bound2(inv.m22, p.x@.d * p.y@.d, WORKING_RANGE as int, 0x10000000000);
}


/// Rescaling by one on both axes leaves the transform and the size
/// unchanged, whatever the alignment.
pub proof fn lemma_rescale_unit(c: CtxS, al: Alignment)
    ensures
        rescale_s(c, int_rat(1), int_rat(1), al) == c,
{
    assert(halign_num(int_rat(1), al.horizontal) == 0);
    assert(valign_num(int_rat(1), al.vertical) == 0);
    assert(align_mat_s(int_rat(1), int_rat(1), Alignment { horizontal: al.horizontal,
        vertical: al.vertical }) == crate::matrix::mat_identity()) by (nonlinear_arith)
        requires
            halign_num(int_rat(1), al.horizontal) == 0,
            valign_num(int_rat(1), al.vertical) == 0,
    ;
    assert(al == (Alignment { horizontal: al.horizontal, vertical: al.vertical }));
    assert(mat_mul_s(c.m, crate::matrix::mat_identity()).m00 == c.m.m00
        && mat_mul_s(c.m, crate::matrix::mat_identity()).m01 == c.m.m01
        && mat_mul_s(c.m, crate::matrix::mat_identity()).m02 == c.m.m02
        && mat_mul_s(c.m, crate::matrix::mat_identity()).m10 == c.m.m10
        && mat_mul_s(c.m, crate::matrix::mat_identity()).m11 == c.m.m11
        && mat_mul_s(c.m, crate::matrix::mat_identity()).m12 == c.m.m12
        && mat_mul_s(c.m, crate::matrix::mat_identity()).m20 == c.m.m20
        && mat_mul_s(c.m, crate::matrix::mat_identity()).m21 == c.m.m21
        && mat_mul_s(c.m, crate::matrix::mat_identity()).m22 == c.m.m22
        && mat_mul_s(c.m, crate::matrix::mat_identity()).den == c.m.den) by (nonlinear_arith);
    assert(mat_mul_s(c.m, crate::matrix::mat_identity()) == c.m);
    assert(rat_mul(c.w, int_rat(1)).n == c.w.n && rat_mul(c.w, int_rat(1)).d == c.w.d)
        by (nonlinear_arith);
    assert(rat_mul(c.h, int_rat(1)).n == c.h.n && rat_mul(c.h, int_rat(1)).d == c.h.d)
        by (nonlinear_arith);
    assert(rat_mul(c.w, int_rat(1)) == c.w);
    assert(rat_mul(c.h, int_rat(1)) == c.h);
}

/// Splitting vertically with two equal weights gives two chunks of half
/// the height, the first centered at one half above the middle and the
/// second at one half below (in normalized coordinates, before the size
/// scaling).
pub proof fn lemma_split_halves(c: CtxS)
    ensures
        crate::num::rat_eq(split_chunk_s(c, seq![int_rat(1), int_rat(1)], 0, true).h,
            rat_half(c.h)),
        crate::num::rat_eq(split_chunk_s(c, seq![int_rat(1), int_rat(1)], 1, true).h,
            rat_half(c.h)),
        crate::num::rat_eq(split_coord(seq![int_rat(1), int_rat(1)], 0, true),
            Rat { n: 1, d: 2 }),
        crate::num::rat_eq(split_coord(seq![int_rat(1), int_rat(1)], 1, true),
            Rat { n: -1, d: 2 }),
{
    let ws = seq![int_rat(1), int_rat(1)];
    assert(ws[0] == int_rat(1) && ws[1] == int_rat(1));
    assert(rat_sum_prefix(ws, 0) == int_rat(0));
    assert(rat_sum_prefix(ws, 1) == crate::num::rat_add(int_rat(0), int_rat(1)));
    assert(rat_sum_prefix(ws, 2) == crate::num::rat_add(rat_sum_prefix(ws, 1), int_rat(1)));
    assert(rat_sum_prefix(ws, 2) == (Rat { n: 2, d: 1 })) by (nonlinear_arith)
        requires
            rat_sum_prefix(ws, 2) == crate::num::rat_add(crate::num::rat_add(int_rat(0),
                int_rat(1)), int_rat(1)),
    ;
    let s = rat_div(int_rat(1), Rat { n: 2, d: 1 });
    assert(rat_div(int_rat(1), Rat { n: 2, d: 1 }).n == 1
        && rat_div(int_rat(1), Rat { n: 2, d: 1 }).d == 2) by (nonlinear_arith);
    assert(split_chunk_s(c, ws, 0, true).h == rat_mul(c.h, s));
    assert(split_chunk_s(c, ws, 1, true).h == rat_mul(c.h, s));
    assert(crate::num::rat_eq(rat_mul(c.h, s), rat_half(c.h))) by (nonlinear_arith)
        requires
            s.n == 1,
            s.d == 2,
    ;
}


/// Enforcing an aspect ratio downward on a viewport with positive sizes
/// yields exactly the requested width-per-height, and neither dimension
/// grows.
pub proof fn lemma_downscale_exact(c: CtxS, t: Rat, al: Alignment)
    requires
        0 < c.w.n,
        0 < c.w.d,
        0 < c.h.n,
        0 < c.h.d,
        0 < t.n,
        0 < t.d,
    ensures
        crate::num::rat_eq(rat_div(enforce_down_s(c, t, al).w, enforce_down_s(c, t, al).h), t),
        crate::num::rat_le(enforce_down_s(c, t, al).w, c.w),
        crate::num::rat_le(enforce_down_s(c, t, al).h, c.h),
{
    let cur = rat_div(c.w, c.h);
    assert(cur.n == c.w.n * c.h.d && cur.d == c.w.d * c.h.n);
    assert(0 < cur.n && 0 < cur.d) by (nonlinear_arith)
        requires
            0 < c.w.n && 0 < c.w.d && 0 < c.h.n && 0 < c.h.d,
            cur.n == c.w.n * c.h.d && cur.d == c.w.d * c.h.n,
    ;
    if rat_lt(cur, t) {
        let s = rat_div(cur, t);
        assert(s.n == cur.n * t.d && s.d == cur.d * t.n);
        let res = vrescale_s(c, s, al.vertical);
        assert(res.w == c.w && res.h == rat_mul(c.h, s));
        assert(0 < s.n && 0 < s.d && s.n < s.d) by (nonlinear_arith)
            requires
                0 < cur.n && 0 < cur.d && 0 < t.n && 0 < t.d,
                cur.n * t.d < t.n * cur.d,
                s.n == cur.n * t.d && s.d == cur.d * t.n,
        ;
        assert(res.h.n == c.h.n * s.n && res.h.d == c.h.d * s.d);
        assert(0 < res.h.n) by (nonlinear_arith)
            requires
                0 < c.h.n && 0 < s.n,
                res.h.n == c.h.n * s.n,
        ;
        let q = rat_div(res.w, res.h);
        assert(q.n == c.w.n * (c.h.d * s.d) && q.d == c.w.d * (c.h.n * s.n));
        assert(q.n * t.d == t.n * q.d) by (nonlinear_arith)
            requires
                q.n == c.w.n * (c.h.d * s.d),
                q.d == c.w.d * (c.h.n * s.n),
                s.n == (c.w.n * c.h.d) * t.d,
                s.d == (c.w.d * c.h.n) * t.n,
        ;
        assert(crate::num::rat_le(rat_mul(c.h, s), c.h)) by (nonlinear_arith)
            requires
                0 < c.h.n && 0 < c.h.d && 0 < s.d,
                s.n < s.d,
                rat_mul(c.h, s).n == c.h.n * s.n && rat_mul(c.h, s).d == c.h.d * s.d,
        ;
        assert(crate::num::rat_le(res.w, c.w)) by (nonlinear_arith)
            requires
                res.w == c.w,
                0 < c.w.d,
        ;
    } else {
        let s = rat_div(t, cur);
        assert(s.n == t.n * cur.d && s.d == t.d * cur.n);
        let res = hrescale_s(c, s, al.horizontal);
        assert(res.h == c.h && res.w == rat_mul(c.w, s));
        assert(0 < s.n && 0 < s.d && s.n <= s.d) by (nonlinear_arith)
            requires
                0 < cur.n && 0 < cur.d && 0 < t.n && 0 < t.d,
                !(cur.n * t.d < t.n * cur.d),
                s.n == t.n * cur.d && s.d == t.d * cur.n,
        ;
        assert(res.w.n == c.w.n * s.n && res.w.d == c.w.d * s.d);
        assert(0 < res.w.n) by (nonlinear_arith)
            requires
                0 < c.w.n && 0 < s.n,
                res.w.n == c.w.n * s.n,
        ;
        let q = rat_div(res.w, res.h);
        assert(q.n == (c.w.n * s.n) * c.h.d && q.d == (c.w.d * s.d) * c.h.n);
        assert(q.n * t.d == t.n * q.d) by (nonlinear_arith)
            requires
                q.n == (c.w.n * s.n) * c.h.d,
                q.d == (c.w.d * s.d) * c.h.n,
                s.n == t.n * (c.w.d * c.h.n),
                s.d == t.d * (c.w.n * c.h.d),
        ;
        assert(crate::num::rat_le(rat_mul(c.w, s), c.w)) by (nonlinear_arith)
            requires
                0 < c.w.n && 0 < c.w.d && 0 < s.d,
                s.n <= s.d,
                rat_mul(c.w, s).n == c.w.n * s.n && rat_mul(c.w, s).d == c.w.d * s.d,
        ;
        assert(crate::num::rat_le(res.h, c.h)) by (nonlinear_arith)
            requires
                res.h == c.h,
                0 < c.h.d,
        ;
    }
}

} // verus!
