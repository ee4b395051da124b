//! Viewport/camera state: the world-space pan offset and zoom scale,
//! and the visible world rectangle they determine.

use vstd::prelude::*;
use crate::rat::{
    Rat, fits_i128, eq_frac, in_bound, lemma_mul_bound, lemma_mul_pos, POS_BOUND, RECT_BOUND,
    ZOOM_BOUND,
};

verus! {

/// A world-space vector: one exact rational per axis.
#[derive(Clone, Copy, PartialEq, Eq, Structural, Debug)]
pub struct WorldVec {
    pub x: Rat,
    pub y: Rat,
}

impl WorldVec {
    pub open spec fn wf(self) -> bool {
        self.x.wf() && self.y.wf()
    }
}

/// The camera: world-space pan offset, zoom scale (pixels per world
/// unit, always positive) and the viewport size in device pixels.
///
/// Created once at startup with a default scale and zero offset, and
/// mutated only by the pan controller.
#[derive(Clone, Copy, PartialEq, Eq, Structural, Debug)]
pub struct CameraState {
    pub position: WorldVec,
    pub zoom_scale: Rat,
    pub viewport_w_px: u32,
    pub viewport_h_px: u32,
}

/// The world-space axis-aligned rectangle currently shown in the
/// viewport. Both horizontal sides share one denominator, as do both
/// vertical sides.
#[derive(Clone, Copy, PartialEq, Eq, Structural, Debug)]
pub struct Rect {
    pub left: Rat,
    pub right: Rat,
    pub bottom: Rat,
    pub top: Rat,
}

impl Rect {
    pub open spec fn wf(self) -> bool {
        &&& self.left.wf()
        &&& self.right.wf()
        &&& self.bottom.wf()
        &&& self.top.wf()
        &&& self.left.den == self.right.den
        &&& self.bottom.den == self.top.den
    }
}

/// Shared denominator of the two rectangle sides along one axis, for a
/// camera coordinate `pos` and zoom scale `zoom`.
pub open spec fn axis_den(pos: Rat, zoom: Rat) -> int {
    pos.den * (2 * zoom.num)
}

/// Numerator of the lower rectangle side along one axis: the camera
/// coordinate minus half the viewport extent converted to world units.
pub open spec fn lo_num(pos: Rat, zoom: Rat, extent_px: int) -> int {
    pos.num * (2 * zoom.num) - extent_px * zoom.den * pos.den
}

/// Numerator of the upper rectangle side along one axis.
pub open spec fn hi_num(pos: Rat, zoom: Rat, extent_px: int) -> int {
    pos.num * (2 * zoom.num) + extent_px * zoom.den * pos.den
}

impl CameraState {
    /// Structural validity: positive denominators and a positive zoom
    /// scale.
    pub open spec fn wf(self) -> bool {
        &&& self.position.wf()
        &&& self.zoom_scale.wf()
        &&& self.zoom_scale.num > 0
    }

    /// The camera's fractions are within the bounds under which a whole
    /// frame of viewport arithmetic stays exact in 128 bits.
    pub open spec fn bounded(self) -> bool {
        &&& in_bound(self.position.x, POS_BOUND as int)
        &&& in_bound(self.position.y, POS_BOUND as int)
        &&& in_bound(self.zoom_scale, ZOOM_BOUND as int)
    }

    /// Creates a camera with the given viewport size, zero pan offset
    /// and unit zoom scale.
    pub fn with_viewport(viewport_w_px: u32, viewport_h_px: u32) -> (r: CameraState)
        ensures
            r.position.x == (Rat { num: 0, den: 1 }),
            r.position.y == (Rat { num: 0, den: 1 }),
            r.zoom_scale == (Rat { num: 1, den: 1 }),
            r.viewport_w_px == viewport_w_px,
            r.viewport_h_px == viewport_h_px,
            r.wf(),
            r.bounded(),
    {
        CameraState {
            position: WorldVec { x: Rat { num: 0, den: 1 }, y: Rat { num: 0, den: 1 } },
            zoom_scale: Rat { num: 1, den: 1 },
            viewport_w_px,
            viewport_h_px,
        }
    }

    /// The world rectangle shown this frame: centered on the camera
    /// position, `viewport / zoom` wide and high, so that its edges are
    /// exactly what `pixels_to_world` places at the viewport borders.
    pub fn visible_rect(&self) -> (r: Rect)
        requires
            self.wf(),
            self.bounded(),
        ensures
            r.wf(),
            r.left.num == lo_num(self.position.x, self.zoom_scale, self.viewport_w_px as int),
            r.right.num == hi_num(self.position.x, self.zoom_scale, self.viewport_w_px as int),
            r.left.den == axis_den(self.position.x, self.zoom_scale),
            r.right.den == axis_den(self.position.x, self.zoom_scale),
            r.bottom.num == lo_num(self.position.y, self.zoom_scale, self.viewport_h_px as int),
            r.top.num == hi_num(self.position.y, self.zoom_scale, self.viewport_h_px as int),
            r.bottom.den == axis_den(self.position.y, self.zoom_scale),
            r.top.den == axis_den(self.position.y, self.zoom_scale),
            in_bound(r.left, RECT_BOUND as int),
            in_bound(r.right, RECT_BOUND as int),
            in_bound(r.bottom, RECT_BOUND as int),
            in_bound(r.top, RECT_BOUND as int),
    {
        proof {
            lemma_mul_bound(
                self.position.x.num as int,
                2 * self.zoom_scale.num,
                POS_BOUND as int,
                2 * ZOOM_BOUND as int,
            );
            lemma_mul_bound(
                self.position.y.num as int,
                2 * self.zoom_scale.num,
                POS_BOUND as int,
                2 * ZOOM_BOUND as int,
            );
            lemma_mul_bound(
                self.position.x.den as int,
                2 * self.zoom_scale.num,
                POS_BOUND as int,
                2 * ZOOM_BOUND as int,
            );
            lemma_mul_bound(
                self.position.y.den as int,
                2 * self.zoom_scale.num,
                POS_BOUND as int,
                2 * ZOOM_BOUND as int,
            );
            lemma_mul_bound(
                self.viewport_w_px as int,
                self.zoom_scale.den as int,
                0x1_0000_0000,
                ZOOM_BOUND as int,
            );
            lemma_mul_bound(
                self.viewport_h_px as int,
                self.zoom_scale.den as int,
                0x1_0000_0000,
                ZOOM_BOUND as int,
            );
            lemma_mul_bound(
                (self.viewport_w_px as int) * (self.zoom_scale.den as int),
                self.position.x.den as int,
                0x1_0000_0000 * ZOOM_BOUND as int,
                POS_BOUND as int,
            );
            lemma_mul_bound(
                (self.viewport_h_px as int) * (self.zoom_scale.den as int),
                self.position.y.den as int,
                0x1_0000_0000 * ZOOM_BOUND as int,
                POS_BOUND as int,
            );
            lemma_mul_pos(self.position.x.den as int, 2 * self.zoom_scale.num);
            lemma_mul_pos(self.position.y.den as int, 2 * self.zoom_scale.num);
        }
        let zn2: i128 = 2 * self.zoom_scale.num;
        let cx: i128 = self.position.x.num * zn2;
        let dx: i128 = self.position.x.den * zn2;
        let off_x: i128 = (self.viewport_w_px as i128) * self.zoom_scale.den * self.position.x.den;
        let cy: i128 = self.position.y.num * zn2;
        let dy: i128 = self.position.y.den * zn2;
        let off_y: i128 = (self.viewport_h_px as i128) * self.zoom_scale.den * self.position.y.den;
        Rect {
            left: Rat { num: cx - off_x, den: dx },
            right: Rat { num: cx + off_x, den: dx },
            bottom: Rat { num: cy - off_y, den: dy },
            top: Rat { num: cy + off_y, den: dy },
        }
    }

    /// Adds a world-space delta to the pan offset. Panning is unbounded
    /// in both axes: there is no clamping.
    pub fn apply_pan(&mut self, delta: &WorldVec)
        requires
            old(self).wf(),
            delta.wf(),
            fits_i128(old(self).position.x.num * delta.x.den),
            fits_i128(delta.x.num * old(self).position.x.den),
            fits_i128(old(self).position.x.num * delta.x.den + delta.x.num * old(self).position.x.den),
            fits_i128(old(self).position.x.den * delta.x.den),
            fits_i128(old(self).position.y.num * delta.y.den),
            fits_i128(delta.y.num * old(self).position.y.den),
            fits_i128(old(self).position.y.num * delta.y.den + delta.y.num * old(self).position.y.den),
            fits_i128(old(self).position.y.den * delta.y.den),
        ensures
            final(self).position.x.num == old(self).position.x.num * delta.x.den
                + delta.x.num * old(self).position.x.den,
            final(self).position.x.den == old(self).position.x.den * delta.x.den,
            final(self).position.y.num == old(self).position.y.num * delta.y.den
                + delta.y.num * old(self).position.y.den,
            final(self).position.y.den == old(self).position.y.den * delta.y.den,
            final(self).zoom_scale == old(self).zoom_scale,
            final(self).viewport_w_px == old(self).viewport_w_px,
            final(self).viewport_h_px == old(self).viewport_h_px,
            final(self).wf(),
    {
        let px = self.position.x.plus(&delta.x);
        let py = self.position.y.plus(&delta.y);
        self.position = WorldVec { x: px, y: py };
    }
}

/// Law: the visible rectangle is exactly `viewport / zoom` wide and
/// high, and its midpoint along each axis is exactly the camera
/// position: `right - left == viewport_w / zoom`,
/// `(left + right) / 2 == position.x`, and the vertical analogues.
pub proof fn lemma_visible_rect_extent_centered(cam: CameraState)
    requires
        cam.wf(),
    ensures
        eq_frac(
            hi_num(cam.position.x, cam.zoom_scale, cam.viewport_w_px as int)
                - lo_num(cam.position.x, cam.zoom_scale, cam.viewport_w_px as int),
            axis_den(cam.position.x, cam.zoom_scale),
            (cam.viewport_w_px as int) * cam.zoom_scale.den,
            cam.zoom_scale.num as int,
        ),
        eq_frac(
            lo_num(cam.position.x, cam.zoom_scale, cam.viewport_w_px as int)
                + hi_num(cam.position.x, cam.zoom_scale, cam.viewport_w_px as int),
            2 * axis_den(cam.position.x, cam.zoom_scale),
            cam.position.x.num as int,
            cam.position.x.den as int,
        ),
        eq_frac(
            hi_num(cam.position.y, cam.zoom_scale, cam.viewport_h_px as int)
                - lo_num(cam.position.y, cam.zoom_scale, cam.viewport_h_px as int),
            axis_den(cam.position.y, cam.zoom_scale),
            (cam.viewport_h_px as int) * cam.zoom_scale.den,
            cam.zoom_scale.num as int,
        ),
        eq_frac(
            lo_num(cam.position.y, cam.zoom_scale, cam.viewport_h_px as int)
                + hi_num(cam.position.y, cam.zoom_scale, cam.viewport_h_px as int),
            2 * axis_den(cam.position.y, cam.zoom_scale),
            cam.position.y.num as int,
            cam.position.y.den as int,
        ),
{
    lemma_axis_extent_centered(cam.position.x, cam.zoom_scale, cam.viewport_w_px as int);
    lemma_axis_extent_centered(cam.position.y, cam.zoom_scale, cam.viewport_h_px as int);
}

/// One axis of [`lemma_visible_rect_extent_centered`].
proof fn lemma_axis_extent_centered(pos: Rat, zoom: Rat, extent_px: int)
    requires
        pos.wf(),
        zoom.wf(),
        zoom.num > 0,
    ensures
        eq_frac(
            hi_num(pos, zoom, extent_px) - lo_num(pos, zoom, extent_px),
            axis_den(pos, zoom),
            extent_px * zoom.den,
            zoom.num as int,
        ),
        eq_frac(
            lo_num(pos, zoom, extent_px) + hi_num(pos, zoom, extent_px),
            2 * axis_den(pos, zoom),
            pos.num as int,
            pos.den as int,
        ),
{
    assert((2 * (extent_px * zoom.den * pos.den)) * zoom.num
        == (extent_px * zoom.den) * (pos.den * (2 * zoom.num))) by (nonlinear_arith);
    assert((2 * (pos.num * (2 * zoom.num))) * pos.den
        == pos.num * (2 * (pos.den * (2 * zoom.num)))) by (nonlinear_arith);
}

} // verus!
