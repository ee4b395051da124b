//! The pan controller: a small state machine turning per-frame
//! pointer-button state and pointer position into camera-position
//! updates.

use vstd::prelude::*;
use crate::camera::{CameraState, WorldVec};
use crate::rat::{Rat, in_bound, lemma_mul_bound, PIXEL_BOUND, POS_BOUND};

verus! {

/// A pointer position in whole device pixels, as reported by the
/// windowing layer. Screen-space y grows downward.
#[derive(Clone, Copy, PartialEq, Eq, Structural, Debug)]
pub struct PixelPos {
    pub x: i64,
    pub y: i64,
}

impl PixelPos {
    pub open spec fn wf(self) -> bool {
        &&& -PIXEL_BOUND <= self.x <= PIXEL_BOUND
        &&& -PIXEL_BOUND <= self.y <= PIXEL_BOUND
    }
}

/// One frame of pointer input. `pointer` is `None` when the pointer is
/// outside the window; that is not an error, the pan update is simply
/// skipped for the frame.
#[derive(Clone, Copy, Debug)]
pub struct FrameInput {
    pub left_just_pressed: bool,
    pub left_pressed: bool,
    pub left_just_released: bool,
    pub pointer: Option<PixelPos>,
}

impl FrameInput {
    pub open spec fn wf(self) -> bool {
        match self.pointer {
            Option::Some(p) => p.wf(),
            Option::None => true,
        }
    }
}

/// Drag progress: present exactly while a drag is in progress, holding
/// the pointer position and camera position at drag start.
#[derive(Clone, Copy, Debug)]
pub enum PanState {
    Idle,
    Dragging { pointer_start: PixelPos, camera_start: WorldVec },
}

impl PanState {
    pub open spec fn wf(self) -> bool {
        match self {
            PanState::Idle => true,
            PanState::Dragging { pointer_start, camera_start } => {
                &&& pointer_start.wf()
                &&& camera_start.wf()
                &&& in_bound(camera_start.x, POS_BOUND as int)
                &&& in_bound(camera_start.y, POS_BOUND as int)
            },
        }
    }
}

/// The per-frame mutable viewport state: the camera and the pan
/// controller's drag state, passed explicitly into each frame's update.
#[derive(Clone, Copy, Debug)]
pub struct ViewportContext {
    pub camera: CameraState,
    pub pan: PanState,
}

/// The drag origin in effect for this frame's position update: the
/// freshly recorded one if the button was just pressed, otherwise the
/// one recorded when the drag began, if any.
pub open spec fn drag_origin(ctx: ViewportContext, input: FrameInput, p: PixelPos) -> Option<
    (PixelPos, WorldVec),
> {
    if input.left_just_pressed {
        Option::Some((p, ctx.camera.position))
    } else {
        match ctx.pan {
            PanState::Idle => Option::None,
            PanState::Dragging { pointer_start, camera_start } => Option::Some(
                (pointer_start, camera_start),
            ),
        }
    }
}

/// The camera position is recomputed while the button is held and on
/// the frame it is released.
pub open spec fn updates_position(input: FrameInput) -> bool {
    input.left_pressed || input.left_just_released
}

/// Numerator of a camera coordinate shifted by a whole-pixel delta.
pub open spec fn shifted_num(c: Rat, delta: int) -> int {
    c.num + delta * c.den
}

/// The position this frame's update would produce stays within the
/// camera-position bound, so the update is representable.
pub open spec fn pan_in_bounds(ctx: ViewportContext, input: FrameInput) -> bool {
    match input.pointer {
        Option::None => true,
        Option::Some(p) => match drag_origin(ctx, input, p) {
            Option::None => true,
            Option::Some(origin) => !updates_position(input) || {
                &&& -POS_BOUND <= shifted_num(origin.1.x, origin.0.x - p.x) <= POS_BOUND
                &&& -POS_BOUND <= shifted_num(origin.1.y, p.y - origin.0.y) <= POS_BOUND
            },
        },
    }
}

impl ViewportContext {
    pub open spec fn wf(self) -> bool {
        &&& self.camera.wf()
        &&& self.camera.bounded()
        &&& self.pan.wf()
    }

    /// One frame of the pan state machine, in the fixed evaluation
    /// order: record the drag origin on press, recompute the camera
    /// position from the origin while held or on release (the released
    /// frame still updates the position), then clear the state on
    /// release. The horizontal pointer delta is applied as-is and the
    /// vertical delta negated, because screen-space y grows downward
    /// while world-space y grows upward. Pixel deltas are applied
    /// one-to-one as world deltas, with no pixel-to-world conversion.
    pub fn pan_update(&mut self, input: &FrameInput)
        requires
            old(self).wf(),
            input.wf(),
            pan_in_bounds(*old(self), *input),
        ensures
            final(self).wf(),
            final(self).camera.zoom_scale == old(self).camera.zoom_scale,
            final(self).camera.viewport_w_px == old(self).camera.viewport_w_px,
            final(self).camera.viewport_h_px == old(self).camera.viewport_h_px,
            input.pointer is None ==> *final(self) == *old(self),
            match input.pointer {
                Option::Some(p) => {
                    &&& final(self).pan == (if input.left_just_released {
                        PanState::Idle
                    } else if input.left_just_pressed {
                        PanState::Dragging {
                            pointer_start: p,
                            camera_start: old(self).camera.position,
                        }
                    } else {
                        old(self).pan
                    })
                    &&& match drag_origin(*old(self), *input, p) {
                        Option::Some(origin) => if updates_position(*input) {
                            &&& final(self).camera.position.x.num == shifted_num(
                                origin.1.x,
                                origin.0.x - p.x,
                            )
                            &&& final(self).camera.position.x.den == origin.1.x.den
                            &&& final(self).camera.position.y.num == shifted_num(
                                origin.1.y,
                                p.y - origin.0.y,
                            )
                            &&& final(self).camera.position.y.den == origin.1.y.den
                        } else {
                            final(self).camera.position == old(self).camera.position
                        },
                        Option::None => final(self).camera.position == old(self).camera.position,
                    }
                },
                Option::None => true,
            },
    {
        let p = match &input.pointer {
            Option::Some(p) => *p,
            Option::None => {
                return ;
            },
        };
        if input.left_just_pressed {
            self.pan = PanState::Dragging { pointer_start: p, camera_start: self.camera.position };
        }
        match self.pan {
            PanState::Dragging { pointer_start, camera_start } => {
                if input.left_pressed || input.left_just_released {
                    proof {
                        lemma_mul_bound(
                            pointer_start.x - p.x,
                            camera_start.x.den as int,
                            2 * PIXEL_BOUND as int,
                            POS_BOUND as int,
                        );
                        lemma_mul_bound(
                            p.y - pointer_start.y,
                            camera_start.y.den as int,
                            2 * PIXEL_BOUND as int,
                            POS_BOUND as int,
                        );
                    }
                    let kx: i128 = (pointer_start.x as i128) - (p.x as i128);
                    let ky: i128 = (p.y as i128) - (pointer_start.y as i128);
                    let nx: i128 = camera_start.x.num + kx * camera_start.x.den;
                    let ny: i128 = camera_start.y.num + ky * camera_start.y.den;
                    self.camera.position = WorldVec {
                        x: Rat { num: nx, den: camera_start.x.den },
                        y: Rat { num: ny, den: camera_start.y.den },
                    };
                }
            },
            PanState::Idle => {},
        }
        if input.left_just_released {
            self.pan = PanState::Idle;
        }
    }
}

} // verus!
