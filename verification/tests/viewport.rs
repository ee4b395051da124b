use data_viewer::camera::{CameraState, WorldVec};
use data_viewer::mapper::{date_to_x, pixels_to_world, value_to_y};
use data_viewer::pan::{FrameInput, PanState, PixelPos, ViewportContext};
use data_viewer::rat::Rat;

fn frame(
    just_pressed: bool,
    pressed: bool,
    just_released: bool,
    pointer: Option<(i64, i64)>,
) -> FrameInput {
    FrameInput {
        left_just_pressed: just_pressed,
        left_pressed: pressed,
        left_just_released: just_released,
        pointer: pointer.map(|(x, y)| PixelPos { x, y }),
    }
}

#[test]
fn pixels_to_world_is_exact_quotient() {
    let r = pixels_to_world(&Rat::from_int(10), &Rat::from_int(4));
    assert!(r.eqv_to(&Rat::new(5, 2)));
    let r = pixels_to_world(&Rat::from_int(2), &Rat::new(1, 2));
    assert!(r.eqv_to(&Rat::from_int(4)));
    let r = pixels_to_world(&Rat::from_int(0), &Rat::from_int(7));
    assert!(r.eqv_to(&Rat::from_int(0)));
}

#[test]
fn pixels_to_world_non_increasing_in_zoom() {
    let p = Rat::from_int(10);
    let at_two = pixels_to_world(&p, &Rat::from_int(2));
    let at_four = pixels_to_world(&p, &Rat::from_int(4));
    let at_half = pixels_to_world(&p, &Rat::new(1, 2));
    assert!(at_four.le_than(&at_two));
    assert!(at_two.le_than(&at_half));
}

#[test]
fn visible_rect_at_unit_zoom() {
    let cam = CameraState::with_viewport(800, 600);
    let rect = cam.visible_rect();
    assert!(rect.left.eqv_to(&Rat::from_int(-400)));
    assert!(rect.right.eqv_to(&Rat::from_int(400)));
    assert!(rect.bottom.eqv_to(&Rat::from_int(-300)));
    assert!(rect.top.eqv_to(&Rat::from_int(300)));
}

#[test]
fn visible_rect_extent_and_center() {
    let cam = CameraState {
        position: WorldVec { x: Rat::from_int(37), y: Rat::from_int(-12) },
        zoom_scale: Rat::from_int(2),
        viewport_w_px: 800,
        viewport_h_px: 600,
    };
    let rect = cam.visible_rect();
    // width == viewport_w / zoom == 400, centered on x == 37
    let width = rect.right.minus(&rect.left);
    assert!(width.eqv_to(&Rat::from_int(400)));
    assert!(rect.left.eqv_to(&Rat::from_int(37 - 200)));
    assert!(rect.right.eqv_to(&Rat::from_int(37 + 200)));
    // height == viewport_h / zoom == 300, centered on y == -12
    let height = rect.top.minus(&rect.bottom);
    assert!(height.eqv_to(&Rat::from_int(300)));
    assert!(rect.bottom.eqv_to(&Rat::from_int(-12 - 150)));
    assert!(rect.top.eqv_to(&Rat::from_int(-12 + 150)));
}

#[test]
fn apply_pan_adds_delta() {
    let mut cam = CameraState::with_viewport(800, 600);
    cam.apply_pan(&WorldVec { x: Rat::from_int(5), y: Rat::new(-3, 2) });
    assert!(cam.position.x.eqv_to(&Rat::from_int(5)));
    assert!(cam.position.y.eqv_to(&Rat::new(-3, 2)));
    cam.apply_pan(&WorldVec { x: Rat::from_int(-5), y: Rat::new(3, 2) });
    assert!(cam.position.x.eqv_to(&Rat::from_int(0)));
    assert!(cam.position.y.eqv_to(&Rat::from_int(0)));
}

#[test]
fn pan_round_trip() {
    // Starting at (0,0): press at pixel (100,100), drag to (150,80)
    // while held. The horizontal delta is applied as-is, the vertical
    // delta negated: position must be exactly (-50, -20).
    let mut ctx = ViewportContext {
        camera: CameraState::with_viewport(800, 600),
        pan: PanState::Idle,
    };
    ctx.pan_update(&frame(true, true, false, Some((100, 100))));
    ctx.pan_update(&frame(false, true, false, Some((150, 80))));
    assert_eq!(ctx.camera.position.x.num, -50);
    assert_eq!(ctx.camera.position.x.den, 1);
    assert_eq!(ctx.camera.position.y.num, -20);
    assert_eq!(ctx.camera.position.y.den, 1);
    assert!(matches!(ctx.pan, PanState::Dragging { .. }));
}

#[test]
fn pan_release_still_updates_then_clears() {
    let mut ctx = ViewportContext {
        camera: CameraState::with_viewport(800, 600),
        pan: PanState::Idle,
    };
    ctx.pan_update(&frame(true, true, false, Some((0, 0))));
    // The released frame still moves the camera before the state clears.
    ctx.pan_update(&frame(false, false, true, Some((-30, 10))));
    assert_eq!(ctx.camera.position.x.num, 30);
    assert_eq!(ctx.camera.position.y.num, 10);
    assert!(matches!(ctx.pan, PanState::Idle));
}

#[test]
fn pan_pointer_outside_window_preserves_state() {
    let mut ctx = ViewportContext {
        camera: CameraState::with_viewport(800, 600),
        pan: PanState::Idle,
    };
    ctx.pan_update(&frame(true, true, false, Some((100, 100))));
    // Pointer leaves the window: nothing changes this frame.
    ctx.pan_update(&frame(false, true, false, None));
    assert_eq!(ctx.camera.position.x.num, 0);
    assert!(matches!(ctx.pan, PanState::Dragging { .. }));
    // It re-enters and the drag resumes from the recorded origin.
    ctx.pan_update(&frame(false, true, false, Some((90, 105))));
    assert_eq!(ctx.camera.position.x.num, 10);
    assert_eq!(ctx.camera.position.y.num, 5);
}

#[test]
fn pan_press_and_release_same_frame() {
    // The position update runs before the state clears, with a zero
    // delta; the controller ends the frame idle.
    let mut ctx = ViewportContext {
        camera: CameraState::with_viewport(800, 600),
        pan: PanState::Idle,
    };
    ctx.pan_update(&frame(true, false, true, Some((100, 100))));
    assert_eq!(ctx.camera.position.x.num, 0);
    assert_eq!(ctx.camera.position.y.num, 0);
    assert!(matches!(ctx.pan, PanState::Idle));
}

#[test]
fn pan_idle_without_press_is_no_op() {
    let mut ctx = ViewportContext {
        camera: CameraState::with_viewport(800, 600),
        pan: PanState::Idle,
    };
    ctx.pan_update(&frame(false, true, false, Some((40, 40))));
    assert_eq!(ctx.camera.position.x.num, 0);
    assert_eq!(ctx.camera.position.y.num, 0);
    assert!(matches!(ctx.pan, PanState::Idle));
}

#[test]
fn date_and_value_mapping_formulas() {
    // date_to_x(0 days) == 0, date_to_x(182 days) == 364/365
    assert!(date_to_x(0).eqv_to(&Rat::from_int(0)));
    assert!(date_to_x(182).eqv_to(&Rat::new(364, 365)));
    // value_to_y multiplies by the fixed vertical scale of 8
    assert!(value_to_y(&Rat::from_int(1)).eqv_to(&Rat::from_int(8)));
    assert!(value_to_y(&Rat::new(-3, 2)).eqv_to(&Rat::from_int(-12)));
}
