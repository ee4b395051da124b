use data_viewer::camera::{CameraState, WorldVec};
use data_viewer::config::{ConfigError, GridStyles, LineStyle};
use data_viewer::grid::{compute_grid_lines, GridLine, GridSpec, Orientation};
use data_viewer::rat::Rat;

fn styles() -> GridStyles {
    GridStyles {
        minor: LineStyle { red: 128, green: 128, blue: 128, alpha: 255 },
        x_axis: LineStyle { red: 255, green: 255, blue: 255, alpha: 255 },
        y_axis: LineStyle { red: 250, green: 250, blue: 250, alpha: 255 },
    }
}

fn spec_100() -> GridSpec {
    GridSpec::new(Rat::from_int(100), 2, styles()).unwrap()
}

fn verticals(lines: &[GridLine]) -> Vec<&GridLine> {
    lines.iter().filter(|l| l.orientation == Orientation::Vertical).collect()
}

fn horizontals(lines: &[GridLine]) -> Vec<&GridLine> {
    lines.iter().filter(|l| l.orientation == Orientation::Horizontal).collect()
}

#[test]
fn grid_spec_rejects_bad_spacing() {
    assert!(matches!(
        GridSpec::new(Rat { num: 0, den: 1 }, 2, styles()),
        Err(ConfigError::InvalidSpacing)
    ));
    assert!(matches!(
        GridSpec::new(Rat { num: -100, den: 1 }, 2, styles()),
        Err(ConfigError::InvalidSpacing)
    ));
    assert!(matches!(
        GridSpec::new(Rat { num: 1, den: 0 }, 2, styles()),
        Err(ConfigError::InvalidSpacing)
    ));
    assert!(GridSpec::new(Rat::new(1, 2), 2, styles()).is_ok());
}

#[test]
fn grid_covers_visible_indices() {
    let cam = CameraState::with_viewport(800, 600);
    let rect = cam.visible_rect();
    let lines = compute_grid_lines(&spec_100(), &rect, &cam.zoom_scale);

    let v = verticals(&lines);
    let h = horizontals(&lines);
    assert_eq!(v.len(), 9); // indices -4 ..= 4 over [-400, 400]
    assert_eq!(h.len(), 7); // indices -3 ..= 3 over [-300, 300]
    assert_eq!(lines.len(), 16);

    for (k, line) in v.iter().enumerate() {
        assert_eq!(line.index, k as i64 - 4);
        // position == index * spacing, inside [left, right]
        assert!(line.position.eqv_to(&Rat::new(line.index as i128 * 100, 1)));
        assert!(rect.left.le_than(&line.position));
        assert!(line.position.le_than(&rect.right));
    }
    for (k, line) in h.iter().enumerate() {
        assert_eq!(line.index, k as i64 - 3);
        assert!(rect.bottom.le_than(&line.position));
        assert!(line.position.le_than(&rect.top));
    }
}

#[test]
fn grid_boundary_lines_included() {
    // The rectangle edges at exactly -400 and 400 carry lines: the
    // ceil/floor index choice keeps boundary lines.
    let cam = CameraState::with_viewport(800, 600);
    let rect = cam.visible_rect();
    let lines = compute_grid_lines(&spec_100(), &rect, &cam.zoom_scale);
    let v = verticals(&lines);
    assert!(v.first().unwrap().position.eqv_to(&Rat::from_int(-400)));
    assert!(v.last().unwrap().position.eqv_to(&Rat::from_int(400)));
}

#[test]
fn grid_generation_is_idempotent() {
    let cam = CameraState::with_viewport(1024, 768);
    let rect = cam.visible_rect();
    let gs = spec_100();
    let first = compute_grid_lines(&gs, &rect, &cam.zoom_scale);
    let second = compute_grid_lines(&gs, &rect, &cam.zoom_scale);
    assert_eq!(first, second);
}

#[test]
fn grid_axis_lines_when_origin_visible() {
    let cam = CameraState::with_viewport(800, 600);
    let rect = cam.visible_rect();
    let lines = compute_grid_lines(&spec_100(), &rect, &cam.zoom_scale);

    let v_axes: Vec<_> =
        lines.iter().filter(|l| l.orientation == Orientation::Vertical && l.is_axis).collect();
    let h_axes: Vec<_> =
        lines.iter().filter(|l| l.orientation == Orientation::Horizontal && l.is_axis).collect();
    assert_eq!(v_axes.len(), 1);
    assert_eq!(h_axes.len(), 1);
    assert_eq!(v_axes[0].index, 0);
    assert_eq!(h_axes[0].index, 0);
    assert_eq!(v_axes[0].style, styles().y_axis);
    assert_eq!(h_axes[0].style, styles().x_axis);
    for line in &lines {
        assert_eq!(line.is_axis, line.index == 0);
        if !line.is_axis {
            assert_eq!(line.style, styles().minor);
        }
    }
}

#[test]
fn grid_no_axis_lines_when_origin_out_of_view() {
    let cam = CameraState {
        position: WorldVec { x: Rat::from_int(1000), y: Rat::from_int(2000) },
        zoom_scale: Rat::from_int(1),
        viewport_w_px: 800,
        viewport_h_px: 600,
    };
    let rect = cam.visible_rect();
    let lines = compute_grid_lines(&spec_100(), &rect, &cam.zoom_scale);
    assert!(!lines.is_empty());
    assert!(lines.iter().all(|l| !l.is_axis && l.index != 0));
}

#[test]
fn grid_empty_when_no_multiple_in_view() {
    // A rectangle strictly between two multiples of the spacing gets
    // no line on that axis.
    let cam = CameraState {
        position: WorldVec { x: Rat::from_int(50), y: Rat::from_int(50) },
        zoom_scale: Rat::from_int(1),
        viewport_w_px: 20,
        viewport_h_px: 20,
    };
    let rect = cam.visible_rect();
    let lines = compute_grid_lines(&spec_100(), &rect, &cam.zoom_scale);
    assert!(lines.is_empty());
}

#[test]
fn grid_degenerate_viewport_keeps_edge_lines() {
    // A zero-size viewport collapses the rectangle to a point; a line
    // exactly on that point is still emitted on each axis.
    let cam = CameraState {
        position: WorldVec { x: Rat::from_int(0), y: Rat::from_int(0) },
        zoom_scale: Rat::from_int(1),
        viewport_w_px: 0,
        viewport_h_px: 0,
    };
    let rect = cam.visible_rect();
    let lines = compute_grid_lines(&spec_100(), &rect, &cam.zoom_scale);
    assert_eq!(lines.len(), 2);
    assert!(lines.iter().all(|l| l.is_axis && l.index == 0));
}

#[test]
fn grid_thickness_constant_in_pixels() {
    // Line thickness is the pixel width divided by the zoom scale, so
    // it shrinks in world space as the zoom grows.
    let gs = spec_100();
    let cam1 = CameraState::with_viewport(800, 600);
    let cam2 = CameraState {
        zoom_scale: Rat::from_int(2),
        ..CameraState::with_viewport(800, 600)
    };
    let l1 = compute_grid_lines(&gs, &cam1.visible_rect(), &cam1.zoom_scale);
    let l2 = compute_grid_lines(&gs, &cam2.visible_rect(), &cam2.zoom_scale);
    assert!(l1[0].thickness.eqv_to(&Rat::from_int(2)));
    assert!(l2[0].thickness.eqv_to(&Rat::from_int(1)));
}

#[test]
fn grid_lines_span_full_rectangle() {
    let cam = CameraState::with_viewport(800, 600);
    let rect = cam.visible_rect();
    let lines = compute_grid_lines(&spec_100(), &rect, &cam.zoom_scale);
    for line in verticals(&lines) {
        assert!(line.center_other.eqv_to(&Rat::from_int(0)));
        assert!(line.extent_other.eqv_to(&Rat::from_int(600)));
    }
    for line in horizontals(&lines) {
        assert!(line.center_other.eqv_to(&Rat::from_int(0)));
        assert!(line.extent_other.eqv_to(&Rat::from_int(800)));
    }
}

#[test]
fn grid_fractional_spacing_and_zoom() {
    // Spacing 5/2 over a span [-5, 5]: indices -2 ..= 2.
    let gs = GridSpec::new(Rat::new(5, 2), 1, styles()).unwrap();
    let cam = CameraState {
        position: WorldVec { x: Rat::from_int(0), y: Rat::from_int(0) },
        zoom_scale: Rat::from_int(2),
        viewport_w_px: 20,
        viewport_h_px: 20,
    };
    let rect = cam.visible_rect();
    let lines = compute_grid_lines(&gs, &rect, &cam.zoom_scale);
    let v = verticals(&lines);
    assert_eq!(v.len(), 5);
    assert!(v[0].position.eqv_to(&Rat::from_int(-5)));
    assert!(v[1].position.eqv_to(&Rat::new(-5, 2)));
    assert!(v[4].position.eqv_to(&Rat::from_int(5)));
}
