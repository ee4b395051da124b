//! The grid generator: from the visible rectangle, the zoom scale and
//! a line-spacing spec, the exact ordered set of grid lines to draw
//! this frame.

use vstd::prelude::*;
use crate::camera::Rect;
use crate::config::{ConfigError, GridStyles, LineStyle};
use crate::rat::{
    Rat, ceil_frac, fits_i64, floor_frac, in_bound, le_frac, lemma_ceil_frac_unique,
    lemma_floor_frac_unique, lemma_ge_ceil_iff, lemma_le_floor_iff, lemma_mul_bound,
    lemma_mul_pos, RECT_BOUND, SPACING_BOUND, ZOOM_BOUND,
};

verus! {

/// Which way a grid line runs. A vertical line marks a position on the
/// x axis; a horizontal line a position on the y axis.
#[derive(Clone, Copy, PartialEq, Eq, Structural, Debug)]
pub enum Orientation {
    Vertical,
    Horizontal,
}

/// Immutable per-view grid configuration: the data-space distance
/// between minor lines, the on-screen line width, and one style per
/// line category.
#[derive(Clone, Copy, PartialEq, Eq, Structural, Debug)]
pub struct GridSpec {
    pub minor_line_spacing: Rat,
    pub minor_line_width_px: u32,
    pub styles: GridStyles,
}

impl GridSpec {
    pub open spec fn wf(self) -> bool {
        &&& self.minor_line_spacing.wf()
        &&& self.minor_line_spacing.num > 0
        &&& in_bound(self.minor_line_spacing, SPACING_BOUND as int)
    }

    /// Validates the configuration at construction time, so a bad
    /// spacing is a construction error rather than a per-frame failure.
    pub fn new(minor_line_spacing: Rat, minor_line_width_px: u32, styles: GridStyles) -> (r:
        Result<GridSpec, ConfigError>)
        ensures
            r is Ok <==> (minor_line_spacing.wf() && minor_line_spacing.num > 0 && in_bound(
                minor_line_spacing,
                SPACING_BOUND as int,
            )),
            r matches Ok(g) ==> g == (GridSpec { minor_line_spacing, minor_line_width_px, styles })
                && g.wf(),
            r matches Err(e) ==> e == ConfigError::InvalidSpacing,
    {
        if 0 < minor_line_spacing.num && minor_line_spacing.num <= SPACING_BOUND
            && 0 < minor_line_spacing.den && minor_line_spacing.den <= SPACING_BOUND {
            Result::Ok(GridSpec { minor_line_spacing, minor_line_width_px, styles })
        } else {
            Result::Err(ConfigError::InvalidSpacing)
        }
    }
}

/// One grid line to draw this frame. The whole set is rebuilt from the
/// current view every frame; a line owns no persistent identity.
#[derive(Clone, Copy, PartialEq, Eq, Structural, Debug)]
#[verifier::ext_equal]
pub struct GridLine {
    pub orientation: Orientation,
    /// Signed multiple of the spacing at which the line sits.
    pub index: i64,
    /// True exactly for the line at index 0 of its orientation.
    pub is_axis: bool,
    /// World coordinate of the line along its axis: `index * spacing`.
    pub position: Rat,
    /// World-space thickness: the configured pixel width at the current
    /// zoom, so lines keep a constant on-screen width.
    pub thickness: Rat,
    /// World coordinate of the line's center in the other axis: the
    /// middle of the visible rectangle there.
    pub center_other: Rat,
    /// World-space length of the line: the full extent of the visible
    /// rectangle in the other axis, so lines reach from edge to edge.
    pub extent_other: Rat,
    /// The style of the line's category: the axis style at index 0,
    /// the minor style elsewhere.
    pub style: LineStyle,
}

/// First line index on an axis: the smallest integer multiple of the
/// spacing at or above the lower rectangle side.
pub open spec fn start_index(lo: Rat, spacing: Rat) -> int {
    ceil_frac(lo.num * spacing.den, lo.den * spacing.num)
}

/// Last line index on an axis: the largest integer multiple of the
/// spacing at or below the upper rectangle side.
pub open spec fn end_index(hi: Rat, spacing: Rat) -> int {
    floor_frac(hi.num * spacing.den, hi.den * spacing.num)
}

/// Number of line indices emitted on an axis.
pub open spec fn count_indices(lo: Rat, hi: Rat, spacing: Rat) -> int {
    if start_index(lo, spacing) <= end_index(hi, spacing) {
        end_index(hi, spacing) - start_index(lo, spacing) + 1
    } else {
        0
    }
}

/// Every field of a vertical grid line at index `i`, pinned exactly.
pub open spec fn vertical_line_at(gs: GridSpec, rect: Rect, zoom: Rat, i: int, line: GridLine) -> bool {
    &&& line.orientation == Orientation::Vertical
    &&& line.index == i
    &&& line.is_axis == (i == 0)
    &&& line.position.num == i * gs.minor_line_spacing.num
    &&& line.position.den == gs.minor_line_spacing.den
    &&& line.thickness.num == gs.minor_line_width_px * zoom.den
    &&& line.thickness.den == zoom.num
    &&& line.center_other.num == rect.bottom.num + rect.top.num
    &&& line.center_other.den == 2 * rect.bottom.den
    &&& line.extent_other.num == rect.top.num - rect.bottom.num
    &&& line.extent_other.den == rect.bottom.den
    &&& line.style == (if i == 0 {
        gs.styles.y_axis
    } else {
        gs.styles.minor
    })
}

/// Every field of a horizontal grid line at index `i`, pinned exactly.
pub open spec fn horizontal_line_at(gs: GridSpec, rect: Rect, zoom: Rat, i: int, line: GridLine) -> bool {
    &&& line.orientation == Orientation::Horizontal
    &&& line.index == i
    &&& line.is_axis == (i == 0)
    &&& line.position.num == i * gs.minor_line_spacing.num
    &&& line.position.den == gs.minor_line_spacing.den
    &&& line.thickness.num == gs.minor_line_width_px * zoom.den
    &&& line.thickness.den == zoom.num
    &&& line.center_other.num == rect.left.num + rect.right.num
    &&& line.center_other.den == 2 * rect.left.den
    &&& line.extent_other.num == rect.right.num - rect.left.num
    &&& line.extent_other.den == rect.left.den
    &&& line.style == (if i == 0 {
        gs.styles.x_axis
    } else {
        gs.styles.minor
    })
}

/// The generator's full output: the vertical lines in ascending index
/// order, then the horizontal lines in ascending index order, each
/// field a function of the inputs alone.
pub open spec fn grid_output_matches(gs: GridSpec, rect: Rect, zoom: Rat, out: Seq<GridLine>) -> bool {
    let vs = start_index(rect.left, gs.minor_line_spacing);
    let hs = start_index(rect.bottom, gs.minor_line_spacing);
    let vc = count_indices(rect.left, rect.right, gs.minor_line_spacing);
    let hc = count_indices(rect.bottom, rect.top, gs.minor_line_spacing);
    &&& out.len() == vc + hc
    &&& forall|k: int|
        0 <= k < vc ==> vertical_line_at(gs, rect, zoom, vs + k, #[trigger] out[k])
    &&& forall|k: int|
        vc <= k < vc + hc ==> horizontal_line_at(gs, rect, zoom, hs + (k - vc), #[trigger] out[k])
}

/// The indices the generator may be asked for stay strictly inside the
/// `i64` range, so each emitted index is representable.
pub open spec fn indices_representable(gs: GridSpec, rect: Rect) -> bool {
    &&& fits_i64(start_index(rect.left, gs.minor_line_spacing))
    &&& fits_i64(end_index(rect.right, gs.minor_line_spacing))
    &&& fits_i64(start_index(rect.bottom, gs.minor_line_spacing))
    &&& fits_i64(end_index(rect.top, gs.minor_line_spacing))
}

/// Computes the grid lines for one frame: on each axis every integer
/// multiple of the spacing that falls inside the visible rectangle
/// (edges included), with the axis style and flag at index 0. The
/// output replaces the previous frame's lines entirely; it is a pure
/// function of the inputs, with no hidden per-frame state.
pub fn compute_grid_lines(gs: &GridSpec, rect: &Rect, zoom: &Rat) -> (out: Vec<GridLine>)
    requires
        gs.wf(),
        rect.wf(),
        zoom.wf(),
        zoom.num > 0,
        in_bound(*zoom, ZOOM_BOUND as int),
        in_bound(rect.left, RECT_BOUND as int),
        in_bound(rect.right, RECT_BOUND as int),
        in_bound(rect.bottom, RECT_BOUND as int),
        in_bound(rect.top, RECT_BOUND as int),
        indices_representable(*gs, *rect),
    ensures
        grid_output_matches(*gs, *rect, *zoom, out@),
{
    let sp = gs.minor_line_spacing;
    proof {
        lemma_mul_bound(rect.left.num as int, sp.den as int, RECT_BOUND as int, SPACING_BOUND as int);
        lemma_mul_bound(rect.right.num as int, sp.den as int, RECT_BOUND as int, SPACING_BOUND as int);
        lemma_mul_bound(rect.bottom.num as int, sp.den as int, RECT_BOUND as int, SPACING_BOUND as int);
        lemma_mul_bound(rect.top.num as int, sp.den as int, RECT_BOUND as int, SPACING_BOUND as int);
        lemma_mul_bound(rect.left.den as int, sp.num as int, RECT_BOUND as int, SPACING_BOUND as int);
        lemma_mul_bound(rect.right.den as int, sp.num as int, RECT_BOUND as int, SPACING_BOUND as int);
        lemma_mul_bound(rect.bottom.den as int, sp.num as int, RECT_BOUND as int, SPACING_BOUND as int);
        lemma_mul_bound(rect.top.den as int, sp.num as int, RECT_BOUND as int, SPACING_BOUND as int);
        lemma_mul_pos(rect.left.den as int, sp.num as int);
        lemma_mul_pos(rect.right.den as int, sp.num as int);
        lemma_mul_pos(rect.bottom.den as int, sp.num as int);
        lemma_mul_pos(rect.top.den as int, sp.num as int);
        lemma_mul_bound(
            gs.minor_line_width_px as int,
            zoom.den as int,
            0x1_0000_0000,
            ZOOM_BOUND as int,
        );
    }
    let thickness = Rat { num: (gs.minor_line_width_px as i128) * zoom.den, den: zoom.num };

    let mut out: Vec<GridLine> = Vec::new();

    // Vertical lines: indices from ceil(left / spacing) to
    // floor(right / spacing), ascending.
    let vstart = Rat { num: rect.left.num * sp.den, den: rect.left.den * sp.num }.ceil_int();
    let vend = Rat { num: rect.right.num * sp.den, den: rect.right.den * sp.num }.floor_int();
    proof {
        lemma_ceil_frac_unique(
            rect.left.num * sp.den,
            rect.left.den * sp.num,
            vstart as int,
        );
        lemma_floor_frac_unique(
            rect.right.num * sp.den,
            rect.right.den * sp.num,
            vend as int,
        );
    }
    let center_y = Rat { num: rect.bottom.num + rect.top.num, den: 2 * rect.bottom.den };
    let extent_y = Rat { num: rect.top.num - rect.bottom.num, den: rect.bottom.den };
    let ghost vs = start_index(rect.left, sp);
    let ghost vc = count_indices(rect.left, rect.right, sp);
    let mut i: i128 = vstart;
    while i <= vend
        invariant
            gs.wf(),
            sp == gs.minor_line_spacing,
            vstart == vs,
            vend == end_index(rect.right, sp),
            vc == count_indices(rect.left, rect.right, sp),
            fits_i64(vstart as int),
            fits_i64(vend as int),
            vstart <= i,
            vstart <= vend ==> i <= vend + 1,
            vstart > vend ==> i == vstart,
            out@.len() == i - vstart,
            thickness.num == gs.minor_line_width_px * zoom.den,
            thickness.den == zoom.num,
            center_y.num == rect.bottom.num + rect.top.num,
            center_y.den == 2 * rect.bottom.den,
            extent_y.num == rect.top.num - rect.bottom.num,
            extent_y.den == rect.bottom.den,
            forall|k: int|
                0 <= k < out@.len() ==> vertical_line_at(*gs, *rect, *zoom, vs + k, #[trigger] out@[k]),
        decreases vend + 1 - i,
    {
        proof {
            lemma_mul_bound(i as int, sp.num as int, 0x8000_0000_0000_0000, SPACING_BOUND as int);
        }
        let line = GridLine {
            orientation: Orientation::Vertical,
            index: i as i64,
            is_axis: i == 0,
            position: Rat { num: i * sp.num, den: sp.den },
            thickness,
            center_other: center_y,
            extent_other: extent_y,
            style: if i == 0 {
                gs.styles.y_axis
            } else {
                gs.styles.minor
            },
        };
        out.push(line);
        i = i + 1;
    }
    assert(out@.len() == vc);

    // Horizontal lines: indices from ceil(bottom / spacing) to
    // floor(top / spacing), ascending, after all vertical lines.
    let hstart = Rat { num: rect.bottom.num * sp.den, den: rect.bottom.den * sp.num }.ceil_int();
    let hend = Rat { num: rect.top.num * sp.den, den: rect.top.den * sp.num }.floor_int();
    proof {
        lemma_ceil_frac_unique(
            rect.bottom.num * sp.den,
            rect.bottom.den * sp.num,
            hstart as int,
        );
        lemma_floor_frac_unique(
            rect.top.num * sp.den,
            rect.top.den * sp.num,
            hend as int,
        );
    }
    let center_x = Rat { num: rect.left.num + rect.right.num, den: 2 * rect.left.den };
    let extent_x = Rat { num: rect.right.num - rect.left.num, den: rect.left.den };
    let ghost hs = start_index(rect.bottom, sp);
    let ghost hc = count_indices(rect.bottom, rect.top, sp);
    let mut j: i128 = hstart;
    while j <= hend
        invariant
            gs.wf(),
            sp == gs.minor_line_spacing,
            hstart == hs,
            hend == end_index(rect.top, sp),
            vc == count_indices(rect.left, rect.right, sp),
            hc == count_indices(rect.bottom, rect.top, sp),
            fits_i64(hstart as int),
            fits_i64(hend as int),
            hstart <= j,
            hstart <= hend ==> j <= hend + 1,
            hstart > hend ==> j == hstart,
            out@.len() == vc + (j - hstart),
            thickness.num == gs.minor_line_width_px * zoom.den,
            thickness.den == zoom.num,
            center_x.num == rect.left.num + rect.right.num,
            center_x.den == 2 * rect.left.den,
            extent_x.num == rect.right.num - rect.left.num,
            extent_x.den == rect.left.den,
            forall|k: int|
                0 <= k < vc ==> vertical_line_at(*gs, *rect, *zoom, vs + k, #[trigger] out@[k]),
            forall|k: int|
                vc <= k < out@.len() ==> horizontal_line_at(
                    *gs,
                    *rect,
                    *zoom,
                    hs + (k - vc),
                    #[trigger] out@[k],
                ),
        decreases hend + 1 - j,
    {
        proof {
            lemma_mul_bound(j as int, sp.num as int, 0x8000_0000_0000_0000, SPACING_BOUND as int);
        }
        let line = GridLine {
            orientation: Orientation::Horizontal,
            index: j as i64,
            is_axis: j == 0,
            position: Rat { num: j * sp.num, den: sp.den },
            thickness,
            center_other: center_x,
            extent_other: extent_x,
            style: if j == 0 {
                gs.styles.x_axis
            } else {
                gs.styles.minor
            },
        };
        out.push(line);
        j = j + 1;
    }
    out
}

/// Law: the generator is a pure function of `(GridSpec, visible_rect,
/// zoom_scale)` — any two outputs for identical inputs are identical,
/// line for line, order included. There is no hidden per-frame state.
pub proof fn lemma_grid_lines_deterministic(
    gs: GridSpec,
    rect: Rect,
    zoom: Rat,
    out1: Seq<GridLine>,
    out2: Seq<GridLine>,
)
    requires
        grid_output_matches(gs, rect, zoom, out1),
        grid_output_matches(gs, rect, zoom, out2),
    ensures
        out1 == out2,
{
    let vs = start_index(rect.left, gs.minor_line_spacing);
    let hs = start_index(rect.bottom, gs.minor_line_spacing);
    let vc = count_indices(rect.left, rect.right, gs.minor_line_spacing);
    let hc = count_indices(rect.bottom, rect.top, gs.minor_line_spacing);
    assert forall|k: int| 0 <= k < out1.len() implies out1[k] == out2[k] by {
        if k < vc {
            assert(vertical_line_at(gs, rect, zoom, vs + k, out1[k]));
            assert(vertical_line_at(gs, rect, zoom, vs + k, out2[k]));
            assert(out1[k].position =~= out2[k].position);
            assert(out1[k].thickness =~= out2[k].thickness);
            assert(out1[k].center_other =~= out2[k].center_other);
            assert(out1[k].extent_other =~= out2[k].extent_other);
            assert(out1[k] =~= out2[k]);
        } else {
            assert(horizontal_line_at(gs, rect, zoom, hs + (k - vc), out1[k]));
            assert(horizontal_line_at(gs, rect, zoom, hs + (k - vc), out2[k]));
            assert(out1[k].position =~= out2[k].position);
            assert(out1[k].thickness =~= out2[k].thickness);
            assert(out1[k].center_other =~= out2[k].center_other);
            assert(out1[k].extent_other =~= out2[k].extent_other);
            assert(out1[k] =~= out2[k]);
        }
    }
    assert(out1 =~= out2);
}

/// Law (grid coverage): a line with index `i` appears in the output
/// exactly when `i * spacing` lies inside the visible span of its axis,
/// edges included — every emitted line is visible and no integer index
/// inside the bounds is missing.
pub proof fn lemma_grid_coverage(gs: GridSpec, rect: Rect, zoom: Rat, out: Seq<GridLine>, i: int)
    requires
        gs.wf(),
        rect.wf(),
        grid_output_matches(gs, rect, zoom, out),
    ensures
        (exists|k: int|
            0 <= k < out.len() && (#[trigger] out[k]).orientation == Orientation::Vertical
                && out[k].index == i) <==> (le_frac(
            rect.left.num as int,
            rect.left.den as int,
            i * gs.minor_line_spacing.num,
            gs.minor_line_spacing.den as int,
        ) && le_frac(
            i * gs.minor_line_spacing.num,
            gs.minor_line_spacing.den as int,
            rect.right.num as int,
            rect.right.den as int,
        )),
        (exists|k: int|
            0 <= k < out.len() && (#[trigger] out[k]).orientation == Orientation::Horizontal
                && out[k].index == i) <==> (le_frac(
            rect.bottom.num as int,
            rect.bottom.den as int,
            i * gs.minor_line_spacing.num,
            gs.minor_line_spacing.den as int,
        ) && le_frac(
            i * gs.minor_line_spacing.num,
            gs.minor_line_spacing.den as int,
            rect.top.num as int,
            rect.top.den as int,
        )),
{
    let sp = gs.minor_line_spacing;
    let vs = start_index(rect.left, sp);
    let ve = end_index(rect.right, sp);
    let hs = start_index(rect.bottom, sp);
    let he = end_index(rect.top, sp);
    let vc = count_indices(rect.left, rect.right, sp);
    let hc = count_indices(rect.bottom, rect.top, sp);

    lemma_mul_pos(rect.left.den as int, sp.num as int);
    lemma_mul_pos(rect.bottom.den as int, sp.num as int);
    lemma_ge_ceil_iff(rect.left.num * sp.den, rect.left.den * sp.num, i);
    lemma_le_floor_iff(rect.right.num * sp.den, rect.right.den * sp.num, i);
    lemma_ge_ceil_iff(rect.bottom.num * sp.den, rect.bottom.den * sp.num, i);
    lemma_le_floor_iff(rect.top.num * sp.den, rect.top.den * sp.num, i);
    assert(i * (rect.left.den * sp.num) == (i * sp.num) * rect.left.den) by (nonlinear_arith);
    assert(i * (rect.right.den * sp.num) == (i * sp.num) * rect.right.den) by (nonlinear_arith);
    assert(i * (rect.bottom.den * sp.num) == (i * sp.num) * rect.bottom.den) by (nonlinear_arith);
    assert(i * (rect.top.den * sp.num) == (i * sp.num) * rect.top.den) by (nonlinear_arith);

    // Now: the rational bounds hold exactly when vs <= i <= ve
    // (resp. hs <= i <= he). Tie that to membership in the output.
    if vs <= i <= ve {
        let k = i - vs;
        assert(vertical_line_at(gs, rect, zoom, vs + k, out[k]));
        assert(0 <= k < out.len() && out[k].orientation == Orientation::Vertical && out[k].index
            == i);
    }
    if (exists|k: int|
        0 <= k < out.len() && (#[trigger] out[k]).orientation == Orientation::Vertical && out[k].index
            == i) {
        let k = choose|k: int|
            0 <= k < out.len() && (#[trigger] out[k]).orientation == Orientation::Vertical
                && out[k].index == i;
        if k >= vc {
            assert(horizontal_line_at(gs, rect, zoom, hs + (k - vc), out[k]));
        }
        assert(k < vc);
        assert(vertical_line_at(gs, rect, zoom, vs + k, out[k]));
        assert(vs <= i <= ve);
    }
    if hs <= i <= he {
        let k = vc + (i - hs);
        assert(horizontal_line_at(gs, rect, zoom, hs + (k - vc), out[k]));
        assert(0 <= k < out.len() && out[k].orientation == Orientation::Horizontal && out[k].index
            == i);
    }
    if (exists|k: int|
        0 <= k < out.len() && (#[trigger] out[k]).orientation == Orientation::Horizontal
            && out[k].index == i) {
        let k = choose|k: int|
            0 <= k < out.len() && (#[trigger] out[k]).orientation == Orientation::Horizontal
                && out[k].index == i;
        if k < vc {
            assert(vertical_line_at(gs, rect, zoom, vs + k, out[k]));
        }
        assert(k >= vc);
        assert(horizontal_line_at(gs, rect, zoom, hs + (k - vc), out[k]));
        assert(hs <= i <= he);
    }
}

/// Law (axis identification): a line carries the axis flag exactly
/// when its index is 0; a vertical axis line appears exactly when
/// x = 0 falls inside the visible rectangle, and then exactly once —
/// and the horizontal analogue.
pub proof fn lemma_grid_axis_lines(gs: GridSpec, rect: Rect, zoom: Rat, out: Seq<GridLine>)
    requires
        gs.wf(),
        rect.wf(),
        grid_output_matches(gs, rect, zoom, out),
    ensures
        forall|k: int| 0 <= k < out.len() ==> ((#[trigger] out[k]).is_axis <==> out[k].index == 0),
        (rect.left.num <= 0 && 0 <= rect.right.num) <==> (exists|k: int|
            0 <= k < out.len() && (#[trigger] out[k]).orientation == Orientation::Vertical
                && out[k].index == 0),
        forall|k1: int, k2: int|
            (0 <= k1 < out.len() && 0 <= k2 < out.len() && (#[trigger] out[k1]).orientation
                == Orientation::Vertical && out[k1].index == 0 && (#[trigger] out[k2]).orientation
                == Orientation::Vertical && out[k2].index == 0) ==> k1 == k2,
        (rect.bottom.num <= 0 && 0 <= rect.top.num) <==> (exists|k: int|
            0 <= k < out.len() && (#[trigger] out[k]).orientation == Orientation::Horizontal
                && out[k].index == 0),
        forall|k1: int, k2: int|
            (0 <= k1 < out.len() && 0 <= k2 < out.len() && (#[trigger] out[k1]).orientation
                == Orientation::Horizontal && out[k1].index == 0 && (#[trigger] out[k2]).orientation
                == Orientation::Horizontal && out[k2].index == 0) ==> k1 == k2,
{
    let sp = gs.minor_line_spacing;
    let vs = start_index(rect.left, sp);
    let hs = start_index(rect.bottom, sp);
    let vc = count_indices(rect.left, rect.right, sp);
    let hc = count_indices(rect.bottom, rect.top, sp);

    assert forall|k: int| 0 <= k < out.len() implies ((#[trigger] out[k]).is_axis <==> out[k].index
        == 0) by {
        if k < vc {
            assert(vertical_line_at(gs, rect, zoom, vs + k, out[k]));
        } else {
            assert(horizontal_line_at(gs, rect, zoom, hs + (k - vc), out[k]));
        }
    }

    lemma_grid_coverage(gs, rect, zoom, out, 0);
    assert((rect.left.num * sp.den <= 0) <==> rect.left.num <= 0) by (nonlinear_arith)
        requires
            sp.den > 0,
    ;
    assert((0 <= rect.right.num * sp.den) <==> 0 <= rect.right.num) by (nonlinear_arith)
        requires
            sp.den > 0,
    ;
    assert((rect.bottom.num * sp.den <= 0) <==> rect.bottom.num <= 0) by (nonlinear_arith)
        requires
            sp.den > 0,
    ;
    assert((0 <= rect.top.num * sp.den) <==> 0 <= rect.top.num) by (nonlinear_arith)
        requires
            sp.den > 0,
    ;
    assert(0 * sp.num == 0);
    assert(le_frac(rect.left.num as int, rect.left.den as int, 0 * sp.num, sp.den as int)
        <==> rect.left.num * sp.den <= 0);
    assert(le_frac(0 * sp.num, sp.den as int, rect.right.num as int, rect.right.den as int)
        <==> 0 <= rect.right.num * sp.den);
    assert(le_frac(rect.bottom.num as int, rect.bottom.den as int, 0 * sp.num, sp.den as int)
        <==> rect.bottom.num * sp.den <= 0);
    assert(le_frac(0 * sp.num, sp.den as int, rect.top.num as int, rect.top.den as int)
        <==> 0 <= rect.top.num * sp.den);

    assert forall|k1: int, k2: int|
        (0 <= k1 < out.len() && 0 <= k2 < out.len() && (#[trigger] out[k1]).orientation
            == Orientation::Vertical && out[k1].index == 0 && (#[trigger] out[k2]).orientation
            == Orientation::Vertical && out[k2].index == 0) implies k1 == k2 by {
        if k1 >= vc {
            assert(horizontal_line_at(gs, rect, zoom, hs + (k1 - vc), out[k1]));
        }
        if k2 >= vc {
            assert(horizontal_line_at(gs, rect, zoom, hs + (k2 - vc), out[k2]));
        }
        assert(vertical_line_at(gs, rect, zoom, vs + k1, out[k1]));
        assert(vertical_line_at(gs, rect, zoom, vs + k2, out[k2]));
    }
    assert forall|k1: int, k2: int|
        (0 <= k1 < out.len() && 0 <= k2 < out.len() && (#[trigger] out[k1]).orientation
            == Orientation::Horizontal && out[k1].index == 0 && (#[trigger] out[k2]).orientation
            == Orientation::Horizontal && out[k2].index == 0) implies k1 == k2 by {
        if k1 < vc {
            assert(vertical_line_at(gs, rect, zoom, vs + k1, out[k1]));
        }
        if k2 < vc {
            assert(vertical_line_at(gs, rect, zoom, vs + k2, out[k2]));
        }
        assert(horizontal_line_at(gs, rect, zoom, hs + (k1 - vc), out[k1]));
        assert(horizontal_line_at(gs, rect, zoom, hs + (k2 - vc), out[k2]));
    }
}

} // verus!
