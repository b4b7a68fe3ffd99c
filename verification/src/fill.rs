//! Fill-ratio estimation for the three gauge bars.
//!
//! Once the gauge's box is found, three vertical columns of the box — at
//! one, five and nine tenths of its width — are walked row by row.  A row
//! whose pixel is the gauge's gray counts as empty; every other readable row
//! counts as filled, deliberately: inside a bar the only expected colors are
//! red, gray and a thin black cutoff line, and the cutoff belongs to the
//! filled part.  Each bar's fill is reported as the exact pair of counts
//! (filled rows, rows seen), so a caller may form the ratio without any
//! rounding here.

use vstd::prelude::*;

use crate::bounds::find_boost_meter_screen_bounds;
use crate::bounds::lemma_screen_bounds_range;
use crate::bounds::lemma_wide_mul_bounds;
use crate::bounds::pixel_gray;
use crate::bounds::pixel_readable;
use crate::bounds::screen_bounds_model;
use crate::bounds::step_x_of;
use crate::bounds::step_y_of;
use crate::bounds::BoundsModel;
use crate::bounds::BoundsResult;
use crate::bounds::MAX_UI_SCALE_HUNDREDTHS;
use crate::color::is_gray;
use vstd::slice::slice_index_get;

verus! {

/// Rows y ∈ [`y`, `y_end`) at column `x` whose pixel is readable and gray.
pub open spec fn gray_rows(buf: Seq<u8>, width: int, x: int, y: int, y_end: int) -> int
    decreases y_end - y,
{
    if y >= y_end {
        0
    } else {
        (if pixel_gray(buf, width, x, y) {
            1int
        } else {
            0
        }) + gray_rows(buf, width, x, y + 1, y_end)
    }
}

/// Rows y ∈ [`y`, `y_end`) at column `x` whose pixel is readable at all.
pub open spec fn seen_rows(buf: Seq<u8>, width: int, x: int, y: int, y_end: int) -> int
    decreases y_end - y,
{
    if y >= y_end {
        0
    } else {
        (if pixel_readable(buf.len() as int, width, x, y) {
            1int
        } else {
            0
        }) + seen_rows(buf, width, x, y + 1, y_end)
    }
}

/// Exact fill of one bar: how many rows were seen, and how many of them are
/// filled (that is, anything but the gauge's gray).
pub struct BarCountsModel {
    pub filled: int,
    pub total: int,
}

/// The counts that walking column `x` over rows [`top`, `bottom`) yields.
pub open spec fn bar_counts_of(
    buf: Seq<u8>,
    width: int,
    x: int,
    top: int,
    bottom: int,
) -> BarCountsModel {
    BarCountsModel {
        filled: seen_rows(buf, width, x, top, bottom) - gray_rows(buf, width, x, top, bottom),
        total: seen_rows(buf, width, x, top, bottom),
    }
}

/// The sample column for one bar: `tenths` tenths of the way across the box,
/// rounded down.
pub open spec fn bar_column(left: int, area_width: int, tenths: int) -> int {
    left + area_width * tenths / 10
}

/// Mathematical model of one whole estimate: either no valid gauge box was
/// found (all three bars are to be read as empty), or the box together with
/// the exact counts of its three sample columns.
pub enum FillModel {
    NoGauge,
    Gauge {
        left: int,
        top: int,
        right: int,
        bottom: int,
        bar1: BarCountsModel,
        bar2: BarCountsModel,
        bar3: BarCountsModel,
    },
}

/// The whole pipeline on one frame: find the gauge's box; if its width and
/// height are positive, sample the three bars at one, five and nine tenths
/// of the box's width.
pub open spec fn fill_model(buf: Seq<u8>, width: int, height: int, scale_hundredths: int) -> FillModel {
    let found = screen_bounds_model(
        buf,
        width,
        height,
        step_x_of(scale_hundredths),
        step_y_of(scale_hundredths),
    );
    match found {
        BoundsModel::NotFound => FillModel::NoGauge,
        BoundsModel::Found { left, top, right, bottom } => if right - left <= 0 || bottom - top
            <= 0 {
            FillModel::NoGauge
        } else {
            let aw = right - left;
            FillModel::Gauge {
                left,
                top,
                right,
                bottom,
                bar1: bar_counts_of(buf, width, bar_column(left, aw, 1), top, bottom),
                bar2: bar_counts_of(buf, width, bar_column(left, aw, 5), top, bottom),
                bar3: bar_counts_of(buf, width, bar_column(left, aw, 9), top, bottom),
            }
        },
    }
}

/// Exact fill of one bar, in machine integers.
#[derive(Clone, Copy, Debug, PartialEq, Eq, Structural)]
pub struct BarCounts {
    pub filled: usize,
    pub total: usize,
}

impl View for BarCounts {
    type V = BarCountsModel;

    open spec fn view(&self) -> BarCountsModel {
        BarCountsModel { filled: self.filled as int, total: self.total as int }
    }
}

/// Outcome of one whole estimate, in machine integers.
#[derive(Clone, Copy, Debug, PartialEq, Eq, Structural)]
pub enum FillAmounts {
    NoGauge,
    Gauge {
        left: isize,
        top: isize,
        right: isize,
        bottom: isize,
        bar1: BarCounts,
        bar2: BarCounts,
        bar3: BarCounts,
    },
}

impl View for FillAmounts {
    type V = FillModel;

    open spec fn view(&self) -> FillModel {
        match *self {
            FillAmounts::NoGauge => FillModel::NoGauge,
            FillAmounts::Gauge { left, top, right, bottom, bar1, bar2, bar3 } => FillModel::Gauge {
                left: left as int,
                top: top as int,
                right: right as int,
                bottom: bottom as int,
                bar1: bar1@,
                bar2: bar2@,
                bar3: bar3@,
            },
        }
    }
}

/// Counts are well formed: at most one gray row per row, so a bar's fill is
/// never negative and never exceeds the rows seen, which never exceed the
/// rows walked.  A caller forming the ratio filled/total therefore always
/// lands in [0, 1].
pub proof fn lemma_bar_counts_bounds(buf: Seq<u8>, width: int, x: int, top: int, bottom: int)
    requires
        top <= bottom,
    ensures
        0 <= gray_rows(buf, width, x, top, bottom) <= seen_rows(buf, width, x, top, bottom)
            <= bottom - top,
    decreases bottom - top,
{
    if top >= bottom {
    } else {
        lemma_bar_counts_bounds(buf, width, x, top + 1, bottom);
    }
}

/// On a well-formed frame — a buffer that holds all of the first `bottom`
/// rows — a column inside the frame is readable on every row walked, so a
/// bar's total is exactly the box's height and the fill ratio's denominator
/// can never be zero for a box of positive height.
pub proof fn lemma_full_buffer_counts_all_rows(
    buf: Seq<u8>,
    width: int,
    x: int,
    top: int,
    bottom: int,
)
    requires
        1 <= width,
        0 <= x < width,
        0 <= top <= bottom,
        bottom * width * 4 <= buf.len(),
    ensures
        seen_rows(buf, width, x, top, bottom) == bottom - top,
    decreases bottom - top,
{
    if top >= bottom {
    } else {
        assert(0 <= top * width + x && (top * width + x) * 4 + 4 <= bottom * width * 4)
            by (nonlinear_arith)
            requires
                0 <= top,
                top < bottom,
                1 <= width,
                0 <= x < width,
        ;
        assert(pixel_readable(buf.len() as int, width, x, top));
        lemma_full_buffer_counts_all_rows(buf, width, x, top + 1, bottom);
    }
}

/// If no pixel of the frame's lower-right quadrant shows a gauge color, the
/// search reports no gauge, and the estimate reads every bar as empty — and
/// carries no box for a caller to report.
pub proof fn lemma_quadrant_without_gauge_colors_yields_no_gauge(
    buf: Seq<u8>,
    width: int,
    height: int,
    scale_hundredths: int,
)
    requires
        1 <= width,
        1 <= height,
        forall|x: int, y: int|
            width / 2 <= x < width && height / 2 <= y < height ==> !crate::bounds::pixel_hit(
                buf,
                width,
                x,
                y,
            ),
    ensures
        screen_bounds_model(
            buf,
            width,
            height,
            step_x_of(scale_hundredths),
            step_y_of(scale_hundredths),
        ) == BoundsModel::NotFound,
        fill_model(buf, width, height, scale_hundredths) == FillModel::NoGauge,
{
    crate::bounds::lemma_scan_area_no_hits(
        buf,
        width,
        width / 2,
        width,
        step_x_of(scale_hundredths),
        height / 2,
        height,
        step_y_of(scale_hundredths),
    );
}

/// Walk rows [`top`, `bottom`) of column `x` and count how many are seen and
/// how many of the seen rows are filled (not the gauge's gray).  Rows whose
/// byte index falls outside the buffer are skipped.
#[verifier::loop_isolation(false)]
pub fn count_bar_column(
    rgba_values: &[u8],
    width: isize,
    x: isize,
    top: isize,
    bottom: isize,
) -> (r: BarCounts)
    ensures
        r@ == bar_counts_of(rgba_values@, width as int, x as int, top as int, bottom as int),
{
    let ghost buf = rgba_values@;
    let ghost w_g = width as int;
    let ghost x_g = x as int;
    let ghost t_g = top as int;
    let ghost b_g = bottom as int;

    // As in the bounding-box scan, the byte index is formed in 128-bit
    // arithmetic and checked against the buffer before any read.
    let len: usize = rgba_values.len();
    let w: i128 = width as i128;
    let xc: i128 = x as i128;
    let bot: i128 = bottom as i128;
    let mut gray_count: usize = 0;
    let mut seen_count: usize = 0;
    let mut y: i128 = top as i128;
    while y < bot
        invariant
            top as i128 <= y,
            gray_count <= seen_count,
            seen_count <= y - top as i128,
            seen_count + seen_rows(buf, w_g, x_g, y as int, b_g) == seen_rows(
                buf,
                w_g,
                x_g,
                t_g,
                b_g,
            ),
            gray_count + gray_rows(buf, w_g, x_g, y as int, b_g) == gray_rows(
                buf,
                w_g,
                x_g,
                t_g,
                b_g,
            ),
        decreases bot - y,
    {
        proof {
            lemma_wide_mul_bounds(y as int, w as int);
        }
        let idx: i128 = y * w + xc;
        if 0 <= idx && idx < 0x4000_0000_0000_0000i128 {
            let r4: i128 = idx * 4;
            if r4 + 4 <= len as i128 {
                let ri: usize = r4 as usize;
                let rr: u8 = *slice_index_get(rgba_values, ri);
                let gg: u8 = *slice_index_get(rgba_values, ri + 1);
                let bb: u8 = *slice_index_get(rgba_values, ri + 2);
                let aa: u8 = *slice_index_get(rgba_values, ri + 3);
                seen_count = seen_count + 1;
                if is_gray(rr, gg, bb, aa) {
                    gray_count = gray_count + 1;
                }
            } else {
                proof {
                    assert(!pixel_readable(buf.len() as int, w_g, x_g, y as int));
                }
            }
        } else {
            proof {
                if idx < 0 {
                    assert(!pixel_readable(buf.len() as int, w_g, x_g, y as int));
                } else {
                    assert(crate::bounds::red_index(w_g, x_g, y as int) + 4 > buf.len() as int);
                    assert(!pixel_readable(buf.len() as int, w_g, x_g, y as int));
                }
            }
        }
        y = y + 1;
    }
    BarCounts { filled: seen_count - gray_count, total: seen_count }
}

/// Estimate the fill of the three gauge bars in one frame.  The UI scale is
/// given in hundredths (100 is the 1080p reference scale).  Runs the
/// two-pass bounding-box search; if the discovered box has positive width
/// and height, the box is part of the result (so a caller can report where
/// the gauge was found) together with the exact fill counts of the three
/// sample columns; otherwise the gauge is absent and all bars read empty.
pub fn calculate_boost_fill_amounts(
    rgba_values: &[u8],
    width: isize,
    height: isize,
    ui_scale_hundredths: u32,
) -> (r: FillAmounts)
    requires
        1 <= width,
        1 <= height,
        1 <= ui_scale_hundredths <= MAX_UI_SCALE_HUNDREDTHS,
    ensures
        r@ == fill_model(rgba_values@, width as int, height as int, ui_scale_hundredths as int),
{
    let ghost buf = rgba_values@;
    let ghost w_g = width as int;
    let ghost h_g = height as int;
    let ghost sx_g = step_x_of(ui_scale_hundredths as int);
    let ghost sy_g = step_y_of(ui_scale_hundredths as int);

    let found = find_boost_meter_screen_bounds(rgba_values, width, height, ui_scale_hundredths);
    match found {
        BoundsResult::NotFound => FillAmounts::NoGauge,
        BoundsResult::Found { left, top, right, bottom } => {
            proof {
                assert(sx_g <= 121_500_000);
                assert(sy_g <= 499_500_000);
                lemma_screen_bounds_range(buf, w_g, h_g, sx_g, sy_g);
            }
            if right <= left || bottom <= top {
                FillAmounts::NoGauge
            } else {
                let aw: isize = right - left;
                let aw128: i128 = aw as i128;
                let l128: i128 = left as i128;
                let x1: isize = (l128 + aw128 * 1 / 10) as isize;
                let x2: isize = (l128 + aw128 * 5 / 10) as isize;
                let x3: isize = (l128 + aw128 * 9 / 10) as isize;
                proof {
                    assert(x1 as int == bar_column(left as int, aw as int, 1));
                    assert(x2 as int == bar_column(left as int, aw as int, 5));
                    assert(x3 as int == bar_column(left as int, aw as int, 9));
                }
                let bar1 = count_bar_column(rgba_values, width, x1, top, bottom);
                let bar2 = count_bar_column(rgba_values, width, x2, top, bottom);
                let bar3 = count_bar_column(rgba_values, width, x3, top, bottom);
                FillAmounts::Gauge { left, top, right, bottom, bar1, bar2, bar3 }
            }
        },
    }
}

} // verus!
