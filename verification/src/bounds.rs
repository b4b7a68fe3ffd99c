//! Discovery of the gauge's bounding box.
//!
//! A frame is a tightly packed RGBA8 buffer: the pixel at column `x`, row `y`
//! starts at byte `(y * width + x) * 4`.  The search walks a rectangle of
//! coordinates on a sampling grid, classifies each readable pixel, and keeps
//! the smallest box that encloses every red-or-gray hit.  Coordinates may lie
//! outside the frame transiently; any coordinate whose byte index does not
//! fall inside the buffer is skipped rather than reported as an error.

use vstd::prelude::*;

use crate::color::is_gray_spec;
use crate::color::is_red_or_gray;
use crate::color::is_red_or_gray_spec;
use vstd::slice::slice_index_get;

verus! {

/// Flat pixel index of column `x`, row `y` in a frame `width` pixels wide.
pub open spec fn flat_index(width: int, x: int, y: int) -> int {
    y * width + x
}

/// Byte index of the R byte of the pixel at (`x`, `y`).
pub open spec fn red_index(width: int, x: int, y: int) -> int {
    flat_index(width, x, y) * 4
}

/// All four bytes of the pixel at (`x`, `y`) lie inside a buffer of `len`
/// bytes.  Mirrors the defensive skip of the scan: a negative flat index or
/// one past the end of the buffer is simply not a readable pixel.
pub open spec fn pixel_readable(len: int, width: int, x: int, y: int) -> bool {
    0 <= flat_index(width, x, y) && red_index(width, x, y) + 4 <= len
}

/// The pixel at (`x`, `y`) is readable and shows one of the gauge's two
/// colors (red or gray).
pub open spec fn pixel_hit(buf: Seq<u8>, width: int, x: int, y: int) -> bool {
    pixel_readable(buf.len() as int, width, x, y) && is_red_or_gray_spec(
        buf[red_index(width, x, y)],
        buf[red_index(width, x, y) + 1],
        buf[red_index(width, x, y) + 2],
    )
}

/// The pixel at (`x`, `y`) is readable and shows the gauge's "empty" gray.
pub open spec fn pixel_gray(buf: Seq<u8>, width: int, x: int, y: int) -> bool {
    pixel_readable(buf.len() as int, width, x, y) && is_gray_spec(
        buf[red_index(width, x, y)],
        buf[red_index(width, x, y) + 1],
        buf[red_index(width, x, y) + 2],
    )
}

/// Mathematical model of a search outcome: either no gauge-colored pixel was
/// seen, or the smallest box (inclusive coordinates) enclosing all hits.
pub enum BoundsModel {
    NotFound,
    Found { left: int, top: int, right: int, bottom: int },
}

/// The box that encloses exactly one hit.
pub open spec fn point_box(x: int, y: int) -> BoundsModel {
    BoundsModel::Found { left: x, top: y, right: x, bottom: y }
}

/// The smallest box enclosing two outcomes; `NotFound` is the unit.
pub open spec fn join_bounds(a: BoundsModel, b: BoundsModel) -> BoundsModel {
    match (a, b) {
        (BoundsModel::NotFound, _) => b,
        (_, BoundsModel::NotFound) => a,
        (
            BoundsModel::Found { left: al, top: at, right: ar, bottom: ab },
            BoundsModel::Found { left: bl, top: bt, right: br, bottom: bb },
        ) => BoundsModel::Found {
            left: if al <= bl { al } else { bl },
            top: if at <= bt { at } else { bt },
            right: if ar >= br { ar } else { br },
            bottom: if ab >= bb { ab } else { bb },
        },
    }
}

/// Joining is associative, so a scan may fold its hits in any grouping.
pub proof fn lemma_join_bounds_assoc(a: BoundsModel, b: BoundsModel, c: BoundsModel)
    ensures
        join_bounds(a, join_bounds(b, c)) == join_bounds(join_bounds(a, b), c),
{
}

/// Hits in one column of the sampling grid: rows `y`, `y + y_step`, ... up to
/// (but excluding) `y_end`, all at column `x`.
pub open spec fn scan_column(
    buf: Seq<u8>,
    width: int,
    x: int,
    y: int,
    y_end: int,
    y_step: int,
) -> BoundsModel
    decreases y_end - y,
{
    if y_step < 1 || y >= y_end {
        BoundsModel::NotFound
    } else {
        let y_next = if y + y_step < y_end {
            y + y_step
        } else {
            y_end
        };
        let rest = scan_column(buf, width, x, y_next, y_end, y_step);
        if pixel_hit(buf, width, x, y) {
            join_bounds(point_box(x, y), rest)
        } else {
            rest
        }
    }
}

/// Hits on the whole sampling grid: columns `x`, `x + x_step`, ... up to
/// (but excluding) `x_end`, each scanned over rows `[y_start, y_end)` with
/// step `y_step`.
pub open spec fn scan_area(
    buf: Seq<u8>,
    width: int,
    x: int,
    x_end: int,
    x_step: int,
    y_start: int,
    y_end: int,
    y_step: int,
) -> BoundsModel
    decreases x_end - x,
{
    if x_step < 1 || x >= x_end {
        BoundsModel::NotFound
    } else {
        let x_next = if x + x_step < x_end {
            x + x_step
        } else {
            x_end
        };
        join_bounds(
            scan_column(buf, width, x, y_start, y_end, y_step),
            scan_area(buf, width, x_next, x_end, x_step, y_start, y_end, y_step),
        )
    }
}

/// Outcome of a bounding-box search, in machine integers.
#[derive(Clone, Copy, Debug, PartialEq, Eq, Structural)]
pub enum BoundsResult {
    NotFound,
    Found { left: isize, top: isize, right: isize, bottom: isize },
}

impl View for BoundsResult {
    type V = BoundsModel;

    open spec fn view(&self) -> BoundsModel {
        match *self {
            BoundsResult::NotFound => BoundsModel::NotFound,
            BoundsResult::Found { left, top, right, bottom } => BoundsModel::Found {
                left: left as int,
                top: top as int,
                right: right as int,
                bottom: bottom as int,
            },
        }
    }
}

/// The smallest box enclosing two search outcomes.
pub fn join_boxes(a: BoundsResult, b: BoundsResult) -> (r: BoundsResult)
    ensures
        r@ == join_bounds(a@, b@),
{
    match (a, b) {
        (BoundsResult::NotFound, _) => b,
        (_, BoundsResult::NotFound) => a,
        (
            BoundsResult::Found { left: al, top: at, right: ar, bottom: ab },
            BoundsResult::Found { left: bl, top: bt, right: br, bottom: bb },
        ) => BoundsResult::Found {
            left: if al <= bl { al } else { bl },
            top: if at <= bt { at } else { bt },
            right: if ar >= br { ar } else { br },
            bottom: if ab >= bb { ab } else { bb },
        },
    }
}

/// The product of two word-sized integers fits comfortably in an `i128`.
pub(crate) proof fn lemma_wide_mul_bounds(a: int, b: int)
    by (nonlinear_arith)
    requires
        -0x8000_0000_0000_0000 <= a <= 0x8000_0000_0000_0000,
        -0x8000_0000_0000_0000 <= b <= 0x8000_0000_0000_0000,
    ensures
        -0x4000_0000_0000_0000_0000_0000_0000_0000 <= a * b
            <= 0x4000_0000_0000_0000_0000_0000_0000_0000,
{
}

/// Walk the coordinates x ∈ [`x_start`, `x_end`) in steps of `x_step` and
/// y ∈ [`y_start`, `y_end`) in steps of `y_step`, and return the smallest
/// box enclosing every coordinate whose pixel is red or gray.  Coordinates
/// whose byte index falls outside the buffer are skipped.  Both steps must
/// be at least one pixel, or the walk would never advance.
#[verifier::loop_isolation(false)]
pub fn find_boost_meter_bounds_within_area(
    rgba_values: &[u8],
    width: isize,
    x_start: isize,
    x_end: isize,
    x_step: usize,
    y_start: isize,
    y_end: isize,
    y_step: usize,
) -> (r: BoundsResult)
    requires
        1 <= x_step,
        1 <= y_step,
    ensures
        r@ == scan_area(
            rgba_values@,
            width as int,
            x_start as int,
            x_end as int,
            x_step as int,
            y_start as int,
            y_end as int,
            y_step as int,
        ),
{
    let ghost buf = rgba_values@;
    let ghost w_g = width as int;
    let ghost xe_g = x_end as int;
    let ghost xstep_g = x_step as int;
    let ghost ys_g = y_start as int;
    let ghost ye_g = y_end as int;
    let ghost ystep_g = y_step as int;
    let ghost total = scan_area(buf, w_g, x_start as int, xe_g, xstep_g, ys_g, ye_g, ystep_g);

    // Coordinates may lie far outside the frame, so the byte index is formed
    // in 128-bit arithmetic: it has to be computed exactly, never wrapped,
    // before it is checked against the buffer.  An index of 2^62 pixels or
    // more cannot fall inside any buffer and is rejected outright.
    let len: usize = rgba_values.len();
    let w: i128 = width as i128;
    let xe: i128 = x_end as i128;
    let ye: i128 = y_end as i128;
    let ys: i128 = y_start as i128;
    let xstep: i128 = x_step as i128;
    let ystep: i128 = y_step as i128;

    let mut acc = BoundsResult::NotFound;
    let mut x: i128 = x_start as i128;
    while x < xe
        invariant
            x_start as i128 <= x,
            join_bounds(acc@, scan_area(buf, w_g, x as int, xe_g, xstep_g, ys_g, ye_g, ystep_g))
                == total,
        decreases (if x < xe { xe - x } else { 0 }),
    {
        let ghost x_next_g: int = if x + xstep < xe {
            x as int + xstep_g
        } else {
            xe_g
        };
        let ghost rest = scan_area(buf, w_g, x_next_g, xe_g, xstep_g, ys_g, ye_g, ystep_g);
        proof {
            assert(scan_area(buf, w_g, x as int, xe_g, xstep_g, ys_g, ye_g, ystep_g)
                == join_bounds(scan_column(buf, w_g, x as int, ys_g, ye_g, ystep_g), rest));
        }
        let mut y: i128 = ys;
        while y < ye
            invariant
                ys <= y,
                x < xe,
                join_bounds(
                    acc@,
                    join_bounds(scan_column(buf, w_g, x as int, y as int, ye_g, ystep_g), rest),
                ) == total,
            decreases (if y < ye { ye - y } else { 0 }),
        {
            proof {
                lemma_wide_mul_bounds(y as int, w as int);
            }
            let idx: i128 = y * w + x;
            let ghost col_rest = scan_column(
                buf,
                w_g,
                x as int,
                if y + ystep < ye {
                    y as int + ystep_g
                } else {
                    ye_g
                },
                ye_g,
                ystep_g,
            );
            if 0 <= idx && idx < 0x4000_0000_0000_0000i128 {
                let r4: i128 = idx * 4;
                if r4 + 4 <= len as i128 {
                    let ri: usize = r4 as usize;
                    let rr: u8 = *slice_index_get(rgba_values, ri);
                    let gg: u8 = *slice_index_get(rgba_values, ri + 1);
                    let bb: u8 = *slice_index_get(rgba_values, ri + 2);
                    let aa: u8 = *slice_index_get(rgba_values, ri + 3);
                    if is_red_or_gray(rr, gg, bb, aa) {
                        proof {
                            assert(pixel_hit(buf, w_g, x as int, y as int));
                            assert(scan_column(buf, w_g, x as int, y as int, ye_g, ystep_g)
                                == join_bounds(point_box(x as int, y as int), col_rest));
                            lemma_join_bounds_assoc(
                                acc@,
                                point_box(x as int, y as int),
                                join_bounds(col_rest, rest),
                            );
                            lemma_join_bounds_assoc(point_box(x as int, y as int), col_rest, rest);
                        }
                        let p = BoundsResult::Found {
                            left: x as isize,
                            top: y as isize,
                            right: x as isize,
                            bottom: y as isize,
                        };
                        acc = join_boxes(acc, p);
                    } else {
                        proof {
                            assert(!pixel_hit(buf, w_g, x as int, y as int));
                        }
                    }
                } else {
                    proof {
                        assert(!pixel_readable(buf.len() as int, w_g, x as int, y as int));
                    }
                }
            } else {
                proof {
                    if idx < 0 {
                        assert(!pixel_readable(buf.len() as int, w_g, x as int, y as int));
                    } else {
                        assert(flat_index(w_g, x as int, y as int) >= 0x4000_0000_0000_0000);
                        assert(red_index(w_g, x as int, y as int) + 4 > buf.len() as int);
                        assert(!pixel_readable(buf.len() as int, w_g, x as int, y as int));
                    }
                }
            }
            y = y + ystep;
        }
        x = x + xstep;
    }
    acc
}

/// A column scan that finds a box found it at its own column, with top and
/// bottom rows that really are hits inside the scanned range.
pub proof fn lemma_scan_column_range(
    buf: Seq<u8>,
    width: int,
    x: int,
    y: int,
    y_end: int,
    y_step: int,
)
    ensures
        match scan_column(buf, width, x, y, y_end, y_step) {
            BoundsModel::NotFound => true,
            BoundsModel::Found { left, top, right, bottom } => left == x && right == x && y <= top
                <= bottom < y_end && pixel_hit(buf, width, x, top) && pixel_hit(
                buf,
                width,
                x,
                bottom,
            ),
        },
    decreases (if y < y_end { y_end - y } else { 0 }),
{
    if y_step < 1 || y >= y_end {
    } else {
        let y_next = if y + y_step < y_end {
            y + y_step
        } else {
            y_end
        };
        lemma_scan_column_range(buf, width, x, y_next, y_end, y_step);
    }
}

/// An area scan that finds a box found its four edges among real hits: each
/// edge coordinate is witnessed by a hit inside the scanned rectangle.
pub proof fn lemma_scan_area_range(
    buf: Seq<u8>,
    width: int,
    x: int,
    x_end: int,
    x_step: int,
    y_start: int,
    y_end: int,
    y_step: int,
)
    ensures
        match scan_area(buf, width, x, x_end, x_step, y_start, y_end, y_step) {
            BoundsModel::NotFound => true,
            BoundsModel::Found { left, top, right, bottom } => x <= left <= right < x_end
                && y_start <= top <= bottom < y_end && (exists|yy: int|
                y_start <= yy < y_end && pixel_hit(buf, width, left, yy)) && (exists|yy: int|
                y_start <= yy < y_end && pixel_hit(buf, width, right, yy)) && (exists|xx: int|
                x <= xx < x_end && pixel_hit(buf, width, xx, top)) && (exists|xx: int|
                x <= xx < x_end && pixel_hit(buf, width, xx, bottom)),
        },
    decreases (if x < x_end { x_end - x } else { 0 }),
{
    if x_step < 1 || x >= x_end {
    } else {
        let x_next = if x + x_step < x_end {
            x + x_step
        } else {
            x_end
        };
        lemma_scan_column_range(buf, width, x, y_start, y_end, y_step);
        lemma_scan_area_range(buf, width, x_next, x_end, x_step, y_start, y_end, y_step);
        let col = scan_column(buf, width, x, y_start, y_end, y_step);
        let rest = scan_area(buf, width, x_next, x_end, x_step, y_start, y_end, y_step);
        match (col, rest) {
            (BoundsModel::NotFound, BoundsModel::NotFound) => {
            },
            (BoundsModel::NotFound, BoundsModel::Found { left, top, right, bottom }) => {
                let xx_t = choose|xx: int|
                    x_next <= xx < x_end && pixel_hit(buf, width, xx, top);
                assert(x <= xx_t < x_end && pixel_hit(buf, width, xx_t, top));
                let xx_b = choose|xx: int|
                    x_next <= xx < x_end && pixel_hit(buf, width, xx, bottom);
                assert(x <= xx_b < x_end && pixel_hit(buf, width, xx_b, bottom));
            },
            (BoundsModel::Found { left, top, right, bottom }, BoundsModel::NotFound) => {
                assert(x <= x < x_end && pixel_hit(buf, width, x, top));
                assert(x <= x < x_end && pixel_hit(buf, width, x, bottom));
            },
            (
                BoundsModel::Found { left: cl, top: ct, right: cr, bottom: cb },
                BoundsModel::Found { left: rl, top: rt, right: rr, bottom: rb },
            ) => {
                assert(x <= x < x_end && pixel_hit(buf, width, x, ct));
                assert(x <= x < x_end && pixel_hit(buf, width, x, cb));
                let xx_t = choose|xx: int| x_next <= xx < x_end && pixel_hit(buf, width, xx, rt);
                let xx_b = choose|xx: int| x_next <= xx < x_end && pixel_hit(buf, width, xx, rb);
                assert(x <= xx_t < x_end && pixel_hit(buf, width, xx_t, rt));
                assert(x <= xx_b < x_end && pixel_hit(buf, width, xx_b, rb));
            },
        }
    }
}

/// A column scan over rows without a single gauge-colored pixel finds
/// nothing.
pub proof fn lemma_scan_column_no_hits(
    buf: Seq<u8>,
    width: int,
    x: int,
    y: int,
    y_end: int,
    y_step: int,
)
    requires
        forall|yy: int| y <= yy < y_end ==> !pixel_hit(buf, width, x, yy),
    ensures
        scan_column(buf, width, x, y, y_end, y_step) == BoundsModel::NotFound,
    decreases (if y < y_end { y_end - y } else { 0 }),
{
    if y_step < 1 || y >= y_end {
    } else {
        let y_next = if y + y_step < y_end {
            y + y_step
        } else {
            y_end
        };
        lemma_scan_column_no_hits(buf, width, x, y_next, y_end, y_step);
    }
}

/// An area scan over a rectangle without a single gauge-colored pixel finds
/// nothing.
pub proof fn lemma_scan_area_no_hits(
    buf: Seq<u8>,
    width: int,
    x: int,
    x_end: int,
    x_step: int,
    y_start: int,
    y_end: int,
    y_step: int,
)
    requires
        forall|xx: int, yy: int|
            x <= xx < x_end && y_start <= yy < y_end ==> !pixel_hit(buf, width, xx, yy),
    ensures
        scan_area(buf, width, x, x_end, x_step, y_start, y_end, y_step) == BoundsModel::NotFound,
    decreases (if x < x_end { x_end - x } else { 0 }),
{
    if x_step < 1 || x >= x_end {
    } else {
        let x_next = if x + x_step < x_end {
            x + x_step
        } else {
            x_end
        };
        lemma_scan_column_no_hits(buf, width, x, y_start, y_end, y_step);
        lemma_scan_area_no_hits(buf, width, x_next, x_end, x_step, y_start, y_end, y_step);
    }
}

/// An exhaustive (step one) column scan encloses every hit in its range.
pub proof fn lemma_scan_column_step1_contains(
    buf: Seq<u8>,
    width: int,
    x: int,
    y: int,
    y_end: int,
    yy: int,
)
    requires
        y <= yy < y_end,
        pixel_hit(buf, width, x, yy),
    ensures
        match scan_column(buf, width, x, y, y_end, 1) {
            BoundsModel::NotFound => false,
            BoundsModel::Found { left, top, right, bottom } => top <= yy <= bottom,
        },
    decreases yy - y,
{
    if y == yy {
    } else {
        lemma_scan_column_step1_contains(buf, width, x, y + 1, y_end, yy);
    }
}

/// An exhaustive (step one in both axes) area scan encloses every hit in its
/// rectangle.
pub proof fn lemma_scan_area_step1_contains(
    buf: Seq<u8>,
    width: int,
    x: int,
    x_end: int,
    y_start: int,
    y_end: int,
    xx: int,
    yy: int,
)
    requires
        x <= xx < x_end,
        y_start <= yy < y_end,
        pixel_hit(buf, width, xx, yy),
    ensures
        match scan_area(buf, width, x, x_end, 1, y_start, y_end, 1) {
            BoundsModel::NotFound => false,
            BoundsModel::Found { left, top, right, bottom } => left <= xx <= right && top <= yy
                <= bottom,
        },
    decreases xx - x,
{
    if x == xx {
        lemma_scan_column_step1_contains(buf, width, x, y_start, y_end, yy);
        lemma_scan_column_range(buf, width, x, y_start, y_end, 1);
    } else {
        lemma_scan_area_step1_contains(buf, width, x + 1, x_end, y_start, y_end, xx, yy);
    }
}

/// The point of the two-pass union: a gauge-colored pixel anywhere in the
/// refine window — even one the coarse grid never sampled — lies inside the
/// final box that the two-pass search reports.
pub proof fn lemma_refine_window_hit_contained(
    buf: Seq<u8>,
    width: int,
    height: int,
    sx: int,
    sy: int,
    cl: int,
    ct: int,
    cr: int,
    cb: int,
    xx: int,
    yy: int,
)
    requires
        scan_area(buf, width, width / 2, width, sx, height / 2, height, sy) == (BoundsModel::Found {
            left: cl,
            top: ct,
            right: cr,
            bottom: cb,
        }),
        cl < cr,
        ct < cb,
        cl - sx <= xx < cr + sx + 1,
        ct - sy <= yy < cb + sy + 1,
        pixel_hit(buf, width, xx, yy),
    ensures
        match screen_bounds_model(buf, width, height, sx, sy) {
            BoundsModel::NotFound => false,
            BoundsModel::Found { left, top, right, bottom } => left <= xx <= right && top <= yy
                <= bottom,
        },
{
    lemma_scan_area_step1_contains(buf, width, cl - sx, cr + sx + 1, ct - sy, cb + sy + 1, xx, yy);
}

/// Width in pixels of one gauge bar's colored area at the 1080p reference
/// resolution.
pub const BASE_BOOST_BAR_WIDTH: u64 = 27;

/// Height in pixels of one gauge bar's colored area at the 1080p reference
/// resolution.
pub const BASE_BOOST_BAR_HEIGHT: u64 = 111;

/// Largest accepted UI scale, in hundredths.  The cap is a machine limit: it
/// keeps the refine window's pixel coordinates and the discovered box's width
/// and height within `isize` on every supported architecture.  It still
/// allows a gauge nine million times the reference size.
pub const MAX_UI_SCALE_HUNDREDTHS: u32 = 900_000_000;

/// Horizontal sampling step for a UI scale given in hundredths: half the
/// reference bar width at that scale, rounded down, and at least one pixel.
pub open spec fn step_x_of(scale_hundredths: int) -> int {
    let raw = BASE_BOOST_BAR_WIDTH * scale_hundredths / 200;
    if raw < 1 {
        1
    } else {
        raw
    }
}

/// Vertical sampling step: half the reference bar height at the given scale,
/// rounded down, and at least one pixel.
pub open spec fn step_y_of(scale_hundredths: int) -> int {
    let raw = BASE_BOOST_BAR_HEIGHT * scale_hundredths / 200;
    if raw < 1 {
        1
    } else {
        raw
    }
}

/// The whole two-pass search: a coarse scan of the frame's lower-right
/// quadrant on the sampling grid; if it saw any hit, an exhaustive re-scan of
/// the coarse box expanded by one step in every direction; the final box is
/// the join of the two.  A degenerate coarse box (zero width or height) is
/// returned as found, without refinement.
pub open spec fn screen_bounds_model(
    buf: Seq<u8>,
    width: int,
    height: int,
    sx: int,
    sy: int,
) -> BoundsModel {
    let coarse = scan_area(buf, width, width / 2, width, sx, height / 2, height, sy);
    match coarse {
        BoundsModel::NotFound => BoundsModel::NotFound,
        BoundsModel::Found { left, top, right, bottom } => if left >= right || top >= bottom {
            coarse
        } else {
            join_bounds(
                coarse,
                scan_area(
                    buf,
                    width,
                    left - sx,
                    right + sx + 1,
                    1,
                    top - sy,
                    bottom + sy + 1,
                    1,
                ),
            )
        },
    }
}

/// A box found by the two-pass search stays within the coarse search region
/// padded by one sampling step in every direction.
pub proof fn lemma_screen_bounds_range(buf: Seq<u8>, width: int, height: int, sx: int, sy: int)
    requires
        1 <= width,
        1 <= height,
        1 <= sx,
        1 <= sy,
    ensures
        match screen_bounds_model(buf, width, height, sx, sy) {
            BoundsModel::NotFound => true,
            BoundsModel::Found { left, top, right, bottom } => width / 2 - sx <= left <= right
                < width + sx + 1 && height / 2 - sy <= top <= bottom < height + sy + 1,
        },
{
    let coarse = scan_area(buf, width, width / 2, width, sx, height / 2, height, sy);
    lemma_scan_area_range(buf, width, width / 2, width, sx, height / 2, height, sy);
    match coarse {
        BoundsModel::NotFound => {
        },
        BoundsModel::Found { left, top, right, bottom } => {
            if left >= right || top >= bottom {
            } else {
                lemma_scan_area_range(
                    buf,
                    width,
                    left - sx,
                    right + sx + 1,
                    1,
                    top - sy,
                    bottom + sy + 1,
                    1,
                );
            }
        },
    }
}

/// Find the gauge's bounding box in the lower-right quadrant of a frame.
/// The UI scale is given in hundredths (100 is the 1080p reference scale).
/// The sampling step is half the reference bar size at that scale, so the
/// coarse pass cannot step over a whole bar; the refine pass then tightens
/// the box by re-scanning its padded neighborhood exhaustively.
pub fn find_boost_meter_screen_bounds(
    rgba_values: &[u8],
    width: isize,
    height: isize,
    ui_scale_hundredths: u32,
) -> (r: BoundsResult)
    requires
        1 <= width,
        1 <= height,
        1 <= ui_scale_hundredths <= MAX_UI_SCALE_HUNDREDTHS,
    ensures
        r@ == screen_bounds_model(
            rgba_values@,
            width as int,
            height as int,
            step_x_of(ui_scale_hundredths as int),
            step_y_of(ui_scale_hundredths as int),
        ),
{
    let ghost buf = rgba_values@;
    let ghost w_g = width as int;
    let ghost h_g = height as int;
    let ghost sx_g = step_x_of(ui_scale_hundredths as int);
    let ghost sy_g = step_y_of(ui_scale_hundredths as int);

    let raw_x: u64 = BASE_BOOST_BAR_WIDTH * (ui_scale_hundredths as u64) / 200;
    let sample_step_x: usize = if raw_x < 1 {
        1
    } else {
        raw_x as usize
    };
    let raw_y: u64 = BASE_BOOST_BAR_HEIGHT * (ui_scale_hundredths as u64) / 200;
    let sample_step_y: usize = if raw_y < 1 {
        1
    } else {
        raw_y as usize
    };
    // The steps match the model, and with the scale capped they are small
    // enough that the padded refine window below stays within coordinates.
    assert(sample_step_x as int == sx_g && sx_g <= 135_000_000);
    assert(sample_step_y as int == sy_g && sy_g <= 555_000_000);

    let len: usize = rgba_values.len();
    let coarse = find_boost_meter_bounds_within_area(
        rgba_values,
        width,
        width / 2,
        width,
        sample_step_x,
        height / 2,
        height,
        sample_step_y,
    );
    match coarse {
        BoundsResult::NotFound => BoundsResult::NotFound,
        BoundsResult::Found { left, top, right, bottom } => {
            if left >= right || top >= bottom {
                coarse
            } else {
                proof {
                    // The coarse box's edges are coordinates of real hits,
                    // so their byte indices bound them: the padded window's
                    // corners below cannot leave the coordinate range.
                    lemma_scan_area_range(buf, w_g, w_g / 2, w_g, sx_g, h_g / 2, h_g, sy_g);
                    let r_g = right as int;
                    let b_g = bottom as int;
                    let yy = choose|yy: int|
                        h_g / 2 <= yy < h_g && pixel_hit(buf, w_g, r_g, yy);
                    assert(0 <= yy * w_g) by (nonlinear_arith)
                        requires
                            0 <= yy,
                            1 <= w_g,
                    ;
                    assert(r_g * 4 + 4 <= len);
                    let xx = choose|xx: int|
                        w_g / 2 <= xx < w_g && pixel_hit(buf, w_g, xx, b_g);
                    assert(b_g <= b_g * w_g) by (nonlinear_arith)
                        requires
                            0 <= b_g,
                            1 <= w_g,
                    ;
                    assert(b_g * 4 + 4 <= len);
                }
                let sx: isize = sample_step_x as isize;
                let sy: isize = sample_step_y as isize;
                let refined = find_boost_meter_bounds_within_area(
                    rgba_values,
                    width,
                    left - sx,
                    right + sx + 1,
                    1,
                    top - sy,
                    bottom + sy + 1,
                    1,
                );
                join_boxes(coarse, refined)
            }
        },
    }
}

} // verus!
