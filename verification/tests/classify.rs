use boost_meter::bounds::find_boost_meter_bounds_within_area;
use boost_meter::bounds::BoundsResult;
use boost_meter::color::is_gray;
use boost_meter::color::is_red;
use boost_meter::color::is_red_or_gray;
use boost_meter::fill::count_bar_column;
use boost_meter::fill::BarCounts;

const RED: (u8, u8, u8) = (0xF5, 0x00, 0x00);
const GRAY: (u8, u8, u8) = (0x5F, 0x5E, 0x5F);

fn set_px(buf: &mut [u8], w: usize, x: usize, y: usize, rgb: (u8, u8, u8)) {
    let i = (y * w + x) * 4;
    buf[i] = rgb.0;
    buf[i + 1] = rgb.1;
    buf[i + 2] = rgb.2;
    buf[i + 3] = 0xFF;
}

#[test]
fn red_pixel_classifies_as_filled_for_any_alpha() {
    assert!(is_red(0xF5, 0x00, 0x00, 0xFF));
    assert!(is_red(0xF5, 0x00, 0x00, 0x00));
    assert!(is_red(0xF5, 0x00, 0x00, 0x7A));
    assert!(is_red_or_gray(0xF5, 0x00, 0x00, 0x13));
    assert!(!is_gray(0xF5, 0x00, 0x00, 0xFF));
}

#[test]
fn gray_pixel_classifies_as_empty_for_any_alpha() {
    assert!(is_gray(0x5F, 0x5E, 0x5F, 0xFF));
    assert!(is_gray(0x5F, 0x5E, 0x5F, 0x00));
    assert!(is_gray(0x5F, 0x5E, 0x5F, 0xC4));
    assert!(is_red_or_gray(0x5F, 0x5E, 0x5F, 0x00));
    assert!(!is_red(0x5F, 0x5E, 0x5F, 0xFF));
}

#[test]
fn near_miss_colors_are_neither_red_nor_gray() {
    // One byte off in each channel must fail the exact-equality classifier.
    assert!(!is_red_or_gray(0xF4, 0x00, 0x00, 0xFF));
    assert!(!is_red_or_gray(0xF5, 0x01, 0x00, 0xFF));
    assert!(!is_red_or_gray(0xF5, 0x00, 0x01, 0xFF));
    assert!(!is_red_or_gray(0x5F, 0x5F, 0x5F, 0xFF));
    assert!(!is_red_or_gray(0x5E, 0x5E, 0x5F, 0xFF));
    assert!(!is_red_or_gray(0x00, 0x00, 0x00, 0xFF));
    assert!(!is_red_or_gray(0xFF, 0xFF, 0xFF, 0xFF));
}

#[test]
fn search_finds_single_red_pixel() {
    let w = 8usize;
    let mut buf = vec![0u8; w * 8 * 4];
    set_px(&mut buf, w, 5, 3, RED);
    let r = find_boost_meter_bounds_within_area(&buf, 8, 0, 8, 1, 0, 8, 1);
    assert_eq!(r, BoundsResult::Found { left: 5, top: 3, right: 5, bottom: 3 });
}

#[test]
fn search_tracks_extremes_of_red_and_gray_hits() {
    let w = 8usize;
    let mut buf = vec![0u8; w * 8 * 4];
    set_px(&mut buf, w, 1, 2, RED);
    set_px(&mut buf, w, 6, 5, GRAY);
    set_px(&mut buf, w, 3, 7, RED);
    let r = find_boost_meter_bounds_within_area(&buf, 8, 0, 8, 1, 0, 8, 1);
    assert_eq!(r, BoundsResult::Found { left: 1, top: 2, right: 6, bottom: 7 });
}

#[test]
fn search_without_gauge_colors_finds_nothing() {
    let w = 8usize;
    let mut buf = vec![0u8; w * 8 * 4];
    set_px(&mut buf, w, 2, 2, (0x10, 0x20, 0x30));
    let r = find_boost_meter_bounds_within_area(&buf, 8, 0, 8, 1, 0, 8, 1);
    assert_eq!(r, BoundsResult::NotFound);
}

#[test]
fn search_respects_sampling_steps() {
    // Step 2 starting at x = 0 samples only even columns: a hit on an odd
    // column is invisible to this scan.
    let w = 8usize;
    let mut buf = vec![0u8; w * 8 * 4];
    set_px(&mut buf, w, 3, 2, RED);
    let sparse = find_boost_meter_bounds_within_area(&buf, 8, 0, 8, 2, 0, 8, 2);
    assert_eq!(sparse, BoundsResult::NotFound);
    set_px(&mut buf, w, 4, 2, RED);
    let sparse2 = find_boost_meter_bounds_within_area(&buf, 8, 0, 8, 2, 0, 8, 2);
    assert_eq!(sparse2, BoundsResult::Found { left: 4, top: 2, right: 4, bottom: 2 });
}

#[test]
fn search_skips_bytes_past_the_buffer() {
    // Only the first two pixels of this 4x4 frame are actually backed by
    // bytes; coordinates whose index falls outside are skipped, not read.
    let mut buf = vec![0u8; 10];
    set_px(&mut buf[0..8], 4, 1, 0, RED);
    let r = find_boost_meter_bounds_within_area(&buf, 4, 0, 4, 1, 0, 4, 1);
    assert_eq!(r, BoundsResult::Found { left: 1, top: 0, right: 1, bottom: 0 });
}

#[test]
fn search_index_wraps_negative_column_into_previous_row() {
    // The bounds check is on the byte index alone: column -1 of row 2 maps
    // to the last pixel of row 1, and a hit there is recorded at (-1, 2).
    let w = 4usize;
    let mut buf = vec![0u8; w * 4 * 4];
    set_px(&mut buf, w, 3, 1, RED);
    let r = find_boost_meter_bounds_within_area(&buf, 4, -1, 0, 1, 2, 3, 1);
    assert_eq!(r, BoundsResult::Found { left: -1, top: 2, right: -1, bottom: 2 });
}

#[test]
fn column_counts_gray_as_empty_and_everything_else_as_filled() {
    let w = 4usize;
    let mut buf = vec![0u8; w * 8 * 4];
    // Column 2, rows 0..8: rows 0-2 red, rows 3-6 gray, row 7 black.
    for y in 0..3 {
        set_px(&mut buf, w, 2, y, RED);
    }
    for y in 3..7 {
        set_px(&mut buf, w, 2, y, GRAY);
    }
    let r = count_bar_column(&buf, 4, 2, 0, 8);
    assert_eq!(r, BarCounts { filled: 4, total: 8 });
}

#[test]
fn column_skips_rows_past_the_buffer() {
    let w = 4usize;
    // Only 4 rows of bytes, but the walk asks for 8: the last 4 are skipped.
    let mut buf = vec![0u8; w * 4 * 4];
    for y in 0..4 {
        set_px(&mut buf, w, 1, y, GRAY);
    }
    let r = count_bar_column(&buf, 4, 1, 0, 8);
    assert_eq!(r, BarCounts { filled: 0, total: 4 });
}
