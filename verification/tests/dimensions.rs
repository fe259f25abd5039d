use pre::dimensions::{calculate_dimensions, usable_area};

/// The proportional sizes as the program computes them, in `f32`.
fn proportions(iw: u32, ih: u32, area: (u32, u32)) -> (u32, u32) {
    let a = iw as f32 / ih as f32;
    (
        (area.1 as f32 * a * 2.0).round() as u32,
        (area.0 as f32 / a / 2.0).round() as u32,
    )
}

/// The size on a terminal of `tw` x `th` cells, as the program computes it.
fn size(iw: u32, ih: u32, tw: u32, th: u32, by_height: bool, stretch: bool) -> (u32, u32) {
    let area = usable_area(tw, th);
    let (wr, rw) = proportions(iw, ih, area);
    calculate_dimensions(iw, ih, area.0, area.1, by_height, stretch, wr, rw)
}

#[test]
fn usable_area_keeps_a_row_for_the_prompt() {
    assert_eq!(usable_area(80, 24), (80, 23));
    assert_eq!(usable_area(0, 0), (1, 1));
    assert_eq!(usable_area(0, 1), (1, 1));
    assert_eq!(usable_area(5, 2), (5, 1));
}

#[test]
fn wide_picture_is_scaled_by_width() {
    // 100 x 50 pixels: 80 columns give 80 * 50 / 100 / 2 = 20 rows.
    assert_eq!(size(100, 50, 80, 24, false, false), (80, 20));
    assert_eq!(calculate_dimensions(100, 50, 80, 23, false, false, 92, 20), (80, 20));
}

#[test]
fn tall_picture_falls_back_to_height() {
    // 80 columns would need 80 rows; 23 rows give 2 * 23 * 50 / 100 = 23 columns.
    assert_eq!(size(50, 100, 80, 24, false, false), (23, 23));
    assert_eq!(calculate_dimensions(50, 100, 80, 23, false, false, 23, 80), (23, 23));
}

#[test]
fn fit_height_uses_every_row() {
    // 2 * 23 * 100 / 50 = 92 columns, cut to the 80 that exist.
    assert_eq!(size(100, 50, 80, 24, true, false), (80, 23));
    assert_eq!(size(50, 100, 80, 24, true, false), (23, 23));
}

#[test]
fn stretch_fills_the_area() {
    assert_eq!(size(100, 50, 80, 24, false, true), (80, 23));
    assert_eq!(size(1, 1000, 120, 40, true, true), (120, 39));
    assert_eq!(calculate_dimensions(1, 1000, 7, 9, false, true, 0, 0), (7, 9));
}

#[test]
fn empty_picture_fills_the_area() {
    assert_eq!(size(0, 50, 80, 24, false, false), (80, 23));
    assert_eq!(size(50, 0, 80, 24, true, false), (80, 23));
}

#[test]
fn tiny_terminal_keeps_one_cell() {
    assert_eq!(size(100, 50, 0, 0, false, false), (1, 1));
    assert_eq!(size(100, 50, 0, 1, false, false), (1, 1));
    assert_eq!(size(100, 50, 1, 2, false, false), (1, 1));
}

#[test]
fn very_flat_picture_keeps_one_row() {
    // 80 * 1 / 10000 / 2 rounds to 0 rows, raised to 1.
    assert_eq!(size(10000, 1, 80, 24, false, false), (80, 1));
}

#[test]
fn halves_follow_single_precision() {
    // 7 / 2 = 3.5 rows exactly, but 1 / (1 / 7) / 2 is 3.4999998 in f32.
    assert_eq!(size(1, 7, 1, 6, false, false), (1, 3));
    // 120 / (8 / 7) / 2 = 52.5 exactly, 52.499996 in f32.
    assert_eq!(size(8, 7, 120, 57, false, false), (120, 52));
    // 27 * (7 / 12) * 2 = 31.5 exactly, below it in f32.
    assert_eq!(size(7, 12, 1000, 28, true, false), (31, 27));
}

#[test]
fn largest_values_do_not_overflow() {
    let m = u32::MAX;
    assert_eq!(size(m, 1, m, m, true, false), (m, m - 1));
    assert_eq!(calculate_dimensions(1, m, m, m - 1, false, false, 2, m), (2, m - 1));
    assert_eq!(calculate_dimensions(m, m, m, m - 1, false, false, m, m / 2 + 1), (m, m / 2 + 1));
}

#[test]
fn result_fits_the_terminal() {
    for &(iw, ih) in &[(1u32, 1u32), (640, 480), (1920, 1080), (3, 1000), (1000, 3)] {
        for &(tw, th) in &[(0u32, 0u32), (1, 1), (80, 24), (200, 60), (13, 7)] {
            for &by_height in &[false, true] {
                for &stretch in &[false, true] {
                    let (w, h) = size(iw, ih, tw, th, by_height, stretch);
                    assert!(w >= 1 && w <= tw.max(1));
                    assert!(h >= 1 && h <= th.saturating_sub(1).max(1));
                }
            }
        }
    }
}
