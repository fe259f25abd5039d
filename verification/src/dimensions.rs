//! How large a picture is drawn on the terminal.
//!
//! The proportional sizes (how many columns keep a picture's proportions at
//! a given number of rows, and the other way round) are computed by the
//! caller in single-precision floating point, rounded to the nearest whole
//! cell; this module takes them as given and decides everything else.
use vstd::prelude::*;

verus! {

/// The columns that may be drawn on: the terminal's width, but at least one.
pub open spec fn usable_width(term_width: u32) -> int {
    if term_width >= 1 {
        term_width as int
    } else {
        1
    }
}

/// The rows that may be drawn on: one row is kept for the prompt, but at
/// least one row is used.
pub open spec fn usable_height(term_height: u32) -> int {
    if term_height >= 2 {
        term_height - 1
    } else {
        1
    }
}

/// The area that may be drawn on in a terminal of `term_width` x
/// `term_height` cells (see [`usable_width`], [`usable_height`]).
pub fn usable_area(term_width: u32, term_height: u32) -> (r: (u32, u32))
    ensures
        r.0 == usable_width(term_width),
        r.1 == usable_height(term_height),
{
    let w: u32 = if term_width >= 1 {
        term_width
    } else {
        1
    };
    let h: u32 = if term_height >= 2 {
        term_height - 1
    } else {
        1
    };
    (w, h)
}

/// `w` limited to `limit`, then raised to at least one.
pub open spec fn clamp_to(w: int, limit: int) -> int {
    let m = if w > limit {
        limit
    } else {
        w
    };
    if m < 1 {
        1
    } else {
        m
    }
}

/// The size, in columns and rows, at which a picture of `img_width` x
/// `img_height` pixels is drawn on an area of `area_width` x `area_height`
/// cells.
///
/// `width_for_rows` is the number of columns that keeps the picture's
/// proportions when it is `area_height` rows high, and `rows_for_width` the
/// number of rows that keeps them when it is `area_width` columns wide (a
/// character cell being taken as twice as high as wide).
///
/// - `stretch`, or a picture with no pixels, fills the area;
/// - `by_height` uses every row and the proportional columns, at most the
///   area's width and at least one;
/// - otherwise every column is used with the proportional rows (at least
///   one), unless they do not fit, in which case it is drawn as with
///   `by_height`.
pub open spec fn spec_dimensions(
    img_width: u32,
    img_height: u32,
    area_width: u32,
    area_height: u32,
    by_height: bool,
    stretch: bool,
    width_for_rows: u32,
    rows_for_width: u32,
) -> (int, int) {
    if stretch || img_width == 0 || img_height == 0 {
        (area_width as int, area_height as int)
    } else {
        let fitted = (clamp_to(width_for_rows as int, area_width as int), area_height as int);
        if by_height || rows_for_width > area_height {
            fitted
        } else {
            (area_width as int, clamp_to(rows_for_width as int, area_height as int))
        }
    }
}

/// The size, in columns and rows, at which a picture is drawn on an area
/// (see [`spec_dimensions`]).
pub fn calculate_dimensions(
    img_width: u32,
    img_height: u32,
    area_width: u32,
    area_height: u32,
    by_height: bool,
    stretch: bool,
    width_for_rows: u32,
    rows_for_width: u32,
) -> (r: (u32, u32))
    ensures
        r.0 == spec_dimensions(
            img_width,
            img_height,
            area_width,
            area_height,
            by_height,
            stretch,
            width_for_rows,
            rows_for_width,
        ).0,
        r.1 == spec_dimensions(
            img_width,
            img_height,
            area_width,
            area_height,
            by_height,
            stretch,
            width_for_rows,
            rows_for_width,
        ).1,
        area_width >= 1 && area_height >= 1 ==> 1 <= r.0 <= area_width && 1 <= r.1 <= area_height,
{
    if stretch || img_width == 0 || img_height == 0 {
        return (area_width, area_height);
    }
    let limited: u32 = if width_for_rows > area_width {
        area_width
    } else {
        width_for_rows
    };
    let fitted_w: u32 = if limited < 1 {
        1
    } else {
        limited
    };
    if by_height || rows_for_width > area_height {
        (fitted_w, area_height)
    } else if rows_for_width < 1 {
        (area_width, 1)
    } else {
        (area_width, rows_for_width)
    }
}

/// With no flag, a picture is scaled by width: it takes every column
/// whenever its proportional height fits.
pub proof fn lemma_scaled_by_width(
    img_width: u32,
    img_height: u32,
    area_width: u32,
    area_height: u32,
    width_for_rows: u32,
    rows_for_width: u32,
)
    requires
        rows_for_width <= area_height,
    ensures
        spec_dimensions(
            img_width,
            img_height,
            area_width,
            area_height,
            false,
            false,
            width_for_rows,
            rows_for_width,
        ).0 == area_width,
{
}

/// `--fit-height` takes every row.
pub proof fn lemma_fit_height_uses_all_rows(
    img_width: u32,
    img_height: u32,
    area_width: u32,
    area_height: u32,
    stretch: bool,
    width_for_rows: u32,
    rows_for_width: u32,
)
    ensures
        spec_dimensions(
            img_width,
            img_height,
            area_width,
            area_height,
            true,
            stretch,
            width_for_rows,
            rows_for_width,
        ).1 == area_height,
{
}

/// `--stretch` fills the area, whatever the picture.
pub proof fn lemma_stretch_fills(
    img_width: u32,
    img_height: u32,
    area_width: u32,
    area_height: u32,
    by_height: bool,
    width_for_rows: u32,
    rows_for_width: u32,
)
    ensures
        spec_dimensions(
            img_width,
            img_height,
            area_width,
            area_height,
            by_height,
            true,
            width_for_rows,
            rows_for_width,
        ) == (area_width as int, area_height as int),
{
}

/// The picture always fits the area and is at least one cell each way; on
/// a terminal, the last row is left free whenever it has more than one.
pub proof fn lemma_dimensions_fit(
    img_width: u32,
    img_height: u32,
    term_width: u32,
    term_height: u32,
    by_height: bool,
    stretch: bool,
    width_for_rows: u32,
    rows_for_width: u32,
)
    ensures
        ({
            let d = spec_dimensions(
                img_width,
                img_height,
                usable_width(term_width) as u32,
                usable_height(term_height) as u32,
                by_height,
                stretch,
                width_for_rows,
                rows_for_width,
            );
            &&& 1 <= d.0 <= usable_width(term_width)
            &&& 1 <= d.1 <= usable_height(term_height)
            &&& term_height >= 2 ==> d.1 < term_height
            &&& term_width >= 1 ==> d.0 <= term_width
        }),
{
}

} // verus!
