//! Finding how many rows at the bottom of one capture reappear at the top of
//! the next.
//!
//! Candidate overlaps are tried from the full height down to a tenth of it.
//! Each candidate window is compared on a sparse grid (every fourth column in
//! the middle eight tenths of the width, every second row), by the summed
//! absolute difference of the red, green and blue samples.  A window whose
//! running average, once more than 500 samples are in, exceeds the best
//! average so far by more than 20 is abandoned.  A window replaces the best
//! one when its average is strictly lower; an average of zero ends the search.
//! The best window counts only when its average is below 30.
use vstd::prelude::*;

use crate::frame::{Frame, FrameView};

verus! {

/// The first sampled column.
pub open spec fn first_column(width: u32) -> int {
    (width / 10) as int
}

/// Sampled columns lie before this one.
pub open spec fn column_limit(width: u32) -> int {
    width * 9 / 10
}

/// How many columns are sampled: every fourth, from the first, before the limit.
pub open spec fn column_count(width: u32) -> int {
    if first_column(width) < column_limit(width) {
        (column_limit(width) - first_column(width) + 3) / 4
    } else {
        0
    }
}

/// The `k`-th sampled column.
pub open spec fn sampled_column(width: u32, k: int) -> int {
    first_column(width) + 4 * k
}

/// How many rows of a window `o` rows tall are sampled: every second one.
pub open spec fn row_count(o: int) -> int {
    (o + 1) / 2
}

/// The smallest candidate overlap.
pub open spec fn smallest_window(height: u32) -> int {
    (height / 10) as int
}

/// How many samples a window `o` rows tall is compared on.
pub open spec fn window_samples(upper: FrameView, o: int) -> int {
    row_count(o) * column_count(upper.width)
}

pub open spec fn channel_diff(a: u8, b: u8) -> int {
    if a >= b { a - b } else { b - a }
}

/// Colour difference between column `x` of row `y_up` of `upper` and of row
/// `y_low` of `lower` (alpha is ignored).
pub open spec fn pixel_diff(upper: FrameView, lower: FrameView, x: int, y_up: int, y_low: int) -> int {
    channel_diff(upper.sample(x, y_up, 0), lower.sample(x, y_low, 0))
        + channel_diff(upper.sample(x, y_up, 1), lower.sample(x, y_low, 1))
        + channel_diff(upper.sample(x, y_up, 2), lower.sample(x, y_low, 2))
}

/// Difference over the first `k` sampled columns of row `y` of the window
/// `o` rows tall: row `height - o + y` of `upper` against row `y` of `lower`.
pub open spec fn row_diff(upper: FrameView, lower: FrameView, o: int, y: int, k: int) -> int
    decreases k,
{
    if k <= 0 {
        0
    } else {
        row_diff(upper, lower, o, y, k - 1) + pixel_diff(
            upper,
            lower,
            sampled_column(upper.width, k - 1),
            upper.height - o + y,
            y,
        )
    }
}

/// Difference over the first `m` sampled rows of the window `o` rows tall.
pub open spec fn window_diff(upper: FrameView, lower: FrameView, o: int, m: int) -> int
    decreases m,
{
    if m <= 0 {
        0
    } else {
        window_diff(upper, lower, o, m - 1) + row_diff(upper, lower, o, 2 * (m - 1), column_count(upper.width))
    }
}

/// Whether, with `best_avg` the best average so far, the window `o` rows tall
/// is given up after its first `m` sampled rows.
pub open spec fn gives_up_after(upper: FrameView, lower: FrameView, o: int, m: int, best_avg: int) -> bool {
    &&& best_avg != u64::MAX
    &&& m * column_count(upper.width) > 500
    &&& window_diff(upper, lower, o, m) / (m * column_count(upper.width)) > best_avg + 20
}

/// Whether the window `o` rows tall is given up before it is fully compared.
pub open spec fn abandoned(upper: FrameView, lower: FrameView, o: int, best_avg: int) -> bool {
    exists|m: int| 1 <= m <= row_count(o) && #[trigger] gives_up_after(upper, lower, o, m, best_avg)
}

/// The average difference over the whole window `o` rows tall.
pub open spec fn window_average(upper: FrameView, lower: FrameView, o: int) -> int {
    window_diff(upper, lower, o, row_count(o)) / window_samples(upper, o)
}

/// Whether the window `o` rows tall becomes the best one, given the best
/// average so far.
pub open spec fn improves(upper: FrameView, lower: FrameView, o: int, best_avg: int) -> bool {
    &&& !abandoned(upper, lower, o, best_avg)
    &&& window_samples(upper, o) > 0
    &&& window_average(upper, lower, o) < best_avg
}

/// The best window and its average once the candidates from `o` down have
/// been tried, starting from `best` and `best_avg`.
pub open spec fn search(upper: FrameView, lower: FrameView, o: int, best: int, best_avg: int) -> (int, int)
    decreases o + 1,
{
    if o < smallest_window(upper.height) || o < 0 {
        (best, best_avg)
    } else if improves(upper, lower, o, best_avg) {
        if window_average(upper, lower, o) == 0 {
            (o, 0)
        } else {
            search(upper, lower, o - 1, o, window_average(upper, lower, o))
        }
    } else {
        search(upper, lower, o - 1, best, best_avg)
    }
}

/// The overlap between `upper` and the capture `lower` that follows it, in
/// rows; zero when no window matches well enough.
pub open spec fn overlap(upper: FrameView, lower: FrameView) -> int {
    let (best, best_avg) = search(upper, lower, upper.height as int, 0, u64::MAX as int);
    if best_avg < 30 {
        best
    } else {
        0
    }
}

/// The inputs on which the overlap can be computed: the arithmetic on the
/// width and the sample count stays in range, and every sampled pixel of the
/// tallest window lies inside `lower`.
pub open spec fn overlap_defined(upper: FrameView, lower: FrameView) -> bool {
    &&& upper.width * 9 <= u32::MAX
    &&& row_count(upper.height as int) * column_count(upper.width) <= i32::MAX
    &&& (row_count(upper.height as int) > 0 && column_count(upper.width) > 0) ==> {
        &&& sampled_column(upper.width, column_count(upper.width) - 1) < lower.width
        &&& 2 * (row_count(upper.height as int) - 1) < lower.height
    }
}


/// Whether the overlap between `img1` and `img2` can be computed.
pub fn can_find_overlap(img1: &Frame, img2: &Frame) -> (r: bool)
    ensures
        r == overlap_defined(img1@, img2@),
{
    let w = img1.width() as u64;
    let h = img1.height() as u64;
    if w * 9 > u32::MAX as u64 {
        return false;
    }
    let start = w / 10;
    let end = w * 9 / 10;
    let cols: u64 = if start < end { (end - start + 3) / 4 } else { 0 };
    let rows: u64 = (h + 1) / 2;
    assert(rows * cols <= 0x8000_0000 * 0x4000_0000) by (nonlinear_arith)
        requires
            rows <= 0x8000_0000,
            cols <= 0x4000_0000,
    ;
    if rows * cols > i32::MAX as u64 {
        return false;
    }
    if rows > 0 && cols > 0 {
        start + 4 * (cols - 1) < img2.width() as u64 && 2 * (rows - 1) < img2.height() as u64
    } else {
        true
    }
}

/// Colour difference of two pixels: the summed absolute difference of their
/// red, green and blue samples.
fn pixel_difference(p1: [u8; 4], p2: [u8; 4]) -> (d: u64)
    ensures
        d == channel_diff(p1@[0], p2@[0]) + channel_diff(p1@[1], p2@[1]) + channel_diff(p1@[2], p2@[2]),
        d <= 765,
{
    let r = if p1[0] >= p2[0] { p1[0] - p2[0] } else { p2[0] - p1[0] };
    let g = if p1[1] >= p2[1] { p1[1] - p2[1] } else { p2[1] - p1[1] };
    let b = if p1[2] >= p2[2] { p1[2] - p2[2] } else { p2[2] - p1[2] };
    r as u64 + g as u64 + b as u64
}

/// Compares the window `o` rows tall row by row; returns the summed
/// difference, the number of samples, and whether the window was given up.
fn compare_window(img1: &Frame, img2: &Frame, o: u32, best_avg: u64) -> (r: (u64, u64, bool))
    requires
        overlap_defined(img1@, img2@),
        o <= img1@.height,
        best_avg == u64::MAX || best_avg <= 765,
    ensures
        r.2 == abandoned(img1@, img2@, o as int, best_avg as int),
        !r.2 ==> r.0 == window_diff(img1@, img2@, o as int, row_count(o as int)) && r.1 == window_samples(
            img1@,
            o as int,
        ),
        r.0 <= 765 * r.1,
{
    let width = img1.width();
    let height = img1.height();
    let start_x: u64 = (width / 10) as u64;
    let end_x: u64 = (width * 9 / 10) as u64;
    let ghost up = img1@;
    let ghost low = img2@;
    let ghost cols = column_count(up.width);
    let ghost rows = row_count(o as int);
    proof {
        assert(rows <= row_count(height as int));
        crate::grid::lemma_area_monotone(rows, cols, row_count(height as int), cols);
    }
    let mut diff: u64 = 0;
    let mut count: u64 = 0;
    let mut y: u64 = 0;
    let ghost mut m: int = 0;
    while y < o as u64
        invariant
            up == img1@,
            low == img2@,
            width == up.width,
            height == up.height,
            overlap_defined(up, low),
            o <= height,
            start_x == first_column(width),
            end_x == column_limit(width),
            cols == column_count(width),
            rows == row_count(o as int),
            rows * cols <= i32::MAX,
            y == 2 * m,
            y <= o + 1,
            best_avg == u64::MAX || best_avg <= 765,
            0 <= m <= rows,
            diff == window_diff(up, low, o as int, m),
            count == m * cols,
            diff <= 765 * count,
            forall|j: int| 1 <= j <= m ==> !#[trigger] gives_up_after(up, low, o as int, j, best_avg as int),
        decreases o + 1 - y,
    {
        let mut x: u64 = start_x;
        let ghost mut k: int = 0;
        proof {
            assert(m + 1 <= rows);
            crate::grid::lemma_area_monotone(m + 1, cols, rows, cols);
            assert((m + 1) * cols == m * cols + cols) by (nonlinear_arith);
            assert(cols * (m + 1) == (m + 1) * cols) by (nonlinear_arith);
        }
        while x < end_x
            invariant
                up == img1@,
                low == img2@,
                width == up.width,
                height == up.height,
                overlap_defined(up, low),
                o <= height,
                start_x == first_column(width),
                end_x == column_limit(width),
                cols == column_count(width),
                rows == row_count(o as int),
                (m + 1) * cols <= i32::MAX,
                (m + 1) * cols == m * cols + cols,
                y == 2 * m,
                y < o,
                0 <= m < rows,
                x == start_x + 4 * k,
                x < end_x + 4,
                0 <= k <= cols,
                diff == window_diff(up, low, o as int, m) + row_diff(up, low, o as int, y as int, k),
                count == m * cols + k,
                diff <= 765 * count,
            decreases end_x + 4 - x,
        {
            assert(k < cols);
            assert(y < low.height);
            let p1 = img1.get_pixel(x as u32, height - o + y as u32);
            let p2 = img2.get_pixel(x as u32, y as u32);
            diff = diff + pixel_difference(p1, p2);
            count = count + 1;
            x = x + 4;
            proof {
                k = k + 1;
            }
        }
        assert(k == cols);
        proof {
            m = m + 1;
        }
        if count > 500 {
            let avg = diff / count;
            if best_avg != u64::MAX && avg > best_avg + 20 {
                assert(gives_up_after(up, low, o as int, m, best_avg as int));
                return (diff, count, true);
            }
        }
        y = y + 2;
    }
    assert(m == rows);
    (diff, count, false)
}

/// The overlap, in rows, between `img1` and the capture `img2` taken after
/// scrolling: how many rows at the bottom of `img1` reappear at the top of
/// `img2`, or zero when no candidate matches well enough.
pub fn find_overlap(img1: &Frame, img2: &Frame) -> (r: u32)
    requires
        overlap_defined(img1@, img2@),
    ensures
        r == overlap(img1@, img2@),
{
    let (width, height) = img1.dimensions();
    let ghost up = img1@;
    let ghost low = img2@;
    let mut best_overlap: u32 = 0;
    let mut min_diff: u64 = u64::MAX;
    let min_o = height / 10;
    let mut o: u32 = height;
    loop
        invariant_except_break
            up == img1@,
            low == img2@,
            height == up.height,
            overlap_defined(up, low),
            min_o == smallest_window(height),
            min_o <= o <= height,
            search(up, low, height as int, 0, u64::MAX as int) == search(
                up,
                low,
                o as int,
                best_overlap as int,
                min_diff as int,
            ),
            min_diff == u64::MAX || min_diff <= 765,
        ensures
            search(up, low, height as int, 0, u64::MAX as int) == (best_overlap as int, min_diff as int),
        decreases o,
    {
        let (diff, count, early_exit) = compare_window(img1, img2, o, min_diff);
        if !early_exit && count > 0 {
            let avg_diff = diff / count;
            assert(avg_diff <= 765) by (nonlinear_arith)
                requires
                    diff <= 765 * count,
                    count > 0,
                    avg_diff == diff / count,
            ;
            assert(avg_diff == window_average(up, low, o as int));
            if avg_diff < min_diff {
                min_diff = avg_diff;
                best_overlap = o;
                if min_diff == 0 {
                    break;
                }
            }
        }
        assert(search(up, low, height as int, 0, u64::MAX as int) == search(
            up,
            low,
            o - 1,
            best_overlap as int,
            min_diff as int,
        ));
        if o == min_o {
            assert(search(up, low, o - 1, best_overlap as int, min_diff as int) == (
                best_overlap as int,
                min_diff as int,
            ));
            break;
        }
        o = o - 1;
    }
    if min_diff < 30 {
        best_overlap
    } else {
        0
    }
}

/// Whether the sampled pixels of the window `o` rows tall agree exactly.
pub open spec fn matches_exactly(upper: FrameView, lower: FrameView, o: int) -> bool {
    window_diff(upper, lower, o, row_count(o)) == 0
}

proof fn lemma_row_diff_nonnegative(upper: FrameView, lower: FrameView, o: int, y: int, k: int)
    ensures
        row_diff(upper, lower, o, y, k) >= 0,
    decreases k,
{
    if k > 0 {
        lemma_row_diff_nonnegative(upper, lower, o, y, k - 1);
    }
}

/// The summed difference only grows as rows are added.
proof fn lemma_window_diff_grows(upper: FrameView, lower: FrameView, o: int, m1: int, m2: int)
    requires
        0 <= m1 <= m2,
    ensures
        0 <= window_diff(upper, lower, o, m1) <= window_diff(upper, lower, o, m2),
    decreases m2,
{
    if m2 > m1 {
        lemma_window_diff_grows(upper, lower, o, m1, m2 - 1);
        lemma_row_diff_nonnegative(upper, lower, o, 2 * (m2 - 1), column_count(upper.width));
    } else if m1 > 0 {
        lemma_window_diff_grows(upper, lower, o, 0, m1 - 1);
        lemma_window_diff_grows(upper, lower, o, m1 - 1, m1 - 1);
        lemma_row_diff_nonnegative(upper, lower, o, 2 * (m1 - 1), column_count(upper.width));
    }
}

/// What the search keeps: either nothing has been accepted yet, or the best
/// window is a candidate that was compared on at least one sample and whose
/// average is the best average; and the best average never rises.
proof fn lemma_search_keeps_best(upper: FrameView, lower: FrameView, o: int, best: int, best_avg: int)
    requires
        o <= upper.height,
        best_avg == u64::MAX || (smallest_window(upper.height) <= best <= upper.height && window_samples(upper, best)
            > 0 && window_average(upper, lower, best) == best_avg),
    ensures
        ({
            let (b, a) = search(upper, lower, o, best, best_avg);
            &&& a <= best_avg
            &&& a == u64::MAX || (smallest_window(upper.height) <= b <= upper.height && window_samples(upper, b) > 0
                && window_average(upper, lower, b) == a)
        }),
    decreases o + 1,
{
    if o < smallest_window(upper.height) || o < 0 {
    } else if improves(upper, lower, o, best_avg) {
        if window_average(upper, lower, o) != 0 {
            lemma_search_keeps_best(upper, lower, o - 1, o, window_average(upper, lower, o));
        }
    } else {
        lemma_search_keeps_best(upper, lower, o - 1, best, best_avg);
    }
}

/// A nonzero overlap is always a candidate height (between a tenth of the
/// first capture's height and all of it) that was compared on at least one
/// sample and whose average difference is below 30.
pub proof fn lemma_overlap_is_good_match(upper: FrameView, lower: FrameView)
    ensures
        overlap(upper, lower) == 0 || {
            let r = overlap(upper, lower);
            &&& smallest_window(upper.height) <= r <= upper.height
            &&& window_samples(upper, r) > 0
            &&& window_average(upper, lower, r) < 30
        },
{
    lemma_search_keeps_best(upper, lower, upper.height as int, 0, u64::MAX as int);
}

/// When no candidate window averages below 30, there is no overlap.
pub proof fn lemma_no_good_match_no_overlap(upper: FrameView, lower: FrameView)
    requires
        forall|o: int|
            smallest_window(upper.height) <= o <= upper.height && window_samples(upper, o) > 0 ==> #[trigger] window_average(
                upper,
                lower,
                o,
            ) >= 30,
    ensures
        overlap(upper, lower) == 0,
{
    lemma_overlap_is_good_match(upper, lower);
}

proof fn lemma_search_finds_exact(upper: FrameView, lower: FrameView, o: int, best: int, best_avg: int, o0: int)
    requires
        column_count(upper.width) > 0,
        1 <= o0,
        smallest_window(upper.height) <= o0 <= o,
        matches_exactly(upper, lower, o0),
        best_avg > 0,
    ensures
        ({
            let (b, a) = search(upper, lower, o, best, best_avg);
            &&& a == 0
            &&& o0 <= b <= o
            &&& window_average(upper, lower, b) == 0
        }),
    decreases o + 1,
{
    let cols = column_count(upper.width);
    if o == o0 {
        let rows = row_count(o0);
        assert(window_samples(upper, o0) > 0) by (nonlinear_arith)
            requires
                rows >= 1,
                cols >= 1,
                window_samples(upper, o0) == rows * cols,
        ;
        assert(window_average(upper, lower, o0) == 0);
        assert forall|m: int| 1 <= m <= rows implies !#[trigger] gives_up_after(upper, lower, o0, m, best_avg) by {
            lemma_window_diff_grows(upper, lower, o0, m, rows);
            assert(m * cols > 0) by (nonlinear_arith)
                requires
                    m >= 1,
                    cols >= 1,
            ;
        }
        assert(improves(upper, lower, o0, best_avg));
    } else if improves(upper, lower, o, best_avg) {
        if window_average(upper, lower, o) != 0 {
            let d = window_diff(upper, lower, o, row_count(o));
            let n = window_samples(upper, o);
            lemma_window_diff_grows(upper, lower, o, 0, row_count(o));
            assert(d / n >= 0) by (nonlinear_arith)
                requires
                    d >= 0,
                    n > 0,
            ;
            lemma_search_finds_exact(upper, lower, o - 1, o, window_average(upper, lower, o), o0);
        }
    } else {
        lemma_search_finds_exact(upper, lower, o - 1, best, best_avg, o0);
    }
}

/// When some candidate window of at least one row matches exactly at every
/// sampled pixel (and some columns are sampled), the overlap found is at
/// least that tall, and its average difference is zero.
pub proof fn lemma_exact_match_found(upper: FrameView, lower: FrameView, o0: int)
    requires
        column_count(upper.width) > 0,
        1 <= o0,
        smallest_window(upper.height) <= o0 <= upper.height,
        matches_exactly(upper, lower, o0),
    ensures
        o0 <= overlap(upper, lower) <= upper.height,
        window_average(upper, lower, overlap(upper, lower)) == 0,
{
    lemma_search_finds_exact(upper, lower, upper.height as int, 0, u64::MAX as int, o0);
}

/// Whether `g` is `f` with at most its alpha samples changed.
pub open spec fn same_colours(f: FrameView, g: FrameView) -> bool {
    &&& f.width == g.width
    &&& f.height == g.height
    &&& f.data.len() == g.data.len()
    &&& forall|i: int| 0 <= i < f.data.len() && i % 4 != 3 ==> #[trigger] f.data[i] == g.data[i]
}

proof fn lemma_colour_sample(f: FrameView, g: FrameView, x: int, y: int, c: int)
    requires
        f.well_formed(),
        same_colours(f, g),
        0 <= x < f.width,
        0 <= y < f.height,
        0 <= c < 3,
    ensures
        f.sample(x, y, c) == g.sample(x, y, c),
{
    crate::grid::lemma_pixel_in_image(f.width as int, f.height as int, x, y);
    let i = (y * f.width + x) * 4 + c;
    assert(i % 4 == c);
    assert(f.data[i] == g.data[i]);
}

proof fn lemma_row_diff_colours(a: FrameView, b: FrameView, a2: FrameView, b2: FrameView, o: int, y: int, k: int)
    requires
        a.well_formed(),
        b.well_formed(),
        same_colours(a, a2),
        same_colours(b, b2),
        overlap_defined(a, b),
        0 <= y < o <= a.height,
        y <= 2 * (row_count(a.height as int) - 1),
        0 <= k <= column_count(a.width),
    ensures
        row_diff(a, b, o, y, k) == row_diff(a2, b2, o, y, k),
    decreases k,
{
    if k > 0 {
        lemma_row_diff_colours(a, b, a2, b2, o, y, k - 1);
        let x = sampled_column(a.width, k - 1);
        assert(x < column_limit(a.width));
        assert(x < b.width);
        assert(y < b.height);
        lemma_colour_sample(a, a2, x, a.height - o + y, 0);
        lemma_colour_sample(a, a2, x, a.height - o + y, 1);
        lemma_colour_sample(a, a2, x, a.height - o + y, 2);
        lemma_colour_sample(b, b2, x, y, 0);
        lemma_colour_sample(b, b2, x, y, 1);
        lemma_colour_sample(b, b2, x, y, 2);
    }
}

proof fn lemma_window_diff_colours(a: FrameView, b: FrameView, a2: FrameView, b2: FrameView, o: int, m: int)
    requires
        a.well_formed(),
        b.well_formed(),
        same_colours(a, a2),
        same_colours(b, b2),
        overlap_defined(a, b),
        0 <= o <= a.height,
        0 <= m <= row_count(o),
    ensures
        window_diff(a, b, o, m) == window_diff(a2, b2, o, m),
    decreases m,
{
    if m > 0 {
        lemma_window_diff_colours(a, b, a2, b2, o, m - 1);
        lemma_row_diff_colours(a, b, a2, b2, o, 2 * (m - 1), column_count(a.width));
    }
}

proof fn lemma_search_colours(a: FrameView, b: FrameView, a2: FrameView, b2: FrameView, o: int, best: int, best_avg: int)
    requires
        a.well_formed(),
        b.well_formed(),
        same_colours(a, a2),
        same_colours(b, b2),
        overlap_defined(a, b),
        o <= a.height,
    ensures
        search(a, b, o, best, best_avg) == search(a2, b2, o, best, best_avg),
    decreases o + 1,
{
    if o < smallest_window(a.height) || o < 0 {
    } else {
        assert forall|m: int| 1 <= m <= row_count(o) implies gives_up_after(a, b, o, m, best_avg)
            == gives_up_after(a2, b2, o, m, best_avg) by {
            lemma_window_diff_colours(a, b, a2, b2, o, m);
        }
        if abandoned(a, b, o, best_avg) {
            let m = choose|m: int| 1 <= m <= row_count(o) && #[trigger] gives_up_after(a, b, o, m, best_avg);
            assert(gives_up_after(a2, b2, o, m, best_avg));
        }
        if abandoned(a2, b2, o, best_avg) {
            let m = choose|m: int| 1 <= m <= row_count(o) && #[trigger] gives_up_after(a2, b2, o, m, best_avg);
            assert(gives_up_after(a, b, o, m, best_avg));
        }
        lemma_window_diff_colours(a, b, a2, b2, o, row_count(o));
        assert(improves(a, b, o, best_avg) == improves(a2, b2, o, best_avg));
        assert(window_average(a, b, o) == window_average(a2, b2, o));
        lemma_search_colours(a, b, a2, b2, o - 1, o, window_average(a, b, o));
        lemma_search_colours(a, b, a2, b2, o - 1, best, best_avg);
    }
}

/// Alpha plays no part: changing only the alpha samples of either capture
/// changes neither whether the overlap can be computed nor the overlap.
pub proof fn lemma_overlap_ignores_alpha(a: FrameView, b: FrameView, a2: FrameView, b2: FrameView)
    requires
        a.well_formed(),
        b.well_formed(),
        same_colours(a, a2),
        same_colours(b, b2),
        overlap_defined(a, b),
    ensures
        overlap_defined(a2, b2),
        overlap(a, b) == overlap(a2, b2),
{
    lemma_search_colours(a, b, a2, b2, a.height as int, 0, u64::MAX as int);
}

proof fn lemma_self_row_diff_zero(v: FrameView, y: int, k: int)
    ensures
        row_diff(v, v, v.height as int, y, k) == 0,
    decreases k,
{
    if k > 0 {
        lemma_self_row_diff_zero(v, y, k - 1);
    }
}

proof fn lemma_self_window_diff_zero(v: FrameView, m: int)
    ensures
        window_diff(v, v, v.height as int, m) == 0,
    decreases m,
{
    if m > 0 {
        lemma_self_window_diff_zero(v, m - 1);
        lemma_self_row_diff_zero(v, 2 * (m - 1), column_count(v.width));
    }
}

/// A capture compared with itself overlaps over its whole height, once it is
/// at least two pixels wide and one tall.
pub proof fn lemma_identical_frames_overlap_fully(v: FrameView)
    requires
        v.width >= 2,
        v.height >= 1,
    ensures
        overlap(v, v) == v.height,
{
    lemma_self_window_diff_zero(v, row_count(v.height as int));
    assert(column_count(v.width) > 0);
    lemma_exact_match_found(v, v, v.height as int);
}

/// Whether, at every sampled pixel (every fourth column from a tenth of the
/// width up to nine tenths of it, every second row), the red, green and blue
/// samples of the bottom `o0` rows of `upper` equal those of the top `o0` rows
/// of `lower`.
pub open spec fn repeats_rows(upper: FrameView, lower: FrameView, o0: int) -> bool {
    forall|k: int, j: int, c: int|
        0 <= k && upper.width / 10 + 4 * k < upper.width * 9 / 10 && 0 <= j && 2 * j < o0 && 0 <= c < 3
            ==> #[trigger] upper.sample(upper.width / 10 + 4 * k, upper.height - o0 + 2 * j, c) == lower.sample(
            upper.width / 10 + 4 * k,
            2 * j,
            c,
        )
}

proof fn lemma_repeated_row_zero(upper: FrameView, lower: FrameView, o0: int, j: int, k: int)
    requires
        repeats_rows(upper, lower, o0),
        0 <= j,
        2 * j < o0,
        0 <= k <= column_count(upper.width),
    ensures
        row_diff(upper, lower, o0, 2 * j, k) == 0,
    decreases k,
{
    if k > 0 {
        lemma_repeated_row_zero(upper, lower, o0, j, k - 1);
        let x = upper.width / 10 + 4 * (k - 1);
        assert(x < upper.width * 9 / 10);
        assert(upper.sample(x, upper.height - o0 + 2 * j, 0) == lower.sample(x, 2 * j, 0));
        assert(upper.sample(x, upper.height - o0 + 2 * j, 1) == lower.sample(x, 2 * j, 1));
        assert(upper.sample(x, upper.height - o0 + 2 * j, 2) == lower.sample(x, 2 * j, 2));
    }
}

proof fn lemma_repeated_window_zero(upper: FrameView, lower: FrameView, o0: int, m: int)
    requires
        repeats_rows(upper, lower, o0),
        0 <= m <= row_count(o0),
    ensures
        window_diff(upper, lower, o0, m) == 0,
    decreases m,
{
    if m > 0 {
        lemma_repeated_window_zero(upper, lower, o0, m - 1);
        lemma_repeated_row_zero(upper, lower, o0, m - 1, column_count(upper.width));
    }
}

/// Rows that reappear are found: when some columns are sampled and, for some
/// height `o0` of at least one row and at least a tenth of `upper`'s height,
/// the bottom `o0` rows of `upper` reappear at the top of `lower` (at every
/// sampled pixel), the overlap is at least `o0` and at most `upper`'s height.
pub proof fn lemma_repeated_rows_found(upper: FrameView, lower: FrameView, o0: int)
    requires
        upper.width / 10 < upper.width * 9 / 10,
        1 <= o0,
        upper.height / 10 <= o0 <= upper.height,
        repeats_rows(upper, lower, o0),
    ensures
        o0 <= overlap(upper, lower) <= upper.height,
{
    lemma_repeated_window_zero(upper, lower, o0, row_count(o0));
    lemma_exact_match_found(upper, lower, o0);
}

proof fn lemma_average_nonnegative(upper: FrameView, lower: FrameView, o: int)
    requires
        0 <= o,
        window_samples(upper, o) > 0,
    ensures
        window_average(upper, lower, o) >= 0,
{
    let d = window_diff(upper, lower, o, row_count(o));
    let n = window_samples(upper, o);
    lemma_window_diff_grows(upper, lower, o, 0, row_count(o));
    assert(d / n >= 0) by (nonlinear_arith)
        requires
            d >= 0,
            n > 0,
    ;
}

/// Whether the window `o0` rows tall is the one candidate (from a tenth of
/// the height to all of it) with the lowest average difference: every other
/// candidate compared on some samples averages strictly more.
pub open spec fn unique_best_window(upper: FrameView, lower: FrameView, o0: int) -> bool {
    &&& upper.height / 10 <= o0 <= upper.height
    &&& window_samples(upper, o0) > 0
    &&& forall|o: int|
        upper.height / 10 <= o <= upper.height && o != o0 && window_samples(upper, o) > 0
            ==> #[trigger] window_average(upper, lower, o) > window_average(upper, lower, o0)
}

proof fn lemma_search_after_best(upper: FrameView, lower: FrameView, o: int, o0: int)
    requires
        unique_best_window(upper, lower, o0),
        o < o0,
    ensures
        search(upper, lower, o, o0, window_average(upper, lower, o0)) == (o0, window_average(upper, lower, o0)),
    decreases o + 1,
{
    if o < smallest_window(upper.height) || o < 0 {
    } else {
        lemma_search_after_best(upper, lower, o - 1, o0);
    }
}

proof fn lemma_search_reaches_best(upper: FrameView, lower: FrameView, o: int, best: int, best_avg: int, o0: int)
    requires
        unique_best_window(upper, lower, o0),
        forall|o: int|
            upper.height / 10 <= o <= upper.height ==> #[trigger] window_samples(upper, o) <= 500,
        o0 <= o <= upper.height,
        best_avg > window_average(upper, lower, o0),
    ensures
        search(upper, lower, o, best, best_avg) == (o0, window_average(upper, lower, o0)),
    decreases o + 1,
{
    lemma_average_nonnegative(upper, lower, o0);
    let cols = column_count(upper.width);
    if o == o0 {
        assert forall|m: int| 1 <= m <= row_count(o0) implies !#[trigger] gives_up_after(upper, lower, o0, m, best_avg) by {
            crate::grid::lemma_area_monotone(m, cols, row_count(o0), cols);
        }
        assert(improves(upper, lower, o0, best_avg));
        if window_average(upper, lower, o0) != 0 {
            lemma_search_after_best(upper, lower, o0 - 1, o0);
        }
    } else {
        if improves(upper, lower, o, best_avg) {
            lemma_search_reaches_best(upper, lower, o - 1, o, window_average(upper, lower, o), o0);
        } else {
            lemma_search_reaches_best(upper, lower, o - 1, best, best_avg, o0);
        }
    }
}

/// The best window wins: when no candidate is compared on more than 500
/// samples (so none is given up early), and one candidate `o0` averages below
/// 30 and strictly less than every other candidate, the overlap is `o0`.
pub proof fn lemma_unique_best_window_found(upper: FrameView, lower: FrameView, o0: int)
    requires
        unique_best_window(upper, lower, o0),
        window_average(upper, lower, o0) < 30,
        forall|o: int|
            upper.height / 10 <= o <= upper.height ==> #[trigger] window_samples(upper, o) <= 500,
    ensures
        overlap(upper, lower) == o0,
{
    lemma_search_reaches_best(upper, lower, upper.height as int, 0, u64::MAX as int, o0);
}

// The comparison written out over the sampling grid: columns `w / 10`,
// `w / 10 + 4`, ... below `9 w / 10`; rows 0, 2, 4, ... of the window.

/// The red, green and blue distance between pixel `(x, y_up)` of `upper` and
/// pixel `(x, y_low)` of `lower`.
pub open spec fn rgb_distance(upper: FrameView, lower: FrameView, x: int, y_up: int, y_low: int) -> int {
    let r = upper.sample(x, y_up, 0) - lower.sample(x, y_low, 0);
    let g = upper.sample(x, y_up, 1) - lower.sample(x, y_low, 1);
    let b = upper.sample(x, y_up, 2) - lower.sample(x, y_low, 2);
    (if r < 0 { -r } else { r }) + (if g < 0 { -g } else { g }) + (if b < 0 { -b } else { b })
}

/// Distance summed over the grid columns from `x` on, for row `y` of the
/// window `o` rows tall (row `height - o + y` of `upper`, row `y` of `lower`).
pub open spec fn grid_row(upper: FrameView, lower: FrameView, o: int, y: int, x: int) -> int
    decreases upper.width * 9 / 10 + 4 - x,
{
    if 0 <= x < upper.width * 9 / 10 {
        rgb_distance(upper, lower, x, upper.height - o + y, y) + grid_row(upper, lower, o, y, x + 4)
    } else {
        0
    }
}

/// How many grid columns there are from `x` on.
pub open spec fn grid_row_count(width: u32, x: int) -> int
    decreases width * 9 / 10 + 4 - x,
{
    if 0 <= x < width * 9 / 10 {
        1 + grid_row_count(width, x + 4)
    } else {
        0
    }
}

/// Distance summed over the grid rows `y, y + 2, ...` below `end` of the
/// window `o` rows tall.
pub open spec fn grid_rows(upper: FrameView, lower: FrameView, o: int, y: int, end: int) -> int
    decreases end + 2 - y,
{
    if 0 <= y < end {
        grid_row(upper, lower, o, y, (upper.width / 10) as int) + grid_rows(upper, lower, o, y + 2, end)
    } else {
        0
    }
}

/// How many grid samples the rows `y, y + 2, ...` below `end` hold.
pub open spec fn grid_rows_count(width: u32, y: int, end: int) -> int
    decreases end + 2 - y,
{
    if 0 <= y < end {
        grid_row_count(width, (width / 10) as int) + grid_rows_count(width, y + 2, end)
    } else {
        0
    }
}

/// The average grid distance of the whole window `o` rows tall.
pub open spec fn grid_average(upper: FrameView, lower: FrameView, o: int) -> int {
    grid_rows(upper, lower, o, 0, o) / grid_rows_count(upper.width, 0, o)
}

/// The average grid distance over the rows of the window `o` rows tall above
/// row `end`.
pub open spec fn grid_prefix_average(upper: FrameView, lower: FrameView, o: int, end: int) -> int {
    grid_rows(upper, lower, o, 0, end) / grid_rows_count(upper.width, 0, end)
}

proof fn lemma_grid_row(upper: FrameView, lower: FrameView, o: int, y: int, k: int)
    requires
        0 <= k <= column_count(upper.width),
    ensures
        row_diff(upper, lower, o, y, k) + grid_row(upper, lower, o, y, sampled_column(upper.width, k)) == row_diff(
            upper,
            lower,
            o,
            y,
            column_count(upper.width),
        ),
        grid_row_count(upper.width, sampled_column(upper.width, k)) == column_count(upper.width) - k,
    decreases column_count(upper.width) - k,
{
    if k < column_count(upper.width) {
        lemma_grid_row(upper, lower, o, y, k + 1);
        assert(sampled_column(upper.width, k) < upper.width * 9 / 10);
        assert(sampled_column(upper.width, k + 1) == sampled_column(upper.width, k) + 4);
    } else {
        assert(sampled_column(upper.width, k) >= upper.width * 9 / 10);
    }
}

proof fn lemma_grid_rows(upper: FrameView, lower: FrameView, o: int, m: int, end: int)
    requires
        0 <= end,
        0 <= m <= (end + 1) / 2,
    ensures
        window_diff(upper, lower, o, m) + grid_rows(upper, lower, o, 2 * m, end) == window_diff(
            upper,
            lower,
            o,
            (end + 1) / 2,
        ),
        grid_rows_count(upper.width, 2 * m, end) == ((end + 1) / 2 - m) * column_count(upper.width),
    decreases (end + 1) / 2 - m,
{
    lemma_grid_row(upper, lower, o, 2 * m, 0);
    if m < (end + 1) / 2 {
        lemma_grid_rows(upper, lower, o, m + 1, end);
        let cols = column_count(upper.width);
        let rest = (end + 1) / 2 - m;
        assert(rest * cols == cols + (rest - 1) * cols) by (nonlinear_arith);
    }
}

/// The grid formulation gives the same sums and counts as the search's.
proof fn lemma_grid_matches_window(upper: FrameView, lower: FrameView, o: int, m: int)
    requires
        0 <= m,
    ensures
        grid_rows(upper, lower, o, 0, 2 * m) == window_diff(upper, lower, o, m),
        grid_rows_count(upper.width, 0, 2 * m) == m * column_count(upper.width),
        0 <= o ==> grid_rows(upper, lower, o, 0, o) == window_diff(upper, lower, o, row_count(o)),
        0 <= o ==> grid_rows_count(upper.width, 0, o) == window_samples(upper, o),
{
    lemma_grid_rows(upper, lower, o, 0, 2 * m);
    if 0 <= o {
        lemma_grid_rows(upper, lower, o, 0, o);
    }
}

/// Whether candidate `b` has the lowest grid average of all candidates (from
/// a tenth of the height to all of it, compared on some samples): every
/// taller one averages strictly more, every shorter one at least as much.
pub open spec fn best_grid_window(upper: FrameView, lower: FrameView, b: int) -> bool {
    &&& upper.height / 10 <= b <= upper.height
    &&& grid_rows_count(upper.width, 0, b) > 0
    &&& forall|o: int|
        b < o <= upper.height && grid_rows_count(upper.width, 0, o) > 0 ==> #[trigger] grid_average(upper, lower, o)
            > grid_average(upper, lower, b)
    &&& forall|o: int|
        upper.height / 10 <= o < b && grid_rows_count(upper.width, 0, o) > 0 ==> #[trigger] grid_average(
            upper,
            lower,
            o,
        ) >= grid_average(upper, lower, b)
}

/// Whether the window `b` rows tall keeps its running average, once more
/// than 500 samples are in, within 20 of its final average.
pub open spec fn steady_grid_window(upper: FrameView, lower: FrameView, b: int) -> bool {
    forall|m: int|
        1 <= m && 2 * m <= b + 1 && grid_rows_count(upper.width, 0, 2 * m) > 500 ==> #[trigger] grid_prefix_average(
            upper,
            lower,
            b,
            2 * m,
        ) <= grid_average(upper, lower, b) + 20
}

proof fn lemma_search_keeps_found(upper: FrameView, lower: FrameView, o: int, b: int)
    requires
        -1 <= o < b,
        window_samples(upper, b) > 0,
        forall|q: int|
            upper.height / 10 <= q < b && window_samples(upper, q) > 0 ==> #[trigger] window_average(upper, lower, q)
                >= window_average(upper, lower, b),
    ensures
        search(upper, lower, o, b, window_average(upper, lower, b)) == (b, window_average(upper, lower, b)),
    decreases o + 1,
{
    if o < smallest_window(upper.height) || o < 0 {
    } else {
        lemma_search_keeps_found(upper, lower, o - 1, b);
    }
}

proof fn lemma_search_finds_best(upper: FrameView, lower: FrameView, o: int, best: int, best_avg: int, b: int)
    requires
        upper.height / 10 <= b <= o <= upper.height,
        window_samples(upper, b) > 0,
        best_avg > window_average(upper, lower, b),
        forall|q: int|
            b < q <= upper.height && window_samples(upper, q) > 0 ==> #[trigger] window_average(upper, lower, q)
                > window_average(upper, lower, b),
        forall|q: int|
            upper.height / 10 <= q < b && window_samples(upper, q) > 0 ==> #[trigger] window_average(upper, lower, q)
                >= window_average(upper, lower, b),
        forall|m: int|
            1 <= m <= row_count(b) && m * column_count(upper.width) > 500 ==> #[trigger] window_diff(upper, lower, b, m)
                / (m * column_count(upper.width)) <= window_average(upper, lower, b) + 20,
    ensures
        search(upper, lower, o, best, best_avg) == (b, window_average(upper, lower, b)),
    decreases o + 1,
{
    lemma_average_nonnegative(upper, lower, b);
    if o == b {
        assert forall|m: int| 1 <= m <= row_count(b) implies !#[trigger] gives_up_after(upper, lower, b, m, best_avg) by {
            if m * column_count(upper.width) > 500 {
                assert(window_diff(upper, lower, b, m) / (m * column_count(upper.width)) <= window_average(upper, lower, b)
                    + 20);
            }
        }
        assert(improves(upper, lower, b, best_avg));
        if window_average(upper, lower, b) != 0 {
            lemma_search_keeps_found(upper, lower, b - 1, b);
        }
    } else if improves(upper, lower, o, best_avg) {
        lemma_search_finds_best(upper, lower, o - 1, o, window_average(upper, lower, o), b);
    } else {
        lemma_search_finds_best(upper, lower, o - 1, best, best_avg, b);
    }
}

/// The best window wins: when candidate `b` has the lowest grid average of
/// all candidates, below 30, with ties going to the taller candidate, and
/// its running average never strays more than 20 above its final average
/// once more than 500 samples are in (so it is not given up), the overlap
/// is `b`, whatever the other candidates' running averages do.
pub proof fn lemma_best_window_found(upper: FrameView, lower: FrameView, b: int)
    requires
        best_grid_window(upper, lower, b),
        steady_grid_window(upper, lower, b),
        grid_average(upper, lower, b) < 30,
    ensures
        overlap(upper, lower) == b,
{
    let cols = column_count(upper.width);
    assert forall|q: int| 0 <= q <= upper.height implies #[trigger] window_samples(upper, q) == grid_rows_count(
        upper.width,
        0,
        q,
    ) && (window_samples(upper, q) > 0 ==> window_average(upper, lower, q) == grid_average(upper, lower, q)) by {
        lemma_grid_matches_window(upper, lower, q, 0);
    }
    assert(window_samples(upper, b) == grid_rows_count(upper.width, 0, b));
    assert forall|q: int|
        b < q <= upper.height && window_samples(upper, q) > 0 implies #[trigger] window_average(upper, lower, q)
            > window_average(upper, lower, b) by {
        assert(window_samples(upper, q) == grid_rows_count(upper.width, 0, q));
        assert(grid_average(upper, lower, q) > grid_average(upper, lower, b));
    }
    assert forall|q: int|
        upper.height / 10 <= q < b && window_samples(upper, q) > 0 implies #[trigger] window_average(upper, lower, q)
            >= window_average(upper, lower, b) by {
        assert(window_samples(upper, q) == grid_rows_count(upper.width, 0, q));
        assert(grid_average(upper, lower, q) >= grid_average(upper, lower, b));
    }
    assert forall|m: int| 1 <= m <= row_count(b) && m * cols > 500 implies #[trigger] window_diff(upper, lower, b, m)
        / (m * cols) <= window_average(upper, lower, b) + 20 by {
        lemma_grid_matches_window(upper, lower, b, m);
        assert(grid_prefix_average(upper, lower, b, 2 * m) <= grid_average(upper, lower, b) + 20);
    }
    lemma_search_finds_best(upper, lower, upper.height as int, 0, u64::MAX as int, b);
}
} // verus!
