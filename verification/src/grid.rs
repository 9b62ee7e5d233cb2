//! Arithmetic facts about row-major pixel offsets.
use vstd::prelude::*;

verus! {

/// The row-major offset of pixel `(x, y)` in an image `width` pixels wide lies
/// inside the image's `width * height` pixels.
pub proof fn lemma_pixel_in_image(width: int, height: int, x: int, y: int)
    requires
        0 <= x < width,
        0 <= y < height,
    ensures
        0 <= y * width + x < width * height,
        0 <= (y * width + x) * 4,
        (y * width + x) * 4 + 4 <= width * height * 4,
{
    assert(0 <= y * width) by (nonlinear_arith)
        requires 0 <= y, 0 <= width;
    assert(y * width + x < width * height) by (nonlinear_arith)
        requires 0 <= x < width, 0 <= y < height;
}

/// Distinct pixels of one image have distinct row-major offsets.
pub proof fn lemma_pixel_distinct(width: int, x1: int, y1: int, x2: int, y2: int)
    requires
        0 <= x1 < width,
        0 <= x2 < width,
        0 <= y1,
        0 <= y2,
        x1 != x2 || y1 != y2,
    ensures
        y1 * width + x1 != y2 * width + x2,
{
    if y1 < y2 {
        lemma_pixel_before(width, x1, y1, x2, y2);
    } else if y2 < y1 {
        lemma_pixel_before(width, x2, y2, x1, y1);
    }
}

/// Row-major order: a pixel on an earlier row, or earlier on the same row,
/// has a smaller offset.
pub proof fn lemma_pixel_before(width: int, x1: int, y1: int, x2: int, y2: int)
    requires
        0 <= x1 < width,
        0 <= x2,
        0 <= y1,
        y1 < y2 || (y1 == y2 && x1 < x2),
    ensures
        y1 * width + x1 < y2 * width + x2,
{
    if y1 < y2 {
        assert(y1 * width + width <= y2 * width) by (nonlinear_arith)
            requires y1 < y2, 0 <= width;
    }
}

/// A product of sizes does not grow when its factors shrink.
pub proof fn lemma_area_monotone(w1: int, h1: int, w2: int, h2: int)
    requires
        0 <= w1 <= w2,
        0 <= h1 <= h2,
    ensures
        w1 * h1 <= w2 * h2,
        w1 * h1 * 4 <= w2 * h2 * 4,
{
    assert(w1 * h1 <= w2 * h2) by (nonlinear_arith)
        requires 0 <= w1 <= w2, 0 <= h1 <= h2;
}

} // verus!
