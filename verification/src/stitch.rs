//! Stitching a scrolling capture: each frame after the first adds the rows
//! that do not overlap its predecessor, below the rows placed so far.
use vstd::prelude::*;

use crate::frame::{Frame, FrameView};
use crate::overlap::{can_find_overlap, find_overlap, overlap, overlap_defined};

verus! {

/// How many rows frame `i` shares with frame `i - 1`.
pub open spec fn overlap_before(frames: Seq<Frame>, i: int) -> int {
    overlap(frames[i - 1]@, frames[i]@)
}

/// How many rows frame `i` (for `i >= 1`) adds: the first frame's height less
/// the overlap with its predecessor, or none when that is fewer than five.
pub open spec fn added_rows(frames: Seq<Frame>, i: int) -> int {
    let fresh = frames[0]@.height - overlap_before(frames, i);
    if fresh < 5 {
        0
    } else {
        fresh
    }
}

/// The first stitched row that frame `i` (for `i >= 1`) fills: the first
/// frame's rows, then the rows added by frames `1 .. i`.
pub open spec fn segment_start(frames: Seq<Frame>, i: int) -> int
    decreases i,
{
    if i <= 1 {
        frames[0]@.height as int
    } else {
        segment_start(frames, i - 1) + added_rows(frames, i - 1)
    }
}

/// The height of the stitched image.
pub open spec fn stitched_height(frames: Seq<Frame>) -> int {
    segment_start(frames, frames.len() as int)
}

/// Sample `c` of column `x` of the `k`-th row that frame `i` adds: its row
/// `k` below the overlap, or zero where the frame has no such pixel.
pub open spec fn segment_sample(frames: Seq<Frame>, i: int, x: int, k: int, c: int) -> u8 {
    if x < frames[i]@.width && overlap_before(frames, i) + k < frames[i]@.height {
        frames[i]@.sample(x, overlap_before(frames, i) + k, c)
    } else {
        0
    }
}

/// Sample `c` of pixel `(x, y)` of the image stitched from the first `n`
/// frames (`n >= 1`).
pub open spec fn stitched_sample_upto(frames: Seq<Frame>, n: int, x: int, y: int, c: int) -> u8
    decreases n,
{
    if n <= 1 {
        if y < frames[0]@.height {
            frames[0]@.sample(x, y, c)
        } else {
            0
        }
    } else if segment_start(frames, n - 1) <= y < segment_start(frames, n - 1) + added_rows(frames, n - 1) {
        segment_sample(frames, n - 1, x, y - segment_start(frames, n - 1), c)
    } else {
        stitched_sample_upto(frames, n - 1, x, y, c)
    }
}

/// Sample `c` of pixel `(x, y)` of the stitched image.
pub open spec fn stitched_sample(frames: Seq<Frame>, x: int, y: int, c: int) -> u8 {
    stitched_sample_upto(frames, frames.len() as int, x, y, c)
}

/// The inputs that can be stitched: every overlap can be computed and is at
/// most the first frame's height, and the stitched image's size stays in range.
pub open spec fn stitch_defined(frames: Seq<Frame>) -> bool {
    frames.len() >= 2 ==> {
        &&& forall|i: int| 1 <= i < frames.len() ==> overlap_defined(frames[i - 1]@, #[trigger] frames[i]@)
        &&& forall|i: int| 1 <= i < frames.len() ==> #[trigger] overlap_before(frames, i) <= frames[0]@.height
        &&& stitched_height(frames) <= u32::MAX
        &&& frames[0]@.width * stitched_height(frames) * 4 <= usize::MAX
    }
}

/// Segments start no earlier than the rows of the first frame end, and later
/// segments start no earlier than earlier ones.
pub proof fn lemma_segment_start_grows(frames: Seq<Frame>, i: int, j: int)
    requires
        1 <= i <= j,
        forall|k: int| 1 <= k < j ==> #[trigger] overlap_before(frames, k) <= frames[0]@.height,
    ensures
        frames[0]@.height <= segment_start(frames, i) <= segment_start(frames, j),
    decreases j,
{
    if j > i {
        lemma_segment_start_grows(frames, i, j - 1);
    } else if i > 1 {
        lemma_segment_start_grows(frames, i - 1, i - 1);
    }
}

/// Below the rows placed by the first `n` frames, the stitched image is blank.
proof fn lemma_blank_below(frames: Seq<Frame>, n: int, x: int, y: int, c: int)
    requires
        1 <= n,
        y >= segment_start(frames, n),
        forall|k: int| 1 <= k < n ==> #[trigger] overlap_before(frames, k) <= frames[0]@.height,
    ensures
        stitched_sample_upto(frames, n, x, y, c) == 0,
    decreases n,
{
    if n > 1 {
        lemma_segment_start_grows(frames, n - 1, n - 1);
        lemma_blank_below(frames, n - 1, x, y, c);
    }
}


proof fn lemma_segment_upto(frames: Seq<Frame>, n: int, i: int, x: int, k: int, c: int)
    requires
        1 <= i < n <= frames.len(),
        0 <= k < added_rows(frames, i),
        forall|j: int| 1 <= j < frames.len() ==> #[trigger] overlap_before(frames, j) <= frames[0]@.height,
    ensures
        stitched_sample_upto(frames, n, x, segment_start(frames, i) + k, c) == segment_sample(frames, i, x, k, c),
    decreases n,
{
    if n - 1 > i {
        lemma_segment_start_grows(frames, i + 1, n - 1);
        lemma_segment_upto(frames, n - 1, i, x, k, c);
    }
}

proof fn lemma_first_frame_upto(frames: Seq<Frame>, n: int, x: int, y: int, c: int)
    requires
        1 <= n <= frames.len(),
        0 <= y < frames[0]@.height,
        forall|j: int| 1 <= j < frames.len() ==> #[trigger] overlap_before(frames, j) <= frames[0]@.height,
    ensures
        stitched_sample_upto(frames, n, x, y, c) == frames[0]@.sample(x, y, c),
    decreases n,
{
    if n > 1 {
        lemma_segment_start_grows(frames, n - 1, n - 1);
        lemma_first_frame_upto(frames, n - 1, x, y, c);
    }
}

/// The stitched image keeps the first frame whole at the top, and each later
/// frame `i` fills the `added_rows(frames, i)` rows starting at
/// `segment_start(frames, i)` with its own rows below the overlap with its
/// predecessor; these stretches follow one another without gaps.
pub proof fn lemma_stitched_layout(frames: Seq<Frame>)
    requires
        frames.len() >= 2,
        stitch_defined(frames),
    ensures
        forall|x: int, y: int, c: int|
            0 <= y < frames[0]@.height ==> #[trigger] stitched_sample(frames, x, y, c) == frames[0]@.sample(x, y, c),
        forall|i: int, x: int, k: int, c: int|
            1 <= i < frames.len() && 0 <= k < added_rows(frames, i) ==> stitched_sample(
                frames,
                x,
                segment_start(frames, i) + k,
                c,
            ) == #[trigger] segment_sample(frames, i, x, k, c),
        forall|i: int|
            1 <= i < frames.len() ==> #[trigger] segment_start(frames, i + 1) == segment_start(frames, i) + added_rows(
                frames,
                i,
            ),
        segment_start(frames, 1) == frames[0]@.height,
{
    assert forall|x: int, y: int, c: int| 0 <= y < frames[0]@.height implies #[trigger] stitched_sample(
        frames,
        x,
        y,
        c,
    ) == frames[0]@.sample(x, y, c) by {
        lemma_first_frame_upto(frames, frames.len() as int, x, y, c);
    }
    assert forall|i: int, x: int, k: int, c: int|
        1 <= i < frames.len() && 0 <= k < added_rows(frames, i) implies stitched_sample(
        frames,
        x,
        segment_start(frames, i) + k,
        c,
    ) == #[trigger] segment_sample(frames, i, x, k, c) by {
        lemma_segment_upto(frames, frames.len() as int, i, x, k, c);
    }
}

/// When the second of two frames repeats, at every sampled pixel, the last
/// `o0` rows of the first, those rows are not stacked twice: the stitched
/// image is at most twice the first frame's height less `o0` rows.
pub proof fn lemma_repeated_rows_not_stacked(frames: Seq<Frame>, o0: int)
    requires
        frames.len() == 2,
        crate::overlap::column_count(frames[0]@.width) > 0,
        1 <= o0,
        crate::overlap::smallest_window(frames[0]@.height) <= o0 <= frames[0]@.height,
        crate::overlap::matches_exactly(frames[0]@, frames[1]@, o0),
    ensures
        frames[0]@.height <= stitched_height(frames) <= 2 * frames[0]@.height - o0,
{
    crate::overlap::lemma_exact_match_found(frames[0]@, frames[1]@, o0);
    assert(segment_start(frames, 2) == segment_start(frames, 1) + added_rows(frames, 1));
}

/// Whether `r` is the image stitched from two or more `frames`: as wide as
/// the first frame, as tall as the stitched height, with the stitched samples.
pub open spec fn is_stitched(r: FrameView, frames: Seq<Frame>) -> bool {
    &&& r.width == frames[0]@.width
    &&& r.height == stitched_height(frames)
    &&& forall|x: int, y: int, c: int|
        0 <= x < r.width && 0 <= y < r.height && 0 <= c < 4 ==> #[trigger] r.sample(x, y, c) == stitched_sample(
            frames,
            x,
            y,
            c,
        )
}

/// Whether `r` is what stitching `frames` gives: an empty image for no
/// frames, the frame itself for one, the stitched image for more.
pub open spec fn stitches_to(frames: Seq<Frame>, r: FrameView) -> bool {
    if frames.len() == 0 {
        r.width == 0 && r.height == 0
    } else if frames.len() == 1 {
        r == frames[0]@
    } else {
        is_stitched(r, frames)
    }
}

/// How many rows each frame after the first adds, and the stitched height;
/// `None` where the frames cannot be stitched.
fn plan_rows(frames: &Vec<Frame>) -> (r: Option<(Vec<u32>, u32)>)
    requires
        frames.len() >= 2,
    ensures
        r is Some <==> stitch_defined(frames@),
        r matches Some((offsets, total)) ==> {
            &&& offsets@.len() == frames.len()
            &&& forall|i: int| 1 <= i < frames.len() ==> #[trigger] offsets@[i] == added_rows(frames@, i)
            &&& total == stitched_height(frames@)
        },
{
    let n = frames.len();
    let (width, height) = frames[0].dimensions();
    let mut offsets: Vec<u32> = Vec::new();
    offsets.push(0);
    let mut total: u32 = height;
    let mut i: usize = 1;
    while i < n
        invariant
            1 <= i <= n,
            n == frames.len(),
            width == frames@[0]@.width,
            height == frames@[0]@.height,
            offsets@.len() == i,
            forall|j: int| 1 <= j < i ==> #[trigger] offsets@[j] == added_rows(frames@, j),
            forall|j: int| 1 <= j < i ==> overlap_defined(frames@[j - 1]@, #[trigger] frames@[j]@),
            forall|j: int| 1 <= j < i ==> #[trigger] overlap_before(frames@, j) <= height,
            total == segment_start(frames@, i as int),
        decreases n - i,
    {
        if !can_find_overlap(&frames[i - 1], &frames[i]) {
            assert(!overlap_defined(frames@[i as int - 1]@, frames@[i as int]@));
            assert(!stitch_defined(frames@)) by {
                let k = i as int;
                assert(1 <= k < frames@.len());
                assert(frames@[k - 1]@ == frames@[i as int - 1]@);
            }
            return None;
        }
        let overlap = find_overlap(&frames[i - 1], &frames[i]);
        if overlap > height {
            assert(overlap_before(frames@, i as int) > height);
            return None;
        }
        let new_height = height - overlap;
        if new_height < 5 {
            offsets.push(0);
        } else {
            if total as u64 + new_height as u64 > u32::MAX as u64 {
                proof {
                    if stitch_defined(frames@) {
                        lemma_segment_start_grows(frames@, i as int + 1, n as int);
                    }
                }
                return None;
            }
            offsets.push(new_height);
            total = total + new_height;
        }
        i = i + 1;
    }
    match (width as usize).checked_mul(total as usize) {
        Some(pixels) => match pixels.checked_mul(4) {
            Some(_) => Some((offsets, total)),
            None => None,
        },
        None => {
            assert(width * total * 4 > usize::MAX) by (nonlinear_arith)
                requires
                    width * total > usize::MAX,
            ;
            None
        },
    }
}

/// Lays the frames out one below the other as planned.
fn assemble(frames: &Vec<Frame>, offsets: &Vec<u32>, total: u32) -> (r: Frame)
    requires
        frames.len() >= 2,
        stitch_defined(frames@),
        offsets@.len() == frames.len(),
        forall|i: int| 1 <= i < frames.len() ==> #[trigger] offsets@[i] == added_rows(frames@, i),
        total == stitched_height(frames@),
    ensures
        is_stitched(r@, frames@),
{
    let n = frames.len();
    let (width, height) = frames[0].dimensions();
    proof {
        lemma_segment_start_grows(frames@, 1, n as int);
    }
    let mut result = Frame::new(width, total);
    result.replace(&frames[0], 0, 0);
    assert forall|x: int, y: int, c: int|
        0 <= x < width && 0 <= y < total && 0 <= c < 4 implies #[trigger] result@.sample(x, y, c)
            == stitched_sample_upto(frames@, 1, x, y, c) by {
        crate::grid::lemma_pixel_in_image(width as int, total as int, x, y);
    }
    let mut current_y: i64 = height as i64;
    let mut i: usize = 1;
    while i < n
        invariant
            1 <= i <= n,
            n == frames.len(),
            stitch_defined(frames@),
            offsets@.len() == n,
            forall|j: int| 1 <= j < n ==> #[trigger] offsets@[j] == added_rows(frames@, j),
            total == stitched_height(frames@),
            width == frames@[0]@.width,
            height == frames@[0]@.height,
            current_y == segment_start(frames@, i as int),
            result@.width == width,
            result@.height == total,
            forall|x: int, y: int, c: int|
                0 <= x < width && 0 <= y < total && 0 <= c < 4 ==> #[trigger] result@.sample(x, y, c)
                    == stitched_sample_upto(frames@, i as int, x, y, c),
        decreases n - i,
    {
        proof {
            lemma_segment_start_grows(frames@, i as int + 1, n as int);
        }
        let ghost before = result@;
        let added = offsets[i];
        proof {
            crate::overlap::lemma_overlap_is_good_match(frames@[i - 1]@, frames@[i as int]@);
        }
        if added != 0 {
            let overlap = height - added;
            let new_part = frames[i].crop(0, overlap, width, added);
            result.replace(&new_part, 0, current_y);
            current_y = current_y + added as i64;
        }
        assert forall|x: int, y: int, c: int|
            0 <= x < width && 0 <= y < total && 0 <= c < 4 implies #[trigger] result@.sample(x, y, c)
                == stitched_sample_upto(frames@, i as int + 1, x, y, c) by {
            if y >= segment_start(frames@, i as int) {
                lemma_blank_below(frames@, i as int, x, y, c);
            }
        }
        i = i + 1;
    }
    result
}

/// Stitches the frames of a scrolling capture into one image: the first frame
/// whole, then, for each later frame, its rows below the overlap with its
/// predecessor (none when fewer than five would be added).
pub fn stitch_frames(frames: Vec<Frame>) -> (r: Frame)
    requires
        stitch_defined(frames@),
    ensures
        stitches_to(frames@, r@),
{
    if frames.len() == 0 {
        return Frame::new(0, 0);
    }
    if frames.len() == 1 {
        return frames[0].clone();
    }
    match plan_rows(&frames) {
        Some((offsets, total)) => assemble(&frames, &offsets, total),
        None => {
            assert(false);
            Frame::new(0, 0)
        },
    }
}

/// Like `stitch_frames`, but `None` where the frames cannot be stitched.
pub fn try_stitch_frames(frames: Vec<Frame>) -> (r: Option<Frame>)
    ensures
        r is Some <==> stitch_defined(frames@),
        r matches Some(f) ==> stitches_to(frames@, f@),
{
    if frames.len() == 0 {
        return Some(Frame::new(0, 0));
    }
    if frames.len() == 1 {
        return Some(frames[0].clone());
    }
    match plan_rows(&frames) {
        Some((offsets, total)) => Some(assemble(&frames, &offsets, total)),
        None => None,
    }
}

proof fn lemma_same_prefix(f: Seq<Frame>, g: Seq<Frame>, i: int)
    requires
        1 <= i <= f.len(),
        f.len() < g.len(),
        forall|j: int| 0 <= j < f.len() ==> #[trigger] g[j]@ == f[j]@,
    ensures
        segment_start(g, i) == segment_start(f, i),
        forall|x: int, y: int, c: int| #[trigger]
            stitched_sample_upto(g, i, x, y, c) == stitched_sample_upto(f, i, x, y, c),
    decreases i,
{
    assert(g[0]@ == f[0]@);
    if i > 1 {
        lemma_same_prefix(f, g, i - 1);
        assert(g[i - 2]@ == f[i - 2]@);
        assert(g[i - 1]@ == f[i - 1]@);
        assert(added_rows(g, i - 1) == added_rows(f, i - 1));
        assert forall|x: int, y: int, c: int| #[trigger]
            stitched_sample_upto(g, i, x, y, c) == stitched_sample_upto(f, i, x, y, c) by {
            assert(stitched_sample_upto(g, i - 1, x, y, c) == stitched_sample_upto(f, i - 1, x, y, c));
            assert(segment_sample(g, i - 1, x, y - segment_start(f, i - 1), c) == segment_sample(
                f,
                i - 1,
                x,
                y - segment_start(f, i - 1),
                c,
            ));
        }
    }
}

/// Capturing the same view once more at the end of a scrolling capture adds
/// nothing: when `g` is `f` with a copy of its last frame appended, and that
/// frame is as tall as the first and at least two pixels wide, stitching `g`
/// gives what stitching `f` gives.
pub proof fn lemma_repeated_last_frame_adds_nothing(f: Seq<Frame>, g: Seq<Frame>, r1: FrameView, r2: FrameView)
    requires
        f.len() >= 1,
        g.len() == f.len() + 1,
        forall|j: int| 0 <= j < f.len() ==> #[trigger] g[j]@ == f[j]@,
        g[f.len() as int]@ == f[f.len() - 1]@,
        f[f.len() - 1]@.width >= 2,
        f[f.len() - 1]@.height == f[0]@.height,
        f[0]@.height >= 1,
        r1.well_formed(),
        r2.well_formed(),
        stitches_to(f, r1),
        stitches_to(g, r2),
    ensures
        r1 == r2,
{
    let n = f.len() as int;
    let last = f[n - 1]@;
    crate::overlap::lemma_identical_frames_overlap_fully(last);
    assert(g[n - 1]@ == last);
    assert(overlap_before(g, n) == last.height);
    assert(g[0]@ == f[0]@);
    assert(added_rows(g, n) == 0);
    lemma_same_prefix(f, g, n);
    assert(stitched_height(g) == segment_start(f, n));
    assert forall|x: int, y: int, c: int| #[trigger]
        stitched_sample(g, x, y, c) == stitched_sample_upto(f, n, x, y, c) by {
        assert(stitched_sample_upto(g, n, x, y, c) == stitched_sample_upto(f, n, x, y, c));
    }
    if n == 1 {
        crate::frame::lemma_frame_well_formed(f[0]);
        assert forall|x: int, y: int, c: int|
            0 <= x < r2.width && 0 <= y < r2.height && 0 <= c < 4 implies #[trigger] r2.sample(x, y, c)
                == r1.sample(x, y, c) by {
            assert(stitched_sample(g, x, y, c) == stitched_sample_upto(f, 1, x, y, c));
        }
        crate::frame::lemma_views_equal(r2, r1);
    } else {
        assert forall|x: int, y: int, c: int|
            0 <= x < r2.width && 0 <= y < r2.height && 0 <= c < 4 implies #[trigger] r2.sample(x, y, c)
                == r1.sample(x, y, c) by {
            assert(stitched_sample(g, x, y, c) == stitched_sample(f, x, y, c));
        }
        crate::frame::lemma_views_equal(r2, r1);
    }
}

/// The rows the frames `1 .. n` bring in: for each, the first frame's height
/// less its overlap with the frame before it, when that is at least 5 rows.
pub open spec fn fresh_rows_total(frames: Seq<Frame>, n: int) -> int
    decreases n,
{
    if n <= 1 {
        0
    } else {
        let fresh = frames[0]@.height - overlap(frames[n - 2]@, frames[n - 1]@);
        fresh_rows_total(frames, n - 1) + if fresh >= 5 {
            fresh
        } else {
            0
        }
    }
}

proof fn lemma_segment_start_total(frames: Seq<Frame>, i: int)
    requires
        1 <= i,
    ensures
        segment_start(frames, i) == frames[0]@.height + fresh_rows_total(frames, i),
    decreases i,
{
    if i > 1 {
        lemma_segment_start_total(frames, i - 1);
    }
}

/// The stitched image is as tall as the first frame plus, for every later
/// frame, the first frame's height less its overlap with the frame before it,
/// whenever that leaves at least 5 rows.  In particular two frames whose
/// overlap `o` leaves at least 5 of the first frame's `h` rows stitch to
/// `2h - o` rows when the second frame is as tall as the first, and to `h`
/// rows when fewer than 5 are left.
pub proof fn lemma_stitched_height_counts_fresh_rows(frames: Seq<Frame>, r: FrameView)
    requires
        frames.len() >= 1,
        stitches_to(frames, r),
    ensures
        r.height == frames[0]@.height + fresh_rows_total(frames, frames.len() as int),
        frames.len() == 2 ==> {
            let h = frames[0]@.height as int;
            let o = overlap(frames[0]@, frames[1]@);
            &&& h - o >= 5 ==> r.height == h + (h - o)
            &&& h - o < 5 ==> r.height == h
        },
{
    lemma_segment_start_total(frames, frames.len() as int);
    if frames.len() == 2 {
        assert(fresh_rows_total(frames, 1) == 0);
    }
}

/// Where each stitched row comes from, counted without reference to the
/// segment bookkeeping: the first `h` rows are the first frame's; then each
/// later frame `i` whose overlap `o` with the frame before it leaves at least
/// 5 of the first frame's `h` rows contributes its rows `o, o + 1, ...` (black
/// where it has no such pixel), `h - o` of them, placed right below the rows
/// brought in by the frames before it.
pub proof fn lemma_stitched_rows(frames: Seq<Frame>, r: FrameView)
    requires
        frames.len() >= 2,
        stitch_defined(frames),
        stitches_to(frames, r),
    ensures
        forall|x: int, y: int, c: int|
            0 <= x < frames[0]@.width && 0 <= y < frames[0]@.height && 0 <= c < 4 ==> #[trigger] r.sample(x, y, c)
                == frames[0]@.sample(x, y, c),
        forall|i: int, x: int, k: int, c: int|
            1 <= i < frames.len() && frames[0]@.height - overlap(frames[i - 1]@, frames[i]@) >= 5 && 0 <= k
                < frames[0]@.height - overlap(frames[i - 1]@, frames[i]@) && 0 <= x < frames[0]@.width && 0 <= c
                < 4 ==> #[trigger] r.sample(x, frames[0]@.height + fresh_rows_total(frames, i) + k, c) == if x
                < frames[i]@.width && overlap(frames[i - 1]@, frames[i]@) + k < frames[i]@.height {
                frames[i]@.sample(x, overlap(frames[i - 1]@, frames[i]@) + k, c)
            } else {
                0u8
            },
{
    assert forall|x: int, y: int, c: int|
        0 <= x < frames[0]@.width && 0 <= y < frames[0]@.height && 0 <= c < 4 implies #[trigger] r.sample(x, y, c)
            == frames[0]@.sample(x, y, c) by {
        lemma_first_row_of_stitch(frames, r, x, y, c);
    }
    assert forall|i: int, x: int, k: int, c: int|
        1 <= i < frames.len() && frames[0]@.height - overlap(frames[i - 1]@, frames[i]@) >= 5 && 0 <= k
            < frames[0]@.height - overlap(frames[i - 1]@, frames[i]@) && 0 <= x < frames[0]@.width && 0 <= c
            < 4 implies #[trigger] r.sample(x, frames[0]@.height + fresh_rows_total(frames, i) + k, c) == if x
            < frames[i]@.width && overlap(frames[i - 1]@, frames[i]@) + k < frames[i]@.height {
            frames[i]@.sample(x, overlap(frames[i - 1]@, frames[i]@) + k, c)
        } else {
            0u8
        } by {
        lemma_later_row_of_stitch(frames, r, i, x, k, c);
    }
}

proof fn lemma_first_row_of_stitch(frames: Seq<Frame>, r: FrameView, x: int, y: int, c: int)
    requires
        frames.len() >= 2,
        stitch_defined(frames),
        stitches_to(frames, r),
        0 <= x < frames[0]@.width,
        0 <= y < frames[0]@.height,
        0 <= c < 4,
    ensures
        r.sample(x, y, c) == frames[0]@.sample(x, y, c),
{
    lemma_segment_start_grows(frames, 1, frames.len() as int);
    lemma_first_frame_upto(frames, frames.len() as int, x, y, c);
    assert(r.sample(x, y, c) == stitched_sample(frames, x, y, c));
}

proof fn lemma_later_row_of_stitch(frames: Seq<Frame>, r: FrameView, i: int, x: int, k: int, c: int)
    requires
        frames.len() >= 2,
        stitch_defined(frames),
        stitches_to(frames, r),
        1 <= i < frames.len(),
        frames[0]@.height - overlap(frames[i - 1]@, frames[i]@) >= 5,
        0 <= k < frames[0]@.height - overlap(frames[i - 1]@, frames[i]@),
        0 <= x < frames[0]@.width,
        0 <= c < 4,
    ensures
        r.sample(x, frames[0]@.height + fresh_rows_total(frames, i) + k, c) == if x < frames[i]@.width && overlap(
            frames[i - 1]@,
            frames[i]@,
        ) + k < frames[i]@.height {
            frames[i]@.sample(x, overlap(frames[i - 1]@, frames[i]@) + k, c)
        } else {
            0u8
        },
{
    lemma_segment_start_total(frames, i);
    lemma_segment_start_grows(frames, i, i);
    lemma_segment_start_grows(frames, i + 1, frames.len() as int);
    assert(added_rows(frames, i) == frames[0]@.height - overlap(frames[i - 1]@, frames[i]@));
    assert(segment_start(frames, i + 1) == segment_start(frames, i) + added_rows(frames, i));
    lemma_segment_upto(frames, frames.len() as int, i, x, k, c);
    let y = segment_start(frames, i) + k;
    assert(is_stitched(r, frames));
    assert(y < segment_start(frames, frames.len() as int));
    assert(y < r.height);
    assert(r.sample(x, y, c) == stitched_sample(frames, x, y, c));
}
} // verus!
