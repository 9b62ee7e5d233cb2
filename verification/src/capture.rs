//! Cutting a selected region out of a screen capture, and collecting the
//! frames of a scrolling capture.
use vstd::prelude::*;

use crate::controller::Region;
use crate::frame::{Frame, FrameView};

verus! {

/// Whether the region lies inside a screen image of the given size.
pub open spec fn region_fits(region: Region, width: u32, height: u32) -> bool {
    region.x + region.width <= width && region.y + region.height <= height
}

/// Whether `f` is the part of `screen` inside `region`.
pub open spec fn is_cut_out(f: FrameView, screen: FrameView, region: Region) -> bool {
    &&& f.width == region.width
    &&& f.height == region.height
    &&& forall|px: int, py: int, c: int|
        0 <= px < f.width && 0 <= py < f.height && 0 <= c < 4 ==> #[trigger] f.sample(px, py, c) == screen.sample(
            region.x + px,
            region.y + py,
            c,
        )
}

/// Whether every frame is exactly as large as the region.
pub open spec fn all_region_sized(frames: Seq<Frame>, region: Region) -> bool {
    forall|i: int|
        0 <= i < frames.len() ==> #[trigger] frames[i]@.width == region.width && frames[i]@.height == region.height
}

/// The part of the screen capture inside `region`, or `None` when the region
/// does not fit on it.
pub fn cut_out(screen: &Frame, region: Region) -> (r: Option<Frame>)
    ensures
        r is Some <==> region_fits(region, screen@.width, screen@.height),
        r matches Some(f) ==> is_cut_out(f@, screen@, region),
{
    let (width, height) = screen.dimensions();
    if region.fits_within(width, height) {
        Some(screen.crop(region.x, region.y, region.width, region.height))
    } else {
        None
    }
}

/// Adds the part of the screen capture inside `region` to the frames of a
/// scrolling capture, when the region fits on it; returns whether it did.
/// Frames collected for one region all have that region's size.
pub fn collect_frame(frames: &mut Vec<Frame>, screen: &Frame, region: Region) -> (added: bool)
    ensures
        added == region_fits(region, screen@.width, screen@.height),
        added ==> {
            &&& final(frames)@.len() == old(frames)@.len() + 1
            &&& final(frames)@.take(old(frames)@.len() as int) == old(frames)@
            &&& is_cut_out(final(frames)@.last()@, screen@, region)
        },
        !added ==> final(frames)@ == old(frames)@,
        all_region_sized(old(frames)@, region) ==> all_region_sized(final(frames)@, region),
{
    match cut_out(screen, region) {
        Some(f) => {
            frames.push(f);
            assert(frames@.take(old(frames)@.len() as int) =~= old(frames)@);
            true
        },
        None => false,
    }
}

} // verus!
