//! The tray icon: a 32 by 32 gradient, red growing to the right and blue
//! growing downwards, fully opaque.
use vstd::prelude::*;

use crate::frame::{Frame, FrameView};

verus! {

/// The level of a channel at position `p` of `size`: `p / size` of full
/// scale, rounded down.
pub open spec fn ramp(p: int, size: int) -> int {
    p * 255 / size
}

/// Whether pixel `(x, y)` of `f` has the icon's colour.
pub open spec fn icon_pixel(f: FrameView, x: int, y: int) -> bool {
    &&& f.sample(x, y, 0) == ramp(x, 32)
    &&& f.sample(x, y, 1) == 0
    &&& f.sample(x, y, 2) == ramp(y, 32)
    &&& f.sample(x, y, 3) == 255
}

/// The 32 by 32 tray icon.
pub fn tray_icon_image() -> (r: Frame)
    ensures
        r@.width == 32,
        r@.height == 32,
        forall|x: int, y: int|
            0 <= x < 32 && 0 <= y < 32 ==> #[trigger] icon_pixel(r@, x, y),
{
    let width: u32 = 32;
    let height: u32 = 32;
    let mut img = Frame::new(width, height);
    let mut y: u32 = 0;
    while y < height
        invariant
            y <= height,
            width == 32,
            height == 32,
            img@.width == 32,
            img@.height == 32,
            forall|px: int, py: int|
                0 <= px < 32 && 0 <= py < y ==> #[trigger] icon_pixel(img@, px, py),
        decreases height - y,
    {
        let mut x: u32 = 0;
        while x < width
            invariant
                x <= width,
                y < height,
                width == 32,
                height == 32,
                img@.width == 32,
                img@.height == 32,
                forall|px: int, py: int|
                    0 <= px < 32 && 0 <= py < 32 && (py < y || (py == y && px < x)) ==> #[trigger] icon_pixel(img@, px, py),
            decreases width - x,
        {
            let r = (x * 255 / width) as u8;
            let b = (y * 255 / height) as u8;
            let p: [u8; 4] = [r, 0, b, 255];
            assert(p@[0] == r && p@[1] == 0 && p@[2] == b && p@[3] == 255);
            let ghost before = img@;
            img.put_pixel(x, y, p);
            assert forall|px: int, py: int|
                0 <= px < 32 && 0 <= py < 32 && (py < y || (py == y && px < x + 1)) implies #[trigger] icon_pixel(
                img@,
                px,
                py,
            ) by {
                if px != x || py != y {
                    assert(icon_pixel(before, px, py));
                }
            }
            x = x + 1;
        }
        y = y + 1;
    }
    img
}

} // verus!
