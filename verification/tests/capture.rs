use image::{Rgba, RgbaImage};
use screamshot::capture::{collect_frame, cut_out};
use screamshot::controller::Region;
use screamshot::frame::Frame;

fn screen() -> Frame {
    let mut img = RgbaImage::new(50, 40);
    for (x, y, p) in img.enumerate_pixels_mut() {
        *p = Rgba([x as u8, y as u8, 7, 255]);
    }
    let (w, h) = img.dimensions();
    Frame::from_raw(w, h, img.into_raw()).unwrap()
}

#[test]
fn cut_out_takes_the_region() {
    let s = screen();
    let r = Region { x: 10, y: 5, width: 20, height: 30 };
    let part = cut_out(&s, r).unwrap();
    assert_eq!(part.dimensions(), (20, 30));
    assert_eq!(part.get_pixel(0, 0), [10, 5, 7, 255]);
    assert_eq!(part.get_pixel(19, 29), [29, 34, 7, 255]);
    assert!(cut_out(&s, Region { x: 31, y: 5, width: 20, height: 30 }).is_none());
    assert!(cut_out(&s, Region { x: 0, y: 11, width: 20, height: 30 }).is_none());
}

#[test]
fn collected_frames_have_the_region_size() {
    let s = screen();
    let r = Region { x: 4, y: 4, width: 12, height: 9 };
    let mut frames: Vec<Frame> = Vec::new();
    assert!(collect_frame(&mut frames, &s, r));
    assert!(collect_frame(&mut frames, &s, r));
    let small = Frame::new(10, 10);
    assert!(!collect_frame(&mut frames, &small, r));
    assert_eq!(frames.len(), 2);
    for f in &frames {
        assert_eq!(f.dimensions(), (12, 9));
    }
}
