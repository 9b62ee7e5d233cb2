use image::{Rgba, RgbaImage};
use screamshot::frame::Frame;
use screamshot::overlap::{can_find_overlap, find_overlap};
use screamshot::stitch::{stitch_frames, try_stitch_frames};

fn to_frame(img: RgbaImage) -> Frame {
    let (w, h) = img.dimensions();
    Frame::from_raw(w, h, img.into_raw()).unwrap()
}

fn gradient_pair() -> (RgbaImage, RgbaImage) {
    let mut img1 = RgbaImage::new(100, 100);
    let mut img2 = RgbaImage::new(100, 100);
    for (x, y, pixel) in img1.enumerate_pixels_mut() {
        *pixel = Rgba([x as u8, y as u8, 0, 255]);
    }
    for x in 0..100 {
        for y in 0..40 {
            *img2.get_pixel_mut(x, y) = *img1.get_pixel(x, 60 + y);
        }
        for y in 40..100 {
            *img2.get_pixel_mut(x, y) = Rgba([x as u8, y as u8 + 100, 50, 255]);
        }
    }
    (img1, img2)
}

#[test]
fn test_find_overlap_perfect() {
    let mut img1 = RgbaImage::new(100, 100);
    let mut img2 = RgbaImage::new(100, 100);

    for (x, y, pixel) in img1.enumerate_pixels_mut() {
        *pixel = Rgba([x as u8, y as u8, 0, 255]);
    }
    for x in 0..100 {
        for y in 0..40 {
            *img2.get_pixel_mut(x, y) = *img1.get_pixel(x, 60 + y);
        }
        for y in 40..100 {
            *img2.get_pixel_mut(x, y) = Rgba([x as u8, y as u8 + 100, 50, 255]);
        }
    }

    let overlap = find_overlap(&to_frame(img1), &to_frame(img2));
    assert_eq!(overlap, 40);
}

#[test]
fn test_find_overlap_none() {
    let mut img1 = RgbaImage::new(100, 100);
    let mut img2 = RgbaImage::new(100, 100);

    for pixel in img1.pixels_mut() {
        *pixel = Rgba([255, 0, 0, 255]);
    }
    for pixel in img2.pixels_mut() {
        *pixel = Rgba([0, 255, 0, 255]);
    }

    let overlap = find_overlap(&to_frame(img1), &to_frame(img2));
    assert_eq!(overlap, 0);
}

#[test]
fn test_stitch_frames() {
    let (img1, img2) = gradient_pair();
    let stitched = stitch_frames(vec![to_frame(img1), to_frame(img2)]);
    // Height should be 100 + (100 - 40) = 160
    assert_eq!(stitched.width(), 100);
    assert_eq!(stitched.height(), 160);
}

#[test]
fn stitched_rows_come_from_the_right_frames() {
    let (img1, img2) = gradient_pair();
    let f1 = to_frame(img1.clone());
    let f2 = to_frame(img2.clone());
    let stitched = stitch_frames(vec![f1, f2]);
    for x in 0..100u32 {
        for y in 0..100u32 {
            assert_eq!(stitched.get_pixel(x, y), img1.get_pixel(x, y).0);
        }
        for k in 0..60u32 {
            assert_eq!(stitched.get_pixel(x, 100 + k), img2.get_pixel(x, 40 + k).0);
        }
    }
}

#[test]
fn identical_frames_overlap_fully() {
    let (img1, _) = gradient_pair();
    let overlap = find_overlap(&to_frame(img1.clone()), &to_frame(img1.clone()));
    assert_eq!(overlap, 100);
    // Nothing new is added, so the stitched image is the first frame.
    let stitched = stitch_frames(vec![to_frame(img1.clone()), to_frame(img1.clone())]);
    assert_eq!(stitched.height(), 100);
    assert_eq!(stitched.as_raw(), &img1.into_raw());
}

#[test]
fn fewer_than_five_new_rows_add_nothing() {
    let (img1, _) = gradient_pair();
    // The second frame repeats the first one's rows 3.. at its top.
    let mut img2 = RgbaImage::new(100, 100);
    for x in 0..100 {
        for y in 0..97 {
            *img2.get_pixel_mut(x, y) = *img1.get_pixel(x, 3 + y);
        }
        for y in 97..100 {
            *img2.get_pixel_mut(x, y) = Rgba([200, 10, 10, 255]);
        }
    }
    let f1 = to_frame(img1);
    let f2 = to_frame(img2);
    assert_eq!(find_overlap(&f1, &f2), 97);
    let stitched = stitch_frames(vec![f1, f2]);
    assert_eq!(stitched.height(), 100);
}

#[test]
fn stitching_nothing_or_one_frame() {
    let empty = stitch_frames(Vec::new());
    assert_eq!((empty.width(), empty.height()), (0, 0));
    let (img1, _) = gradient_pair();
    let single = stitch_frames(vec![to_frame(img1.clone())]);
    assert_eq!(single.dimensions(), (100, 100));
    assert_eq!(single.into_raw(), img1.into_raw());
}

#[test]
fn three_frames_stack_in_order() {
    let (img1, img2) = gradient_pair();
    // A third frame whose top 40 rows repeat the second frame's bottom rows.
    let mut img3 = RgbaImage::new(100, 100);
    for x in 0..100 {
        for y in 0..40 {
            *img3.get_pixel_mut(x, y) = *img2.get_pixel(x, 60 + y);
        }
        for y in 40..100 {
            *img3.get_pixel_mut(x, y) = Rgba([x as u8, 255 - y as u8, 90, 255]);
        }
    }
    let stitched = stitch_frames(vec![to_frame(img1), to_frame(img2), to_frame(img3.clone())]);
    assert_eq!(stitched.height(), 220);
    assert_eq!(stitched.get_pixel(7, 219), img3.get_pixel(7, 99).0);
    assert_eq!(stitched.get_pixel(7, 160), img3.get_pixel(7, 40).0);
}

#[test]
fn a_too_small_follower_cannot_be_compared() {
    let (img1, _) = gradient_pair();
    let small = RgbaImage::new(10, 10);
    assert!(!can_find_overlap(&to_frame(img1.clone()), &to_frame(small.clone())));
    assert!(try_stitch_frames(vec![to_frame(img1), to_frame(small)]).is_none());
}

#[test]
fn try_stitch_agrees_with_stitch() {
    let (img1, img2) = gradient_pair();
    let a = try_stitch_frames(vec![to_frame(img1.clone()), to_frame(img2.clone())]).unwrap();
    let b = stitch_frames(vec![to_frame(img1), to_frame(img2)]);
    assert_eq!(a.into_raw(), b.into_raw());
}

#[test]
fn frames_reject_wrong_sample_counts() {
    assert!(Frame::from_raw(2, 2, vec![0u8; 15]).is_none());
    assert!(Frame::from_raw(2, 2, vec![0u8; 17]).is_none());
    assert!(Frame::from_raw(u32::MAX, u32::MAX, vec![0u8; 4]).is_none());
    let f = Frame::from_raw(2, 1, vec![1, 2, 3, 4, 5, 6, 7, 8]).unwrap();
    assert_eq!(f.get_pixel(1, 0), [5, 6, 7, 8]);
    assert_eq!(Frame::new(3, 2).as_raw(), &vec![0u8; 24]);
}

#[test]
fn put_pixel_changes_one_pixel() {
    let mut f = Frame::new(3, 2);
    f.put_pixel(2, 1, [9, 8, 7, 6]);
    let mut expected = vec![0u8; 24];
    expected[20..24].copy_from_slice(&[9, 8, 7, 6]);
    assert_eq!(f.into_raw(), expected);
}

#[test]
fn crop_matches_the_image_crate() {
    let (img1, _) = gradient_pair();
    let f = to_frame(img1.clone());
    for &(x, y, w, h) in &[(10u32, 20u32, 30u32, 40u32), (90, 95, 30, 30), (150, 0, 5, 5), (0, 0, 100, 100)] {
        let ours = f.crop(x, y, w, h);
        let theirs = image::imageops::crop_imm(&img1, x, y, w, h).to_image();
        assert_eq!(ours.dimensions(), theirs.dimensions());
        assert_eq!(ours.into_raw(), theirs.into_raw());
    }
}

#[test]
fn replace_matches_the_image_crate() {
    let (img1, img2) = gradient_pair();
    let top = image::imageops::crop_imm(&img2, 0, 0, 30, 20).to_image();
    for &(x, y) in &[(0i64, 0i64), (-10, -5), (85, 90), (100, 0), (-30, 0), (50, -19), (i64::MIN, 3)] {
        let mut ours = to_frame(img1.clone());
        ours.replace(&to_frame(top.clone()), x, y);
        let mut theirs = img1.clone();
        image::imageops::replace(&mut theirs, &top, x, y);
        assert_eq!(ours.into_raw(), theirs.into_raw());
    }
}

#[test]
fn alpha_does_not_change_the_overlap() {
    let (img1, img2) = gradient_pair();
    let mut img1b = img1.clone();
    let mut img2b = img2.clone();
    for (x, y, p) in img1b.enumerate_pixels_mut() {
        p.0[3] = ((x * 7 + y * 3) % 256) as u8;
    }
    for p in img2b.pixels_mut() {
        p.0[3] = 0;
    }
    let plain = find_overlap(&to_frame(img1), &to_frame(img2));
    let changed = find_overlap(&to_frame(img1b), &to_frame(img2b));
    assert_eq!(plain, 40);
    assert_eq!(changed, plain);
}

#[test]
fn repeating_the_last_capture_adds_nothing() {
    let (img1, img2) = gradient_pair();
    let once = stitch_frames(vec![to_frame(img1.clone()), to_frame(img2.clone())]);
    let f2 = to_frame(img2.clone());
    let twice = stitch_frames(vec![to_frame(img1.clone()), f2.clone(), f2]);
    assert_eq!(twice.dimensions(), once.dimensions());
    assert_eq!(twice.into_raw(), once.into_raw());
    let single = stitch_frames(vec![to_frame(img1.clone())]);
    let doubled = stitch_frames(vec![to_frame(img1.clone()), to_frame(img1.clone())]);
    assert_eq!(doubled.into_raw(), single.into_raw());
}
