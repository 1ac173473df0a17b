use galerie_montsouris::filters::{Filter, Point, Rgba, RotateFill};
use galerie_montsouris::pixels::{
    can_fit_within, can_resize, channel_peak, compute_histogram, crop_to_middle,
    exif_rotation_degrees, fit_within, orientation_degrees, rotate_rgba, upright, FilterRun, Given,
    Need, Pixels,
};
use galerie_montsouris::scalar::Scalar;

fn number(x: f32) -> Scalar {
    Scalar { bits: x.to_bits() }
}

fn value(s: Scalar) -> f32 {
    f32::from_bits(s.bits)
}

fn solid_rgba(r: u8, g: u8, b: u8, a: u8, w: u32, h: u32) -> Pixels {
    let mut data = Vec::new();
    for _ in 0..w * h {
        data.extend_from_slice(&[r, g, b, a]);
    }
    Pixels { width: w, height: h, data }
}

fn pixel(img: &Pixels, x: u32, y: u32) -> [u8; 4] {
    let at = ((y * img.width + x) * 4) as usize;
    [img.data[at], img.data[at + 1], img.data[at + 2], img.data[at + 3]]
}

/// An image with every pixel its own.
fn distinct(w: u32, h: u32) -> Pixels {
    let mut data = Vec::new();
    for i in 0..w * h {
        data.extend_from_slice(&[i as u8, (i + 100) as u8, (i + 200) as u8, 255]);
    }
    Pixels { width: w, height: h, data }
}

fn table(f: impl Fn(f32) -> f32) -> Vec<u8> {
    (0..256).map(|i| f(i as f32).round().clamp(0.0, 255.0) as u8).collect()
}

fn given_for(filter: &Filter, img: &Pixels) -> Given {
    let (w, h) = (img.width as f32, img.height as f32);
    match (filter.need(img.width, img.height), filter) {
        (Need::Region, Filter::Crop { x, y, width, height }) => Given::Region {
            x: (value(*x) * w).round() as u32,
            y: (value(*y) * h).round() as u32,
            width: (value(*width) * w).round() as u32,
            height: (value(*height) * h).round() as u32,
        },
        (Need::Size, Filter::Scale { factor }) => Given::Size {
            width: (w * value(*factor)).round() as u32,
            height: (h * value(*factor)).round() as u32,
        },
        (Need::Size, Filter::CapSize { max_px }) => {
            let scale = *max_px as f32 / img.width.max(img.height) as f32;
            Given::Size { width: (w * scale).round() as u32, height: (h * scale).round() as u32 }
        }
        (Need::Table, Filter::Exposure { stops }) => {
            let scale = 2f32.powf(value(*stops));
            Given::Table(table(|v| v * scale))
        }
        (Need::Table, Filter::Contrast { factor }) => {
            let factor = value(*factor);
            Given::Table(table(|v| (v - 128.0) * factor + 128.0))
        }
        (Need::Nothing, _) => Given::Nothing,
        (need, f) => panic!("{:?} of {:?}", need, f),
    }
}

fn applied(filter: Filter, img: Pixels) -> Pixels {
    let given = given_for(&filter, &img);
    filter.apply(img, given)
}

#[test]
fn rotate_rgba_dimensions_swap() {
    let img = solid_rgba(0, 0, 0, 0, 100, 50);
    let rotated = rotate_rgba(img, 90, None);
    assert_eq!((rotated.width, rotated.height), (50, 100));
}

#[test]
fn rotate_rgba_arbitrary_zero_is_identity() {
    let rotated = rotate_rgba(solid_rgba(128, 64, 32, 255, 60, 40), 0, None);
    assert_eq!((rotated.width, rotated.height), (60, 40));
    assert_eq!(pixel(&rotated, 0, 0), [128, 64, 32, 255]);
}

#[test]
fn flip_horizontal_mirrors_pixels() {
    let img = Pixels { width: 2, height: 1, data: vec![255, 0, 0, 255, 0, 0, 255, 255] };
    let flipped = applied(Filter::FlipHorizontal, img);
    assert_eq!(pixel(&flipped, 0, 0), [0, 0, 255, 255]);
    assert_eq!(pixel(&flipped, 1, 0), [255, 0, 0, 255]);
}

#[test]
fn exposure_brightens_pixels() {
    let img = solid_rgba(100, 100, 100, 255, 2, 2);
    let brighter = applied(Filter::Exposure { stops: number(1.0) }, img);
    let p = pixel(&brighter, 0, 0);
    assert_eq!(p[0], 200);
    assert_eq!(p[3], 255);
}

#[test]
fn exposure_clamps_at_255() {
    let img = solid_rgba(200, 200, 200, 255, 1, 1);
    let blown = applied(Filter::Exposure { stops: number(2.0) }, img);
    assert_eq!(pixel(&blown, 0, 0)[0], 255);
}

#[test]
fn contrast_increases_difference() {
    let img = Pixels { width: 2, height: 1, data: vec![100, 0, 0, 255, 200, 0, 0, 255] };
    let high = applied(Filter::Contrast { factor: number(2.0) }, img);
    assert!(pixel(&high, 0, 0)[0] < 100);
    assert_eq!(pixel(&high, 0, 0)[0], 72);
    assert_eq!(pixel(&high, 1, 0)[0], 255);
}

#[test]
fn crop_reduces_dimensions() {
    let img = solid_rgba(0, 0, 0, 255, 100, 80);
    let cropped = applied(
        Filter::Crop { x: number(0.1), y: number(0.1), width: number(0.5), height: number(0.5) },
        img,
    );
    assert_eq!((cropped.width, cropped.height), (50, 40));
}

#[test]
fn crop_keeps_the_region_and_stays_inside() {
    let f = Filter::Crop { x: number(0.5), y: number(0.0), width: number(0.5), height: number(1.0) };
    let part = applied(f, distinct(4, 2));
    assert_eq!((part.width, part.height), (2, 2));
    assert_eq!(pixel(&part, 0, 0)[0], 2);
    assert_eq!(pixel(&part, 1, 1)[0], 7);
    let f = Filter::Crop { x: number(9.0), y: number(9.0), width: number(9.0), height: number(0.0) };
    let corner = applied(f, distinct(4, 2));
    assert_eq!((corner.width, corner.height), (1, 1));
    assert_eq!(pixel(&corner, 0, 0)[0], 7);
}

#[test]
fn scale_reduces_dimensions() {
    let img = solid_rgba(0, 0, 0, 255, 100, 80);
    let scaled = applied(Filter::Scale { factor: number(0.5) }, img);
    assert_eq!((scaled.width, scaled.height), (50, 40));
}

#[test]
fn apply_all_filters_chains_correctly() {
    let img = solid_rgba(0, 0, 0, 0, 100, 50);
    let turn = Filter::Rotate { degrees: 90, center: None, fill: RotateFill::Transparent };
    let mut run = FilterRun::new(img, vec![turn, Filter::Scale { factor: number(0.5) }]);
    loop {
        let given = match run.next_filter() {
            None => break,
            Some(f) => given_for(f, run.current()),
        };
        run.step(given);
    }
    let result = run.finish();
    assert_eq!((result.width, result.height), (25, 50));
}

#[test]
fn cap_size_shrinks_landscape() {
    let img = solid_rgba(0, 0, 0, 255, 4000, 3000);
    let capped = applied(Filter::CapSize { max_px: 1000 }, img);
    assert_eq!(capped.width, 1000);
    assert_eq!(capped.height, 750);
}

#[test]
fn cap_size_shrinks_portrait() {
    let img = solid_rgba(0, 0, 0, 255, 600, 1200);
    let capped = applied(Filter::CapSize { max_px: 300 }, img);
    assert_eq!(capped.width, 150);
    assert_eq!(capped.height, 300);
}

#[test]
fn cap_size_no_op_when_already_small() {
    let img = solid_rgba(0, 0, 0, 255, 200, 100);
    let capped = applied(Filter::CapSize { max_px: 1024 }, img);
    assert_eq!((capped.width, capped.height), (200, 100));
}

#[test]
fn border_expands_dimensions() {
    let img = solid_rgba(0, 0, 0, 255, 100, 80);
    let white = Rgba { r: 255, g: 255, b: 255, a: 255 };
    let bordered = applied(Filter::Border { thickness: 10, color: white }, img);
    assert_eq!((bordered.width, bordered.height), (120, 100));
}

#[test]
fn border_fills_color() {
    let img = solid_rgba(0, 0, 0, 255, 10, 10);
    let red = Rgba { r: 255, g: 0, b: 0, a: 255 };
    let bordered = applied(Filter::Border { thickness: 5, color: red }, img);
    assert_eq!(pixel(&bordered, 0, 0), [255, 0, 0, 255]);
    assert_eq!(pixel(&bordered, 10, 10), [0, 0, 0, 255]);
}

#[test]
fn border_zero_thickness_no_op() {
    let img = solid_rgba(128, 128, 128, 255, 50, 50);
    let black = Rgba { r: 0, g: 0, b: 0, a: 255 };
    let out = applied(Filter::Border { thickness: 0, color: black }, img);
    assert_eq!((out.width, out.height), (50, 50));
}

#[test]
fn a_border_shines_through_a_clear_photo() {
    let red = Rgba { r: 255, g: 0, b: 0, a: 255 };
    let out = applied(Filter::Border { thickness: 1, color: red }, solid_rgba(0, 0, 0, 0, 1, 1));
    assert_eq!(pixel(&out, 1, 1), [255, 0, 0, 255]);
}

#[test]
fn quarter_turns_move_pixels() {
    let right = rotate_rgba(distinct(3, 2), 90, None);
    assert_eq!((right.width, right.height), (2, 3));
    assert_eq!(pixel(&right, 1, 0)[0], 0);
    assert_eq!(pixel(&right, 0, 0)[0], 3);
    let back = rotate_rgba(right, 270, None);
    assert_eq!(back.data, distinct(3, 2).data);
    let half = rotate_rgba(distinct(3, 2), -180, None);
    assert_eq!(pixel(&half, 0, 0)[0], 5);
    let left = rotate_rgba(distinct(3, 2), 270, None);
    assert_eq!(pixel(&left, 0, 0)[0], 2);
}

#[test]
fn flips_undo_themselves() {
    for f in [Filter::FlipHorizontal, Filter::FlipVertical] {
        let once = applied(f.clone(), distinct(3, 2));
        assert_ne!(once.data, distinct(3, 2).data);
        assert_eq!(applied(f, once).data, distinct(3, 2).data);
    }
    let v = applied(Filter::FlipVertical, distinct(3, 2));
    assert_eq!(pixel(&v, 0, 0)[0], 3);
}

#[test]
fn an_odd_angle_takes_the_turned_image() {
    let turned = rotate_rgba(distinct(3, 2), 45, Some(solid_rgba(1, 2, 3, 4, 4, 4)));
    assert_eq!((turned.width, turned.height), (4, 4));
    let f = Filter::Rotate {
        degrees: 90,
        center: Some(Point { x: number(0.5), y: number(0.5) }),
        fill: RotateFill::Transparent,
    };
    assert_eq!(f.need(3, 2), Need::Image);
    let out = f.apply(distinct(3, 2), Given::Image(solid_rgba(9, 9, 9, 9, 1, 1)));
    assert_eq!(pixel(&out, 0, 0), [9, 9, 9, 9]);
}

#[test]
fn curves_use_a_table_for_each_channel() {
    let line = vec![Point { x: number(0.0), y: number(0.0) }];
    let f = Filter::Curves { r: line.clone(), g: line, b: vec![] };
    assert_eq!(f.need(1, 1), Need::Tables);
    let same: Vec<u8> = (0..=255).collect();
    let reversed: Vec<u8> = (0..=255).rev().collect();
    let given = Given::Tables { r: reversed.clone(), g: vec![7; 256], b: same };
    let out = f.apply(solid_rgba(10, 20, 30, 40, 1, 1), given);
    assert_eq!(pixel(&out, 0, 0), [245, 7, 30, 40]);
}

#[test]
fn weak_sharpening_changes_nothing() {
    let f = Filter::Sharpen { amount: number(0.00005) };
    assert_eq!(f.need(3, 2), Need::Nothing);
    assert_eq!(f.apply(distinct(3, 2), Given::Nothing).data, distinct(3, 2).data);
    assert_eq!(Filter::MicroContrast { amount: number(0.5) }.need(3, 2), Need::Image);
}

#[test]
fn sharpening_keeps_the_size() {
    let img = distinct(3, 2);
    let sharpened = Given::Image(solid_rgba(9, 9, 9, 9, 3, 2));
    let other_size = Given::Image(solid_rgba(9, 9, 9, 9, 2, 3));
    for f in [
        Filter::Sharpen { amount: number(1.0) },
        Filter::MicroContrast { amount: number(1.0) },
    ] {
        assert!(f.can_apply(&img, &sharpened));
        assert!(!f.can_apply(&img, &other_size));
    }
    let out = Filter::Sharpen { amount: number(1.0) }.apply(img, sharpened);
    assert_eq!((out.width, out.height), (3, 2));
    assert_eq!(pixel(&out, 2, 1), [9, 9, 9, 9]);
}

#[test]
fn thumbnails_fit_within_their_size() {
    let small = fit_within(solid_rgba(10, 20, 30, 255, 40, 20), Some(10));
    assert_eq!((small.width, small.height), (10, 5));
    assert_eq!(pixel(&small, 3, 3), [10, 20, 30, 255]);
    let same = fit_within(solid_rgba(10, 20, 30, 255, 40, 20), Some(40));
    assert_eq!((same.width, same.height), (40, 20));
    let full = fit_within(solid_rgba(10, 20, 30, 255, 40, 20), None);
    assert_eq!((full.width, full.height), (40, 20));
}

/// A TIFF file with nothing but an orientation.
fn tiff(orientation: u8) -> Vec<u8> {
    let mut file = vec![b'I', b'I', 42, 0, 8, 0, 0, 0];
    file.extend_from_slice(&[1, 0]);
    file.extend_from_slice(&[0x12, 0x01, 3, 0, 1, 0, 0, 0, orientation, 0, 0, 0]);
    file.extend_from_slice(&[0, 0, 0, 0]);
    file
}

#[test]
fn orientation_of_the_file_is_undone() {
    assert_eq!(exif_rotation_degrees(&tiff(6)), 90);
    assert_eq!(exif_rotation_degrees(&tiff(8)), 270);
    assert_eq!(exif_rotation_degrees(&tiff(3)), 180);
    assert_eq!(exif_rotation_degrees(&tiff(1)), 0);
    assert_eq!(exif_rotation_degrees(&tiff(2)), 0);
    assert_eq!(exif_rotation_degrees(&vec![1, 2, 3]), 0);
    assert_eq!(orientation_degrees(None), 0);
    let up = upright(distinct(3, 2), &tiff(6));
    assert_eq!((up.width, up.height), (2, 3));
    assert_eq!(pixel(&up, 0, 0)[0], 3);
    assert_eq!(upright(distinct(3, 2), &vec![]).data, distinct(3, 2).data);
}

#[test]
fn histogram_counts_every_pixel() {
    let img = Pixels { width: 2, height: 1, data: vec![255, 0, 7, 255, 255, 9, 7, 0] };
    let h = compute_histogram(&img, &vec![3, 200]);
    assert_eq!(h.r[255], 2);
    assert_eq!(h.g[0], 1);
    assert_eq!(h.g[9], 1);
    assert_eq!(h.b[7], 2);
    assert_eq!(h.luma[3], 1);
    assert_eq!(h.luma[200], 1);
    assert_eq!(h.r.iter().sum::<u32>(), 2);
    assert_eq!(h.luma.iter().sum::<u32>(), 2);
    assert_eq!(h.peak(), 2);
}

#[test]
fn the_middle_of_an_image_is_kept() {
    let img = distinct(5, 4);
    let part = crop_to_middle(&img, 3, 2);
    assert_eq!((part.width, part.height), (3, 2));
    assert_eq!(pixel(&part, 0, 0), pixel(&img, 1, 1));
    assert_eq!(pixel(&part, 2, 1), pixel(&img, 3, 2));
    assert_eq!(crop_to_middle(&img, 9, 9).data, img.data);
    let least = crop_to_middle(&img, 0, 0);
    assert_eq!((least.width, least.height), (1, 1));
    assert_eq!(pixel(&least, 0, 0), pixel(&img, 2, 2));
}

#[test]
fn nothing_can_be_cropped_from_nothing() {
    let crop = Filter::Crop {
        x: number(0.0),
        y: number(0.0),
        width: number(1.0),
        height: number(1.0),
    };
    let out = applied(crop, Pixels { width: 0, height: 0, data: vec![] });
    assert_eq!((out.width, out.height), (0, 0));
}

#[test]
fn images_and_filters_are_checked_before_use() {
    let img = distinct(4, 2);
    assert!(img.is_whole());
    assert!(!Pixels { width: 4, height: 2, data: vec![0; 31] }.is_whole());
    assert!(can_resize(&img, 2, 1));
    assert!(!can_resize(&img, u32::MAX, 1));
    assert!(!can_resize(&Pixels { width: 0, height: 0, data: vec![] }, 2, 1));
    assert!(can_fit_within(&img, None));
    assert!(can_fit_within(&img, Some(1)));
    assert!(!can_fit_within(&Pixels { width: 4, height: 2, data: vec![] }, None));
    let exposure = Filter::Exposure { stops: number(1.0) };
    assert!(exposure.can_apply(&img, &Given::Table(vec![0; 256])));
    assert!(!exposure.can_apply(&img, &Given::Table(vec![0; 255])));
    assert!(!exposure.can_apply(&img, &Given::Nothing));
    let border = Filter::Border { thickness: u32::MAX, color: Rgba { r: 0, g: 0, b: 0, a: 0 } };
    assert!(!border.can_apply(&img, &Given::Nothing));
}

#[test]
fn the_peak_of_a_histogram_is_found() {
    let mut channel = [0u32; 256];
    channel[7] = 3;
    channel[200] = 5;
    assert_eq!(channel_peak(&channel), 5);
    let img = solid_rgba(1, 2, 3, 255, 3, 2);
    assert_eq!(compute_histogram(&img, &vec![2; 6]).peak(), 6);
}
