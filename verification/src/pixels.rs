//! Pixel buffers and what the filters do to them.
//!
//! Everything here is exact on pixels. Where a filter needs floating-point numbers, `Filter::need`
//! says which, and `Filter::apply` takes them back as plain values.
use crate::filters::{Filter, FilterView, Point, Rgba};
use vstd::prelude::*;

verus! {

/// An image of `width` times `height` pixels, four bytes each (red, green, blue, opacity), row by
/// row from the top.
#[derive(Debug)]
pub struct Pixels {
    pub width: u32,
    pub height: u32,
    pub data: Vec<u8>,
}

/// The contents of a `Pixels`.
#[verifier::ext_equal]
pub ghost struct Image {
    pub width: nat,
    pub height: nat,
    pub pixels: Seq<Rgba>,
}

impl Image {
    pub open spec fn wf(self) -> bool {
        self.pixels.len() == self.width * self.height
    }

    /// The pixel in column `x` of row `y`.
    pub open spec fn at(self, x: int, y: int) -> Rgba {
        self.pixels[y * self.width + x]
    }
}

/// The four bytes from `at` on.
pub open spec fn pixel_of(data: Seq<u8>, at: int) -> Rgba {
    Rgba { r: data[4 * at], g: data[4 * at + 1], b: data[4 * at + 2], a: data[4 * at + 3] }
}

impl View for Pixels {
    type V = Image;

    open spec fn view(&self) -> Image {
        Image {
            width: self.width as nat,
            height: self.height as nat,
            pixels: Seq::new(
                (self.width as nat) * (self.height as nat),
                |i: int| pixel_of(self.data@, i),
            ),
        }
    }
}

impl Pixels {
    /// The buffer holds exactly the image's pixels.
    pub open spec fn wf(self) -> bool {
        &&& self.data@.len() == 4 * (self.width * self.height)
        &&& 4 * self.width <= usize::MAX
        &&& 4 * self.height <= usize::MAX
    }

    /// Whether the buffer holds exactly the image's pixels.
    pub fn is_whole(&self) -> (b: bool)
        ensures
            b == self.wf(),
    {
        proof {
            assert(self.width * self.height <= 0xffff_ffff * 0xffff_ffff) by (nonlinear_arith)
                requires
                    self.width <= 0xffff_ffff,
                    self.height <= 0xffff_ffff,
            ;
        }
        let n = self.width as u128 * self.height as u128;
        self.data.len() as u128 == 4 * n && 4 * self.width as u128 <= usize::MAX as u128
            && 4 * self.height as u128 <= usize::MAX as u128
    }
}

/// The image whose pixel in column `x` of row `y` is `f(x, y)`.
pub open spec fn painted(width: nat, height: nat, f: spec_fn(int, int) -> Rgba) -> Image {
    Image {
        width,
        height,
        pixels: Seq::new(width * height, |i: int| f(i % (width as int), i / (width as int))),
    }
}

/// A quarter turn clockwise.
pub open spec fn quarter_turned(img: Image) -> Image {
    painted(img.height, img.width, |x: int, y: int| img.at(y, img.height - 1 - x))
}

/// A half turn.
pub open spec fn half_turned(img: Image) -> Image {
    painted(
        img.width,
        img.height,
        |x: int, y: int| img.at(img.width - 1 - x, img.height - 1 - y),
    )
}

/// A quarter turn counter-clockwise.
pub open spec fn back_turned(img: Image) -> Image {
    painted(img.height, img.width, |x: int, y: int| img.at(img.width - 1 - y, x))
}

/// Left and right exchanged.
pub open spec fn mirrored(img: Image) -> Image {
    painted(img.width, img.height, |x: int, y: int| img.at(img.width - 1 - x, y))
}

/// Top and bottom exchanged.
pub open spec fn upended(img: Image) -> Image {
    painted(img.width, img.height, |x: int, y: int| img.at(x, img.height - 1 - y))
}

/// The part of `width` times `height` pixels whose upper left corner is at `x0`, `y0`.
pub open spec fn cropped(img: Image, x0: int, y0: int, width: nat, height: nat) -> Image {
    painted(width, height, |x: int, y: int| img.at(x0 + x, y0 + y))
}

proof fn lemma_index(width: int, height: int, x: int, y: int)
    requires
        0 <= x < width,
        0 <= y < height,
    ensures
        0 <= y * width + x < width * height,
        (y * width + x) % width == x,
        (y * width + x) / width == y,
{
    assert(0 <= y * width + x < width * height) by (nonlinear_arith)
        requires
            0 <= x < width,
            0 <= y < height,
    ;
    vstd::arithmetic::div_mod::lemma_fundamental_div_mod_converse(y * width + x, width, y, x);
}

proof fn lemma_coordinates(width: int, height: int, i: int)
    requires
        0 <= i < width * height,
        0 <= width,
        0 <= height,
    ensures
        0 < width,
        0 <= i % width < width,
        0 <= i / width < height,
        (i / width) * width + i % width == i,
{
    assert(0 < width) by (nonlinear_arith)
        requires
            0 <= i < width * height,
            0 <= width,
    ;
    vstd::arithmetic::div_mod::lemma_fundamental_div_mod(i, width);
    assert(width * (i / width) == (i / width) * width) by (nonlinear_arith);
    assert(0 <= i / width < height) by (nonlinear_arith)
        requires
            0 <= i < width * height,
            0 < width,
            width * (i / width) + i % width == i,
            0 <= i % width < width,
    ;
}

/// The pixels of a painted image.
pub proof fn lemma_painted(width: nat, height: nat, f: spec_fn(int, int) -> Rgba)
    ensures
        painted(width, height, f).wf(),
        forall|x: int, y: int|
            0 <= x < width && 0 <= y < height ==> #[trigger] painted(width, height, f).at(x, y)
                == f(x, y),
{
    assert forall|x: int, y: int| 0 <= x < width && 0 <= y < height implies #[trigger] painted(
        width,
        height,
        f,
    ).at(x, y) == f(x, y) by {
        lemma_index(width as int, height as int, x, y);
    }
}

/// Two images that agree in every pixel are one.
pub proof fn lemma_same_image(a: Image, b: Image)
    requires
        a.wf(),
        b.wf(),
        a.width == b.width,
        a.height == b.height,
        forall|x: int, y: int|
            0 <= x < a.width && 0 <= y < a.height ==> #[trigger] a.at(x, y) == b.at(x, y),
    ensures
        a == b,
{
    assert forall|i: int| 0 <= i < a.pixels.len() implies a.pixels[i] == b.pixels[i] by {
        lemma_coordinates(a.width as int, a.height as int, i);
        assert(a.at(i % (a.width as int), i / (a.width as int)) == b.at(
            i % (a.width as int),
            i / (a.width as int),
        ));
    }
    assert(a.pixels =~= b.pixels);
}

/// A turn counter-clockwise undoes a turn clockwise.
pub proof fn quarter_turns_undo(img: Image)
    requires
        img.wf(),
    ensures
        back_turned(quarter_turned(img)) == img,
        quarter_turned(back_turned(img)) == img,
{
    let q = quarter_turned(img);
    let b = back_turned(img);
    lemma_painted(img.height, img.width, |x: int, y: int| img.at(y, img.height - 1 - x));
    lemma_painted(img.height, img.width, |x: int, y: int| img.at(img.width - 1 - y, x));
    lemma_painted(q.height, q.width, |x: int, y: int| q.at(q.width - 1 - y, x));
    lemma_painted(b.height, b.width, |x: int, y: int| b.at(y, b.height - 1 - x));
    lemma_same_image(back_turned(q), img);
    lemma_same_image(quarter_turned(b), img);
}

/// Two quarter turns are a half turn, and two half turns are none.
pub proof fn quarter_turns_add_up(img: Image)
    requires
        img.wf(),
    ensures
        quarter_turned(quarter_turned(img)) == half_turned(img),
        back_turned(back_turned(img)) == half_turned(img),
        half_turned(half_turned(img)) == img,
{
    let q = quarter_turned(img);
    let b = back_turned(img);
    let h = half_turned(img);
    lemma_painted(img.height, img.width, |x: int, y: int| img.at(y, img.height - 1 - x));
    lemma_painted(img.height, img.width, |x: int, y: int| img.at(img.width - 1 - y, x));
    lemma_painted(
        img.width,
        img.height,
        |x: int, y: int| img.at(img.width - 1 - x, img.height - 1 - y),
    );
    lemma_painted(q.height, q.width, |x: int, y: int| q.at(y, q.height - 1 - x));
    lemma_painted(b.height, b.width, |x: int, y: int| b.at(b.width - 1 - y, x));
    lemma_painted(h.width, h.height, |x: int, y: int| h.at(h.width - 1 - x, h.height - 1 - y));
    lemma_same_image(quarter_turned(q), h);
    lemma_same_image(back_turned(b), h);
    lemma_same_image(half_turned(h), img);
}

/// Each flip undoes itself, and both together are a half turn.
pub proof fn flips_undo(img: Image)
    requires
        img.wf(),
    ensures
        mirrored(mirrored(img)) == img,
        upended(upended(img)) == img,
        upended(mirrored(img)) == half_turned(img),
{
    let m = mirrored(img);
    let u = upended(img);
    lemma_painted(img.width, img.height, |x: int, y: int| img.at(img.width - 1 - x, y));
    lemma_painted(img.width, img.height, |x: int, y: int| img.at(x, img.height - 1 - y));
    lemma_painted(
        img.width,
        img.height,
        |x: int, y: int| img.at(img.width - 1 - x, img.height - 1 - y),
    );
    lemma_painted(m.width, m.height, |x: int, y: int| m.at(m.width - 1 - x, y));
    lemma_painted(u.width, u.height, |x: int, y: int| u.at(x, u.height - 1 - y));
    lemma_painted(m.width, m.height, |x: int, y: int| m.at(x, m.height - 1 - y));
    lemma_same_image(mirrored(m), img);
    lemma_same_image(upended(u), img);
    lemma_same_image(upended(m), half_turned(img));
}

/// `image::imageops::rotate90` turns an image by a quarter clockwise, pixel by pixel.
#[verifier::external_body]
fn rotate90(img: Pixels) -> (r: Pixels)
    requires
        img.wf(),
    ensures
        r.wf(),
        r@ == quarter_turned(img@),
{
    let source = image::RgbaImage::from_raw(img.width, img.height, img.data).unwrap();
    let out = image::imageops::rotate90(&source);
    Pixels { width: out.width(), height: out.height(), data: out.into_raw() }
}

/// `image::imageops::rotate180` turns an image by a half, pixel by pixel.
#[verifier::external_body]
fn rotate180(img: Pixels) -> (r: Pixels)
    requires
        img.wf(),
    ensures
        r.wf(),
        r@ == half_turned(img@),
{
    let source = image::RgbaImage::from_raw(img.width, img.height, img.data).unwrap();
    let out = image::imageops::rotate180(&source);
    Pixels { width: out.width(), height: out.height(), data: out.into_raw() }
}

/// `image::imageops::rotate270` turns an image by a quarter counter-clockwise, pixel by pixel.
#[verifier::external_body]
fn rotate270(img: Pixels) -> (r: Pixels)
    requires
        img.wf(),
    ensures
        r.wf(),
        r@ == back_turned(img@),
{
    let source = image::RgbaImage::from_raw(img.width, img.height, img.data).unwrap();
    let out = image::imageops::rotate270(&source);
    Pixels { width: out.width(), height: out.height(), data: out.into_raw() }
}

/// `image::imageops::flip_horizontal` exchanges left and right.
#[verifier::external_body]
fn flip_horizontal(img: Pixels) -> (r: Pixels)
    requires
        img.wf(),
    ensures
        r.wf(),
        r@ == mirrored(img@),
{
    let source = image::RgbaImage::from_raw(img.width, img.height, img.data).unwrap();
    let out = image::imageops::flip_horizontal(&source);
    Pixels { width: out.width(), height: out.height(), data: out.into_raw() }
}

/// `image::imageops::flip_vertical` exchanges top and bottom.
#[verifier::external_body]
fn flip_vertical(img: Pixels) -> (r: Pixels)
    requires
        img.wf(),
    ensures
        r.wf(),
        r@ == upended(img@),
{
    let source = image::RgbaImage::from_raw(img.width, img.height, img.data).unwrap();
    let out = image::imageops::flip_vertical(&source);
    Pixels { width: out.width(), height: out.height(), data: out.into_raw() }
}

/// `image::imageops::crop_imm`, copied out with `SubImage::to_image`, cuts out the part of an image
/// that starts at `x`, `y`. The part lies within the image.
#[verifier::external_body]
fn crop_imm(img: &Pixels, x: u32, y: u32, width: u32, height: u32) -> (r: Pixels)
    requires
        img.wf(),
        x + width <= img.width,
        y + height <= img.height,
    ensures
        r.wf(),
        r@ == cropped(img@, x as int, y as int, width as nat, height as nat),
{
    let source = image::RgbaImage::from_raw(img.width, img.height, img.data.clone()).unwrap();
    let out = image::imageops::crop_imm(&source, x, y, width, height).to_image();
    Pixels { width: out.width(), height: out.height(), data: out.into_raw() }
}

/// What `image::Rgba::blend` makes of a pixel and one laid over it.
pub uninterp spec fn blended(bottom: Rgba, top: Rgba) -> Rgba;

/// `image::imageops::overlay` blends each pixel of `top`, laid at `x`, `y`, into the pixel of
/// `bottom` under it with `image::Rgba::blend`, and leaves the others alone. `blend` puts an opaque
/// pixel in the place of the one under it, and a clear one changes nothing. `top` lies within
/// `bottom`.
#[verifier::external_body]
fn overlay(bottom: Pixels, top: Pixels, x: u32, y: u32) -> (r: Pixels)
    requires
        bottom.wf(),
        top.wf(),
        x + top.width <= bottom.width,
        y + top.height <= bottom.height,
    ensures
        r.wf(),
        r.width == bottom.width,
        r.height == bottom.height,
        forall|i: int, j: int|
            #![trigger r@.at(i, j)]
            is_under(top@, x as int, y as int, i, j) ==> r@.at(i, j) == blended(
                bottom@.at(i, j),
                top@.at(i - x, j - y),
            ),
        forall|i: int, j: int|
            #![trigger r@.at(i, j)]
            is_under(top@, x as int, y as int, i, j) && top@.at(i - x, j - y).a == 255 ==> r@.at(
                i,
                j,
            ) == top@.at(i - x, j - y),
        forall|i: int, j: int|
            #![trigger r@.at(i, j)]
            is_under(top@, x as int, y as int, i, j) && top@.at(i - x, j - y).a == 0 ==> r@.at(i, j)
                == bottom@.at(i, j),
        forall|i: int, j: int|
            #![trigger r@.at(i, j)]
            0 <= i < bottom.width && 0 <= j < bottom.height && !is_under(
                top@,
                x as int,
                y as int,
                i,
                j,
            ) ==> r@.at(i, j) == bottom@.at(i, j),
{
    let mut out = image::RgbaImage::from_raw(bottom.width, bottom.height, bottom.data).unwrap();
    let over = image::RgbaImage::from_raw(top.width, top.height, top.data).unwrap();
    image::imageops::overlay(&mut out, &over, x as i64, y as i64);
    Pixels { width: out.width(), height: out.height(), data: out.into_raw() }
}

/// Whether column `x`, row `y` lies under an image of `top`'s size laid at `x0`, `y0`.
pub open spec fn is_under(top: Image, x0: int, y0: int, x: int, y: int) -> bool {
    x0 <= x < x0 + top.width && y0 <= y < y0 + top.height
}

/// `bottom` with `top` blended in at `x0`, `y0`.
pub open spec fn laid_over(bottom: Image, top: Image, x0: int, y0: int) -> Image {
    painted(
        bottom.width,
        bottom.height,
        |x: int, y: int|
            if is_under(top, x0, y0, x, y) {
                blended(bottom.at(x, y), top.at(x - x0, y - y0))
            } else {
                bottom.at(x, y)
            },
    )
}

/// The longest side that `resize` computes with safely: above it single-precision positions are too
/// coarse.
pub const MAX_RESIZE_SIDE: u32 = 0x20_0000;

/// An image and a new size between which `resize` works.
pub open spec fn may_resize(img: Pixels, width: u32, height: u32) -> bool {
    &&& img.wf()
    &&& 0 < img.width <= MAX_RESIZE_SIDE
    &&& 0 < img.height <= MAX_RESIZE_SIDE
    &&& width <= MAX_RESIZE_SIDE
    &&& height <= MAX_RESIZE_SIDE
    &&& 16 * img.width * (height + 1) <= isize::MAX
    &&& 16 * (width + 1) * (height + 1) <= isize::MAX
}

/// Where `resize` works for a size, it works for a smaller one.
proof fn lemma_may_resize(img: Pixels, width: u32, height: u32, w: u32, h: u32)
    requires
        may_resize(img, width, height),
        w <= width,
        h <= height,
    ensures
        may_resize(img, w, h),
{
    assert(16 * img.width * (h + 1) <= 16 * img.width * (height + 1)) by (nonlinear_arith)
        requires
            h <= height,
    ;
    assert(16 * (w + 1) * (h + 1) <= 16 * (width + 1) * (height + 1)) by (nonlinear_arith)
        requires
            w <= width,
            h <= height,
    ;
}

/// Whether `resize` works between an image and a new size.
pub fn can_resize(img: &Pixels, width: u32, height: u32) -> (b: bool)
    ensures
        b == may_resize(*img, width, height),
{
    if !img.is_whole() || img.width == 0 || img.height == 0 || img.width > MAX_RESIZE_SIDE
        || img.height > MAX_RESIZE_SIDE || width > MAX_RESIZE_SIDE || height > MAX_RESIZE_SIDE {
        return false;
    }
    let limit = isize::MAX as u128;
    proof {
        assert(16 * img.width * (height + 1) <= 16 * 0x20_0000 * 0x20_0001) by (nonlinear_arith)
            requires
                img.width <= 0x20_0000,
                height <= 0x20_0000,
        ;
        assert(16 * (width + 1) * (height + 1) <= 16 * 0x20_0001 * 0x20_0001) by (nonlinear_arith)
            requires
                width <= 0x20_0000,
                height <= 0x20_0000,
        ;
    }
    16 * img.width as u128 * (height as u128 + 1) <= limit && 16 * (width as u128 + 1) * (height
        as u128 + 1) <= limit
}

/// What `image::DynamicImage::resize` makes of an image, given by its size and bytes.
pub uninterp spec fn resized(width: u32, height: u32, data: Seq<u8>, new_width: u32, new_height: u32) -> (
    u32,
    u32,
    Seq<u8>,
);

/// `image::DynamicImage::resize` with the triangle filter scales an image to the largest size of
/// its shape within `width` times `height`, and to no less than one pixel either way. An image that
/// has that size already is left alone.
#[verifier::external_body]
fn resize(img: Pixels, width: u32, height: u32) -> (r: Pixels)
    requires
        may_resize(img, width, height),
    ensures
        r.wf(),
        (r.width, r.height, r.data@) == resized(img.width, img.height, img.data@, width, height),
        1 <= r.width && (r.width <= width || r.width == 1),
        1 <= r.height && (r.height <= height || r.height == 1),
        width == img.width && height == img.height ==> r.width == width && r.height == height
            && r.data@ == img.data@,
{
    let source = image::RgbaImage::from_raw(img.width, img.height, img.data).unwrap();
    let triangle = image::imageops::FilterType::Triangle;
    let out = image::DynamicImage::ImageRgba8(source).resize(width, height, triangle).into_rgba8();
    Pixels { width: out.width(), height: out.height(), data: out.into_raw() }
}

/// The image turned clockwise by a number of degrees. For an odd angle `turned` is the result.
pub open spec fn rotated(img: Image, degrees: int, turned: Option<Pixels>) -> Image {
    if degrees % 360 == 0 {
        img
    } else if degrees % 360 == 90 {
        quarter_turned(img)
    } else if degrees % 360 == 180 {
        half_turned(img)
    } else if degrees % 360 == 270 {
        back_turned(img)
    } else {
        turned->0@
    }
}

/// Turns an image clockwise, by quarters without loss. For an odd angle the caller hands in the
/// turned image.
pub fn rotate_rgba(img: Pixels, degrees: i32, turned: Option<Pixels>) -> (r: Pixels)
    requires
        img.wf(),
        degrees % 90 != 0 ==> turned is Some && turned->0.wf(),
    ensures
        r.wf(),
        r@ == rotated(img@, degrees as int, turned),
{
    match crate::filters::turn(degrees as i64) {
        0 => img,
        90 => rotate90(img),
        180 => rotate180(img),
        270 => rotate270(img),
        _ => match turned {
            Some(t) => t,
            None => img,
        },
    }
}

fn is_quarter(degrees: i32) -> (b: bool)
    ensures
        b == (degrees % 90 == 0),
{
    let t = crate::filters::turn(degrees as i64);
    assert(degrees as int % 90 == t as int % 90);
    t == 0 || t == 90 || t == 180 || t == 270
}

/// What two turns of an image come to.
#[verifier::spinoff_prover]
proof fn lemma_two_turns(img: Image)
    requires
        img.wf(),
    ensures
        quarter_turned(quarter_turned(img)) == half_turned(img),
        quarter_turned(half_turned(img)) == back_turned(img),
        quarter_turned(back_turned(img)) == img,
        half_turned(quarter_turned(img)) == back_turned(img),
        half_turned(half_turned(img)) == img,
        half_turned(back_turned(img)) == quarter_turned(img),
        back_turned(quarter_turned(img)) == img,
        back_turned(half_turned(img)) == quarter_turned(img),
        back_turned(back_turned(img)) == half_turned(img),
{
    let q = quarter_turned(img);
    let t = back_turned(img);
    lemma_painted(img.height, img.width, |x: int, y: int| img.at(y, img.height - 1 - x));
    lemma_painted(img.height, img.width, |x: int, y: int| img.at(img.width - 1 - y, x));
    quarter_turns_undo(img);
    quarter_turns_add_up(img);
    quarter_turns_undo(q);
    quarter_turns_undo(t);
    quarter_turns_add_up(q);
    quarter_turns_add_up(t);
}

/// Turning by `a` and then by `b` is turning by `a + b`, for quarter turns.
#[verifier::spinoff_prover]
pub proof fn turning_adds_up(img: Image, a: int, b: int)
    requires
        img.wf(),
        a % 90 == 0,
        b % 90 == 0,
    ensures
        rotated(rotated(img, a, None), b, None) == rotated(img, a + b, None),
{
    let m = a % 360;
    let n = b % 360;
    assert(m == 0 || m == 90 || m == 180 || m == 270);
    assert(n == 0 || n == 90 || n == 180 || n == 270);
    assert((a + b) % 360 == (m + n) % 360);
    lemma_two_turns(img);
}

/// The table that leaves every value as it is.
pub open spec fn identity_table() -> Seq<u8> {
    Seq::new(256, |i: int| i as u8)
}

/// The pixel with its three colours looked up in tables; the opacity stays.
pub open spec fn looked_up(p: Rgba, r: Seq<u8>, g: Seq<u8>, b: Seq<u8>) -> Rgba {
    Rgba { r: r[p.r as int], g: g[p.g as int], b: b[p.b as int], a: p.a }
}

/// The image with every pixel's colours looked up in tables.
pub open spec fn toned(img: Image, r: Seq<u8>, g: Seq<u8>, b: Seq<u8>) -> Image {
    Image {
        width: img.width,
        height: img.height,
        pixels: Seq::new(img.pixels.len(), |i: int| looked_up(img.pixels[i], r, g, b)),
    }
}

fn apply_tables(img: Pixels, r: &Vec<u8>, g: &Vec<u8>, b: &Vec<u8>) -> (out: Pixels)
    requires
        img.wf(),
        r@.len() == 256,
        g@.len() == 256,
        b@.len() == 256,
    ensures
        out.wf(),
        out@ == toned(img@, r@, g@, b@),
{
    let ghost before = img.data@;
    let ghost n = img@.pixels.len();
    let Pixels { width, height, data } = img;
    let mut data = data;
    let mut at: usize = 0;
    while at < data.len()
        invariant
            r@.len() == 256,
            g@.len() == 256,
            b@.len() == 256,
            data@.len() == before.len(),
            before.len() == 4 * n,
            at <= data@.len(),
            at % 4 == 0,
            forall|i: int|
                0 <= i && 4 * i < at ==> #[trigger] pixel_of(data@, i) == looked_up(
                    pixel_of(before, i),
                    r@,
                    g@,
                    b@,
                ),
            forall|k: int| at <= k < data@.len() ==> data@[k] == before[k],
        decreases data@.len() - at,
    {
        let ghost last = data@;
        let red: u8 = r[data[at] as usize];
        let green: u8 = g[data[at + 1] as usize];
        let blue: u8 = b[data[at + 2] as usize];
        data.set(at, red);
        data.set(at + 1, green);
        data.set(at + 2, blue);
        proof {
            let here = at as int / 4;
            assert(4 * here == at);
            assert forall|i: int| 0 <= i && 4 * i < at + 4 implies #[trigger] pixel_of(data@, i)
                == looked_up(pixel_of(before, i), r@, g@, b@) by {
                if i < here {
                    assert(pixel_of(last, i) == pixel_of(data@, i));
                } else {
                    assert(i == here);
                }
            }
        }
        at += 4;
    }
    let out = Pixels { width, height, data };
    assert(out@.pixels =~= toned(img@, r@, g@, b@).pixels);
    out
}

fn same_table() -> (t: Vec<u8>)
    ensures
        t@ == identity_table(),
{
    let mut t: Vec<u8> = Vec::new();
    let mut i: usize = 0;
    while i < 256
        invariant
            i <= 256,
            t@.len() == i,
            forall|k: int| 0 <= k < i ==> t@[k] == k,
        decreases 256 - i,
    {
        t.push(i as u8);
        i += 1;
    }
    assert(t@ =~= identity_table());
    t
}

/// An image of one colour.
pub open spec fn plain(width: nat, height: nat, color: Rgba) -> Image {
    painted(width, height, |x: int, y: int| color)
}

fn filled(width: u32, height: u32, color: Rgba) -> (out: Pixels)
    requires
        4 * (width * height) <= isize::MAX,
        4 * width <= usize::MAX,
        4 * height <= usize::MAX,
    ensures
        out.wf(),
        out@ == plain(width as nat, height as nat, color),
{
    assert(0 <= width * height <= usize::MAX) by (nonlinear_arith)
        requires
            4 * (width * height) <= isize::MAX,
            0 <= width,
            0 <= height,
    ;
    let n: usize = width as usize * height as usize;
    let mut data: Vec<u8> = Vec::new();
    let mut i: usize = 0;
    while i < n
        invariant
            i <= n,
            data@.len() == 4 * i,
            forall|k: int| 0 <= k < i ==> #[trigger] pixel_of(data@, k) == color,
        decreases n - i,
    {
        let ghost last = data@;
        data.push(color.r);
        data.push(color.g);
        data.push(color.b);
        data.push(color.a);
        assert forall|k: int| 0 <= k < i + 1 implies #[trigger] pixel_of(data@, k) == color by {
            if k < i {
                assert(pixel_of(data@, k) == pixel_of(last, k));
            }
        }
        i += 1;
    }
    let out = Pixels { width, height, data };
    assert(out@.pixels =~= plain(width as nat, height as nat, color).pixels);
    out
}

/// The image inside a border of one colour.
pub open spec fn bordered(img: Image, thickness: nat, color: Rgba) -> Image {
    laid_over(
        plain(img.width + 2 * thickness, img.height + 2 * thickness, color),
        img,
        thickness as int,
        thickness as int,
    )
}

fn apply_border(img: Pixels, thickness: u32, color: Rgba) -> (r: Pixels)
    requires
        img.wf(),
        may_border(img, thickness),
    ensures
        r.wf(),
        r@ == bordered(img@, thickness as nat, color),
{
    let width: u32 = img.width + 2 * thickness;
    let height: u32 = img.height + 2 * thickness;
    let bottom = filled(width, height, color);
    let ghost under = bottom@;
    let ghost top = img@;
    let r = overlay(bottom, img, thickness, thickness);
    proof {
        let t = thickness as int;
        lemma_painted(
            under.width,
            under.height,
            |x: int, y: int|
                if is_under(top, t, t, x, y) {
                    blended(under.at(x, y), top.at(x - t, y - t))
                } else {
                    under.at(x, y)
                },
        );
        lemma_same_image(r@, bordered(top, thickness as nat, color));
    }
    r
}

/// The border fits the sizes that an image can have.
pub open spec fn may_border(img: Pixels, thickness: u32) -> bool {
    &&& img.width + 2 * thickness <= u32::MAX
    &&& img.height + 2 * thickness <= u32::MAX
    &&& 4 * (img.width + 2 * thickness) <= usize::MAX
    &&& 4 * (img.height + 2 * thickness) <= usize::MAX
    &&& 4 * ((img.width + 2 * thickness) * (img.height + 2 * thickness)) <= isize::MAX
}

fn can_border(img: &Pixels, thickness: u32) -> (b: bool)
    ensures
        b == may_border(*img, thickness),
{
    let w = img.width as u128 + 2 * thickness as u128;
    let h = img.height as u128 + 2 * thickness as u128;
    if w > u32::MAX as u128 || h > u32::MAX as u128 {
        return false;
    }
    proof {
        assert(w * h <= 0xffff_ffff * 0xffff_ffff) by (nonlinear_arith)
            requires
                w <= 0xffff_ffff,
                h <= 0xffff_ffff,
        ;
    }
    4 * w <= usize::MAX as u128 && 4 * h <= usize::MAX as u128 && 4 * (w * h) <= isize::MAX as u128
}

/// What a filter needs to be told before it can be applied.
#[derive(Debug, Clone, Copy, PartialEq, Eq, Structural)]
pub enum Need {
    Nothing,
    /// The image that the filter makes.
    Image,
    /// The region that a crop keeps, in pixels.
    Region,
    /// The size that the image is to have.
    Size,
    /// The value that each colour value becomes.
    Table,
    /// The same, by channel.
    Tables,
}

/// What a filter was told.
#[derive(Debug)]
pub enum Given {
    Nothing,
    Image(Pixels),
    Region { x: u32, y: u32, width: u32, height: u32 },
    Size { width: u32, height: u32 },
    Table(Vec<u8>),
    Tables { r: Vec<u8>, g: Vec<u8>, b: Vec<u8> },
}

/// The larger of two numbers.
pub open spec fn larger(a: u32, b: u32) -> u32 {
    if a >= b {
        a
    } else {
        b
    }
}

/// The smaller of two numbers.
pub open spec fn smaller(a: u32, b: u32) -> u32 {
    if a <= b {
        a
    } else {
        b
    }
}

fn max(a: u32, b: u32) -> (r: u32)
    ensures
        r == larger(a, b),
{
    if a >= b {
        a
    } else {
        b
    }
}

fn min(a: u32, b: u32) -> (r: u32)
    ensures
        r == smaller(a, b),
{
    if a <= b {
        a
    } else {
        b
    }
}

/// What a filter needs for an image of the given size. Quarter turns about the centre, flips and
/// borders need nothing, nor does a filter that leaves the image alone.
pub open spec fn need_of(f: FilterView, width: u32, height: u32) -> Need {
    match f {
        FilterView::Rotate { degrees, center, .. } => if center is None && degrees % 90 == 0 {
            Need::Nothing
        } else {
            Need::Image
        },
        FilterView::FlipHorizontal => Need::Nothing,
        FilterView::FlipVertical => Need::Nothing,
        FilterView::Crop { .. } => Need::Region,
        FilterView::Scale { .. } => Need::Size,
        FilterView::Exposure { .. } => Need::Table,
        FilterView::Contrast { .. } => Need::Table,
        FilterView::CapSize { max_px } => if larger(width, height) <= max_px {
            Need::Nothing
        } else {
            Need::Size
        },
        FilterView::Border { .. } => Need::Nothing,
        FilterView::Sharpen { amount } => if amount.near_zero_spec() {
            Need::Nothing
        } else {
            Need::Image
        },
        FilterView::MicroContrast { amount } => if amount.near_zero_spec() {
            Need::Nothing
        } else {
            Need::Image
        },
        FilterView::Curves { .. } => Need::Tables,
        FilterView::Preset { .. } => Need::Nothing,
    }
}

/// `given` answers `need`, and is of a form that can be used on `img`.
pub open spec fn answers(need: Need, given: Given, img: Pixels) -> bool {
    match need {
        Need::Nothing => true,
        Need::Image => given matches Given::Image(out) && out.wf(),
        Need::Region => given is Region,
        Need::Size => given matches Given::Size { width, height } && may_resize(
            img,
            larger(width, 1),
            larger(height, 1),
        ),
        Need::Table => given matches Given::Table(t) && t@.len() == 256,
        Need::Tables => given matches Given::Tables { r, g, b } && r@.len() == 256 && g@.len()
            == 256 && b@.len() == 256,
    }
}

/// The filter can be applied to `img` with what it was told.
pub open spec fn may_apply(f: FilterView, img: Pixels, given: Given) -> bool {
    &&& img.wf()
    &&& answers(need_of(f, img.width, img.height), given, img)
    &&& f matches FilterView::Border { thickness, .. } ==> may_border(img, thickness)
    &&& f is Sharpen || f is MicroContrast ==> keeps_size(img, given)
}

/// An image that was handed in, if any, has the size of `img`.
pub open spec fn keeps_size(img: Pixels, given: Given) -> bool {
    given matches Given::Image(out) ==> out.width == img.width && out.height == img.height
}

/// The table of a tone curve: a curve without points keeps every value.
pub open spec fn curve_table(points: Seq<Point>, table: Seq<u8>) -> Seq<u8> {
    if points.len() == 0 {
        identity_table()
    } else {
        table
    }
}

/// Where a crop of a side of the given length begins: within the side, unless that is empty.
pub open spec fn crop_start(at: int, side: int) -> int {
    if at < side {
        at
    } else if side == 0 {
        0
    } else {
        side - 1
    }
}

/// How much a crop keeps of what is left of a side: at least one pixel, as far as there is one.
pub open spec fn crop_length(length: int, left: int) -> nat {
    if length > left {
        left as nat
    } else if length < 1 && left > 0 {
        1
    } else {
        length as nat
    }
}

/// The part of the image that a crop keeps.
pub open spec fn crop_region(img: Image, x: int, y: int, width: int, height: int) -> Image {
    let x0 = crop_start(x, img.width as int);
    let y0 = crop_start(y, img.height as int);
    cropped(img, x0, y0, crop_length(width, img.width - x0), crop_length(height, img.height - y0))
}

/// The middle of an image, of no more than the given size and of one pixel at least.
pub open spec fn middle_of(img: Image, width: u32, height: u32) -> Image {
    let w = if width < img.width {
        width as int
    } else {
        img.width as int
    };
    let h = if height < img.height {
        height as int
    } else {
        img.height as int
    };
    cropped(
        img,
        img.width / 2 - w / 2,
        img.height / 2 - h / 2,
        crop_length(w, img.width as int),
        crop_length(h, img.height as int),
    )
}

/// Cuts an image down to its middle, of no more than the given size.
pub fn crop_to_middle(img: &Pixels, width: u32, height: u32) -> (r: Pixels)
    requires
        img.wf(),
    ensures
        r.wf(),
        r@ == middle_of(img@, width, height),
{
    let w = min(width, img.width);
    let h = min(height, img.height);
    let x = img.width / 2 - w / 2;
    let y = img.height / 2 - h / 2;
    crop_imm(img, x, y, min(max(w, 1), img.width), min(max(h, 1), img.height))
}

/// A side that is asked for, kept to at most `max_px`, and to one pixel at least.
pub open spec fn capped(side: u32, max_px: u32) -> u32 {
    larger(smaller(side, max_px), 1)
}

/// `r` is `img` scaled to fit within `width` times `height`, and not to nothing.
pub open spec fn is_scaled(img: Pixels, width: u32, height: u32, r: Pixels) -> bool {
    &&& (r.width, r.height, r.data@) == resized(img.width, img.height, img.data@, width, height)
    &&& 1 <= r.width <= width
    &&& 1 <= r.height <= height
}

/// `r` is what `f` makes of `img` with what it was told.
pub open spec fn is_result(f: FilterView, img: Pixels, given: Given, r: Pixels) -> bool {
    match (f, given) {
        (FilterView::Rotate { degrees, center, .. }, _) => if center is None && degrees % 90 == 0 {
            r@ == rotated(img@, degrees as int, None)
        } else {
            r@ == given->Image_0@
        },
        (FilterView::FlipHorizontal, _) => r@ == mirrored(img@),
        (FilterView::FlipVertical, _) => r@ == upended(img@),
        (FilterView::Crop { .. }, Given::Region { x, y, width, height }) => r@ == crop_region(
            img@,
            x as int,
            y as int,
            width as int,
            height as int,
        ),
        (FilterView::Scale { .. }, Given::Size { width, height }) => is_scaled(
            img,
            larger(width, 1),
            larger(height, 1),
            r,
        ),
        (FilterView::Exposure { .. }, Given::Table(t)) => r@ == toned(img@, t@, t@, t@),
        (FilterView::Contrast { .. }, Given::Table(t)) => r@ == toned(img@, t@, t@, t@),
        (FilterView::CapSize { max_px }, _) => if larger(img.width, img.height) <= max_px {
            r@ == img@
        } else {
            is_scaled(
                img,
                capped(given->Size_width, max_px),
                capped(given->Size_height, max_px),
                r,
            )
        },
        (FilterView::Border { thickness, color }, _) => if thickness == 0 {
            r@ == img@
        } else {
            r@ == bordered(img@, thickness as nat, color)
        },
        (FilterView::Sharpen { amount }, _) => if amount.near_zero_spec() {
            r@ == img@
        } else {
            r@ == given->Image_0@ && r.width == img.width && r.height == img.height
        },
        (FilterView::MicroContrast { amount }, _) => if amount.near_zero_spec() {
            r@ == img@
        } else {
            r@ == given->Image_0@ && r.width == img.width && r.height == img.height
        },
        (FilterView::Curves { r: cr, g: cg, b: cb }, Given::Tables { r: tr, g: tg, b: tb }) => r@
            == toned(img@, curve_table(cr, tr@), curve_table(cg, tg@), curve_table(cb, tb@)),
        (FilterView::Preset { .. }, _) => r@ == img@,
        _ => false,
    }
}

impl Filter {
    /// What this filter needs to be told before it can be applied to an image of the given size.
    pub fn need(&self, width: u32, height: u32) -> (n: Need)
        ensures
            n == need_of(self.deep_view(), width, height),
    {
        match self {
            Filter::Rotate { degrees, center, .. } => {
                if center.is_none() && is_quarter(*degrees) {
                    Need::Nothing
                } else {
                    Need::Image
                }
            },
            Filter::Crop { .. } => Need::Region,
            Filter::Scale { .. } => Need::Size,
            Filter::Exposure { .. } => Need::Table,
            Filter::Contrast { .. } => Need::Table,
            Filter::CapSize { max_px } => {
                if max(width, height) <= *max_px {
                    Need::Nothing
                } else {
                    Need::Size
                }
            },
            Filter::Sharpen { amount } => {
                if amount.near_zero() {
                    Need::Nothing
                } else {
                    Need::Image
                }
            },
            Filter::MicroContrast { amount } => {
                if amount.near_zero() {
                    Need::Nothing
                } else {
                    Need::Image
                }
            },
            Filter::Curves { .. } => Need::Tables,
            _ => Need::Nothing,
        }
    }

    /// Whether this filter can be applied to an image with what it was told.
    pub fn can_apply(&self, img: &Pixels, given: &Given) -> (b: bool)
        ensures
            b == may_apply(self.deep_view(), *img, *given),
    {
        if !img.is_whole() {
            return false;
        }
        if let Filter::Border { thickness, .. } = self {
            if !can_border(img, *thickness) {
                return false;
            }
        }
        if matches!(self, Filter::Sharpen { .. }) || matches!(self, Filter::MicroContrast { .. }) {
            if let Given::Image(out) = given {
                if out.width != img.width || out.height != img.height {
                    return false;
                }
            }
        }
        match (self.need(img.width, img.height), given) {
            (Need::Nothing, _) => true,
            (Need::Image, Given::Image(out)) => out.is_whole(),
            (Need::Region, Given::Region { .. }) => true,
            (Need::Size, Given::Size { width, height }) => can_resize(
                img,
                max(*width, 1),
                max(*height, 1),
            ),
            (Need::Table, Given::Table(t)) => t.len() == 256,
            (Need::Tables, Given::Tables { r, g, b }) => r.len() == 256 && g.len() == 256
                && b.len() == 256,
            _ => false,
        }
    }

    /// Applies this filter to an image, with what it needed to be told.
    pub fn apply(&self, img: Pixels, given: Given) -> (r: Pixels)
        requires
            may_apply(self.deep_view(), img, given),
        ensures
            r.wf(),
            is_result(self.deep_view(), img, given, r),
    {
        if self.need(img.width, img.height) == Need::Image {
            if let Given::Image(out) = given {
                return out;
            }
        }
        match self {
            Filter::Rotate { degrees, .. } => rotate_rgba(img, *degrees, None),
            Filter::FlipHorizontal => flip_horizontal(img),
            Filter::FlipVertical => flip_vertical(img),
            Filter::Crop { .. } => match given {
                Given::Region { x, y, width, height } => {
                    let x0 = min(x, img.width.saturating_sub(1));
                    let y0 = min(y, img.height.saturating_sub(1));
                    let w = min(max(width, 1), img.width - x0);
                    let h = min(max(height, 1), img.height - y0);
                    crop_imm(&img, x0, y0, w, h)
                },
                _ => img,
            },
            Filter::Scale { .. } => match given {
                Given::Size { width, height } => resize(img, max(width, 1), max(height, 1)),
                _ => img,
            },
            Filter::Exposure { .. } => match given {
                Given::Table(t) => apply_tables(img, &t, &t, &t),
                _ => img,
            },
            Filter::Contrast { .. } => match given {
                Given::Table(t) => apply_tables(img, &t, &t, &t),
                _ => img,
            },
            Filter::CapSize { max_px } => {
                if max(img.width, img.height) <= *max_px {
                    return img;
                }
                match given {
                    Given::Size { width, height } => {
                        let w = max(min(width, *max_px), 1);
                        let h = max(min(height, *max_px), 1);
                        proof {
                            lemma_may_resize(img, larger(width, 1), larger(height, 1), w, h);
                        }
                        resize(img, w, h)
                    },
                    _ => img,
                }
            },
            Filter::Border { thickness, color } => {
                if *thickness == 0 {
                    img
                } else {
                    apply_border(img, *thickness, *color)
                }
            },
            Filter::Curves { r, g, b } => match given {
                Given::Tables { r: tr, g: tg, b: tb } => {
                    let same = same_table();
                    let red = if r.len() == 0 {
                        &same
                    } else {
                        &tr
                    };
                    let green = if g.len() == 0 {
                        &same
                    } else {
                        &tg
                    };
                    let blue = if b.len() == 0 {
                        &same
                    } else {
                        &tb
                    };
                    apply_tables(img, red, green, blue)
                },
                _ => img,
            },
            _ => img,
        }
    }
}

/// Flips and tones keep the size of an image, and so do sharpening and presets.
#[verifier::spinoff_prover]
pub proof fn tones_keep_the_size(f: FilterView, img: Pixels, given: Given, r: Pixels)
    requires
        is_result(f, img, given, r),
        f is FlipHorizontal || f is FlipVertical || f is Exposure || f is Contrast || f is Sharpen
            || f is MicroContrast || f is Curves || f is Preset,
    ensures
        r.width == img.width,
        r.height == img.height,
{
    assert(r@.width == r.width && r@.height == r.height);
    assert(img@.width == img.width && img@.height == img.height);
}

/// A quarter turn about the middle swaps the sides of an image, and a half turn keeps them.
#[verifier::spinoff_prover]
pub proof fn quarter_turns_swap_the_sides(f: FilterView, img: Pixels, given: Given, r: Pixels)
    requires
        is_result(f, img, given, r),
        f matches FilterView::Rotate { degrees, center, .. } && center is None && degrees % 90 == 0,
    ensures
        f->degrees % 180 == 0 ==> r.width == img.width && r.height == img.height,
        f->degrees % 180 == 90 ==> r.width == img.height && r.height == img.width,
{
    let degrees = f->degrees;
    assert(degrees % 360 == 0 || degrees % 360 == 90 || degrees % 360 == 180 || degrees % 360
        == 270);
    assert(r@.width == r.width && r@.height == r.height);
    assert(img@.width == img.width && img@.height == img.height);
}

/// A border widens an image on all sides.
#[verifier::spinoff_prover]
pub proof fn borders_widen(f: FilterView, img: Pixels, given: Given, r: Pixels)
    requires
        is_result(f, img, given, r),
        f is Border,
    ensures
        r.width == img.width + 2 * f->thickness,
        r.height == img.height + 2 * f->thickness,
{
    assert(r@.width == r.width && r@.height == r.height);
    assert(img@.width == img.width && img@.height == img.height);
}

/// A crop makes no image larger.
#[verifier::spinoff_prover]
pub proof fn crops_cut(f: FilterView, img: Pixels, given: Given, r: Pixels)
    requires
        is_result(f, img, given, r),
        f is Crop,
    ensures
        r.width <= img.width,
        r.height <= img.height,
{
    assert(r@.width == r.width && r@.height == r.height);
    assert(img@.width == img.width && img@.height == img.height);
}

/// A cap keeps an image that is small enough, and holds the sides of another to its number.
#[verifier::spinoff_prover]
pub proof fn caps_hold(f: FilterView, img: Pixels, given: Given, r: Pixels)
    requires
        is_result(f, img, given, r),
        f is CapSize,
    ensures
        larger(img.width, img.height) <= f->max_px ==> r@ == img@,
        larger(img.width, img.height) > f->max_px ==> 1 <= r.width <= larger(f->max_px, 1) && 1
            <= r.height <= larger(f->max_px, 1),
{
}

/// What `exif::Reader::read_from_container`, `exif::Exif::get_field` and `exif::Value::get_uint`
/// find as the orientation in the bytes of an image file.
pub uninterp spec fn orientation_of(file: Seq<u8>) -> Option<u32>;

/// `exif::Reader::read_from_container` reads the metadata out of the bytes of an image file, and
/// `exif::Exif::get_field` with `exif::Value::get_uint` the orientation out of these. `None` stands
/// for a file without metadata, or without that field, or with metadata that cannot be read. The
/// bytes decide.
#[verifier::external_body]
fn exif_orientation(file: &Vec<u8>) -> (r: Option<u32>)
    ensures
        r == orientation_of(file@),
{
    let mut reader = std::io::Cursor::new(file);
    let exif = exif::Reader::new().read_from_container(&mut reader).ok()?;
    let field = exif.get_field(exif::Tag::Orientation, exif::In::PRIMARY)?;
    field.value.get_uint(0)
}

/// The clockwise turn that brings an image with the given orientation upright. Orientations with a
/// flip are left alone.
pub open spec fn upright_turn(orientation: Option<u32>) -> int {
    match orientation {
        Some(v) => if v == 3 {
            180
        } else if v == 6 {
            90
        } else if v == 8 {
            270
        } else {
            0
        },
        None => 0,
    }
}

/// The clockwise turn that brings an image with the given orientation upright.
pub fn orientation_degrees(orientation: Option<u32>) -> (d: i32)
    ensures
        d == upright_turn(orientation),
{
    match orientation {
        Some(3) => 180,
        Some(6) => 90,
        Some(8) => 270,
        _ => 0,
    }
}

/// The clockwise turn that brings the image in a file upright, by the file's own metadata; 0 where
/// these say nothing.
pub fn exif_rotation_degrees(file: &Vec<u8>) -> (d: i32)
    ensures
        d == upright_turn(orientation_of(file@)),
{
    orientation_degrees(exif_orientation(file))
}

/// Turns the image of a file upright.
pub fn upright(img: Pixels, file: &Vec<u8>) -> (r: Pixels)
    requires
        img.wf(),
    ensures
        r.wf(),
        r@ == rotated(img@, upright_turn(orientation_of(file@)), None),
{
    rotate_rgba(img, exif_rotation_degrees(file), None)
}

/// An image on its way through a stack of filters.
pub struct FilterRun {
    img: Pixels,
    filters: Vec<Filter>,
    done: usize,
}

impl FilterRun {
    /// The image as it is now.
    pub closed spec fn image(self) -> Pixels {
        self.img
    }

    /// The whole stack.
    pub closed spec fn stack(self) -> Seq<FilterView> {
        self.filters.deep_view()
    }

    /// How many filters have been applied.
    pub closed spec fn applied(self) -> nat {
        self.done as nat
    }

    pub closed spec fn wf(self) -> bool {
        &&& self.img.wf()
        &&& self.done <= self.filters@.len()
    }

    /// Starts with the first filter.
    pub fn new(img: Pixels, filters: Vec<Filter>) -> (run: Self)
        requires
            img.wf(),
        ensures
            run.wf(),
            run.image() == img,
            run.stack() == filters.deep_view(),
            run.applied() == 0,
    {
        FilterRun { img, filters, done: 0 }
    }

    /// The image as it is now.
    pub fn current(&self) -> (img: &Pixels)
        requires
            self.wf(),
        ensures
            *img == self.image(),
            img.wf(),
    {
        &self.img
    }

    /// The filter to be applied next.
    pub fn next_filter(&self) -> (f: Option<&Filter>)
        requires
            self.wf(),
        ensures
            f is Some <==> self.applied() < self.stack().len(),
            f matches Some(g) ==> g.deep_view() == self.stack()[self.applied() as int],
    {
        if self.done < self.filters.len() {
            Some(&self.filters[self.done])
        } else {
            None
        }
    }

    /// Applies the next filter, with what it needed to be told.
    pub fn step(&mut self, given: Given)
        requires
            old(self).wf(),
            old(self).applied() < old(self).stack().len(),
            may_apply(
                old(self).stack()[old(self).applied() as int],
                old(self).image(),
                given,
            ),
        ensures
            final(self).wf(),
            final(self).stack() == old(self).stack(),
            final(self).applied() == old(self).applied() + 1,
            is_result(
                old(self).stack()[old(self).applied() as int],
                old(self).image(),
                given,
                final(self).image(),
            ),
    {
        let mut img = Pixels { width: 0, height: 0, data: Vec::new() };
        std::mem::swap(&mut img, &mut self.img);
        self.img = self.filters[self.done].apply(img, given);
        assert(self.filters.len() <= usize::MAX);
        self.done = self.done + 1;
    }

    /// The image after the last filter.
    pub fn finish(self) -> (img: Pixels)
        requires
            self.wf(),
            self.applied() == self.stack().len(),
        ensures
            img.wf(),
            img == self.image(),
    {
        self.img
    }
}

/// The image is to be no larger than `max_size` each way.
pub open spec fn exceeds(img: Pixels, max_size: Option<u32>) -> bool {
    max_size matches Some(m) && (img.width > m || img.height > m)
}

/// Whether an image can be scaled down to at most `max_size` each way.
pub fn can_fit_within(img: &Pixels, max_size: Option<u32>) -> (b: bool)
    ensures
        b == (img.wf() && (exceeds(*img, max_size) ==> may_resize(
            *img,
            max_size->0,
            max_size->0,
        ))),
{
    img.is_whole() && match max_size {
        Some(m) => img.width <= m && img.height <= m || can_resize(img, m, m),
        None => true,
    }
}

/// Scales an image down to at most `max_size` each way. Without a limit, and within it, the image
/// stays as it is.
pub fn fit_within(img: Pixels, max_size: Option<u32>) -> (r: Pixels)
    requires
        img.wf(),
        exceeds(img, max_size) ==> may_resize(img, max_size->0, max_size->0),
    ensures
        r.wf(),
        !exceeds(img, max_size) ==> r == img,
        exceeds(img, max_size) ==> (r.width, r.height, r.data@) == resized(
            img.width,
            img.height,
            img.data@,
            max_size->0,
            max_size->0,
        ),
        max_size matches Some(m) ==> m > 0 ==> r.width <= m && r.height <= m,
{
    match max_size {
        Some(m) => {
            if img.width > m || img.height > m {
                resize(img, m, m)
            } else {
                img
            }
        },
        None => img,
    }
}

/// How many pixels of an image have each value, by brightness and by channel.
#[derive(Debug, Clone, Copy, PartialEq, Eq)]
pub struct ImageHistogram {
    pub luma: [u32; 256],
    pub r: [u32; 256],
    pub g: [u32; 256],
    pub b: [u32; 256],
}

/// `m` is 1 or the largest of the counts of a channel, whichever is more.
pub open spec fn is_peak(counts: Seq<Seq<u32>>, m: u32) -> bool {
    &&& m >= 1
    &&& forall|c: int, i: int|
        0 <= c < counts.len() && 0 <= i < counts[c].len() ==> #[trigger] counts[c][i] <= m
    &&& m > 1 ==> exists|c: int, i: int|
        0 <= c < counts.len() && 0 <= i < counts[c].len() && #[trigger] counts[c][i] == m
}

fn larger_count(channel: &[u32; 256], least: u32) -> (m: u32)
    ensures
        m >= least,
        forall|i: int| 0 <= i < 256 ==> #[trigger] channel@[i] <= m,
        m > least ==> exists|i: int| 0 <= i < 256 && #[trigger] channel@[i] == m,
{
    let mut m = least;
    let mut i: usize = 0;
    while i < 256
        invariant
            i <= 256,
            m >= least,
            forall|k: int| 0 <= k < i ==> #[trigger] channel@[k] <= m,
            m > least ==> exists|k: int| 0 <= k < i && #[trigger] channel@[k] == m,
        decreases 256 - i,
    {
        if channel[i] > m {
            m = channel[i];
            assert(channel@[i as int] == m);
        }
        i += 1;
    }
    m
}

/// The largest count of one channel, and at least 1.
pub fn channel_peak(channel: &[u32; 256]) -> (m: u32)
    ensures
        is_peak(seq![channel@], m),
{
    let m = larger_count(channel, 1);
    proof {
        let counts = seq![channel@];
        assert(counts[0] == channel@);
        if m > 1 {
            let i = choose|i: int| 0 <= i < 256 && #[trigger] channel@[i] == m;
            assert(counts[0][i] == m);
        }
    }
    m
}

impl ImageHistogram {
    /// The largest count of a channel, and at least 1.
    pub fn peak(&self) -> (m: u32)
        ensures
            is_peak(seq![self.r@, self.g@, self.b@], m),
    {
        let mr = larger_count(&self.r, 1);
        let mg = larger_count(&self.g, mr);
        let mb = larger_count(&self.b, mg);
        proof {
            let counts = seq![self.r@, self.g@, self.b@];
            assert(counts[0] == self.r@ && counts[1] == self.g@ && counts[2] == self.b@);
            if mb > mg {
                let i = choose|i: int| 0 <= i < 256 && #[trigger] self.b@[i] == mb;
                assert(counts[2][i] == mb);
            } else if mg > mr {
                let i = choose|i: int| 0 <= i < 256 && #[trigger] self.g@[i] == mg;
                assert(counts[1][i] == mb);
            } else if mr > 1 {
                let i = choose|i: int| 0 <= i < 256 && #[trigger] self.r@[i] == mr;
                assert(counts[0][i] == mb);
            }
        }
        mb
    }
}

/// How often `v` occurs in `s`.
pub open spec fn tally(s: Seq<u8>, v: int) -> nat
    decreases s.len(),
{
    if s.len() == 0 {
        0
    } else {
        tally(s.drop_last(), v) + if s.last() == v {
            1nat
        } else {
            0
        }
    }
}

proof fn lemma_tally_bound(s: Seq<u8>, v: int)
    ensures
        tally(s, v) <= s.len(),
    decreases s.len(),
{
    if s.len() > 0 {
        lemma_tally_bound(s.drop_last(), v);
    }
}

/// The occurrences of the values below `n`, together.
pub open spec fn tally_below(s: Seq<u8>, n: nat) -> nat
    decreases n,
{
    if n == 0 {
        0
    } else {
        tally_below(s, (n - 1) as nat) + tally(s, n - 1)
    }
}

/// Each value of a sequence falls into one of the 256 buckets.
pub proof fn buckets_hold_everything(s: Seq<u8>)
    ensures
        tally_below(s, 256) == s.len(),
    decreases s.len(),
{
    if s.len() == 0 {
        lemma_empty_buckets(s, 256);
    } else {
        buckets_hold_everything(s.drop_last());
        lemma_one_more(s, 256);
    }
}

proof fn lemma_empty_buckets(s: Seq<u8>, n: nat)
    requires
        s.len() == 0,
    ensures
        tally_below(s, n) == 0,
    decreases n,
{
    if n > 0 {
        lemma_empty_buckets(s, (n - 1) as nat);
    }
}

proof fn lemma_one_more(s: Seq<u8>, n: nat)
    requires
        s.len() > 0,
    ensures
        tally_below(s, n) == tally_below(s.drop_last(), n) + if s.last() < n {
            1nat
        } else {
            0
        },
    decreases n,
{
    if n > 0 {
        lemma_one_more(s, (n - 1) as nat);
    }
}

/// `h` counts the values of `s`.
pub open spec fn counts(h: [u32; 256], s: Seq<u8>) -> bool {
    forall|v: int| 0 <= v < 256 ==> #[trigger] h@[v] == tally(s, v)
}

/// The red values of an image.
pub open spec fn reds(img: Image) -> Seq<u8> {
    Seq::new(img.pixels.len(), |i: int| img.pixels[i].r)
}

/// The green values of an image.
pub open spec fn greens(img: Image) -> Seq<u8> {
    Seq::new(img.pixels.len(), |i: int| img.pixels[i].g)
}

/// The blue values of an image.
pub open spec fn blues(img: Image) -> Seq<u8> {
    Seq::new(img.pixels.len(), |i: int| img.pixels[i].b)
}

fn count_one(h: &mut [u32; 256], v: u8, Ghost(s): Ghost<Seq<u8>>)
    requires
        counts(*old(h), s),
        s.len() < u32::MAX,
    ensures
        counts(*final(h), s.push(v)),
{
    proof {
        lemma_tally_bound(s, v as int);
        assert(s.push(v).drop_last() == s);
    }
    let n: u32 = h[v as usize];
    h[v as usize] = n + 1;
}

/// `h` counts the red, green and blue of each pixel of an image, and its brightness.
pub open spec fn is_histogram(h: ImageHistogram, img: Image, lumas: Seq<u8>) -> bool {
    &&& counts(h.luma, lumas)
    &&& counts(h.r, reds(img))
    &&& counts(h.g, greens(img))
    &&& counts(h.b, blues(img))
}

/// Counts the values of an image. `lumas` holds the brightness of each pixel.
pub fn compute_histogram(img: &Pixels, lumas: &Vec<u8>) -> (h: ImageHistogram)
    requires
        img.wf(),
        lumas@.len() == img@.pixels.len(),
        lumas@.len() <= u32::MAX,
    ensures
        counts(h.luma, lumas@),
        counts(h.r, reds(img@)),
        counts(h.g, greens(img@)),
        counts(h.b, blues(img@)),
        is_histogram(h, img@, lumas@),
{
    let mut luma: [u32; 256] = [0; 256];
    let mut r: [u32; 256] = [0; 256];
    let mut g: [u32; 256] = [0; 256];
    let mut b: [u32; 256] = [0; 256];
    let n = lumas.len();
    let size = img.data.len();
    let mut i: usize = 0;
    while i < n
        invariant
            n == lumas@.len(),
            n <= u32::MAX,
            i <= n,
            img.data@.len() == 4 * n,
            size == 4 * n,
            img@.pixels.len() == n,
            counts(luma, lumas@.take(i as int)),
            counts(r, reds(img@).take(i as int)),
            counts(g, greens(img@).take(i as int)),
            counts(b, blues(img@).take(i as int)),
        decreases n - i,
    {
        let at: usize = 4 * i;
        count_one(&mut luma, lumas[i], Ghost(lumas@.take(i as int)));
        count_one(&mut r, img.data[at], Ghost(reds(img@).take(i as int)));
        count_one(&mut g, img.data[at + 1], Ghost(greens(img@).take(i as int)));
        count_one(&mut b, img.data[at + 2], Ghost(blues(img@).take(i as int)));
        proof {
            assert(lumas@.take(i + 1) == lumas@.take(i as int).push(lumas@[i as int]));
            assert(reds(img@).take(i + 1) == reds(img@).take(i as int).push(img.data@[4 * i]));
            assert(greens(img@).take(i + 1) == greens(img@).take(i as int).push(
                img.data@[4 * i + 1],
            ));
            assert(blues(img@).take(i + 1) == blues(img@).take(i as int).push(
                img.data@[4 * i + 2],
            ));
        }
        i += 1;
    }
    assert(lumas@.take(n as int) == lumas@);
    assert(reds(img@).take(n as int) == reds(img@));
    assert(greens(img@).take(n as int) == greens(img@));
    assert(blues(img@).take(n as int) == blues(img@));
    ImageHistogram { luma, r, g, b }
}

} // verus!
