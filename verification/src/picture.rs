//! Pictures as the detection model takes them: square, and one plane after another.

use image::imageops::FilterType;
use vstd::prelude::*;

verus! {

/// Edge of the pictures that the model takes.
pub const PICTURE_SIDE: u32 = 640;

/// The pixels of a picture of three bytes each, after `image::imageops::resize` with the
/// triangle filter has made it a square.
pub uninterp spec fn resized(pixels: Seq<u8>, width: u32, height: u32, side: u32) -> Seq<u8>;

/// Makes a picture a square, as `image::imageops::resize` does it with the triangle filter
/// on an `RgbImage`. What comes out depends on the arguments alone, and has three bytes for
/// each pixel of the square. The pixels are all there, so the picture can be made; the
/// intermediate one, of 16 bytes for each of `width` by `side` pixels, can be counted; and up
/// to the bound on the edge some pixel near each sampled place has a weight above zero.
#[verifier::external_body]
fn resize_pixels(pixels: Vec<u8>, width: u32, height: u32, side: u32) -> (r: Vec<u8>)
    requires
        pixels@.len() == 3 * width * height,
        0 < side <= 4096,
        16 * width * side <= isize::MAX,
    ensures
        r@ == resized(pixels@, width, height, side),
        r@.len() == 3 * side * side,
{
    let picture = image::RgbImage::from_raw(width, height, pixels).unwrap();
    image::imageops::resize(&picture, side, side, FilterType::Triangle).into_raw()
}

/// The pixels are those of a picture of the given size, and resizing it stays within what
/// the machine can count.
pub open spec fn can_be_squared(count: nat, width: u32, height: u32) -> bool {
    count == 3 * width * height && 16 * width * PICTURE_SIDE <= isize::MAX
}

/// Makes a picture one that the model takes. Nothing comes back where the pixels are not
/// those of a picture of the given size, or it is too wide for the machine.
pub fn square(pixels: Vec<u8>, width: u32, height: u32) -> (r: Option<Vec<u8>>)
    ensures
        match r {
            Some(squared) => {
                &&& can_be_squared(pixels@.len(), width, height)
                &&& squared@ == resized(pixels@, width, height, PICTURE_SIDE)
                &&& squared@.len() == 3 * PICTURE_SIDE * PICTURE_SIDE
            },
            None => !can_be_squared(pixels@.len(), width, height),
        },
{
    proof {
        assert(0 <= width * height <= u32::MAX * u32::MAX) by (nonlinear_arith)
            requires
                0 <= width <= u32::MAX,
                0 <= height <= u32::MAX,
        ;
        assert(3 * width * height == 3 * (width * height)) by (nonlinear_arith);
    }
    let count: u128 = 3 * (width as u128 * height as u128);
    let between: u64 = 16 * 640 * width as u64;
    if pixels.len() as u128 != count || between > isize::MAX as u64 {
        return None;
    }
    Some(resize_pixels(pixels, width, height, PICTURE_SIDE))
}

/// One colour of a picture.
pub open spec fn colour(pixels: Seq<u8>, which: int) -> Seq<u8> {
    Seq::new(pixels.len() / 3, |p: int| pixels[3 * p + which])
}

fn push_colour(planes: &mut Vec<u8>, pixels: &[u8], which: usize)
    requires
        which < 3,
    ensures
        final(planes)@ == old(planes)@ + colour(pixels@, which as int),
{
    let count: usize = pixels.len() / 3;
    let ghost before = planes@;
    let ghost whole = colour(pixels@, which as int);
    let mut p: usize = 0;
    while p < count
        invariant
            p <= count == pixels@.len() / 3,
            pixels@.len() <= usize::MAX,
            which < 3,
            whole == colour(pixels@, which as int),
            planes@ == before + whole.take(p as int),
        decreases count - p,
    {
        planes.push(pixels[3 * p + which]);
        p = p + 1;
        assert(whole.take(p as int) =~= whole.take(p - 1).push(whole[p - 1]));
    }
    assert(whole.take(p as int) =~= whole);
}

/// The colours of a picture, one plane after another: red, green, blue.
pub fn colour_planes(pixels: &[u8]) -> (r: Vec<u8>)
    ensures
        r@ == colour(pixels@, 0) + colour(pixels@, 1) + colour(pixels@, 2),
        pixels@.len() % 3 == 0 ==> r@.len() == pixels@.len(),
{
    let mut planes: Vec<u8> = Vec::new();
    push_colour(&mut planes, pixels, 0);
    push_colour(&mut planes, pixels, 1);
    push_colour(&mut planes, pixels, 2);
    planes
}


/// The planes hold the picture: red comes first, then green, then blue, and within a plane
/// the pixels keep their order.
pub proof fn planes_hold_the_picture(pixels: &[u8], planes: Vec<u8>, p: int)
    requires
        call_ensures(colour_planes, (pixels,), planes),
        pixels@.len() % 3 == 0,
        0 <= p < pixels@.len() / 3,
    ensures
        planes@.len() == pixels@.len(),
        planes@[p] == pixels@[3 * p],
        planes@[pixels@.len() / 3 + p] == pixels@[3 * p + 1],
        planes@[2 * (pixels@.len() / 3) + p] == pixels@[3 * p + 2],
{
}

} // verus!
