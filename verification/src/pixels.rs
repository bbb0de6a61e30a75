//! Red pixels: how many pixels of a picture are more red than green and
//! blue together.

use vstd::prelude::*;
use crate::text::same_text;

verus! {

/// The red, green and blue of one pixel.
pub type Pixel = (u8, u8, u8);

/// The pixels of the picture that `data` encodes, row by row; nothing
/// where `data` is no picture that the decoder reads.
pub uninterp spec fn decoded_pixels(data: Seq<u8>) -> Option<Seq<Pixel>>;

/// Decodes a picture with the `image` crate: `image::load_from_memory`,
/// then the items of `GenericImageView::pixels`, of each of which the red,
/// green and blue are kept. Nothing is proved of the pixels; the contract
/// only gives them their name.
#[verifier::external_body]
fn decode_pixels(data: &[u8]) -> (pixels: Option<Vec<Pixel>>)
    ensures
        match pixels {
            Some(all) => decoded_pixels(data@) == Some(all@),
            None => decoded_pixels(data@) is None,
        },
{
    let picture = image::load_from_memory(data).ok()?;
    Some(
        image::GenericImageView::pixels(&picture).map(
            |(_, _, image::Rgba([red, green, blue, _]))| (red, green, blue),
        ).collect(),
    )
}

/// Whether a pixel is red: more red than green and blue together.
pub open spec fn is_red(pixel: Pixel) -> bool {
    pixel.0 > pixel.1 + pixel.2
}

/// How many of the pixels are red.
pub open spec fn red_count(pixels: Seq<Pixel>) -> nat
    decreases pixels.len(),
{
    if pixels.len() == 0 {
        0
    } else {
        red_count(pixels.drop_last()) + if is_red(pixels.last()) {
            1nat
        } else {
            0nat
        }
    }
}

/// Counts the red pixels.
pub fn count_red(pixels: &Vec<Pixel>) -> (count: usize)
    ensures
        count == red_count(pixels@),
{
    let n = pixels.len();
    let mut count: usize = 0;
    let mut i: usize = 0;
    assert(pixels@.take(0) =~= Seq::empty());
    while i < n
        invariant
            i <= n,
            n == pixels@.len(),
            count == red_count(pixels@.take(i as int)),
            count <= i,
        decreases n - i,
    {
        let pixel = pixels[i];
        proof {
            assert(pixels@.take(i + 1).drop_last() =~= pixels@.take(i as int));
            assert(pixels@.take(i + 1).last() == pixel);
        }
        if pixel.0 as u32 > pixel.1 as u32 + pixel.2 as u32 {
            count = count + 1;
        }
        i += 1;
    }
    assert(pixels@.take(n as int) =~= pixels@);
    count
}

/// Counts the red pixels of the picture that `data` encodes; nothing where
/// `data` is no picture.
pub fn red_pixels(data: &[u8]) -> (count: Option<usize>)
    ensures
        match count {
            Some(red) => decoded_pixels(data@) is Some && red == red_count(
                decoded_pixels(data@)->0,
            ),
            None => decoded_pixels(data@) is None,
        },
{
    match decode_pixels(data) {
        Some(pixels) => Some(count_red(&pixels)),
        None => None,
    }
}

/// Whether a part of an upload is the picture to count in: it is named
/// `image` and said to be a PNG.
pub fn is_picture_part(name: &str, content_type: &str) -> (yes: bool)
    ensures
        yes == (name@ == "image"@ && content_type@ == "image/png"@),
{
    same_text(name, "image") && same_text(content_type, "image/png")
}

} // verus!
