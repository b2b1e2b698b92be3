//! Reading height maps and material maps.
//!
//! Images are values of `image::DynamicImage`. Four pixel layouts are read
//! here: one channel of eight or of sixteen bits, and three or four
//! channels of eight bits. Of a pixel only its channel values matter;
//! they are numbered row by row, pixel by pixel, channel by channel.

use vstd::prelude::*;
use crate::error::Error;
use crate::scalar::Scalar;
use crate::share::{share, share_of, unorm16};

verus! {

/// `image::DynamicImage`, an image in one of the layouts of the `image`
/// crate.
#[verifier::external_type_specification]
#[verifier::external_body]
pub struct ExDynamicImage(image::DynamicImage);

/// The layout of the pixels of an image.
#[derive(Clone, Copy, Debug, PartialEq, Eq, Structural)]
pub enum Encoding {
    /// One channel of eight bits.
    Luma8,
    /// One channel of sixteen bits.
    Luma16,
    /// Red, green and blue, eight bits each.
    Rgb8,
    /// Red, green, blue and alpha, eight bits each.
    Rgba8,
    /// Any layout that is not read here.
    Other,
}

/// How the pixels of a source image reach a texture.
#[derive(Clone, Copy, Debug, PartialEq, Eq, Structural)]
pub enum Upload {
    /// Every pixel gets an opaque alpha channel.
    ExpandToRgba,
    /// The pixels go as they are.
    Raw,
    /// Every value goes as its fraction of the largest value.
    Normalized,
}

/// The differences between a pixel and its neighbour one column to the
/// right and one row down, where the neighbour of the last column is the
/// first and likewise for rows.
#[derive(Clone, Copy, Debug, PartialEq, Eq, Structural)]
pub struct SlopeDelta {
    pub delta_x: i64,
    pub delta_y: i64,
    pub delta_z: i32,
}

/// What `DynamicImage::width` returns for an image.
pub uninterp spec fn image_width(img: image::DynamicImage) -> u32;

/// What `DynamicImage::height` returns for an image.
pub uninterp spec fn image_height(img: image::DynamicImage) -> u32;

/// The layout that `DynamicImage::color` reports for an image.
pub uninterp spec fn image_encoding(img: image::DynamicImage) -> Encoding;

/// The channel values of an image in one of the four layouts, row by row,
/// pixel by pixel, channel by channel.
pub uninterp spec fn image_samples(img: image::DynamicImage) -> Seq<u16>;

/// The number of channels of a layout.
pub open spec fn channels_of(encoding: Encoding) -> int {
    match encoding {
        Encoding::Luma8 => 1,
        Encoding::Luma16 => 1,
        Encoding::Rgb8 => 3,
        Encoding::Rgba8 => 4,
        Encoding::Other => 0,
    }
}

/// The largest value that a channel of a layout holds.
pub open spec fn max_value_of(encoding: Encoding) -> int {
    match encoding {
        Encoding::Luma16 => 65535,
        Encoding::Other => 0,
        _ => 255,
    }
}

/// The place of a channel value among the values of an image that is
/// `width` pixels wide.
pub open spec fn sample_index(width: int, channels: int, x: int, y: int, channel: int) -> int {
    (y * width + x) * channels + channel
}

/// Channel `channel` of the pixel in column `x` and row `y`.
pub open spec fn sample_at(img: image::DynamicImage, x: int, y: int, channel: int) -> u16 {
    image_samples(img)[sample_index(
        image_width(img) as int,
        channels_of(image_encoding(img)),
        x,
        y,
        channel,
    )]
}

/// Whether an image has a pixel in column `x` and row `y` that can be
/// read.
pub open spec fn readable_at(img: image::DynamicImage, x: int, y: int) -> bool {
    &&& image_encoding(img) != Encoding::Other
    &&& 0 <= x < image_width(img)
    &&& 0 <= y < image_height(img)
}

/// `DynamicImage::width`: the width of the image in pixels.
#[verifier::external_body]
fn width_of(img: &image::DynamicImage) -> (width: u32)
    ensures
        width == image_width(*img),
{
    img.width()
}

/// `DynamicImage::height`: the height of the image in pixels.
#[verifier::external_body]
fn height_of(img: &image::DynamicImage) -> (height: u32)
    ensures
        height == image_height(*img),
{
    img.height()
}

/// `DynamicImage::color`: the layout of the image, one of the four that
/// are read here or any other.
#[verifier::external_body]
fn encoding_of(img: &image::DynamicImage) -> (encoding: Encoding)
    ensures
        encoding == image_encoding(*img),
{
    match img.color() {
        image::ColorType::L8 => Encoding::Luma8,
        image::ColorType::L16 => Encoding::Luma16,
        image::ColorType::Rgb8 => Encoding::Rgb8,
        image::ColorType::Rgba8 => Encoding::Rgba8,
        _ => Encoding::Other,
    }
}

/// `ImageBuffer::get_pixel` on the buffer inside the image: one channel
/// of the pixel in column `x` and row `y`. The crate panics for a pixel
/// outside the image; in a layout of eight bits no value exceeds 255.
#[verifier::external_body]
fn channel_of(img: &image::DynamicImage, x: u32, y: u32, channel: usize) -> (value: u16)
    requires
        readable_at(*img, x as int, y as int),
        channel < channels_of(image_encoding(*img)),
    ensures
        value == image_samples(*img)[sample_index(
            image_width(*img) as int,
            channels_of(image_encoding(*img)),
            x as int,
            y as int,
            channel as int,
        )],
        value <= max_value_of(image_encoding(*img)),
{
    match img {
        image::DynamicImage::ImageLuma8(buffer) => buffer.get_pixel(x, y).0[channel] as u16,
        image::DynamicImage::ImageLuma16(buffer) => buffer.get_pixel(x, y).0[channel],
        image::DynamicImage::ImageRgb8(buffer) => buffer.get_pixel(x, y).0[channel] as u16,
        image::DynamicImage::ImageRgba8(buffer) => buffer.get_pixel(x, y).0[channel] as u16,
        _ => 0,
    }
}

impl Encoding {
    /// The number of channels of the layout.
    pub fn channels(&self) -> (count: usize)
        ensures
            count == channels_of(*self),
    {
        match self {
            Encoding::Luma8 => 1,
            Encoding::Luma16 => 1,
            Encoding::Rgb8 => 3,
            Encoding::Rgba8 => 4,
            Encoding::Other => 0,
        }
    }

    /// The largest value that a channel of the layout holds; a sample is
    /// a fraction of it.
    pub fn max_value(&self) -> (max: u16)
        ensures
            max == max_value_of(*self),
    {
        match self {
            Encoding::Luma16 => 65535,
            Encoding::Other => 0,
            _ => 255,
        }
    }

    /// The layout of an image whose pixels take `pixel_size` bytes each.
    pub fn for_pixel_size(pixel_size: usize) -> (encoding: Result<Encoding, Error>)
        ensures
            encoding == if pixel_size == 4 {
                Ok::<Encoding, Error>(Encoding::Rgba8)
            } else if pixel_size == 3 {
                Ok::<Encoding, Error>(Encoding::Rgb8)
            } else if pixel_size == 2 {
                Ok::<Encoding, Error>(Encoding::Luma16)
            } else if pixel_size == 1 {
                Ok::<Encoding, Error>(Encoding::Luma8)
            } else {
                Err::<Encoding, Error>(Error::UnsupportedImageEncoding)
            },
    {
        match pixel_size {
            4 => Ok(Encoding::Rgba8),
            3 => Ok(Encoding::Rgb8),
            2 => Ok(Encoding::Luma16),
            1 => Ok(Encoding::Luma8),
            _ => Err(Error::UnsupportedImageEncoding),
        }
    }

    /// How a source image of this layout reaches its texture. Images of one
    /// channel of eight bits are not uploaded.
    pub fn upload(&self) -> (kind: Result<Upload, Error>)
        ensures
            kind == match *self {
                Encoding::Rgb8 => Ok::<Upload, Error>(Upload::ExpandToRgba),
                Encoding::Rgba8 => Ok::<Upload, Error>(Upload::Raw),
                Encoding::Luma16 => Ok::<Upload, Error>(Upload::Normalized),
                _ => Err::<Upload, Error>(Error::UnsupportedImageEncoding),
            },
    {
        match self {
            Encoding::Rgb8 => Ok(Upload::ExpandToRgba),
            Encoding::Rgba8 => Ok(Upload::Raw),
            Encoding::Luma16 => Ok(Upload::Normalized),
            _ => Err(Error::UnsupportedImageEncoding),
        }
    }
}

/// The width of an image in pixels.
pub fn width(img: &image::DynamicImage) -> (w: u32)
    ensures
        w == image_width(*img),
{
    width_of(img)
}

/// The height of an image in pixels.
pub fn height(img: &image::DynamicImage) -> (h: u32)
    ensures
        h == image_height(*img),
{
    height_of(img)
}

/// The layout of an image.
pub fn encoding(img: &image::DynamicImage) -> (e: Encoding)
    ensures
        e == image_encoding(*img),
{
    encoding_of(img)
}

/// The first channel of the pixel in column `x` and row `y`; `None` for a
/// pixel outside the image and for an image in a layout that is not read.
pub fn first_channel(img: &image::DynamicImage, x: u32, y: u32) -> (value: Option<u16>)
    ensures
        value == if readable_at(*img, x as int, y as int) {
            Some(sample_at(*img, x as int, y as int, 0))
        } else {
            None
        },
        value matches Some(v) ==> v <= max_value_of(image_encoding(*img)),
{
    let e = encoding_of(img);
    if e == Encoding::Other || x >= width_of(img) || y >= height_of(img) {
        return None;
    }
    Some(channel_of(img, x, y, 0))
}

/// The pixel after `at` in a row or column of `len` pixels, the first
/// pixel following the last.
pub open spec fn next_wrapping(at: int, len: int) -> int {
    (at + 1) % len
}

/// The differences between the pixel in column `x0` and row `y0` and its
/// neighbour down and to the right, in position and in the first channel;
/// `None` for a pixel outside the image and for an image in a layout that
/// is not read.
pub fn slope_delta(img: &image::DynamicImage, x0: u32, y0: u32) -> (delta: Option<SlopeDelta>)
    ensures
        delta is Some <==> readable_at(*img, x0 as int, y0 as int),
        delta matches Some(d) ==> {
            let x1 = next_wrapping(x0 as int, image_width(*img) as int);
            let y1 = next_wrapping(y0 as int, image_height(*img) as int);
            &&& d.delta_x == x1 - x0
            &&& d.delta_y == y1 - y0
            &&& d.delta_z == sample_at(*img, x1, y1, 0) - sample_at(*img, x0 as int, y0 as int, 0)
        },
{
    let e = encoding_of(img);
    let w = width_of(img);
    let h = height_of(img);
    if e == Encoding::Other || x0 >= w || y0 >= h {
        return None;
    }
    let x1: u32 = if x0 + 1 == w {
        0
    } else {
        x0 + 1
    };
    let y1: u32 = if y0 + 1 == h {
        0
    } else {
        y0 + 1
    };
    assert(x1 == next_wrapping(x0 as int, w as int)) by {
        if x0 + 1 == w {
            assert((x0 + 1) % (w as int) == 0) by (nonlinear_arith)
                requires
                    x0 + 1 == w,
                    w > 0,
            ;
        } else {
            vstd::arithmetic::div_mod::lemma_small_mod((x0 + 1) as nat, w as nat);
        }
    }
    assert(y1 == next_wrapping(y0 as int, h as int)) by {
        if y0 + 1 == h {
            assert((y0 + 1) % (h as int) == 0) by (nonlinear_arith)
                requires
                    y0 + 1 == h,
                    h > 0,
            ;
        } else {
            vstd::arithmetic::div_mod::lemma_small_mod((y0 + 1) as nat, h as nat);
        }
    }
    let z0: i32 = channel_of(img, x0, y0, 0) as i32;
    let z1: i32 = channel_of(img, x1, y1, 0) as i32;
    Some(
        SlopeDelta { delta_x: x1 as i64 - x0 as i64, delta_y: y1 as i64 - y0 as i64, delta_z: z1 - z0 },
    )
}

/// Whether the first channel of every pixel of an image holds `value`.
pub open spec fn flat(img: image::DynamicImage, value: u16) -> bool {
    forall|x: int, y: int| readable_at(img, x, y) ==> #[trigger] sample_at(img, x, y, 0) == value
}

/// On a flat image no pixel differs in height from its neighbour.
pub proof fn lemma_flat_has_no_slope(img: image::DynamicImage, value: u16, x0: int, y0: int)
    requires
        flat(img, value),
        readable_at(img, x0, y0),
    ensures
        ({
            let x1 = next_wrapping(x0, image_width(img) as int);
            let y1 = next_wrapping(y0, image_height(img) as int);
            readable_at(img, x1, y1) && sample_at(img, x1, y1, 0) - sample_at(img, x0, y0, 0) == 0
        }),
{
    let w = image_width(img) as int;
    let h = image_height(img) as int;
    assert(0 <= (x0 + 1) % w < w) by (nonlinear_arith)
        requires
            w > 0,
            x0 >= 0,
    ;
    assert(0 <= (y0 + 1) % h < h) by (nonlinear_arith)
        requires
            h > 0,
            y0 >= 0,
    ;
}

/// Byte `k` of an image of three channels after an opaque alpha channel
/// was added to every pixel: the fourth byte of each pixel is 255, the
/// other three are the pixel's channels.
pub open spec fn rgba_byte(samples: Seq<u16>, k: int) -> int {
    if k % 4 == 3 {
        255
    } else {
        samples[3 * (k / 4) + k % 4] as int
    }
}

/// The pixels of an image of three channels with an opaque alpha channel
/// added to each: four bytes per pixel, row by row. Any other layout is
/// refused.
pub fn convert_rgb8_to_rgba8(img: &image::DynamicImage) -> (rgba: Result<Vec<u8>, Error>)
    ensures
        match rgba {
            Ok(out) => {
                &&& image_encoding(*img) == Encoding::Rgb8
                &&& out@.len() == 4 * (image_height(*img) * image_width(*img))
                &&& forall|k: int|
                    0 <= k < out@.len() ==> #[trigger] out@[k] == rgba_byte(
                        image_samples(*img),
                        k,
                    )
            },
            Err(e) => image_encoding(*img) != Encoding::Rgb8 && e
                == Error::UnsupportedImageEncoding,
        },
{
    if encoding_of(img) != Encoding::Rgb8 {
        return Err(Error::UnsupportedImageEncoding);
    }
    let w = width_of(img);
    let h = height_of(img);
    let mut out: Vec<u8> = Vec::new();
    let mut y: u32 = 0;
    while y < h
        invariant
            y <= h,
            w == image_width(*img),
            h == image_height(*img),
            image_encoding(*img) == Encoding::Rgb8,
            out@.len() == 4 * (y * w),
            forall|k: int|
                0 <= k < out@.len() ==> #[trigger] out@[k] == rgba_byte(image_samples(*img), k),
        decreases h - y,
    {
        let mut x: u32 = 0;
        while x < w
            invariant
                x <= w,
                y < h,
                w == image_width(*img),
                h == image_height(*img),
                image_encoding(*img) == Encoding::Rgb8,
                out@.len() == 4 * (y * w + x),
                forall|k: int|
                    0 <= k < out@.len() ==> #[trigger] out@[k] == rgba_byte(
                        image_samples(*img),
                        k,
                    ),
            decreases w - x,
        {
            let r = channel_of(img, x, y, 0);
            let g = channel_of(img, x, y, 1);
            let b = channel_of(img, x, y, 2);
            let ghost base = out@.len() as int;
            let ghost pixel = y * w + x;
            out.push(r as u8);
            out.push(g as u8);
            out.push(b as u8);
            out.push(255);
            proof {
                assert(base == 4 * pixel);
                assert(forall|c: int|
                    sample_index(w as int, 3, x as int, y as int, c) == 3 * pixel + c)
                    by (nonlinear_arith)
                    requires
                        pixel == y * w + x,
                ;
                assert forall|k: int| base <= k < base + 4 implies #[trigger] out@[k] == rgba_byte(
                    image_samples(*img),
                    k,
                ) by {
                    assert(k / 4 == pixel);
                    assert(k % 4 == k - base);
                }
            }
            x = x + 1;
        }
        proof {
            assert((y + 1) * w == y * w + w) by (nonlinear_arith);
        }
        y = y + 1;
    }
    Ok(out)
}

/// The first channel of the pixel in column `x` and row `y` as its share
/// of the largest value of the layout; `None` for a pixel outside the
/// image and for an image in a layout that is not read.
pub fn first_channel_share(img: &image::DynamicImage, x: u32, y: u32) -> (value: Option<Scalar>)
    ensures
        value == if readable_at(*img, x as int, y as int) {
            Some(
                share_of(
                    sample_at(*img, x as int, y as int, 0) as int,
                    max_value_of(image_encoding(*img)),
                ),
            )
        } else {
            None
        },
{
    match first_channel(img, x, y) {
        Some(v) => {
            let max: u16 = encoding_of(img).max_value();
            Some(share(v as u32, max as u32))
        },
        None => None,
    }
}

/// The pixels of an image of one channel of sixteen bits, each as its
/// share of 65535, row by row. Any other layout is refused.
pub fn convert_luma16_to_float(img: &image::DynamicImage) -> (shares: Result<Vec<Scalar>, Error>)
    ensures
        match shares {
            Ok(out) => {
                &&& image_encoding(*img) == Encoding::Luma16
                &&& out@.len() == image_height(*img) * image_width(*img)
                &&& forall|k: int|
                    0 <= k < out@.len() ==> #[trigger] out@[k] == share_of(
                        image_samples(*img)[k] as int,
                        65535,
                    )
            },
            Err(e) => image_encoding(*img) != Encoding::Luma16 && e
                == Error::UnsupportedImageEncoding,
        },
{
    if encoding_of(img) != Encoding::Luma16 {
        return Err(Error::UnsupportedImageEncoding);
    }
    let w = width_of(img);
    let h = height_of(img);
    let mut out: Vec<Scalar> = Vec::new();
    let mut y: u32 = 0;
    while y < h
        invariant
            y <= h,
            w == image_width(*img),
            h == image_height(*img),
            image_encoding(*img) == Encoding::Luma16,
            out@.len() == y * w,
            forall|k: int|
                0 <= k < out@.len() ==> #[trigger] out@[k] == share_of(
                    image_samples(*img)[k] as int,
                    65535,
                ),
        decreases h - y,
    {
        let mut x: u32 = 0;
        while x < w
            invariant
                x <= w,
                y < h,
                w == image_width(*img),
                h == image_height(*img),
                image_encoding(*img) == Encoding::Luma16,
                out@.len() == y * w + x,
                forall|k: int|
                    0 <= k < out@.len() ==> #[trigger] out@[k] == share_of(
                        image_samples(*img)[k] as int,
                        65535,
                    ),
            decreases w - x,
        {
            let v = channel_of(img, x, y, 0);
            proof {
                assert(sample_index(w as int, 1, x as int, y as int, 0) == y * w + x)
                    by (nonlinear_arith);
            }
            out.push(unorm16(v));
            x = x + 1;
        }
        proof {
            assert((y + 1) * w == y * w + w) by (nonlinear_arith);
        }
        y = y + 1;
    }
    Ok(out)
}

} // verus!
