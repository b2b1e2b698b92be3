//! What a height map sample reads.
//!
//! A sample is taken at a point of the unit square. Outside the square the
//! map counts as flat and the sample is zero. Inside, the point is scaled
//! to a position among the pixels, and every such position reads pixels of
//! the image: a position beyond the last column or row falls into the
//! last one, and the pixel after the last is the last itself.
//!
//! A position on the last row or column reads the pixel it names and
//! nothing else; so does, for most layouts, a position that equals the
//! width or height, which is moved to the last pixel. Any other position
//! falls between four pixels, and the sample is interpolated between the
//! first channel of each. Images of one channel of sixteen bits are read
//! at half their resolution and are interpolated at the far edge too; the
//! other layouts are read at full resolution.
//!
//! Scaling a point and interpolating between pixels is arithmetic on
//! fractions and is left to the caller. Which pixels are read, and every
//! sample that is not interpolated, is decided here.

use vstd::prelude::*;
use crate::raster::{
    encoding,
    first_channel,
    first_channel_share,
    height,
    image_encoding,
    image_height,
    image_width,
    max_value_of,
    readable_at,
    sample_at,
    width,
    Encoding,
};
use crate::scalar::{Scalar, ONE_BITS, ZERO_BITS};
use crate::share::share_of;
use crate::whole::{
    equals_whole,
    is_number,
    lemma_whole_part_fits,
    rounded,
    truncate,
    whole_part,
};

verus! {

/// How the coordinates of a sample are turned into pixel positions.
#[derive(Clone, Copy, Debug, PartialEq, Eq, Structural)]
pub struct SamplePolicy {
    /// Whether a coordinate is scaled by half the size of the image
    /// instead of its size.
    pub half_resolution: bool,
    /// Whether a position that equals the size of the image is moved to
    /// the last pixel.
    pub clamp_at_far_edge: bool,
}

/// The first channel of four pixels that meet in a corner: `p00` in
/// column `x0` and row `y0`, `p10` in the next column, `p01` in the next
/// row, and `p11` in the next column and row.
#[derive(Clone, Copy, Debug, PartialEq, Eq, Structural)]
pub struct Neighbourhood {
    pub p00: u16,
    pub p01: u16,
    pub p10: u16,
    pub p11: u16,
}

/// The pixels that a position reads.
#[derive(Clone, Copy, Debug, PartialEq, Eq, Structural)]
pub enum Footprint {
    /// The pixel in column `x` and row `y`, and no other.
    Pixel { x: u32, y: u32 },
    /// The pixel in column `x0` and row `y0` and its neighbours in the
    /// next column and the next row.
    Corner { x0: u32, y0: u32 },
}

/// What a sample at a position is made of.
#[derive(Clone, Copy, Debug, PartialEq, Eq, Structural)]
pub enum Reading {
    /// The image is in a layout that is not read; the sample is zero.
    Unread,
    /// The image has no pixel.
    Empty,
    /// The sample is this share of the largest value.
    Value { share: Scalar },
    /// The sample is interpolated between these four pixels, the first of
    /// them in column `x0` and row `y0`.
    Blend { x0: u32, y0: u32, corner: Neighbourhood },
}

/// The column that a position falls into in an image that is `size`
/// pixels wide: the whole number it begins with, and the last column for a
/// position beyond it.
pub open spec fn column_of(x: Scalar, size: u32) -> int {
    if whole_part(x) < size {
        whole_part(x)
    } else {
        size - 1
    }
}

/// The column after column `at`, which at the last column is that column
/// itself.
pub open spec fn next_of(at: int, size: u32) -> int {
    if at + 1 < size {
        at + 1
    } else {
        at
    }
}

/// Whether a position names the last column of an image that is `size`
/// pixels wide, as the machine compares them.
pub open spec fn on_last(x: Scalar, size: u32) -> bool {
    is_number(x, rounded(size - 1))
}

/// Whether a position equals the width `size` of an image, as the machine
/// compares them.
pub open spec fn at_far_edge(x: Scalar, size: u32) -> bool {
    is_number(x, rounded(size as int))
}

/// The column that a position reads: the last one for a position that was
/// moved there from the far edge, and else the one it falls into.
pub open spec fn read_column(x: Scalar, size: u32, policy: SamplePolicy) -> int {
    if policy.clamp_at_far_edge && at_far_edge(x, size) {
        size - 1
    } else {
        column_of(x, size)
    }
}

/// Whether the position `(x, y)` reads one pixel only: it names the last
/// column or row, or it was moved there from the far edge.
pub open spec fn reads_one_pixel(
    width: u32,
    height: u32,
    policy: SamplePolicy,
    x: Scalar,
    y: Scalar,
) -> bool {
    ||| on_last(x, width)
    ||| on_last(y, height)
    ||| policy.clamp_at_far_edge && (at_far_edge(x, width) || at_far_edge(y, height))
}

/// The pixels that the position `(x, y)` reads in an image of `width` by
/// `height` pixels.
pub open spec fn footprint_of(
    width: u32,
    height: u32,
    policy: SamplePolicy,
    x: Scalar,
    y: Scalar,
) -> Footprint {
    let column = read_column(x, width, policy) as u32;
    let row = read_column(y, height, policy) as u32;
    if reads_one_pixel(width, height, policy, x, y) {
        Footprint::Pixel { x: column, y: row }
    } else {
        Footprint::Corner { x0: column, y0: row }
    }
}

/// The pixel in column `x0` and row `y0` of an image and its neighbours in
/// the next column and the next row.
pub open spec fn corner_of(img: image::DynamicImage, x0: int, y0: int) -> Neighbourhood {
    let x1 = next_of(x0, image_width(img));
    let y1 = next_of(y0, image_height(img));
    Neighbourhood {
        p00: sample_at(img, x0, y0, 0),
        p01: sample_at(img, x0, y1, 0),
        p10: sample_at(img, x1, y0, 0),
        p11: sample_at(img, x1, y1, 0),
    }
}

/// What a sample at the position `(x, y)` of an image is made of.
pub open spec fn reading_of(img: image::DynamicImage, x: Scalar, y: Scalar) -> Reading {
    match policy_of(image_encoding(img)) {
        None => Reading::Unread,
        Some(policy) => if image_width(img) == 0 || image_height(img) == 0 {
            Reading::Empty
        } else {
            match footprint_of(image_width(img), image_height(img), policy, x, y) {
                Footprint::Pixel { x: px, y: py } => Reading::Value {
                    share: share_of(
                        sample_at(img, px as int, py as int, 0) as int,
                        max_value_of(image_encoding(img)),
                    ),
                },
                Footprint::Corner { x0, y0 } => Reading::Blend {
                    x0,
                    y0,
                    corner: corner_of(img, x0 as int, y0 as int),
                },
            }
        },
    }
}

/// Whether a footprint lies in an image of `width` by `height` pixels.
pub open spec fn footprint_inside(found: Footprint, width: u32, height: u32) -> bool {
    match found {
        Footprint::Pixel { x, y } => x < width && y < height,
        Footprint::Corner { x0, y0 } => x0 < width && y0 < height && next_of(x0 as int, width)
            < width && next_of(y0 as int, height) < height,
    }
}

/// Whether a point lies in the unit square: neither coordinate is below
/// zero or above one.
pub open spec fn in_unit_square(x: Scalar, y: Scalar) -> bool {
    let zero = Scalar { bits: ZERO_BITS };
    let one = Scalar { bits: ONE_BITS };
    !(x.less(zero) || one.less(x) || y.less(zero) || one.less(y))
}

/// How images of a layout are sampled.
pub open spec fn policy_of(encoding: Encoding) -> Option<SamplePolicy> {
    match encoding {
        Encoding::Luma16 => Some(SamplePolicy { half_resolution: true, clamp_at_far_edge: false }),
        Encoding::Other => None,
        _ => Some(SamplePolicy { half_resolution: false, clamp_at_far_edge: true }),
    }
}

/// Whether a point lies in the unit square. A sample outside of it is
/// zero.
pub fn inside_unit_square(x: Scalar, y: Scalar) -> (inside: bool)
    ensures
        inside == in_unit_square(x, y),
{
    let zero = Scalar::zero();
    let one = Scalar::one();
    !(x.lt(&zero) || x.gt(&one) || y.lt(&zero) || y.gt(&one))
}

/// How images of a layout are sampled; `None` for a layout that is not
/// read, whose samples are all zero.
pub fn sample_policy(encoding: Encoding) -> (policy: Option<SamplePolicy>)
    ensures
        policy == policy_of(encoding),
{
    match encoding {
        Encoding::Luma16 => Some(SamplePolicy { half_resolution: true, clamp_at_far_edge: false }),
        Encoding::Other => None,
        _ => Some(SamplePolicy { half_resolution: false, clamp_at_far_edge: true }),
    }
}

/// The pixel in column `x0` and row `y0` and its neighbours in the next
/// column and the next row, where the last column or row is its own
/// neighbour; `None` for a pixel outside the image and for an image in a
/// layout that is not read.
pub fn neighbourhood(img: &image::DynamicImage, x0: u32, y0: u32) -> (found: Option<Neighbourhood>)
    ensures
        found == if readable_at(*img, x0 as int, y0 as int) {
            Some(corner_of(*img, x0 as int, y0 as int))
        } else {
            None
        },
{
    let p00 = match first_channel(img, x0, y0) {
        Some(p) => p,
        None => {
            return None;
        },
    };
    let x1: u32 = if x0 + 1 < width(img) {
        x0 + 1
    } else {
        x0
    };
    let y1: u32 = if y0 + 1 < height(img) {
        y0 + 1
    } else {
        y0
    };
    let p01 = match first_channel(img, x0, y1) {
        Some(p) => p,
        None => {
            return None;
        },
    };
    let p10 = match first_channel(img, x1, y0) {
        Some(p) => p,
        None => {
            return None;
        },
    };
    let p11 = match first_channel(img, x1, y1) {
        Some(p) => p,
        None => {
            return None;
        },
    };
    Some(Neighbourhood { p00, p01, p10, p11 })
}

fn column(x: &Scalar, size: u32, policy: SamplePolicy) -> (at: u32)
    requires
        size > 0,
    ensures
        at == read_column(*x, size, policy),
        at < size,
{
    if policy.clamp_at_far_edge && equals_whole(x, size) {
        return size - 1;
    }
    let whole: u32 = truncate(x);
    if whole < size {
        whole
    } else {
        size - 1
    }
}

/// The pixels that the position `(x, y)` reads in an image of `width` by
/// `height` pixels. They lie in the image, wherever the position is.
pub fn locate(width: u32, height: u32, policy: SamplePolicy, x: Scalar, y: Scalar) -> (found:
    Footprint)
    requires
        width > 0,
        height > 0,
    ensures
        found == footprint_of(width, height, policy, x, y),
        footprint_inside(found, width, height),
{
    let at_x: u32 = column(&x, width, policy);
    let at_y: u32 = column(&y, height, policy);
    let one = equals_whole(&x, width - 1) || equals_whole(&y, height - 1)
        || (policy.clamp_at_far_edge && (equals_whole(&x, width) || equals_whole(&y, height)));
    if one {
        Footprint::Pixel { x: at_x, y: at_y }
    } else {
        Footprint::Corner { x0: at_x, y0: at_y }
    }
}

/// What a sample at the position `(x, y)` of an image is made of. An image
/// that has a pixel and is in a layout that is read gives a value or four
/// pixels to interpolate between, wherever the position is.
pub fn reading(img: &image::DynamicImage, x: Scalar, y: Scalar) -> (found: Reading)
    ensures
        found == reading_of(*img, x, y),
        policy_of(image_encoding(*img)) is Some && image_width(*img) > 0 && image_height(*img)
            > 0 ==> found is Value || found is Blend,
{
    let policy = match sample_policy(encoding(img)) {
        Some(policy) => policy,
        None => {
            return Reading::Unread;
        },
    };
    let w = width(img);
    let h = height(img);
    if w == 0 || h == 0 {
        return Reading::Empty;
    }
    match locate(w, h, policy, x, y) {
        Footprint::Pixel { x: px, y: py } => match first_channel_share(img, px, py) {
            Some(share) => Reading::Value { share },
            None => Reading::Empty,
        },
        Footprint::Corner { x0, y0 } => match neighbourhood(img, x0, y0) {
            Some(corner) => Reading::Blend { x0, y0, corner },
            None => Reading::Empty,
        },
    }
}

/// A point with a coordinate below zero or above one lies outside the
/// unit square, whatever the other coordinate is.
pub proof fn lemma_outside_unit_square(x: Scalar, y: Scalar)
    requires
        x.less(Scalar { bits: ZERO_BITS }) || (Scalar { bits: ONE_BITS }).less(x) || y.less(
            Scalar { bits: ZERO_BITS },
        ) || (Scalar { bits: ONE_BITS }).less(y),
    ensures
        !in_unit_square(x, y),
{
}

/// Every position reads pixels of the image: in an image that has a
/// pixel, the footprint of a position lies in the image, whatever the
/// position is. So every point of the unit square, however it is scaled,
/// has a sample.
pub proof fn lemma_footprint_inside(
    width: u32,
    height: u32,
    policy: SamplePolicy,
    x: Scalar,
    y: Scalar,
)
    requires
        width > 0,
        height > 0,
    ensures
        footprint_inside(footprint_of(width, height, policy, x, y), width, height),
{
    lemma_whole_part_fits(x);
    lemma_whole_part_fits(y);
}

/// Where the first channel of every pixel holds the same value, so does
/// every neighbourhood, four times.
pub proof fn lemma_uniform_neighbourhood(img: image::DynamicImage, value: u16, x0: int, y0: int)
    requires
        crate::raster::flat(img, value),
        readable_at(img, x0, y0),
    ensures
        corner_of(img, x0, y0) == (Neighbourhood {
            p00: value,
            p01: value,
            p10: value,
            p11: value,
        }),
{
    let x1 = next_of(x0, image_width(img));
    let y1 = next_of(y0, image_height(img));
    assert(readable_at(img, x0, y1));
    assert(readable_at(img, x1, y0));
    assert(readable_at(img, x1, y1));
}

/// Where the first channel of every pixel of an image holds the same
/// value, every sample is made of that value alone, wherever the position
/// is: a sample that is not interpolated is the value's share of the
/// largest value, and a sample that is interpolated lies between four
/// pixels that all hold the value.
pub proof fn lemma_uniform_reading(img: image::DynamicImage, value: u16, x: Scalar, y: Scalar)
    requires
        crate::raster::flat(img, value),
        policy_of(image_encoding(img)) is Some,
        image_width(img) > 0,
        image_height(img) > 0,
    ensures
        match reading_of(img, x, y) {
            Reading::Value { share } => share == share_of(
                value as int,
                max_value_of(image_encoding(img)),
            ),
            Reading::Blend { x0, y0, corner } => corner == (Neighbourhood {
                p00: value,
                p01: value,
                p10: value,
                p11: value,
            }),
            Reading::Unread => false,
            Reading::Empty => false,
        },
{
    let policy = policy_of(image_encoding(img)).unwrap();
    let w = image_width(img);
    let h = image_height(img);
    lemma_footprint_inside(w, h, policy, x, y);
    match footprint_of(w, h, policy, x, y) {
        Footprint::Pixel { x: px, y: py } => {
            assert(readable_at(img, px as int, py as int));
        },
        Footprint::Corner { x0, y0 } => {
            assert(readable_at(img, x0 as int, y0 as int));
            lemma_uniform_neighbourhood(img, value, x0 as int, y0 as int);
        },
    }
}

} // verus!
