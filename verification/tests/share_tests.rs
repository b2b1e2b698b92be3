use image::{DynamicImage, GrayImage, ImageBuffer, Luma, RgbImage};
use nextgen::error::Error;
use nextgen::raster::{convert_luma16_to_float, first_channel_share};
use nextgen::scalar::Scalar;
use nextgen::share::{share, unorm16, unorm8};

fn s(x: f32) -> Scalar {
    Scalar::from_bits(x.to_bits())
}

fn luma16(w: u32, h: u32, data: Vec<u16>) -> DynamicImage {
    let buffer: ImageBuffer<Luma<u16>, Vec<u16>> = ImageBuffer::from_raw(w, h, data).unwrap();
    DynamicImage::ImageLuma16(buffer)
}

#[test]
fn unorm8_is_the_machines_division_by_255() {
    for c in 0..=255u8 {
        assert_eq!(unorm8(c).to_bits(), (c as f32 / 255.0).to_bits(), "{}", c);
    }
}

#[test]
fn unorm16_is_the_machines_division_by_65535() {
    for v in 0..=65535u16 {
        assert_eq!(unorm16(v).to_bits(), (v as f32 / 65535.0).to_bits(), "{}", v);
    }
}

#[test]
fn shares_of_the_extremes() {
    assert_eq!(unorm8(0), s(0.0));
    assert_eq!(unorm8(255), s(1.0));
    assert_eq!(unorm16(0), s(0.0));
    assert_eq!(unorm16(65535), s(1.0));
    assert_eq!(unorm8(1).to_bits(), 0x3b80_8081);
    assert_eq!(unorm8(128).to_bits(), 0x3f00_8081);
    assert_eq!(share(1, 1), s(1.0));
    assert_eq!(share(0, 1), s(0.0));
    assert_eq!(share(1, 3).to_bits(), (1.0f32 / 3.0).to_bits());
}

#[test]
fn share_is_the_machines_division() {
    let wholes = [
        1u32, 2, 3, 4, 5, 6, 7, 8, 9, 10, 12, 15, 16, 17, 24, 100, 255, 256, 257, 1000, 1023,
        1024, 4095, 4096, 65535, 65536, 65537, 1048575, 1048576, 12345678, 16777214, 16777215,
    ];
    for d in wholes {
        let mut n = 0u32;
        let step = (d / 997).max(1);
        while n <= d {
            assert_eq!(share(n, d).to_bits(), (n as f32 / d as f32).to_bits(), "{} / {}", n, d);
            if n == d {
                break;
            }
            n = (n + step).min(d);
        }
        for n in [1, d / 2, d / 2 + 1, d - 1] {
            if n <= d {
                assert_eq!(share(n, d).to_bits(), (n as f32 / d as f32).to_bits(), "{} / {}", n, d);
            }
        }
    }
}

#[test]
fn share_of_every_pair_of_small_numbers_is_the_machines_division() {
    for d in 1u32..=300 {
        for n in 0..=d {
            assert_eq!(share(n, d).to_bits(), (n as f32 / d as f32).to_bits(), "{} / {}", n, d);
        }
    }
}

#[test]
fn share_of_the_smallest_part_of_the_largest_whole() {
    assert_eq!(share(1, 16777215).to_bits(), (1.0f32 / 16777215.0).to_bits());
    assert_eq!(share(16777214, 16777215).to_bits(), (16777214.0f32 / 16777215.0).to_bits());
}

#[test]
fn first_channel_share_is_the_value_over_the_largest_value() {
    let img = DynamicImage::ImageLuma8(GrayImage::from_raw(2, 2, vec![0, 51, 128, 255]).unwrap());
    assert_eq!(first_channel_share(&img, 0, 0), Some(s(0.0)));
    assert_eq!(first_channel_share(&img, 1, 0), Some(s(0.2)));
    assert_eq!(first_channel_share(&img, 0, 1), Some(s(128.0 / 255.0)));
    assert_eq!(first_channel_share(&img, 1, 1), Some(s(1.0)));
    let img = luma16(2, 1, vec![13107, 65535]);
    assert_eq!(first_channel_share(&img, 0, 0), Some(s(13107.0 / 65535.0)));
    assert_eq!(first_channel_share(&img, 1, 0), Some(s(1.0)));
    let img = DynamicImage::ImageRgb8(RgbImage::from_raw(1, 1, vec![51, 255, 255]).unwrap());
    assert_eq!(first_channel_share(&img, 0, 0), Some(s(0.2)));
}

#[test]
fn first_channel_share_outside_the_image_is_none() {
    let img = DynamicImage::ImageLuma8(GrayImage::from_raw(2, 2, vec![0, 51, 128, 255]).unwrap());
    assert_eq!(first_channel_share(&img, 2, 0), None);
    assert_eq!(first_channel_share(&img, 0, 2), None);
    assert_eq!(first_channel_share(&DynamicImage::new_luma_a8(2, 2), 0, 0), None);
}

#[test]
fn uniform_image_has_the_same_share_everywhere() {
    for k in [0u8, 1, 77, 255] {
        let img = DynamicImage::ImageLuma8(GrayImage::from_raw(3, 3, vec![k; 9]).unwrap());
        for y in 0..3 {
            for x in 0..3 {
                assert_eq!(first_channel_share(&img, x, y), Some(s(k as f32 / 255.0)));
            }
        }
    }
}

#[test]
fn luma16_pixels_become_their_shares_row_by_row() {
    let img = luma16(3, 2, vec![0, 1, 32768, 65534, 65535, 13107]);
    let expected: Vec<Scalar> = [0u16, 1, 32768, 65534, 65535, 13107]
        .iter()
        .map(|v| s(*v as f32 / 65535.0))
        .collect();
    assert_eq!(convert_luma16_to_float(&img), Ok(expected));
}

#[test]
fn luma16_conversion_of_an_empty_image_is_empty() {
    assert_eq!(convert_luma16_to_float(&luma16(0, 0, vec![])), Ok(vec![]));
}

#[test]
fn luma16_conversion_refuses_other_layouts() {
    let img = DynamicImage::ImageLuma8(GrayImage::from_raw(1, 1, vec![1]).unwrap());
    assert_eq!(convert_luma16_to_float(&img), Err(Error::UnsupportedImageEncoding));
    let img = DynamicImage::ImageRgb8(RgbImage::from_raw(1, 1, vec![1, 2, 3]).unwrap());
    assert_eq!(convert_luma16_to_float(&img), Err(Error::UnsupportedImageEncoding));
    assert_eq!(
        convert_luma16_to_float(&DynamicImage::new_rgba16(1, 1)),
        Err(Error::UnsupportedImageEncoding)
    );
}
