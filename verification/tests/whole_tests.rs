use image::{DynamicImage, GrayImage, ImageBuffer, Luma};
use nextgen::sampler::{locate, reading, Footprint, Neighbourhood, Reading, SamplePolicy};
use nextgen::scalar::Scalar;
use nextgen::whole::{equals_whole, round_whole, truncate};

fn s(x: f32) -> Scalar {
    Scalar::from_bits(x.to_bits())
}

fn wholes() -> Vec<u32> {
    let mut all = vec![0u32, 1, 2, 3, 255, 256, 65535, 65536];
    for k in 22..32 {
        let p = 1u32 << k;
        for d in [0u32, 1, 2, 3, 4, 5, 7, 8, 127, 128, 129, 255, 256, 257] {
            all.push(p.wrapping_add(d));
            all.push(p.wrapping_sub(d));
            all.push((p | (p >> 1)).wrapping_add(d));
        }
    }
    all.push(u32::MAX);
    all.push(u32::MAX - 1);
    all.push(u32::MAX - 127);
    all.push(u32::MAX - 128);
    all.push(u32::MAX - 129);
    all
}

fn numbers() -> Vec<f32> {
    let mut all = vec![
        0.0f32, -0.0, 0.25, 0.5, 0.99999994, 1.0, 1.5, 1.9999999, 2.0, 2.5, 3.0, 7.999, 255.0,
        255.5, 256.0, 1000.75, 65535.0, 65536.0, 8388607.5, 8388608.0, 16777215.0, 16777216.0,
        16777218.0, 4294967000.0, 4294967296.0, 4294967300.0, 1.0e10, 1.0e38, f32::MAX,
        f32::INFINITY, f32::NEG_INFINITY, f32::NAN, -1.0, -0.5, -255.0, -1.0e10, 1.0e-45, 1.0e-38,
        f32::MIN_POSITIVE, -f32::MIN_POSITIVE,
    ];
    for n in wholes() {
        all.push(n as f32);
    }
    all
}

#[test]
fn round_whole_is_the_machines_conversion() {
    for n in wholes() {
        assert_eq!(round_whole(n), (n as f32) as u64, "{}", n);
    }
    for n in 0..100000u32 {
        assert_eq!(round_whole(n), n as u64);
        let far = n.wrapping_mul(42949) | 0x8000_0000;
        assert_eq!(round_whole(far), (far as f32) as u64, "{}", far);
    }
}

#[test]
fn round_whole_keeps_small_numbers_and_rounds_ties_to_even() {
    assert_eq!(round_whole(16777215), 16777215);
    assert_eq!(round_whole(16777216), 16777216);
    assert_eq!(round_whole(16777217), 16777216);
    assert_eq!(round_whole(16777218), 16777218);
    assert_eq!(round_whole(16777219), 16777220);
    assert_eq!(round_whole(u32::MAX), 4294967296);
    assert_eq!(round_whole(u32::MAX - 127), 4294967296);
    assert_eq!(round_whole(u32::MAX - 128), 4294967040);
}

#[test]
fn truncate_is_the_machines_conversion() {
    for x in numbers() {
        assert_eq!(truncate(&s(x)), x as u32, "{}", x);
    }
}

#[test]
fn truncate_of_what_is_no_whole_number_in_range() {
    assert_eq!(truncate(&s(f32::NAN)), 0);
    assert_eq!(truncate(&s(-5.0)), 0);
    assert_eq!(truncate(&s(-0.0)), 0);
    assert_eq!(truncate(&s(0.9999999)), 0);
    assert_eq!(truncate(&s(4294967296.0)), u32::MAX);
    assert_eq!(truncate(&s(f32::INFINITY)), u32::MAX);
    assert_eq!(truncate(&s(f32::NEG_INFINITY)), 0);
    assert_eq!(truncate(&s(4294967040.0)), 4294967040);
}

#[test]
fn equals_whole_is_the_machines_comparison() {
    for x in numbers() {
        for n in wholes() {
            assert_eq!(equals_whole(&s(x), n), x == n as f32, "{} == {}", x, n);
        }
    }
}

#[test]
fn both_zeros_equal_the_whole_number_zero() {
    assert!(equals_whole(&s(0.0), 0));
    assert!(equals_whole(&s(-0.0), 0));
    assert!(!equals_whole(&s(1.0e-45), 0));
    assert!(!equals_whole(&s(f32::NAN), 0));
}

// The pixels that the position reads, decided with the machine's own arithmetic.
fn reference(w: u32, h: u32, clamp: bool, x: f32, y: f32) -> Footprint {
    let column = |at: f32, size: u32| {
        if clamp && at == size as f32 {
            size - 1
        } else {
            (at as u32).min(size - 1)
        }
    };
    let one = x == (w - 1) as f32
        || y == (h - 1) as f32
        || (clamp && (x == w as f32 || y == h as f32));
    if one {
        Footprint::Pixel { x: column(x, w), y: column(y, h) }
    } else {
        Footprint::Corner { x0: column(x, w), y0: column(y, h) }
    }
}

#[test]
fn locate_agrees_with_the_machine() {
    let sizes = [1u32, 2, 3, 4, 256, 2048, 16777216, 16777217, 16777218, u32::MAX];
    let positions = [
        0.0f32, -0.0, 0.3, 0.5, 0.99999994, 1.0, 1.5, 1.8, 2.0, 2.5, 3.0, 3.5, 4.0, 255.0, 255.5,
        256.0, 2047.0, 2047.9, 2048.0, 16777215.0, 16777216.0, 16777218.0, 4294967040.0,
        4294967296.0, f32::NAN,
    ];
    for w in sizes {
        for h in [1u32, 2, 3, 256] {
            for clamp in [false, true] {
                let policy = SamplePolicy { half_resolution: !clamp, clamp_at_far_edge: clamp };
                for x in positions {
                    for y in [0.0f32, 0.5, 1.0, 1.5, 2.0, 3.0, 255.0, 256.0] {
                        assert_eq!(
                            locate(w, h, policy, s(x), s(y)),
                            reference(w, h, clamp, x, y),
                            "{} by {}, clamp {}, at {} {}",
                            w,
                            h,
                            clamp,
                            x,
                            y
                        );
                    }
                }
            }
        }
    }
}

#[test]
fn locate_stays_inside_the_image_for_every_position() {
    let positions = [
        0.0f32, -0.0, -1.0, 0.5, 1.0, 1.5, 1.9999999, 2.0, 2.5, 3.0, 100.0, 4294967296.0, 1.0e30,
        f32::INFINITY, f32::NEG_INFINITY, f32::NAN,
    ];
    for (w, h) in [(1u32, 1u32), (1, 2), (2, 1), (2, 2), (3, 2), (4, 4)] {
        for clamp in [false, true] {
            let policy = SamplePolicy { half_resolution: !clamp, clamp_at_far_edge: clamp };
            for x in positions {
                for y in positions {
                    match locate(w, h, policy, s(x), s(y)) {
                        Footprint::Pixel { x: px, y: py } => assert!(px < w && py < h),
                        Footprint::Corner { x0, y0 } => assert!(x0 < w && y0 < h),
                    }
                }
            }
        }
    }
}

#[test]
fn position_on_the_last_column_reads_one_pixel() {
    let policy = SamplePolicy { half_resolution: false, clamp_at_far_edge: true };
    assert_eq!(locate(4, 4, policy, s(3.0), s(1.25)), Footprint::Pixel { x: 3, y: 1 });
    assert_eq!(locate(4, 4, policy, s(1.25), s(3.0)), Footprint::Pixel { x: 1, y: 3 });
}

#[test]
fn position_at_the_width_is_moved_to_the_last_pixel() {
    let policy = SamplePolicy { half_resolution: false, clamp_at_far_edge: true };
    assert_eq!(locate(4, 4, policy, s(4.0), s(1.25)), Footprint::Pixel { x: 3, y: 1 });
    assert_eq!(locate(4, 4, policy, s(4.0), s(4.0)), Footprint::Pixel { x: 3, y: 3 });
    assert_eq!(locate(4, 4, policy, s(3.0), s(4.0)), Footprint::Pixel { x: 3, y: 3 });
    assert_eq!(locate(2, 2, policy, s(1.0), s(2.0)), Footprint::Pixel { x: 1, y: 1 });
    let unclamped = SamplePolicy { half_resolution: true, clamp_at_far_edge: false };
    assert_eq!(locate(4, 4, unclamped, s(4.0), s(1.25)), Footprint::Corner { x0: 3, y0: 1 });
    assert_eq!(locate(4, 4, unclamped, s(3.0), s(4.0)), Footprint::Pixel { x: 3, y: 3 });
}

#[test]
fn position_between_pixels_reads_a_corner() {
    let policy = SamplePolicy { half_resolution: false, clamp_at_far_edge: true };
    assert_eq!(locate(4, 4, policy, s(1.5), s(2.25)), Footprint::Corner { x0: 1, y0: 2 });
    assert_eq!(locate(4, 4, policy, s(0.0), s(0.0)), Footprint::Corner { x0: 0, y0: 0 });
    assert_eq!(locate(4, 4, policy, s(3.5), s(0.0)), Footprint::Corner { x0: 3, y0: 0 });
}

#[test]
fn position_beyond_the_image_falls_into_the_last_column_and_row() {
    let policy = SamplePolicy { half_resolution: false, clamp_at_far_edge: true };
    assert_eq!(locate(4, 4, policy, s(9.5), s(0.5)), Footprint::Corner { x0: 3, y0: 0 });
    assert_eq!(locate(4, 4, policy, s(0.5), s(1.0e30)), Footprint::Corner { x0: 0, y0: 3 });
    assert_eq!(locate(4, 4, policy, s(f32::NAN), s(-2.0)), Footprint::Corner { x0: 0, y0: 0 });
}

#[test]
fn reading_of_a_luma8_image() {
    let img = DynamicImage::ImageLuma8(GrayImage::from_raw(3, 3, vec![0, 51, 102, 153, 204, 255, 10, 20, 30]).unwrap());
    assert_eq!(reading(&img, s(2.0), s(0.5)), Reading::Value { share: s(102.0 / 255.0) });
    assert_eq!(reading(&img, s(0.5), s(2.0)), Reading::Value { share: s(10.0 / 255.0) });
    assert_eq!(reading(&img, s(3.0), s(1.5)), Reading::Value { share: s(1.0) });
    assert_eq!(reading(&img, s(3.0), s(3.0)), Reading::Value { share: s(30.0 / 255.0) });
    assert_eq!(reading(&img, s(2.0), s(3.0)), Reading::Value { share: s(30.0 / 255.0) });
    assert_eq!(
        reading(&img, s(0.5), s(0.5)),
        Reading::Blend { x0: 0, y0: 0, corner: Neighbourhood { p00: 0, p01: 153, p10: 51, p11: 204 } }
    );
    assert_eq!(
        reading(&img, s(1.25), s(1.75)),
        Reading::Blend { x0: 1, y0: 1, corner: Neighbourhood { p00: 204, p01: 20, p10: 255, p11: 30 } }
    );
}

#[test]
fn reading_between_the_last_pixel_and_the_far_edge_stays_in_the_image() {
    let img = DynamicImage::ImageLuma8(GrayImage::from_raw(3, 3, vec![0, 51, 102, 153, 204, 255, 10, 20, 30]).unwrap());
    assert_eq!(
        reading(&img, s(2.5), s(0.5)),
        Reading::Blend { x0: 2, y0: 0, corner: Neighbourhood { p00: 102, p01: 255, p10: 102, p11: 255 } }
    );
    assert_eq!(
        reading(&img, s(0.5), s(2.5)),
        Reading::Blend { x0: 0, y0: 2, corner: Neighbourhood { p00: 10, p01: 10, p10: 20, p11: 20 } }
    );
    assert_eq!(
        reading(&img, s(2.75), s(2.25)),
        Reading::Blend { x0: 2, y0: 2, corner: Neighbourhood { p00: 30, p01: 30, p10: 30, p11: 30 } }
    );
}

#[test]
fn reading_of_a_luma16_image_is_not_moved_at_the_far_edge() {
    let buffer: ImageBuffer<Luma<u16>, Vec<u16>> =
        ImageBuffer::from_raw(2, 2, vec![0, 13107, 26214, 65535]).unwrap();
    let img = DynamicImage::ImageLuma16(buffer);
    assert_eq!(reading(&img, s(1.0), s(0.0)), Reading::Value { share: s(0.2) });
    assert_eq!(reading(&img, s(1.0), s(1.0)), Reading::Value { share: s(1.0) });
    assert_eq!(
        reading(&img, s(0.5), s(0.5)),
        Reading::Blend { x0: 0, y0: 0, corner: Neighbourhood { p00: 0, p01: 26214, p10: 13107, p11: 65535 } }
    );
    assert_eq!(
        reading(&img, s(2.0), s(0.5)),
        Reading::Blend { x0: 1, y0: 0, corner: Neighbourhood { p00: 13107, p01: 65535, p10: 13107, p11: 65535 } }
    );
}

#[test]
fn reading_of_an_unread_layout_or_an_empty_image() {
    assert_eq!(reading(&DynamicImage::new_luma_a8(2, 2), s(0.5), s(0.5)), Reading::Unread);
    assert_eq!(reading(&DynamicImage::new_rgb16(2, 2), s(0.5), s(0.5)), Reading::Unread);
    let empty = DynamicImage::ImageLuma8(GrayImage::from_raw(0, 0, vec![]).unwrap());
    assert_eq!(reading(&empty, s(0.0), s(0.0)), Reading::Empty);
    let no_rows = DynamicImage::ImageLuma8(GrayImage::from_raw(3, 0, vec![]).unwrap());
    assert_eq!(reading(&no_rows, s(0.0), s(0.0)), Reading::Empty);
}

#[test]
fn uniform_image_reads_the_same_value_everywhere() {
    for k in [0u8, 64, 128, 255] {
        let img = DynamicImage::ImageLuma8(GrayImage::from_raw(2, 2, vec![k; 4]).unwrap());
        let share = s(k as f32 / 255.0);
        let corner = Neighbourhood { p00: k as u16, p01: k as u16, p10: k as u16, p11: k as u16 };
        for u in 0..=20 {
            for v in 0..=20 {
                let x = u as f32 / 20.0 * 2.0;
                let y = v as f32 / 20.0 * 2.0;
                match reading(&img, s(x), s(y)) {
                    Reading::Value { share: found } => assert_eq!(found, share),
                    Reading::Blend { corner: found, .. } => assert_eq!(found, corner),
                    other => panic!("{:?} at {} {}", other, x, y),
                }
            }
        }
        assert_eq!(reading(&img, s(1.0), s(0.5)), Reading::Value { share });
        assert_eq!(reading(&img, s(2.0), s(2.0)), Reading::Value { share });
        assert_eq!(reading(&img, s(1.0), s(2.0)), Reading::Value { share });
        assert_eq!(reading(&img, s(0.5), s(0.5)), Reading::Blend { x0: 0, y0: 0, corner });
        assert_eq!(reading(&img, s(1.5), s(0.5)), Reading::Blend { x0: 1, y0: 0, corner });
        assert_eq!(reading(&img, s(1.5), s(1.5)), Reading::Blend { x0: 1, y0: 1, corner });
    }
}

#[test]
fn uniform_image_of_three_channels_reads_its_first_channel_everywhere() {
    let img = DynamicImage::ImageRgb8(image::RgbImage::from_pixel(2, 2, image::Rgb([51u8, 0, 0])));
    let corner = Neighbourhood { p00: 51, p01: 51, p10: 51, p11: 51 };
    assert_eq!(reading(&img, s(1.5), s(1.5)), Reading::Blend { x0: 1, y0: 1, corner });
    assert_eq!(reading(&img, s(2.0), s(1.5)), Reading::Value { share: s(0.2) });
}
