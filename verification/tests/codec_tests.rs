use deskpi::codec::{
    dither_to_grayscale, frame_to_puck_image, luma, scale_channel, Frame, IntensityCurve, Pixel,
};

fn px(red: u8, green: u8, blue: u8, brightness: u8) -> Pixel {
    Pixel { red, green, blue, brightness }
}

fn solid_frame(width: usize, height: usize, p: Pixel) -> Frame {
    Frame::new(width, height, vec![p; width * height]).unwrap()
}

fn identity_table() -> Vec<u8> {
    (0..=255u8).collect()
}

#[test]
fn scale_channel_exact_values() {
    assert_eq!(scale_channel(255, 255), 255);
    assert_eq!(scale_channel(255, 0), 0);
    assert_eq!(scale_channel(0, 255), 0);
    assert_eq!(scale_channel(128, 255), 128);
    assert_eq!(scale_channel(200, 128), 100);
}

#[test]
fn luma_exact_values() {
    assert_eq!(luma(px(255, 255, 255, 255)), 255);
    assert_eq!(luma(px(255, 0, 0, 255)), 76);
    assert_eq!(luma(px(0, 255, 0, 255)), 149);
    assert_eq!(luma(px(0, 0, 255, 255)), 29);
    assert_eq!(luma(px(255, 255, 255, 0)), 0);
}

#[test]
fn intensity_curve_accepts_identity() {
    let curve = IntensityCurve::new(identity_table()).unwrap();
    assert_eq!(curve.apply(0), 0);
    assert_eq!(curve.apply(255), 255);
    assert_eq!(curve.apply(100), 100);
}

#[test]
fn intensity_curve_accepts_led_gamma_table() {
    let table: Vec<u8> = vec![
        0, 0, 0, 0, 0, 0, 0, 0, 0, 0, 0, 0, 0, 0, 0, 0, 0, 0, 0, 0, 0, 0, 1, 1, 1, 1, 1, 1, 1, 2,
        2, 2, 2, 2, 2, 3, 3, 3, 3, 3, 4, 4, 4, 4, 5, 5, 5, 5, 6, 6, 6, 7, 7, 7, 8, 8, 8, 9, 9, 9,
        10, 10, 11, 11, 11, 12, 12, 13, 13, 13, 14, 14, 15, 15, 16, 16, 17, 17, 18, 18, 19, 19,
        20, 21, 21, 22, 22, 23, 23, 24, 25, 25, 26, 27, 27, 28, 29, 29, 30, 31, 31, 32, 33, 34,
        34, 35, 36, 37, 37, 38, 39, 40, 40, 41, 42, 43, 44, 45, 46, 46, 47, 48, 49, 50, 51, 52,
        53, 54, 55, 56, 57, 58, 59, 60, 61, 62, 63, 64, 65, 66, 67, 68, 69, 70, 71, 72, 73, 74,
        76, 77, 78, 79, 80, 81, 83, 84, 85, 86, 88, 89, 90, 91, 93, 94, 95, 96, 98, 99, 100, 102,
        103, 104, 106, 107, 109, 110, 111, 113, 114, 116, 117, 119, 120, 121, 123, 124, 126, 128,
        129, 131, 132, 134, 135, 137, 138, 140, 142, 143, 145, 146, 148, 150, 151, 153, 155, 157,
        158, 160, 162, 163, 165, 167, 169, 170, 172, 174, 176, 178, 179, 181, 183, 185, 187, 189,
        191, 193, 194, 196, 198, 200, 202, 204, 206, 208, 210, 212, 214, 216, 218, 220, 222, 224,
        227, 229, 231, 233, 235, 237, 239, 241, 244, 246, 248, 250, 252, 255,
    ];
    let curve = IntensityCurve::new(table).unwrap();
    assert_eq!(curve.apply(0), 0);
    assert_eq!(curve.apply(255), 255);
}

#[test]
fn intensity_curve_rejects_non_monotonic_table() {
    let mut table = identity_table();
    table[10] = 200;
    assert!(IntensityCurve::new(table).is_none());
}

#[test]
fn intensity_curve_rejects_wrong_length() {
    assert!(IntensityCurve::new(vec![0u8; 255]).is_none());
}

#[test]
fn intensity_curve_rejects_bad_endpoints() {
    let mut table = identity_table();
    table[255] = 254;
    assert!(IntensityCurve::new(table).is_none());
}

#[test]
fn frame_new_rejects_pixel_count_mismatch() {
    assert!(Frame::new(4, 2, vec![px(0, 0, 0, 0); 7]).is_none());
    assert!(Frame::new(4, 2, vec![px(0, 0, 0, 0); 8]).is_some());
}

#[test]
fn dither_is_deterministic_on_same_frame() {
    let pixels: Vec<Pixel> = (0..64u32)
        .map(|i| px((i * 4) as u8, 255 - (i * 3) as u8, (i * 7 % 256) as u8, 200))
        .collect();
    let frame = Frame::new(8, 8, pixels).unwrap();
    let first = dither_to_grayscale(&frame, 4);
    let second = dither_to_grayscale(&frame, 4);
    assert_eq!(first, second);
}

#[test]
fn dither_four_levels_packs_four_pixels_per_byte() {
    let white = solid_frame(4, 1, px(255, 255, 255, 255));
    assert_eq!(dither_to_grayscale(&white, 4), vec![255]);
    let black = solid_frame(4, 1, px(0, 0, 0, 255));
    assert_eq!(dither_to_grayscale(&black, 4), vec![0]);
    let gray = solid_frame(4, 1, px(128, 128, 128, 255));
    assert_eq!(dither_to_grayscale(&gray, 4), vec![153]);
}

#[test]
fn dither_two_levels_packs_eight_pixels_per_byte() {
    let gray = solid_frame(8, 1, px(128, 128, 128, 255));
    assert_eq!(dither_to_grayscale(&gray, 2), vec![170]);
    let white = solid_frame(8, 1, px(255, 255, 255, 255));
    assert_eq!(dither_to_grayscale(&white, 2), vec![255]);
}

#[test]
fn dither_pads_final_byte_with_zero_pixels() {
    let white = solid_frame(2, 1, px(255, 255, 255, 255));
    // Two quantized pixels of 3 in the top bits, two zero pads below.
    assert_eq!(dither_to_grayscale(&white, 4), vec![0b11110000]);
}

#[test]
fn puck_image_splits_bit_planes() {
    let white = solid_frame(8, 1, px(255, 255, 255, 255));
    assert_eq!(frame_to_puck_image(&white).data, vec![255, 255]);
    let gray = solid_frame(8, 1, px(128, 128, 128, 255));
    // Quantized pixels alternate 2,1: high bits 10101010, low bits 01010101.
    assert_eq!(frame_to_puck_image(&gray).data, vec![170, 85]);
}

#[test]
fn eink_sized_frame_dithers_and_chunks() {
    let frame = solid_frame(296, 128, px(128, 128, 128, 255));
    let packed = dither_to_grayscale(&frame, 4);
    assert_eq!(packed.len(), 296 * 128 / 4);
    let events = deskpi::message::display_data_events(&packed);
    // 9472 bytes of packed image in 256-byte chunks, plus the refresh.
    assert_eq!(events.len(), 38);
}

#[test]
fn puck_sized_frame_splits_into_two_planes() {
    let frame = solid_frame(296, 128, px(0, 0, 0, 255));
    let image = frame_to_puck_image(&frame);
    assert_eq!(image.data.len(), 296 * 128 / 4);
    assert!(image.data.iter().all(|&b| b == 0));
}

#[test]
fn library_gamma_curve_is_ready_to_apply() {
    let curve = deskpi::gamma::led_gamma_curve();
    assert_eq!(curve.apply(0), 0);
    assert_eq!(curve.apply(128), 55);
    assert_eq!(curve.apply(255), 255);
    assert_eq!(deskpi::gamma::led_gamma_table().len(), 256);
}
