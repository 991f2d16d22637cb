use deskpi::codec::{Frame, IntensityCurve, Pixel};
use deskpi::remap::{matrix_slot, remap_matrix, remap_shim, shim_table};

fn px(red: u8, green: u8, blue: u8, brightness: u8) -> Pixel {
    Pixel { red, green, blue, brightness }
}

fn identity_curve() -> IntensityCurve {
    IntensityCurve::new((0..=255u8).collect()).unwrap()
}

#[test]
fn matrix_wiring_covers_every_offset_once() {
    // The bijection is a theorem of the library; this confirms the
    // executable map agrees with it.
    let mut seen = [false; 351];
    for t in 0..351 {
        let o = matrix_slot(t);
        assert!(!seen[o], "offset {} hit twice", o);
        seen[o] = true;
    }
    assert!(seen.iter().all(|&s| s));
}

#[test]
fn shim_wiring_has_no_collision() {
    // Injectivity is a theorem of the library; this confirms the
    // executable table agrees with it.
    let table = shim_table();
    let mut seen = [false; 144];
    for &o in &table {
        assert!(!seen[o as usize], "offset {} hit twice", o);
        seen[o as usize] = true;
    }
    assert_eq!(table.len(), 84);
}

#[test]
fn matrix_slot_spot_values() {
    // Pixel 0 (x=0, y=0) drives row 8; even column: red sits last.
    assert_eq!(matrix_slot(0), 242);
    assert_eq!(matrix_slot(1), 241);
    assert_eq!(matrix_slot(2), 240);
}

#[test]
fn matrix_remap_fills_both_regions_for_white() {
    let frame = Frame::new(13, 9, vec![px(255, 255, 255, 255); 117]).unwrap();
    let curve = identity_curve();
    let (first, second) = remap_matrix(&frame, &curve);
    assert_eq!(first.len(), 180);
    assert_eq!(second.len(), 171);
    assert!(first.iter().all(|&b| b == 255));
    assert!(second.iter().all(|&b| b == 255));
}

#[test]
fn matrix_remap_reads_rotated_pixel() {
    // The matrix is mounted rotated: physical pixel 0 shows logical 116.
    let mut pixels = vec![px(0, 0, 0, 0); 117];
    pixels[116] = px(255, 0, 0, 255);
    let frame = Frame::new(13, 9, pixels).unwrap();
    let curve = identity_curve();
    let (first, second) = remap_matrix(&frame, &curve);
    let combined: Vec<u8> = first.into_iter().chain(second.into_iter()).collect();
    assert_eq!(combined[242], 255);
    assert_eq!(combined.iter().filter(|&&b| b == 255).count(), 1);
}

#[test]
fn shim_remap_touches_only_wired_bytes() {
    let frame = Frame::new(28, 1, vec![px(255, 255, 255, 255); 28]).unwrap();
    let curve = identity_curve();
    let out = remap_shim(&frame, &curve);
    assert_eq!(out.len(), 144);
    assert_eq!(out.iter().filter(|&&b| b == 255).count(), 84);
    // The first LED's red channel is wired to byte 118.
    assert_eq!(out[118], 255);
    // Byte 0 is one of the unwired driver bytes.
    assert_eq!(out[0], 0);
}
