use bufcycle::export::{export_frame, frame_filename, normalize_alpha};

#[test]
fn filenames_carry_the_cursor() {
    assert_eq!(frame_filename(0), "frame_0.png");
    assert_eq!(frame_filename(3), "frame_3.png");
    assert_eq!(frame_filename(10), "frame_10.png");
    assert_eq!(frame_filename(409), "frame_409.png");
    assert_eq!(frame_filename(18446744073709551615), "frame_18446744073709551615.png");
}

#[test]
fn opaque_pixels_are_kept() {
    let mut px = vec![10, 20, 30, 255, 0, 255, 128, 255];
    normalize_alpha(&mut px);
    assert_eq!(px, vec![10, 20, 30, 255, 0, 255, 128, 255]);
}

#[test]
fn transparent_pixels_become_black() {
    let mut px = vec![100, 200, 50, 0];
    normalize_alpha(&mut px);
    assert_eq!(px, vec![0, 0, 0, 255]);
}

#[test]
fn half_transparent_pixels_are_scaled() {
    // (100 * 128 + 127) / 255 = 50, (200 * 128 + 127) / 255 = 100.
    let mut px = vec![100, 200, 0, 128];
    normalize_alpha(&mut px);
    assert_eq!(px, vec![50, 100, 0, 255]);
}

#[test]
fn empty_frame_stays_empty() {
    let mut px: Vec<u8> = vec![];
    normalize_alpha(&mut px);
    assert_eq!(px, Vec::<u8>::new());
}

#[test]
fn exported_png_has_window_size_and_full_opacity() {
    // A 2x2 frame with one pixel of each kind of alpha.
    let px = vec![
        10, 20, 30, 255, // opaque: kept
        100, 200, 50, 0, // transparent: black
        100, 200, 0, 128, // half: scaled
        255, 255, 255, 64, // quarter
    ];
    let (name, data) = export_frame(px, 2, 2, 7).unwrap();
    assert_eq!(name, "frame_7.png");

    let decoded = image::load_from_memory(&data).unwrap().to_rgba8();
    assert_eq!(decoded.dimensions(), (2, 2));
    for p in decoded.pixels() {
        assert_eq!(p.0[3], 255);
    }
    let flat: Vec<u8> = decoded.into_raw();
    assert_eq!(
        flat,
        vec![10, 20, 30, 255, 0, 0, 0, 255, 50, 100, 0, 255, 64, 64, 64, 255]
    );
}

#[test]
fn zero_size_frame_cannot_be_encoded() {
    assert!(export_frame(vec![], 0, 5, 1).is_none());
    assert!(export_frame(vec![], 5, 0, 1).is_none());
    assert!(export_frame(vec![], 0, 0, 1).is_none());
}

#[test]
fn exported_png_of_one_pixel_round_trips() {
    let (name, data) = export_frame(vec![1, 2, 3, 255], 1, 1, 0).unwrap();
    assert_eq!(name, "frame_0.png");
    let decoded = image::load_from_memory(&data).unwrap().to_rgba8();
    assert_eq!(decoded.dimensions(), (1, 1));
    assert_eq!(decoded.into_raw(), vec![1, 2, 3, 255]);
}
