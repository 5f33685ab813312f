use metaedit::bitmap::{can_hold_bitmap_frame, create_ico_bmp_data, mask_row_bytes};
use metaedit::raster::Raster;

/// A picture whose pixel at `(x, y)` is `(x, y, x + y, alpha(x, y))`.
fn picture(width: u32, height: u32, alpha: impl Fn(u32, u32) -> u8) -> Raster {
    let mut pixels = Vec::new();
    for y in 0..height {
        for x in 0..width {
            pixels.extend_from_slice(&[x as u8, y as u8, (x + y) as u8, alpha(x, y)]);
        }
    }
    Raster::new(width, height, pixels).unwrap()
}

fn mask_bit(frame: &[u8], width: u32, height: u32, x: u32, y: u32) -> u8 {
    let row_len = mask_row_bytes(width);
    let rows = 40 + 4 * (width * height) as usize;
    let byte = frame[rows + (height - 1 - y) as usize * row_len + (x / 8) as usize];
    (byte >> (7 - x % 8)) & 1
}

#[test]
fn mask_rows_are_padded_to_four_bytes() {
    let expected = [(1, 4), (7, 4), (8, 4), (9, 4), (15, 4), (16, 4), (17, 4), (31, 4), (32, 4), (33, 8)];
    for (width, bytes) in expected {
        assert_eq!(mask_row_bytes(width), bytes, "width {width}");
        assert_eq!(mask_row_bytes(width), (((width + 31) / 32) * 4) as usize);
        assert_eq!(mask_row_bytes(width) % 4, 0);
    }
    assert_eq!(mask_row_bytes(0), 0);
    assert_eq!(mask_row_bytes(64), 8);
    assert_eq!(mask_row_bytes(65), 12);
    assert_eq!(mask_row_bytes(256), 32);
    assert_eq!(mask_row_bytes(u32::MAX), 0x2000_0000);
}

#[test]
fn raster_checks_the_number_of_bytes() {
    assert!(Raster::new(2, 2, vec![0; 16]).is_some());
    assert!(Raster::new(2, 2, vec![0; 15]).is_none());
    assert!(Raster::new(2, 2, vec![0; 17]).is_none());
    assert!(Raster::new(0, 5, Vec::new()).is_some());
    assert!(Raster::new(u32::MAX, u32::MAX, vec![0; 4]).is_none());
    let raster = picture(3, 2, |_, _| 255);
    assert_eq!(raster.width(), 3);
    assert_eq!(raster.height(), 2);
    assert_eq!(raster.pixels().len(), 24);
    assert_eq!(raster.channel(2, 1, 0), 2);
    assert_eq!(raster.channel(2, 1, 1), 1);
    assert_eq!(raster.channel(2, 1, 2), 3);
    assert_eq!(raster.channel(2, 1, 3), 255);
}

#[test]
fn frame_of_a_picture_of_two_by_two() {
    // Pixels: red, green (transparent) in the top row; blue, white below.
    let pixels = vec![
        255, 0, 0, 255, /**/ 0, 255, 0, 0, //
        0, 0, 255, 128, /**/ 255, 255, 255, 255,
    ];
    let raster = Raster::new(2, 2, pixels).unwrap();
    let frame = create_ico_bmp_data(&raster).unwrap();
    let mut expected = vec![
        40, 0, 0, 0, // header size
        2, 0, 0, 0, // width
        4, 0, 0, 0, // twice the height
        1, 0, // planes
        32, 0, // bits per pixel
    ];
    expected.extend_from_slice(&[0u8; 24]);
    // Bottom row first, each pixel as blue, green, red, alpha.
    expected.extend_from_slice(&[255, 0, 0, 128, 255, 255, 255, 255]);
    expected.extend_from_slice(&[0, 0, 255, 255, 0, 255, 0, 0]);
    // Mask, bottom row first: nothing transparent below, the second pixel above.
    expected.extend_from_slice(&[0, 0, 0, 0]);
    expected.extend_from_slice(&[0b0100_0000, 0, 0, 0]);
    assert_eq!(frame, expected);
}

#[test]
fn frame_length_follows_the_size() {
    for (width, height) in [(1u32, 1u32), (16, 16), (24, 24), (33, 5), (48, 48), (64, 64)] {
        let frame = create_ico_bmp_data(&picture(width, height, |_, _| 9)).unwrap();
        let expected = 40 + 4 * (width * height) as usize + mask_row_bytes(width) * height as usize;
        assert_eq!(frame.len(), expected);
        assert_eq!(&frame[4..8], &width.to_le_bytes());
        assert_eq!(&frame[8..12], &(2 * height).to_le_bytes());
    }
}

#[test]
fn empty_picture_gives_the_bare_header() {
    let frame = create_ico_bmp_data(&Raster::new(0, 0, Vec::new()).unwrap()).unwrap();
    assert_eq!(frame.len(), 40);
    assert_eq!(&frame[..4], &[40, 0, 0, 0]);
    let frame = create_ico_bmp_data(&Raster::new(5, 0, Vec::new()).unwrap()).unwrap();
    assert_eq!(frame.len(), 40);
    let frame = create_ico_bmp_data(&Raster::new(0, 3, Vec::new()).unwrap()).unwrap();
    assert_eq!(frame.len(), 40);
    assert_eq!(&frame[8..12], &[6, 0, 0, 0]);
}

#[test]
fn mask_bit_is_set_exactly_where_alpha_is_zero() {
    for (width, height) in [(1u32, 1u32), (7, 3), (8, 2), (9, 2), (17, 4), (33, 3), (64, 2)] {
        let alpha = |x: u32, y: u32| if (x * 7 + y * 3) % 5 == 0 { 0 } else { ((x + y) % 255 + 1) as u8 };
        let frame = create_ico_bmp_data(&picture(width, height, alpha)).unwrap();
        for y in 0..height {
            for x in 0..width {
                let expected = if alpha(x, y) == 0 { 1 } else { 0 };
                assert_eq!(mask_bit(&frame, width, height, x, y), expected, "{width}x{height} at {x},{y}");
            }
        }
    }
}

#[test]
fn mask_padding_bits_are_clear() {
    let frame = create_ico_bmp_data(&picture(9, 1, |_, _| 0)).unwrap();
    let mask = &frame[40 + 36..];
    assert_eq!(mask, &[0xff, 0x80, 0, 0]);
    let frame = create_ico_bmp_data(&picture(9, 1, |_, _| 1)).unwrap();
    assert_eq!(&frame[40 + 36..], &[0, 0, 0, 0]);
}

#[test]
fn colour_bytes_are_blue_green_red_alpha_from_the_bottom() {
    let (width, height) = (5u32, 4u32);
    let frame = create_ico_bmp_data(&picture(width, height, |x, y| (10 * x + y) as u8)).unwrap();
    for y in 0..height {
        for x in 0..width {
            let at = 40 + 4 * ((height - 1 - y) * width + x) as usize;
            assert_eq!(
                &frame[at..at + 4],
                &[(x + y) as u8, y as u8, x as u8, (10 * x + y) as u8]
            );
        }
    }
}

#[test]
fn pictures_too_large_for_the_header_are_refused() {
    assert!(can_hold_bitmap_frame(256, 256));
    assert!(can_hold_bitmap_frame(0x7fff_ffff, 0));
    assert!(!can_hold_bitmap_frame(0x8000_0000, 0));
    assert!(can_hold_bitmap_frame(0, 0x3fff_ffff));
    assert!(!can_hold_bitmap_frame(0, 0x4000_0000));
    let error = create_ico_bmp_data(&Raster::new(0, 0x4000_0000, Vec::new()).unwrap()).err().unwrap();
    assert_eq!(error.kind, metaedit::error::ErrorKind::IconError);
}
