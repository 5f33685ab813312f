use metaedit::bitmap::mask_row_bytes;
use metaedit::icon::{decode, encode_frame, icon_payload, ladder_size, payload_of_picture, IconContainer};
use metaedit::raster::Raster;

fn picture(width: u32, height: u32) -> Raster {
    let mut pixels = Vec::new();
    for y in 0..height {
        for x in 0..width {
            pixels.extend_from_slice(&[(x * 3) as u8, (y * 7) as u8, 200, if x < width / 2 { 0 } else { 255 }]);
        }
    }
    Raster::new(width, height, pixels).unwrap()
}

fn png(width: u32, height: u32) -> Vec<u8> {
    let source = picture(width, height);
    let buffer = image::RgbaImage::from_raw(width, height, source.pixels().clone()).unwrap();
    let mut out = std::io::Cursor::new(Vec::new());
    buffer.write_to(&mut out, image::ImageFormat::Png).unwrap();
    out.into_inner()
}

const PNG_MAGIC: [u8; 8] = [0x89, b'P', b'N', b'G', 0x0d, 0x0a, 0x1a, 0x0a];

#[test]
fn ladder_runs_from_256_down_to_16() {
    let sizes: Vec<u32> = (0..7).map(ladder_size).collect();
    assert_eq!(sizes, vec![256, 128, 64, 48, 32, 24, 16]);
}

#[test]
fn every_ladder_size_gets_a_square_frame() {
    for (width, height) in [(10u32, 20u32), (300, 100), (64, 64), (1, 1)] {
        let icon = IconContainer::encode(&picture(width, height));
        assert_eq!(icon.len(), 7);
        for i in 0..7 {
            let frame = icon.frame(i);
            assert_eq!(frame.width, ladder_size(i));
            assert_eq!(frame.height, ladder_size(i));
        }
    }
}

#[test]
fn large_frames_are_compressed_and_small_ones_raw() {
    let icon = IconContainer::encode(&picture(100, 60));
    for i in 0..7 {
        let frame = icon.frame(i);
        let size = frame.width;
        if size >= 128 {
            assert_eq!(&frame.payload[..8], &PNG_MAGIC);
            let decoded = image::load_from_memory_with_format(&frame.payload, image::ImageFormat::Png).unwrap();
            assert_eq!((decoded.width(), decoded.height()), (size, size));
        } else {
            let expected = 40 + 4 * (size * size) as usize + mask_row_bytes(size) * size as usize;
            assert_eq!(frame.payload.len(), expected);
            assert_eq!(&frame.payload[..4], &[40, 0, 0, 0]);
            assert_eq!(&frame.payload[4..8], &size.to_le_bytes());
            assert_eq!(&frame.payload[8..12], &(2 * size).to_le_bytes());
        }
    }
}

#[test]
fn frame_of_the_source_size_keeps_the_pixels() {
    // Resampling to the size the picture already has copies it.
    let source = picture(32, 32);
    let icon = IconContainer::encode(&source);
    let frame = icon.frame(4);
    assert_eq!(frame.width, 32);
    let expected = metaedit::bitmap::create_ico_bmp_data(&source).unwrap();
    assert_eq!(frame.payload, expected);
}

#[test]
fn frame_encoding_goes_by_the_size() {
    let source = picture(8, 8);
    let raw = encode_frame(&source, 64).unwrap();
    assert_eq!(raw.payload, metaedit::bitmap::create_ico_bmp_data(&source).unwrap());
    assert_eq!((raw.width, raw.height), (8, 8));
    let raw = encode_frame(&source, 127).unwrap();
    assert_eq!(&raw.payload[..4], &[40, 0, 0, 0]);
    let compressed = encode_frame(&source, 128).unwrap();
    assert_eq!(&compressed.payload[..8], &PNG_MAGIC);
    let decoded = image::load_from_memory(&compressed.payload).unwrap().into_rgba8();
    assert_eq!(decoded.as_raw(), source.pixels());
}

#[test]
fn icon_file_lists_the_frames() {
    let icon = IconContainer::encode(&picture(50, 50));
    let file = icon.to_bytes().unwrap();
    assert_eq!(&file[..6], &[0, 0, 1, 0, 7, 0]);
    let mut offset = 6 + 16 * 7;
    for i in 0..7 {
        let frame = icon.frame(i);
        let entry = &file[6 + 16 * i..6 + 16 * (i + 1)];
        assert_eq!(entry[0], frame.width as u8);
        assert_eq!(entry[1], frame.height as u8);
        assert_eq!(&entry[2..8], &[0, 0, 0, 0, 32, 0]);
        assert_eq!(&entry[8..12], &(frame.payload.len() as u32).to_le_bytes());
        assert_eq!(&entry[12..16], &(offset as u32).to_le_bytes());
        assert_eq!(&file[offset..offset + frame.payload.len()], frame.payload.as_slice());
        offset += frame.payload.len();
    }
    assert_eq!(file.len(), offset);
    let decoded = image::load_from_memory_with_format(&file, image::ImageFormat::Ico).unwrap();
    assert_eq!((decoded.width(), decoded.height()), (256, 256));
}

#[test]
fn picture_files_decode_by_their_name() {
    let file = png(12, 9);
    let raster = decode(&file, "logo.png").unwrap();
    assert_eq!((raster.width(), raster.height()), (12, 9));
    assert_eq!(raster.pixels(), picture(12, 9).pixels());
    assert!(decode(&file, "dir/logo.PNG").is_some());
    assert!(decode(&file, "logo.jpg").is_none());
    assert!(decode(&file, "logo").is_none());
    assert!(decode(&file, "logo.unknown").is_none());
    assert!(decode(b"no picture".to_vec().as_ref(), "logo.png").is_none());
    assert!(decode(&Vec::new(), "logo.png").is_none());
}

#[test]
fn payload_of_a_picture_file_is_an_icon_file() {
    let file = png(20, 20);
    let payload = icon_payload(&file, "logo.png");
    assert_eq!(&payload[..6], &[0, 0, 1, 0, 7, 0]);
    let again = payload_of_picture(&file, &decode(&file, "logo.png").unwrap());
    assert_eq!(payload, again);
}

#[test]
fn payload_of_anything_else_is_the_file_itself() {
    let ico = IconContainer::encode(&picture(16, 16)).to_bytes().unwrap();
    // An icon file named as one decodes as a picture and is built anew.
    assert_eq!(&icon_payload(&ico, "app.ico")[..6], &[0, 0, 1, 0, 7, 0]);
    // Under a name that tells no format the bytes are handed on as they are.
    assert_eq!(icon_payload(&ico, "app.icon-data"), ico);
    let text = b"plain text".to_vec();
    assert_eq!(icon_payload(&text, "notes.png"), text);
    assert_eq!(icon_payload(&Vec::new(), ""), Vec::<u8>::new());
}

fn uniform(width: u32, height: u32, colour: [u8; 4]) -> Raster {
    let pixels = colour.iter().copied().cycle().take(4 * (width * height) as usize).collect();
    Raster::new(width, height, pixels).unwrap()
}

#[test]
fn frames_are_made_of_the_source() {
    for colour in [[10u8, 20, 30, 255], [200, 100, 50, 255]] {
        let icon = IconContainer::encode(&uniform(50, 70, colour));
        assert_eq!(icon.len(), 7);
        for i in 0..7 {
            let frame = icon.frame(i);
            let size = frame.width;
            if size >= 128 {
                let decoded = image::load_from_memory_with_format(&frame.payload, image::ImageFormat::Png)
                    .unwrap()
                    .into_rgba8();
                assert_eq!((decoded.width(), decoded.height()), (size, size));
                assert!(decoded.pixels().all(|p| p.0 == colour), "size {size}");
            } else {
                let colours = &frame.payload[40..40 + 4 * (size * size) as usize];
                let expected = [colour[2], colour[1], colour[0], colour[3]];
                assert!(colours.chunks(4).all(|p| p == expected), "size {size}");
                // Nothing is transparent, so the mask is clear.
                assert!(frame.payload[40 + 4 * (size * size) as usize..].iter().all(|&b| b == 0));
            }
        }
    }
}

#[test]
fn transparent_source_gives_a_full_mask() {
    let icon = IconContainer::encode(&uniform(20, 20, [0, 0, 0, 0]));
    let frame = icon.frame(6);
    assert_eq!(frame.width, 16);
    let mask = &frame.payload[40 + 4 * 16 * 16..];
    assert_eq!(mask.len(), 4 * 16);
    for row in mask.chunks(4) {
        assert_eq!(row, &[0xff, 0xff, 0, 0]);
    }
}
