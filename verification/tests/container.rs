use metaedit::container::{find_layout, ExecutableImage, HeaderFormat, Layout, ParseFailure};
use metaedit::error::ErrorKind;
use metaedit::signature::strip_pe_signature;

/// A buffer of `len` zero bytes with a header at `start` in the given format.
fn container(len: usize, start: usize, tag: u16) -> Vec<u8> {
    let mut data = vec![0u8; len];
    data[0] = b'M';
    data[1] = b'Z';
    data[0x3c..0x40].copy_from_slice(&(start as u32).to_le_bytes());
    data[start..start + 4].copy_from_slice(b"PE\0\0");
    data[start + 24..start + 26].copy_from_slice(&tag.to_le_bytes());
    data
}

fn entry_offset(start: usize, tag: u16) -> usize {
    start + 24 + if tag == 0x10b { 96 } else { 112 } + 32
}

fn signed(len: usize, start: usize, tag: u16, address: u32, size: u32) -> Vec<u8> {
    let mut data = container(len, start, tag);
    let entry = entry_offset(start, tag);
    data[entry..entry + 4].copy_from_slice(&address.to_le_bytes());
    data[entry + 4..entry + 8].copy_from_slice(&size.to_le_bytes());
    for (i, byte) in data.iter_mut().enumerate().skip(entry + 8) {
        *byte = (i % 251) as u8 | 1;
    }
    data
}

#[test]
fn layout_of_a_32_bit_container() {
    let data = container(0x200, 0x80, 0x10b);
    assert_eq!(
        find_layout(&data),
        Ok(Layout { header_start: 0x80, format: HeaderFormat::Pe32 })
    );
    let layout = find_layout(&data).unwrap();
    assert_eq!(layout.directory_table(), 0x80 + 24 + 96);
    assert_eq!(layout.signature_entry(), 0x80 + 24 + 96 + 32);
}

#[test]
fn layout_of_a_64_bit_container() {
    let data = container(0x200, 0x40, 0x20b);
    assert_eq!(
        find_layout(&data),
        Ok(Layout { header_start: 0x40, format: HeaderFormat::Pe32Plus })
    );
    let layout = find_layout(&data).unwrap();
    assert_eq!(layout.directory_table(), 0x40 + 24 + 112);
    assert_eq!(layout.signature_entry(), 0x40 + 24 + 112 + 32);
}

#[test]
fn parse_then_serialize_gives_the_same_bytes() {
    let data = signed(0x400, 0x80, 0x20b, 0, 0);
    let image = ExecutableImage::parse(data.clone()).unwrap();
    assert_eq!(image.len(), data.len());
    assert_eq!(image.bytes(), &data);
    assert_eq!(
        image.layout(),
        Some(Layout { header_start: 0x80, format: HeaderFormat::Pe32Plus })
    );
    assert_eq!(image.serialize(), data);
}

#[test]
fn buffer_shorter_than_the_legacy_header_is_refused() {
    assert_eq!(find_layout(&vec![0u8; 0x3f]), Err(ParseFailure::ShortLegacyHeader));
    assert_eq!(find_layout(&Vec::new()), Err(ParseFailure::ShortLegacyHeader));
    let error = ExecutableImage::parse(vec![0u8; 10]).err().unwrap();
    assert_eq!(error.kind(), ErrorKind::ParseError);
    assert_eq!(error.context, "buffer is shorter than the legacy header");
    assert_eq!(error.message(), "parse error: buffer is shorter than the legacy header");
}

#[test]
fn header_start_past_the_end_is_refused() {
    let mut data = vec![0u8; 0x40];
    data[0x3c..0x40].copy_from_slice(&0xffff_fff0u32.to_le_bytes());
    assert_eq!(find_layout(&data), Err(ParseFailure::ShortHeader));
    // The signature, the file header and the format tag need 26 bytes.
    let mut data = container(0x80 + 26, 0x80, 0x10b);
    data.truncate(0x80 + 25);
    assert_eq!(find_layout(&data), Err(ParseFailure::ShortHeader));
    let error = ExecutableImage::parse(data).err().unwrap();
    assert_eq!(error.context, "header start lies past the end of the buffer");
}

#[test]
fn wrong_signature_comes_before_a_short_file_header() {
    // Four bytes fit at the header start, but no file header after them.
    let mut data = vec![0u8; 0x48];
    data[0x3c..0x40].copy_from_slice(&0x40u32.to_le_bytes());
    assert_eq!(find_layout(&data), Err(ParseFailure::BadSignature));
    data[0x40..0x44].copy_from_slice(b"PE\0\0");
    assert_eq!(find_layout(&data), Err(ParseFailure::ShortHeader));
    // Not even the four bytes fit.
    data.truncate(0x43);
    assert_eq!(find_layout(&data), Err(ParseFailure::ShortHeader));
}

#[test]
fn missing_header_signature_is_refused() {
    let mut data = container(0x200, 0x80, 0x10b);
    data[0x83] = 1;
    assert_eq!(find_layout(&data), Err(ParseFailure::BadSignature));
    let error = ExecutableImage::parse(data).err().unwrap();
    assert_eq!(error.kind, ErrorKind::ParseError);
    assert_eq!(error.context, "header signature is missing");
}

#[test]
fn unknown_format_tag_is_refused() {
    let data = container(0x200, 0x80, 0x107);
    assert_eq!(find_layout(&data), Err(ParseFailure::UnknownFormat));
    let error = ExecutableImage::parse(data).err().unwrap();
    assert_eq!(error.context, "optional header format tag is unknown");
}

#[test]
fn cut_off_directory_table_is_refused() {
    let full = 0x80 + 24 + 96 + 40;
    assert!(find_layout(&container(full, 0x80, 0x10b)).is_ok());
    assert_eq!(
        find_layout(&container(full - 1, 0x80, 0x10b)),
        Err(ParseFailure::ShortDirectoryTable)
    );
    // The 64-bit table starts sixteen bytes later.
    assert_eq!(
        find_layout(&container(full, 0x80, 0x20b)),
        Err(ParseFailure::ShortDirectoryTable)
    );
    assert!(find_layout(&container(full + 16, 0x80, 0x20b)).is_ok());
    let error = ExecutableImage::parse(container(full - 1, 0x80, 0x10b)).err().unwrap();
    assert_eq!(error.context, "data directory table is cut off");
}

#[test]
fn header_may_start_at_the_very_beginning() {
    // The legacy header's own bytes then serve as the header signature.
    let mut data = vec![0u8; 0x100];
    data[0..4].copy_from_slice(b"PE\0\0");
    data[24..26].copy_from_slice(&0x10bu16.to_le_bytes());
    assert_eq!(
        find_layout(&data),
        Ok(Layout { header_start: 0, format: HeaderFormat::Pe32 })
    );
}

#[test]
fn signature_at_the_tail_is_cut_off() {
    let n = 0x123;
    let data = signed(0x400 + n, 0x80, 0x20b, 0x400, n as u32);
    let entry = entry_offset(0x80, 0x20b);
    let mut stripped = data.clone();
    assert!(strip_pe_signature(&mut stripped));
    assert_eq!(stripped.len(), data.len() - n);
    assert_eq!(&stripped[entry..entry + 8], &[0u8; 8]);
    assert_eq!(&stripped[..entry], &data[..entry]);
    assert_eq!(&stripped[entry + 8..], &data[entry + 8..0x400]);
}

#[test]
fn signature_not_at_the_tail_is_left_in_place() {
    let data = signed(0x500, 0x80, 0x10b, 0x300, 0x100);
    let entry = entry_offset(0x80, 0x10b);
    let mut stripped = data.clone();
    assert!(strip_pe_signature(&mut stripped));
    assert_eq!(stripped.len(), data.len());
    assert_eq!(&stripped[entry..entry + 8], &[0u8; 8]);
    assert_eq!(&stripped[..entry], &data[..entry]);
    assert_eq!(&stripped[entry + 8..], &data[entry + 8..]);
}

#[test]
fn signature_reaching_past_the_end_is_left_in_place() {
    let data = signed(0x500, 0x80, 0x10b, 0x400, 0x101);
    let mut stripped = data.clone();
    assert!(strip_pe_signature(&mut stripped));
    assert_eq!(stripped.len(), 0x500);
}

#[test]
fn stripping_twice_is_stripping_once() {
    for data in [
        signed(0x400 + 0x80, 0x80, 0x20b, 0x400, 0x80),
        signed(0x500, 0x80, 0x10b, 0x300, 0x100),
        signed(0x500, 0x80, 0x10b, 0, 0),
    ] {
        let mut once = data.clone();
        strip_pe_signature(&mut once);
        let mut twice = once.clone();
        assert!(!strip_pe_signature(&mut twice));
        assert_eq!(twice, once);
    }
}

#[test]
fn zero_address_or_zero_size_means_no_signature() {
    for (address, size) in [(0u32, 0u32), (0, 0x100), (0x400, 0)] {
        let data = signed(0x500, 0x80, 0x20b, address, size);
        let mut stripped = data.clone();
        assert!(!strip_pe_signature(&mut stripped));
        assert_eq!(stripped, data);
    }
}

#[test]
fn a_buffer_that_is_no_container_is_not_stripped() {
    let mut data = vec![7u8; 0x300];
    assert!(!strip_pe_signature(&mut data));
    assert_eq!(data, vec![7u8; 0x300]);
    let mut short = vec![1u8, 2, 3];
    assert!(!strip_pe_signature(&mut short));
    assert_eq!(short, vec![1u8, 2, 3]);
}

#[test]
fn signature_that_covers_the_header_takes_the_header_with_it() {
    // The entry claims everything from byte 16 on: the cut leaves no container.
    let len = 0x300;
    let data = signed(len, 0x80, 0x10b, 16, len as u32 - 16);
    let mut image = ExecutableImage::parse(data.clone()).unwrap();
    assert!(image.strip_signature());
    assert_eq!(image.len(), 16);
    assert_eq!(image.layout(), None);
    assert!(!image.strip_signature());
    assert_eq!(image.serialize(), data[..16].to_vec());
}

#[test]
fn image_strips_as_the_plain_bytes_do() {
    let data = signed(0x400 + 0x40, 0x80, 0x20b, 0x400, 0x40);
    let mut plain = data.clone();
    strip_pe_signature(&mut plain);
    let mut image = ExecutableImage::parse(data).unwrap();
    assert!(image.strip_signature());
    assert!(image.layout().is_some());
    assert_eq!(image.serialize(), plain);
}

#[test]
fn replacing_the_bytes_derives_the_layout_anew() {
    let mut image = ExecutableImage::parse(container(0x200, 0x80, 0x10b)).unwrap();
    let other = container(0x300, 0x40, 0x20b);
    assert!(image.replace_bytes(other.clone()).is_ok());
    assert_eq!(
        image.layout(),
        Some(Layout { header_start: 0x40, format: HeaderFormat::Pe32Plus })
    );
    let error = image.replace_bytes(vec![0u8; 4]).err().unwrap();
    assert_eq!(error.kind, ErrorKind::ParseError);
    assert_eq!(image.serialize(), other);
}
