use metaedit::container::ExecutableImage;
use metaedit::editor::MetadataEditor;
use metaedit::error::ErrorKind;
use metaedit::session::{run_edits, update, Action, Event, Session};

fn put16(data: &mut [u8], at: usize, v: u16) {
    data[at..at + 2].copy_from_slice(&v.to_le_bytes());
}

fn put32(data: &mut [u8], at: usize, v: u32) {
    data[at..at + 4].copy_from_slice(&v.to_le_bytes());
}

/// A 64-bit executable with one code section, no resources, and a
/// signature of `signature` bytes at its end.
fn executable(signature: usize) -> Vec<u8> {
    let mut d = vec![0u8; 0x400];
    d[0..2].copy_from_slice(b"MZ");
    put32(&mut d, 0x3c, 0x80);
    d[0x80..0x84].copy_from_slice(b"PE\0\0");
    put16(&mut d, 0x84, 0x8664);
    put16(&mut d, 0x86, 1);
    put16(&mut d, 0x94, 240);
    put16(&mut d, 0x96, 0x22);
    let opt = 0x98;
    put16(&mut d, opt, 0x20b);
    put32(&mut d, opt + 24, 0x4000_0000);
    put32(&mut d, opt + 32, 0x1000);
    put32(&mut d, opt + 36, 0x200);
    put32(&mut d, opt + 56, 0x2000);
    put32(&mut d, opt + 60, 0x200);
    put16(&mut d, opt + 68, 3);
    put32(&mut d, opt + 108, 16);
    let section = opt + 240;
    d[section..section + 5].copy_from_slice(b".text");
    put32(&mut d, section + 8, 0x200);
    put32(&mut d, section + 12, 0x1000);
    put32(&mut d, section + 16, 0x200);
    put32(&mut d, section + 20, 0x200);
    put32(&mut d, section + 36, 0x6000_0020);
    for i in 0x200..0x400 {
        d[i] = (i % 253) as u8;
    }
    if signature > 0 {
        put32(&mut d, opt + 112 + 32, 0x400);
        put32(&mut d, opt + 112 + 36, signature as u32);
        d.extend(std::iter::repeat(0xa5).take(signature));
    }
    d
}

const ENTRY: usize = 0x98 + 112 + 32;

fn png() -> Vec<u8> {
    let picture = image::RgbaImage::from_fn(20, 20, |x, y| image::Rgba([x as u8, y as u8, 3, 255]));
    let mut out = std::io::Cursor::new(Vec::new());
    picture.write_to(&mut out, image::ImageFormat::Png).unwrap();
    out.into_inner()
}

fn failure(session: Session) -> ErrorKind {
    session.outcome().unwrap().err().unwrap().kind
}

#[test]
fn missing_file_ends_with_file_not_found_and_no_write() {
    let editor = MetadataEditor::new("missing.exe".to_string()).set_version("1".to_string());
    let (session, action) = editor.apply();
    assert!(matches!(action, Action::ReadTarget { ref path } if path == "missing.exe"));
    assert!(!session.is_over());
    let (session, action) = session.advance(Event::TargetMissing);
    assert!(matches!(action, Action::Stop));
    assert!(session.is_over());
    let error = session.outcome().unwrap().err().unwrap();
    assert_eq!(error.kind, ErrorKind::FileNotFound);
    assert_eq!(error.context, "File not found: missing.exe");
    assert_eq!(error.message(), "file not found: File not found: missing.exe");
}

#[test]
fn unreadable_file_ends_with_an_io_error() {
    let (session, _) = MetadataEditor::new("a.exe".to_string()).apply();
    let (session, action) = session.advance(Event::ReadFailed { reason: "permission denied".to_string() });
    assert!(matches!(action, Action::Stop));
    let error = session.outcome().unwrap().err().unwrap();
    assert_eq!(error.kind, ErrorKind::IOError);
    assert_eq!(error.context, "permission denied");
}

#[test]
fn file_that_is_no_executable_ends_with_a_parse_error() {
    let (session, _) = MetadataEditor::new("a.exe".to_string()).apply();
    let (session, action) = session.advance(Event::TargetRead { bytes: b"#!/bin/sh\n".to_vec() });
    assert!(matches!(action, Action::Stop));
    assert_eq!(failure(session), ErrorKind::ParseError);
}

#[test]
fn request_for_nothing_writes_the_stripped_input() {
    let input = executable(0x90);
    let (session, _) = MetadataEditor::new("a.exe".to_string()).apply();
    let (session, action) = session.advance(Event::TargetRead { bytes: input.clone() });
    let Action::WriteTarget { path, bytes } = action else { panic!("a write is due") };
    assert_eq!(path, "a.exe");
    assert_eq!(bytes.len(), 0x400);
    assert_eq!(&bytes[ENTRY..ENTRY + 8], &[0u8; 8]);
    assert_eq!(&bytes[..ENTRY], &input[..ENTRY]);
    assert_eq!(&bytes[ENTRY + 8..], &input[ENTRY + 8..0x400]);
    let (session, action) = session.advance(Event::Written);
    assert!(matches!(action, Action::Stop));
    assert!(matches!(session.outcome(), Some(Ok(()))));
}

#[test]
fn unsigned_file_and_request_for_nothing_write_the_same_bytes() {
    let input = executable(0);
    let (session, _) = MetadataEditor::new("a.exe".to_string()).apply();
    let (_, action) = session.advance(Event::TargetRead { bytes: input.clone() });
    let Action::WriteTarget { bytes, .. } = action else { panic!("a write is due") };
    assert_eq!(bytes, input);
}

#[test]
fn version_request_is_edited_stripped_and_written() {
    let editor = MetadataEditor::new("a.exe".to_string())
        .set_version("1.2.3".to_string())
        .set_string("ProductName".to_string(), "X".to_string());
    let (session, _) = editor.apply();
    let (session, action) = session.advance(Event::TargetRead { bytes: executable(0x40) });
    let Action::WriteTarget { bytes, .. } = action else { panic!("a write is due") };
    assert_eq!(&bytes[ENTRY..ENTRY + 8], &[0u8; 8]);
    let parsed = editpe::Image::parse(bytes.as_slice()).unwrap();
    let info = parsed.resource_directory().unwrap().get_version_info().unwrap().unwrap();
    assert_eq!(info.strings.len(), 1);
    assert_eq!(info.strings[0].key, "040904b0");
    assert_eq!(info.strings[0].strings["FileVersion"], "1.2.3");
    assert_eq!(info.strings[0].strings["ProductVersion"], "1.2.3");
    assert_eq!(info.strings[0].strings["ProductName"], "X");
    assert_eq!(info.strings[0].strings.len(), 3);
    let (session, _) = session.advance(Event::WriteFailed { reason: "disk full".to_string() });
    let error = session.outcome().unwrap().err().unwrap();
    assert_eq!(error.kind, ErrorKind::IOError);
    assert_eq!(error.context, "disk full");
}

#[test]
fn icon_request_reads_the_picture_file_first() {
    let editor = MetadataEditor::new("a.exe".to_string()).set_icon("logo.png".to_string());
    let (session, _) = editor.apply();
    let (session, action) = session.advance(Event::TargetRead { bytes: executable(0) });
    assert!(matches!(action, Action::ReadIcon { ref path } if path == "logo.png"));
    assert!(!session.is_over());
    let (session, action) = session.advance(Event::IconRead { bytes: png() });
    let Action::WriteTarget { bytes, .. } = action else { panic!("a write is due") };
    let parsed = editpe::Image::parse(bytes.as_slice()).unwrap();
    assert!(parsed.resource_directory().unwrap().get_main_icon().unwrap().is_some());
    let (session, _) = session.advance(Event::Written);
    assert!(matches!(session.outcome(), Some(Ok(()))));
}

#[test]
fn unreadable_or_unusable_picture_file_ends_with_an_icon_error() {
    let start = || {
        let editor = MetadataEditor::new("a.exe".to_string()).set_icon("logo.png".to_string());
        let (session, _) = editor.apply();
        session.advance(Event::TargetRead { bytes: executable(0) }).0
    };
    let (session, action) = start().advance(Event::ReadFailed { reason: "no such file".to_string() });
    assert!(matches!(action, Action::Stop));
    let error = session.outcome().unwrap().err().unwrap();
    assert_eq!(error.kind, ErrorKind::IconError);
    assert_eq!(error.context, "no such file");
    let (session, action) = start().advance(Event::IconRead { bytes: b"neither picture nor icon".to_vec() });
    assert!(matches!(action, Action::Stop));
    assert_eq!(failure(session), ErrorKind::IconError);
}

#[test]
fn parse_error_comes_before_the_picture_file_is_asked_for() {
    let editor = MetadataEditor::new("a.exe".to_string()).set_icon("logo.png".to_string());
    let (session, _) = editor.apply();
    let (session, action) = session.advance(Event::TargetRead { bytes: vec![0u8; 100] });
    assert!(matches!(action, Action::Stop));
    assert_eq!(failure(session), ErrorKind::ParseError);
}

#[test]
fn ended_session_stays_as_it_is() {
    let (session, _) = MetadataEditor::new("a.exe".to_string()).apply();
    let (session, _) = session.advance(Event::TargetMissing);
    let (session, action) = session.advance(Event::TargetRead { bytes: executable(0) });
    assert!(matches!(action, Action::Stop));
    let (session, action) = session.advance(Event::Written);
    assert!(matches!(action, Action::Stop));
    assert_eq!(failure(session), ErrorKind::FileNotFound);
}

#[test]
fn report_out_of_turn_ends_the_session() {
    let session = Session::new(MetadataEditor::new("a.exe".to_string()));
    assert!(session.outcome().is_none());
    let session = Session::new(MetadataEditor::new("a.exe".to_string()));
    let (session, action) = session.advance(Event::Written);
    assert!(matches!(action, Action::Stop));
    assert_eq!(failure(session), ErrorKind::IOError);
    let (session, _) = MetadataEditor::new("a.exe".to_string()).apply();
    let (session, action) = session.advance(Event::IconRead { bytes: png() });
    assert!(matches!(action, Action::Stop));
    assert_eq!(failure(session), ErrorKind::IOError);
}

#[test]
fn update_routes_the_fields_and_starts() {
    let fields = vec![
        ("version".to_string(), "2.0".to_string()),
        ("Company".to_string(), "Acme".to_string()),
    ];
    let (session, action) = update("tool.exe".to_string(), Some(fields));
    assert!(matches!(action, Action::ReadTarget { ref path } if path == "tool.exe"));
    let (_, action) = session.advance(Event::TargetRead { bytes: executable(0) });
    let Action::WriteTarget { bytes, .. } = action else { panic!("a write is due") };
    let parsed = editpe::Image::parse(bytes.as_slice()).unwrap();
    let info = parsed.resource_directory().unwrap().get_version_info().unwrap().unwrap();
    assert_eq!(info.strings[0].strings["FileVersion"], "2.0");
    assert_eq!(info.strings[0].strings["Company"], "Acme");
    assert!(info.strings[0].strings.get("version").is_none());
}

#[test]
fn signature_is_removed_only_where_there_is_one() {
    let editor = MetadataEditor::new("a.exe".to_string()).set_version("9".to_string());
    let signed = executable(0x33);
    let stripped = editor.remove_signature(signed.clone()).unwrap();
    assert_eq!(stripped.len(), 0x400);
    assert_eq!(&stripped[ENTRY..ENTRY + 8], &[0u8; 8]);
    assert_eq!(editor.remove_signature(stripped), None);
    assert_eq!(editor.remove_signature(executable(0)), None);
    assert_eq!(editor.remove_signature(b"text".to_vec()), None);
}

#[test]
fn failed_step_leaves_what_earlier_steps_did() {
    let input = executable(0x20);
    let mut image = ExecutableImage::parse(input.clone()).unwrap();
    let editor = MetadataEditor::new("a.exe".to_string());
    let error = run_edits(&mut image, &editor, Some(&vec![1, 2, 3])).err().unwrap();
    assert_eq!(error.kind, ErrorKind::IconError);
    // Nothing was committed and the signature was not stripped.
    assert_eq!(image.serialize(), input);
    let mut image = ExecutableImage::parse(input.clone()).unwrap();
    assert_eq!(run_edits(&mut image, &editor, None).ok(), Some(true));
    assert_eq!(image.len(), 0x400);
    assert_eq!(run_edits(&mut image, &editor, None).ok(), Some(false));
    assert_eq!(image.len(), 0x400);
}
