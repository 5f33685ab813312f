use metaedit::container::{parse_error, ParseFailure};
use metaedit::error::{EditError, ErrorKind};

#[test]
fn error_keeps_its_kind_and_context() {
    let error = EditError::new(ErrorKind::IconError, "no frames");
    assert_eq!(error.kind(), ErrorKind::IconError);
    assert_eq!(error.kind, ErrorKind::IconError);
    assert_eq!(error.context, "no frames");
}

#[test]
fn message_names_the_kind_before_the_context() {
    let cases = [
        (ErrorKind::FileNotFound, "file not found: a.exe"),
        (ErrorKind::ParseError, "parse error: a.exe"),
        (ErrorKind::IconError, "icon error: a.exe"),
        (ErrorKind::IOError, "i/o error: a.exe"),
    ];
    for (kind, message) in cases {
        assert_eq!(EditError::new(kind, "a.exe").message(), message);
    }
    assert_eq!(EditError::new(ErrorKind::IOError, "").message(), "i/o error: ");
}

#[test]
fn every_parse_failure_is_a_parse_error_with_its_own_text() {
    let cases = [
        (ParseFailure::ShortLegacyHeader, "buffer is shorter than the legacy header"),
        (ParseFailure::ShortHeader, "header start lies past the end of the buffer"),
        (ParseFailure::BadSignature, "header signature is missing"),
        (ParseFailure::UnknownFormat, "optional header format tag is unknown"),
        (ParseFailure::ShortDirectoryTable, "data directory table is cut off"),
    ];
    for (failure, text) in cases {
        let error = parse_error(failure);
        assert_eq!(error.kind, ErrorKind::ParseError);
        assert_eq!(error.context, text);
    }
}
