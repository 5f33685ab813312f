//! The executable container: its header layout, parsing and serialising.

use vstd::prelude::*;
use crate::error::{EditError, ErrorKind};
use crate::signature::{has_signature, strip_pe_signature, stripped};

verus! {

/// The little-endian 16-bit value at `at`.
pub open spec fn le_u16(bytes: Seq<u8>, at: int) -> int {
    bytes[at] as int + 0x100 * (bytes[at + 1] as int)
}

/// The little-endian 32-bit value at `at`.
pub open spec fn le_u32(bytes: Seq<u8>, at: int) -> int {
    bytes[at] as int + 0x100 * (bytes[at + 1] as int) + 0x1_0000 * (bytes[at + 2] as int)
        + 0x100_0000 * (bytes[at + 3] as int)
}

/// Reads the little-endian 16-bit value at `at`.
pub fn read_u16_le(data: &Vec<u8>, at: usize) -> (v: u16)
    requires
        at + 2 <= data.len(),
    ensures
        v == le_u16(data@, at as int),
{
    let lo: u16 = data[at] as u16;
    let hi: u16 = data[at + 1] as u16;
    lo + hi * 0x100
}

/// Reads the little-endian 32-bit value at `at`.
pub fn read_u32_le(data: &Vec<u8>, at: usize) -> (v: u32)
    requires
        at + 4 <= data.len(),
    ensures
        v == le_u32(data@, at as int),
{
    let b0: u32 = data[at] as u32;
    let b1: u32 = data[at + 1] as u32;
    let b2: u32 = data[at + 2] as u32;
    let b3: u32 = data[at + 3] as u32;
    b0 + b1 * 0x100 + b2 * 0x1_0000 + b3 * 0x100_0000
}

/// Which of the two optional-header layouts the format tag announces.
#[derive(Clone, Copy, Debug, PartialEq, Eq, Structural)]
pub enum HeaderFormat {
    /// Tag `0x10b`: 32-bit addresses.
    Pe32,
    /// Tag `0x20b`: 64-bit addresses.
    Pe32Plus,
}

/// Why a buffer is not an executable container.
#[derive(Clone, Copy, Debug, PartialEq, Eq, Structural)]
pub enum ParseFailure {
    /// Shorter than the legacy header.
    ShortLegacyHeader,
    /// The header signature, or the file header and format tag after
    /// it, do not fit.
    ShortHeader,
    /// The four bytes at the header start are not `PE\0\0`.
    BadSignature,
    /// The format tag is neither `0x10b` nor `0x20b`.
    UnknownFormat,
    /// The signature directory entry lies past the end of the buffer.
    ShortDirectoryTable,
}

/// The offsets derived from a container's header.
#[derive(Clone, Copy, Debug, PartialEq, Eq, Structural)]
pub struct Layout {
    /// Where the modern header (its signature) starts.
    pub header_start: usize,
    /// The optional header's format.
    pub format: HeaderFormat,
}

/// Size of the legacy header; its last four bytes hold the header start.
pub const LEGACY_HEADER_SIZE: usize = 0x40;

/// Position of the header-start field inside the legacy header.
pub const HEADER_START_FIELD: usize = 0x3c;

/// From the header start to the optional header: signature and file header.
pub const OPTIONAL_HEADER_DISTANCE: usize = 24;

/// Size of one data-directory entry: an address and a size.
pub const DIRECTORY_ENTRY_SIZE: usize = 8;

/// Index of the signature entry in the data-directory table.
pub const SIGNATURE_ENTRY_INDEX: usize = 4;

/// From the optional header to the data-directory table, by format.
pub open spec fn directory_table_distance(format: HeaderFormat) -> int {
    match format {
        HeaderFormat::Pe32 => 96,
        HeaderFormat::Pe32Plus => 112,
    }
}

impl Layout {
    /// Where the optional header, and its format tag, starts.
    pub open spec fn optional_header_offset(self) -> int {
        self.header_start + OPTIONAL_HEADER_DISTANCE
    }

    /// Where the data-directory table starts.
    pub open spec fn directory_table_offset(self) -> int {
        self.optional_header_offset() + directory_table_distance(self.format)
    }

    /// Where the signature directory entry starts.
    pub open spec fn signature_entry_offset(self) -> int {
        self.directory_table_offset() + SIGNATURE_ENTRY_INDEX * DIRECTORY_ENTRY_SIZE
    }

    /// One past the last byte that the layout reads.
    pub open spec fn header_end(self) -> int {
        self.signature_entry_offset() + DIRECTORY_ENTRY_SIZE
    }

    /// Where the data-directory table starts.
    pub fn directory_table(&self) -> (at: usize)
        requires
            self.header_end() <= usize::MAX,
        ensures
            at == self.directory_table_offset(),
    {
        let distance: usize = match self.format {
            HeaderFormat::Pe32 => 96,
            HeaderFormat::Pe32Plus => 112,
        };
        self.header_start + OPTIONAL_HEADER_DISTANCE + distance
    }

    /// Where the signature directory entry starts.
    pub fn signature_entry(&self) -> (at: usize)
        requires
            self.header_end() <= usize::MAX,
        ensures
            at == self.signature_entry_offset(),
    {
        self.directory_table() + SIGNATURE_ENTRY_INDEX * DIRECTORY_ENTRY_SIZE
    }
}

/// Whether the four bytes at `at` are the header signature `PE\0\0`.
pub open spec fn has_header_signature(bytes: Seq<u8>, at: int) -> bool {
    bytes[at] == 0x50 && bytes[at + 1] == 0x45 && bytes[at + 2] == 0 && bytes[at + 3] == 0
}

/// The format a tag value stands for, if any.
pub open spec fn format_of_tag(tag: int) -> Option<HeaderFormat> {
    if tag == 0x10b {
        Some(HeaderFormat::Pe32)
    } else if tag == 0x20b {
        Some(HeaderFormat::Pe32Plus)
    } else {
        None
    }
}

/// The layout of a buffer, or the first check that it fails. The checks
/// run in this order: the legacy header fits; the four bytes of the
/// header signature fit; they are the signature; the file header and the
/// format tag fit; the tag is known; the data-directory table fits up to
/// the end of the signature entry.
pub open spec fn layout_of(bytes: Seq<u8>) -> Result<Layout, ParseFailure> {
    if bytes.len() < LEGACY_HEADER_SIZE {
        Err(ParseFailure::ShortLegacyHeader)
    } else {
        let start = le_u32(bytes, HEADER_START_FIELD as int);
        if bytes.len() < start + 4 {
            Err(ParseFailure::ShortHeader)
        } else if !has_header_signature(bytes, start) {
            Err(ParseFailure::BadSignature)
        } else if bytes.len() < start + OPTIONAL_HEADER_DISTANCE + 2 {
            Err(ParseFailure::ShortHeader)
        } else {
            match format_of_tag(le_u16(bytes, start + OPTIONAL_HEADER_DISTANCE)) {
                None => Err(ParseFailure::UnknownFormat),
                Some(format) => {
                    let layout = Layout { header_start: start as usize, format };
                    if bytes.len() < layout.header_end() {
                        Err(ParseFailure::ShortDirectoryTable)
                    } else {
                        Ok(layout)
                    }
                },
            }
        }
    }
}

/// Derives the layout of a buffer, reading nothing past its end.
pub fn find_layout(data: &Vec<u8>) -> (r: Result<Layout, ParseFailure>)
    ensures
        r == layout_of(data@),
{
    if data.len() < LEGACY_HEADER_SIZE {
        return Err(ParseFailure::ShortLegacyHeader);
    }
    let start: u32 = read_u32_le(data, HEADER_START_FIELD);
    if (data.len() as u64) < start as u64 + 4 {
        return Err(ParseFailure::ShortHeader);
    }
    let at: usize = start as usize;
    if !(data[at] == 0x50 && data[at + 1] == 0x45 && data[at + 2] == 0 && data[at + 3] == 0) {
        return Err(ParseFailure::BadSignature);
    }
    if (data.len() as u64) < start as u64 + OPTIONAL_HEADER_DISTANCE as u64 + 2 {
        return Err(ParseFailure::ShortHeader);
    }
    let tag: u16 = read_u16_le(data, at + OPTIONAL_HEADER_DISTANCE);
    let format = if tag == 0x10b {
        HeaderFormat::Pe32
    } else if tag == 0x20b {
        HeaderFormat::Pe32Plus
    } else {
        return Err(ParseFailure::UnknownFormat);
    };
    let distance: u64 = match format {
        HeaderFormat::Pe32 => 96,
        HeaderFormat::Pe32Plus => 112,
    };
    let end: u64 = start as u64 + OPTIONAL_HEADER_DISTANCE as u64 + distance + 40;
    if (data.len() as u64) < end {
        return Err(ParseFailure::ShortDirectoryTable);
    }
    Ok(Layout { header_start: at, format })
}


/// The message attached to a parse failure.
pub open spec fn failure_text(failure: ParseFailure) -> Seq<char> {
    match failure {
        ParseFailure::ShortLegacyHeader => "buffer is shorter than the legacy header"@,
        ParseFailure::ShortHeader => "header start lies past the end of the buffer"@,
        ParseFailure::BadSignature => "header signature is missing"@,
        ParseFailure::UnknownFormat => "optional header format tag is unknown"@,
        ParseFailure::ShortDirectoryTable => "data directory table is cut off"@,
    }
}

/// Turns a parse failure into the error that is reported for it.
pub fn parse_error(failure: ParseFailure) -> (e: EditError)
    ensures
        e.kind == ErrorKind::ParseError,
        e.context@ == failure_text(failure),
{
    let text: &str = match failure {
        ParseFailure::ShortLegacyHeader => "buffer is shorter than the legacy header",
        ParseFailure::ShortHeader => "header start lies past the end of the buffer",
        ParseFailure::BadSignature => "header signature is missing",
        ParseFailure::UnknownFormat => "optional header format tag is unknown",
        ParseFailure::ShortDirectoryTable => "data directory table is cut off",
    };
    EditError::new(ErrorKind::ParseError, text)
}

/// The layout of a buffer if it has one.
pub open spec fn layout_if_any(bytes: Seq<u8>) -> Option<Layout> {
    match layout_of(bytes) {
        Ok(layout) => Some(layout),
        Err(_) => None,
    }
}

/// An executable held in memory: the whole file content and the offsets
/// derived from its header. The offsets are present exactly while the
/// header they were derived from lies inside the buffer.
pub struct ExecutableImage {
    data: Vec<u8>,
    layout: Option<Layout>,
}

impl View for ExecutableImage {
    type V = Seq<u8>;

    closed spec fn view(&self) -> Seq<u8> {
        self.data@
    }
}

impl ExecutableImage {
    /// Well-formedness: the offsets held are those that the bytes give, so
    /// every offset that is present lies inside the buffer.
    pub closed spec fn wf(&self) -> bool {
        self.layout == layout_if_any(self.data@)
    }

    /// Parses a file's bytes. Succeeds exactly on the buffers that have a
    /// layout, keeps every byte, and otherwise reports the first failed check.
    pub fn parse(bytes: Vec<u8>) -> (r: Result<ExecutableImage, EditError>)
        ensures
            match r {
                Ok(image) => parsed(bytes@) == Ok::<Seq<u8>, ParseFailure>(image@) && image.wf(),
                Err(e) => parsed(bytes@) is Err && e.kind == ErrorKind::ParseError && e.context@
                    == failure_text(parsed(bytes@)->Err_0),
            },
    {
        match find_layout(&bytes) {
            Ok(layout) => Ok(ExecutableImage { data: bytes, layout: Some(layout) }),
            Err(failure) => Err(parse_error(failure)),
        }
    }

    /// The buffer as it stands, all edits included.
    pub fn serialize(self) -> (bytes: Vec<u8>)
        ensures
            bytes@ == serialized(self@),
    {
        self.data
    }

    /// The derived offsets, if the header is still inside the buffer.
    pub fn layout(&self) -> (l: Option<Layout>)
        ensures
            self.wf() ==> l == layout_if_any(self@),
    {
        self.layout
    }

    /// Strips the signature: zeroes the signature directory entry if it
    /// claims a signature, and cuts the signature off if it ends exactly at
    /// the end of the buffer. Returns whether a signature was found.
    pub fn strip_signature(&mut self) -> (found: bool)
        ensures
            found == has_signature(old(self)@),
            final(self)@ == stripped(old(self)@),
            final(self).wf(),
    {
        let found = strip_pe_signature(&mut self.data);
        self.layout =
        match find_layout(&self.data) {
            Ok(layout) => Some(layout),
            Err(_) => None,
        };
        found
    }

    /// Replaces the content by edited bytes and derives the offsets anew.
    /// Bytes that have no layout are refused, and the image stays as it was.
    pub fn replace_bytes(&mut self, bytes: Vec<u8>) -> (r: Result<(), EditError>)
        ensures
            match r {
                Ok(()) => parsed(bytes@) is Ok && final(self)@ == bytes@ && final(self).wf(),
                Err(e) => parsed(bytes@) is Err && *final(self) == *old(self) && e.kind
                    == ErrorKind::ParseError && e.context@ == failure_text(
                    parsed(bytes@)->Err_0,
                ),
            },
    {
        match find_layout(&bytes) {
            Ok(layout) => {
                self.data = bytes;
                self.layout = Some(layout);
                Ok(())
            },
            Err(failure) => Err(parse_error(failure)),
        }
    }

    /// The bytes held.
    pub fn bytes(&self) -> (b: &Vec<u8>)
        ensures
            b@ == self@,
    {
        &self.data
    }

    /// Number of bytes held.
    pub fn len(&self) -> (n: usize)
        ensures
            n == self@.len(),
    {
        self.data.len()
    }
}

/// What parsing makes of a buffer: an image holding the same bytes, or the
/// first check that failed.
pub open spec fn parsed(bytes: Seq<u8>) -> Result<Seq<u8>, ParseFailure> {
    match layout_of(bytes) {
        Ok(_) => Ok(bytes),
        Err(failure) => Err(failure),
    }
}

/// What serialising makes of an image: its bytes as they stand.
pub open spec fn serialized(image: Seq<u8>) -> Seq<u8> {
    image
}

/// Parsing a container and serialising it with no edit in between gives
/// back the very bytes that were parsed.
pub proof fn lemma_parse_serialize_round_trip(bytes: Seq<u8>)
    requires
        parsed(bytes) is Ok,
    ensures
        serialized(parsed(bytes)->Ok_0) == bytes,
{
}

} // verus!
