//! The icon container: the frames of the fixed size ladder, made from one
//! source picture.

use vstd::prelude::*;
use crate::bitmap::{
    bitmap_frame, create_ico_bmp_data, fits_bitmap_frame, le_bytes_u16, le_bytes_u32, mask_row_len,
};
use crate::raster::{Raster, RasterView};

verus! {

/// The sizes of the frames, largest first.
pub open spec fn ladder() -> Seq<int> {
    seq![256, 128, 64, 48, 32, 24, 16]
}

/// Number of sizes in the ladder.
pub const LADDER_LEN: usize = 7;

/// From this size on a frame is a compressed picture; below it, a raw bitmap.
pub const COMPRESSED_FROM: u32 = 128;

/// The size at a place of the ladder.
pub fn ladder_size(i: usize) -> (size: u32)
    requires
        i < LADDER_LEN,
    ensures
        size == ladder()[i as int],
        16 <= size <= 256,
{
    if i == 0 {
        256
    } else if i == 1 {
        128
    } else if i == 2 {
        64
    } else if i == 3 {
        48
    } else if i == 4 {
        32
    } else if i == 5 {
        24
    } else {
        16
    }
}

/// The PNG encoding of an RGBA picture, where the encoder gives one.
pub uninterp spec fn png_encoding(width: int, height: int, pixels: Seq<u8>) -> Option<Seq<u8>>;

/// What the decoder makes of the bytes of a picture file under the given
/// name: the width, the height and the RGBA bytes, where it decodes them.
pub uninterp spec fn decoded_picture(file: Seq<u8>, path: Seq<char>) -> Option<
    (int, int, Seq<u8>),
>;

/// One frame as a specification sees it.
pub struct FrameView {
    pub width: int,
    pub height: int,
    pub payload: Seq<u8>,
}

/// One resolution of an icon: its declared size and its encoded picture.
pub struct IconFrame {
    pub width: u32,
    pub height: u32,
    pub payload: Vec<u8>,
}

impl View for IconFrame {
    type V = FrameView;

    open spec fn view(&self) -> FrameView {
        FrameView { width: self.width as int, height: self.height as int, payload: self.payload@ }
    }
}

/// The views of the frames of a vector.
pub open spec fn frames_view(frames: Seq<IconFrame>) -> Seq<FrameView> {
    Seq::new(frames.len(), |i: int| frames[i]@)
}

/// The view of optional bytes.
pub open spec fn bytes_view(bytes: Option<Vec<u8>>) -> Option<Seq<u8>> {
    match bytes {
        Some(b) => Some(b@),
        None => None,
    }
}

/// The view of what came out of the decoder.
pub open spec fn decoded_view(decoded: Option<(u32, u32, Vec<u8>)>) -> Option<(int, int, Seq<u8>)> {
    match decoded {
        Some((width, height, pixels)) => Some((width as int, height as int, pixels@)),
        None => None,
    }
}

/// `image::ImageReader::with_format(..).decode()` on the bytes of a
/// picture file, the format taken from the file's name with
/// `image::ImageFormat::from_path`; the picture is handed out as RGBA
/// bytes with its width and height.
#[verifier::external_body]
fn decode_picture(bytes: &Vec<u8>, path: &str) -> (r: Option<(u32, u32, Vec<u8>)>)
    ensures
        decoded_view(r) == decoded_picture(bytes@, path@),
{
    let format = image::ImageFormat::from_path(path).ok()?;
    let reader = image::ImageReader::with_format(std::io::Cursor::new(bytes.as_slice()), format);
    let rgba = reader.decode().ok()?.into_rgba8();
    Some((rgba.width(), rgba.height(), rgba.into_raw()))
}

/// Whether `out` holds pixels that resampling the picture to a square of
/// `size` pixels gives. The resampler weighs the pixels with a sine
/// kernel in floating point, whose last digit differs between machines,
/// so a picture has not one resampling but those that some machine
/// gives; this says that `out` is one of them.
pub uninterp spec fn is_resampling(
    width: int,
    height: int,
    pixels: Seq<u8>,
    size: int,
    out: Seq<u8>,
) -> bool;

/// `image::imageops::resize` with the Lanczos filter of three lobes, to a
/// square of the given size. The picture that comes back is a resampling
/// of the source, has exactly that width and height, and four bytes for
/// each of its pixels; a picture that has that size already comes back
/// as it is.
#[verifier::external_body]
fn resample(source: &Raster, size: u32) -> (out: Raster)
    requires
        source.wf(),
        1 <= size <= 256,
    ensures
        out.wf(),
        out@.width == size,
        out@.height == size,
        is_resampling(
            source@.width,
            source@.height,
            source@.pixels,
            size as int,
            out@.pixels,
        ),
        source@.width == size && source@.height == size ==> out@ == source@,
{
    let view = image::RgbaImage::from_raw(source.width, source.height, source.pixels.clone())
        .expect("four bytes per pixel");
    let out = image::imageops::resize(&view, size, size, image::imageops::FilterType::Lanczos3);
    Raster { width: out.width(), height: out.height(), pixels: out.into_raw() }
}

/// `image::codecs::png::PngEncoder::write_image` on an RGBA picture,
/// into an empty buffer.
#[verifier::external_body]
fn encode_png(picture: &Raster) -> (r: Option<Vec<u8>>)
    requires
        picture.wf(),
    ensures
        bytes_view(r) == png_encoding(picture@.width, picture@.height, picture@.pixels),
{
    let mut out: Vec<u8> = Vec::new();
    image::ImageEncoder::write_image(
        image::codecs::png::PngEncoder::new(&mut out),
        picture.pixels.as_slice(),
        picture.width,
        picture.height,
        image::ExtendedColorType::Rgba8,
    ).ok()?;
    Some(out)
}


/// The bytes of the first `n` payloads together.
pub open spec fn payload_total(frames: Seq<FrameView>, n: nat) -> int
    decreases n,
{
    if n == 0 {
        0
    } else {
        payload_total(frames, (n - 1) as nat) + frames[n - 1].payload.len()
    }
}

/// The length of an icon file: a directory of six bytes, sixteen bytes
/// for each frame, and the payloads.
pub open spec fn ico_file_len(frames: Seq<FrameView>) -> int {
    6 + 16 * frames.len() + payload_total(frames, frames.len())
}

/// The frames that an icon file can hold: at least one and at most
/// 65535, each from 1 to 256 pixels wide and high.
pub open spec fn ico_accepts(frames: Seq<FrameView>) -> bool {
    1 <= frames.len() <= 65535 && forall|i: int|
        0 <= i < frames.len() ==> 1 <= (#[trigger] frames[i]).width <= 256 && 1
            <= frames[i].height <= 256
}

/// The directory entry of a frame whose payload stands at `offset`: the
/// width and the height in one byte each, with 256 written as 0; no
/// palette; a reserved byte; no colour planes; 32 bits per pixel; the
/// length of the payload; the offset.
pub open spec fn ico_entry(frame: FrameView, offset: int) -> Seq<u8> {
    seq![(frame.width % 256) as u8, (frame.height % 256) as u8, 0u8, 0u8, 0u8, 0u8, 32u8, 0u8]
        + le_bytes_u32(frame.payload.len() as int) + le_bytes_u32(offset)
}

/// The directory entries of the first `n` frames. The payloads follow the
/// directory in the order of the frames.
pub open spec fn ico_entries(frames: Seq<FrameView>, n: nat) -> Seq<u8>
    decreases n,
{
    if n == 0 {
        Seq::empty()
    } else {
        ico_entries(frames, (n - 1) as nat) + ico_entry(
            frames[n - 1],
            6 + 16 * frames.len() + payload_total(frames, (n - 1) as nat),
        )
    }
}

/// The payloads of the first `n` frames, one after another.
pub open spec fn ico_payloads(frames: Seq<FrameView>, n: nat) -> Seq<u8>
    decreases n,
{
    if n == 0 {
        Seq::empty()
    } else {
        ico_payloads(frames, (n - 1) as nat) + frames[n - 1].payload
    }
}

/// The icon file of the frames: a reserved word, the type of an icon
/// file, the number of frames, the directory entries, the payloads.
pub open spec fn ico_file(frames: Seq<FrameView>) -> Seq<u8> {
    seq![0u8, 0u8, 1u8, 0u8] + le_bytes_u16(frames.len() as int) + ico_entries(
        frames,
        frames.len(),
    ) + ico_payloads(frames, frames.len())
}

/// `image::codecs::ico::IcoEncoder::encode_images` into an empty buffer,
/// each frame handed in through `IcoFrame::with_encoded` as an RGBA frame.
/// The file's offsets are 32-bit values, so the file must be no longer
/// than they can address. Frames that an icon file cannot hold are
/// refused; for the others the file is the directory and the payloads.
#[verifier::external_body]
fn encode_ico(frames: &Vec<IconFrame>) -> (r: Option<Vec<u8>>)
    requires
        ico_file_len(frames_view(frames@)) <= u32::MAX,
    ensures
        bytes_view(r) == (if ico_accepts(frames_view(frames@)) {
            Some(ico_file(frames_view(frames@)))
        } else {
            None
        }),
{
    let mut entries = Vec::new();
    for frame in frames.iter() {
        entries.push(
            image::codecs::ico::IcoFrame::with_encoded(
                frame.payload.as_slice(),
                frame.width,
                frame.height,
                image::ExtendedColorType::Rgba8,
            ).ok()?,
        );
    }
    let mut out: Vec<u8> = Vec::new();
    image::codecs::ico::IcoEncoder::new(&mut out).encode_images(&entries).ok()?;
    Some(out)
}

/// The payload of the frame of a picture at a size of the ladder: its PNG
/// encoding from 128 pixels on, its raw bitmap frame below.
pub open spec fn frame_payload(picture: RasterView, size: int) -> Option<Seq<u8>> {
    if size >= COMPRESSED_FROM {
        png_encoding(picture.width, picture.height, picture.pixels)
    } else if fits_bitmap_frame(picture.width, picture.height) {
        Some(bitmap_frame(picture))
    } else {
        None
    }
}

/// Encodes one picture as the frame of its size; `None` where the frame
/// cannot be encoded.
pub fn encode_frame(picture: &Raster, size: u32) -> (r: Option<IconFrame>)
    requires
        picture.wf(),
    ensures
        match r {
            Some(frame) => frame_payload(picture@, size as int) == Some(frame@.payload)
                && frame@.width == picture@.width && frame@.height == picture@.height,
            None => frame_payload(picture@, size as int) is None,
        },
{
    let payload = if size >= COMPRESSED_FROM {
        encode_png(picture)
    } else {
        match create_ico_bmp_data(picture) {
            Ok(data) => Some(data),
            Err(_) => None,
        }
    };
    match payload {
        Some(payload) => Some(
            IconFrame { width: picture.width(), height: picture.height(), payload },
        ),
        None => None,
    }
}

/// A frame is the frame of some square picture of the given size.
pub open spec fn is_frame_of_size(frame: FrameView, size: int) -> bool {
    frame.width == size && frame.height == size && exists|picture: RasterView|
        picture.wf() && picture.width == size && picture.height == size && #[trigger] frame_payload(
            picture,
            size,
        ) == Some(frame.payload)
}

/// A frame is the frame of some square picture of a ladder size.
pub open spec fn is_ladder_frame(frame: FrameView) -> bool {
    exists|k: int| 0 <= k < ladder().len() && #[trigger] is_frame_of_size(frame, ladder()[k])
}

/// Some frame has the given width.
pub open spec fn has_width(frames: Seq<FrameView>, width: int) -> bool {
    exists|i: int| 0 <= i < frames.len() && (#[trigger] frames[i]).width == width
}

/// The frames are those of ladder sizes, each size at most once, larger
/// sizes first, and no size below 128 pixels is missing.
pub open spec fn follows_ladder(frames: Seq<FrameView>) -> bool {
    &&& 1 <= frames.len() <= LADDER_LEN
    &&& forall|i: int| 0 <= i < frames.len() ==> is_ladder_frame(#[trigger] frames[i])
    &&& forall|i: int, j: int|
        0 <= i < j < frames.len() ==> (#[trigger] frames[i]).width > (#[trigger] frames[j]).width
    &&& forall|k: int| 2 <= k < ladder().len() ==> #[trigger] has_width(frames, ladder()[k])
}

/// The picture is the source resampled to a square of the given size.
pub open spec fn resamples(source: RasterView, size: int, picture: RasterView) -> bool {
    picture.wf() && picture.width == size && picture.height == size && is_resampling(
        source.width,
        source.height,
        source.pixels,
        size,
        picture.pixels,
    )
}

/// The first `n` pictures are the source resampled to the first `n`
/// sizes of the ladder.
pub open spec fn are_resamplings(source: RasterView, pictures: Seq<RasterView>, n: nat) -> bool {
    n <= pictures.len() && forall|k: int|
        0 <= k < n ==> resamples(source, ladder()[k], #[trigger] pictures[k])
}

/// The frames made of the first `n` pictures, one for each size of the
/// ladder: the picture encoded as the frame of that size, and no frame
/// where the encoding fails.
pub open spec fn frames_of(pictures: Seq<RasterView>, n: nat) -> Seq<FrameView>
    decreases n,
{
    if n == 0 {
        Seq::empty()
    } else {
        let before = frames_of(pictures, (n - 1) as nat);
        let size = ladder()[n - 1];
        match frame_payload(pictures[n - 1], size) {
            Some(payload) => before.push(FrameView { width: size, height: size, payload }),
            None => before,
        }
    }
}

/// The frames are those of the source: for each size of the ladder,
/// largest first, the frame of the source resampled to that size.
pub open spec fn is_icon_of(source: RasterView, frames: Seq<FrameView>) -> bool {
    exists|pictures: Seq<RasterView>|
        #[trigger] are_resamplings(source, pictures, LADDER_LEN as nat) && frames == frames_of(
            pictures,
            LADDER_LEN as nat,
        )
}

/// The frames of the first `n` pictures depend on those pictures alone.
proof fn lemma_frames_of_prefix(a: Seq<RasterView>, b: Seq<RasterView>, n: nat)
    requires
        n <= a.len(),
        n <= b.len(),
        forall|k: int| 0 <= k < n ==> a[k] == b[k],
    ensures
        frames_of(a, n) == frames_of(b, n),
    decreases n,
{
    if n > 0 {
        lemma_frames_of_prefix(a, b, (n - 1) as nat);
    }
}

/// The frames of an icon, in the order in which they were made.
pub struct IconContainer {
    frames: Vec<IconFrame>,
}

impl View for IconContainer {
    type V = Seq<FrameView>;

    closed spec fn view(&self) -> Seq<FrameView> {
        frames_view(self.frames@)
    }
}

/// The payloads together take no fewer bytes as more of them are counted.
proof fn lemma_payload_total_grows(frames: Seq<FrameView>, n: nat, m: nat)
    requires
        n <= m,
    ensures
        payload_total(frames, n) <= payload_total(frames, m),
    decreases m - n,
{
    if n < m {
        lemma_payload_total_grows(frames, n, (m - 1) as nat);
    }
}

/// The payloads together take no negative number of bytes.
proof fn lemma_payload_total_bounds(frames: Seq<FrameView>, n: nat)
    ensures
        0 <= payload_total(frames, n),
    decreases n,
{
    if n > 0 {
        lemma_payload_total_bounds(frames, (n - 1) as nat);
    }
}

/// Frames that follow the ladder are square, and their size is one of
/// 256, 128, 64, 48, 32, 24 and 16.
pub proof fn lemma_ladder_frames_are_square(frames: Seq<FrameView>, i: int)
    requires
        follows_ladder(frames),
        0 <= i < frames.len(),
    ensures
        frames[i].width == frames[i].height,
        ladder().contains(frames[i].width),
{
    assert(is_ladder_frame(frames[i]));
    let k = choose|k: int|
        0 <= k < ladder().len() && #[trigger] is_frame_of_size(frames[i], ladder()[k]);
    assert(ladder()[k] == frames[i].width);
}

/// A square picture below 128 pixels always has a bitmap frame.
proof fn lemma_small_square_fits(size: int)
    requires
        0 <= size < 128,
    ensures
        fits_bitmap_frame(size, size),
{
    assert(size * size <= 127 * 127) by (nonlinear_arith)
        requires
            0 <= size <= 127,
    ;
    assert(mask_row_len(size) * size <= 16 * 127) by (nonlinear_arith)
        requires
            0 <= size <= 127,
            0 <= mask_row_len(size) <= 16,
    ;
}

impl IconContainer {
    /// Number of frames.
    pub fn len(&self) -> (n: usize)
        ensures
            n == self@.len(),
    {
        self.frames.len()
    }

    /// The frame at a place.
    pub fn frame(&self, i: usize) -> (f: &IconFrame)
        requires
            i < self@.len(),
        ensures
            f@ == self@[i as int],
    {
        &self.frames[i]
    }

    /// The icon file that holds the frames; `None` where the file would be
    /// longer than its 32-bit offsets can address, or an icon file cannot
    /// hold the frames.
    pub fn to_bytes(&self) -> (r: Option<Vec<u8>>)
        ensures
            bytes_view(r) == (if ico_file_len(self@) <= u32::MAX && ico_accepts(self@) {
                Some(ico_file(self@))
            } else {
                None
            }),
    {
        let count: usize = self.frames.len();
        if count > 0x0fff_ffff {
            proof {
                lemma_payload_total_bounds(self@, self@.len());
            }
            return None;
        }
        let mut total: u64 = 6 + 16 * (count as u64);
        let mut i: usize = 0;
        while i < count
            invariant
                i <= count,
                count == self.frames@.len(),
                count <= 0x0fff_ffff,
                total == 6 + 16 * count + payload_total(self@, i as nat),
                total <= u32::MAX,
            decreases count - i,
        {
            let len: usize = self.frames[i].payload.len();
            if len as u64 > u32::MAX as u64 - total {
                proof {
                    lemma_payload_total_grows(self@, (i + 1) as nat, self@.len());
                }
                return None;
            }
            total = total + len as u64;
            i += 1;
        }
        encode_ico(&self.frames)
    }

    /// Makes the frames of the ladder from one source picture: for each
    /// size, largest first, the picture is resampled to a square of that
    /// size and encoded; a frame that cannot be encoded is left out.
    /// The frames are those of the source, and they follow the ladder, so
    /// there is at least one, each is square and of a ladder size.
    pub fn encode(source: &Raster) -> (icon: IconContainer)
        requires
            source.wf(),
        ensures
            is_icon_of(source@, icon@),
            follows_ladder(icon@),
    {
        let mut frames: Vec<IconFrame> = Vec::new();
        let ghost mut pictures: Seq<RasterView> = Seq::empty();
        let mut k: usize = 0;
        while k < LADDER_LEN
            invariant
                source.wf(),
                k <= LADDER_LEN,
                frames@.len() <= k,
                pictures.len() == k,
                are_resamplings(source@, pictures, k as nat),
                frames_view(frames@) == frames_of(pictures, k as nat),
                forall|i: int|
                    0 <= i < frames@.len() ==> is_ladder_frame(#[trigger] frames_view(frames@)[i]),
                forall|i: int|
                    0 <= i < frames@.len() ==> (#[trigger] frames_view(frames@)[i]).width >= (if k
                        == 0 {
                        257
                    } else {
                        ladder()[k - 1]
                    }),
                forall|i: int, j: int|
                    0 <= i < j < frames@.len() ==> (#[trigger] frames_view(frames@)[i]).width
                        > (#[trigger] frames_view(frames@)[j]).width,
                forall|m: int|
                    2 <= m < k ==> #[trigger] has_width(frames_view(frames@), ladder()[m]),
            decreases LADDER_LEN - k,
        {
            let size: u32 = ladder_size(k);
            let resized = resample(source, size);
            let ghost before = frames_view(frames@);
            proof {
                if size < COMPRESSED_FROM {
                    lemma_small_square_fits(size as int);
                }
                let held = pictures;
                pictures = pictures.push(resized@);
                lemma_frames_of_prefix(held, pictures, k as nat);
                assert(pictures[k as int] == resized@);
                assert(are_resamplings(source@, pictures, (k + 1) as nat)) by {
                    assert forall|m: int| 0 <= m < k + 1 implies resamples(
                        source@,
                        ladder()[m],
                        #[trigger] pictures[m],
                    ) by {
                        if m < k {
                            assert(pictures[m] == held[m]);
                        }
                    }
                }
            }
            match encode_frame(&resized, size) {
                Some(frame) => {
                    assert(is_frame_of_size(frame@, ladder()[k as int])) by {
                        assert(frame_payload(resized@, size as int) == Some(frame@.payload));
                    }
                    frames.push(frame);
                    let ghost after = frames_view(frames@);
                    assert(after =~= before.push(frame@));
                    assert(after == frames_of(pictures, (k + 1) as nat));
                    assert forall|m: int| 2 <= m < k + 1 implies #[trigger] has_width(
                        after,
                        ladder()[m],
                    ) by {
                        if m < k {
                            assert(has_width(before, ladder()[m]));
                            let i = choose|i: int|
                                0 <= i < before.len() && (#[trigger] before[i]).width
                                    == ladder()[m];
                            assert(after[i].width == ladder()[m]);
                        } else {
                            assert(after[after.len() - 1].width == ladder()[m]);
                        }
                    }
                },
                None => {
                    assert(size >= COMPRESSED_FROM);
                },
            }
            k += 1;
        }
        let icon = IconContainer { frames };
        assert(has_width(icon@, ladder()[2]));
        assert(are_resamplings(source@, pictures, LADDER_LEN as nat));
        icon
    }
}


/// The picture that a file decodes to: what the decoder gives, where it
/// gives a picture with four bytes for each pixel.
pub open spec fn picture_decoded(file: Seq<u8>, path: Seq<char>) -> Option<RasterView> {
    match decoded_picture(file, path) {
        Some((width, height, pixels)) => if 0 <= width <= u32::MAX && 0 <= height <= u32::MAX
            && pixels.len() == 4 * (width * height) {
            Some(RasterView { width, height, pixels })
        } else {
            None
        },
        None => None,
    }
}

/// Decodes the bytes of a picture file, the format going by the file's
/// name. `None` where the bytes are no picture of that format.
pub fn decode(file: &Vec<u8>, path: &str) -> (r: Option<Raster>)
    ensures
        match r {
            Some(picture) => picture.wf() && picture_decoded(file@, path@) == Some(picture@),
            None => picture_decoded(file@, path@) is None,
        },
{
    match decode_picture(file, path) {
        Some((width, height, pixels)) => Raster::new(width, height, pixels),
        None => None,
    }
}

/// The icon data made of ladder frames: their icon file, or the bytes of
/// the picture file where the icon file would be longer than its offsets
/// can address.
pub open spec fn ladder_payload(frames: Seq<FrameView>, file: Seq<u8>) -> Seq<u8> {
    if ico_file_len(frames) <= u32::MAX {
        ico_file(frames)
    } else {
        file
    }
}

/// The payload is the icon data of the frames of the picture.
pub open spec fn is_payload_of_picture(picture: RasterView, file: Seq<u8>, payload: Seq<u8>) -> bool {
    exists|frames: Seq<FrameView>|
        #[trigger] is_icon_of(picture, frames) && follows_ladder(frames) && payload
            == ladder_payload(frames, file)
}

/// The payload is the icon data for the file: the icon data of the
/// frames of the picture that the file decodes to, and the file's own
/// bytes where it decodes to none.
pub open spec fn is_payload_for(file: Seq<u8>, path: Seq<char>, payload: Seq<u8>) -> bool {
    match picture_decoded(file, path) {
        Some(picture) => is_payload_of_picture(picture, file, payload),
        None => payload == file,
    }
}

/// The icon data to put into an executable for a picture file: the icon
/// file made of the ladder frames where the file decodes as a picture,
/// and otherwise the file's own bytes, taken to be an icon file already.
pub fn icon_payload(file: &Vec<u8>, path: &str) -> (payload: Vec<u8>)
    ensures
        is_payload_for(file@, path@, payload@),
{
    match decode(file, path) {
        Some(picture) => payload_of_picture(file, &picture),
        None => file.clone(),
    }
}

/// Frames that follow the ladder can stand in an icon file.
pub proof fn lemma_ladder_frames_are_accepted(frames: Seq<FrameView>)
    requires
        follows_ladder(frames),
    ensures
        ico_accepts(frames),
{
    assert forall|i: int| 0 <= i < frames.len() implies 1 <= (#[trigger] frames[i]).width <= 256
        && 1 <= frames[i].height <= 256 by {
        lemma_ladder_frames_are_square(frames, i);
        let k = choose|k: int|
            0 <= k < ladder().len() && #[trigger] is_frame_of_size(frames[i], ladder()[k]);
    }
}

/// The icon data for a decoded picture: the icon file made of its ladder
/// frames, or the bytes of the file it came from where the icon file
/// would be longer than its offsets can address.
pub fn payload_of_picture(file: &Vec<u8>, picture: &Raster) -> (payload: Vec<u8>)
    requires
        picture.wf(),
    ensures
        is_payload_of_picture(picture@, file@, payload@),
{
    let icon = IconContainer::encode(picture);
    proof {
        lemma_ladder_frames_are_accepted(icon@);
    }
    let payload = match icon.to_bytes() {
        Some(bytes) => bytes,
        None => file.clone(),
    };
    assert(payload@ == ladder_payload(icon@, file@));
    payload
}

} // verus!
