//! The raw bitmap frame of an icon: a bitmap-info header, the pixels
//! bottom row first in blue-green-red-alpha order, and a one-bit
//! transparency mask.

use vstd::prelude::*;
use crate::error::{EditError, ErrorKind};
use crate::raster::{lemma_pixel_in_bounds, Raster, RasterView};

verus! {

/// Size of the bitmap-info header.
pub const BITMAP_HEADER_SIZE: usize = 40;

/// Bytes in one row of the mask: one bit per pixel, padded to four bytes.
pub open spec fn mask_row_len(width: int) -> int {
    ((width + 31) / 32) * 4
}

/// The two bytes of a 16-bit value, low byte first.
pub open spec fn le_bytes_u16(v: int) -> Seq<u8> {
    seq![(v % 0x100) as u8, (v / 0x100 % 0x100) as u8]
}

/// The four bytes of a 32-bit value, low byte first.
pub open spec fn le_bytes_u32(v: int) -> Seq<u8> {
    seq![
        (v % 0x100) as u8,
        (v / 0x100 % 0x100) as u8,
        (v / 0x1_0000 % 0x100) as u8,
        (v / 0x100_0000 % 0x100) as u8,
    ]
}

/// The header: its own size, the width, twice the height (colour data and
/// mask together), one plane, 32 bits per pixel, no compression, and five
/// more fields that are zero.
pub open spec fn bitmap_header(width: int, height: int) -> Seq<u8> {
    le_bytes_u32(40) + le_bytes_u32(width) + le_bytes_u32(2 * height) + le_bytes_u16(1)
        + le_bytes_u16(32) + Seq::new(24, |i: int| 0u8)
}

/// The channel of the source pixel that goes to position `c` of a
/// blue-green-red-alpha pixel.
pub open spec fn source_channel(c: int) -> int {
    if c == 0 {
        2
    } else if c == 2 {
        0
    } else {
        c
    }
}

/// Row `y` of the picture as colour bytes.
pub open spec fn color_row(r: RasterView, y: int) -> Seq<u8> {
    Seq::new((4 * r.width) as nat, |k: int| r.channel(k / 4, y, source_channel(k % 4)))
}

/// The lowest `n` rows as colour bytes, the bottom row first.
pub open spec fn color_rows(r: RasterView, n: nat) -> Seq<u8>
    decreases n,
{
    if n == 0 {
        Seq::empty()
    } else {
        color_rows(r, (n - 1) as nat) + color_row(r, r.height - n)
    }
}

/// The value of bit `j` of a mask byte, counted from the highest bit.
pub open spec fn mask_weight(j: int) -> int {
    if j == 0 {
        128
    } else if j == 1 {
        64
    } else if j == 2 {
        32
    } else if j == 3 {
        16
    } else if j == 4 {
        8
    } else if j == 5 {
        4
    } else if j == 6 {
        2
    } else {
        1
    }
}

/// One if the pixel at `(x, y)` lies left of `limit` and is transparent.
pub open spec fn mask_term(r: RasterView, x: int, y: int, limit: int) -> int {
    if x < limit && r.is_transparent(x, y) {
        1
    } else {
        0
    }
}

/// Byte `b` of the mask of row `y`, with the pixels left of `limit` taken
/// into account: pixel `8 * b + j` sets the bit of weight `mask_weight(j)`
/// exactly when it is transparent.
pub open spec fn mask_byte(r: RasterView, y: int, b: int, limit: int) -> int {
    128 * mask_term(r, 8 * b, y, limit) + 64 * mask_term(r, 8 * b + 1, y, limit) + 32 * mask_term(
        r,
        8 * b + 2,
        y,
        limit,
    ) + 16 * mask_term(r, 8 * b + 3, y, limit) + 8 * mask_term(r, 8 * b + 4, y, limit) + 4
        * mask_term(r, 8 * b + 5, y, limit) + 2 * mask_term(r, 8 * b + 6, y, limit) + mask_term(
        r,
        8 * b + 7,
        y,
        limit,
    )
}

/// The mask of row `y`, padding included.
pub open spec fn mask_row(r: RasterView, y: int) -> Seq<u8> {
    Seq::new(mask_row_len(r.width) as nat, |b: int| mask_byte(r, y, b, r.width) as u8)
}

/// The masks of the lowest `n` rows, the bottom row first.
pub open spec fn mask_rows(r: RasterView, n: nat) -> Seq<u8>
    decreases n,
{
    if n == 0 {
        Seq::empty()
    } else {
        mask_rows(r, (n - 1) as nat) + mask_row(r, r.height - n)
    }
}

/// The whole frame: header, colour data, mask.
pub open spec fn bitmap_frame(r: RasterView) -> Seq<u8> {
    bitmap_header(r.width, r.height) + color_rows(r, r.height as nat) + mask_rows(
        r,
        r.height as nat,
    )
}

/// Number of bytes in the frame of a picture of the given size.
pub open spec fn bitmap_frame_len(width: int, height: int) -> int {
    BITMAP_HEADER_SIZE + 4 * (width * height) + mask_row_len(width) * height
}

/// Whether a picture can be written as a frame: the header holds the width
/// and twice the height as signed 32-bit values, and the frame's length
/// fits the machine.
pub open spec fn fits_bitmap_frame(width: int, height: int) -> bool {
    width <= i32::MAX && 2 * height <= i32::MAX && bitmap_frame_len(width, height) <= usize::MAX
}

/// Bit `j`, counted from the highest, of a byte.
pub open spec fn mask_bit(byte: int, j: int) -> int {
    (byte / mask_weight(j)) % 2
}

/// The length of a mask row is a multiple of four and covers the width.
pub proof fn lemma_mask_row_len(width: int)
    requires
        0 <= width,
    ensures
        mask_row_len(width) % 4 == 0,
        8 * mask_row_len(width) >= width,
        mask_row_len(width) >= 0,
{
}

/// Bytes in one row of the mask for a picture of the given width.
pub fn mask_row_bytes(width: u32) -> (n: usize)
    ensures
        n == mask_row_len(width as int),
        n == ((width + 31) / 32) * 4,
        n % 4 == 0,
{
    let words: u32 = width / 32 + if width % 32 == 0 {
        0
    } else {
        1
    };
    words as usize * 4
}


/// Appends the two bytes of a 16-bit value, low byte first.
fn push_u16_le(data: &mut Vec<u8>, v: u16)
    ensures
        final(data)@ == old(data)@ + le_bytes_u16(v as int),
{
    data.push((v % 0x100) as u8);
    data.push((v / 0x100) as u8);
    assert(data@ =~= old(data)@ + le_bytes_u16(v as int));
}

/// Appends the four bytes of a 32-bit value, low byte first.
fn push_u32_le(data: &mut Vec<u8>, v: u32)
    ensures
        final(data)@ == old(data)@ + le_bytes_u32(v as int),
{
    data.push((v % 0x100) as u8);
    data.push((v / 0x100 % 0x100) as u8);
    data.push((v / 0x1_0000 % 0x100) as u8);
    data.push((v / 0x100_0000) as u8);
    assert(data@ =~= old(data)@ + le_bytes_u32(v as int));
}

/// Appends the bitmap-info header.
fn push_header(data: &mut Vec<u8>, width: u32, height: u32)
    requires
        2 * height <= u32::MAX,
    ensures
        final(data)@ == old(data)@ + bitmap_header(width as int, height as int),
{
    push_u32_le(data, 40);
    push_u32_le(data, width);
    push_u32_le(data, 2 * height);
    push_u16_le(data, 1);
    push_u16_le(data, 32);
    let ghost before = data@;
    let mut k: usize = 0;
    while k < 24
        invariant
            k <= 24,
            data@ == before + Seq::new(k as nat, |i: int| 0u8),
        decreases 24 - k,
    {
        data.push(0);
        k += 1;
        assert(data@ =~= before + Seq::new(k as nat, |i: int| 0u8));
    }
    assert(data@ =~= old(data)@ + bitmap_header(width as int, height as int));
}

/// Appends row `y` as colour bytes.
fn push_color_row(data: &mut Vec<u8>, img: &Raster, y: u32)
    requires
        img.wf(),
        y < img@.height,
    ensures
        final(data)@ == old(data)@ + color_row(img@, y as int),
{
    let ghost row = color_row(img@, y as int);
    let width: u32 = img.width();
    let mut x: u32 = 0;
    while x < width
        invariant
            img.wf(),
            y < img@.height,
            width == img@.width,
            x <= width,
            row == color_row(img@, y as int),
            data@ == old(data)@ + row.subrange(0, 4 * x),
        decreases width - x,
    {
        let ghost before = data@;
        data.push(img.channel(x, y, 2));
        data.push(img.channel(x, y, 1));
        data.push(img.channel(x, y, 0));
        data.push(img.channel(x, y, 3));
        x += 1;
        assert(data@ =~= old(data)@ + row.subrange(0, 4 * x));
    }
    assert(row.subrange(0, 4 * x) =~= row);
}


/// Sets the bit of weight `mask_weight(j)` in a byte in which that bit and
/// all lower bits are clear.
fn with_mask_bit(byte: u8, j: u8) -> (r: u8)
    requires
        j < 8,
        byte as int % (2 * mask_weight(j as int)) == 0,
    ensures
        r == byte + mask_weight(j as int),
{
    let bit: u8 = 0x80u8 >> j;
    assert(2 * mask_weight(j as int) == (0x100u16 >> (j as u16))) by {
        assert(j < 8 ==> (0x100u16 >> (j as u16)) == (if j == 0 {
            256u16
        } else if j == 1 {
            128u16
        } else if j == 2 {
            64u16
        } else if j == 3 {
            32u16
        } else if j == 4 {
            16u16
        } else if j == 5 {
            8u16
        } else if j == 6 {
            4u16
        } else {
            2u16
        })) by (bit_vector);
    }
    assert(bit == mask_weight(j as int)) by {
        assert(j < 8 ==> (0x80u8 >> j) == (if j == 0 {
            128u8
        } else if j == 1 {
            64u8
        } else if j == 2 {
            32u8
        } else if j == 3 {
            16u8
        } else if j == 4 {
            8u8
        } else if j == 5 {
            4u8
        } else if j == 6 {
            2u8
        } else {
            1u8
        })) by (bit_vector);
    }
    let ghost span: int = 2 * mask_weight(j as int);
    let ghost low: u16 = span as u16;
    assert(byte as u16 % low == 0);
    assert(byte | bit == byte + bit) by (bit_vector)
        requires
            j < 8,
            bit == 0x80u8 >> j,
            low == 0x100u16 >> (j as u16),
            byte as u16 % low == 0,
    ;
    byte | bit
}


/// While only the pixels left of pixel `8 * b + j` count, the bit of that
/// pixel and all lower bits of byte `b` are clear.
proof fn lemma_mask_byte_low_bits_clear(r: RasterView, y: int, b: int, j: int)
    requires
        0 <= j < 8,
    ensures
        mask_byte(r, y, b, 8 * b + j) % (2 * mask_weight(j)) == 0,
        0 <= mask_byte(r, y, b, 8 * b + j) < 256,
{
    let limit = 8 * b + j;
    let t0 = mask_term(r, 8 * b, y, limit);
    let t1 = mask_term(r, 8 * b + 1, y, limit);
    let t2 = mask_term(r, 8 * b + 2, y, limit);
    let t3 = mask_term(r, 8 * b + 3, y, limit);
    let t4 = mask_term(r, 8 * b + 4, y, limit);
    let t5 = mask_term(r, 8 * b + 5, y, limit);
    let t6 = mask_term(r, 8 * b + 6, y, limit);
    let value = mask_byte(r, y, b, limit);
    if j == 0 {
        assert(value == 0);
    } else if j == 1 {
        assert(value == t0 * 128);
        vstd::arithmetic::div_mod::lemma_mod_multiples_basic(t0, 128);
    } else if j == 2 {
        assert(value == (2 * t0 + t1) * 64);
        vstd::arithmetic::div_mod::lemma_mod_multiples_basic(2 * t0 + t1, 64);
    } else if j == 3 {
        assert(value == (4 * t0 + 2 * t1 + t2) * 32);
        vstd::arithmetic::div_mod::lemma_mod_multiples_basic(4 * t0 + 2 * t1 + t2, 32);
    } else if j == 4 {
        assert(value == (8 * t0 + 4 * t1 + 2 * t2 + t3) * 16);
        vstd::arithmetic::div_mod::lemma_mod_multiples_basic(8 * t0 + 4 * t1 + 2 * t2 + t3, 16);
    } else if j == 5 {
        assert(value == (16 * t0 + 8 * t1 + 4 * t2 + 2 * t3 + t4) * 8);
        vstd::arithmetic::div_mod::lemma_mod_multiples_basic(
            16 * t0 + 8 * t1 + 4 * t2 + 2 * t3 + t4,
            8,
        );
    } else if j == 6 {
        assert(value == (32 * t0 + 16 * t1 + 8 * t2 + 4 * t3 + 2 * t4 + t5) * 4);
        vstd::arithmetic::div_mod::lemma_mod_multiples_basic(
            32 * t0 + 16 * t1 + 8 * t2 + 4 * t3 + 2 * t4 + t5,
            4,
        );
    } else {
        assert(value == (64 * t0 + 32 * t1 + 16 * t2 + 8 * t3 + 4 * t4 + 2 * t5 + t6) * 2);
        vstd::arithmetic::div_mod::lemma_mod_multiples_basic(
            64 * t0 + 32 * t1 + 16 * t2 + 8 * t3 + 4 * t4 + 2 * t5 + t6,
            2,
        );
    }
}

/// Appends the mask of row `y`, padding included.
fn push_mask_row(data: &mut Vec<u8>, img: &Raster, y: u32)
    requires
        img.wf(),
        y < img@.height,
    ensures
        final(data)@ == old(data)@ + mask_row(img@, y as int),
{
    let width: u32 = img.width();
    let row_len: usize = mask_row_bytes(width);
    let mut row: Vec<u8> = Vec::new();
    while row.len() < row_len
        invariant
            row.len() <= row_len,
            forall|b: int| 0 <= b < row.len() ==> row@[b] == 0,
        decreases row_len - row.len(),
    {
        row.push(0);
    }
    let mut x: u32 = 0;
    while x < width
        invariant
            img.wf(),
            y < img@.height,
            width == img@.width,
            x <= width,
            row.len() == row_len,
            row_len == mask_row_len(width as int),
            forall|b: int|
                0 <= b < row_len ==> #[trigger] row@[b] == mask_byte(img@, y as int, b, x as int),
        decreases width - x,
    {
        let at: usize = (x / 8) as usize;
        let j: u8 = (x % 8) as u8;
        let ghost before = row@;
        if img.channel(x, y, 3) == 0 {
            let byte: u8 = row[at];
            proof {
                lemma_mask_byte_low_bits_clear(img@, y as int, at as int, j as int);
            }
            row.set(at, with_mask_bit(byte, j));
        }
        assert forall|b: int| 0 <= b < row_len implies #[trigger] row@[b] == mask_byte(
            img@,
            y as int,
            b,
            x + 1,
        ) by {
            assert(before[b] == mask_byte(img@, y as int, b, x as int));
        }
        x += 1;
    }
    assert(row@ =~= mask_row(img@, y as int));
    data.append(&mut row);
}


/// Whether a picture of the given size can be written as a frame.
pub fn can_hold_bitmap_frame(width: u32, height: u32) -> (ok: bool)
    ensures
        ok == fits_bitmap_frame(width as int, height as int),
{
    if width > 0x7fff_ffff || height > 0x3fff_ffff {
        return false;
    }
    assert(width * height <= 0x7fff_ffff * 0x3fff_ffff) by (nonlinear_arith)
        requires
            0 <= width <= 0x7fff_ffff,
            0 <= height <= 0x3fff_ffff,
    ;
    let row_len: usize = mask_row_bytes(width);
    assert(row_len * height <= 0x1000_0000 * 0x3fff_ffff) by (nonlinear_arith)
        requires
            0 <= row_len <= 0x1000_0000,
            0 <= height <= 0x3fff_ffff,
    ;
    let colors: u128 = 4 * (width as u128 * height as u128);
    let mask: u128 = row_len as u128 * height as u128;
    40 + colors + mask <= usize::MAX as u128
}

/// Builds the raw bitmap frame of a picture: the header, the pixels bottom
/// row first as blue, green, red, alpha, then the transparency mask bottom
/// row first. Fails, with an icon error, exactly on the pictures that no
/// frame can hold.
pub fn create_ico_bmp_data(img: &Raster) -> (r: Result<Vec<u8>, EditError>)
    requires
        img.wf(),
    ensures
        match r {
            Ok(data) => fits_bitmap_frame(img@.width, img@.height) && data@ == bitmap_frame(img@),
            Err(e) => !fits_bitmap_frame(img@.width, img@.height) && e.kind
                == ErrorKind::IconError && e.context@
                == "picture is too large for a bitmap frame"@,
        },
{
    let width: u32 = img.width();
    let height: u32 = img.height();
    if !can_hold_bitmap_frame(width, height) {
        return Err(EditError::new(ErrorKind::IconError, "picture is too large for a bitmap frame"));
    }
    let mut data: Vec<u8> = Vec::new();
    push_header(&mut data, width, height);
    let ghost header = data@;
    let mut n: u32 = 0;
    while n < height
        invariant
            img.wf(),
            width == img@.width,
            height == img@.height,
            n <= height,
            data@ == header + color_rows(img@, n as nat),
        decreases height - n,
    {
        push_color_row(&mut data, img, height - 1 - n);
        n += 1;
        assert(data@ =~= header + color_rows(img@, n as nat));
    }
    let ghost colors = data@;
    let mut m: u32 = 0;
    while m < height
        invariant
            img.wf(),
            height == img@.height,
            m <= height,
            data@ == colors + mask_rows(img@, m as nat),
        decreases height - m,
    {
        push_mask_row(&mut data, img, height - 1 - m);
        m += 1;
        assert(data@ =~= colors + mask_rows(img@, m as nat));
    }
    assert(data@ =~= bitmap_frame(img@));
    Ok(data)
}


/// The lowest `n` rows take `n` times the bytes of one row, and row number
/// `row` from the bottom stands at `row` times that many bytes.
pub proof fn lemma_color_rows(r: RasterView, n: nat, row: int, k: int)
    requires
        0 <= r.width,
        0 <= row < n,
        0 <= k < 4 * r.width,
    ensures
        color_rows(r, n).len() == n * (4 * r.width),
        0 <= row * (4 * r.width) + k < color_rows(r, n).len(),
        color_rows(r, n)[row * (4 * r.width) + k] == color_row(r, r.height - 1 - row)[k],
    decreases n,
{
    let len = 4 * r.width;
    lemma_color_rows_len(r, n);
    lemma_color_rows_len(r, (n - 1) as nat);
    assert(n * len == (n - 1) * len + len) by (nonlinear_arith);
    assert(0 <= row * len <= (n - 1) * len) by (nonlinear_arith)
        requires
            0 <= row <= n - 1,
            0 <= len,
    ;
    if row == n - 1 {
    } else {
        assert(row * len + len <= (n - 1) * len) by (nonlinear_arith)
            requires
                0 <= row < n - 1,
                0 <= len,
        ;
        lemma_color_rows(r, (n - 1) as nat, row, k);
    }
}

/// The lowest `n` rows take `n` times the bytes of one row.
pub proof fn lemma_color_rows_len(r: RasterView, n: nat)
    requires
        0 <= r.width,
    ensures
        color_rows(r, n).len() == n * (4 * r.width),
    decreases n,
{
    if n > 0 {
        lemma_color_rows_len(r, (n - 1) as nat);
        assert(n * (4 * r.width) == (n - 1) * (4 * r.width) + 4 * r.width) by (nonlinear_arith);
    } else {
        assert(n * (4 * r.width) == 0) by (nonlinear_arith)
            requires
                n == 0,
        ;
    }
}

/// The masks of the lowest `n` rows take `n` times the bytes of one mask row.
pub proof fn lemma_mask_rows_len(r: RasterView, n: nat)
    requires
        0 <= r.width,
    ensures
        mask_rows(r, n).len() == n * mask_row_len(r.width),
    decreases n,
{
    if n > 0 {
        lemma_mask_rows_len(r, (n - 1) as nat);
        assert(n * mask_row_len(r.width) == (n - 1) * mask_row_len(r.width) + mask_row_len(
            r.width,
        )) by (nonlinear_arith);
    } else {
        assert(n * mask_row_len(r.width) == 0) by (nonlinear_arith)
            requires
                n == 0,
        ;
    }
}

/// The mask of row number `row` from the bottom stands at `row` times the
/// bytes of one mask row.
pub proof fn lemma_mask_rows(r: RasterView, n: nat, row: int, b: int)
    requires
        0 <= r.width,
        0 <= row < n,
        0 <= b < mask_row_len(r.width),
    ensures
        mask_rows(r, n).len() == n * mask_row_len(r.width),
        0 <= row * mask_row_len(r.width) + b < mask_rows(r, n).len(),
        mask_rows(r, n)[row * mask_row_len(r.width) + b] == mask_row(r, r.height - 1 - row)[b],
    decreases n,
{
    let len = mask_row_len(r.width);
    lemma_mask_rows_len(r, n);
    lemma_mask_rows_len(r, (n - 1) as nat);
    assert(n * len == (n - 1) * len + len) by (nonlinear_arith);
    assert(0 <= row * len <= (n - 1) * len) by (nonlinear_arith)
        requires
            0 <= row <= n - 1,
            0 <= len,
    ;
    if row == n - 1 {
    } else {
        assert(row * len + len <= (n - 1) * len) by (nonlinear_arith)
            requires
                0 <= row < n - 1,
                0 <= len,
        ;
        lemma_mask_rows(r, (n - 1) as nat, row, b);
    }
}

/// The frame of a picture has the length that its size gives.
pub proof fn lemma_frame_len(r: RasterView)
    requires
        0 <= r.width,
        0 <= r.height,
    ensures
        bitmap_frame(r).len() == bitmap_frame_len(r.width, r.height),
{
    lemma_color_rows_len(r, r.height as nat);
    lemma_mask_rows_len(r, r.height as nat);
    assert(r.height * (4 * r.width) == 4 * (r.width * r.height)) by (nonlinear_arith);
    assert(r.height * mask_row_len(r.width) == mask_row_len(r.width) * r.height)
        by (nonlinear_arith);
}

/// Where the colour bytes stand: position `c` of the pixel at `(x, y)`
/// follows the header at four bytes per pixel, rows counted from the
/// bottom, and holds blue, green, red, alpha for `c` from 0 to 3.
pub proof fn lemma_frame_color_byte(r: RasterView, x: int, y: int, c: int)
    requires
        r.wf(),
        0 <= x < r.width,
        0 <= y < r.height,
        0 <= c < 4,
    ensures
        bitmap_frame(r)[BITMAP_HEADER_SIZE + 4 * ((r.height - 1 - y) * r.width + x) + c]
            == r.channel(x, y, source_channel(c)),
{
    let row = r.height - 1 - y;
    lemma_color_rows(r, r.height as nat, row, 4 * x + c);
    assert(row * (4 * r.width) + (4 * x + c) == 4 * (row * r.width + x) + c)
        by (nonlinear_arith);
}

/// Transparency in the mask: the bit that belongs to the pixel at
/// `(x, y)` is one exactly when the pixel's alpha is zero. The bit is in
/// byte `x / 8` of the row's mask, `x % 8` places below the highest bit;
/// mask rows follow the colour data, bottom row first.
pub proof fn lemma_frame_mask_bit(r: RasterView, x: int, y: int)
    requires
        r.wf(),
        0 <= x < r.width,
        0 <= y < r.height,
    ensures
        mask_bit(
            bitmap_frame(r)[BITMAP_HEADER_SIZE + 4 * (r.width * r.height) + (r.height - 1 - y)
                * mask_row_len(r.width) + x / 8] as int,
            x % 8,
        ) == (if r.is_transparent(x, y) {
            1int
        } else {
            0int
        }),
{
    let row = r.height - 1 - y;
    let b = x / 8;
    lemma_mask_row_len(r.width);
    lemma_color_rows_len(r, r.height as nat);
    lemma_mask_rows(r, r.height as nat, row, b);
    assert(r.height * (4 * r.width) == 4 * (r.width * r.height)) by (nonlinear_arith);
    let byte = mask_byte(r, y, b, r.width);
    lemma_mask_byte_bit(r, y, b, x % 8, r.width);
}

/// Bit `j` of a mask byte is the term of pixel `8 * b + j`.
pub proof fn lemma_mask_byte_bit(r: RasterView, y: int, b: int, j: int, limit: int)
    requires
        0 <= j < 8,
    ensures
        0 <= mask_byte(r, y, b, limit) < 256,
        mask_bit(mask_byte(r, y, b, limit), j) == mask_term(r, 8 * b + j, y, limit),
{
}

} // verus!
