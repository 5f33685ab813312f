//! A decoded picture as plain values: its dimensions and its RGBA bytes.

use vstd::prelude::*;

verus! {

/// What a raster is to a specification.
pub struct RasterView {
    pub width: int,
    pub height: int,
    /// Four bytes per pixel (red, green, blue, alpha), rows from the top.
    pub pixels: Seq<u8>,
}

impl RasterView {
    /// Index of the first byte of the pixel at column `x` of row `y`.
    pub open spec fn pixel_offset(self, x: int, y: int) -> int {
        4 * (y * self.width + x)
    }

    /// One channel (0 red, 1 green, 2 blue, 3 alpha) of the pixel at `(x, y)`.
    pub open spec fn channel(self, x: int, y: int, c: int) -> u8 {
        self.pixels[self.pixel_offset(x, y) + c]
    }

    /// A pixel is transparent when its alpha is zero.
    pub open spec fn is_transparent(self, x: int, y: int) -> bool {
        self.channel(x, y, 3) == 0
    }

    /// The bytes are exactly those of `width * height` pixels.
    pub open spec fn wf(self) -> bool {
        self.width >= 0 && self.height >= 0 && self.pixels.len() == 4 * (self.width
            * self.height)
    }
}

/// An RGBA picture, eight bits per channel.
pub struct Raster {
    pub(crate) width: u32,
    pub(crate) height: u32,
    pub(crate) pixels: Vec<u8>,
}

impl View for Raster {
    type V = RasterView;

    closed spec fn view(&self) -> RasterView {
        RasterView { width: self.width as int, height: self.height as int, pixels: self.pixels@ }
    }
}

/// The offset of a pixel lies inside a well-formed raster, with room for
/// its four channels.
pub proof fn lemma_pixel_in_bounds(r: RasterView, x: int, y: int)
    requires
        r.wf(),
        0 <= x < r.width,
        0 <= y < r.height,
    ensures
        0 <= r.pixel_offset(x, y),
        r.pixel_offset(x, y) + 4 <= r.pixels.len(),
        0 <= y * r.width + x < r.width * r.height,
{
    assert(y * r.width + x >= 0) by (nonlinear_arith)
        requires
            0 <= x,
            0 <= y,
            0 <= r.width,
    ;
    assert(y * r.width + x < r.width * r.height) by (nonlinear_arith)
        requires
            0 <= x < r.width,
            0 <= y < r.height,
    ;
}

impl Raster {
    /// Well-formedness: the pixel bytes match the dimensions.
    pub open spec fn wf(&self) -> bool {
        self@.wf()
    }

    /// Makes a raster from its dimensions and bytes; `None` exactly when
    /// the number of bytes is not four per pixel.
    pub fn new(width: u32, height: u32, pixels: Vec<u8>) -> (r: Option<Raster>)
        ensures
            r is Some <==> pixels@.len() == 4 * (width * height),
            r matches Some(raster) ==> raster.wf() && raster@ == (RasterView {
                width: width as int,
                height: height as int,
                pixels: pixels@,
            }),
    {
        assert(width * height <= 0xffff_ffff * 0xffff_ffff) by (nonlinear_arith)
            requires
                0 <= width <= 0xffff_ffff,
                0 <= height <= 0xffff_ffff,
        ;
        let count: u64 = width as u64 * height as u64;
        let expected: u128 = 4 * (count as u128);
        if pixels.len() as u128 == expected {
            Some(Raster { width, height, pixels })
        } else {
            None
        }
    }

    /// Number of pixels in a row.
    pub fn width(&self) -> (w: u32)
        ensures
            w == self@.width,
    {
        self.width
    }

    /// Number of rows.
    pub fn height(&self) -> (h: u32)
        ensures
            h == self@.height,
    {
        self.height
    }

    /// The pixel bytes, four per pixel, rows from the top.
    pub fn pixels(&self) -> (p: &Vec<u8>)
        ensures
            p@ == self@.pixels,
    {
        &self.pixels
    }

    /// One channel of one pixel.
    pub fn channel(&self, x: u32, y: u32, c: usize) -> (v: u8)
        requires
            self.wf(),
            x < self@.width,
            y < self@.height,
            c < 4,
        ensures
            v == self@.channel(x as int, y as int, c as int),
    {
        proof {
            lemma_pixel_in_bounds(self@, x as int, y as int);
            assert(0 <= y * self.width <= y * self.width + x) by (nonlinear_arith)
                requires
                    0 <= x,
                    0 <= y,
                    0 <= self.width,
            ;
            assert(y * self.width + x < self.width * self.height);
            assert(4 * (self.width * self.height) == self.pixels.len());
        }
        let pixel: usize = y as usize * self.width as usize + x as usize;
        self.pixels[4 * pixel + c]
    }
}

} // verus!
