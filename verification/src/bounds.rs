//! Pixel bounds of a frame and the layout of its RGBA buffer.
//!
//! A frame of `width` by `height` pixels is stored as `4 * width * height`
//! bytes: four bytes (red, green, blue, alpha) per pixel, rows from top to
//! bottom, pixels from left to right inside a row, no padding. A band is one
//! pixel row of that buffer.

use vstd::prelude::*;

verus! {

/// Bytes that one pixel occupies in a frame buffer.
pub const BYTES_PER_PIXEL: usize = 4;

/// Why a configuration was turned down.
#[derive(Clone, Copy, Debug, PartialEq, Eq, Structural)]
pub enum ConfigError {
    /// The frame would have no columns.
    ZeroWidth,
    /// The frame would have no rows.
    ZeroHeight,
    /// The frame's buffer length does not fit the machine's address range.
    TooLarge,
    /// The view rectangle is not oriented, is empty, or has an undefined corner.
    DegenerateView,
}

/// Width and height of a frame, in pixels.
#[derive(Clone, Copy, Debug, PartialEq, Eq, Structural)]
pub struct PixelBounds {
    pub width: usize,
    pub height: usize,
}

impl PixelBounds {
    /// A frame has at least one pixel, and its buffer length is a `usize`.
    pub open spec fn valid(&self) -> bool {
        &&& self.width >= 1
        &&& self.height >= 1
        &&& 4 * self.width * self.height <= usize::MAX
    }

    /// Number of pixels of the frame.
    pub open spec fn spec_pixel_count(&self) -> int {
        self.width * self.height
    }

    /// Number of bytes of the frame's buffer.
    pub open spec fn spec_buffer_len(&self) -> int {
        4 * self.width * self.height
    }

    /// Number of bytes of one band.
    pub open spec fn spec_band_len(&self) -> int {
        4 * self.width
    }

    /// Place in the buffer of the first byte of the pixel at `column`, `row`.
    pub open spec fn spec_offset(&self, column: int, row: int) -> int {
        4 * (row * self.width + column)
    }

    /// Place in the buffer of the first byte of band `row`.
    pub open spec fn spec_band_start(&self, row: int) -> int {
        4 * self.width * row
    }

    /// Makes bounds of a width and a height, or says why they are none.
    ///
    /// A zero width is reported before a zero height, and both before a
    /// buffer that would be too long.
    pub fn new(width: usize, height: usize) -> (result: Result<PixelBounds, ConfigError>)
        ensures
            result == if width == 0 {
                Err::<PixelBounds, ConfigError>(ConfigError::ZeroWidth)
            } else if height == 0 {
                Err(ConfigError::ZeroHeight)
            } else if 4 * width * height > usize::MAX {
                Err(ConfigError::TooLarge)
            } else {
                Ok(PixelBounds { width, height })
            },
            result is Ok <==> (PixelBounds { width, height }).valid(),
    {
        if width == 0 {
            return Err(ConfigError::ZeroWidth);
        }
        if height == 0 {
            return Err(ConfigError::ZeroHeight);
        }
        match width.checked_mul(height) {
            None => {
                proof {
                    lemma_scale_grows(width * height);
                    assert(4 * width * height == 4 * (width * height)) by (nonlinear_arith);
                }
                Err(ConfigError::TooLarge)
            },
            Some(pixels) => {
                assert(4 * width * height == 4 * pixels) by (nonlinear_arith)
                    requires
                        pixels == width * height,
                ;
                match pixels.checked_mul(BYTES_PER_PIXEL) {
                    None => Err(ConfigError::TooLarge),
                    Some(_) => Ok(PixelBounds { width, height }),
                }
            },
        }
    }

    /// Whether the frame has a pixel and a buffer length that is a `usize`.
    pub fn is_valid(&self) -> (r: bool)
        ensures
            r == self.valid(),
    {
        match PixelBounds::new(self.width, self.height) {
            Ok(_) => true,
            Err(_) => false,
        }
    }

    /// Number of pixels of the frame.
    pub fn pixel_count(&self) -> (count: usize)
        requires
            self.valid(),
        ensures
            count == self.spec_pixel_count(),
    {
        proof {
            lemma_frame_sizes(*self);
        }
        self.width * self.height
    }

    /// Number of bytes of the frame's buffer.
    pub fn buffer_len(&self) -> (len: usize)
        requires
            self.valid(),
        ensures
            len == self.spec_buffer_len(),
    {
        proof {
            lemma_frame_sizes(*self);
        }
        BYTES_PER_PIXEL * self.width * self.height
    }

    /// Number of bytes of one band.
    pub fn band_len(&self) -> (len: usize)
        requires
            self.valid(),
        ensures
            len == self.spec_band_len(),
    {
        proof {
            lemma_frame_sizes(*self);
        }
        BYTES_PER_PIXEL * self.width
    }

    /// Place in the buffer of the first byte of the pixel at `column`, `row`.
    pub fn offset(&self, column: usize, row: usize) -> (at: usize)
        requires
            self.valid(),
            column < self.width,
            row < self.height,
        ensures
            at == self.spec_offset(column as int, row as int),
            at + 4 <= self.spec_buffer_len(),
    {
        proof {
            lemma_pixel_inside(*self, column as int, row as int);
        }
        BYTES_PER_PIXEL * (row * self.width + column)
    }

    /// Bounds of a single band of this frame: the same width, one row.
    pub fn band_bounds(&self) -> (band: PixelBounds)
        requires
            self.valid(),
        ensures
            band == (PixelBounds { width: self.width, height: 1 }),
            band.valid(),
    {
        proof {
            lemma_frame_sizes(*self);
        }
        PixelBounds { width: self.width, height: 1 }
    }
}

/// Four times a natural number is no smaller than the number.
proof fn lemma_scale_grows(pixels: int)
    requires
        pixels >= 0,
    ensures
        4 * pixels >= pixels,
{
}

/// The sizes derived from valid bounds all fit below the buffer length.
pub proof fn lemma_frame_sizes(bounds: PixelBounds)
    requires
        bounds.valid(),
    ensures
        bounds.spec_pixel_count() >= 1,
        bounds.spec_buffer_len() == 4 * bounds.spec_pixel_count(),
        bounds.spec_buffer_len() == bounds.spec_band_len() * bounds.height,
        bounds.spec_pixel_count() <= bounds.spec_buffer_len() <= usize::MAX,
        4 <= bounds.spec_band_len() <= bounds.spec_buffer_len(),
        bounds.width <= bounds.spec_pixel_count(),
        bounds.height <= bounds.spec_pixel_count(),
{
    let w = bounds.width as int;
    let h = bounds.height as int;
    assert(4 * w * h == 4 * (w * h)) by (nonlinear_arith);
    assert(4 * w * h == (4 * w) * h) by (nonlinear_arith);
    assert(w * h >= w && w * h >= h && w * h >= 1) by (nonlinear_arith)
        requires
            w >= 1,
            h >= 1,
    ;
}

/// Every pixel of a frame lies wholly inside the frame's buffer.
pub proof fn lemma_pixel_inside(bounds: PixelBounds, column: int, row: int)
    requires
        bounds.valid(),
        0 <= column < bounds.width,
        0 <= row < bounds.height,
    ensures
        0 <= row * bounds.width + column < bounds.spec_pixel_count(),
        0 <= bounds.spec_offset(column, row),
        bounds.spec_offset(column, row) + 4 <= bounds.spec_buffer_len(),
        bounds.spec_offset(column, row) == bounds.spec_band_start(row) + 4 * column,
{
    let w = bounds.width as int;
    let h = bounds.height as int;
    lemma_frame_sizes(bounds);
    assert(row * w + column < w * h && row * w >= 0) by (nonlinear_arith)
        requires
            0 <= column < w,
            0 <= row < h,
    ;
    assert(4 * w * row == 4 * (row * w)) by (nonlinear_arith);
}

/// The bands of a frame tile its buffer: each lies inside it, two different
/// bands share no byte, and band `row + 1` starts where band `row` ends.
pub proof fn lemma_bands_disjoint(bounds: PixelBounds, first: int, second: int)
    requires
        bounds.valid(),
        0 <= first < bounds.height,
        0 <= second < bounds.height,
    ensures
        0 <= bounds.spec_band_start(first),
        bounds.spec_band_start(first) + bounds.spec_band_len() <= bounds.spec_buffer_len(),
        bounds.spec_band_start(first + 1) == bounds.spec_band_start(first)
            + bounds.spec_band_len(),
        first < second ==> bounds.spec_band_start(first) + bounds.spec_band_len()
            <= bounds.spec_band_start(second),
        second < first ==> bounds.spec_band_start(second) + bounds.spec_band_len()
            <= bounds.spec_band_start(first),
{
    let w = bounds.width as int;
    let h = bounds.height as int;
    lemma_frame_sizes(bounds);
    lemma_band_starts_ordered(w, first, second);
    lemma_band_starts_ordered(w, second, first);
    lemma_band_starts_ordered(w, first, h - 1);
    assert(4 * w * (h - 1) + 4 * w == 4 * w * h) by (nonlinear_arith);
    assert(4 * w * (first + 1) == 4 * w * first + 4 * w) by (nonlinear_arith);
    assert(4 * w * first >= 0) by (nonlinear_arith)
        requires
            w >= 0,
            first >= 0,
    ;
}

/// Band starts grow with the row, by at least one band length per row.
proof fn lemma_band_starts_ordered(width: int, low: int, high: int)
    requires
        width >= 0,
        0 <= low,
    ensures
        low < high ==> 4 * width * low + 4 * width <= 4 * width * high,
        low <= high ==> 4 * width * low <= 4 * width * high,
{
    assert(low < high ==> 4 * width * low + 4 * width <= 4 * width * high) by (nonlinear_arith)
        requires
            width >= 0,
            0 <= low,
    ;
    assert(low <= high ==> 4 * width * low <= 4 * width * high) by (nonlinear_arith)
        requires
            width >= 0,
            0 <= low,
    ;
}

} // verus!
