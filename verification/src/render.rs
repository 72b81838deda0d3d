//! The tile renderer and the render orchestrator.
//!
//! The escape-time results of a frame come in as one value per pixel, rows
//! from top to bottom. `render` fills a block of rows, `draw_image` makes a
//! fresh buffer and fills it one band after the other. What the finished
//! buffer holds is `frame`, a function of the results, the budget and the
//! colouring alone.

use vstd::prelude::*;
use vstd::arithmetic::div_mod::{lemma_fundamental_div_mod, lemma_mod_bound};
use vstd::slice::slice_subrange;
use crate::bounds::{lemma_frame_sizes, lemma_pixel_inside, PixelBounds};
use crate::color::{all_in_budget, in_budget, results_in_budget, Coloring, Rgba};

verus! {

/// Why a frame was not drawn.
#[derive(Clone, Copy, Debug, PartialEq, Eq, Structural)]
pub enum RenderError {
    /// The bounds have no pixel, or their buffer would be too long.
    InvalidBounds,
    /// The iteration budget is zero.
    ZeroBudget,
    /// There is not exactly one escape-time result for each pixel.
    ResultCount,
    /// The gradient does not have one shade for each tone of the budget.
    ShadeCount,
    /// A result names an escape step that the budget does not reach.
    StepBeyondBudget,
}

/// The bytes of the pixels whose escape-time results are `escapes`, in
/// order: four bytes for each result, the colour that the colouring gives
/// it.
pub open spec fn frame(escapes: Seq<Option<u32>>, limit: u32, coloring: Coloring) -> Seq<u8> {
    Seq::new(
        (4 * escapes.len()) as nat,
        |k: int| coloring.spec_color(escapes[k / 4], limit).channel(k % 4),
    )
}

/// The results of band `row` of a frame `width` pixels wide.
pub open spec fn band_results(escapes: Seq<Option<u32>>, width: int, row: int) -> Seq<
    Option<u32>,
> {
    escapes.subrange(row * width, (row + 1) * width)
}

/// Fills a block of rows with the colours of its escape-time results.
///
/// `pixels` is the block's part of the buffer, `bounds` its width and its
/// number of rows, and `escapes` holds one result for each of its pixels.
/// Nothing outside `pixels` is read or written.
pub fn render(
    time_limit: u32,
    pixels: &mut [u8],
    bounds: PixelBounds,
    escapes: &[Option<u32>],
    coloring: &Coloring,
)
    requires
        time_limit >= 1,
        bounds.valid(),
        old(pixels)@.len() == bounds.spec_buffer_len(),
        escapes@.len() == bounds.spec_pixel_count(),
        all_in_budget(escapes@, time_limit),
        coloring.fits(time_limit),
    ensures
        final(pixels)@ == frame(escapes@, time_limit, *coloring),
{
    proof {
        lemma_frame_sizes(bounds);
    }
    let mut row: usize = 0;
    while row < bounds.height
        invariant
            bounds.valid(),
            row <= bounds.height,
            pixels@.len() == bounds.spec_buffer_len(),
            escapes@.len() == bounds.spec_pixel_count(),
            all_in_budget(escapes@, time_limit),
            coloring.fits(time_limit),
            forall|k: int|
                0 <= k < 4 * (row * bounds.width) ==> pixels@[k] == frame(
                    escapes@,
                    time_limit,
                    *coloring,
                )[k],
        decreases bounds.height - row,
    {
        let mut column: usize = 0;
        while column < bounds.width
            invariant
                bounds.valid(),
                row < bounds.height,
                column <= bounds.width,
                pixels@.len() == bounds.spec_buffer_len(),
                escapes@.len() == bounds.spec_pixel_count(),
                all_in_budget(escapes@, time_limit),
                coloring.fits(time_limit),
                forall|k: int|
                    0 <= k < 4 * (row * bounds.width + column) ==> pixels@[k] == frame(
                        escapes@,
                        time_limit,
                        *coloring,
                    )[k],
            decreases bounds.width - column,
        {
            proof {
                lemma_pixel_inside(bounds, column as int, row as int);
            }
            let base: usize = bounds.offset(column, row);
            let result: Option<u32> = escapes[row * bounds.width + column];
            let color: Rgba = coloring.color(result, time_limit);
            pixels[base] = color.red;
            pixels[base + 1] = color.green;
            pixels[base + 2] = color.blue;
            pixels[base + 3] = color.alpha;
            column += 1;
        }
        proof {
            assert(row * bounds.width + bounds.width == (row + 1) * bounds.width)
                by (nonlinear_arith);
        }
        row += 1;
    }
    proof {
        assert(4 * (bounds.height * bounds.width) == bounds.spec_buffer_len())
            by (nonlinear_arith);
        assert(pixels@ =~= frame(escapes@, time_limit, *coloring));
    }
}

/// The reason, if there is one, for which a frame is not drawn. The
/// reasons are tried in a fixed order and the first that applies is given.
pub open spec fn refusal(
    time_limit: u32,
    bounds: PixelBounds,
    escapes: Seq<Option<u32>>,
    coloring: Coloring,
) -> Option<RenderError> {
    if !bounds.valid() {
        Some(RenderError::InvalidBounds)
    } else if time_limit == 0 {
        Some(RenderError::ZeroBudget)
    } else if escapes.len() != bounds.spec_pixel_count() {
        Some(RenderError::ResultCount)
    } else if !coloring.fits(time_limit) {
        Some(RenderError::ShadeCount)
    } else if !all_in_budget(escapes, time_limit) {
        Some(RenderError::StepBeyondBudget)
    } else {
        None
    }
}

/// Draws a whole frame into a fresh buffer.
///
/// The buffer is cut into one band for each pixel row, and each band is
/// filled by `render` from the results of its own row. The bands share no
/// byte, so filling them needs no order; here they are filled from top to
/// bottom.
pub fn draw_image(
    time_limit: u32,
    bounds: PixelBounds,
    escapes: &[Option<u32>],
    coloring: &Coloring,
) -> (result: Result<Vec<u8>, RenderError>)
    ensures
        match refusal(time_limit, bounds, escapes@, *coloring) {
            Some(reason) => result == Err::<Vec<u8>, RenderError>(reason),
            None => result matches Ok(buffer) && buffer@ == frame(
                escapes@,
                time_limit,
                *coloring,
            ),
        },
{
    if !bounds.is_valid() {
        return Err(RenderError::InvalidBounds);
    }
    if time_limit == 0 {
        return Err(RenderError::ZeroBudget);
    }
    if escapes.len() != bounds.pixel_count() {
        return Err(RenderError::ResultCount);
    }
    if !coloring.serves(time_limit) {
        return Err(RenderError::ShadeCount);
    }
    if !results_in_budget(escapes, time_limit) {
        return Err(RenderError::StepBeyondBudget);
    }
    proof {
        lemma_frame_sizes(bounds);
    }
    let width: usize = bounds.width;
    let band_bounds: PixelBounds = bounds.band_bounds();
    let band_len: usize = bounds.band_len();
    let mut pixels: Vec<u8> = vec![0u8; bounds.buffer_len()];
    let mut rest: &mut [u8] = pixels.as_mut_slice();
    let mut top: usize = 0;
    let ghost mut done: Seq<u8> = Seq::empty();
    assert(escapes@.subrange(0, 0) =~= Seq::<Option<u32>>::empty());
    assert(rest@.len() == (bounds.height - 0) * band_len) by (nonlinear_arith)
        requires
            rest@.len() == band_len * bounds.height,
    ;
    assert(frame(Seq::<Option<u32>>::empty(), time_limit, *coloring) =~= Seq::<u8>::empty());
    while top < bounds.height
        invariant
            time_limit >= 1,
            bounds.valid(),
            width == bounds.width,
            band_bounds == (PixelBounds { width, height: 1 }),
            band_bounds.valid(),
            band_len == 4 * width,
            top <= bounds.height,
            top * width <= escapes@.len(),
            escapes@.len() == bounds.spec_pixel_count(),
            all_in_budget(escapes@, time_limit),
            coloring.fits(time_limit),
            rest@.len() == (bounds.height - top) * band_len,
            done == frame(escapes@.subrange(0, top * width), time_limit, *coloring),
            after_borrow(pixels)@ == done + final(rest)@,
        decreases bounds.height - top,
    {
        proof {
            lemma_pixel_inside(bounds, 0, top as int);
            assert((bounds.height - top) * band_len >= band_len) by (nonlinear_arith)
                requires
                    top < bounds.height,
            ;
            assert((bounds.height - top) * band_len - band_len == (bounds.height - (top + 1))
                * band_len) by (nonlinear_arith);
            assert((top + 1) * width == top * width + width) by (nonlinear_arith);
            assert((top + 1) * width <= bounds.height * width) by (nonlinear_arith)
                requires
                    top < bounds.height,
            ;
        }
        let (band, tail) = rest.split_at_mut(band_len);
        let first: usize = top * width;
        let row_results: &[Option<u32>] = slice_subrange(escapes, first, first + width);
        proof {
            assert(band_bounds.spec_buffer_len() == band_len) by (nonlinear_arith)
                requires
                    band_bounds == (PixelBounds { width, height: 1 }),
                    band_len == 4 * width,
            ;
            assert(band_bounds.spec_pixel_count() == width) by (nonlinear_arith)
                requires
                    band_bounds == (PixelBounds { width, height: 1 }),
            ;
            assert forall|k: int| 0 <= k < row_results@.len() implies in_budget(
                #[trigger] row_results@[k],
                time_limit,
            ) by {
                assert(row_results@[k] == escapes@[first + k]);
            }
        }
        render(time_limit, band, band_bounds, row_results, coloring);
        proof {
            lemma_frame_concat(
                escapes@.subrange(0, first as int),
                row_results@,
                time_limit,
                *coloring,
            );
            assert(escapes@.subrange(0, first as int) + row_results@ =~= escapes@.subrange(
                0,
                (top + 1) * width,
            ));
            done = done + band@;
        }
        rest = tail;
        top += 1;
    }
    proof {
        assert(escapes@.subrange(0, bounds.height * width) =~= escapes@) by {
            assert(bounds.height * width == width * bounds.height) by (nonlinear_arith);
        }
        assert(rest@.len() == 0) by (nonlinear_arith)
            requires
                rest@.len() == (bounds.height - top) * band_len,
                top == bounds.height,
        ;
        assert(done + rest@ =~= done);
    }
    Ok(pixels)
}

/// The bytes of two runs of pixels, one after the other, are the bytes of
/// the first followed by the bytes of the second.
pub proof fn lemma_frame_concat(
    head: Seq<Option<u32>>,
    tail: Seq<Option<u32>>,
    limit: u32,
    coloring: Coloring,
)
    ensures
        frame(head + tail, limit, coloring) == frame(head, limit, coloring) + frame(
            tail,
            limit,
            coloring,
        ),
{
    let whole = frame(head + tail, limit, coloring);
    let joined = frame(head, limit, coloring) + frame(tail, limit, coloring);
    assert(whole.len() == joined.len());
    assert forall|k: int| 0 <= k < whole.len() implies whole[k] == joined[k] by {
        if k < 4 * head.len() {
            assert((head + tail)[k / 4] == head[k / 4]);
        } else {
            let shifted = k - 4 * head.len();
            assert(shifted / 4 == k / 4 - head.len());
            assert(shifted % 4 == k % 4);
            assert((head + tail)[k / 4] == tail[shifted / 4]);
        }
    }
    assert(whole =~= joined);
}

/// The byte of `buffer` that holds channel `channel` of the pixel at
/// `column`, `row`.
pub open spec fn byte_at(
    buffer: Seq<u8>,
    bounds: PixelBounds,
    column: int,
    row: int,
    channel: int,
) -> u8 {
    buffer[bounds.spec_offset(column, row) + channel]
}

/// `buffer` shows the frame: it has the frame's length, and the four bytes
/// of each pixel are the colour of that pixel's escape-time result, rows
/// from top to bottom and pixels from left to right.
pub open spec fn shows(
    buffer: Seq<u8>,
    bounds: PixelBounds,
    escapes: Seq<Option<u32>>,
    limit: u32,
    coloring: Coloring,
) -> bool {
    &&& buffer.len() == bounds.spec_buffer_len()
    &&& forall|column: int, row: int, channel: int|
        0 <= column < bounds.width && 0 <= row < bounds.height && 0 <= channel < 4
            ==> #[trigger] byte_at(buffer, bounds, column, row, channel)
            == coloring.spec_color(escapes[row * bounds.width + column], limit).channel(channel)
}

/// What `draw_image` returns shows the frame, pixel by pixel.
pub proof fn lemma_frame_shows(
    bounds: PixelBounds,
    escapes: Seq<Option<u32>>,
    limit: u32,
    coloring: Coloring,
)
    requires
        bounds.valid(),
        escapes.len() == bounds.spec_pixel_count(),
    ensures
        shows(frame(escapes, limit, coloring), bounds, escapes, limit, coloring),
{
    let whole = frame(escapes, limit, coloring);
    lemma_frame_sizes(bounds);
    assert forall|column: int, row: int, channel: int|
        0 <= column < bounds.width && 0 <= row < bounds.height && 0 <= channel < 4 implies
        #[trigger] byte_at(whole, bounds, column, row, channel) == coloring.spec_color(
        escapes[row * bounds.width + column],
        limit,
    ).channel(channel) by {
        lemma_pixel_inside(bounds, column, row);
        let pixel = row * bounds.width + column;
        assert((4 * pixel + channel) / 4 == pixel);
        assert((4 * pixel + channel) % 4 == channel);
    }
}

/// Only one buffer shows a frame. So drawing the same results with the same
/// budget and colouring twice gives the same bytes.
pub proof fn lemma_rendering_is_deterministic(
    first: Seq<u8>,
    second: Seq<u8>,
    bounds: PixelBounds,
    escapes: Seq<Option<u32>>,
    limit: u32,
    coloring: Coloring,
)
    requires
        bounds.valid(),
        escapes.len() == bounds.spec_pixel_count(),
        shows(first, bounds, escapes, limit, coloring),
        shows(second, bounds, escapes, limit, coloring),
    ensures
        first == second,
        first == frame(escapes, limit, coloring),
{
    let width = bounds.width as int;
    lemma_frame_sizes(bounds);
    lemma_frame_shows(bounds, escapes, limit, coloring);
    let whole = frame(escapes, limit, coloring);
    assert forall|k: int| 0 <= k < first.len() implies first[k] == whole[k] && second[k]
        == whole[k] by {
        let pixel = k / 4;
        let channel = k % 4;
        let row = pixel / width;
        let column = pixel % width;
        lemma_fundamental_div_mod(pixel, width);
        lemma_mod_bound(pixel, width);
        assert(0 <= row < bounds.height) by (nonlinear_arith)
            requires
                pixel == width * row + column,
                0 <= column < width,
                0 <= pixel < width * bounds.height,
        ;
        assert(row * width + column == pixel) by (nonlinear_arith)
            requires
                pixel == width * row + column,
        ;
        assert(bounds.spec_offset(column, row) + channel == k);
        assert(byte_at(first, bounds, column, row, channel) == first[k]);
        assert(byte_at(second, bounds, column, row, channel) == second[k]);
        assert(byte_at(whole, bounds, column, row, channel) == whole[k]);
    }
    assert(first =~= whole);
    assert(second =~= whole);
}

} // verus!
