//! The bands of a frame can be drawn in any order.
//!
//! Drawing a band replaces that band's bytes of the buffer and leaves every
//! other byte alone. A schedule is a sequence of band rows, each drawn in
//! turn; rows may repeat. Whatever the buffer held at first, any schedule in
//! which every row of the frame occurs ends with the same buffer: the frame.
//! This is what lets the bands be handed to workers that run side by side.

use vstd::prelude::*;
use vstd::arithmetic::div_mod::{lemma_fundamental_div_mod, lemma_mod_bound};
use crate::bounds::{lemma_bands_disjoint, lemma_frame_sizes, PixelBounds};
use crate::color::Coloring;
use crate::render::{band_results, frame};

verus! {

/// `buffer` with the bytes from `start` on replaced by those of `band`.
pub open spec fn paste(buffer: Seq<u8>, start: int, band: Seq<u8>) -> Seq<u8> {
    Seq::new(
        buffer.len(),
        |k: int|
            if start <= k < start + band.len() {
                band[k - start]
            } else {
                buffer[k]
            },
    )
}

/// The bytes that drawing band `row` writes.
pub open spec fn band_bytes(
    bounds: PixelBounds,
    escapes: Seq<Option<u32>>,
    limit: u32,
    coloring: Coloring,
    row: int,
) -> Seq<u8> {
    frame(band_results(escapes, bounds.width as int, row), limit, coloring)
}

/// The buffer after the bands named by `schedule` were drawn, one after the
/// other, over `buffer`.
pub open spec fn bands_drawn(
    buffer: Seq<u8>,
    bounds: PixelBounds,
    escapes: Seq<Option<u32>>,
    limit: u32,
    coloring: Coloring,
    schedule: Seq<int>,
) -> Seq<u8>
    decreases schedule.len(),
{
    if schedule.len() == 0 {
        buffer
    } else {
        paste(
            bands_drawn(buffer, bounds, escapes, limit, coloring, schedule.drop_last()),
            bounds.spec_band_start(schedule.last()),
            band_bytes(bounds, escapes, limit, coloring, schedule.last()),
        )
    }
}

/// Every entry of the schedule is a row of the frame.
pub open spec fn schedule_in_frame(bounds: PixelBounds, schedule: Seq<int>) -> bool {
    forall|j: int| 0 <= j < schedule.len() ==> 0 <= #[trigger] schedule[j] < bounds.height
}

/// Every row of the frame occurs in the schedule.
pub open spec fn schedule_covers(bounds: PixelBounds, schedule: Seq<int>) -> bool {
    forall|row: int| 0 <= row < bounds.height ==> #[trigger] schedule.contains(row)
}

/// The bytes of a band depend on the results of its own row only: they are
/// the frame's bytes at the band's place.
pub proof fn lemma_band_of_frame(
    bounds: PixelBounds,
    escapes: Seq<Option<u32>>,
    limit: u32,
    coloring: Coloring,
    row: int,
)
    requires
        bounds.valid(),
        escapes.len() == bounds.spec_pixel_count(),
        0 <= row < bounds.height,
    ensures
        band_bytes(bounds, escapes, limit, coloring, row) == frame(
            escapes,
            limit,
            coloring,
        ).subrange(
            bounds.spec_band_start(row),
            bounds.spec_band_start(row) + bounds.spec_band_len(),
        ),
{
    let width = bounds.width as int;
    let first = row * width;
    lemma_frame_sizes(bounds);
    lemma_bands_disjoint(bounds, row, row);
    assert(4 * width * row == 4 * first) by (nonlinear_arith)
        requires
            first == row * width,
    ;
    assert((row + 1) * width == first + width) by (nonlinear_arith)
        requires
            first == row * width,
    ;
    let band = band_bytes(bounds, escapes, limit, coloring, row);
    let part = frame(escapes, limit, coloring).subrange(4 * first, 4 * first + 4 * width);
    assert(band.len() == part.len());
    assert forall|j: int| 0 <= j < band.len() implies band[j] == part[j] by {
        assert((4 * first + j) / 4 == first + j / 4);
        assert((4 * first + j) % 4 == j % 4);
        assert(band_results(escapes, width, row)[j / 4] == escapes[first + j / 4]);
    }
    assert(band =~= part);
}

/// What one byte of the buffer holds after a schedule: the frame's byte if
/// the byte's band was drawn, and what it held at first if not.
proof fn lemma_drawn_byte(
    buffer: Seq<u8>,
    bounds: PixelBounds,
    escapes: Seq<Option<u32>>,
    limit: u32,
    coloring: Coloring,
    schedule: Seq<int>,
    row: int,
    within: int,
)
    requires
        bounds.valid(),
        buffer.len() == bounds.spec_buffer_len(),
        escapes.len() == bounds.spec_pixel_count(),
        schedule_in_frame(bounds, schedule),
        0 <= row < bounds.height,
        0 <= within < bounds.spec_band_len(),
    ensures
        bands_drawn(buffer, bounds, escapes, limit, coloring, schedule).len() == buffer.len(),
        bands_drawn(buffer, bounds, escapes, limit, coloring, schedule)[bounds.spec_band_start(
            row,
        ) + within] == if schedule.contains(row) {
            frame(escapes, limit, coloring)[bounds.spec_band_start(row) + within]
        } else {
            buffer[bounds.spec_band_start(row) + within]
        },
    decreases schedule.len(),
{
    let place = bounds.spec_band_start(row) + within;
    let whole = frame(escapes, limit, coloring);
    lemma_frame_sizes(bounds);
    lemma_bands_disjoint(bounds, row, row);
    assert(whole.len() == bounds.spec_buffer_len()) by (nonlinear_arith)
        requires
            whole.len() == 4 * escapes.len(),
            escapes.len() == bounds.width * bounds.height,
            bounds.spec_buffer_len() == 4 * bounds.width * bounds.height,
    ;
    if schedule.len() == 0 {
        assert(!schedule.contains(row));
    } else {
        let earlier = schedule.drop_last();
        let last = schedule.last();
        let before = bands_drawn(buffer, bounds, escapes, limit, coloring, earlier);
        let band = band_bytes(bounds, escapes, limit, coloring, last);
        let start = bounds.spec_band_start(last);
        let drawn = bands_drawn(buffer, bounds, escapes, limit, coloring, schedule);
        assert(schedule[schedule.len() - 1] == last);
        assert forall|j: int| 0 <= j < earlier.len() implies 0 <= #[trigger] earlier[j]
            < bounds.height by {
            assert(earlier[j] == schedule[j]);
        }
        lemma_drawn_byte(buffer, bounds, escapes, limit, coloring, earlier, row, within);
        lemma_bands_disjoint(bounds, row, last);
        lemma_bands_disjoint(bounds, last, last);
        lemma_band_of_frame(bounds, escapes, limit, coloring, last);
        assert(drawn == paste(before, start, band));
        assert(band.len() == bounds.spec_band_len());
        assert(0 <= place < before.len());
        if last == row {
            assert(schedule.contains(row));
            assert(drawn[place] == band[within]);
            assert(band[within] == whole[start + within]);
        } else {
            assert(!(start <= place < start + band.len()));
            assert(drawn[place] == before[place]);
            if earlier.contains(row) {
                let j = choose|j: int| 0 <= j < earlier.len() && earlier[j] == row;
                assert(schedule[j] == row);
                assert(schedule.contains(row));
            }
            if schedule.contains(row) {
                let j = choose|j: int| 0 <= j < schedule.len() && schedule[j] == row;
                assert(earlier[j] == row);
                assert(earlier.contains(row));
            }
        }
    }
}

/// A schedule that names every row of the frame ends with the frame,
/// whatever the buffer held at first and in whatever order, and however
/// often, the rows are named.
pub proof fn lemma_band_order_is_free(
    buffer: Seq<u8>,
    bounds: PixelBounds,
    escapes: Seq<Option<u32>>,
    limit: u32,
    coloring: Coloring,
    schedule: Seq<int>,
)
    requires
        bounds.valid(),
        buffer.len() == bounds.spec_buffer_len(),
        escapes.len() == bounds.spec_pixel_count(),
        schedule_in_frame(bounds, schedule),
        schedule_covers(bounds, schedule),
    ensures
        bands_drawn(buffer, bounds, escapes, limit, coloring, schedule) == frame(
            escapes,
            limit,
            coloring,
        ),
{
    let drawn = bands_drawn(buffer, bounds, escapes, limit, coloring, schedule);
    let whole = frame(escapes, limit, coloring);
    let band_len = bounds.spec_band_len();
    lemma_frame_sizes(bounds);
    lemma_drawn_byte(buffer, bounds, escapes, limit, coloring, schedule, 0, 0);
    assert(whole.len() == bounds.spec_buffer_len()) by (nonlinear_arith)
        requires
            whole.len() == 4 * escapes.len(),
            escapes.len() == bounds.width * bounds.height,
            bounds.spec_buffer_len() == 4 * bounds.width * bounds.height,
    ;
    assert forall|k: int| 0 <= k < drawn.len() implies drawn[k] == whole[k] by {
        let row = k / band_len;
        let within = k % band_len;
        lemma_fundamental_div_mod(k, band_len);
        lemma_mod_bound(k, band_len);
        assert(0 <= row < bounds.height) by (nonlinear_arith)
            requires
                k == band_len * row + within,
                0 <= within < band_len,
                0 <= k < band_len * bounds.height,
        ;
        assert(bounds.spec_band_start(row) == band_len * row);
        assert(schedule.contains(row));
        lemma_drawn_byte(buffer, bounds, escapes, limit, coloring, schedule, row, within);
    }
    assert(drawn =~= whole);
}

} // verus!
