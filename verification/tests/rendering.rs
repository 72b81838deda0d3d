use mandelbrot::color::inside;
use mandelbrot::{draw_image, render, Coloring, PixelBounds, RenderError, Rgb};

fn shades(limit: u32) -> Vec<Rgb> {
    (1..=limit)
        .map(|tone| Rgb { red: tone as u8, green: (tone + 100) as u8, blue: (tone + 200) as u8 })
        .collect()
}

fn results(bounds: PixelBounds, limit: u32) -> Vec<Option<u32>> {
    (0..bounds.width * bounds.height)
        .map(|pixel| if pixel % 3 == 0 { None } else { Some((pixel as u32 * 7) % limit) })
        .collect()
}

#[test]
fn draws_a_small_gradient_frame() {
    let bounds = PixelBounds::new(2, 2).unwrap();
    let escapes = [Some(0), None, Some(3), Some(1)];
    let buffer = draw_image(4, bounds, &escapes, &Coloring::Gradient(shades(4))).unwrap();
    assert_eq!(
        buffer,
        vec![4, 104, 204, 255, 0, 0, 0, 255, 1, 101, 201, 255, 3, 103, 203, 255]
    );
}

#[test]
fn draws_a_small_grayscale_frame() {
    let bounds = PixelBounds::new(3, 1).unwrap();
    let escapes = [Some(5), None, Some(300)];
    let buffer = draw_image(1000, bounds, &escapes, &Coloring::Grayscale).unwrap();
    assert_eq!(buffer, vec![255, 255, 255, 5, 0, 0, 0, 255, 255, 255, 255, 255]);
}

#[test]
fn buffer_has_four_bytes_for_each_pixel() {
    let bounds = PixelBounds::new(17, 9).unwrap();
    let buffer = draw_image(50, bounds, &results(bounds, 50), &Coloring::Grayscale).unwrap();
    assert_eq!(buffer.len(), 4 * 17 * 9);
}

#[test]
fn each_pixel_lies_at_its_offset() {
    let bounds = PixelBounds::new(17, 9).unwrap();
    let escapes = results(bounds, 50);
    let coloring = Coloring::Gradient(shades(50));
    let buffer = draw_image(50, bounds, &escapes, &coloring).unwrap();
    for row in 0..bounds.height {
        for column in 0..bounds.width {
            let at = bounds.offset(column, row);
            let color = coloring.color(escapes[row * bounds.width + column], 50);
            assert_eq!(buffer[at..at + 4], color.to_bytes());
        }
    }
}

#[test]
fn middle_pixel_of_the_unit_view_is_inside() {
    let bounds = PixelBounds::new(100, 100).unwrap();
    let mut escapes = vec![Some(0u32); 100 * 100];
    escapes[50 * 100 + 50] = None;
    let coloring = Coloring::Gradient(shades(50));
    assert_eq!(coloring.color(escapes[50 * 100 + 50], 50), inside());
    let buffer = draw_image(50, bounds, &escapes, &coloring).unwrap();
    let at = bounds.offset(50, 50);
    assert_eq!(buffer[at..at + 4], [0, 0, 0, 255]);
    assert_ne!(buffer[at - 4..at], [0, 0, 0, 255]);
}

#[test]
fn drawing_twice_gives_the_same_bytes() {
    let bounds = PixelBounds::new(31, 14).unwrap();
    let escapes = results(bounds, 64);
    let coloring = Coloring::Gradient(shades(64));
    let first = draw_image(64, bounds, &escapes, &coloring).unwrap();
    let second = draw_image(64, bounds, &escapes, &coloring).unwrap();
    assert_eq!(first, second);
}

#[test]
fn render_fills_a_block_of_rows() {
    let bounds = PixelBounds::new(2, 2).unwrap();
    let escapes = [Some(0), None, Some(3), Some(1)];
    let mut pixels = vec![9u8; 16];
    render(4, &mut pixels, bounds, &escapes, &Coloring::Gradient(shades(4)));
    assert_eq!(
        pixels,
        vec![4, 104, 204, 255, 0, 0, 0, 255, 1, 101, 201, 255, 3, 103, 203, 255]
    );
}

#[test]
fn render_of_the_whole_frame_is_draw_image() {
    let bounds = PixelBounds::new(12, 5).unwrap();
    let escapes = results(bounds, 40);
    let coloring = Coloring::Grayscale;
    let mut pixels = vec![0u8; bounds.buffer_len()];
    render(40, &mut pixels, bounds, &escapes, &coloring);
    assert_eq!(pixels, draw_image(40, bounds, &escapes, &coloring).unwrap());
}

#[test]
fn bands_drawn_from_the_bottom_up_give_the_same_frame() {
    let bounds = PixelBounds::new(12, 5).unwrap();
    let escapes = results(bounds, 40);
    let coloring = Coloring::Gradient(shades(40));
    let whole = draw_image(40, bounds, &escapes, &coloring).unwrap();
    let mut pixels = vec![77u8; bounds.buffer_len()];
    for row in (0..bounds.height).rev() {
        let start = bounds.offset(0, row);
        let band = &mut pixels[start..start + bounds.band_len()];
        let row_results = &escapes[row * bounds.width..(row + 1) * bounds.width];
        render(40, band, bounds.band_bounds(), row_results, &coloring);
    }
    assert_eq!(pixels, whole);
}

#[test]
fn bands_drawn_in_a_shuffled_order_with_repeats_give_the_same_frame() {
    let bounds = PixelBounds::new(6, 4).unwrap();
    let escapes = results(bounds, 40);
    let coloring = Coloring::Grayscale;
    let whole = draw_image(40, bounds, &escapes, &coloring).unwrap();
    let mut pixels = vec![1u8; bounds.buffer_len()];
    for &row in [2usize, 0, 3, 2, 1, 0].iter() {
        let start = bounds.offset(0, row);
        let band = &mut pixels[start..start + bounds.band_len()];
        let row_results = &escapes[row * bounds.width..(row + 1) * bounds.width];
        render(40, band, bounds.band_bounds(), row_results, &coloring);
    }
    assert_eq!(pixels, whole);
}

#[test]
fn drawing_a_band_leaves_the_other_bands_alone() {
    let bounds = PixelBounds::new(6, 4).unwrap();
    let escapes = results(bounds, 40);
    let mut pixels = vec![123u8; bounds.buffer_len()];
    let start = bounds.offset(0, 1);
    let end = start + bounds.band_len();
    render(
        40,
        &mut pixels[start..end],
        bounds.band_bounds(),
        &escapes[bounds.width..2 * bounds.width],
        &Coloring::Grayscale,
    );
    assert!(pixels[..start].iter().all(|&byte| byte == 123));
    assert!(pixels[end..].iter().all(|&byte| byte == 123));
}

#[test]
fn refuses_invalid_bounds() {
    let bounds = PixelBounds { width: 0, height: 3 };
    assert_eq!(
        draw_image(50, bounds, &[], &Coloring::Grayscale),
        Err(RenderError::InvalidBounds)
    );
    let bounds = PixelBounds { width: usize::MAX, height: usize::MAX };
    assert_eq!(
        draw_image(50, bounds, &[], &Coloring::Grayscale),
        Err(RenderError::InvalidBounds)
    );
}

#[test]
fn refuses_a_zero_budget() {
    let bounds = PixelBounds::new(2, 1).unwrap();
    assert_eq!(
        draw_image(0, bounds, &[None, None], &Coloring::Grayscale),
        Err(RenderError::ZeroBudget)
    );
}

#[test]
fn refuses_a_wrong_number_of_results() {
    let bounds = PixelBounds::new(2, 2).unwrap();
    assert_eq!(
        draw_image(5, bounds, &[None, None, None], &Coloring::Grayscale),
        Err(RenderError::ResultCount)
    );
    assert_eq!(
        draw_image(5, bounds, &[None; 5], &Coloring::Grayscale),
        Err(RenderError::ResultCount)
    );
}

#[test]
fn refuses_a_gradient_of_the_wrong_length() {
    let bounds = PixelBounds::new(2, 1).unwrap();
    assert_eq!(
        draw_image(5, bounds, &[None, None], &Coloring::Gradient(shades(4))),
        Err(RenderError::ShadeCount)
    );
    assert_eq!(
        draw_image(5, bounds, &[None, None], &Coloring::Gradient(shades(6))),
        Err(RenderError::ShadeCount)
    );
}

#[test]
fn refuses_a_step_beyond_the_budget() {
    let bounds = PixelBounds::new(2, 1).unwrap();
    assert_eq!(
        draw_image(5, bounds, &[None, Some(5)], &Coloring::Grayscale),
        Err(RenderError::StepBeyondBudget)
    );
}

#[test]
fn reasons_for_refusal_come_in_a_fixed_order() {
    let empty = PixelBounds { width: 0, height: 0 };
    assert_eq!(
        draw_image(0, empty, &[Some(9)], &Coloring::Gradient(shades(3))),
        Err(RenderError::InvalidBounds)
    );
    let bounds = PixelBounds::new(2, 1).unwrap();
    assert_eq!(
        draw_image(0, bounds, &[Some(9)], &Coloring::Gradient(shades(3))),
        Err(RenderError::ZeroBudget)
    );
    assert_eq!(
        draw_image(5, bounds, &[Some(9)], &Coloring::Gradient(shades(3))),
        Err(RenderError::ResultCount)
    );
    assert_eq!(
        draw_image(5, bounds, &[Some(9), None], &Coloring::Gradient(shades(3))),
        Err(RenderError::ShadeCount)
    );
    assert_eq!(
        draw_image(5, bounds, &[Some(9), None], &Coloring::Gradient(shades(5))),
        Err(RenderError::StepBeyondBudget)
    );
}
