//! The discrete core of an escape-time renderer for the Mandelbrot set.
//!
//! The crate owns everything about a frame that can be said in whole
//! numbers: the bounds of the frame and the layout of its RGBA buffer, the
//! decisions of the escape-time evaluator, the colour given to each
//! escape-time result, the tile renderer and the orchestrator that fill the
//! buffer band by band, and the viewport controller with its iteration
//! budget. Points of the complex plane are carried as IEEE 754 binary64 bit
//! patterns; arithmetic on them is the caller's business.

pub mod bands;
pub mod binary64;
pub mod bounds;
pub mod color;
pub mod escape;
pub mod render;
pub mod view;
pub mod viewport;

pub use bounds::{ConfigError, PixelBounds, BYTES_PER_PIXEL};
pub use color::{Coloring, Rgb, Rgba};
pub use escape::Evaluation;
pub use render::{draw_image, render, RenderError};
pub use view::{Point, ViewRectangle};
pub use viewport::{KeyCode, MouseButton, Pixel, State, ViewChange};
