//! Points of the complex plane and the rectangle of it that a frame shows.

use vstd::prelude::*;
use crate::binary64::{less, less_than};
use crate::bounds::ConfigError;

verus! {

/// A point of the complex plane. Each part is the bit pattern of a binary64
/// value.
#[derive(Clone, Copy, Debug, PartialEq, Eq, Structural)]
pub struct Point {
    pub re: u64,
    pub im: u64,
}

/// The visible region: the points shown at the frame's upper left and lower
/// right corners.
#[derive(Clone, Copy, Debug, PartialEq, Eq, Structural)]
pub struct ViewRectangle {
    pub upper_left: Point,
    pub lower_right: Point,
}

/// Bit pattern of -3.
pub const MINUS_THREE: u64 = 0xC008_0000_0000_0000;

/// Bit pattern of -2.
pub const MINUS_TWO: u64 = 0xC000_0000_0000_0000;

/// Bit pattern of 1.
pub const ONE: u64 = 0x3FF0_0000_0000_0000;

/// Bit pattern of 2.
pub const TWO: u64 = 0x4000_0000_0000_0000;

impl ViewRectangle {
    /// The rectangle is oriented and not empty: the real part grows from
    /// left to right, and the imaginary part falls from top to bottom.
    pub open spec fn valid(&self) -> bool {
        &&& less(self.upper_left.re, self.lower_right.re)
        &&& less(self.lower_right.im, self.upper_left.im)
    }

    /// The extent a session starts from and returns to: from -3 + 2i at the
    /// upper left to 1 - 2i at the lower right.
    pub open spec fn spec_default_extent() -> ViewRectangle {
        ViewRectangle {
            upper_left: Point { re: MINUS_THREE, im: TWO },
            lower_right: Point { re: ONE, im: MINUS_TWO },
        }
    }

    /// The extent a session starts from and returns to.
    pub fn default_extent() -> (view: ViewRectangle)
        ensures
            view == Self::spec_default_extent(),
            view.valid(),
    {
        ViewRectangle {
            upper_left: Point { re: MINUS_THREE, im: TWO },
            lower_right: Point { re: ONE, im: MINUS_TWO },
        }
    }

    /// Makes a rectangle of two corners, or turns them down if the
    /// rectangle between them is not oriented or is empty.
    pub fn new(upper_left: Point, lower_right: Point) -> (result: Result<
        ViewRectangle,
        ConfigError,
    >)
        ensures
            result == if (ViewRectangle { upper_left, lower_right }).valid() {
                Ok::<ViewRectangle, ConfigError>(ViewRectangle { upper_left, lower_right })
            } else {
                Err(ConfigError::DegenerateView)
            },
    {
        if less_than(upper_left.re, lower_right.re) && less_than(lower_right.im, upper_left.im) {
            Ok(ViewRectangle { upper_left, lower_right })
        } else {
            Err(ConfigError::DegenerateView)
        }
    }

    /// Whether the rectangle is oriented and not empty.
    pub fn is_valid(&self) -> (r: bool)
        ensures
            r == self.valid(),
    {
        less_than(self.upper_left.re, self.lower_right.re) && less_than(
            self.lower_right.im,
            self.upper_left.im,
        )
    }
}

} // verus!
