//! The colour given to an escape-time result.
//!
//! An escape-time result is `None` for a point that stayed bounded through
//! the whole iteration budget, and `Some(step)` for a point that escaped at
//! iteration `step`, counted from zero and below the budget.
//!
//! Two colourings are offered. `Grayscale` writes white with the escape step,
//! clamped to a byte, as alpha. `Gradient` looks the colour up by tone, the
//! number of iterations that were left when the point escaped, counting the
//! escaping one; it is opaque. Either way a bounded point gets the same
//! inside colour, opaque black.

use vstd::prelude::*;

verus! {

/// A colour without alpha.
#[derive(Clone, Copy, Debug, PartialEq, Eq, Structural)]
pub struct Rgb {
    pub red: u8,
    pub green: u8,
    pub blue: u8,
}

/// A colour with alpha, in the order of its four bytes in a buffer.
#[derive(Clone, Copy, Debug, PartialEq, Eq, Structural)]
pub struct Rgba {
    pub red: u8,
    pub green: u8,
    pub blue: u8,
    pub alpha: u8,
}

/// How escape-time results become colours.
#[derive(Debug)]
pub enum Coloring {
    /// White, with the clamped escape step as alpha.
    Grayscale,
    /// Opaque shades, one for each tone from 1 up to the budget: the shade
    /// at index `k` belongs to tone `k + 1`.
    Gradient(Vec<Rgb>),
}

/// The result can come from an evaluation with this budget.
pub open spec fn in_budget(result: Option<u32>, limit: u32) -> bool {
    match result {
        None => true,
        Some(step) => step < limit,
    }
}

/// Every result of the sequence can come from an evaluation with this
/// budget.
pub open spec fn all_in_budget(escapes: Seq<Option<u32>>, limit: u32) -> bool {
    forall|k: int| 0 <= k < escapes.len() ==> in_budget(#[trigger] escapes[k], limit)
}

/// Tone of a result: 0 for a bounded point, else the iterations that were
/// left when the point escaped, from `limit` for step 0 down to 1.
pub open spec fn spec_tone(result: Option<u32>, limit: u32) -> int {
    match result {
        None => 0,
        Some(step) => limit - step,
    }
}

/// The colour of every point judged to be in the set.
pub open spec fn spec_inside() -> Rgba {
    Rgba { red: 0, green: 0, blue: 0, alpha: 255 }
}

/// The escape step as a byte: itself up to 255, and 255 beyond.
pub open spec fn spec_clamp(step: u32) -> u8 {
    if step > 255 {
        255u8
    } else {
        step as u8
    }
}

impl Rgba {
    /// Byte `index` of the colour as it lies in a buffer.
    pub open spec fn channel(self, index: int) -> u8 {
        if index == 0 {
            self.red
        } else if index == 1 {
            self.green
        } else if index == 2 {
            self.blue
        } else {
            self.alpha
        }
    }

    /// The four bytes of the colour as they lie in a buffer.
    pub fn to_bytes(self) -> (bytes: [u8; 4])
        ensures
            forall|index: int| 0 <= index < 4 ==> bytes@[index] == self.channel(index),
    {
        [self.red, self.green, self.blue, self.alpha]
    }
}

impl Coloring {
    /// The colouring can serve this budget: a gradient has one shade for
    /// each tone from 1 up to the budget.
    pub open spec fn fits(&self, limit: u32) -> bool {
        match self {
            Coloring::Grayscale => true,
            Coloring::Gradient(shades) => shades@.len() == limit,
        }
    }

    /// Colour of a result under this colouring.
    pub open spec fn spec_color(&self, result: Option<u32>, limit: u32) -> Rgba {
        match result {
            None => spec_inside(),
            Some(step) => match self {
                Coloring::Grayscale => Rgba {
                    red: 255,
                    green: 255,
                    blue: 255,
                    alpha: spec_clamp(step),
                },
                Coloring::Gradient(shades) => {
                    let shade = shades@[spec_tone(result, limit) - 1];
                    Rgba { red: shade.red, green: shade.green, blue: shade.blue, alpha: 255 }
                },
            },
        }
    }

    /// Whether the colouring can serve this budget.
    pub fn serves(&self, limit: u32) -> (r: bool)
        ensures
            r == self.fits(limit),
    {
        match self {
            Coloring::Grayscale => true,
            Coloring::Gradient(shades) => shades.len() == limit as usize,
        }
    }

    /// Colour of a result under this colouring.
    pub fn color(&self, result: Option<u32>, limit: u32) -> (color: Rgba)
        requires
            in_budget(result, limit),
            self.fits(limit),
        ensures
            color == self.spec_color(result, limit),
    {
        match result {
            None => inside(),
            Some(step) => match self {
                Coloring::Grayscale => Rgba {
                    red: 255,
                    green: 255,
                    blue: 255,
                    alpha: clamp(step),
                },
                Coloring::Gradient(shades) => {
                    let index: usize = (tone(result, limit) - 1) as usize;
                    let shade: Rgb = shades[index];
                    Rgba { red: shade.red, green: shade.green, blue: shade.blue, alpha: 255 }
                },
            },
        }
    }
}

/// The colour of every point judged to be in the set: opaque black.
pub fn inside() -> (color: Rgba)
    ensures
        color == spec_inside(),
{
    Rgba { red: 0, green: 0, blue: 0, alpha: 255 }
}

/// The escape step as a byte: itself up to 255, and 255 beyond.
pub fn clamp(step: u32) -> (byte: u8)
    ensures
        byte == spec_clamp(step),
{
    if step > 255 {
        255
    } else {
        step as u8
    }
}

/// Tone of a result: 0 for a bounded point, else the iterations that were
/// left when the point escaped.
pub fn tone(result: Option<u32>, limit: u32) -> (tone: u32)
    requires
        in_budget(result, limit),
    ensures
        tone == spec_tone(result, limit),
        tone == 0 <==> result is None,
        tone <= limit,
{
    match result {
        None => 0,
        Some(step) => limit - step,
    }
}

/// Whether every result of the slice can come from an evaluation with this
/// budget.
pub fn results_in_budget(escapes: &[Option<u32>], limit: u32) -> (r: bool)
    ensures
        r == all_in_budget(escapes@, limit),
{
    let count: usize = escapes.len();
    let mut at: usize = 0;
    while at < count
        invariant
            count == escapes@.len(),
            at <= count,
            forall|k: int| 0 <= k < at ==> in_budget(#[trigger] escapes@[k], limit),
        decreases count - at,
    {
        match escapes[at] {
            None => {},
            Some(step) => {
                if step >= limit {
                    assert(!in_budget(escapes@[at as int], limit));
                    return false;
                }
            },
        }
        at += 1;
    }
    true
}

/// A bounded point has the inside colour under every colouring, and an
/// escaped point never has it under a grayscale colouring.
pub proof fn lemma_inside_is_reserved(coloring: Coloring, step: u32, limit: u32)
    ensures
        coloring.spec_color(None, limit) == spec_inside(),
        Coloring::Grayscale.spec_color(Some(step), limit) != spec_inside(),
{
}

} // verus!
