//! The viewport controller: the view rectangle and the iteration budget of a
//! session, and the events that change them.
//!
//! The controller is a state machine. Each event is one call, and each call
//! says in its contract what the next state is. Two events ask for a new
//! view rectangle that only arithmetic on the plane can give: zooming in on
//! a selection and zooming out. For those the controller says which change
//! is due, and takes the rectangle back through `replace_view`.

use vstd::prelude::*;
use vstd::arithmetic::div_mod::{lemma_basic_div, lemma_div_denominator};
use vstd::arithmetic::power2::{
    lemma2_to64, lemma_pow2_pos, lemma_pow2_strictly_increases, lemma_pow2_unfold, pow2,
};
use crate::bounds::PixelBounds;
use crate::view::ViewRectangle;

verus! {

/// The iteration budget a session starts with.
pub const DEFAULT_TIME_LIMIT: u32 = 256;

/// Half the side of the square that a zoom selects, in pixels.
pub const SELECTION_HALF_EXTENT: usize = 100;

/// A place in the pixel grid. The grid goes on beyond the frame to the right
/// and below; a selection may reach there.
#[derive(Clone, Copy, Debug, PartialEq, Eq, Structural)]
pub struct Pixel {
    pub column: usize,
    pub row: usize,
}

/// The keys the controller tells apart.
#[derive(Clone, Copy, Debug, PartialEq, Eq, Structural)]
pub enum KeyCode {
    /// Doubles the iteration budget.
    Right,
    /// Halves the iteration budget.
    Left,
    /// Any other key.
    Other,
}

/// The mouse buttons the controller tells apart.
#[derive(Clone, Copy, Debug, PartialEq, Eq, Structural)]
pub enum MouseButton {
    /// Selects a square to zoom in on.
    Left,
    /// Zooms out.
    Right,
    /// Any other button.
    Other,
}

/// The change of the view rectangle that an event asks for.
#[derive(Clone, Copy, Debug, PartialEq, Eq, Structural)]
pub enum ViewChange {
    /// The view stays as it is.
    Keep,
    /// The view becomes the rectangle between the points that the two pixels
    /// map to under the present view.
    ZoomIn { upper_left: Pixel, lower_right: Pixel },
    /// Each corner moves away from the other by the present diagonal.
    ZoomOut,
}

/// State of a session.
#[derive(Clone, Copy, Debug, PartialEq, Eq, Structural)]
pub struct State {
    /// Size of the frame; it does not change during a session.
    pub bounds: PixelBounds,
    /// The visible region.
    pub view: ViewRectangle,
    /// The iteration budget.
    pub time_limit: u32,
    /// The selecting button is held down.
    pub mouse_pressed: bool,
    /// The frame on display is out of date.
    pub update_event: bool,
}

/// The budget after one halving: half of it, rounded down, but never less
/// than 1.
pub open spec fn spec_halved(budget: u32) -> u32 {
    if budget / 2 < 1 {
        1u32
    } else {
        budget / 2
    }
}

/// The budget after `times` halvings.
pub open spec fn halved_times(budget: u32, times: nat) -> u32
    decreases times,
{
    if times == 0 {
        budget
    } else {
        spec_halved(halved_times(budget, (times - 1) as nat))
    }
}

/// The square selected around `center`: `SELECTION_HALF_EXTENT` pixels to
/// each side, cut off at the grid's upper and left edge and at the largest
/// pixel index.
pub open spec fn spec_selection(center: Pixel) -> (Pixel, Pixel) {
    (
        Pixel {
            column: if center.column >= SELECTION_HALF_EXTENT {
                (center.column - SELECTION_HALF_EXTENT) as usize
            } else {
                0
            },
            row: if center.row >= SELECTION_HALF_EXTENT {
                (center.row - SELECTION_HALF_EXTENT) as usize
            } else {
                0
            },
        },
        Pixel {
            column: if center.column + SELECTION_HALF_EXTENT <= usize::MAX {
                (center.column + SELECTION_HALF_EXTENT) as usize
            } else {
                usize::MAX
            },
            row: if center.row + SELECTION_HALF_EXTENT <= usize::MAX {
                (center.row + SELECTION_HALF_EXTENT) as usize
            } else {
                usize::MAX
            },
        },
    )
}

/// The square selected around `center`.
pub fn selection(center: Pixel) -> (corners: (Pixel, Pixel))
    ensures
        corners == spec_selection(center),
        corners.0.column <= center.column <= corners.1.column,
        corners.0.row <= center.row <= corners.1.row,
{
    (
        Pixel {
            column: center.column.saturating_sub(SELECTION_HALF_EXTENT),
            row: center.row.saturating_sub(SELECTION_HALF_EXTENT),
        },
        Pixel {
            column: center.column.saturating_add(SELECTION_HALF_EXTENT),
            row: center.row.saturating_add(SELECTION_HALF_EXTENT),
        },
    )
}

impl State {
    /// The frame has pixels, the view is oriented and not empty, and the
    /// budget is positive.
    pub open spec fn valid(&self) -> bool {
        &&& self.bounds.valid()
        &&& self.view.valid()
        &&& self.time_limit >= 1
    }

    /// Whether the frame has pixels, the view is oriented and not empty,
    /// and the budget is positive.
    pub fn is_valid(&self) -> (r: bool)
        ensures
            r == self.valid(),
    {
        self.bounds.is_valid() && self.view.is_valid() && self.time_limit >= 1
    }

    /// The state a session starts in: the default extent, the default
    /// budget, no button held, and nothing to redraw.
    pub fn new(init_bounds: PixelBounds) -> (state: State)
        requires
            init_bounds.valid(),
        ensures
            state == (State {
                bounds: init_bounds,
                view: ViewRectangle::spec_default_extent(),
                time_limit: DEFAULT_TIME_LIMIT,
                mouse_pressed: false,
                update_event: false,
            }),
            state.valid(),
    {
        State {
            bounds: init_bounds,
            view: ViewRectangle::default_extent(),
            time_limit: DEFAULT_TIME_LIMIT,
            mouse_pressed: false,
            update_event: false,
        }
    }

    /// One turn of the session's loop. With `reset` the view returns to the
    /// default extent. The result says whether the frame must be drawn
    /// again: after a reset, or when an earlier event left it out of date.
    /// Either way the frame counts as up to date afterwards.
    pub fn update(&mut self, reset: bool) -> (redraw: bool)
        requires
            old(self).valid(),
        ensures
            *final(self) == (State {
                view: if reset {
                    ViewRectangle::spec_default_extent()
                } else {
                    old(self).view
                },
                update_event: false,
                ..*old(self)
            }),
            redraw == (reset || old(self).update_event),
            final(self).valid(),
    {
        if reset {
            self.view = ViewRectangle::default_extent();
            self.update_event = true;
        }
        let redraw: bool = self.update_event;
        self.update_event = false;
        redraw
    }

    /// A key was released. `Right` doubles the budget and `Left` halves it,
    /// never below 1; both leave the frame out of date. Any other key
    /// changes nothing.
    pub fn key_up_event(&mut self, keycode: KeyCode)
        requires
            old(self).valid(),
            keycode == KeyCode::Right ==> 2 * old(self).time_limit <= u32::MAX,
        ensures
            *final(self) == match keycode {
                KeyCode::Right => State {
                    time_limit: (2 * old(self).time_limit) as u32,
                    update_event: true,
                    ..*old(self)
                },
                KeyCode::Left => State {
                    time_limit: spec_halved(old(self).time_limit),
                    update_event: true,
                    ..*old(self)
                },
                KeyCode::Other => *old(self),
            },
            final(self).valid(),
    {
        match keycode {
            KeyCode::Right => {
                self.time_limit = self.time_limit * 2;
                self.update_event = true;
            },
            KeyCode::Left => {
                self.time_limit = self.time_limit / (if self.time_limit / 2 < 1 {
                    1
                } else {
                    2
                });
                self.update_event = true;
            },
            KeyCode::Other => {},
        }
    }

    /// A mouse button went down. The left one starts a selection.
    pub fn mouse_button_down_event(&mut self, button: MouseButton)
        ensures
            *final(self) == (State {
                mouse_pressed: button == MouseButton::Left || old(self).mouse_pressed,
                ..*old(self)
            }),
            old(self).valid() ==> final(self).valid(),
    {
        if button == MouseButton::Left {
            self.mouse_pressed = true;
        }
    }

    /// A mouse button came up over the pixel at `x`, `y`. The selection
    /// ends and the frame is out of date. The left button asks to zoom in
    /// on the square around the pixel, the right one to zoom out.
    pub fn mouse_button_up_event(&mut self, button: MouseButton, x: usize, y: usize) -> (change:
        ViewChange)
        ensures
            *final(self) == (State { mouse_pressed: false, update_event: true, ..*old(self) }),
            change == match button {
                MouseButton::Left => ViewChange::ZoomIn {
                    upper_left: spec_selection(Pixel { column: x, row: y }).0,
                    lower_right: spec_selection(Pixel { column: x, row: y }).1,
                },
                MouseButton::Right => ViewChange::ZoomOut,
                MouseButton::Other => ViewChange::Keep,
            },
            old(self).valid() ==> final(self).valid(),
    {
        self.mouse_pressed = false;
        self.update_event = true;
        match button {
            MouseButton::Left => {
                let corners = selection(Pixel { column: x, row: y });
                ViewChange::ZoomIn { upper_left: corners.0, lower_right: corners.1 }
            },
            MouseButton::Right => ViewChange::ZoomOut,
            MouseButton::Other => ViewChange::Keep,
        }
    }

    /// Puts a new view rectangle in the place of the present one.
    pub fn replace_view(&mut self, view: ViewRectangle)
        requires
            old(self).valid(),
            view.valid(),
        ensures
            *final(self) == (State { view, ..*old(self) }),
            final(self).valid(),
    {
        self.view = view;
    }
}

/// One halving never gives 0 and never grows the budget; it shrinks every
/// budget above 1 and leaves 1 alone.
pub proof fn lemma_halving_keeps_positive(budget: u32)
    requires
        budget >= 1,
    ensures
        1 <= spec_halved(budget) <= budget,
        budget > 1 ==> spec_halved(budget) < budget,
        spec_halved(1) == 1,
{
}

/// After `times` halvings the budget is the `2^times`-th part of what it
/// was, rounded down, or 1 if that is less: halving never reaches 0, gets
/// to 1 after at most 32 steps, and stays there.
pub proof fn lemma_halving_settles_at_one(budget: u32, times: nat)
    requires
        budget >= 1,
    ensures
        halved_times(budget, times) == if (budget as int) / (pow2(times) as int) < 1 {
            1
        } else {
            (budget as int) / (pow2(times) as int)
        },
        halved_times(budget, times) >= 1,
        times >= 32 ==> halved_times(budget, times) == 1,
        halved_times(budget, times) == 1 ==> halved_times(budget, times + 1) == 1,
    decreases times,
{
    lemma_pow2_pos(times);
    if times == 0 {
        lemma2_to64();
    } else {
        let earlier = (times - 1) as nat;
        lemma_halving_settles_at_one(budget, earlier);
        lemma_pow2_pos(earlier);
        lemma_pow2_unfold(times);
        lemma_div_denominator(budget as int, pow2(earlier) as int, 2);
        assert(pow2(earlier) * 2 == pow2(times));
    }
    if times >= 32 {
        lemma2_to64();
        if times > 32 {
            lemma_pow2_strictly_increases(32, times);
        }
        lemma_basic_div(budget as int, pow2(times) as int);
    }
    assert(halved_times(budget, times + 1) == spec_halved(halved_times(budget, times)));
}

} // verus!
