use mandelbrot::viewport::{selection, DEFAULT_TIME_LIMIT, SELECTION_HALF_EXTENT};
use mandelbrot::{
    KeyCode, MouseButton, Pixel, PixelBounds, Point, State, ViewChange, ViewRectangle,
};

fn session() -> State {
    State::new(PixelBounds::new(800, 800).unwrap())
}

fn unit_view() -> ViewRectangle {
    ViewRectangle::new(
        Point { re: (-1.0f64).to_bits(), im: 1.0f64.to_bits() },
        Point { re: 1.0f64.to_bits(), im: (-1.0f64).to_bits() },
    )
    .unwrap()
}

#[test]
fn session_starts_with_the_default_view_and_budget() {
    let state = session();
    assert_eq!(state.bounds, PixelBounds { width: 800, height: 800 });
    assert_eq!(state.view, ViewRectangle::default_extent());
    assert_eq!(state.time_limit, 256);
    assert_eq!(DEFAULT_TIME_LIMIT, 256);
    assert!(!state.mouse_pressed);
    assert!(!state.update_event);
}

#[test]
fn right_key_doubles_the_budget() {
    let mut state = session();
    state.key_up_event(KeyCode::Right);
    assert_eq!(state.time_limit, 512);
    assert!(state.update_event);
    state.key_up_event(KeyCode::Right);
    assert_eq!(state.time_limit, 1024);
}

#[test]
fn left_key_halves_the_budget() {
    let mut state = session();
    state.key_up_event(KeyCode::Left);
    assert_eq!(state.time_limit, 128);
    assert!(state.update_event);
}

#[test]
fn halving_rounds_down() {
    let mut state = session();
    state.time_limit = 7;
    state.key_up_event(KeyCode::Left);
    assert_eq!(state.time_limit, 3);
    state.key_up_event(KeyCode::Left);
    assert_eq!(state.time_limit, 1);
}

#[test]
fn halving_stops_at_one() {
    let mut state = session();
    state.time_limit = 1;
    state.key_up_event(KeyCode::Left);
    assert_eq!(state.time_limit, 1);
    assert!(state.update_event);
}

#[test]
fn repeated_halving_settles_at_one_and_never_reaches_zero() {
    let mut state = session();
    let mut seen = Vec::new();
    for _ in 0..12 {
        state.key_up_event(KeyCode::Left);
        assert!(state.time_limit >= 1);
        seen.push(state.time_limit);
    }
    assert_eq!(seen, vec![128, 64, 32, 16, 8, 4, 2, 1, 1, 1, 1, 1]);
}

#[test]
fn largest_budget_settles_within_thirty_two_halvings() {
    let mut state = session();
    state.time_limit = u32::MAX;
    for _ in 0..31 {
        state.key_up_event(KeyCode::Left);
        assert!(state.time_limit >= 1);
    }
    assert_eq!(state.time_limit, 1);
    state.key_up_event(KeyCode::Left);
    assert_eq!(state.time_limit, 1);
}

#[test]
fn doubling_then_halving_restores_the_budget() {
    let mut state = session();
    state.time_limit = 37;
    state.key_up_event(KeyCode::Right);
    assert_eq!(state.time_limit, 74);
    state.key_up_event(KeyCode::Left);
    assert_eq!(state.time_limit, 37);
}

#[test]
fn budget_doubles_up_to_the_last_power_of_two() {
    let mut state = session();
    state.time_limit = 1 << 30;
    state.key_up_event(KeyCode::Right);
    assert_eq!(state.time_limit, 1 << 31);
}

#[test]
fn other_keys_change_nothing() {
    let mut state = session();
    let before = state;
    state.key_up_event(KeyCode::Other);
    assert_eq!(state, before);
}

#[test]
fn left_button_starts_a_selection() {
    let mut state = session();
    state.mouse_button_down_event(MouseButton::Left);
    assert!(state.mouse_pressed);
    assert!(!state.update_event);
}

#[test]
fn other_buttons_start_no_selection() {
    let mut state = session();
    state.mouse_button_down_event(MouseButton::Right);
    assert!(!state.mouse_pressed);
    state.mouse_button_down_event(MouseButton::Other);
    assert!(!state.mouse_pressed);
    assert_eq!(state, session());
}

#[test]
fn releasing_the_left_button_asks_to_zoom_in_on_the_square() {
    let mut state = session();
    state.mouse_button_down_event(MouseButton::Left);
    let change = state.mouse_button_up_event(MouseButton::Left, 400, 300);
    assert_eq!(
        change,
        ViewChange::ZoomIn {
            upper_left: Pixel { column: 300, row: 200 },
            lower_right: Pixel { column: 500, row: 400 },
        }
    );
    assert!(!state.mouse_pressed);
    assert!(state.update_event);
    assert_eq!(state.view, ViewRectangle::default_extent());
}

#[test]
fn releasing_the_right_button_asks_to_zoom_out() {
    let mut state = session();
    let change = state.mouse_button_up_event(MouseButton::Right, 10, 10);
    assert_eq!(change, ViewChange::ZoomOut);
    assert!(!state.mouse_pressed);
    assert!(state.update_event);
}

#[test]
fn releasing_another_button_keeps_the_view_but_asks_to_redraw() {
    let mut state = session();
    state.mouse_button_down_event(MouseButton::Left);
    let change = state.mouse_button_up_event(MouseButton::Other, 10, 10);
    assert_eq!(change, ViewChange::Keep);
    assert!(!state.mouse_pressed);
    assert!(state.update_event);
}

#[test]
fn selection_reaches_a_hundred_pixels_to_each_side() {
    assert_eq!(SELECTION_HALF_EXTENT, 100);
    assert_eq!(
        selection(Pixel { column: 150, row: 275 }),
        (Pixel { column: 50, row: 175 }, Pixel { column: 250, row: 375 })
    );
    assert_eq!(
        selection(Pixel { column: 100, row: 100 }),
        (Pixel { column: 0, row: 0 }, Pixel { column: 200, row: 200 })
    );
}

#[test]
fn selection_is_cut_off_at_the_upper_left_edge() {
    assert_eq!(
        selection(Pixel { column: 30, row: 99 }),
        (Pixel { column: 0, row: 0 }, Pixel { column: 130, row: 199 })
    );
    assert_eq!(
        selection(Pixel { column: 0, row: 0 }),
        (Pixel { column: 0, row: 0 }, Pixel { column: 100, row: 100 })
    );
}

#[test]
fn selection_may_reach_beyond_the_frame() {
    assert_eq!(
        selection(Pixel { column: 799, row: 799 }),
        (Pixel { column: 699, row: 699 }, Pixel { column: 899, row: 899 })
    );
}

#[test]
fn selection_is_cut_off_at_the_largest_index() {
    assert_eq!(
        selection(Pixel { column: usize::MAX - 5, row: usize::MAX }),
        (
            Pixel { column: usize::MAX - 105, row: usize::MAX - 100 },
            Pixel { column: usize::MAX, row: usize::MAX }
        )
    );
}

#[test]
fn update_without_an_event_asks_for_nothing() {
    let mut state = session();
    assert!(!state.update(false));
    assert_eq!(state, session());
}

#[test]
fn update_after_an_event_asks_to_redraw_once() {
    let mut state = session();
    state.key_up_event(KeyCode::Right);
    assert!(state.update(false));
    assert!(!state.update_event);
    assert_eq!(state.time_limit, 512);
    assert!(!state.update(false));
}

#[test]
fn reset_returns_to_the_default_extent_and_asks_to_redraw() {
    let mut state = session();
    state.replace_view(unit_view());
    state.key_up_event(KeyCode::Right);
    assert!(state.update(false));
    assert!(state.update(true));
    assert_eq!(state.view, ViewRectangle::default_extent());
    assert_eq!(state.time_limit, 512);
    assert!(!state.update_event);
}

#[test]
fn replace_view_changes_the_view_only() {
    let mut state = session();
    state.replace_view(unit_view());
    assert_eq!(state.view, unit_view());
    assert_eq!(state.time_limit, 256);
    assert_eq!(state.bounds, PixelBounds { width: 800, height: 800 });
    assert!(!state.update_event);
    assert!(!state.mouse_pressed);
}

#[test]
fn session_tells_its_valid_states() {
    let mut state = session();
    assert!(state.is_valid());
    state.time_limit = 0;
    assert!(!state.is_valid());
    state.time_limit = 1;
    assert!(state.is_valid());
    state.bounds = PixelBounds { width: 0, height: 800 };
    assert!(!state.is_valid());
    state.bounds = PixelBounds { width: 800, height: 800 };
    state.view.lower_right = state.view.upper_left;
    assert!(!state.is_valid());
}
