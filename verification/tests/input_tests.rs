use crab_sweeper::input::ButtonHandler;
use crab_sweeper::input::ButtonState;
use crab_sweeper::input::MouseInputHandler;
use crab_sweeper::input::PointerButton;

#[test]
fn fresh_handler_has_no_signals() {
    let h = ButtonHandler::new();
    assert!(h.past_state.is_none());
    assert!(!h.is_initial_click && !h.is_held && !h.is_initial_release);
    assert!(h.last_click_position.is_none());
    assert!(h.last_release_position.is_none());
}

#[test]
fn press_press_release_edge_sequence() {
    let mut h = ButtonHandler::new();
    h.push(ButtonState::Pressed, 0, 0);
    assert!(h.is_initial_click && !h.is_held && !h.is_initial_release);
    assert_eq!(h.last_click_position, Some((0, 0)));
    h.push(ButtonState::Pressed, 0, 0);
    assert!(!h.is_initial_click && h.is_held && !h.is_initial_release);
    h.push(ButtonState::Released, 5, 5);
    assert!(!h.is_initial_click && !h.is_held && h.is_initial_release);
    assert_eq!(h.last_release_position, Some((5, 5)));
    h.clear_stored_positions();
    assert!(h.last_release_position.is_none());
    assert!(h.last_click_position.is_none());
}

#[test]
fn first_released_sample_counts_as_release() {
    let mut h = ButtonHandler::new();
    h.push(ButtonState::Released, 1, 2);
    assert!(!h.is_initial_click && !h.is_held && h.is_initial_release);
    assert_eq!(h.last_release_position, Some((1, 2)));
}

#[test]
fn released_after_released_is_silent() {
    let mut h = ButtonHandler::new();
    h.push(ButtonState::Released, 1, 2);
    h.push(ButtonState::Released, 3, 4);
    assert!(!h.is_initial_click && !h.is_held && !h.is_initial_release);
    assert_eq!(h.last_release_position, Some((1, 2)));
}

#[test]
fn clear_keeps_level_memory() {
    let mut h = ButtonHandler::new();
    h.push(ButtonState::Pressed, 7, 8);
    h.clear_stored_positions();
    assert_eq!(h.past_state, Some(ButtonState::Pressed));
    assert!(h.is_initial_click);
}

#[test]
fn button_click_routes_to_matching_handler() {
    let mut m = MouseInputHandler::new();
    m.record_button_click(PointerButton::Left, 10, 20, true);
    assert!(m.left_button_handler.is_initial_click);
    assert!(!m.right_button_handler.is_initial_click);
    assert!(!m.middle_button_handler.is_initial_click);
    assert_eq!(m.x, 10);
    assert_eq!(m.y, 20);
    m.record_button_click(PointerButton::Right, 30, 40, true);
    assert!(m.right_button_handler.is_initial_click);
    assert_eq!((m.x, m.y), (30, 40));
}

#[test]
fn motion_rebroadcasts_own_level() {
    let mut m = MouseInputHandler::new();
    m.record_button_click(PointerButton::Left, 0, 0, true);
    m.record_mouse_motion(50, 60);
    // The left button is still down, so motion keeps it held without a new
    // click edge; the other buttons stay released.
    assert!(m.left_button_handler.is_held);
    assert!(!m.left_button_handler.is_initial_click);
    assert!(!m.right_button_handler.is_initial_click);
    assert!(!m.right_button_handler.is_initial_release || m.right_button_handler.past_state.is_some());
    assert_eq!((m.x, m.y), (50, 60));
}

#[test]
fn clear_forwards_to_all_handlers() {
    let mut m = MouseInputHandler::new();
    m.record_button_click(PointerButton::Left, 1, 1, true);
    m.record_button_click(PointerButton::Left, 1, 1, false);
    m.record_button_click(PointerButton::Middle, 2, 2, true);
    m.clear_stored_positions();
    assert!(m.left_button_handler.last_release_position.is_none());
    assert!(m.left_button_handler.last_click_position.is_none());
    assert!(m.middle_button_handler.last_click_position.is_none());
}
