use crab_sweeper::board::ConfigurationError;
use crab_sweeper::board::FlagMarker;
use crab_sweeper::board::GameBoard;
use crab_sweeper::controller::BoardCommand;
use crab_sweeper::controller::ChangeBoardCommand;
use crab_sweeper::controller::GameController;
use crab_sweeper::controller::panel_command;
use crab_sweeper::controller::panel_command_at;
use crab_sweeper::input::PointerButton;

fn controller_with_layout(width: u16, height: u16, mine_cells: &[usize]) -> GameController {
    let size = (width as usize) * (height as usize);
    let mut mines = vec![false; size];
    for &i in mine_cells {
        mines[i] = true;
    }
    let mut c = GameController::new(width, height, 10, 42).unwrap();
    c.game_board = GameBoard::from_mine_layout(width, height, 10, &mines).unwrap();
    c
}

#[test]
fn session_rejects_bad_configuration() {
    assert_eq!(
        GameController::new(20, 10, 5, 1).unwrap_err(),
        ConfigurationError::DimensionsOutOfRange
    );
    assert_eq!(
        GameController::new(10, 10, 0, 1).unwrap_err(),
        ConfigurationError::DenominatorZero
    );
}

#[test]
fn a_click_release_frame_reveals_the_tile() {
    let mut c = controller_with_layout(3, 3, &[0]);
    let left = c.game_board.px_left;
    let top = c.game_board.px_top;
    // Press and release the primary button over the middle tile.
    c.mouse_input
        .record_button_click(PointerButton::Left, left + 32 + 5, top + 32 + 5, true);
    c.mouse_input
        .record_button_click(PointerButton::Left, left + 32 + 5, top + 32 + 5, false);
    c.update(None);
    assert!(c.game_board.is_uncovered[4]);
    assert!(!c.game_board.game_over);
    // The per-frame positions are consumed: a second frame reveals nothing
    // new.
    assert!(c.mouse_input.left_button_handler.last_release_position.is_none());
}

#[test]
fn a_secondary_release_cycles_the_marker() {
    let mut c = controller_with_layout(3, 3, &[0]);
    let left = c.game_board.px_left;
    let top = c.game_board.px_top;
    c.mouse_input.record_button_click(PointerButton::Right, left + 1, top + 1, true);
    c.mouse_input.record_button_click(PointerButton::Right, left + 1, top + 1, false);
    c.update(None);
    assert_eq!(c.game_board.flag_marker[0], FlagMarker::Flagged);
    assert!(!c.game_board.is_uncovered[0]);
}

#[test]
fn flag_counter_may_go_negative() {
    let mut c = controller_with_layout(2, 2, &[0]);
    let left = c.game_board.px_left;
    let top = c.game_board.px_top;
    for tile in 1..4 {
        let x = left + 32 * (tile % 2) + 1;
        let y = top + 32 * (tile / 2) + 1;
        c.mouse_input.record_button_click(PointerButton::Right, x, y, true);
        c.mouse_input.record_button_click(PointerButton::Right, x, y, false);
        c.update(None);
    }
    // One mine, three flags: two flags too many.
    assert_eq!(c.num_flags_display, -2);
}

#[test]
fn winning_frame_sets_the_outcome_flags() {
    let mut c = controller_with_layout(2, 2, &[0]);
    let left = c.game_board.px_left;
    let top = c.game_board.px_top;
    for tile in 1..4 {
        let x = left + 32 * (tile % 2) + 1;
        let y = top + 32 * (tile / 2) + 1;
        c.mouse_input.record_button_click(PointerButton::Left, x, y, true);
        c.mouse_input.record_button_click(PointerButton::Left, x, y, false);
        c.update(None);
    }
    assert!(c.game_board.game_over);
    assert!(c.game_board.win);
}

#[test]
fn reset_replays_the_same_layout() {
    let mut c = GameController::new(10, 10, 5, 1234).unwrap();
    let first_mines = c.game_board.is_crab.clone();
    let left = c.game_board.px_left;
    let top = c.game_board.px_top;
    c.mouse_input.record_button_click(PointerButton::Left, left + 1, top + 1, true);
    c.mouse_input.record_button_click(PointerButton::Left, left + 1, top + 1, false);
    c.update(None);
    c.update(Some(BoardCommand::Reset));
    assert_eq!(c.game_board.is_crab, first_mines);
    for i in 0..100 {
        assert!(!c.game_board.is_uncovered[i]);
    }
    assert!(!c.game_board.game_over);
}

#[test]
fn change_command_resizes_the_board() {
    let mut c = GameController::new(10, 10, 5, 9).unwrap();
    let cmd = BoardCommand::Change(ChangeBoardCommand::new(Some(15), Some(10), None));
    c.update(Some(cmd));
    assert_eq!(c.game_board.width, 15);
    assert_eq!(c.game_board.height, 10);
    assert_eq!(c.game_board.crab_ratio, 5);
}

#[test]
fn invalid_change_is_rejected_and_keeps_the_board() {
    let mut c = GameController::new(10, 10, 5, 9).unwrap();
    let mines = c.game_board.is_crab.clone();
    assert_eq!(
        c.change(Some(0), None, None).unwrap_err(),
        ConfigurationError::DimensionsOutOfRange
    );
    assert_eq!(
        c.change(None, None, Some(0)).unwrap_err(),
        ConfigurationError::DenominatorZero
    );
    assert_eq!(c.game_board.is_crab, mines);
    assert_eq!(c.game_board.width, 10);
}

#[test]
fn change_keeps_unnamed_settings() {
    let mut c = GameController::new(10, 10, 8, 9).unwrap();
    c.change(None, None, Some(5)).unwrap();
    assert_eq!(c.game_board.width, 10);
    assert_eq!(c.game_board.height, 10);
    assert_eq!(c.game_board.crab_ratio, 5);
}

#[test]
fn losing_frame_shows_the_mines() {
    let mut c = controller_with_layout(2, 2, &[0, 3]);
    let left = c.game_board.px_left;
    let top = c.game_board.px_top;
    c.mouse_input.record_button_click(PointerButton::Left, left + 1, top + 1, true);
    c.mouse_input.record_button_click(PointerButton::Left, left + 1, top + 1, false);
    c.update(None);
    assert!(c.game_board.game_over);
    assert!(!c.game_board.win);
    assert!(c.game_board.is_uncovered[0]);
    assert!(c.game_board.is_uncovered[3]);
}

#[test]
fn panel_maps_points_to_commands() {
    assert_eq!(panel_command_at(45, 97), Some(BoardCommand::Reset));
    assert_eq!(panel_command_at(141, 129), Some(BoardCommand::Reset));
    assert_eq!(
        panel_command_at(50, 165),
        Some(BoardCommand::Change(ChangeBoardCommand::new(Some(10), Some(10), None)))
    );
    assert_eq!(
        panel_command_at(50, 355),
        Some(BoardCommand::Change(ChangeBoardCommand::new(None, None, Some(10))))
    );
    // On a shared edge pixel row the lower button wins, as the panel polls
    // the buttons in order and keeps the last hit.
    assert_eq!(
        panel_command_at(50, 193),
        Some(BoardCommand::Change(ChangeBoardCommand::new(Some(15), Some(10), None)))
    );
    assert_eq!(panel_command_at(44, 97), None);
    assert_eq!(panel_command_at(45, 96), None);
    assert_eq!(panel_command_at(500, 300), None);
}

#[test]
fn panel_issues_a_command_only_on_a_remembered_release() {
    let mut c = GameController::new(10, 10, 5, 3).unwrap();
    // Cursor over the reset button, but no release yet: nothing fires.
    c.mouse_input.record_button_click(PointerButton::Left, 50, 100, true);
    assert_eq!(panel_command(&c.mouse_input), None);
    // The release makes the command fire at the current cursor position.
    c.mouse_input.record_button_click(PointerButton::Left, 50, 100, false);
    assert_eq!(panel_command(&c.mouse_input), Some(BoardCommand::Reset));
    // Consuming the frame clears the memory, so the next frame is quiet.
    c.update(panel_command(&c.mouse_input));
    assert_eq!(panel_command(&c.mouse_input), None);
}
