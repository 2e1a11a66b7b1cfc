use vstd::prelude::*;

use crate::board::BoardModel;
use crate::board::ConfigurationError;
use crate::board::GameBoard;
use crate::board::config_ok;
use crate::board::count_flags;
use crate::board::count_mines;
use crate::board::cycle_step;
use crate::board::generated_model;
use crate::board::spec_tile_hit;
use crate::board::win_step;
use crate::flood::reveal_step;
use crate::input::MouseInputHandler;
use crate::input::positions_cleared;

verus! {

/// A deferred request to rebuild the board with new settings; a field left
/// empty keeps the current value.
#[derive(Clone, Copy, Debug, PartialEq, Eq, Structural)]
pub struct ChangeBoardCommand {
    pub width: Option<u16>,
    pub height: Option<u16>,
    pub crab_ratio: Option<u16>,
}

impl ChangeBoardCommand {
    pub fn new(width: Option<u16>, height: Option<u16>, crab_ratio: Option<u16>) -> (r:
        ChangeBoardCommand)
        ensures
            r.width == width,
            r.height == height,
            r.crab_ratio == crab_ratio,
    {
        ChangeBoardCommand { width, height, crab_ratio }
    }
}

/// The closed set of commands the panel can hand the controller for one
/// frame.
#[derive(Clone, Copy, Debug, PartialEq, Eq, Structural)]
pub enum BoardCommand {
    Reset,
    Change(ChangeBoardCommand),
}

/// Width of one panel button, in pixels.
pub const PANEL_BUTTON_WIDTH: i32 = 96;

/// Height of one panel button, in pixels.
pub const PANEL_BUTTON_HEIGHT: i32 = 32;

/// Left pixel edge shared by the whole button column.
pub const PANEL_BUTTON_LEFT: i32 = 45;

/// Whether a pixel point lies on the panel button whose top edge is `top`;
/// all buttons share one column, and their edges count as inside.
pub open spec fn spec_on_panel_button(x: int, y: int, top: int) -> bool {
    &&& PANEL_BUTTON_LEFT <= x <= PANEL_BUTTON_LEFT + PANEL_BUTTON_WIDTH
    &&& top <= y <= top + PANEL_BUTTON_HEIGHT
}

/// The command of the panel button under a pixel point, if any.  The seven
/// buttons stand in one column at fixed offsets; where two buttons share an
/// edge pixel row, the lower button wins, as the panel polls them in order
/// and keeps the last hit.
pub open spec fn spec_panel_command_at(x: int, y: int) -> Option<BoardCommand> {
    if spec_on_panel_button(x, y, 353) {
        Some(
            BoardCommand::Change(
                ChangeBoardCommand { width: None, height: None, crab_ratio: Some(10) },
            ),
        )
    } else if spec_on_panel_button(x, y, 321) {
        Some(
            BoardCommand::Change(
                ChangeBoardCommand { width: None, height: None, crab_ratio: Some(8) },
            ),
        )
    } else if spec_on_panel_button(x, y, 289) {
        Some(
            BoardCommand::Change(
                ChangeBoardCommand { width: None, height: None, crab_ratio: Some(5) },
            ),
        )
    } else if spec_on_panel_button(x, y, 225) {
        Some(
            BoardCommand::Change(
                ChangeBoardCommand { width: Some(15), height: Some(15), crab_ratio: None },
            ),
        )
    } else if spec_on_panel_button(x, y, 193) {
        Some(
            BoardCommand::Change(
                ChangeBoardCommand { width: Some(15), height: Some(10), crab_ratio: None },
            ),
        )
    } else if spec_on_panel_button(x, y, 161) {
        Some(
            BoardCommand::Change(
                ChangeBoardCommand { width: Some(10), height: Some(10), crab_ratio: None },
            ),
        )
    } else if spec_on_panel_button(x, y, 97) {
        Some(BoardCommand::Reset)
    } else {
        None
    }
}

/// The command the panel issues for one frame: one is issued exactly when a
/// primary release is remembered from this frame and the cursor stands over
/// a button.
pub open spec fn spec_panel_command(mouse: MouseInputHandler) -> Option<BoardCommand> {
    if mouse.left_button_handler.last_release_position is Some {
        spec_panel_command_at(mouse.x as int, mouse.y as int)
    } else {
        None
    }
}

/// The command of the panel button under the pixel point `(x, y)`, if any.
pub fn panel_command_at(x: i32, y: i32) -> (r: Option<BoardCommand>)
    ensures
        r == spec_panel_command_at(x as int, y as int),
{
    let mut result: Option<BoardCommand> = None;
    if on_panel_button(x, y, 97) {
        result = Some(BoardCommand::Reset);
    }
    if on_panel_button(x, y, 161) {
        result = Some(BoardCommand::Change(ChangeBoardCommand::new(Some(10), Some(10), None)));
    }
    if on_panel_button(x, y, 193) {
        result = Some(BoardCommand::Change(ChangeBoardCommand::new(Some(15), Some(10), None)));
    }
    if on_panel_button(x, y, 225) {
        result = Some(BoardCommand::Change(ChangeBoardCommand::new(Some(15), Some(15), None)));
    }
    if on_panel_button(x, y, 289) {
        result = Some(BoardCommand::Change(ChangeBoardCommand::new(None, None, Some(5))));
    }
    if on_panel_button(x, y, 321) {
        result = Some(BoardCommand::Change(ChangeBoardCommand::new(None, None, Some(8))));
    }
    if on_panel_button(x, y, 353) {
        result = Some(BoardCommand::Change(ChangeBoardCommand::new(None, None, Some(10))));
    }
    result
}

/// Whether a pixel point lies on the panel button whose top edge is `top`.
pub fn on_panel_button(x: i32, y: i32, top: i32) -> (r: bool)
    requires
        0 <= top <= 100000,
    ensures
        r == spec_on_panel_button(x as int, y as int, top as int),
{
    x >= PANEL_BUTTON_LEFT && x <= PANEL_BUTTON_LEFT + PANEL_BUTTON_WIDTH && y >= top && y <= top
        + PANEL_BUTTON_HEIGHT
}

/// Read this frame's pointer state and hand back the command of the button
/// it lands on: issued when a primary release is remembered and the cursor
/// stands over a button.
pub fn panel_command(mouse: &MouseInputHandler) -> (r: Option<BoardCommand>)
    ensures
        r == spec_panel_command(*mouse),
{
    match mouse.left_button_handler.last_release_position {
        Some(_) => panel_command_at(mouse.x, mouse.y),
        None => None,
    }
}

/// A requested dimension, or the board's current one where the request
/// leaves it open.
pub open spec fn effective_dim(requested: Option<u16>, current: int) -> u16 {
    match requested {
        Some(v) => v,
        None => current as u16,
    }
}

/// The board after the frame's pending command: a reset redraws the same
/// configuration from the stored seed; a change does so with the requested
/// settings where they are acceptable and leaves the board alone where they
/// are not; no command leaves the board alone.
pub open spec fn command_step(m: BoardModel, command: Option<BoardCommand>, seed: u64) -> BoardModel {
    match command {
        None => m,
        Some(BoardCommand::Reset) => generated_model(
            m.width as u16,
            m.height as u16,
            m.crab_ratio as u16,
            seed,
        ),
        Some(BoardCommand::Change(c)) => {
            let ew = effective_dim(c.width, m.width);
            let eh = effective_dim(c.height, m.height);
            let er = effective_dim(c.crab_ratio, m.crab_ratio);
            if config_ok(ew, eh, er) {
                generated_model(ew, eh, er, seed)
            } else {
                m
            }
        },
    }
}

/// The board after the frame's pointer input: a remembered primary release
/// over a tile reveals it, then a remembered secondary release over a tile
/// cycles its marker.
pub open spec fn board_input_step(m: BoardModel, mouse: MouseInputHandler) -> BoardModel {
    let m1 = match mouse.left_button_handler.last_release_position {
        Some(pos) => match spec_tile_hit(m, pos.0 as int, pos.1 as int) {
            Some(i) => reveal_step(m, i),
            None => m,
        },
        None => m,
    };
    match mouse.right_button_handler.last_release_position {
        Some(pos) => match spec_tile_hit(m1, pos.0 as int, pos.1 as int) {
            Some(i) => cycle_step(m1, i),
            None => m1,
        },
        None => m1,
    }
}

/// The board after one whole frame: pointer input, then the pending
/// command, then the win evaluation.
pub open spec fn frame_step(
    m: BoardModel,
    mouse: MouseInputHandler,
    command: Option<BoardCommand>,
    seed: u64,
) -> BoardModel {
    win_step(command_step(board_input_step(m, mouse), command, seed))
}

/// Flags still owed: the number of mines minus the number of flags set;
/// negative when the player has over-flagged.
pub open spec fn remaining_flags(m: BoardModel) -> int {
    count_mines(m.mines, m.size()) - count_flags(m.marks, m.size())
}

/// Orchestrates one game session: owns the board and the pointer input,
/// keeps the seed every rebuild is drawn from, and recomputes the flag
/// counter each frame.
#[derive(Debug)]
pub struct GameController {
    pub game_board: GameBoard,
    pub mouse_input: MouseInputHandler,
    pub rnd_seed: u64,
    pub num_flags_display: i32,
}

impl GameController {
    /// Bounds under which every controller operation is defined.
    pub open spec fn wf(self) -> bool {
        self.game_board.wf()
    }

    /// Start a session: generate the first board from the configuration and
    /// the seed, with fresh input state and the flag counter at zero.
    pub fn new(width: u16, height: u16, crab_ratio: u16, seed: u64) -> (r: Result<
        GameController,
        ConfigurationError,
    >)
        ensures
            config_ok(width, height, crab_ratio) <==> r is Ok,
            r is Ok ==> r->Ok_0.wf() && r->Ok_0.game_board@ =~= generated_model(
                width,
                height,
                crab_ratio,
                seed,
            ) && r->Ok_0.rnd_seed == seed && r->Ok_0.num_flags_display == 0
                && r->Ok_0.mouse_input.left_button_handler.past_state is None
                && r->Ok_0.mouse_input.right_button_handler.past_state is None
                && r->Ok_0.mouse_input.middle_button_handler.past_state is None,
            !(1 <= width <= 15 && 1 <= height <= 15) ==> r == Result::<
                GameController,
                ConfigurationError,
            >::Err(ConfigurationError::DimensionsOutOfRange),
            (1 <= width <= 15 && 1 <= height <= 15 && crab_ratio == 0) ==> r == Result::<
                GameController,
                ConfigurationError,
            >::Err(ConfigurationError::DenominatorZero),
    {
        match GameBoard::new(width, height, crab_ratio, seed) {
            Ok(board) => Ok(
                GameController {
                    game_board: board,
                    mouse_input: MouseInputHandler::new(),
                    rnd_seed: seed,
                    num_flags_display: 0,
                },
            ),
            Err(e) => Err(e),
        }
    }

    /// Rebuild the board with its current settings from the stored seed, so
    /// that a reset replays the same layout.
    pub fn reset(&mut self)
        requires
            old(self).wf(),
        ensures
            final(self).wf(),
            final(self).game_board@ =~= generated_model(
                old(self).game_board.width,
                old(self).game_board.height,
                old(self).game_board.crab_ratio,
                old(self).rnd_seed,
            ),
            final(self).mouse_input == old(self).mouse_input,
            final(self).rnd_seed == old(self).rnd_seed,
            final(self).num_flags_display == old(self).num_flags_display,
    {
        match GameBoard::new(
            self.game_board.width,
            self.game_board.height,
            self.game_board.crab_ratio,
            self.rnd_seed,
        ) {
            Ok(board) => {
                self.game_board = board;
            },
            Err(_) => {
                proof {
                    assert(false);
                }
            },
        }
    }

    /// Rebuild the board from the stored seed with the requested settings,
    /// keeping any the request leaves open; an unacceptable configuration is
    /// rejected and the board stands as it was.
    pub fn change(&mut self, width: Option<u16>, height: Option<u16>, crab_ratio: Option<u16>) -> (r:
        Result<(), ConfigurationError>)
        requires
            old(self).wf(),
        ensures
            final(self).wf(),
            final(self).mouse_input == old(self).mouse_input,
            final(self).rnd_seed == old(self).rnd_seed,
            final(self).num_flags_display == old(self).num_flags_display,
            ({
                let ew = effective_dim(width, old(self).game_board@.width);
                let eh = effective_dim(height, old(self).game_board@.height);
                let er = effective_dim(crab_ratio, old(self).game_board@.crab_ratio);
                &&& (config_ok(ew, eh, er) <==> r is Ok)
                &&& (r is Ok ==> final(self).game_board@ =~= generated_model(
                    ew,
                    eh,
                    er,
                    old(self).rnd_seed,
                ))
                &&& (r is Err ==> final(self).game_board == old(self).game_board)
                &&& (!(1 <= ew <= 15 && 1 <= eh <= 15) ==> r == Result::<
                    (),
                    ConfigurationError,
                >::Err(ConfigurationError::DimensionsOutOfRange))
                &&& ((1 <= ew <= 15 && 1 <= eh <= 15 && er == 0) ==> r == Result::<
                    (),
                    ConfigurationError,
                >::Err(ConfigurationError::DenominatorZero))
            }),
    {
        let effective_width = match width {
            Some(v) => v,
            None => self.game_board.width,
        };
        let effective_height = match height {
            Some(v) => v,
            None => self.game_board.height,
        };
        let effective_crab_ratio = match crab_ratio {
            Some(v) => v,
            None => self.game_board.crab_ratio,
        };
        match GameBoard::new(effective_width, effective_height, effective_crab_ratio, self.rnd_seed) {
            Ok(board) => {
                self.game_board = board;
                Ok(())
            },
            Err(e) => Err(e),
        }
    }

    /// Run one frame: apply the remembered pointer releases to the board,
    /// then the pending command, recompute the flag counter, evaluate the
    /// win condition, and clear the per-frame input memory.
    pub fn update(&mut self, command: Option<BoardCommand>)
        requires
            old(self).wf(),
        ensures
            final(self).wf(),
            final(self).rnd_seed == old(self).rnd_seed,
            final(self).game_board@ =~= frame_step(
                old(self).game_board@,
                old(self).mouse_input,
                command,
                old(self).rnd_seed,
            ),
            final(self).num_flags_display as int == remaining_flags(
                command_step(
                    board_input_step(old(self).game_board@, old(self).mouse_input),
                    command,
                    old(self).rnd_seed,
                ),
            ),
            final(self).mouse_input.left_button_handler == positions_cleared(
                old(self).mouse_input.left_button_handler,
            ),
            final(self).mouse_input.right_button_handler == positions_cleared(
                old(self).mouse_input.right_button_handler,
            ),
            final(self).mouse_input.middle_button_handler == positions_cleared(
                old(self).mouse_input.middle_button_handler,
            ),
            final(self).mouse_input.x == old(self).mouse_input.x,
            final(self).mouse_input.y == old(self).mouse_input.y,
    {
        let ghost m0: BoardModel = self.game_board@;
        let ghost mouse0: MouseInputHandler = self.mouse_input;
        match self.mouse_input.left_button_handler.last_release_position {
            Some(pos) => {
                match self.game_board.mouse_input_to_tile_index(pos.0, pos.1) {
                    Some(i) => self.game_board.reveal_tile(i),
                    None => {},
                }
            },
            None => {},
        }
        proof {
            assert(self.game_board@ =~= match mouse0.left_button_handler.last_release_position {
                Some(pos) => match spec_tile_hit(m0, pos.0 as int, pos.1 as int) {
                    Some(i) => reveal_step(m0, i),
                    None => m0,
                },
                None => m0,
            });
        }
        let ghost m1: BoardModel = self.game_board@;
        match self.mouse_input.right_button_handler.last_release_position {
            Some(pos) => {
                match self.game_board.mouse_input_to_tile_index(pos.0, pos.1) {
                    Some(i) => self.game_board.cycle_marker(i),
                    None => {},
                }
            },
            None => {},
        }
        proof {
            assert(self.game_board@ =~= board_input_step(m0, mouse0));
        }
        match command {
            None => {},
            Some(BoardCommand::Reset) => self.reset(),
            Some(BoardCommand::Change(c)) => {
                let _ = self.change(c.width, c.height, c.crab_ratio);
            },
        }
        proof {
            assert(self.game_board@ =~= command_step(
                board_input_step(m0, mouse0),
                command,
                self.rnd_seed,
            ));
        }
        let crabs = self.game_board.num_crabs();
        let flags = self.game_board.num_flags();
        self.num_flags_display = (crabs as i32) - (flags as i32);
        self.game_board.is_win();
        self.mouse_input.clear_stored_positions();
        proof {
            assert(self.game_board@ =~= frame_step(m0, mouse0, command, old(self).rnd_seed));
        }
    }
}

} // verus!
