use vstd::prelude::*;

verus! {

/// The two observable levels of a physical pointer button.
#[derive(Clone, Copy, Debug, PartialEq, Eq, Structural)]
pub enum ButtonState {
    Released,
    Pressed,
}

/// Which pointer button a raw sample belongs to.
#[derive(Clone, Copy, Debug, PartialEq, Eq, Structural)]
pub enum PointerButton {
    Left,
    Right,
    Middle,
}

/// Edge detector for one physical button: turns level samples into one-shot
/// click / hold / release signals and remembers where the last click and the
/// last release happened until the owner clears them.
#[derive(Debug)]
pub struct ButtonHandler {
    pub past_state: Option<ButtonState>,
    pub is_initial_click: bool,
    pub is_held: bool,
    pub is_initial_release: bool,
    pub last_click_position: Option<(i32, i32)>,
    pub last_release_position: Option<(i32, i32)>,
}

/// A sample starts a click exactly when the button is down now but was not
/// down before (a fresh handler counts as not down).
pub open spec fn click_edge(prev: Option<ButtonState>, new_state: ButtonState) -> bool {
    new_state == ButtonState::Pressed && prev != Some(ButtonState::Pressed)
}

/// A sample continues a hold exactly when the button is down now and was
/// already down before.
pub open spec fn hold_level(prev: Option<ButtonState>, new_state: ButtonState) -> bool {
    new_state == ButtonState::Pressed && prev == Some(ButtonState::Pressed)
}

/// A sample is a release edge exactly when the button is up now but was not
/// known to be up before (a fresh handler reports its first up sample).
pub open spec fn release_edge(prev: Option<ButtonState>, new_state: ButtonState) -> bool {
    new_state == ButtonState::Released && prev != Some(ButtonState::Released)
}

/// The whole transition table of the edge detector: the handler after one
/// raw sample `(new_state, x, y)`.
pub open spec fn pushed(h: ButtonHandler, new_state: ButtonState, x: i32, y: i32) -> ButtonHandler {
    ButtonHandler {
        past_state: Some(new_state),
        is_initial_click: click_edge(h.past_state, new_state),
        is_held: hold_level(h.past_state, new_state),
        is_initial_release: release_edge(h.past_state, new_state),
        last_click_position: if click_edge(h.past_state, new_state) {
            Some((x, y))
        } else {
            h.last_click_position
        },
        last_release_position: if release_edge(h.past_state, new_state) {
            Some((x, y))
        } else {
            h.last_release_position
        },
    }
}

/// A handler with its remembered positions dropped and everything else kept.
pub open spec fn positions_cleared(h: ButtonHandler) -> ButtonHandler {
    ButtonHandler {
        past_state: h.past_state,
        is_initial_click: h.is_initial_click,
        is_held: h.is_held,
        is_initial_release: h.is_initial_release,
        last_click_position: None,
        last_release_position: None,
    }
}

/// The state a motion sample re-broadcasts for a handler: its own previous
/// level, or `Released` while no button sample has arrived yet.
pub open spec fn motion_state(h: ButtonHandler) -> ButtonState {
    match h.past_state {
        Some(s) => s,
        None => ButtonState::Released,
    }
}

/// The signals of one sample never contradict each other: a sample is not
/// both a fresh click and a continued hold, and a release edge excludes both.
pub proof fn lemma_signals_exclusive(h: ButtonHandler, new_state: ButtonState, x: i32, y: i32)
    ensures
        !(pushed(h, new_state, x, y).is_initial_click && pushed(h, new_state, x, y).is_held),
        pushed(h, new_state, x, y).is_initial_release ==> !pushed(h, new_state, x, y).is_initial_click
            && !pushed(h, new_state, x, y).is_held,
{
}

impl ButtonHandler {
    pub fn new() -> (r: ButtonHandler)
        ensures
            r.past_state is None,
            !r.is_initial_click,
            !r.is_held,
            !r.is_initial_release,
            r.last_click_position is None,
            r.last_release_position is None,
    {
        ButtonHandler {
            past_state: None,
            is_initial_click: false,
            is_held: false,
            is_initial_release: false,
            last_click_position: None,
            last_release_position: None,
        }
    }

    /// Feed one raw level sample with the cursor position it was taken at.
    pub fn push(&mut self, new_state: ButtonState, x_pos: i32, y_pos: i32)
        ensures
            *final(self) == pushed(*old(self), new_state, x_pos, y_pos),
    {
        let was_pressed = match self.past_state {
            Some(ButtonState::Pressed) => true,
            _ => false,
        };
        let was_released = match self.past_state {
            Some(ButtonState::Released) => true,
            _ => false,
        };
        match new_state {
            ButtonState::Pressed => {
                self.is_initial_click = !was_pressed;
                self.is_held = was_pressed;
                self.is_initial_release = false;
                if !was_pressed {
                    self.last_click_position = Some((x_pos, y_pos));
                }
            },
            ButtonState::Released => {
                self.is_initial_click = false;
                self.is_held = false;
                self.is_initial_release = !was_released;
                if !was_released {
                    self.last_release_position = Some((x_pos, y_pos));
                }
            },
        }
        self.past_state = Some(new_state);
    }

    /// Forget the remembered click and release positions; the level memory
    /// and the signal flags stay as they are.
    pub fn clear_stored_positions(&mut self)
        ensures
            *final(self) == positions_cleared(*old(self)),
    {
        self.last_release_position = None;
        self.last_click_position = None;
    }
}

/// Owns one edge detector per tracked pointer button plus the last known
/// cursor position; every sample overwrites the cursor position.
#[derive(Debug)]
pub struct MouseInputHandler {
    pub left_button_handler: ButtonHandler,
    pub right_button_handler: ButtonHandler,
    pub middle_button_handler: ButtonHandler,
    pub x: i32,
    pub y: i32,
}

/// Turn a raw down/up flag into a button level.
pub open spec fn level_of(is_down: bool) -> ButtonState {
    if is_down {
        ButtonState::Pressed
    } else {
        ButtonState::Released
    }
}

impl MouseInputHandler {
    pub fn new() -> (r: MouseInputHandler)
        ensures
            r.left_button_handler.past_state is None,
            r.right_button_handler.past_state is None,
            r.middle_button_handler.past_state is None,
            r.left_button_handler.last_click_position is None,
            r.left_button_handler.last_release_position is None,
            r.right_button_handler.last_click_position is None,
            r.right_button_handler.last_release_position is None,
            r.middle_button_handler.last_click_position is None,
            r.middle_button_handler.last_release_position is None,
            !r.left_button_handler.is_initial_click,
            !r.left_button_handler.is_held,
            !r.left_button_handler.is_initial_release,
            !r.right_button_handler.is_initial_click,
            !r.right_button_handler.is_held,
            !r.right_button_handler.is_initial_release,
            !r.middle_button_handler.is_initial_click,
            !r.middle_button_handler.is_held,
            !r.middle_button_handler.is_initial_release,
            r.x == 0 && r.y == 0,
    {
        MouseInputHandler {
            left_button_handler: ButtonHandler::new(),
            right_button_handler: ButtonHandler::new(),
            middle_button_handler: ButtonHandler::new(),
            x: 0,
            y: 0,
        }
    }

    /// Feed a press or release sample for one button; the cursor position is
    /// overwritten unconditionally.
    pub fn record_button_click(&mut self, button: PointerButton, x: i32, y: i32, is_down: bool)
        ensures
            final(self).x == x && final(self).y == y,
            button == PointerButton::Left ==> final(self).left_button_handler == pushed(
                old(self).left_button_handler,
                level_of(is_down),
                x,
                y,
            ) && final(self).right_button_handler == old(self).right_button_handler && final(self).middle_button_handler == old(self).middle_button_handler,
            button == PointerButton::Right ==> final(self).right_button_handler == pushed(
                old(self).right_button_handler,
                level_of(is_down),
                x,
                y,
            ) && final(self).left_button_handler == old(self).left_button_handler && final(self).middle_button_handler == old(self).middle_button_handler,
            button == PointerButton::Middle ==> final(self).middle_button_handler == pushed(
                old(self).middle_button_handler,
                level_of(is_down),
                x,
                y,
            ) && final(self).left_button_handler == old(self).left_button_handler && final(self).right_button_handler == old(self).right_button_handler,
    {
        let button_state = if is_down {
            ButtonState::Pressed
        } else {
            ButtonState::Released
        };
        match button {
            PointerButton::Left => self.left_button_handler.push(button_state, x, y),
            PointerButton::Right => self.right_button_handler.push(button_state, x, y),
            PointerButton::Middle => self.middle_button_handler.push(button_state, x, y),
        }
        self.x = x;
        self.y = y;
    }

    /// Re-broadcast each handler's own level at the new cursor position, so
    /// that drag-style reads stay fresh without synthesizing press or release
    /// edges.
    pub fn record_mouse_motion(&mut self, x: i32, y: i32)
        ensures
            final(self).x == x && final(self).y == y,
            final(self).left_button_handler == pushed(
                old(self).left_button_handler,
                motion_state(old(self).left_button_handler),
                x,
                y,
            ),
            final(self).right_button_handler == pushed(
                old(self).right_button_handler,
                motion_state(old(self).right_button_handler),
                x,
                y,
            ),
            final(self).middle_button_handler == pushed(
                old(self).middle_button_handler,
                motion_state(old(self).middle_button_handler),
                x,
                y,
            ),
    {
        let left_button_state = match self.left_button_handler.past_state {
            Some(s) => s,
            None => ButtonState::Released,
        };
        self.left_button_handler.push(left_button_state, x, y);

        let right_button_state = match self.right_button_handler.past_state {
            Some(s) => s,
            None => ButtonState::Released,
        };
        self.right_button_handler.push(right_button_state, x, y);

        let middle_button_state = match self.middle_button_handler.past_state {
            Some(s) => s,
            None => ButtonState::Released,
        };
        self.middle_button_handler.push(middle_button_state, x, y);

        self.x = x;
        self.y = y;
    }

    /// Forward the per-frame cleanup to every handler.
    pub fn clear_stored_positions(&mut self)
        ensures
            final(self).left_button_handler == positions_cleared(old(self).left_button_handler),
            final(self).right_button_handler == positions_cleared(old(self).right_button_handler),
            final(self).middle_button_handler == positions_cleared(
                old(self).middle_button_handler,
            ),
            final(self).x == old(self).x && final(self).y == old(self).y,
    {
        self.left_button_handler.clear_stored_positions();
        self.right_button_handler.clear_stored_positions();
        self.middle_button_handler.clear_stored_positions();
    }
}

} // verus!
