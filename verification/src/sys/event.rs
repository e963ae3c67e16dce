//! The state of the mouse buttons.

use vstd::prelude::*;
use vstd::std_specs::convert::{FromSpecImpl, TryFromSpecImpl};

verus! {

#[derive(Debug, Clone, Copy, PartialEq, Eq, Structural)]
pub enum MouseState {
    Up,
    Down,
}

/// Code of a cell that was never set.
pub const MOUSE_STATE_UNKNOWN: u8 = 0;

/// Code of [`MouseState::Up`].
pub const MOUSE_STATE_UP: u8 = 1;

/// Code of [`MouseState::Down`].
pub const MOUSE_STATE_DOWN: u8 = 2;

pub open spec fn mouse_code(state: MouseState) -> u8 {
    match state {
        MouseState::Up => MOUSE_STATE_UP,
        MouseState::Down => MOUSE_STATE_DOWN,
    }
}

pub open spec fn mouse_decode(code: u8) -> Result<MouseState, ()> {
    if code == MOUSE_STATE_UP {
        Ok(MouseState::Up)
    } else if code == MOUSE_STATE_DOWN {
        Ok(MouseState::Down)
    } else {
        Err(())
    }
}

impl FromSpecImpl<MouseState> for u8 {
    open spec fn obeys_from_spec() -> bool {
        true
    }

    open spec fn from_spec(state: MouseState) -> u8 {
        mouse_code(state)
    }
}

impl From<MouseState> for u8 {
    fn from(state: MouseState) -> (code: u8) {
        match state {
            MouseState::Up => MOUSE_STATE_UP,
            MouseState::Down => MOUSE_STATE_DOWN,
        }
    }
}

impl TryFromSpecImpl<u8> for MouseState {
    open spec fn obeys_try_from_spec() -> bool {
        true
    }

    open spec fn try_from_spec(code: u8) -> Result<MouseState, ()> {
        mouse_decode(code)
    }
}

impl TryFrom<u8> for MouseState {
    type Error = ();

    fn try_from(code: u8) -> (state: Result<MouseState, ()>) {
        if code == MOUSE_STATE_UP {
            Ok(MouseState::Up)
        } else if code == MOUSE_STATE_DOWN {
            Ok(MouseState::Down)
        } else {
            Err(())
        }
    }
}

/// Holds the code of the last button state seen.
#[derive(Debug, Clone, Copy, PartialEq, Eq, Structural)]
pub struct MouseCell {
    pub code: u8,
}

impl MouseCell {
    pub open spec fn state(self) -> Option<MouseState> {
        match mouse_decode(self.code) {
            Ok(state) => Some(state),
            Err(_) => None,
        }
    }

    pub fn new() -> (cell: MouseCell)
        ensures
            cell.code == MOUSE_STATE_UNKNOWN,
            cell.state() is None,
    {
        MouseCell { code: MOUSE_STATE_UNKNOWN }
    }
}

pub fn set_mouse_state(cell: &mut MouseCell, state: MouseState)
    ensures
        final(cell).code == mouse_code(state),
        final(cell).state() == Some(state),
{
    cell.code = u8::from(state);
}

pub fn get_mouse_state(cell: &MouseCell) -> (state: Option<MouseState>)
    ensures
        state == cell.state(),
{
    match MouseState::try_from(cell.code) {
        Ok(state) => Some(state),
        Err(_) => None,
    }
}

/// Decoding a state's code gives the state back, and no other code decodes to
/// it.
pub proof fn law_mouse_codes_round_trip(state: MouseState, code: u8)
    ensures
        mouse_decode(mouse_code(state)) == Ok::<MouseState, ()>(state),
        mouse_decode(code) == Ok::<MouseState, ()>(state) ==> code == mouse_code(state),
{
}

/// Nothing seen is coded 0, a released button 1 and a pressed one 2; no other code
/// means anything.
pub proof fn law_mouse_codes(code: u8)
    ensures
        mouse_decode(1) == Ok::<MouseState, ()>(MouseState::Up),
        mouse_decode(2) == Ok::<MouseState, ()>(MouseState::Down),
        mouse_code(MouseState::Up) == 1,
        mouse_code(MouseState::Down) == 2,
        code != 1 && code != 2 ==> mouse_decode(code) is Err,
        MOUSE_STATE_UNKNOWN == 0,
{
}

} // verus!
