//! Movement intent from held keys, and when the status screen may open.
use vstd::prelude::*;

verus! {

/// Cardinal movement direction.
#[derive(Debug, Clone, Copy, PartialEq, Eq, Structural)]
pub enum Direction {
    Up,
    Down,
    Left,
    Right,
}

/// The current frame's movement intent.
#[derive(Debug, Clone, Copy, PartialEq, Eq, Structural)]
pub struct MovementIntent {
    pub direction: Option<Direction>,
}

impl MovementIntent {
    pub fn new() -> (r: Self)
        ensures
            r.direction is None,
    {
        MovementIntent { direction: None }
    }
}

/// Which movement keys are held (either key of each pair: W or arrow up,
/// A or arrow left, S or arrow down, D or arrow right).
#[derive(Debug, Clone, Copy, PartialEq, Eq, Structural)]
pub struct MovementKeys {
    pub up: bool,
    pub left: bool,
    pub down: bool,
    pub right: bool,
}

/// The direction the held keys ask for; with several held, up wins over
/// left, left over down, and down over right.
pub open spec fn intended_direction(keys: MovementKeys) -> Option<Direction> {
    if keys.up {
        Some(Direction::Up)
    } else if keys.left {
        Some(Direction::Left)
    } else if keys.down {
        Some(Direction::Down)
    } else if keys.right {
        Some(Direction::Right)
    } else {
        None
    }
}

/// Writes this frame's movement intent from the held keys.
pub fn read_input(keys: MovementKeys, intent: &mut MovementIntent)
    ensures
        final(intent).direction == intended_direction(keys),
{
    intent.direction = if keys.up {
        Some(Direction::Up)
    } else if keys.left {
        Some(Direction::Left)
    } else if keys.down {
        Some(Direction::Down)
    } else if keys.right {
        Some(Direction::Right)
    } else {
        None
    };
}

/// Whether Escape opens the status screen: only during free play, with no
/// dialog, selection prompt or action sequence in progress.
pub fn open_status_on_escape(
    escape_pressed: bool,
    dialog_active: bool,
    selection_active: bool,
    queue_active: bool,
) -> (r: bool)
    ensures
        r == (escape_pressed && !dialog_active && !selection_active && !queue_active),
{
    if dialog_active || selection_active {
        return false;
    }
    if queue_active {
        return false;
    }
    escape_pressed
}

} // verus!
