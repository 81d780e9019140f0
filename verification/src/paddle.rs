use crate::geometry::{saturate, shift, Point2};
use crate::network::message::PaddleState;
use vstd::prelude::*;

verus! {

/// How far a paddle moves in one tick: 8 pixels up (towards smaller y),
/// 8 pixels down, or not at all.
pub open spec fn paddle_step(state: PaddleState) -> int {
    match state {
        PaddleState::Up => -8,
        PaddleState::Down => 8,
        PaddleState::Still => 0,
    }
}

/// Where a paddle at `position` moving in `state` is after one tick.
pub open spec fn moved_position(position: Point2, state: PaddleState) -> Point2 {
    Point2 { x: position.x, y: saturate(position.y + paddle_step(state)) }
}

/// Moves a paddle at `position` by one tick as `state` says.
pub fn move_paddle(position: Point2, state: PaddleState) -> (moved: Point2)
    ensures
        moved == moved_position(position, state),
{
    let step: i64 = match state {
        PaddleState::Up => -8,
        PaddleState::Down => 8,
        PaddleState::Still => 0,
    };
    Point2 { x: position.x, y: shift(position.y, step) }
}

/// The state that a paddle command sets: still when `stop_moving`, else up
/// when `up`, else down.
pub open spec fn commanded_state(stop_moving: bool, up: bool) -> PaddleState {
    if stop_moving {
        PaddleState::Still
    } else if up {
        PaddleState::Up
    } else {
        PaddleState::Down
    }
}

/// The state that a paddle command sets.
pub fn commanded(stop_moving: bool, up: bool) -> (state: PaddleState)
    ensures
        state == commanded_state(stop_moving, up),
{
    if stop_moving {
        PaddleState::Still
    } else if up {
        PaddleState::Up
    } else {
        PaddleState::Down
    }
}


/// A paddle moving up goes 8 pixels towards smaller y, moving down 8 pixels
/// towards larger y, and a still one stays (within the range of an `i64`);
/// it never moves sideways.
pub proof fn lemma_paddle_motion(position: Point2, state: PaddleState)
    ensures
        moved_position(position, state).x == position.x,
        state == PaddleState::Still ==> moved_position(position, state) == position,
        state == PaddleState::Up && position.y >= i64::MIN + 8 ==> moved_position(position, state).y
            == position.y - 8,
        state == PaddleState::Down && position.y <= i64::MAX - 8 ==> moved_position(
            position,
            state,
        ).y == position.y + 8,
{
}

/// A command to stop stops the paddle whatever else it says; otherwise it
/// moves up or down as asked.
pub proof fn lemma_commands(up: bool)
    ensures
        commanded_state(true, up) == PaddleState::Still,
        commanded_state(false, true) == PaddleState::Up,
        commanded_state(false, false) == PaddleState::Down,
{
}

} // verus!
