use crate::geometry::{Point2, Vector2};
use vstd::prelude::*;

verus! {

/// Everything that travels over a game connection.
#[derive(PartialEq, Debug, Clone)]
pub enum Message {
    Ping,
    ClientMessage(ClientMessage),
    ServerMessage(ServerMessage),
}

/// What a player's client asks of the server.
#[derive(PartialEq, Eq, Debug, Clone, Copy, Structural)]
pub enum ClientMessage {
    EnterGame,
    PaddleUp,
    PaddleDown,
    PaddleStop,
    TogglePause,
}

/// What the server tells a player's client.
#[derive(PartialEq, Debug, Clone)]
pub enum ServerMessage {
    SetName(String),
    PaddleUp(PaddleId),
    PaddleDown(PaddleId),
    PaddleStop(PaddleId),
    GameState(GameState),
}

/// Which side of the field a paddle is on.
#[derive(PartialEq, Eq, Debug, Clone, Copy, Structural)]
pub enum PaddleId {
    Left,
    Right,
}

/// How a paddle is moving.
#[derive(PartialEq, Eq, Debug, Clone, Copy, Structural)]
pub enum PaddleState {
    Up,
    Down,
    Still,
}

impl Default for PaddleState {
    fn default() -> (state: Self)
        ensures
            state == PaddleState::Still,
    {
        PaddleState::Still
    }
}

/// A snapshot of a match, as the server broadcasts it.
#[derive(PartialEq, Debug, Clone)]
pub struct GameState {
    pub left_paddle_y: i64,
    pub left_paddle_state: PaddleState,
    pub right_paddle_y: i64,
    pub right_paddle_state: PaddleState,
    pub left_player_name: String,
    pub right_player_name: String,
    pub ball_position: Point2,
    pub ball_velocity: Vector2,
    pub paused: bool,
}

} // verus!
