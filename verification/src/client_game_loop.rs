use crate::geometry::Point2;
use crate::network::message::{ClientMessage, Message, PaddleId, PaddleState, ServerMessage};
use crate::network::ws_event::WsEvent;
use crate::paddle::commanded_state;
use crate::simple_pong::{ContactCheck, PaddleView, SimplePong, SimplePongView};
use vstd::prelude::*;

verus! {

/// The keys that the game reacts to.
#[derive(Clone, Copy, Debug, PartialEq, Eq, Structural)]
pub enum Key {
    /// Moves the player's paddle up.
    W,
    /// Moves the player's paddle down.
    S,
    /// Pauses or resumes the local simulation.
    P,
    Other,
}

/// The client's side of a game: its simulation and which movement keys are
/// held.
pub struct ClientGame {
    simple_pong: SimplePong,
    is_w_pressed: bool,
    is_s_pressed: bool,
}

pub ghost struct ClientGameView {
    pub pong: SimplePongView,
    pub is_w_pressed: bool,
    pub is_s_pressed: bool,
}

impl View for ClientGame {
    type V = ClientGameView;

    closed spec fn view(&self) -> ClientGameView {
        ClientGameView {
            pong: self.simple_pong@,
            is_w_pressed: self.is_w_pressed,
            is_s_pressed: self.is_s_pressed,
        }
    }
}

impl ClientGameView {
    /// The game after `key` went down (`down`) or up, and the message it owes
    /// the server: `P` going down pauses or resumes; `W` (`S`) going up stops
    /// the paddle, going down while not held moves it up (down); anything
    /// else is ignored.
    pub open spec fn key_pressed(self, key: Key, down: bool) -> (ClientGameView, Option<ClientMessage>) {
        match key {
            Key::P => if down {
                (
                    ClientGameView {
                        pong: SimplePongView { paused: !self.pong.paused, ..self.pong },
                        ..self
                    },
                    None,
                )
            } else {
                (self, None)
            },
            Key::W => if !down {
                (ClientGameView { is_w_pressed: false, ..self }, Some(ClientMessage::PaddleStop))
            } else if !self.is_w_pressed {
                (ClientGameView { is_w_pressed: true, ..self }, Some(ClientMessage::PaddleUp))
            } else {
                (self, None)
            },
            Key::S => if !down {
                (ClientGameView { is_s_pressed: false, ..self }, Some(ClientMessage::PaddleStop))
            } else if !self.is_s_pressed {
                (ClientGameView { is_s_pressed: true, ..self }, Some(ClientMessage::PaddleDown))
            } else {
                (self, None)
            },
            Key::Other => (self, None),
        }
    }

    /// The game with a paddle command from the server applied.
    pub open spec fn commanded(self, paddle: PaddleId, stop_moving: bool, up: bool) -> ClientGameView {
        let state = commanded_state(stop_moving, up);
        ClientGameView {
            pong: if paddle == PaddleId::Left {
                SimplePongView {
                    left_paddle: PaddleView { state, ..self.pong.left_paddle },
                    ..self.pong
                }
            } else {
                SimplePongView {
                    right_paddle: PaddleView { state, ..self.pong.right_paddle },
                    ..self.pong
                }
            },
            ..self
        }
    }

    /// The game after an event on the connection: a paddle command from the
    /// server moves or stops that paddle; everything else is ignored.
    pub open spec fn event_received(self, event: WsEvent) -> ClientGameView {
        match event {
            WsEvent::Message(Message::ServerMessage(ServerMessage::PaddleUp(p))) => self.commanded(
                p,
                false,
                true,
            ),
            WsEvent::Message(Message::ServerMessage(ServerMessage::PaddleDown(p))) => self.commanded(
                p,
                false,
                false,
            ),
            WsEvent::Message(Message::ServerMessage(ServerMessage::PaddleStop(p))) => self.commanded(
                p,
                true,
                true,
            ),
            _ => self,
        }
    }
}

impl ClientGame {
    /// A new game: a new simulation and no key held.
    pub fn new() -> (game: Self)
        ensures
            game@ == (ClientGameView {
                pong: crate::simple_pong::initial_simple_pong(),
                is_w_pressed: false,
                is_s_pressed: false,
            }),
            game@.pong.wf(),
    {
        ClientGame { simple_pong: SimplePong::new(), is_w_pressed: false, is_s_pressed: false }
    }

    /// Handles a key going down (`down`) or up; returns the message owed to
    /// the server, if any.
    pub fn on_key(&mut self, key: Key, down: bool) -> (msg: Option<ClientMessage>)
        ensures
            (final(self)@, msg) == old(self)@.key_pressed(key, down),
    {
        match key {
            Key::P => {
                if down {
                    self.simple_pong.toggle_pause();
                }
                None
            },
            Key::W => {
                if !down {
                    self.is_w_pressed = false;
                    Some(ClientMessage::PaddleStop)
                } else if !self.is_w_pressed {
                    self.is_w_pressed = true;
                    Some(ClientMessage::PaddleUp)
                } else {
                    None
                }
            },
            Key::S => {
                if !down {
                    self.is_s_pressed = false;
                    Some(ClientMessage::PaddleStop)
                } else if !self.is_s_pressed {
                    self.is_s_pressed = true;
                    Some(ClientMessage::PaddleDown)
                } else {
                    None
                }
            },
            Key::Other => None,
        }
    }

    /// Handles an event on the connection to the server.
    pub fn on_event(&mut self, event: WsEvent)
        ensures
            final(self)@ == old(self)@.event_received(event),
    {
        match event {
            WsEvent::Message(Message::ServerMessage(ServerMessage::PaddleUp(p))) => {
                self.simple_pong.set_paddle_state(p == PaddleId::Left, false, true);
            },
            WsEvent::Message(Message::ServerMessage(ServerMessage::PaddleDown(p))) => {
                self.simple_pong.set_paddle_state(p == PaddleId::Left, false, false);
            },
            WsEvent::Message(Message::ServerMessage(ServerMessage::PaddleStop(p))) => {
                self.simple_pong.set_paddle_state(p == PaddleId::Left, true, true);
            },
            _ => {},
        }
    }

    /// One tick of the simulation; see `SimplePong::tick`.
    pub fn tick(&mut self) -> (check: Option<ContactCheck>)
        ensures
            final(self)@ == (ClientGameView { pong: old(self)@.pong.ticked(), ..old(self)@ }),
            final(self)@.pong.wf(),
            old(self)@.pong.paused ==> check is None,
            !old(self)@.pong.paused ==> match check {
                Some(c) => {
                    &&& c.ball == final(self)@.pong.ball.position
                    &&& c.ball_radius == final(self)@.pong.ball.shape.radius
                    &&& c.left_paddle == final(self)@.pong.left_paddle.position
                    &&& c.right_paddle == final(self)@.pong.right_paddle.position
                    &&& c.half_extents == final(self)@.pong.left_paddle.shape.half_extents
                    &&& c.half_extents == final(self)@.pong.right_paddle.shape.half_extents
                },
                None => false,
            },
    {
        self.simple_pong.tick()
    }

    /// See `SimplePong::resolve_contacts`.
    pub fn resolve_contacts(&mut self, hits_left: bool, hits_right: bool)
        ensures
            final(self)@ == (ClientGameView {
                pong: old(self)@.pong.contacts_resolved(hits_left, hits_right),
                ..old(self)@
            }),
            final(self)@.pong.wf(),
    {
        self.simple_pong.resolve_contacts(hits_left, hits_right)
    }

    /// The heights of the left and right paddle and the ball's position.
    pub fn get_drawables(&self) -> (drawables: (i64, i64, Point2))
        ensures
            drawables == (
                self@.pong.left_paddle.position.y,
                self@.pong.right_paddle.position.y,
                self@.pong.ball.position,
            ),
    {
        self.simple_pong.get_drawables()
    }

    pub fn is_paused(&self) -> (paused: bool)
        ensures
            paused == self@.pong.paused,
    {
        self.simple_pong.is_paused()
    }
}


/// Holding a movement key down sends its request once: a second key-down
/// while it is held sends nothing.
pub proof fn lemma_held_key_sends_once(s: ClientGameView, key: Key)
    requires
        key == Key::W || key == Key::S,
    ensures
        s.key_pressed(key, true).0.key_pressed(key, true).1 is None,
{
}

/// Releasing a movement key always asks to stop the paddle.
pub proof fn lemma_release_stops(s: ClientGameView, key: Key)
    requires
        key == Key::W || key == Key::S,
    ensures
        s.key_pressed(key, false).1 == Some(ClientMessage::PaddleStop),
{
}

/// Pressing P twice leaves the game as it was.
pub proof fn lemma_pause_twice(s: ClientGameView)
    ensures
        s.key_pressed(Key::P, true).0.key_pressed(Key::P, true).0 == s,
{
    assert(s.key_pressed(Key::P, true).0.key_pressed(Key::P, true).0.pong =~= s.pong);
}


/// A paddle command from the server sets that side's paddle, and only it:
/// `PaddleUp` makes it move up, `PaddleDown` down, `PaddleStop` stop; the
/// other paddle, the positions, the ball, the pause and the held keys stay.
pub proof fn lemma_server_commands(s: ClientGameView, p: PaddleId)
    ensures
        ({
            let up = s.event_received(
                WsEvent::Message(Message::ServerMessage(ServerMessage::PaddleUp(p))),
            );
            let down = s.event_received(
                WsEvent::Message(Message::ServerMessage(ServerMessage::PaddleDown(p))),
            );
            let stop = s.event_received(
                WsEvent::Message(Message::ServerMessage(ServerMessage::PaddleStop(p))),
            );
            &&& p == PaddleId::Left ==> {
                &&& up.pong.left_paddle.state == PaddleState::Up
                &&& down.pong.left_paddle.state == PaddleState::Down
                &&& stop.pong.left_paddle.state == PaddleState::Still
                &&& up.pong.right_paddle == s.pong.right_paddle
                &&& down.pong.right_paddle == s.pong.right_paddle
                &&& stop.pong.right_paddle == s.pong.right_paddle
            }
            &&& p == PaddleId::Right ==> {
                &&& up.pong.right_paddle.state == PaddleState::Up
                &&& down.pong.right_paddle.state == PaddleState::Down
                &&& stop.pong.right_paddle.state == PaddleState::Still
                &&& up.pong.left_paddle == s.pong.left_paddle
                &&& down.pong.left_paddle == s.pong.left_paddle
                &&& stop.pong.left_paddle == s.pong.left_paddle
            }
            &&& up.pong.left_paddle.position == s.pong.left_paddle.position
            &&& up.pong.right_paddle.position == s.pong.right_paddle.position
            &&& down.pong.left_paddle.position == s.pong.left_paddle.position
            &&& down.pong.right_paddle.position == s.pong.right_paddle.position
            &&& stop.pong.left_paddle.position == s.pong.left_paddle.position
            &&& stop.pong.right_paddle.position == s.pong.right_paddle.position
            &&& up.pong.ball == s.pong.ball && up.pong.paused == s.pong.paused
            &&& down.pong.ball == s.pong.ball && down.pong.paused == s.pong.paused
            &&& stop.pong.ball == s.pong.ball && stop.pong.paused == s.pong.paused
            &&& up.is_w_pressed == s.is_w_pressed && up.is_s_pressed == s.is_s_pressed
            &&& down.is_w_pressed == s.is_w_pressed && down.is_s_pressed == s.is_s_pressed
            &&& stop.is_w_pressed == s.is_w_pressed && stop.is_s_pressed == s.is_s_pressed
        }),
{
}

/// Events other than paddle commands from the server change nothing.
pub proof fn lemma_other_events_ignored(s: ClientGameView, event: WsEvent)
    requires
        !(event matches WsEvent::Message(Message::ServerMessage(ServerMessage::PaddleUp(_)))),
        !(event matches WsEvent::Message(Message::ServerMessage(ServerMessage::PaddleDown(_)))),
        !(event matches WsEvent::Message(Message::ServerMessage(ServerMessage::PaddleStop(_)))),
    ensures
        s.event_received(event) == s,
{
}

/// Keys other than W, S and P change nothing and send nothing, whether they
/// go down or up.
pub proof fn lemma_other_keys_ignored(s: ClientGameView, down: bool)
    ensures
        s.key_pressed(Key::Other, down) == (s, None::<ClientMessage>),
{
}

/// What the keys do: W going down while not held asks to move up, S going
/// down while not held asks to move down; P going down pauses or resumes and
/// sends nothing, P going up does nothing; no key moves a paddle or the ball.
pub proof fn lemma_keys(s: ClientGameView, key: Key, down: bool)
    ensures
        !s.is_w_pressed ==> s.key_pressed(Key::W, true).1 == Some(ClientMessage::PaddleUp),
        !s.is_s_pressed ==> s.key_pressed(Key::S, true).1 == Some(ClientMessage::PaddleDown),
        s.key_pressed(Key::P, true).1 is None,
        s.key_pressed(Key::P, true).0.pong.paused == !s.pong.paused,
        s.key_pressed(Key::P, false) == (s, None::<ClientMessage>),
        s.key_pressed(key, down).0.pong.left_paddle == s.pong.left_paddle,
        s.key_pressed(key, down).0.pong.right_paddle == s.pong.right_paddle,
        s.key_pressed(key, down).0.pong.ball == s.pong.ball,
        key != Key::P ==> s.key_pressed(key, down).0.pong.paused == s.pong.paused,
{
}

} // verus!
