use crate::event_stream::{first_event, rest_events};
use crate::geometry::{BallShape, Cuboid, Point2, Vector2};
use crate::paddle::{commanded, commanded_state, move_paddle, moved_position};
use crate::network::message::{ClientMessage, GameState, Message, PaddleState, ServerMessage};
use crate::network::ws_event::WsEvent;
use crate::network::ws_server::{shown_name, ClientView, WebsocketClient};
use std::collections::VecDeque;
use vstd::multiset::Multiset;
use vstd::prelude::*;

verus! {

pub struct Ball {
    pub position: Point2,
    pub shape: BallShape,
    velocity: Vector2,
}

/// The ball in specifications.
pub ghost struct BallView {
    pub position: Point2,
    pub shape: BallShape,
    pub velocity: Vector2,
}

impl View for Ball {
    type V = BallView;

    closed spec fn view(&self) -> BallView {
        BallView { position: self.position, shape: self.shape, velocity: self.velocity }
    }
}

impl Ball {
    fn new() -> (ball: Self)
        ensures
            ball@ == initial_ball(),
    {
        Ball {
            position: Point2 { x: 500, y: 50 },
            shape: BallShape { radius: 5 },
            velocity: Vector2 { x: -5, y: 5 },
        }
    }
}

pub struct Paddle {
    pub position: Point2,
    pub shape: Cuboid,
    state: PaddleState,
    state_changed: bool,
}

/// A paddle in specifications.
pub ghost struct PaddleView {
    pub position: Point2,
    pub shape: Cuboid,
    pub state: PaddleState,
    pub state_changed: bool,
}

impl View for Paddle {
    type V = PaddleView;

    closed spec fn view(&self) -> PaddleView {
        PaddleView {
            position: self.position,
            shape: self.shape,
            state: self.state,
            state_changed: self.state_changed,
        }
    }
}

impl PaddleView {
    /// The paddle told by its player to move in `state`.
    pub open spec fn with_state(self, state: PaddleState) -> PaddleView {
        PaddleView { state, state_changed: true, ..self }
    }

    /// The paddle after one tick of moving as its state says.
    pub open spec fn moved(self) -> PaddleView {
        PaddleView {
            position: moved_position(self.position, self.state),
            ..self
        }
    }
}

pub open spec fn paddle_shape() -> Cuboid {
    Cuboid { half_extents: Vector2 { x: 10, y: 100 } }
}

pub open spec fn initial_left_paddle() -> PaddleView {
    PaddleView {
        position: Point2 { x: 20, y: 50 },
        shape: paddle_shape(),
        state: PaddleState::Still,
        state_changed: false,
    }
}

pub open spec fn initial_right_paddle() -> PaddleView {
    PaddleView {
        position: Point2 { x: 770, y: 50 },
        shape: paddle_shape(),
        state: PaddleState::Still,
        state_changed: false,
    }
}

pub open spec fn initial_ball() -> BallView {
    BallView {
        position: Point2 { x: 500, y: 50 },
        shape: BallShape { radius: 5 },
        velocity: Vector2 { x: -5i64, y: 5 },
    }
}

impl Paddle {
    fn left() -> (paddle: Self)
        ensures
            paddle@ == initial_left_paddle(),
    {
        Paddle {
            position: Point2 { x: 20, y: 50 },
            shape: Cuboid { half_extents: Vector2 { x: 10, y: 100 } },
            state: PaddleState::Still,
            state_changed: false,
        }
    }

    fn right() -> (paddle: Self)
        ensures
            paddle@ == initial_right_paddle(),
    {
        Paddle {
            position: Point2 { x: 770, y: 50 },
            shape: Cuboid { half_extents: Vector2 { x: 10, y: 100 } },
            state: PaddleState::Still,
            state_changed: false,
        }
    }

    fn set_state(&mut self, state: PaddleState)
        ensures
            final(self)@ == old(self)@.with_state(state),
    {
        self.state = state;
        self.state_changed = true;
    }

    fn tick(&mut self)
        ensures
            final(self)@ == old(self)@.moved(),
    {
        self.position = move_paddle(self.position, self.state);
    }
}

/// The server's side of a match: two paddles, the ball, the two players and
/// the observers waiting for a place, oldest first, and whether the players
/// are owed a new game state.
pub struct PongServer {
    left_paddle: Paddle,
    right_paddle: Paddle,
    ball: Ball,
    paused: bool,
    left_player: Option<WebsocketClient>,
    right_player: Option<WebsocketClient>,
    observers: VecDeque<WebsocketClient>,
    send_gamestate: bool,
}

/// The match in specifications.
pub ghost struct PongServerView {
    pub left_paddle: PaddleView,
    pub right_paddle: PaddleView,
    pub ball: BallView,
    pub paused: bool,
    pub left_player: Option<ClientView>,
    pub right_player: Option<ClientView>,
    pub observers: Seq<ClientView>,
    pub send_gamestate: bool,
}

pub open spec fn player_view(player: Option<WebsocketClient>) -> Option<ClientView> {
    match player {
        Some(p) => Some(p@),
        None => None,
    }
}

impl View for PongServer {
    type V = PongServerView;

    closed spec fn view(&self) -> PongServerView {
        PongServerView {
            left_paddle: self.left_paddle@,
            right_paddle: self.right_paddle@,
            ball: self.ball@,
            paused: self.paused,
            left_player: player_view(self.left_player),
            right_player: player_view(self.right_player),
            observers: self.observers@.map_values(|c: WebsocketClient| c@),
            send_gamestate: self.send_gamestate,
        }
    }
}

/// A state to be sent, and the ids of the players to send it to, in order.
pub struct Broadcast {
    pub message: Message,
    pub recipients: Vec<u64>,
}

/// The match as it starts: paddles at rest at their places, the ball at its
/// start, paused, nobody playing or watching.
pub open spec fn initial_server() -> PongServerView {
    PongServerView {
        left_paddle: initial_left_paddle(),
        right_paddle: initial_right_paddle(),
        ball: initial_ball(),
        paused: true,
        left_player: None,
        right_player: None,
        observers: Seq::empty(),
        send_gamestate: false,
    }
}

/// A client with the oldest of its events taken.
pub open spec fn after_event(c: ClientView) -> ClientView {
    ClientView { events: rest_events(c.events), ..c }
}

/// The paddle state that an event from a player asks for, if any.
pub open spec fn requested_state(event: Option<WsEvent>) -> Option<PaddleState> {
    match event {
        Some(WsEvent::Message(Message::ClientMessage(ClientMessage::PaddleUp))) => Some(
            PaddleState::Up,
        ),
        Some(WsEvent::Message(Message::ClientMessage(ClientMessage::PaddleDown))) => Some(
            PaddleState::Down,
        ),
        Some(WsEvent::Message(Message::ClientMessage(ClientMessage::PaddleStop))) => Some(
            PaddleState::Still,
        ),
        _ => None,
    }
}

/// One player's turn in a tick: the oldest event on its connection is taken.
/// A paddle command sets its paddle's state; a closed connection frees its
/// place; either owes everybody a new state. Any other event is dropped.
pub open spec fn player_turn(paddle: PaddleView, player: Option<ClientView>, send: bool) -> (
    PaddleView,
    Option<ClientView>,
    bool,
) {
    match player {
        None => (paddle, None, send),
        Some(c) => {
            let event = first_event(c.events);
            if event == Some(WsEvent::Closed) {
                (paddle, None, true)
            } else {
                match requested_state(event) {
                    Some(state) => (paddle.with_state(state), Some(after_event(c)), true),
                    None => (paddle, Some(after_event(c)), send),
                }
            }
        },
    }
}

impl PongServerView {
    /// The first step of a tick: when observers wait and a place is free (or a
    /// state is owed), the oldest observer takes the left place if it is free,
    /// then the next one the right place if it is free.
    pub open spec fn promoted(self) -> PongServerView {
        if self.observers.len() > 0 && (self.send_gamestate || self.left_player is None
            || self.right_player is None) {
            let s1 = if self.left_player is None && self.observers.len() > 0 {
                PongServerView {
                    left_player: Some(self.observers[0]),
                    observers: self.observers.drop_first(),
                    ..self
                }
            } else {
                self
            };
            if s1.right_player is None && s1.observers.len() > 0 {
                PongServerView {
                    right_player: Some(s1.observers[0]),
                    observers: s1.observers.drop_first(),
                    ..s1
                }
            } else {
                s1
            }
        } else {
            self
        }
    }

    /// The left player's turn.
    pub open spec fn left_turn(self) -> PongServerView {
        let (paddle, player, send) = player_turn(
            self.left_paddle,
            self.left_player,
            self.send_gamestate,
        );
        PongServerView { left_paddle: paddle, left_player: player, send_gamestate: send, ..self }
    }

    /// The right player's turn.
    pub open spec fn right_turn(self) -> PongServerView {
        let (paddle, player, send) = player_turn(
            self.right_paddle,
            self.right_player,
            self.send_gamestate,
        );
        PongServerView { right_paddle: paddle, right_player: player, send_gamestate: send, ..self }
    }

    /// Every observer's oldest event is taken; observers whose connection
    /// closed leave.
    pub open spec fn observers_pruned(self) -> PongServerView {
        PongServerView { observers: pruned(self.observers), ..self }
    }

    /// Both paddles moved by one tick.
    pub open spec fn paddles_moved(self) -> PongServerView {
        PongServerView {
            left_paddle: self.left_paddle.moved(),
            right_paddle: self.right_paddle.moved(),
            ..self
        }
    }

    /// The match after the steps of a tick, before a state is sent.
    pub open spec fn ticked(self) -> PongServerView {
        self.promoted().left_turn().right_turn().observers_pruned().paddles_moved()
    }

    /// The match after a tick: as `ticked`, with no state owed any more.
    pub open spec fn after_tick(self) -> PongServerView {
        PongServerView { send_gamestate: false, ..self.ticked() }
    }

    /// Everybody who receives the match state: the left player, the right
    /// player, then the observers in their order.
    pub open spec fn recipients(self) -> Seq<u64> {
        let left = match self.left_player {
            Some(p) => seq![p.id],
            None => Seq::empty(),
        };
        let right = match self.right_player {
            Some(p) => seq![p.id],
            None => Seq::empty(),
        };
        left + right + self.observers.map_values(|c: ClientView| c.id)
    }

    /// `state` describes this match.
    pub open spec fn describes(self, state: GameState) -> bool {
        &&& state.left_paddle_y == self.left_paddle.position.y
        &&& state.left_paddle_state == self.left_paddle.state
        &&& state.right_paddle_y == self.right_paddle.position.y
        &&& state.right_paddle_state == self.right_paddle.state
        &&& state.left_player_name@ == shown_name(
            match self.left_player {
                Some(p) => p.name,
                None => None,
            },
        )
        &&& state.right_player_name@ == shown_name(
            match self.right_player {
                Some(p) => p.name,
                None => None,
            },
        )
        &&& state.ball_position == self.ball.position
        &&& state.ball_velocity == self.ball.velocity
        &&& state.paused == self.paused
    }
}

/// The observers after each has had its oldest event taken, without those
/// whose event was that the connection closed.
pub open spec fn pruned(observers: Seq<ClientView>) -> Seq<ClientView>
    decreases observers.len(),
{
    if observers.len() == 0 {
        Seq::empty()
    } else {
        let kept = pruned(observers.drop_last());
        let c = observers.last();
        if first_event(c.events) == Some(WsEvent::Closed) {
            kept
        } else {
            kept.push(after_event(c))
        }
    }
}

impl Default for PongServer {
    fn default() -> (server: Self)
        ensures
            server@ == initial_server(),
    {
        let server = PongServer {
            left_paddle: Paddle::left(),
            right_paddle: Paddle::right(),
            ball: Ball::new(),
            paused: true,
            left_player: None,
            right_player: None,
            observers: VecDeque::new(),
            send_gamestate: false,
        };
        assert(server@.observers =~= Seq::<ClientView>::empty());
        server
    }
}


/// One player's turn, on the paddle and the place of that player.
fn take_player_turn(paddle: &mut Paddle, player: &mut Option<WebsocketClient>, send: &mut bool)
    ensures
        (final(paddle)@, player_view(*final(player)), *final(send)) == player_turn(
            old(paddle)@,
            player_view(*old(player)),
            *old(send),
        ),
{
    if let Some(mut p) = player.take() {
        let ghost before = p@;
        let event = p.event_stream.next();
        assert(p@ == after_event(before));
        match event {
            Some(WsEvent::Message(Message::ClientMessage(ClientMessage::PaddleUp))) => {
                paddle.set_state(PaddleState::Up);
                *send = true;
                *player = Some(p);
            },
            Some(WsEvent::Message(Message::ClientMessage(ClientMessage::PaddleDown))) => {
                paddle.set_state(PaddleState::Down);
                *send = true;
                *player = Some(p);
            },
            Some(WsEvent::Message(Message::ClientMessage(ClientMessage::PaddleStop))) => {
                paddle.set_state(PaddleState::Still);
                *send = true;
                *player = Some(p);
            },
            Some(WsEvent::Closed) => {
                *send = true;
            },
            _ => {
                *player = Some(p);
            },
        }
    }
}

impl PongServer {
    /// A new player joins as an observer, at the back of the queue, and
    /// everybody is owed a new state.
    pub fn add_player(&mut self, player: WebsocketClient)
        ensures
            final(self)@ == (PongServerView {
                observers: old(self)@.observers.push(player@),
                send_gamestate: true,
                ..old(self)@
            }),
    {
        let ghost before = self.observers@;
        self.observers.push_back(player);
        self.send_gamestate = true;
        assert(self.observers@ == before.push(player));
        assert(self@.observers =~= old(self)@.observers.push(player@));
    }

    /// The first step of a tick: waiting observers fill free places.
    fn promote(&mut self)
        ensures
            final(self)@ == old(self)@.promoted(),
    {
        if self.observers.len() > 0 && (self.send_gamestate || self.left_player.is_none()
            || self.right_player.is_none()) {
            if self.left_player.is_none() {
                let ghost before = self.observers@;
                if let Some(p) = self.observers.pop_front() {
                    self.left_player = Some(p);
                    assert(self.observers@ == before.drop_first());
                    assert(self@.observers =~= old(self)@.observers.drop_first());
                }
            }
            let ghost mid = self@;
            if self.right_player.is_none() {
                let ghost before = self.observers@;
                if let Some(p) = self.observers.pop_front() {
                    self.right_player = Some(p);
                    assert(self.observers@ == before.drop_first());
                    assert(self@.observers =~= mid.observers.drop_first());
                }
            }
        }
    }

    /// Every observer's oldest event is taken; observers that closed leave.
    fn prune_observers(&mut self)
        ensures
            final(self)@ == old(self)@.observers_pruned(),
    {
        let mut remaining: VecDeque<WebsocketClient> = VecDeque::new();
        std::mem::swap(&mut remaining, &mut self.observers);
        let ghost orig = remaining@;
        let ghost origv = orig.map_values(|c: WebsocketClient| c@);
        assert(origv == old(self)@.observers);
        let mut kept: VecDeque<WebsocketClient> = VecDeque::new();
        let ghost mut i: int = 0;
        assert(origv.take(0) =~= Seq::<ClientView>::empty());
        assert(kept@.map_values(|c: WebsocketClient| c@) =~= Seq::<ClientView>::empty());
        while remaining.len() > 0
            invariant
                0 <= i <= orig.len(),
                origv == orig.map_values(|c: WebsocketClient| c@),
                remaining@ == orig.skip(i),
                kept@.map_values(|c: WebsocketClient| c@) == pruned(origv.take(i)),
            decreases remaining@.len(),
        {
            let ghost before_remaining = remaining@;
            let ghost before_kept = kept@;
            let mut c = remaining.pop_front().unwrap();
            assert(c == orig[i]);
            let ghost cv = c@;
            let event = c.event_stream.next();
            assert(origv.take(i + 1).drop_last() =~= origv.take(i));
            assert(origv.take(i + 1).last() == cv);
            match event {
                Some(WsEvent::Closed) => {
                    assert(kept@.map_values(|c: WebsocketClient| c@) == pruned(origv.take(i + 1)));
                },
                _ => {
                    kept.push_back(c);
                    assert(kept@ == before_kept.push(c));
                    assert(kept@.map_values(|c: WebsocketClient| c@) =~= before_kept.map_values(
                        |c: WebsocketClient| c@,
                    ).push(c@));
                    assert(c@ == after_event(cv));
                },
            }
            proof {
                i = i + 1;
            }
            assert(remaining@ =~= orig.skip(i));
        }
        assert(i == orig.len());
        assert(origv.take(i) =~= origv);
        self.observers = kept;
    }

    /// Moves both paddles by one tick.
    fn move_paddles(&mut self)
        ensures
            final(self)@ == old(self)@.paddles_moved(),
    {
        self.left_paddle.tick();
        self.right_paddle.tick();
    }

    /// The ids of everybody who receives the match state.
    fn recipients(&self) -> (ids: Vec<u64>)
        ensures
            ids@ == self@.recipients(),
    {
        let mut ids: Vec<u64> = Vec::new();
        match &self.left_player {
            Some(p) => ids.push(p.id),
            None => {},
        }
        match &self.right_player {
            Some(p) => ids.push(p.id),
            None => {},
        }
        let ghost front = ids@;
        let ghost left = match self@.left_player {
            Some(p) => seq![p.id],
            None => Seq::<u64>::empty(),
        };
        let ghost right = match self@.right_player {
            Some(p) => seq![p.id],
            None => Seq::<u64>::empty(),
        };
        assert(front =~= left + right);
        let ghost obs_ids = self@.observers.map_values(|c: ClientView| c.id);
        let n = self.observers.len();
        for i in 0..n
            invariant
                n == self.observers@.len(),
                obs_ids == self@.observers.map_values(|c: ClientView| c.id),
                ids@ == front + obs_ids.take(i as int),
        {
            ids.push(self.observers[i].id);
            assert(obs_ids.take(i + 1) =~= obs_ids.take(i as int).push(obs_ids[i as int]));
        }
        assert(obs_ids.take(n as int) =~= obs_ids);
        ids
    }

    /// The state of the match as it is broadcast.
    fn game_state(&self) -> (state: GameState)
        ensures
            self@.describes(state),
    {
        let left_player_name = match &self.left_player {
            Some(p) => p.shown_name(),
            None => "N/A".to_owned(),
        };
        let right_player_name = match &self.right_player {
            Some(p) => p.shown_name(),
            None => "N/A".to_owned(),
        };
        GameState {
            left_paddle_y: self.left_paddle.position.y,
            left_paddle_state: self.left_paddle.state,
            right_paddle_y: self.right_paddle.position.y,
            right_paddle_state: self.right_paddle.state,
            left_player_name,
            right_player_name,
            ball_position: self.ball.position,
            ball_velocity: self.ball.velocity,
            paused: self.paused,
        }
    }

    /// One tick of the match: waiting observers fill free places; the left,
    /// then the right player's oldest event is handled; every observer's
    /// oldest event is taken and observers that closed leave; the paddles
    /// move. When a state is owed, it is returned with its recipients, and no
    /// state is owed any more.
    pub fn tick(&mut self) -> (out: Option<Broadcast>)
        ensures
            final(self)@ == old(self)@.after_tick(),
            old(self)@.ticked().send_gamestate ==> match out {
                Some(b) => {
                    &&& b.recipients@ == old(self)@.ticked().recipients()
                    &&& b.message matches Message::ServerMessage(ServerMessage::GameState(state))
                        && old(self)@.ticked().describes(state)
                },
                None => false,
            },
            !old(self)@.ticked().send_gamestate ==> out is None,
    {
        self.promote();
        take_player_turn(&mut self.left_paddle, &mut self.left_player, &mut self.send_gamestate);
        take_player_turn(&mut self.right_paddle, &mut self.right_player, &mut self.send_gamestate);
        self.prune_observers();
        self.move_paddles();
        if self.send_gamestate {
            let state = self.game_state();
            let recipients = self.recipients();
            self.send_gamestate = false;
            Some(
                Broadcast {
                    message: Message::ServerMessage(ServerMessage::GameState(state)),
                    recipients,
                },
            )
        } else {
            None
        }
    }

    pub fn toggle_pause(&mut self)
        ensures
            final(self)@ == (PongServerView { paused: !old(self)@.paused, ..old(self)@ }),
    {
        self.paused = !self.paused;
    }

    /// Sets a paddle's state: `left_paddle` picks the paddle; it stops when
    /// `stop_moving`, else moves up when `up`, else down.
    pub fn set_paddle_state(&mut self, left_paddle: bool, stop_moving: bool, up: bool)
        ensures
            final(self)@ == (if left_paddle {
                PongServerView {
                    left_paddle: PaddleView {
                        state: commanded_state(stop_moving, up),
                        ..old(self)@.left_paddle
                    },
                    ..old(self)@
                }
            } else {
                PongServerView {
                    right_paddle: PaddleView {
                        state: commanded_state(stop_moving, up),
                        ..old(self)@.right_paddle
                    },
                    ..old(self)@
                }
            }),
    {
        if left_paddle {
            self.left_paddle.state = commanded(stop_moving, up);
        } else {
            self.right_paddle.state = commanded(stop_moving, up);
        }
    }

    /// Queues `event` for the player with id `id`: the left player, else the
    /// right player, else the first observer with that id. Returns whether
    /// such a player was found; if none was, nothing changes.
    pub fn deliver(&mut self, id: u64, event: WsEvent) -> (found: bool)
        ensures
            found == old(self)@.has_player(id),
            final(self)@ == old(self)@.delivered(id, event),
    {
        if let Some(p) = self.left_player.as_mut() {
            if p.id == id {
                p.event_stream.push(event);
                return true;
            }
        }
        if let Some(p) = self.right_player.as_mut() {
            if p.id == id {
                p.event_stream.push(event);
                return true;
            }
        }
        let n = self.observers.len();
        for i in 0..n
            invariant
                n == self.observers@.len(),
                self@ == old(self)@,
                !self@.left_player_has(id),
                !self@.right_player_has(id),
                forall|j: int| 0 <= j < i ==> #[trigger] self@.observers[j].id != id,
        {
            if self.observers[i].id == id {
                let ghost before = self.observers@;
                let mut c = self.observers.remove(i).unwrap();
                c.event_stream.push(event);
                self.observers.insert(i, c);
                proof {
                    assert(self.observers@ == before.remove(i as int).insert(i as int, c));
                    assert(self@.observers =~= old(self)@.observers.update(
                        i as int,
                        with_event(old(self)@.observers[i as int], event),
                    ));
                    assert(old(self)@.first_observer(id) == i as int) by {
                        old(self)@.lemma_first_observer(id, i as int);
                    }
                }
                return true;
            }
        }
        assert(!old(self)@.has_observer(id));
        false
    }

    /// The heights of the left and right paddle and the ball's position.
    pub fn get_drawables(&self) -> (drawables: (i64, i64, Point2))
        ensures
            drawables == (
                self@.left_paddle.position.y,
                self@.right_paddle.position.y,
                self@.ball.position,
            ),
    {
        (self.left_paddle.position.y, self.right_paddle.position.y, self.ball.position)
    }
}

/// A client with `event` queued behind its other events.
pub open spec fn with_event(c: ClientView, event: WsEvent) -> ClientView {
    ClientView { events: c.events.push(event), ..c }
}

impl PongServerView {
    pub open spec fn left_player_has(self, id: u64) -> bool {
        self.left_player matches Some(p) && p.id == id
    }

    pub open spec fn right_player_has(self, id: u64) -> bool {
        self.right_player matches Some(p) && p.id == id
    }

    pub open spec fn has_observer(self, id: u64) -> bool {
        exists|k: int| 0 <= k < self.observers.len() && #[trigger] self.observers[k].id == id
    }

    /// The place of the first observer with id `id`.
    pub open spec fn first_observer(self, id: u64) -> int
        recommends
            self.has_observer(id),
    {
        choose|k: int|
            0 <= k < self.observers.len() && self.observers[k].id == id && forall|j: int|
                0 <= j < k ==> #[trigger] self.observers[j].id != id
    }

    /// Whether a player with id `id` plays or watches.
    pub open spec fn has_player(self, id: u64) -> bool {
        self.left_player_has(id) || self.right_player_has(id) || self.has_observer(id)
    }

    /// The match after `event` arrived for the player with id `id`.
    pub open spec fn delivered(self, id: u64, event: WsEvent) -> PongServerView {
        if self.left_player_has(id) {
            PongServerView { left_player: Some(with_event(self.left_player.unwrap(), event)), ..self }
        } else if self.right_player_has(id) {
            PongServerView {
                right_player: Some(with_event(self.right_player.unwrap(), event)),
                ..self
            }
        } else if self.has_observer(id) {
            let k = self.first_observer(id);
            PongServerView {
                observers: self.observers.update(k, with_event(self.observers[k], event)),
                ..self
            }
        } else {
            self
        }
    }

    /// The first observer with an id is the one found by a search from the
    /// front.
    pub proof fn lemma_first_observer(self, id: u64, i: int)
        requires
            0 <= i < self.observers.len(),
            self.observers[i].id == id,
            forall|j: int| 0 <= j < i ==> #[trigger] self.observers[j].id != id,
        ensures
            self.has_observer(id),
            self.first_observer(id) == i,
    {
        assert(self.observers[i].id == id);
        let k = self.first_observer(id);
        assert(0 <= k < self.observers.len() && self.observers[k].id == id);
        if k < i {
            assert(self.observers[k].id != id);
        } else if k > i {
            assert(self.observers[i].id != id);
        }
    }
}


impl PongServerView {
    /// `c` plays on the left or the right, or watches.
    pub open spec fn present(self, c: ClientView) -> bool {
        ||| self.left_player == Some(c)
        ||| self.right_player == Some(c)
        ||| self.observers.contains(c)
    }
}

/// An observer whose oldest event is not that its connection closed is still
/// among the observers after pruning, with that event taken; and every
/// observer left after pruning is such an observer.
pub proof fn lemma_pruned_members(observers: Seq<ClientView>)
    ensures
        forall|k: int|
            0 <= k < observers.len() && first_event(#[trigger] observers[k].events) != Some(
                WsEvent::Closed,
            ) ==> pruned(observers).contains(after_event(observers[k])),
        forall|d: ClientView|
            #[trigger] pruned(observers).contains(d) ==> exists|k: int|
                0 <= k < observers.len() && first_event(observers[k].events) != Some(
                    WsEvent::Closed,
                ) && d == after_event(#[trigger] observers[k]),
    decreases observers.len(),
{
    if observers.len() > 0 {
        let init = observers.drop_last();
        lemma_pruned_members(init);
        let kept = pruned(init);
        let c = observers.last();
        assert forall|k: int|
            0 <= k < observers.len() && first_event(#[trigger] observers[k].events) != Some(
                WsEvent::Closed,
            ) implies pruned(observers).contains(after_event(observers[k])) by {
            if k < observers.len() - 1 {
                assert(observers[k] == init[k]);
                let w = choose|w: int| 0 <= w < kept.len() && kept[w] == after_event(init[k]);
                if first_event(c.events) != Some(WsEvent::Closed) {
                    assert(kept.push(after_event(c))[w] == after_event(init[k]));
                }
            } else {
                assert(pruned(observers) == kept.push(after_event(c)));
                assert(pruned(observers)[kept.len() as int] == after_event(c));
            }
        }
        assert forall|d: ClientView| #[trigger] pruned(observers).contains(d) implies exists|k: int|
            0 <= k < observers.len() && first_event(observers[k].events) != Some(WsEvent::Closed)
                && d == after_event(#[trigger] observers[k]) by {
            let w = choose|w: int| 0 <= w < pruned(observers).len() && pruned(observers)[w] == d;
            if w < kept.len() {
                assert(pruned(observers)[w] == kept[w]);
                assert(kept.contains(d));
                let k = choose|k: int|
                    0 <= k < init.len() && first_event(init[k].events) != Some(WsEvent::Closed)
                        && d == after_event(#[trigger] init[k]);
                assert(observers[k] == init[k]);
            } else {
                let k = observers.len() - 1;
                assert(observers[k] == c);
            }
        }
    }
}

/// Nobody leaves a match except by closing the connection, and nobody joins
/// in a tick: a player or observer whose oldest event is not that its
/// connection closed still plays or watches after the tick, with that event
/// taken; and everybody who plays or watches after a tick played or watched
/// before it, with exactly its oldest event taken.
pub proof fn lemma_only_closed_leave(s: PongServerView)
    ensures
        forall|c: ClientView|
            #[trigger] s.present(c) && first_event(c.events) != Some(WsEvent::Closed)
                ==> s.after_tick().present(after_event(c)),
        forall|d: ClientView|
            #[trigger] s.after_tick().present(d) ==> exists|c: ClientView|
                #[trigger] s.present(c) && first_event(c.events) != Some(WsEvent::Closed) && d
                    == after_event(c),
{
    let p = s.promoted();
    // Promotion only moves clients between places.
    assert forall|c: ClientView| s.present(c) <==> #[trigger] p.present(c) by {
        if s.observers.len() > 0 && (s.send_gamestate || s.left_player is None
            || s.right_player is None) {
            let s1 = if s.left_player is None && s.observers.len() > 0 {
                PongServerView {
                    left_player: Some(s.observers[0]),
                    observers: s.observers.drop_first(),
                    ..s
                }
            } else {
                s
            };
            assert(s.observers.len() > 0 ==> s.observers =~= seq![s.observers[0]]
                + s.observers.drop_first());
            if s.observers.contains(c) {
                let w = choose|w: int| 0 <= w < s.observers.len() && s.observers[w] == c;
                if w > 0 {
                    assert(s.observers.drop_first()[w - 1] == c);
                }
            }
            assert(s.present(c) <==> s1.present(c)) by {
                if s1 != s {
                    if s.observers.drop_first().contains(c) {
                        let w = choose|w: int|
                            0 <= w < s.observers.drop_first().len() && s.observers.drop_first()[w]
                                == c;
                        assert(s.observers[w + 1] == c);
                    }
                }
            }
            if s1.right_player is None && s1.observers.len() > 0 {
                if s1.observers.contains(c) {
                    let w = choose|w: int| 0 <= w < s1.observers.len() && s1.observers[w] == c;
                    if w > 0 {
                        assert(s1.observers.drop_first()[w - 1] == c);
                    }
                }
                if s1.observers.drop_first().contains(c) {
                    let w = choose|w: int|
                        0 <= w < s1.observers.drop_first().len() && s1.observers.drop_first()[w]
                            == c;
                    assert(s1.observers[w + 1] == c);
                }
            }
        }
    }
    let l = p.left_turn();
    let r = l.right_turn();
    let q = r.observers_pruned();
    let t = s.after_tick();
    assert(t.left_player == q.left_player && t.right_player == q.right_player && t.observers
        == q.observers);
    lemma_pruned_members(r.observers);
    assert forall|c: ClientView|
        #[trigger] s.present(c) && first_event(c.events) != Some(WsEvent::Closed) implies t.present(
        after_event(c),
    ) by {
        assert(p.present(c));
        if p.left_player == Some(c) {
            assert(l.left_player == Some(after_event(c)));
        } else if p.right_player == Some(c) {
            assert(r.right_player == Some(after_event(c)));
        } else {
            let k = choose|k: int| 0 <= k < p.observers.len() && p.observers[k] == c;
            assert(r.observers[k] == c);
        }
    }
    assert forall|d: ClientView| #[trigger] t.present(d) implies exists|c: ClientView|
        #[trigger] s.present(c) && first_event(c.events) != Some(WsEvent::Closed) && d
            == after_event(c) by {
        if t.left_player == Some(d) {
            let c = p.left_player.unwrap();
            assert(p.present(c));
            assert(s.present(c));
        } else if t.right_player == Some(d) {
            let c = p.right_player.unwrap();
            assert(p.present(c));
            assert(s.present(c));
        } else {
            assert(pruned(r.observers).contains(d));
            let k = choose|k: int|
                0 <= k < r.observers.len() && first_event(r.observers[k].events) != Some(
                    WsEvent::Closed,
                ) && d == after_event(#[trigger] r.observers[k]);
            let c = r.observers[k];
            assert(p.observers[k] == c);
            assert(p.present(c));
            assert(s.present(c));
        }
    }
}

/// A free place is taken at the next tick by the observer who has waited
/// longest, and a second free place by the one after it.
pub proof fn lemma_free_places_filled(s: PongServerView)
    ensures
        s.left_player is None && s.observers.len() > 0 ==> s.promoted().left_player == Some(
            s.observers[0],
        ),
        s.left_player is Some && s.right_player is None && s.observers.len() > 0
            ==> s.promoted().right_player == Some(s.observers[0]),
        s.left_player is None && s.right_player is None && s.observers.len() > 1
            ==> s.promoted().right_player == Some(s.observers[1]),
{
}

/// After a tick no state is owed: a state is sent at most once for each
/// change.
pub proof fn lemma_tick_settles(s: PongServerView)
    ensures
        !s.after_tick().send_gamestate,
{
}

/// Pausing twice leaves the match as it was.
pub proof fn lemma_toggle_pause_twice(s: PongServerView)
    ensures
        (PongServerView {
            paused: !(PongServerView { paused: !s.paused, ..s }).paused,
            ..(PongServerView { paused: !s.paused, ..s })
        }) == s,
{
}

/// The client sitting in a place, as a sequence of none or one.
pub open spec fn seat(player: Option<ClientView>) -> Seq<ClientView> {
    match player {
        Some(c) => seq![c],
        None => Seq::empty(),
    }
}

impl PongServerView {
    /// Everybody the match holds: the left player, the right player, then
    /// the observers in their order.
    pub open spec fn clients(self) -> Seq<ClientView> {
        seat(self.left_player) + seat(self.right_player) + self.observers
    }
}

/// No two of `clients` share an id: nobody sits in two places.
pub open spec fn ids_unique(clients: Seq<ClientView>) -> bool {
    forall|i: int, j: int|
        0 <= i < clients.len() && 0 <= j < clients.len() && i != j ==> #[trigger] clients[i].id
            != #[trigger] clients[j].id
}

/// Pruning a sequence prunes each part.
pub proof fn lemma_pruned_append(a: Seq<ClientView>, b: Seq<ClientView>)
    ensures
        pruned(a + b) == pruned(a) + pruned(b),
    decreases b.len(),
{
    if b.len() == 0 {
        assert(a + b =~= a);
        assert(pruned(a) + pruned(b) =~= pruned(a));
    } else {
        lemma_pruned_append(a, b.drop_last());
        assert((a + b).drop_last() =~= a + b.drop_last());
        assert((a + b).last() == b.last());
        if first_event(b.last().events) == Some(WsEvent::Closed) {
        } else {
            assert(pruned(a) + pruned(b) =~= (pruned(a) + pruned(b.drop_last())).push(
                after_event(b.last()),
            ));
        }
    }
}

/// A player's turn leaves in its place what pruning leaves of it.
pub proof fn lemma_seat_turn(paddle: PaddleView, player: Option<ClientView>, send: bool)
    ensures
        seat(player_turn(paddle, player, send).1) == pruned(seat(player)),
{
    match player {
        None => {
            assert(pruned(seat(player)) =~= Seq::<ClientView>::empty());
        },
        Some(c) => {
            assert(seat(player).drop_last() =~= Seq::<ClientView>::empty());
            assert(pruned(Seq::<ClientView>::empty()) == Seq::<ClientView>::empty());
            assert(seat(player).last() == c);
            if first_event(c.events) == Some(WsEvent::Closed) {
                assert(pruned(seat(player)) =~= Seq::<ClientView>::empty());
            } else {
                assert(pruned(seat(player)) =~= seq![after_event(c)]);
            }
        },
    }
}

/// Swapping the first two parts of a sequence keeps its multiset.
pub proof fn lemma_swap_multiset<T>(u: Seq<T>, v: Seq<T>, w: Seq<T>)
    ensures
        (u + v + w).to_multiset() == (v + u + w).to_multiset(),
{
    broadcast use vstd::seq_lib::lemma_multiset_commutative;
    broadcast use vstd::multiset::group_multiset_axioms;

    assert((u + v + w).to_multiset() =~= u.to_multiset().add(v.to_multiset()).add(w.to_multiset()));
    assert((v + u + w).to_multiset() =~= v.to_multiset().add(u.to_multiset()).add(w.to_multiset()));
}

/// Filling free places only moves clients: the clients of the match, and
/// what pruning leaves of them, stay the same multisets.
pub proof fn lemma_promotion_moves(s: PongServerView)
    ensures
        s.promoted().clients().to_multiset() == s.clients().to_multiset(),
        pruned(s.promoted().clients()).to_multiset() == pruned(s.clients()).to_multiset(),
{
    let p = s.promoted();
    if p == s {
    } else if s.left_player is None && s.right_player is Some {
        let o = s.observers[0];
        let rest = s.observers.drop_first();
        let r = seat(s.right_player);
        assert(s.observers =~= seq![o] + rest);
        assert(p.observers == rest);
        assert(s.clients() =~= r + seq![o] + rest);
        assert(p.clients() =~= seq![o] + r + rest);
        lemma_swap_multiset(r, seq![o], rest);
        lemma_pruned_append(r + seq![o], rest);
        lemma_pruned_append(r, seq![o]);
        lemma_pruned_append(seq![o] + r, rest);
        lemma_pruned_append(seq![o], r);
        lemma_swap_multiset(pruned(r), pruned(seq![o]), pruned(rest));
    } else {
        // Either only the right place was free, or the observers filled
        // places in the order in which they stand: the sequence is unchanged.
        assert(p.clients() =~= s.clients());
    }
}

/// Pruning keeps ids apart.
pub proof fn lemma_pruned_ids_unique(clients: Seq<ClientView>)
    requires
        ids_unique(clients),
    ensures
        ids_unique(pruned(clients)),
    decreases clients.len(),
{
    if clients.len() > 0 {
        let init = clients.drop_last();
        assert(ids_unique(init)) by {
            assert forall|i: int, j: int|
                0 <= i < init.len() && 0 <= j < init.len() && i != j implies #[trigger] init[i].id
                != #[trigger] init[j].id by {
                assert(init[i] == clients[i] && init[j] == clients[j]);
            }
        }
        lemma_pruned_ids_unique(init);
        lemma_pruned_members(init);
        let kept = pruned(init);
        let c = clients.last();
        if first_event(c.events) != Some(WsEvent::Closed) {
            let all = kept.push(after_event(c));
            assert forall|i: int, j: int|
                0 <= i < all.len() && 0 <= j < all.len() && i != j implies #[trigger] all[i].id
                != #[trigger] all[j].id by {
                if i < kept.len() && j < kept.len() {
                    assert(all[i] == kept[i] && all[j] == kept[j]);
                } else {
                    let m = if i < kept.len() {
                        i
                    } else {
                        j
                    };
                    assert(m < kept.len());
                    assert(kept.contains(kept[m]));
                    let k = choose|k: int|
                        0 <= k < init.len() && first_event(init[k].events) != Some(
                            WsEvent::Closed,
                        ) && kept[m] == after_event(#[trigger] init[k]);
                    assert(init[k] == clients[k]);
                    assert(clients[k].id != clients[clients.len() - 1].id);
                }
            }
        }
    }
}

/// Two sequences with the same multiset: if ids are apart in one, they are
/// apart in the other.
pub proof fn lemma_ids_unique_multiset(x: Seq<ClientView>, y: Seq<ClientView>)
    requires
        x.to_multiset() == y.to_multiset(),
        ids_unique(y),
    ensures
        ids_unique(x),
{
    broadcast use vstd::seq_lib::group_to_multiset_ensures;
    broadcast use vstd::multiset::group_multiset_axioms;

    assert forall|i: int, j: int|
        0 <= i < x.len() && 0 <= j < x.len() && i != j implies #[trigger] x[i].id
        != #[trigger] x[j].id by {
        if x[i].id == x[j].id {
            assert(x.contains(x[i]));
            assert(x.contains(x[j]));
            assert(y.to_multiset().count(x[i]) > 0);
            assert(y.to_multiset().count(x[j]) > 0);
            assert(y.contains(x[i]));
            assert(y.contains(x[j]));
            let k = choose|k: int| 0 <= k < y.len() && y[k] == x[i];
            let l = choose|l: int| 0 <= l < y.len() && y[l] == x[j];
            if x[i] != x[j] {
                assert(k != l);
                assert(y[k].id != y[l].id);
            } else {
                // x holds x[i] twice, so y does too.
                let xr = x.remove(i);
                let jj = if j < i {
                    j
                } else {
                    j - 1
                };
                assert(xr[jj] == x[j]);
                assert(xr.contains(x[i]));
                assert(xr.to_multiset() == x.to_multiset().remove(x[i]));
                assert(xr.to_multiset().count(x[i]) > 0);
                assert(Multiset::singleton(x[i]).count(x[i]) == 1);
                assert(x.to_multiset().sub(Multiset::singleton(x[i])).count(x[i]) > 0);
                assert(x.to_multiset().count(x[i]) >= 2);
                let yr = y.remove(k);
                assert(yr.to_multiset() == y.to_multiset().remove(x[i]));
                assert(y.to_multiset().count(x[i]) >= 2);
                assert(y.to_multiset().sub(Multiset::singleton(x[i])).count(x[i]) >= 1);
                assert(yr.to_multiset().count(x[i]) >= 1);
                assert(yr.contains(x[i]));
                let m = choose|m: int| 0 <= m < yr.len() && yr[m] == x[i];
                let mm = if m < k {
                    m
                } else {
                    m + 1
                };
                assert(y[mm] == x[i]);
                assert(mm != k);
                assert(y[mm].id != y[k].id);
            }
        }
    }
}

/// A tick neither adds, duplicates nor loses anybody except by a closed
/// connection: the clients held after a tick are, counted with their
/// multiplicity, exactly those held before whose oldest event was not that
/// the connection closed, each with that event taken.
pub proof fn lemma_tick_keeps_clients(s: PongServerView)
    ensures
        s.after_tick().clients().to_multiset() == pruned(s.clients()).to_multiset(),
        s.after_tick().clients() == pruned(s.promoted().clients()),
{
    let p = s.promoted();
    let l = p.left_turn();
    let r = l.right_turn();
    let t = s.after_tick();
    lemma_seat_turn(p.left_paddle, p.left_player, p.send_gamestate);
    lemma_seat_turn(l.right_paddle, l.right_player, l.send_gamestate);
    assert(seat(t.left_player) == pruned(seat(p.left_player)));
    assert(seat(t.right_player) == pruned(seat(p.right_player)));
    assert(t.observers == pruned(p.observers));
    lemma_pruned_append(seat(p.left_player), seat(p.right_player));
    lemma_pruned_append(seat(p.left_player) + seat(p.right_player), p.observers);
    assert(t.clients() == pruned(p.clients()));
    lemma_promotion_moves(s);
}

/// A tick keeps everybody in one place: when no two clients of the match
/// share an id before a tick, none do after it.
pub proof fn lemma_tick_keeps_ids_unique(s: PongServerView)
    requires
        ids_unique(s.clients()),
    ensures
        ids_unique(s.after_tick().clients()),
{
    lemma_promotion_moves(s);
    lemma_ids_unique_multiset(s.promoted().clients(), s.clients());
    lemma_pruned_ids_unique(s.promoted().clients());
    lemma_tick_keeps_clients(s);
}


/// A paddle command from a player sets that player's paddle at the next tick
/// and owes everybody a new state; a closed connection frees the place and
/// also owes a new state.
pub proof fn lemma_player_commands(s: PongServerView)
    ensures
        ({
            let p = s.promoted();
            let t = s.ticked();
            &&& (p.left_player matches Some(c) && first_event(c.events) == Some(
                WsEvent::Message(Message::ClientMessage(ClientMessage::PaddleUp)),
            )) ==> t.left_paddle.state == PaddleState::Up && t.send_gamestate
            &&& (p.left_player matches Some(c) && first_event(c.events) == Some(
                WsEvent::Message(Message::ClientMessage(ClientMessage::PaddleDown)),
            )) ==> t.left_paddle.state == PaddleState::Down && t.send_gamestate
            &&& (p.left_player matches Some(c) && first_event(c.events) == Some(
                WsEvent::Message(Message::ClientMessage(ClientMessage::PaddleStop)),
            )) ==> t.left_paddle.state == PaddleState::Still && t.send_gamestate
            &&& (p.right_player matches Some(c) && first_event(c.events) == Some(
                WsEvent::Message(Message::ClientMessage(ClientMessage::PaddleUp)),
            )) ==> t.right_paddle.state == PaddleState::Up && t.send_gamestate
            &&& (p.right_player matches Some(c) && first_event(c.events) == Some(
                WsEvent::Message(Message::ClientMessage(ClientMessage::PaddleDown)),
            )) ==> t.right_paddle.state == PaddleState::Down && t.send_gamestate
            &&& (p.right_player matches Some(c) && first_event(c.events) == Some(
                WsEvent::Message(Message::ClientMessage(ClientMessage::PaddleStop)),
            )) ==> t.right_paddle.state == PaddleState::Still && t.send_gamestate
            &&& (p.left_player matches Some(c) && first_event(c.events) == Some(WsEvent::Closed))
                ==> t.left_player is None && t.send_gamestate
            &&& (p.right_player matches Some(c) && first_event(c.events) == Some(WsEvent::Closed))
                ==> t.right_player is None && t.send_gamestate
        }),
{
}

} // verus!
