use crate::geometry::{saturate, shift, BallShape, Cuboid, Point2, Vector2};
use crate::network::message::PaddleState;
use crate::paddle::{commanded, commanded_state, move_paddle, moved_position};
use vstd::prelude::*;

verus! {

/// The client's own simulation of a match, run between the server's updates.
pub struct SimplePong {
    left_paddle: Paddle,
    right_paddle: Paddle,
    ball: Ball,
    paused: bool,
}

pub struct Ball {
    pub position: Point2,
    pub shape: BallShape,
    velocity: Vector2,
}

pub struct Paddle {
    pub position: Point2,
    pub shape: Cuboid,
    state: PaddleState,
}

/// A paddle in specifications.
pub ghost struct PaddleView {
    pub position: Point2,
    pub shape: Cuboid,
    pub state: PaddleState,
}

/// The ball in specifications.
pub ghost struct BallView {
    pub position: Point2,
    pub shape: BallShape,
    pub velocity: Vector2,
}

/// The simulation in specifications.
pub ghost struct SimplePongView {
    pub left_paddle: PaddleView,
    pub right_paddle: PaddleView,
    pub ball: BallView,
    pub paused: bool,
}

impl View for SimplePong {
    type V = SimplePongView;

    closed spec fn view(&self) -> SimplePongView {
        SimplePongView {
            left_paddle: PaddleView {
                position: self.left_paddle.position,
                shape: self.left_paddle.shape,
                state: self.left_paddle.state,
            },
            right_paddle: PaddleView {
                position: self.right_paddle.position,
                shape: self.right_paddle.shape,
                state: self.right_paddle.state,
            },
            ball: BallView {
                position: self.ball.position,
                shape: self.ball.shape,
                velocity: self.ball.velocity,
            },
            paused: self.paused,
        }
    }
}

/// The left and right edges of the field beyond which the ball stops, and
/// the top and bottom edges off which it bounces.
pub const FIELD_LEFT: i64 = 10;
pub const FIELD_RIGHT: i64 = 1590;
pub const FIELD_TOP: i64 = 10;
pub const FIELD_BOTTOM: i64 = 790;

/// What the owner of the simulation has to find out after a tick in which
/// the ball moved: whether the ball (a disc of `ball_radius` at `ball`)
/// touches the left paddle or the right paddle (boxes of `half_extents` at
/// `left_paddle` and `right_paddle`).
pub struct ContactCheck {
    pub ball: Point2,
    pub ball_radius: i64,
    pub left_paddle: Point2,
    pub right_paddle: Point2,
    pub half_extents: Vector2,
}

impl PaddleView {
    pub open spec fn moved(self) -> PaddleView {
        PaddleView {
            position: moved_position(self.position, self.state),
            ..self
        }
    }
}

pub open spec fn initial_simple_pong() -> SimplePongView {
    SimplePongView {
        left_paddle: PaddleView {
            position: Point2 { x: 20, y: 50 },
            shape: Cuboid { half_extents: Vector2 { x: 10, y: 100 } },
            state: PaddleState::Still,
        },
        right_paddle: PaddleView {
            position: Point2 { x: 1570, y: 50 },
            shape: Cuboid { half_extents: Vector2 { x: 10, y: 100 } },
            state: PaddleState::Still,
        },
        ball: BallView {
            position: Point2 { x: 500, y: 50 },
            shape: BallShape { radius: 5 },
            velocity: Vector2 { x: -5i64, y: 5 },
        },
        paused: true,
    }
}

impl SimplePongView {
    /// The ball never moves faster than 5 pixels per tick along either axis,
    /// and both paddles have the same shape.
    pub open spec fn wf(self) -> bool {
        &&& -5 <= self.ball.velocity.x <= 5
        &&& -5 <= self.ball.velocity.y <= 5
        &&& self.right_paddle.shape == self.left_paddle.shape
    }

    /// Both paddles moved by one tick.
    pub open spec fn paddles_moved(self) -> SimplePongView {
        SimplePongView {
            left_paddle: self.left_paddle.moved(),
            right_paddle: self.right_paddle.moved(),
            ..self
        }
    }

    /// The ball moved by its velocity; past the left or right edge it stops,
    /// past the top or bottom edge its vertical velocity turns around.
    pub open spec fn ball_moved(self) -> SimplePongView {
        let p = Point2 {
            x: saturate(self.ball.position.x + self.ball.velocity.x),
            y: saturate(self.ball.position.y + self.ball.velocity.y),
        };
        let v1 = if p.x < FIELD_LEFT || p.x > FIELD_RIGHT {
            Vector2 { x: 0, y: 0 }
        } else {
            self.ball.velocity
        };
        let v2 = if p.y < FIELD_TOP || p.y > FIELD_BOTTOM {
            Vector2 { x: v1.x, y: (-v1.y) as i64 }
        } else {
            v1
        };
        SimplePongView { ball: BallView { position: p, velocity: v2, ..self.ball }, ..self }
    }

    /// The simulation after one tick: the paddles move; unless paused, the
    /// ball moves too.
    pub open spec fn ticked(self) -> SimplePongView {
        let s = self.paddles_moved();
        if s.paused {
            s
        } else {
            s.ball_moved()
        }
    }

    /// The ball's horizontal velocity turned around once for each paddle it
    /// touches.
    pub open spec fn contacts_resolved(self, hits_left: bool, hits_right: bool) -> SimplePongView {
        let vx1 = if hits_left {
            -self.ball.velocity.x
        } else {
            self.ball.velocity.x as int
        };
        let vx2 = if hits_right {
            -vx1
        } else {
            vx1
        };
        SimplePongView {
            ball: BallView {
                velocity: Vector2 { x: vx2 as i64, y: self.ball.velocity.y },
                ..self.ball
            },
            ..self
        }
    }
}

impl SimplePong {
    /// The ball never moves faster than 5 pixels per tick along either axis,
    /// and both paddles have the same shape.
    #[verifier::type_invariant]
    spec fn speed_limited(self) -> bool {
        self@.wf()
    }

    /// A paused simulation with the paddles and the ball at their places.
    pub fn new() -> (pong: Self)
        ensures
            pong@ == initial_simple_pong(),
            pong@.wf(),
    {
        SimplePong {
            left_paddle: Paddle {
                position: Point2 { x: 20, y: 50 },
                shape: Cuboid { half_extents: Vector2 { x: 10, y: 100 } },
                state: PaddleState::Still,
            },
            right_paddle: Paddle {
                position: Point2 { x: 1570, y: 50 },
                shape: Cuboid { half_extents: Vector2 { x: 10, y: 100 } },
                state: PaddleState::Still,
            },
            ball: Ball {
                position: Point2 { x: 500, y: 50 },
                shape: BallShape { radius: 5 },
                velocity: Vector2 { x: -5i64, y: 5 },
            },
            paused: true,
        }
    }

    /// One tick: the paddles move as their states say; unless the game is
    /// paused, the ball moves by its velocity, stops past the left or right
    /// edge and bounces off the top and bottom edges. When the ball moved,
    /// what is needed to test it against the paddles is returned; the
    /// outcome is handed to `resolve_contacts`.
    pub fn tick(&mut self) -> (check: Option<ContactCheck>)
        ensures
            final(self)@ == old(self)@.ticked(),
            final(self)@.wf(),
            old(self)@.paused ==> check is None,
            !old(self)@.paused ==> match check {
                Some(c) => {
                    &&& c.ball == final(self)@.ball.position
                    &&& c.ball_radius == final(self)@.ball.shape.radius
                    &&& c.left_paddle == final(self)@.left_paddle.position
                    &&& c.right_paddle == final(self)@.right_paddle.position
                    &&& c.half_extents == final(self)@.left_paddle.shape.half_extents
                    &&& c.half_extents == final(self)@.right_paddle.shape.half_extents
                },
                None => false,
            },
    {
        proof {
            use_type_invariant(&*self);
        }
        self.right_paddle.position = move_paddle(self.right_paddle.position, self.right_paddle.state);
        self.left_paddle.position = move_paddle(self.left_paddle.position, self.left_paddle.state);
        if self.paused {
            return None;
        }
        self.ball.position.x = shift(self.ball.position.x, self.ball.velocity.x);
        self.ball.position.y = shift(self.ball.position.y, self.ball.velocity.y);
        if self.ball.position.x < FIELD_LEFT || self.ball.position.x > FIELD_RIGHT {
            self.ball.velocity = Vector2 { x: 0, y: 0 };
        }
        if self.ball.position.y < FIELD_TOP || self.ball.position.y > FIELD_BOTTOM {
            self.ball.velocity.y = -self.ball.velocity.y;
        }
        Some(
            ContactCheck {
                ball: self.ball.position,
                ball_radius: self.ball.shape.radius,
                left_paddle: self.left_paddle.position,
                right_paddle: self.right_paddle.position,
                half_extents: self.left_paddle.shape.half_extents,
            },
        )
    }

    /// Turns the ball's horizontal velocity around once for each paddle that
    /// it touches.
    pub fn resolve_contacts(&mut self, hits_left: bool, hits_right: bool)
        ensures
            final(self)@ == old(self)@.contacts_resolved(hits_left, hits_right),
            final(self)@.wf(),
    {
        proof {
            use_type_invariant(&*self);
        }
        if hits_left {
            self.ball.velocity.x = -self.ball.velocity.x;
        }
        if hits_right {
            self.ball.velocity.x = -self.ball.velocity.x;
        }
    }

    pub fn toggle_pause(&mut self)
        ensures
            final(self)@ == (SimplePongView { paused: !old(self)@.paused, ..old(self)@ }),
    {
        proof {
            use_type_invariant(&*self);
        }
        self.paused = !self.paused;
    }

    /// Sets a paddle's state: `left_paddle` picks the paddle; it stops when
    /// `stop_moving`, else moves up when `up`, else down.
    pub fn set_paddle_state(&mut self, left_paddle: bool, stop_moving: bool, up: bool)
        ensures
            final(self)@ == (if left_paddle {
                SimplePongView {
                    left_paddle: PaddleView {
                        state: commanded_state(stop_moving, up),
                        ..old(self)@.left_paddle
                    },
                    ..old(self)@
                }
            } else {
                SimplePongView {
                    right_paddle: PaddleView {
                        state: commanded_state(stop_moving, up),
                        ..old(self)@.right_paddle
                    },
                    ..old(self)@
                }
            }),
    {
        proof {
            use_type_invariant(&*self);
        }
        if left_paddle {
            self.left_paddle.state = commanded(stop_moving, up);
        } else {
            self.right_paddle.state = commanded(stop_moving, up);
        }
    }

    /// The heights of the left and right paddle and the ball's position.
    pub fn get_drawables(&self) -> (drawables: (i64, i64, Point2))
        ensures
            drawables == (
                self@.left_paddle.position.y,
                self@.right_paddle.position.y,
                self@.ball.position,
            ),
    {
        (self.left_paddle.position.y, self.right_paddle.position.y, self.ball.position)
    }

    pub fn is_paused(&self) -> (paused: bool)
        ensures
            paused == self@.paused,
    {
        self.paused
    }
}


/// While the game is paused only the paddles move: the ball keeps its place
/// and its velocity.
pub proof fn lemma_paused_ball_rests(s: SimplePongView)
    requires
        s.paused,
    ensures
        s.ticked().ball == s.ball,
        s.ticked().paused,
{
}

/// A tick never changes what the paddles are doing, nor whether the game is
/// paused, nor the shapes.
pub proof fn lemma_tick_keeps_states(s: SimplePongView)
    ensures
        s.ticked().left_paddle.state == s.left_paddle.state,
        s.ticked().right_paddle.state == s.right_paddle.state,
        s.ticked().paused == s.paused,
        s.ticked().ball.shape == s.ball.shape,
{
}

/// Touching both paddles at once turns the ball around twice: its velocity
/// is unchanged.
pub proof fn lemma_double_contact_cancels(s: SimplePongView)
    requires
        s.wf(),
    ensures
        s.contacts_resolved(true, true) == s,
{
    assert(s.contacts_resolved(true, true).ball =~= s.ball);
}

/// Past the left or right edge the ball comes to rest and stays there.
pub proof fn lemma_ball_stops_at_edge(s: SimplePongView)
    requires
        !s.paused,
        s.ball.velocity == (Vector2 { x: 0, y: 0 }),
    ensures
        s.ticked().ball.position == s.ball.position,
        s.ticked().ball.velocity == s.ball.velocity,
{
}


/// How the ball moves in a running game: it advances by its velocity; inside
/// the field it keeps its velocity; past the top or the bottom edge (while
/// between the side edges) its vertical velocity turns around, the top edge
/// exactly like the bottom one; past the left or right edge it stops.
pub proof fn lemma_ball_motion(s: SimplePongView)
    requires
        s.wf(),
        !s.paused,
    ensures
        ({
            let t = s.ticked();
            let vx = s.ball.velocity.x;
            let vy = s.ball.velocity.y;
            let x = s.ball.position.x + vx;
            let y = s.ball.position.y + vy;
            let p = t.ball.position;
            &&& (i64::MIN <= x <= i64::MAX && i64::MIN <= y <= i64::MAX) ==> p == (Point2 {
                x: x as i64,
                y: y as i64,
            })
            &&& (10 <= p.x <= 1590 && 10 <= p.y <= 790) ==> t.ball.velocity == s.ball.velocity
            &&& (10 <= p.x <= 1590 && p.y < 10) ==> t.ball.velocity == (Vector2 {
                x: vx,
                y: (-vy) as i64,
            })
            &&& (10 <= p.x <= 1590 && p.y > 790) ==> t.ball.velocity == (Vector2 {
                x: vx,
                y: (-vy) as i64,
            })
            &&& (p.x < 10 || p.x > 1590) ==> t.ball.velocity == (Vector2 { x: 0, y: 0 })
            &&& t.ball.shape == s.ball.shape
            &&& t.wf()
        }),
{
}


/// Touching one paddle turns the ball's horizontal velocity around and keeps
/// its vertical velocity; touching none changes nothing.
pub proof fn lemma_single_contact_turns(s: SimplePongView)
    requires
        s.wf(),
    ensures
        s.contacts_resolved(true, false).ball.velocity == (Vector2 {
            x: (-s.ball.velocity.x) as i64,
            y: s.ball.velocity.y,
        }),
        s.contacts_resolved(false, true).ball.velocity == (Vector2 {
            x: (-s.ball.velocity.x) as i64,
            y: s.ball.velocity.y,
        }),
        s.contacts_resolved(false, false) == s,
        s.contacts_resolved(true, false).ball.position == s.ball.position,
{
    assert(s.contacts_resolved(false, false).ball =~= s.ball);
}

} // verus!
