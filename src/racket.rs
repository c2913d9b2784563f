//! The paddles: the player's paddle follows two input signals and stops at the
//! field's edges; the computer's paddle tracks the ball with a dead zone.
use vstd::prelude::*;
use crate::field::{abs, within_limits, Vec2, COORD_LIMIT, RACKET_EDGE_Y};

verus! {

/// Vertical speed of the player's paddle.
pub const PLAYER_SPEED: i64 = 200_000;

/// Vertical speed of the computer's paddle.
pub const AI_SPEED: i64 = 200_000;

/// Dead zone of the computer's paddle while the ball moves away from it.
pub const AI_DEAD_ZONE_NEAR: i64 = 18_000;

/// Dead zone of the computer's paddle while the ball moves toward it.
pub const AI_DEAD_ZONE_WIDE: i64 = 30_000;

/// Distance from the tracked position within which the computer's paddle
/// stands still.
pub const AI_STABILITY: i64 = 3_000;

/// Horizontal position of the player's paddle.
pub const PLAYER_RACKET_X: i64 = -250_000;

/// Horizontal position of the computer's paddle.
pub const AI_RACKET_X: i64 = 250_000;

/// A paddle, with its role and the computer's memory of the ball's height.
#[derive(Clone, Copy, Debug, PartialEq, Eq, Structural)]
pub struct Racket {
    pub position: Vec2,
    pub velocity: Vec2,
    pub is_player: bool,
    /// The ball's height that the computer's paddle moves to.
    pub ai_last_ball_ypos: i64,
}

/// The ball moves horizontally toward the side of the paddle at `racket_x`.
pub open spec fn moving_toward(ball_vx: i64, racket_x: i64) -> bool {
    (ball_vx > 0 && racket_x >= 0) || (ball_vx < 0 && racket_x < 0)
}

/// The player's commanded vertical velocity.
pub open spec fn player_vy(up: bool, down: bool) -> i64 {
    if up { PLAYER_SPEED } else if down { (-PLAYER_SPEED) as i64 } else { 0 }
}

/// The vertical velocity after the hard stop at the top and bottom edges.
pub open spec fn clamped_vy(y: i64, vy: i64) -> i64 {
    if (vy > 0 && y >= RACKET_EDGE_Y) || (vy < 0 && y <= -RACKET_EDGE_Y) { 0 } else { vy }
}

/// The height the computer's paddle tracks after seeing the ball at
/// `ball_pos` moving with `ball_vel`.
pub open spec fn tracked_y(r: Racket, ball_pos: Vec2, ball_vel: Vec2) -> i64 {
    let dead_zone = if moving_toward(ball_vel.x, r.position.x) { AI_DEAD_ZONE_WIDE } else { AI_DEAD_ZONE_NEAR };
    if abs(ball_pos.y - r.position.y) > dead_zone { ball_pos.y } else { r.ai_last_ball_ypos }
}

/// The computer's vertical velocity toward the tracked height `target`.
pub open spec fn ai_vy(y: i64, target: i64) -> i64 {
    let diff = target - y;
    if abs(diff) <= AI_STABILITY { 0 } else if diff > 0 { AI_SPEED } else { (-AI_SPEED) as i64 }
}

/// The paddle after the computer's control step.
pub open spec fn racket_ai_spec(r: Racket, ball_pos: Vec2, ball_vel: Vec2) -> Racket {
    let t = tracked_y(r, ball_pos, ball_vel);
    Racket {
        velocity: Vec2 { x: r.velocity.x, y: ai_vy(r.position.y, t) },
        ai_last_ball_ypos: t,
        ..r
    }
}

/// The paddle after its control step for its role.
pub open spec fn racket_spec(r: Racket, up: bool, down: bool, ball_pos: Vec2, ball_vel: Vec2) -> Racket {
    if r.is_player {
        Racket {
            velocity: Vec2 { x: r.velocity.x, y: clamped_vy(r.position.y, player_vy(up, down)) },
            ..r
        }
    } else {
        racket_ai_spec(r, ball_pos, ball_vel)
    }
}

impl Racket {
    /// Position, velocity and tracked height lie within the simulation's limits.
    pub open spec fn wf(&self) -> bool {
        within_limits(self.position) && within_limits(self.velocity)
            && abs(self.ai_last_ball_ypos as int) <= COORD_LIMIT
    }

    /// A paddle at rest at height zero on the horizontal position `x`.
    pub fn new(is_player: bool, x: i64) -> (r: Racket)
        requires
            abs(x as int) <= COORD_LIMIT,
        ensures
            r.wf(),
            r.position == (Vec2 { x, y: 0 }),
            r.velocity == (Vec2 { x: 0, y: 0 }),
            r.is_player == is_player,
            r.ai_last_ball_ypos == 0,
    {
        Racket { position: Vec2 { x, y: 0 }, velocity: Vec2 { x: 0, y: 0 }, is_player, ai_last_ball_ypos: 0 }
    }

    /// Sets the vertical velocity from the input signals: up wins over down.
    pub fn player_racket(&mut self, up: bool, down: bool)
        ensures
            *final(self) == (Racket { velocity: Vec2 { x: old(self).velocity.x, y: player_vy(up, down) }, ..*old(self) }),
    {
        self.velocity.y = if up {
            PLAYER_SPEED
        } else if down {
            -PLAYER_SPEED
        } else {
            0
        };
    }

    /// Stops the paddle when it is at or beyond the top edge moving up, or at
    /// or beyond the bottom edge moving down.
    pub fn clamp_to_field(&mut self)
        ensures
            *final(self) == (Racket {
                velocity: Vec2 { x: old(self).velocity.x, y: clamped_vy(old(self).position.y, old(self).velocity.y) },
                ..*old(self)
            }),
            old(self).position.y >= RACKET_EDGE_Y && old(self).velocity.y > 0 ==> final(self).velocity.y == 0,
            old(self).position.y <= -RACKET_EDGE_Y && old(self).velocity.y < 0 ==> final(self).velocity.y == 0,
    {
        if (self.velocity.y > 0 && self.position.y >= RACKET_EDGE_Y) || (self.velocity.y < 0
            && self.position.y <= -RACKET_EDGE_Y) {
            self.velocity.y = 0;
        }
    }

    /// The computer's control step: re-tracks the ball's height when the ball
    /// is more than the dead zone away (wider while the ball comes toward this
    /// paddle), then moves at constant speed toward the tracked height, or
    /// stands still within the stability distance of it.
    pub fn racket_ai(&mut self, ball_pos: Vec2, ball_vel: Vec2)
        requires
            old(self).wf(),
            within_limits(ball_pos),
        ensures
            *final(self) == racket_ai_spec(*old(self), ball_pos, ball_vel),
            final(self).wf(),
    {
        let diff: i64 = ball_pos.y - self.position.y;
        let distance: i64 = if diff < 0 { -diff } else { diff };
        let toward = (ball_vel.x > 0 && self.position.x >= 0) || (ball_vel.x < 0 && self.position.x < 0);
        let distance_to_move: i64 = if toward { AI_DEAD_ZONE_WIDE } else { AI_DEAD_ZONE_NEAR };
        if distance > distance_to_move {
            self.ai_last_ball_ypos = ball_pos.y;
        }
        let diff: i64 = self.ai_last_ball_ypos - self.position.y;
        let distance: i64 = if diff < 0 { -diff } else { diff };
        self.velocity.y = 0;
        if distance > AI_STABILITY {
            self.velocity.y = if diff > 0 { AI_SPEED } else { -AI_SPEED };
        }
    }

    /// One control step of this paddle: the player's follows the input and
    /// stops at the edges, the computer's tracks the ball.
    pub fn racket(&mut self, up: bool, down: bool, ball_pos: Vec2, ball_vel: Vec2)
        requires
            old(self).wf(),
            within_limits(ball_pos),
        ensures
            *final(self) == racket_spec(*old(self), up, down, ball_pos, ball_vel),
            final(self).wf(),
    {
        if self.is_player {
            self.player_racket(up, down);
            self.clamp_to_field();
        } else {
            self.racket_ai(ball_pos, ball_vel);
        }
    }
}

} // verus!
