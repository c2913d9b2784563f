//! The ball: wall bounces, scoring and respawn, and reflection off paddles
//! with a guard against bouncing twice off the same paddle.
use vstd::prelude::*;
use rand::Rng;
use crate::field::{
    abs, side_of, side_of_spec, within_limits, Side, Vec2, OUT_X, RACKET_HALF_HEIGHT, WALL_Y,
};
use crate::reflect::{
    direction_sq, has_ball_speed, near_component, reflect_spec, reflected_velocity, BALL_SPEED,
};

verus! {

/// Largest magnitude of a respawn velocity's vertical component (ten units per
/// second): the clamped offset, at a tenth of a unit per thousandth drawn.
pub const RESPAWN_MAX_VY: i64 = 10_000;

/// Clamp on the random offset, in thousandths of the draw's range.
pub const RESPAWN_OFFSET_CLAMP: i64 = 100;

/// The ball and the score of the game.
#[derive(Clone, Copy, Debug, PartialEq, Eq, Structural)]
pub struct Ball {
    pub position: Vec2,
    pub velocity: Vec2,
    pub left_score: u64,
    pub right_score: u64,
    /// The side of the paddle that the ball last bounced off, if any since the
    /// last respawn.
    pub last_hit: Option<Side>,
}

/// A contact between the ball and a paddle reported by the collision system.
#[derive(Clone, Copy, Debug, PartialEq, Eq, Structural)]
pub enum Contact {
    /// The ball began to overlap the paddle whose centre is given.
    Started(Vec2),
    /// The ball stopped overlapping a paddle.
    Stopped,
}

/// A velocity that the ball may be given when it is (re)spawned.
pub open spec fn is_respawn_velocity(v: Vec2) -> bool {
    abs(v.x as int) == BALL_SPEED && v.y != 0 && abs(v.y as int) <= RESPAWN_MAX_VY
}

/// The respawn velocity for a direction draw and an offset draw (thousandths
/// of the offset draw's range from its middle).
pub open spec fn initial_velocity_spec(toward_right: bool, offset: i64) -> Vec2 {
    let c: int = if offset < -RESPAWN_OFFSET_CLAMP {
        -RESPAWN_OFFSET_CLAMP
    } else if offset > RESPAWN_OFFSET_CLAMP {
        RESPAWN_OFFSET_CLAMP as int
    } else {
        offset as int
    };
    let c: int = if c == 0 { 1 } else { c };
    let x: int = if toward_right { BALL_SPEED as int } else { -BALL_SPEED };
    Vec2 { x: x as i64, y: (c * 100) as i64 }
}

/// The respawn velocity for the given draws: full speed horizontally in the
/// drawn direction, and a small vertical component that is never zero.
pub fn initial_velocity(toward_right: bool, offset: i64) -> (r: Vec2)
    ensures
        r == initial_velocity_spec(toward_right, offset),
        is_respawn_velocity(r),
        within_limits(r),
{
    let mut c: i64 = if offset < -RESPAWN_OFFSET_CLAMP {
        -RESPAWN_OFFSET_CLAMP
    } else if offset > RESPAWN_OFFSET_CLAMP {
        RESPAWN_OFFSET_CLAMP
    } else {
        offset
    };
    if c == 0 {
        c = 1;
    }
    Vec2 { x: if toward_right { BALL_SPEED } else { -BALL_SPEED }, y: c * 100 }
}

/// Relies on rand::thread_rng and rand::Rng::gen_range: a draw from the
/// inclusive range `lo..=hi`, which must not be empty.
#[verifier::external_body]
fn random_in(lo: i64, hi: i64) -> (r: i64)
    requires
        lo <= hi,
    ensures
        lo <= r <= hi,
{
    rand::thread_rng().gen_range(lo..=hi)
}

/// The ball has left the field on the left or on the right.
pub open spec fn is_out(b: Ball) -> bool {
    b.position.x > OUT_X || b.position.x < -OUT_X
}

/// The side whose score rises on this tick, if any: an exit on the positive
/// side counts for the left score, one on the negative side for the right.
pub open spec fn scorer_spec(b: Ball) -> Option<Side> {
    if !is_out(b) {
        None
    } else if b.position.x > 0 {
        Some(Side::Left)
    } else {
        Some(Side::Right)
    }
}

/// The ball after one tick, with `respawn` as the new velocity if it left the
/// field.
pub open spec fn update_spec(b: Ball, respawn: Vec2) -> Ball {
    let vy = if b.position.y > WALL_Y || b.position.y < -WALL_Y { -b.velocity.y } else { b.velocity.y as int };
    if b.position.x > OUT_X {
        Ball {
            position: Vec2 { x: 0, y: 0 },
            velocity: respawn,
            left_score: (b.left_score + 1) as u64,
            right_score: b.right_score,
            last_hit: None,
        }
    } else if b.position.x < -OUT_X {
        Ball {
            position: Vec2 { x: 0, y: 0 },
            velocity: respawn,
            left_score: b.left_score,
            right_score: (b.right_score + 1) as u64,
            last_hit: None,
        }
    } else {
        Ball { velocity: Vec2 { x: b.velocity.x, y: vy as i64 }, ..b }
    }
}

/// The ball after a contact with the paddle at `racket_pos` begins: unchanged
/// if it last bounced off the paddle on the side it is moving to, else
/// reflected, remembering the side of this paddle.
pub open spec fn reflect_ball_spec(b: Ball, racket_pos: Vec2) -> Ball {
    if b.last_hit == Some(side_of_spec(b.velocity.x)) {
        b
    } else {
        Ball {
            velocity: reflect_spec(b.velocity, b.position, racket_pos),
            last_hit: Some(side_of_spec(racket_pos.x)),
            ..b
        }
    }
}

/// The ball after a sequence of contacts.
pub open spec fn contacts_spec(b: Ball, events: Seq<Contact>) -> Ball
    decreases events.len(),
{
    if events.len() == 0 {
        b
    } else {
        let b1 = contacts_spec(b, events.drop_last());
        match events.last() {
            Contact::Started(p) => reflect_ball_spec(b1, p),
            Contact::Stopped => b1,
        }
    }
}

impl Ball {
    /// Positions and velocity lie within the simulation's limits.
    pub open spec fn wf(&self) -> bool {
        within_limits(self.position) && within_limits(self.velocity)
    }

    /// A ball at the centre of the field with a fresh random velocity, no
    /// points scored and no paddle hit yet.
    pub fn new() -> (r: Ball)
        ensures
            r.wf(),
            r.position == (Vec2 { x: 0, y: 0 }),
            is_respawn_velocity(r.velocity),
            r.left_score == 0,
            r.right_score == 0,
            r.last_hit.is_none(),
    {
        Ball {
            position: Vec2 { x: 0, y: 0 },
            velocity: Ball::get_initial_speed(),
            left_score: 0,
            right_score: 0,
            last_hit: None,
        }
    }

    /// A random respawn velocity: a direction drawn between left and right,
    /// and an offset drawn in thousandths around the middle of its range.
    pub fn get_initial_speed() -> (r: Vec2)
        ensures
            is_respawn_velocity(r),
            within_limits(r),
            exists|toward_right: bool, offset: i64|
                -500 <= offset <= 499 && r == initial_velocity_spec(toward_right, offset),
    {
        let toward_right = random_in(0, 1) == 1;
        let offset = random_in(-500, 499);
        initial_velocity(toward_right, offset)
    }

    /// Bounces the ball off the paddle whose centre is at `racket_pos`, unless
    /// it last bounced off the paddle on the side it is moving to.
    pub fn ball_reflect(&mut self, racket_pos: Vec2)
        requires
            old(self).wf(),
            within_limits(racket_pos),
        ensures
            *final(self) == reflect_ball_spec(*old(self), racket_pos),
            final(self).wf(),
            old(self).last_hit == Some(side_of_spec(old(self).velocity.x)) ==> *final(self) == *old(self),
            old(self).last_hit != Some(side_of_spec(old(self).velocity.x)) ==> {
                &&& has_ball_speed(final(self).velocity)
                &&& final(self).last_hit == Some(side_of_spec(racket_pos.x))
                &&& (old(self).velocity.x < 0 ==> final(self).velocity.x > 0)
                &&& (old(self).velocity.x >= 0 ==> final(self).velocity.x < 0)
                &&& near_component(
                    abs(final(self).velocity.x as int),
                    RACKET_HALF_HEIGHT as int,
                    direction_sq(old(self).position.y - racket_pos.y),
                )
                &&& near_component(
                    abs(final(self).velocity.y as int),
                    abs(old(self).position.y - racket_pos.y),
                    direction_sq(old(self).position.y - racket_pos.y),
                )
            },
    {
        let ball_dir = side_of(self.velocity.x);
        if self.last_hit == Some(ball_dir) {
            return;
        }
        self.velocity = reflected_velocity(self.velocity, self.position, racket_pos);
        self.last_hit = Some(side_of(racket_pos.x));
    }

    /// Applies the contacts of one tick in order: each begun contact reflects
    /// the ball, ended contacts are ignored.
    pub fn ball_collision(&mut self, events: &Vec<Contact>)
        requires
            old(self).wf(),
            forall|i: int| 0 <= i < events@.len() ==> (match #[trigger] events@[i] {
                Contact::Started(p) => within_limits(p),
                Contact::Stopped => true,
            }),
        ensures
            *final(self) == contacts_spec(*old(self), events@),
            final(self).wf(),
    {
        let mut i: usize = 0;
        while i < events.len()
            invariant
                0 <= i <= events@.len(),
                self.wf(),
                *self == contacts_spec(*old(self), events@.subrange(0, i as int)),
                forall|j: int| 0 <= j < events@.len() ==> (match #[trigger] events@[j] {
                    Contact::Started(p) => within_limits(p),
                    Contact::Stopped => true,
                }),
            decreases events@.len() - i,
        {
            proof {
                assert(events@.subrange(0, i + 1).drop_last() == events@.subrange(0, i as int));
            }
            match events[i] {
                Contact::Started(p) => {
                    self.ball_reflect(p);
                },
                Contact::Stopped => {},
            }
            i = i + 1;
        }
        proof {
            assert(events@.subrange(0, events@.len() as int) == events@);
        }
    }

    /// One tick of the ball with `respawn` as the velocity it gets if it left
    /// the field: the vertical velocity flips beyond the top and bottom walls;
    /// beyond the left or right edge a point is scored and the ball restarts at
    /// the centre with `respawn` and no paddle remembered. Returns the side
    /// whose score rose, if any.
    pub fn update_with(&mut self, respawn: Vec2) -> (r: Option<Side>)
        requires
            old(self).wf(),
            within_limits(respawn),
            old(self).position.x > OUT_X ==> old(self).left_score < u64::MAX,
            old(self).position.x < -OUT_X ==> old(self).right_score < u64::MAX,
        ensures
            *final(self) == update_spec(*old(self), respawn),
            r == scorer_spec(*old(self)),
            final(self).wf(),
            old(self).position.x > OUT_X ==> {
                &&& final(self).left_score == old(self).left_score + 1
                &&& final(self).right_score == old(self).right_score
                &&& final(self).position == (Vec2 { x: 0, y: 0 })
            },
            old(self).position.x < -OUT_X ==> {
                &&& final(self).right_score == old(self).right_score + 1
                &&& final(self).left_score == old(self).left_score
                &&& final(self).position == (Vec2 { x: 0, y: 0 })
            },
    {
        if self.position.y > WALL_Y || self.position.y < -WALL_Y {
            self.velocity.y = -self.velocity.y;
        }
        if self.position.x > OUT_X || self.position.x < -OUT_X {
            let scorer = if self.position.x > 0 {
                self.left_score = self.left_score + 1;
                Side::Left
            } else {
                self.right_score = self.right_score + 1;
                Side::Right
            };
            self.velocity = respawn;
            self.position = Vec2 { x: 0, y: 0 };
            self.last_hit = None;
            Some(scorer)
        } else {
            None
        }
    }

    /// One tick of the ball, drawing a fresh random velocity if it left the
    /// field. Returns the side whose score rose, if any.
    pub fn update(&mut self) -> (r: Option<Side>)
        requires
            old(self).wf(),
            old(self).position.x > OUT_X ==> old(self).left_score < u64::MAX,
            old(self).position.x < -OUT_X ==> old(self).right_score < u64::MAX,
        ensures
            *final(self) == update_spec(*old(self), final(self).velocity),
            is_out(*old(self)) ==> is_respawn_velocity(final(self).velocity),
            r == scorer_spec(*old(self)),
            final(self).wf(),
            old(self).position.x > OUT_X ==> {
                &&& final(self).left_score == old(self).left_score + 1
                &&& final(self).right_score == old(self).right_score
                &&& final(self).position == (Vec2 { x: 0, y: 0 })
            },
            old(self).position.x < -OUT_X ==> {
                &&& final(self).right_score == old(self).right_score + 1
                &&& final(self).left_score == old(self).left_score
                &&& final(self).position == (Vec2 { x: 0, y: 0 })
            },
    {
        let respawn = if self.position.x > OUT_X || self.position.x < -OUT_X {
            Ball::get_initial_speed()
        } else {
            Vec2 { x: 0, y: 0 }
        };
        self.update_with(respawn)
    }
}

} // verus!
