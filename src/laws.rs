//! Properties that hold of every game state, proved over the models of the
//! ball and the paddles.
use vstd::prelude::*;
use crate::ball::{
    initial_velocity_spec, is_respawn_velocity, reflect_ball_spec, update_spec, Ball,
};
use crate::field::{abs, side_of_spec, within_limits, Vec2, OUT_X, RACKET_EDGE_Y};
use crate::racket::{racket_spec, Racket, AI_STABILITY};
use crate::reflect::{has_ball_speed, lemma_reflection_speed};

verus! {

/// A reflection off a paddle leaves the ball moving at the ball speed, up to
/// fixed-point rounding.
pub proof fn reflection_keeps_speed(b: Ball, racket_pos: Vec2)
    requires
        b.wf(),
        within_limits(racket_pos),
        b.last_hit != Some(side_of_spec(b.velocity.x)),
    ensures
        has_ball_speed(reflect_ball_spec(b, racket_pos).velocity),
{
    lemma_reflection_speed(b.velocity, b.position, racket_pos);
}

/// A reflection reverses the sign of the ball's horizontal velocity.
pub proof fn reflection_reverses_direction(b: Ball, racket_pos: Vec2)
    requires
        b.wf(),
        within_limits(racket_pos),
        b.last_hit != Some(side_of_spec(b.velocity.x)),
        b.velocity.x != 0,
    ensures
        b.velocity.x > 0 ==> reflect_ball_spec(b, racket_pos).velocity.x < 0,
        b.velocity.x < 0 ==> reflect_ball_spec(b, racket_pos).velocity.x > 0,
{
    lemma_reflection_speed(b.velocity, b.position, racket_pos);
}

/// A contact with the paddle on the side the ball is moving to, when that is
/// the paddle it last bounced off, leaves the ball unchanged.
pub proof fn double_hit_guard(b: Ball, racket_pos: Vec2)
    requires
        b.last_hit == Some(side_of_spec(b.velocity.x)),
    ensures
        reflect_ball_spec(b, racket_pos) == b,
        reflect_ball_spec(b, racket_pos).velocity == b.velocity,
{
}

/// Leaving the field on the positive side adds exactly one to the left score
/// and restarts the ball at the centre.
pub proof fn scoring_left(b: Ball, respawn: Vec2)
    requires
        b.position.x > OUT_X,
        b.left_score < u64::MAX,
    ensures
        update_spec(b, respawn).left_score == b.left_score + 1,
        update_spec(b, respawn).right_score == b.right_score,
        update_spec(b, respawn).position == (Vec2 { x: 0, y: 0 }),
{
}

/// Leaving the field on the negative side adds exactly one to the right score
/// and restarts the ball at the centre.
pub proof fn scoring_right(b: Ball, respawn: Vec2)
    requires
        b.position.x < -OUT_X,
        b.right_score < u64::MAX,
    ensures
        update_spec(b, respawn).right_score == b.right_score + 1,
        update_spec(b, respawn).left_score == b.left_score,
        update_spec(b, respawn).position == (Vec2 { x: 0, y: 0 }),
{
}

/// No tick lowers a score.
pub proof fn scores_never_decrease(b: Ball, respawn: Vec2)
    requires
        b.position.x > OUT_X ==> b.left_score < u64::MAX,
        b.position.x < -OUT_X ==> b.right_score < u64::MAX,
    ensures
        update_spec(b, respawn).left_score >= b.left_score,
        update_spec(b, respawn).right_score >= b.right_score,
{
}

/// Whatever is drawn, a respawn velocity has the ball speed horizontally and a
/// non-zero vertical component within the clamp.
pub proof fn respawn_velocity_in_range(toward_right: bool, offset: i64)
    ensures
        is_respawn_velocity(initial_velocity_spec(toward_right, offset)),
{
}

/// The player's paddle at or beyond the top edge cannot move up, and at or
/// beyond the bottom edge cannot move down.
pub proof fn racket_edge_clamp(r: Racket, up: bool, down: bool, ball_pos: Vec2, ball_vel: Vec2)
    requires
        r.is_player,
    ensures
        r.position.y >= RACKET_EDGE_Y && up ==> racket_spec(r, up, down, ball_pos, ball_vel).velocity.y == 0,
        r.position.y <= -RACKET_EDGE_Y && !up && down ==> racket_spec(r, up, down, ball_pos, ball_vel).velocity.y == 0,
{
}

/// The computer's paddle stands still when both the ball and the paddle are
/// within the stability distance of the tracked height.
pub proof fn ai_stability(r: Racket, ball_pos: Vec2, ball_vel: Vec2, up: bool, down: bool)
    requires
        !r.is_player,
        abs(ball_pos.y - r.ai_last_ball_ypos) <= AI_STABILITY,
        abs(r.position.y - r.ai_last_ball_ypos) <= AI_STABILITY,
    ensures
        racket_spec(r, up, down, ball_pos, ball_vel).velocity.y == 0,
{
}

} // verus!
