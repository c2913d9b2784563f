use pong::ball::{initial_velocity, Ball, Contact, RESPAWN_MAX_VY};
use pong::field::{isqrt, side_of, Side, Vec2, RACKET_EDGE_Y};
use pong::racket::{Racket, AI_RACKET_X, AI_SPEED, PLAYER_RACKET_X, PLAYER_SPEED};
use pong::reflect::{reflected_velocity, BALL_SPEED, SPEED_TOLERANCE};

fn v(x: i64, y: i64) -> Vec2 {
    Vec2 { x, y }
}

fn ball_at(position: Vec2, velocity: Vec2) -> Ball {
    Ball { position, velocity, left_score: 0, right_score: 0, last_hit: None }
}

fn speed(w: Vec2) -> f64 {
    ((w.x as f64) * (w.x as f64) + (w.y as f64) * (w.y as f64)).sqrt()
}

fn assert_respawn(w: Vec2) {
    assert_eq!(w.x.abs(), BALL_SPEED);
    assert_ne!(w.y, 0);
    assert!(w.y.abs() <= RESPAWN_MAX_VY);
}

#[test]
fn isqrt_rounds_down() {
    assert_eq!(isqrt(0), 0);
    assert_eq!(isqrt(1), 1);
    assert_eq!(isqrt(15), 3);
    assert_eq!(isqrt(16), 4);
    assert_eq!(isqrt(2 * 35_000 * 35_000), 49_497);
    assert_eq!(isqrt(u64::MAX as u128), 4_294_967_295);
    assert_eq!(isqrt(u128::MAX), 18_446_744_073_709_551_615);
    assert_eq!(isqrt(1_000_000 * 2 * 35_000 * 35_000), 49_497_474);
}

#[test]
fn side_of_zero_is_right() {
    assert_eq!(side_of(-1), Side::Left);
    assert_eq!(side_of(0), Side::Right);
    assert_eq!(side_of(5), Side::Right);
}

#[test]
fn reflection_at_paddle_centre_goes_straight_back() {
    assert_eq!(reflected_velocity(v(400_000, 0), v(240_000, 0), v(250_000, 0)), v(-400_000, 0));
    assert_eq!(reflected_velocity(v(-400_000, 7), v(-240_000, 0), v(-250_000, 0)), v(400_000, 0));
}

#[test]
fn reflection_angle_follows_contact_offset() {
    let w = reflected_velocity(v(400_000, 0), v(240_000, 35_000), v(250_000, 0));
    assert_eq!(w, v(-282_843, 282_843));
    let w = reflected_velocity(v(-400_000, 0), v(-240_000, -70_000), v(-250_000, 0));
    assert_eq!(w, v(178_885, -357_771));
    let w = reflected_velocity(v(1, 0), v(0, 10_000), v(0, 20_000));
    assert_eq!(w, v(-384_610, -109_888));
    // A contact 0.264 units off the paddle centre.
    let w = reflected_velocity(v(400_000, 0), v(240_000, 264), v(250_000, 0));
    assert_eq!(w, v(-399_989, 3_017));
}

#[test]
fn reflection_keeps_speed_within_tolerance() {
    for dy in [-2_000_000_000i64, -500_000, -35_001, -1, 0, 3, 34_999, 1_000_000, 999_999_999] {
        for vx in [-400_000i64, -1, 0, 1, 400_000] {
            let w = reflected_velocity(v(vx, 123), v(0, dy / 2), v(250_000, -dy / 2));
            let s = speed(w);
            assert!((s - BALL_SPEED as f64).abs() <= SPEED_TOLERANCE as f64);
            let off = (dy / 2 + dy / 2) as f64;
            let len = (35_000f64 * 35_000f64 + off * off).sqrt();
            assert!((w.x.abs() as f64 - BALL_SPEED as f64 * 35_000f64 / len).abs() <= 1.0);
            assert!((w.y.abs() as f64 - BALL_SPEED as f64 * off.abs() / len).abs() <= 1.0);
            if vx < 0 {
                assert!(w.x > 0);
            } else {
                assert!(w.x < 0);
            }
        }
    }
}

#[test]
fn ball_reflect_records_paddle_side() {
    let mut b = ball_at(v(240_000, 35_000), v(400_000, 100));
    b.ball_reflect(v(250_000, 0));
    assert_eq!(b.velocity, v(-282_843, 282_843));
    assert_eq!(b.last_hit, Some(Side::Right));
    assert_eq!(b.position, v(240_000, 35_000));
}

#[test]
fn double_hit_guard_skips_reflection() {
    let mut b = ball_at(v(240_000, 10_000), v(-400_000, 5));
    b.last_hit = Some(Side::Left);
    let before = b;
    b.ball_reflect(v(-250_000, 0));
    assert_eq!(b, before);
    // Moving away from the remembered paddle, the ball reflects.
    b.last_hit = Some(Side::Right);
    b.ball_reflect(v(-250_000, 10_000));
    assert_eq!(b.velocity, v(400_000, 0));
    assert_eq!(b.last_hit, Some(Side::Left));
}

#[test]
fn collision_events_apply_in_order() {
    let mut once = ball_at(v(-240_000, 35_000), v(-400_000, 0));
    once.ball_collision(&vec![Contact::Started(v(-250_000, 0))]);
    assert_eq!(once.velocity, v(282_843, 282_843));
    assert_eq!(once.last_hit, Some(Side::Left));
    assert!((speed(once.velocity) - BALL_SPEED as f64).abs() <= 1.0);
    let mut b = ball_at(v(240_000, 0), v(400_000, 0));
    let events = vec![Contact::Started(v(250_000, 0)), Contact::Stopped, Contact::Started(v(250_000, 0))];
    b.ball_collision(&events);
    // After the first bounce the ball moves left, away from the remembered
    // side, so the second contact reflects it again.
    assert_eq!(b.velocity, v(400_000, 0));
    assert_eq!(b.last_hit, Some(Side::Right));
    // Moving toward the remembered side, further contacts are suppressed.
    b.ball_collision(&vec![Contact::Started(v(250_000, 0)), Contact::Started(v(-250_000, 0))]);
    assert_eq!(b.velocity, v(400_000, 0));
    let mut c = ball_at(v(0, 0), v(400_000, 0));
    c.ball_collision(&vec![Contact::Stopped]);
    assert_eq!(c, ball_at(v(0, 0), v(400_000, 0)));
}

#[test]
fn wall_bounce_flips_vertical_velocity() {
    let mut b = ball_at(v(0, 200_001), v(400_000, 3_000));
    assert_eq!(b.update_with(v(400_000, 100)), None);
    assert_eq!(b.velocity, v(400_000, -3_000));
    assert_eq!(b.position, v(0, 200_001));
    let mut b = ball_at(v(0, -200_001), v(400_000, -3_000));
    b.update_with(v(400_000, 100));
    assert_eq!(b.velocity, v(400_000, 3_000));
    let mut b = ball_at(v(0, 200_000), v(400_000, 3_000));
    b.update_with(v(400_000, 100));
    assert_eq!(b.velocity, v(400_000, 3_000));
}

#[test]
fn exit_on_positive_side_scores_left() {
    let mut b = ball_at(v(310_001, 50_000), v(400_000, 0));
    b.last_hit = Some(Side::Right);
    assert_eq!(b.update_with(v(-400_000, 200)), Some(Side::Left));
    assert_eq!(b.left_score, 1);
    assert_eq!(b.right_score, 0);
    assert_eq!(b.position, v(0, 0));
    assert_eq!(b.velocity, v(-400_000, 200));
    assert_eq!(b.last_hit, None);
}

#[test]
fn exit_on_negative_side_scores_right() {
    let mut b = ball_at(v(-310_001, 0), v(-400_000, 0));
    b.left_score = 4;
    b.right_score = 6;
    assert_eq!(b.update_with(v(400_000, -200)), Some(Side::Right));
    assert_eq!(b.left_score, 4);
    assert_eq!(b.right_score, 7);
    assert_eq!(b.position, v(0, 0));
}

#[test]
fn inside_the_field_nothing_is_scored() {
    let mut b = ball_at(v(310_000, 0), v(400_000, 0));
    assert_eq!(b.update(), None);
    assert_eq!(b, ball_at(v(310_000, 0), v(400_000, 0)));
}

#[test]
fn repeated_resets_never_decrease_scores() {
    let mut b = ball_at(v(0, 0), v(400_000, 0));
    let mut last = (0u64, 0u64);
    for i in 0..50i64 {
        b.position = v(if i % 3 == 0 { -320_000 } else { 320_000 }, 0);
        b.update();
        assert!(b.left_score >= last.0 && b.right_score >= last.1);
        assert_eq!(b.left_score + b.right_score, last.0 + last.1 + 1);
        last = (b.left_score, b.right_score);
    }
}

#[test]
fn initial_velocity_from_draws() {
    assert_eq!(initial_velocity(true, 0), v(400_000, 100));
    assert_eq!(initial_velocity(false, -300), v(-400_000, -10_000));
    assert_eq!(initial_velocity(true, 42), v(400_000, 4_200));
    assert_eq!(initial_velocity(false, 499), v(-400_000, 10_000));
    assert_eq!(initial_velocity(true, -1), v(400_000, -100));
}

#[test]
fn respawn_velocity_holds_over_many_draws() {
    let mut seen_left = false;
    let mut seen_right = false;
    for _ in 0..1000 {
        let w = Ball::get_initial_speed();
        assert_respawn(w);
        seen_left |= w.x < 0;
        seen_right |= w.x > 0;
    }
    assert!(seen_left && seen_right);
}

#[test]
fn new_ball_starts_at_centre() {
    let b = Ball::new();
    assert_eq!(b.position, v(0, 0));
    assert_eq!((b.left_score, b.right_score, b.last_hit), (0, 0, None));
    assert_respawn(b.velocity);
}

#[test]
fn end_to_end_exit_scores_and_respawns() {
    let mut b = ball_at(v(0, 0), v(400_000, 0));
    assert_eq!(b.update(), None);
    b.position = v(311_000, 0);
    assert_eq!(b.update(), Some(Side::Left));
    assert_eq!(b.left_score, 1);
    assert_eq!(b.right_score, 0);
    assert_eq!(b.position, v(0, 0));
    assert_respawn(b.velocity);
}

#[test]
fn player_follows_input() {
    let mut r = Racket::new(true, PLAYER_RACKET_X);
    r.racket(true, true, v(0, 0), v(0, 0));
    assert_eq!(r.velocity.y, PLAYER_SPEED);
    r.racket(false, true, v(0, 0), v(0, 0));
    assert_eq!(r.velocity.y, -PLAYER_SPEED);
    r.racket(false, false, v(0, 0), v(0, 0));
    assert_eq!(r.velocity.y, 0);
    assert_eq!(r.position, v(PLAYER_RACKET_X, 0));
}

#[test]
fn player_stops_at_edges() {
    let mut r = Racket::new(true, PLAYER_RACKET_X);
    r.position.y = RACKET_EDGE_Y;
    r.racket(true, false, v(0, 0), v(0, 0));
    assert_eq!(r.velocity.y, 0);
    r.racket(false, true, v(0, 0), v(0, 0));
    assert_eq!(r.velocity.y, -PLAYER_SPEED);
    r.position.y = -RACKET_EDGE_Y - 10;
    r.racket(false, true, v(0, 0), v(0, 0));
    assert_eq!(r.velocity.y, 0);
    r.racket(true, false, v(0, 0), v(0, 0));
    assert_eq!(r.velocity.y, PLAYER_SPEED);
    r.position.y = RACKET_EDGE_Y - 1;
    r.racket(true, false, v(0, 0), v(0, 0));
    assert_eq!(r.velocity.y, PLAYER_SPEED);
}

#[test]
fn clamp_to_field_alone() {
    let mut r = Racket::new(true, PLAYER_RACKET_X);
    r.position.y = RACKET_EDGE_Y;
    r.velocity.y = 5;
    r.clamp_to_field();
    assert_eq!(r.velocity.y, 0);
    r.velocity.y = -5;
    r.clamp_to_field();
    assert_eq!(r.velocity.y, -5);
}

#[test]
fn ai_stands_still_near_tracked_height() {
    let mut r = Racket::new(false, AI_RACKET_X);
    r.ai_last_ball_ypos = 2_000;
    r.position.y = -1_000;
    r.racket(true, false, v(0, 4_000), v(400_000, 0));
    assert_eq!(r.velocity.y, 0);
    assert_eq!(r.ai_last_ball_ypos, 2_000);
}

#[test]
fn ai_moves_at_constant_speed_toward_ball() {
    let mut r = Racket::new(false, AI_RACKET_X);
    r.racket_ai(v(0, 100_000), v(400_000, 0));
    assert_eq!(r.ai_last_ball_ypos, 100_000);
    assert_eq!(r.velocity.y, AI_SPEED);
    r.racket_ai(v(0, -100_000), v(400_000, 0));
    assert_eq!(r.velocity.y, -AI_SPEED);
}

#[test]
fn ai_dead_zone_is_wider_when_ball_approaches() {
    // Ball 20 units away: re-tracked while it moves away, not while it approaches.
    let mut away = Racket::new(false, AI_RACKET_X);
    away.racket_ai(v(0, 20_000), v(-400_000, 0));
    assert_eq!(away.ai_last_ball_ypos, 20_000);
    assert_eq!(away.velocity.y, AI_SPEED);
    let mut toward = Racket::new(false, AI_RACKET_X);
    toward.racket_ai(v(0, 20_000), v(400_000, 0));
    assert_eq!(toward.ai_last_ball_ypos, 0);
    assert_eq!(toward.velocity.y, 0);
    // On the left side, approaching means moving left.
    let mut left = Racket::new(false, PLAYER_RACKET_X);
    left.racket_ai(v(0, 20_000), v(-400_000, 0));
    assert_eq!(left.ai_last_ball_ypos, 0);
    // Re-tracking needs the distance to exceed the dead zone.
    left.racket_ai(v(0, 30_000), v(-400_000, 0));
    assert_eq!(left.ai_last_ball_ypos, 0);
    left.racket_ai(v(0, 30_001), v(-400_000, 0));
    assert_eq!(left.ai_last_ball_ypos, 30_001);
    let mut near = Racket::new(false, AI_RACKET_X);
    near.racket_ai(v(0, 18_000), v(-400_000, 0));
    assert_eq!(near.ai_last_ball_ypos, 0);
}

#[test]
fn ai_keeps_moving_to_stale_target() {
    let mut r = Racket::new(false, AI_RACKET_X);
    r.ai_last_ball_ypos = -50_000;
    r.position.y = -40_000;
    r.racket_ai(v(0, -45_000), v(0, 0));
    assert_eq!(r.ai_last_ball_ypos, -50_000);
    assert_eq!(r.velocity.y, -AI_SPEED);
    r.position.y = -53_000;
    r.racket_ai(v(0, -45_000), v(0, 0));
    assert_eq!(r.velocity.y, 0);
}
