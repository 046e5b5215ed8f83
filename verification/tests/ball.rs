use pixelflut_ball::ball::Ball;
use pixelflut_ball::sampler::{obstacle_detected, obstacle_fraction};

fn ball_at(center_x: i64, center_y: i64, vel_x: i64, vel_y: i64) -> Ball {
    Ball {
        center_x,
        center_y,
        vel_x,
        vel_y,
        radius: 40000,
        screen_width: 800,
        screen_height: 600,
        obstacle_flips_y: false,
    }
}

#[test]
fn ball_new_is_centered() {
    let b = Ball::new(800, 600, 2000, 2000, false);
    assert_eq!(b.center_x, 400000);
    assert_eq!(b.center_y, 300000);
    assert_eq!(b.vel_x, 2000);
    assert_eq!(b.vel_y, 2000);
    assert_eq!(b.radius, 40000);
}

#[test]
fn one_free_tick_moves_by_the_velocity() {
    // Canvas 800x600, radius 40, center (380,280), movement (2,2):
    // after one tick with no obstacle, center is (382,282), no bounce.
    let b = ball_at(380000, 280000, 2000, 2000);
    let b2 = b.tick(false);
    assert_eq!(b2.center_x, 382000);
    assert_eq!(b2.center_y, 282000);
    assert_eq!(b2.vel_x, 2000);
    assert_eq!(b2.vel_y, 2000);
}

#[test]
fn ticks_until_both_horizontal_bounces() {
    let mut b = ball_at(380000, 280000, 2000, 2000);
    // Moving right: the right edge must flip the x movement from
    // positive to negative.
    let mut flipped_at_right = false;
    for _ in 0..400 {
        let prev = b.vel_x;
        b = b.tick(false);
        if prev > 0 && b.vel_x < 0 {
            flipped_at_right = true;
            assert_eq!(b.vel_x, -prev);
            // The bounce happened because the tentative position
            // overlapped the right edge.
            assert!(b.center_x + b.radius + b.vel_x.abs() >= 760000);
            break;
        }
    }
    assert!(flipped_at_right);
    // Then moving left: reaching center_x - radius <= 0 must flip the x
    // movement back to positive.
    let mut flipped_at_left = false;
    for _ in 0..400 {
        let prev = b.vel_x;
        b = b.tick(false);
        if prev < 0 && b.vel_x > 0 {
            flipped_at_left = true;
            assert_eq!(b.vel_x, -prev);
            assert!(b.center_x - b.radius <= 2 * b.vel_x.abs());
            break;
        }
    }
    assert!(flipped_at_left);
}

#[test]
fn edge_touch_flips_movement() {
    // center - radius == 0 on the x axis: the next step flips the x
    // movement sign (edge touch triggers the bounce, not only overlap).
    let b = ball_at(40000, 300000, -2000, 0);
    let b2 = b.tick(false);
    assert_eq!(b2.vel_x, 2000);
    assert_eq!(b2.center_x, 42000);
    // Same for the y axis.
    let b = ball_at(400000, 40000, 0, -2000);
    let b2 = b.tick(false);
    assert_eq!(b2.vel_y, 2000);
    assert_eq!(b2.center_y, 42000);
}

#[test]
fn obstacle_flips_only_x_by_default() {
    let b = ball_at(380000, 280000, 2000, 3000);
    let b2 = b.tick(true);
    assert_eq!(b2.vel_x, -2000);
    assert_eq!(b2.vel_y, 3000);
    assert_eq!(b2.center_x, 378000);
    assert_eq!(b2.center_y, 283000);
}

#[test]
fn obstacle_flips_both_axes_under_the_policy_flag() {
    let mut b = ball_at(380000, 280000, 2000, 3000);
    b.obstacle_flips_y = true;
    let b2 = b.tick(true);
    assert_eq!(b2.vel_x, -2000);
    assert_eq!(b2.vel_y, -3000);
}

#[test]
fn lookahead_ray_in_open_canvas() {
    // Moving straight right from (380,280): the ray runs from the
    // sprite's radius (40 px) to the lookahead distance (100 px) ahead
    // of the tentative center.
    let b = ball_at(380000, 280000, 1000, 0);
    let coords = b.lookahead_coordinates().expect("front point is inside the canvas");
    assert_eq!(coords.len(), 60);
    assert_eq!(coords[0], (421, 280));
    assert_eq!(coords[59], (480, 280));
}

#[test]
fn lookahead_skipped_near_the_edge() {
    // Moving right near the right edge: the front point leaves the
    // canvas, so the whole sample is skipped.
    let b = ball_at(710000, 280000, 1000, 0);
    assert!(b.lookahead_coordinates().is_none());
}

#[test]
fn lookahead_skipped_when_start_endpoint_is_outside() {
    // The ray's front point is back inside the canvas, but its start
    // (one radius ahead of the tentative center) is still outside: the
    // whole sample is skipped, never clamped.
    let b = ball_at(-50000, 280000, 1000, 0);
    assert!(b.lookahead_coordinates().is_none());
}

#[test]
fn lookahead_skipped_when_not_moving() {
    let b = ball_at(380000, 280000, 0, 0);
    assert!(b.lookahead_coordinates().is_none());
}

#[test]
fn collision_fraction_uses_requested_count() {
    // N = 10 requested, K = 5 valid responses, all the obstacle color:
    // the fraction is 5/10, not 5/5.
    let colors = vec![0x00ff0000u32; 5];
    let f = obstacle_fraction(&colors, 10);
    assert_eq!(f, (5, 10));
    assert!(!obstacle_detected(&colors, 10));
    // All 10 back and matching: 10/10 meets the 0.99 threshold.
    let colors = vec![0x00ff0000u32; 10];
    assert!(obstacle_detected(&colors, 10));
}

#[test]
fn obstacle_threshold_is_99_of_100() {
    let mut colors = vec![0x00ff0000u32; 99];
    assert!(obstacle_detected(&colors, 100));
    colors.pop();
    assert!(!obstacle_detected(&colors, 100));
    colors.push(0x0000ff00);
    assert!(!obstacle_detected(&colors, 100));
}

#[test]
fn empty_request_detects_nothing() {
    let colors: Vec<u32> = Vec::new();
    assert!(!obstacle_detected(&colors, 0));
}
