use jamming_chipper::fixed::{Vec2, ONE};
use jamming_chipper::game::{new_player_control, PLAYER_INV_MASS};
use jamming_chipper::player::{
    find_standing_normal, movement_value, oriented_normal, AnimationChange, AnimationStatus,
    ControlOutput,
};

fn v(x: i64, y: i64) -> Vec2 {
    Vec2 { x, y }
}

#[test]
fn movement_value_is_the_mean() {
    assert_eq!(movement_value(&vec![]), 0);
    assert_eq!(movement_value(&vec![ONE]), ONE);
    assert_eq!(movement_value(&vec![ONE, 0]), 5_000);
    assert_eq!(movement_value(&vec![-ONE, 0, 0]), -3_333);
}

#[test]
fn standing_normal_is_the_most_upward_last_of_equals() {
    assert_eq!(find_standing_normal(&vec![]), None);
    let contacts = vec![v(-6_000, 8_000), v(0, ONE), v(6_000, 8_000)];
    assert_eq!(find_standing_normal(&contacts), Some(v(0, ONE)));
    let ties = vec![v(1, 5_000), v(2, 5_000)];
    assert_eq!(find_standing_normal(&ties), Some(v(2, 5_000)));
}

#[test]
fn standing_refills_and_latches() {
    let mut c = new_player_control();
    let out = c.step(0, false, &vec![v(0, ONE)], v(0, 0), PLAYER_INV_MASS, 16);
    assert_eq!(c.jump_potential, ONE);
    assert_eq!(c.stood_on_potential, ONE);
    assert_eq!(c.last_stood_on, v(0, ONE));
    assert_eq!(
        out,
        ControlOutput { jump_impulse: 0, move_impulse: Some(v(0, 0)), is_moving: false, face_left: None }
    );
}

#[test]
fn jump_impulse_follows_the_power_curve() {
    let mut c = new_player_control();
    c.step(0, false, &vec![v(0, ONE)], v(0, 0), PLAYER_INV_MASS, 16);
    let out = c.step(0, true, &vec![v(0, ONE)], v(0, 0), PLAYER_INV_MASS, 100);
    assert_eq!(c.jump_potential, 2_500);
    assert_eq!(out.jump_impulse, 800 * (10_000 - 3_535));
}

#[test]
fn uphill_movement_is_weakened() {
    let mut c = new_player_control();
    let out = c.step(ONE, false, &vec![v(-6_000, 8_000)], v(0, 0), PLAYER_INV_MASS, 16);
    assert_eq!(c.jump_potential, 8_000);
    assert_eq!(out.move_impulse, Some(v(1_154_560, 865_920)));
    assert!(out.is_moving);
    assert_eq!(out.face_left, Some(false));
}

#[test]
fn no_impulse_when_already_at_target_speed() {
    let mut c = new_player_control();
    c.step(0, false, &vec![v(0, ONE)], v(0, 0), PLAYER_INV_MASS, 16);
    // moving right at top speed along flat ground
    let out = c.step(ONE, false, &vec![v(0, ONE)], v(20 * ONE, 0), PLAYER_INV_MASS, 16);
    assert_eq!(out.move_impulse, None);
    let out = c.step(-ONE, false, &vec![v(0, ONE)], v(20 * ONE, 0), PLAYER_INV_MASS, 16);
    assert_eq!(out.move_impulse, Some(v(-6_400_000, 0)));
    assert_eq!(out.face_left, Some(true));
}

#[test]
fn grounded_jumping_keeps_potential_in_range() {
    let mut c = new_player_control();
    let normals = [v(0, ONE), v(-6_000, 8_000), v(9_000, 4_358), v(0, -ONE)];
    for frame in 0..200u64 {
        let n = normals[(frame % 4) as usize];
        let jumping = frame % 3 != 0;
        c.step(ONE / 2, jumping, &vec![n], v(0, -ONE), PLAYER_INV_MASS, 1 + frame % 50);
        assert!(0 <= c.jump_potential && c.jump_potential <= ONE);
    }
}

#[test]
fn airborne_without_jump_loses_potential() {
    let mut c = new_player_control();
    c.step(0, false, &vec![v(0, ONE)], v(0, 0), PLAYER_INV_MASS, 16);
    assert_eq!(c.jump_potential, ONE);
    c.step(0, false, &vec![], v(0, 0), PLAYER_INV_MASS, 16);
    assert_eq!(c.jump_potential, 0);
    // the latch fades at ten per second: 16 ms cost 0.16
    assert_eq!(c.stood_on_potential, ONE - 1_600);
}

#[test]
fn airborne_jump_keeps_spending() {
    let mut c = new_player_control();
    c.step(0, false, &vec![v(0, ONE)], v(0, 0), PLAYER_INV_MASS, 16);
    c.step(0, true, &vec![], v(0, 0), PLAYER_INV_MASS, 100);
    assert_eq!(c.jump_potential, 2_500);
}

#[test]
fn rescue_cancels_the_fall_then_adds_power() {
    let mut c = new_player_control();
    let impulse = c.rescue_bounce(-2 * ONE, PLAYER_INV_MASS);
    // compensate = -2 / (1/80) = -160; impulse = 200 - (-160)
    assert_eq!(impulse, Some(360 * ONE));
    assert_eq!(c.jump_potential, ONE);
    // applied to the body, the fall is cancelled and only the power remains
    let vy_after = -2 * ONE + impulse.unwrap() * PLAYER_INV_MASS / ONE;
    assert_eq!(vy_after, 200 * PLAYER_INV_MASS);
}

#[test]
fn no_rescue_while_rising() {
    let mut c = new_player_control();
    assert_eq!(c.rescue_bounce(ONE, PLAYER_INV_MASS), None);
    assert_eq!(c.jump_potential, 0);
    assert_eq!(c.rescue_bounce(ONE / 10, PLAYER_INV_MASS), Some(200 * ONE - 80 * 1_000));
}

#[test]
fn contact_normals_point_away_from_the_surface() {
    assert_eq!(oriented_normal(true, false, v(0, ONE)), Some(v(0, -ONE)));
    assert_eq!(oriented_normal(false, true, v(0, ONE)), Some(v(0, ONE)));
    assert_eq!(oriented_normal(false, false, v(0, ONE)), None);
}

#[test]
fn animation_catches_up_on_changes_only() {
    let mut status = AnimationStatus::new();
    let mut c = new_player_control();
    let out = c.step(-ONE, false, &vec![v(0, ONE)], v(0, 0), PLAYER_INV_MASS, 16);
    status.record(&out);
    assert_eq!(status.catch_up(), AnimationChange { turn_left: Some(true), legs_moving: Some(true) });
    assert_eq!(status.catch_up(), AnimationChange { turn_left: None, legs_moving: None });
    let out = c.step(0, false, &vec![v(0, ONE)], v(0, 0), PLAYER_INV_MASS, 16);
    status.record(&out);
    // stopping keeps the facing
    assert_eq!(status.catch_up(), AnimationChange { turn_left: None, legs_moving: Some(false) });
    assert!(status.is_left);
}
