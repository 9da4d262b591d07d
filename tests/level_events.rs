use jamming_chipper::fixed::{Vec2, ONE};
use jamming_chipper::game::{new_player_control, PLAYER_INV_MASS};
use jamming_chipper::level::{Chipper, ChipperEffect, Level, Trunk, TrunkOutcome, Woodchip};
use jamming_chipper::woodchips::{
    woodchip_launch, ChipOutcome, Launch, LaunchDraws, Pose, RescueOutcome, SpawnTick,
};

fn loaded() -> Level {
    let mut level = Level::new();
    assert!(level.load());
    level
}

fn chipper_state(level: &Level, id: u64) -> Chipper {
    level.chippers.iter().find(|c| c.id == id).unwrap().value.state
}

fn flat_pose() -> Pose {
    Pose { x: 0, y: 0, cos: ONE, sin: 0 }
}

fn draws() -> LaunchDraws {
    LaunchDraws { vertical: 5_000, horizontal: 5_000, spin: 5_000, interval: 5_000 }
}

#[test]
fn load_sets_up_a_row_of_free_chippers() {
    let level = loaded();
    assert_eq!(level.chippers.len(), 7);
    for (i, c) in level.chippers.iter().enumerate() {
        assert_eq!(c.id, i as u64);
        assert_eq!(c.value.state, Chipper::Free);
        assert_eq!(c.value.effect, ChipperEffect::NoEffect);
    }
    assert!(level.trunks.is_empty());
    assert!(level.woodchips.is_empty());
    assert_eq!(level.next_id, 7);
}

#[test]
fn only_one_trunk_at_a_time() {
    let mut level = loaded();
    assert_eq!(level.spawn_trunk(), Some(7));
    assert_eq!(level.spawn_trunk(), None);
    assert_eq!(level.spawn_trunk(), None);
    assert_eq!(level.trunks.len(), 1);
    assert!(matches!(level.trunks[0].value.state, Trunk::Free));
}

#[test]
fn trunk_lifecycle_through_chippers() {
    let mut level = loaded();
    let t = level.spawn_trunk().unwrap();
    // the event may list the chipper first
    assert_eq!(level.trunk_meets_chipper(2, t, true), TrunkOutcome::Entered);
    assert!(level.trunks[0].value.spawner.is_some());
    assert_eq!(level.trunk_meets_chipper(t, 3, true), TrunkOutcome::Joined);
    assert_eq!(level.trunk_meets_chipper(t, 3, true), TrunkOutcome::Joined);
    match &level.trunks[0].value.state {
        Trunk::InChipper(s) => assert_eq!(s.len(), 2),
        Trunk::Free => panic!("trunk should be in chippers"),
    }
    assert_eq!(level.trunk_meets_chipper(t, 4, false), TrunkOutcome::Skipped);
    assert_eq!(level.trunk_meets_chipper(t, 2, false), TrunkOutcome::Left);
    assert_eq!(level.trunks.len(), 1);
    // leaving the last chipper despawns the trunk in the same event
    assert_eq!(level.trunk_meets_chipper(3, t, false), TrunkOutcome::Despawned(t));
    assert!(level.trunks.is_empty());
    assert_eq!(level.spawn_trunk(), Some(t + 1));
}

#[test]
fn events_on_unknown_entities_are_skipped() {
    let mut level = loaded();
    let t = level.spawn_trunk().unwrap();
    assert_eq!(level.trunk_meets_chipper(t, 999, true), TrunkOutcome::Skipped);
    assert_eq!(level.trunk_meets_chipper(1, 2, true), TrunkOutcome::Skipped);
    assert_eq!(level.chip_meets_chipper(t, 1, ONE), ChipOutcome::Skipped);
    assert!(matches!(level.trunks[0].value.state, Trunk::Free));
}

#[test]
fn feed_halts_while_jammed() {
    let mut level = loaded();
    let t = level.spawn_trunk().unwrap();
    assert_eq!(level.trunk_feed_velocity(t), None);
    level.trunk_meets_chipper(t, 0, true);
    level.trunk_meets_chipper(t, 1, true);
    assert_eq!(level.trunk_feed_velocity(t), Some(Vec2 { x: 0, y: -ONE }));
    level.chippers[1].value.state = Chipper::Jammed;
    assert_eq!(level.trunk_feed_velocity(t), Some(Vec2 { x: 0, y: 0 }));
    assert_eq!(level.trunk_feed_velocity(12345), None);
}

#[test]
fn lost_trunks_are_despawned() {
    let mut level = loaded();
    let t = level.spawn_trunk().unwrap();
    assert!(!level.drop_lost_trunk(t, -8 * ONE));
    assert!(level.drop_lost_trunk(t, -8 * ONE - 1));
    assert!(level.trunks.is_empty());
    let t = level.spawn_trunk().unwrap();
    level.trunk_meets_chipper(t, 0, true);
    assert!(!level.drop_lost_trunk(t, -100 * ONE));
}

fn level_with_free_chip() -> (Level, u64) {
    let mut level = loaded();
    let t = level.spawn_trunk().unwrap();
    level.trunk_meets_chipper(t, 3, true);
    // the first tick fires the armed zero countdown without a chip
    assert_eq!(level.tick_woodchip_spawner_with(t, 16, flat_pose(), draws()), SpawnTick::Rescheduled);
    // 1 + 5 * 0.5 seconds later the next one fires with a chip
    assert_eq!(level.tick_woodchip_spawner_with(t, 1000, flat_pose(), draws()), SpawnTick::Idle);
    let tick = level.tick_woodchip_spawner_with(t, 2500, flat_pose(), draws());
    let chip = match tick {
        SpawnTick::Emitted { woodchip, .. } => woodchip,
        other => panic!("expected a woodchip, got {:?}", other),
    };
    assert_eq!(level.woodchips.len(), 1);
    assert_eq!(level.woodchips[0].value, Woodchip::Free);
    (level, chip)
}

#[test]
fn oblique_chip_is_despawned_and_chipper_stays_free() {
    let (mut level, chip) = level_with_free_chip();
    assert_eq!(level.chip_meets_chipper(chip, 5, 4_999), ChipOutcome::Despawned(chip));
    assert!(level.woodchips.is_empty());
    assert_eq!(chipper_state(&level, 5), Chipper::Free);
}

#[test]
fn upright_chip_sticks_and_jams() {
    let (mut level, chip) = level_with_free_chip();
    assert_eq!(
        level.chip_meets_chipper(5, chip, -5_000),
        ChipOutcome::Stuck { woodchip: chip, chipper: 5 }
    );
    assert_eq!(level.woodchips[0].value, Woodchip::StuckInChipper(5));
    assert_eq!(chipper_state(&level, 5), Chipper::Jammed);
    // a jammed chipper takes no second chip
    assert_eq!(level.chip_meets_chipper(chip, 4, ONE), ChipOutcome::Skipped);
}

#[test]
fn no_chips_while_all_chippers_jammed() {
    let mut level = loaded();
    let t = level.spawn_trunk().unwrap();
    level.trunk_meets_chipper(t, 3, true);
    level.tick_woodchip_spawner_with(t, 16, flat_pose(), draws());
    level.chippers[3].value.state = Chipper::Jammed;
    assert_eq!(level.tick_woodchip_spawner_with(t, 6000, flat_pose(), draws()), SpawnTick::Rescheduled);
    assert!(level.woodchips.is_empty());
}

#[test]
fn random_spawner_emits_within_ranges() {
    let mut level = loaded();
    let t = level.spawn_trunk().unwrap();
    level.trunk_meets_chipper(t, 3, true);
    assert_eq!(level.tick_woodchip_spawner(t, 16, flat_pose()), SpawnTick::Rescheduled);
    let wait = level.trunks[0].value.spawner.unwrap().duration_ms;
    assert!((1000..6000).contains(&wait));
    match level.tick_woodchip_spawner(t, 1000, flat_pose()) {
        SpawnTick::Emitted { launch, .. } => {
            assert!(launch.velocity.y >= 5 * ONE && launch.velocity.y < 12 * ONE);
            assert!(launch.spin >= -5 * ONE && launch.spin < 5 * ONE);
        }
        _ => {}
    }
    let tick = level.tick_woodchip_spawner(t, 6000, flat_pose());
    assert!(matches!(tick, SpawnTick::Emitted { .. }));
}

#[test]
fn launch_from_the_higher_end() {
    // a trunk tilted so that its right end is higher
    let pose = Pose { x: 10_000, y: 20_000, cos: 8_000, sin: 6_000 };
    let launch = woodchip_launch(pose, LaunchDraws { vertical: 0, horizontal: 9_999, spin: 0, interval: 0 });
    // end (1.8, 2.6), slid along (-0.6, 0.8) down to height 0.5: x = 1.8 + 0.6 * 2.1 / 0.8
    assert_eq!(
        launch,
        Some(Launch {
            position: Vec2 { x: 18_000 + 15_750, y: 5_000 },
            cos: 8_000,
            sin: 6_000,
            velocity: Vec2 { x: 49_998 * 8_000 / ONE, y: 5 * ONE },
            spin: -5 * ONE,
        })
    );
    let level_pose = Pose { x: 0, y: 0, cos: 0, sin: ONE };
    assert_eq!(woodchip_launch(level_pose, draws()), None);
}

#[test]
fn player_bounce_frees_the_chipper() {
    let (mut level, chip) = level_with_free_chip();
    level.chip_meets_chipper(chip, 5, ONE);
    let player = 1_000;
    let mut control = new_player_control();
    let out = level.player_meets_woodchip(player, chip, player, &mut control, -2 * ONE, PLAYER_INV_MASS);
    assert_eq!(out, RescueOutcome::Rescued { impulse: Some(360 * ONE), unjammed: Some(5) });
    assert_eq!(control.jump_potential, ONE);
    assert_eq!(chipper_state(&level, 5), Chipper::Free);
    assert!(level.woodchips.is_empty());
}

#[test]
fn free_chip_gives_no_bounce() {
    let (mut level, chip) = level_with_free_chip();
    let mut control = new_player_control();
    let out = level.player_meets_woodchip(chip, 77, 77, &mut control, -2 * ONE, PLAYER_INV_MASS);
    assert_eq!(out, RescueOutcome::Skipped);
    assert_eq!(control.jump_potential, 0);
    assert_eq!(level.woodchips.len(), 1);
}

#[test]
fn touching_a_chipper_kills_once() {
    let level = loaded();
    let mut alive = true;
    assert!(!level.player_meets_chipper(50, 2, false, 50, &mut alive));
    assert!(level.player_meets_chipper(2, 50, true, 50, &mut alive));
    assert!(!alive);
    assert!(!level.player_meets_chipper(2, 50, true, 50, &mut alive));
}

#[test]
fn chipper_effects_follow_state() {
    let mut level = loaded();
    let t = level.spawn_trunk().unwrap();
    level.trunk_meets_chipper(t, 1, true);
    level.chippers[4].value.state = Chipper::Jammed;
    let changes = level.update_chipper_effects();
    assert_eq!(changes, vec![(1, ChipperEffect::ChippingWood), (4, ChipperEffect::Smoking)]);
    assert!(level.update_chipper_effects().is_empty());
    level.trunk_meets_chipper(t, 1, false);
    assert_eq!(level.update_chipper_effects(), vec![(1, ChipperEffect::NoEffect)]);
}

#[test]
fn bounce_without_its_chipper_keeps_the_chip() {
    let (mut level, chip) = level_with_free_chip();
    level.chip_meets_chipper(chip, 5, ONE);
    level.chippers.retain(|c| c.id != 5);
    let mut control = new_player_control();
    let out = level.player_meets_woodchip(chip, 90, 90, &mut control, ONE, PLAYER_INV_MASS);
    assert_eq!(out, RescueOutcome::Rescued { impulse: None, unjammed: None });
    assert_eq!(level.woodchips.len(), 1);
}

#[test]
fn loading_needs_fresh_ids() {
    let mut level = Level::new();
    level.next_id = u64::MAX - 6;
    assert!(!level.load());
    assert!(level.chippers.is_empty());
    level.next_id = u64::MAX - 7;
    assert!(level.load());
    assert_eq!(level.next_id, u64::MAX);
    assert_eq!(level.allocate_id(), None);
    assert_eq!(level.spawn_trunk(), None);
}
