use jamming_chipper::fixed::ONE;
use jamming_chipper::game::Game;
use jamming_chipper::state::{
    enable_disable_physics, menu_response, pause_unpause_game, player_fell, run_on_state_change,
    AppState, MenuAction, MenuResponse, MenuState, MoveToStateIn, PauseAction, PhysicsToggle,
};

#[test]
fn start_reaches_play_after_three_frames() {
    let mut game = Game::new();
    assert_eq!(game.state, AppState::Menu(MenuState::Main));
    assert_eq!(
        game.menu_action(MenuAction::Start),
        MenuResponse::Switch(AppState::ClearParticleEffects)
    );
    assert_eq!(game.state, AppState::ClearParticleEffects);
    let r1 = game.frame();
    assert_eq!(r1.entered, Some(AppState::ClearLevelAndThenLoad));
    assert_eq!(game.state, AppState::ClearLevelAndThenLoad);
    let r2 = game.frame();
    assert_eq!(r2.entered, Some(AppState::LoadLevel));
    assert_eq!(game.level.chippers.len(), 7);
    assert!(game.player.is_some());
    let r3 = game.frame();
    assert_eq!(r3.entered, Some(AppState::Game));
    assert_eq!(game.state, AppState::Game);
    assert_eq!(game.level.trunks.len(), 1);
    assert!(game.level.woodchips.is_empty());
    assert!(r3.spawned_trunk.is_some());
    assert!(game.physics.physics_pipeline_active);
    let r4 = game.frame();
    assert_eq!(r4.entered, None);
    assert_eq!(r4.spawned_trunk, None);
    assert!(!r4.physics_set);
}

#[test]
fn loaded_player_has_initial_tuning() {
    let mut game = Game::new();
    game.menu_action(MenuAction::Start);
    game.frame();
    game.frame();
    let player = game.player.unwrap();
    assert!(player.alive);
    let c = player.control;
    assert_eq!(c.max_speed, 20 * ONE);
    assert_eq!(c.impulse_coefficient, 40_000);
    assert_eq!(c.jump_power_coefficient, 800);
    assert_eq!(c.jump_from_woodchip_power_coefficient, 200);
    assert_eq!(c.jump_time_coefficient, 75_000);
    assert_eq!(c.jump_potential, 0);
    assert_eq!(c.stood_on_potential, 0);
    assert_eq!(c.last_stood_on.y, ONE);
}

#[test]
fn physics_toggle_is_debounced() {
    let mut toggle = PhysicsToggle::new();
    assert!(toggle.update(AppState::Game));
    assert!(toggle.physics_pipeline_active && toggle.query_pipeline_active);
    let after_first = toggle;
    assert!(!toggle.update(AppState::Game));
    assert_eq!(toggle, after_first);
    assert!(toggle.update(AppState::Menu(MenuState::Pause)));
    assert!(!toggle.physics_pipeline_active && !toggle.query_pipeline_active);
}

#[test]
fn state_change_gate() {
    let mut prev = None;
    assert!(run_on_state_change(&mut prev, AppState::LoadLevel));
    assert!(!run_on_state_change(&mut prev, AppState::LoadLevel));
    assert!(run_on_state_change(&mut prev, AppState::Game));
    assert_eq!(prev, Some(AppState::Game));
}

#[test]
fn physics_runs_only_in_play() {
    assert!(enable_disable_physics(AppState::Game));
    assert!(!enable_disable_physics(AppState::LoadLevel));
    assert!(!enable_disable_physics(AppState::Menu(MenuState::Main)));
    assert!(!enable_disable_physics(AppState::ClearParticleEffects));
}

#[test]
fn scheduled_switch_counts_down() {
    let mut m = MoveToStateIn { in_frames: 2, target_state: Some(AppState::Game) };
    assert_eq!(m.apply(), None);
    assert_eq!(m.apply(), Some(AppState::Game));
    assert_eq!(m, MoveToStateIn { in_frames: 0, target_state: None });
    assert_eq!(m.apply(), None);
}

#[test]
fn pause_key() {
    assert_eq!(
        pause_unpause_game(AppState::Game, true),
        PauseAction::Switch(AppState::Menu(MenuState::Pause))
    );
    assert_eq!(
        pause_unpause_game(AppState::Menu(MenuState::Pause), true),
        PauseAction::Switch(AppState::Game)
    );
    assert_eq!(pause_unpause_game(AppState::Game, false), PauseAction::Nothing);
    assert_eq!(pause_unpause_game(AppState::LoadLevel, true), PauseAction::Nothing);
}

#[test]
fn menu_buttons() {
    let main = AppState::Menu(MenuState::Main);
    let pause = AppState::Menu(MenuState::Pause);
    let over = AppState::Menu(MenuState::GameOver);
    assert_eq!(menu_response(main, MenuAction::Start), MenuResponse::Switch(AppState::ClearParticleEffects));
    assert_eq!(menu_response(main, MenuAction::Exit), MenuResponse::Exit);
    assert_eq!(menu_response(pause, MenuAction::Resume), MenuResponse::Switch(AppState::Game));
    assert_eq!(menu_response(pause, MenuAction::MainMenu), MenuResponse::Switch(main));
    assert_eq!(menu_response(over, MenuAction::Start), MenuResponse::Switch(AppState::ClearParticleEffects));
    assert_eq!(menu_response(AppState::Game, MenuAction::Start), MenuResponse::Stay);
}

#[test]
fn falling_ends_the_game() {
    assert!(player_fell(-40_001));
    assert!(!player_fell(-40_000));
    let mut game = Game::new();
    game.menu_action(MenuAction::Start);
    game.frame();
    game.frame();
    game.frame();
    assert!(!game.check_fall(0));
    assert!(game.check_fall(-50_000));
    assert_eq!(game.state, AppState::Menu(MenuState::GameOver));
    let r = game.frame();
    assert!(r.physics_set);
    assert!(!game.physics.physics_pipeline_active);
}

#[test]
fn restart_reloads_a_fresh_level() {
    let mut game = Game::new();
    game.menu_action(MenuAction::Start);
    game.frame();
    game.frame();
    game.frame();
    let first_trunk = game.level.trunks[0].id;
    game.pause_key();
    assert_eq!(game.state, AppState::Menu(MenuState::Pause));
    game.menu_action(MenuAction::MainMenu);
    game.menu_action(MenuAction::Start);
    game.frame();
    assert!(game.level.trunks.is_empty());
    game.frame();
    game.frame();
    assert_eq!(game.level.trunks.len(), 1);
    assert!(game.level.trunks[0].id > first_trunk);
}
