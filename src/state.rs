//! The game-state sequencer: menus, the chained clear / load transitions,
//! the pause key and the physics switch that follows the state.
use vstd::prelude::*;

verus! {

/// Height below which a falling player has lost.
pub const DEATH_HEIGHT: i64 = -40000;

/// Which menu is shown.
#[derive(Clone, Copy, Debug, PartialEq, Eq, Structural, Hash)]
pub enum MenuState {
    Main,
    Pause,
    GameOver,
}

/// The state of the whole game.
#[derive(Clone, Copy, Debug, PartialEq, Eq, Structural, Hash)]
pub enum AppState {
    Menu(MenuState),
    ClearParticleEffects,
    ClearLevelAndThenLoad,
    LoadLevel,
    Game,
}

/// The state that entering `s` schedules for the next frame: clearing effects
/// leads to clearing the level, which leads to loading it, which leads to play.
pub open spec fn chained_next(s: AppState) -> Option<AppState> {
    match s {
        AppState::ClearParticleEffects => Some(AppState::ClearLevelAndThenLoad),
        AppState::ClearLevelAndThenLoad => Some(AppState::LoadLevel),
        AppState::LoadLevel => Some(AppState::Game),
        _ => None,
    }
}

/// Computes `chained_next`.
pub fn chained_next_state(s: AppState) -> (r: Option<AppState>)
    ensures
        r == chained_next(s),
{
    match s {
        AppState::ClearParticleEffects => Some(AppState::ClearLevelAndThenLoad),
        AppState::ClearLevelAndThenLoad => Some(AppState::LoadLevel),
        AppState::LoadLevel => Some(AppState::Game),
        _ => None,
    }
}

/// A state switch scheduled a number of frames ahead.
#[derive(Clone, Copy, Debug, PartialEq, Eq, Structural)]
pub struct MoveToStateIn {
    pub in_frames: u64,
    pub target_state: Option<AppState>,
}

impl MoveToStateIn {
    /// Nothing scheduled.
    pub fn idle() -> (r: MoveToStateIn)
        ensures
            r == (MoveToStateIn { in_frames: 0, target_state: None }),
    {
        MoveToStateIn { in_frames: 0, target_state: None }
    }

    /// Schedules `target` for the next frame.
    pub fn next_frame(target: AppState) -> (r: MoveToStateIn)
        ensures
            r == (MoveToStateIn { in_frames: 1, target_state: Some(target) }),
    {
        MoveToStateIn { in_frames: 1, target_state: Some(target) }
    }

    /// Counts down one frame; returns the state to switch to when the count
    /// reaches zero, and forgets it.
    pub fn apply(&mut self) -> (r: Option<AppState>)
        ensures
            old(self).in_frames == 0 ==> r is None && *final(self) == *old(self),
            old(self).in_frames == 1 ==> r == old(self).target_state && *final(self) == (
            MoveToStateIn { in_frames: 0, target_state: None }),
            old(self).in_frames > 1 ==> r is None && *final(self) == (MoveToStateIn {
                in_frames: (old(self).in_frames - 1) as u64,
                ..*old(self)
            }),
    {
        if self.in_frames == 0 {
            return None;
        }
        self.in_frames = self.in_frames - 1;
        if self.in_frames == 0 {
            let t = self.target_state;
            self.target_state = None;
            t
        } else {
            None
        }
    }
}

/// Whether the physics pipelines run in state `s`: only during play.
pub open spec fn physics_active_in(s: AppState) -> bool {
    s == AppState::Game
}

/// Whether the physics pipelines should run in state `s`.
pub fn enable_disable_physics(s: AppState) -> (r: bool)
    ensures
        r == physics_active_in(s),
{
    match s {
        AppState::Game => true,
        AppState::Menu(_) | AppState::ClearParticleEffects | AppState::ClearLevelAndThenLoad
        | AppState::LoadLevel => false,
    }
}

/// Whether a system gated on state changes runs this frame: only when the
/// state differs from the one it last saw, which it then remembers.
pub fn run_on_state_change(prev_state: &mut Option<AppState>, state: AppState) -> (r: bool)
    ensures
        r == (*old(prev_state) != Some(state)),
        *final(prev_state) == Some(state),
{
    let changed = match *prev_state {
        Some(p) => p != state,
        None => true,
    };
    *prev_state = Some(state);
    changed
}

/// The physics switch and the last state it saw.
#[derive(Clone, Copy, Debug, PartialEq, Eq, Structural)]
pub struct PhysicsToggle {
    pub last_seen: Option<AppState>,
    pub physics_pipeline_active: bool,
    pub query_pipeline_active: bool,
}

/// The switch after seeing state `s`, and whether it was set again.
pub open spec fn toggle_update(t: PhysicsToggle, s: AppState) -> (PhysicsToggle, bool) {
    if t.last_seen == Some(s) {
        (t, false)
    } else {
        (
            PhysicsToggle {
                last_seen: Some(s),
                physics_pipeline_active: physics_active_in(s),
                query_pipeline_active: physics_active_in(s),
            },
            true,
        )
    }
}

impl PhysicsToggle {
    /// A switch that has seen no state yet, with physics running.
    pub fn new() -> (r: PhysicsToggle)
        ensures
            r == (PhysicsToggle {
                last_seen: None,
                physics_pipeline_active: true,
                query_pipeline_active: true,
            }),
    {
        PhysicsToggle { last_seen: None, physics_pipeline_active: true, query_pipeline_active: true }
    }

    /// Sets both pipelines after state `s` when the state changed; returns
    /// whether it did.
    pub fn update(&mut self, s: AppState) -> (r: bool)
        ensures
            (*final(self), r) == toggle_update(*old(self), s),
    {
        if run_on_state_change(&mut self.last_seen, s) {
            let set_to = enable_disable_physics(s);
            self.physics_pipeline_active = set_to;
            self.query_pipeline_active = set_to;
            true
        } else {
            false
        }
    }
}

/// Running the physics switch twice on one state sets it at most once: the
/// second run changes nothing.
pub proof fn lemma_physics_toggle_debounced(t: PhysicsToggle, s: AppState)
    ensures
        toggle_update(toggle_update(t, s).0, s) == (toggle_update(t, s).0, false),
{
}

/// What the pause key does.
#[derive(Clone, Copy, Debug, PartialEq, Eq, Structural)]
pub enum PauseAction {
    Nothing,
    Switch(AppState),
}

/// The pause key pauses play and resumes from the pause menu; elsewhere it
/// does nothing.
pub fn pause_unpause_game(state: AppState, pause_just_pressed: bool) -> (r: PauseAction)
    ensures
        r == if pause_just_pressed && state == AppState::Game {
            PauseAction::Switch(AppState::Menu(MenuState::Pause))
        } else if pause_just_pressed && state == AppState::Menu(MenuState::Pause) {
            PauseAction::Switch(AppState::Game)
        } else {
            PauseAction::Nothing
        },
{
    if !pause_just_pressed {
        return PauseAction::Nothing;
    }
    match state {
        AppState::Game => PauseAction::Switch(AppState::Menu(MenuState::Pause)),
        AppState::Menu(MenuState::Pause) => PauseAction::Switch(AppState::Game),
        _ => PauseAction::Nothing,
    }
}

/// A button of a menu.
#[derive(Clone, Copy, Debug, PartialEq, Eq, Structural)]
pub enum MenuAction {
    Start,
    Resume,
    MainMenu,
    Exit,
}

/// What a menu button leads to.
#[derive(Clone, Copy, Debug, PartialEq, Eq, Structural)]
pub enum MenuResponse {
    Stay,
    Switch(AppState),
    Exit,
}

/// The response of the menu shown in `state` to `action`: Start (main menu,
/// game over) begins a level from a clean slate, Resume (pause menu) returns
/// to play, Main Menu (pause, game over) goes to the main menu, Exit quits; a
/// button the menu lacks, or any button outside the menus, does nothing.
pub open spec fn menu_response_spec(state: AppState, action: MenuAction) -> MenuResponse {
    match state {
        AppState::Menu(m) => match action {
            MenuAction::Exit => MenuResponse::Exit,
            MenuAction::Start => if m == MenuState::Pause {
                MenuResponse::Stay
            } else {
                MenuResponse::Switch(AppState::ClearParticleEffects)
            },
            MenuAction::Resume => if m == MenuState::Pause {
                MenuResponse::Switch(AppState::Game)
            } else {
                MenuResponse::Stay
            },
            MenuAction::MainMenu => if m == MenuState::Main {
                MenuResponse::Stay
            } else {
                MenuResponse::Switch(AppState::Menu(MenuState::Main))
            },
        },
        _ => MenuResponse::Stay,
    }
}

/// Computes `menu_response_spec`.
pub fn menu_response(state: AppState, action: MenuAction) -> (r: MenuResponse)
    ensures
        r == menu_response_spec(state, action),
{
    match state {
        AppState::Menu(m) => match action {
            MenuAction::Exit => MenuResponse::Exit,
            MenuAction::Start => if m == MenuState::Pause {
                MenuResponse::Stay
            } else {
                MenuResponse::Switch(AppState::ClearParticleEffects)
            },
            MenuAction::Resume => if m == MenuState::Pause {
                MenuResponse::Switch(AppState::Game)
            } else {
                MenuResponse::Stay
            },
            MenuAction::MainMenu => if m == MenuState::Main {
                MenuResponse::Stay
            } else {
                MenuResponse::Switch(AppState::Menu(MenuState::Main))
            },
        },
        _ => MenuResponse::Stay,
    }
}

/// Whether a player at height `y` has fallen out of the level.
pub fn player_fell(y: i64) -> (r: bool)
    ensures
        r == (y < DEATH_HEIGHT),
{
    y < DEATH_HEIGHT
}

} // verus!
