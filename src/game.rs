//! The game as a whole: the sequencer driving the level's lifecycle, and the
//! player spawned with each level.
use vstd::prelude::*;

use crate::fixed::{Vec2, ONE};
use crate::level::{fresh_chippers, Level, CHIPPER_COUNT};
use crate::player::PlayerControl;
use crate::state::{
    chained_next, chained_next_state, toggle_update, menu_response, menu_response_spec, pause_unpause_game,
    player_fell, AppState, MenuAction, MenuResponse, MenuState, MoveToStateIn, PauseAction,
    PhysicsToggle, DEATH_HEIGHT,
};

verus! {

/// The player's inverse mass, at scale `ONE` (a mass of 80).
pub const PLAYER_INV_MASS: i64 = 125;

/// The player of a level.
#[derive(Clone, Copy, Debug)]
pub struct Player {
    pub id: u64,
    pub control: PlayerControl,
    pub alive: bool,
}

/// The player's tuning and initial locomotion state.
pub open spec fn initial_control() -> PlayerControl {
    PlayerControl {
        max_speed: 200000,
        impulse_coefficient: 40000,
        jump_power_coefficient: 800,
        jump_from_woodchip_power_coefficient: 200,
        jump_time_coefficient: 75000,
        jump_potential: 0,
        last_stood_on: Vec2 { x: 0, y: ONE },
        stood_on_potential: 0,
        stood_on_time_coefficient: 100000,
        uphill_move_efficiency: 2,
        uphill_stop_efficiency: 4,
    }
}

/// Builds `initial_control`.
pub fn new_player_control() -> (r: PlayerControl)
    ensures
        r == initial_control(),
        r.wf(),
{
    PlayerControl {
        max_speed: 20 * ONE,
        impulse_coefficient: 40000,
        jump_power_coefficient: 800,
        jump_from_woodchip_power_coefficient: 200,
        jump_time_coefficient: 75000,
        jump_potential: 0,
        last_stood_on: Vec2 { x: 0, y: ONE },
        stood_on_potential: 0,
        stood_on_time_coefficient: 10 * ONE,
        uphill_move_efficiency: 2,
        uphill_stop_efficiency: 4,
    }
}

/// The game: its state, the scheduled switch, the physics switch, the level
/// and its player.
#[derive(Debug)]
pub struct Game {
    pub state: AppState,
    pub pending: MoveToStateIn,
    pub physics: PhysicsToggle,
    pub level: Level,
    pub player: Option<Player>,
}

/// What one frame of the game did.
#[derive(Clone, Copy, Debug, PartialEq, Eq, Structural)]
pub struct FrameReport {
    /// The state entered this frame, if any.
    pub entered: Option<AppState>,
    /// The trunk spawned this frame, if any.
    pub spawned_trunk: Option<u64>,
    /// Whether the physics switch was set this frame.
    pub physics_set: bool,
}

/// What entering state `s` does to the game: entering one of the chained
/// states schedules the next for the following frame; clearing the level
/// despawns everything in it; loading sets up the chippers and a new player;
/// other states change nothing but the state.
pub open spec fn enter_spec(before: Game, after: Game, s: AppState) -> bool {
    &&& after.state == s
    &&& after.physics == before.physics
    &&& match chained_next(s) {
        Some(n) => after.pending == (MoveToStateIn { in_frames: 1, target_state: Some(n) }),
        None => after.pending == before.pending,
    }
    &&& s == AppState::ClearLevelAndThenLoad ==> {
        &&& after.level.chippers@.len() == 0
        &&& after.level.trunks@.len() == 0
        &&& after.level.woodchips@.len() == 0
        &&& after.level.next_id == before.level.next_id
        &&& after.player is None
    }
    &&& s == AppState::LoadLevel ==> {
        &&& after.level.trunks@.len() == 0
        &&& after.level.woodchips@.len() == 0
        &&& before.level.next_id < u64::MAX - CHIPPER_COUNT ==> {
            &&& fresh_chippers(after.level.chippers@, before.level.next_id)
            &&& after.level.next_id == before.level.next_id + CHIPPER_COUNT + 1
            &&& after.player == Some(
                Player {
                    id: (before.level.next_id + CHIPPER_COUNT) as u64,
                    control: initial_control(),
                    alive: true,
                },
            )
        }
    }
    &&& s != AppState::ClearLevelAndThenLoad && s != AppState::LoadLevel ==> {
        &&& after.level == before.level
        &&& after.player == before.player
    }
}

/// A scheduled switch after one frame of counting down.
pub open spec fn counted_down(p: MoveToStateIn) -> MoveToStateIn {
    if p.in_frames == 0 {
        p
    } else if p.in_frames == 1 {
        MoveToStateIn { in_frames: 0, target_state: None }
    } else {
        MoveToStateIn { in_frames: (p.in_frames - 1) as u64, ..p }
    }
}

/// The rest of a frame once any due switch was entered (`mid`): during play a
/// trunk spawns when none is left, and the physics switch follows the state.
pub open spec fn frame_rest(mid: Game, after: Game, r: FrameReport) -> bool {
    &&& after.state == mid.state
    &&& after.pending == mid.pending
    &&& after.player == mid.player
    &&& after.level.chippers@ == mid.level.chippers@
    &&& after.level.woodchips@ == mid.level.woodchips@
    &&& if mid.state == AppState::Game && mid.level.trunks@.len() == 0 && mid.level.next_id
        < u64::MAX {
        &&& r.spawned_trunk == Some(mid.level.next_id)
        &&& after.level.trunks@.len() == 1
        &&& after.level.trunks@[0].id == mid.level.next_id
        &&& after.level.trunks@[0].value.state is Free
        &&& after.level.next_id == mid.level.next_id + 1
    } else {
        &&& r.spawned_trunk is None
        &&& after.level.trunks@ == mid.level.trunks@
        &&& after.level.next_id == mid.level.next_id
    }
    &&& (after.physics, r.physics_set) == toggle_update(mid.physics, mid.state)
}

impl Game {
    pub open spec fn wf(&self) -> bool {
        &&& self.level.wf()
        &&& self.player matches Some(p) ==> p.control.wf()
    }

    /// A game at the main menu, with an empty level.
    pub fn new() -> (r: Game)
        ensures
            r.wf(),
            r.state == AppState::Menu(MenuState::Main),
            r.pending == (MoveToStateIn { in_frames: 0, target_state: None }),
            r.level.trunks@.len() == 0,
            r.level.woodchips@.len() == 0,
            r.level.chippers@.len() == 0,
            r.level.next_id == 0,
            r.physics == (PhysicsToggle {
                last_seen: None,
                physics_pipeline_active: true,
                query_pipeline_active: true,
            }),
            r.player is None,
    {
        Game {
            state: AppState::Menu(MenuState::Main),
            pending: MoveToStateIn::idle(),
            physics: PhysicsToggle::new(),
            level: Level::new(),
            player: None,
        }
    }

    /// Enters state `s` and runs what entering it does: entering one of the
    /// chained states schedules the next for the following frame; clearing
    /// the level despawns everything in it; loading sets up the chippers and
    /// a new player.
    pub fn enter(&mut self, s: AppState)
        requires
            old(self).wf(),
        ensures
            final(self).wf(),
            enter_spec(*old(self), *final(self), s),
    {
        self.state = s;
        match s {
            AppState::ClearLevelAndThenLoad => {
                self.level.clear();
                self.player = None;
            },
            AppState::LoadLevel => {
                self.player = None;
                if self.level.load() {
                    match self.level.allocate_id() {
                        Some(id) => {
                            self.player = Some(
                                Player { id, control: new_player_control(), alive: true },
                            );
                        },
                        None => {},
                    }
                }
            },
            _ => {},
        }
        match chained_next_state(s) {
            Some(n) => {
                self.pending = MoveToStateIn::next_frame(n);
            },
            None => {},
        }
    }

    /// Presses menu button `action` in the current state.
    pub fn menu_action(&mut self, action: MenuAction) -> (r: MenuResponse)
        requires
            old(self).wf(),
        ensures
            final(self).wf(),
            r == menu_response_spec(old(self).state, action),
            r matches MenuResponse::Switch(s) ==> enter_spec(*old(self), *final(self), s),
            !(r is Switch) ==> *final(self) == *old(self),
    {
        let r = menu_response(self.state, action);
        match r {
            MenuResponse::Switch(s) => self.enter(s),
            _ => {},
        }
        r
    }

    /// Handles a press of the pause key.
    pub fn pause_key(&mut self) -> (r: PauseAction)
        requires
            old(self).wf(),
        ensures
            final(self).wf(),
            r matches PauseAction::Switch(s) ==> enter_spec(*old(self), *final(self), s),
            r is Nothing ==> *final(self) == *old(self),
            old(self).state == AppState::Game ==> final(self).state == AppState::Menu(
                MenuState::Pause,
            ),
            old(self).state == AppState::Menu(MenuState::Pause) ==> final(self).state
                == AppState::Game,
    {
        let r = pause_unpause_game(self.state, true);
        match r {
            PauseAction::Switch(s) => self.enter(s),
            PauseAction::Nothing => {},
        }
        r
    }

    /// Ends the game when the player, at height `y`, fell out of the level
    /// during play; returns whether it did.
    pub fn check_fall(&mut self, y: i64) -> (r: bool)
        requires
            old(self).wf(),
        ensures
            final(self).wf(),
            r == (old(self).state == AppState::Game && y < DEATH_HEIGHT),
            r ==> enter_spec(*old(self), *final(self), AppState::Menu(MenuState::GameOver)),
            !r ==> *final(self) == *old(self),
    {
        if self.state == AppState::Game && player_fell(y) {
            self.enter(AppState::Menu(MenuState::GameOver));
            true
        } else {
            false
        }
    }

    /// Runs the sequencer's part of a frame: the scheduled switch counts down
    /// (and happens when due), a trunk is spawned during play when none is
    /// left, and the physics switch follows the state.
    pub fn frame(&mut self) -> (r: FrameReport)
        requires
            old(self).wf(),
        ensures
            final(self).wf(),
            old(self).pending.in_frames == 1 && old(self).pending.target_state is Some ==> {
                let s = old(self).pending.target_state->Some_0;
                &&& r.entered == Some(s)
                &&& exists|mid: Game|
                    enter_spec(
                        Game { pending: counted_down(old(self).pending), ..*old(self) },
                        mid,
                        s,
                    ) && #[trigger] frame_rest(mid, *final(self), r)
            },
            !(old(self).pending.in_frames == 1 && old(self).pending.target_state is Some) ==> {
                &&& r.entered is None
                &&& frame_rest(
                    Game { pending: counted_down(old(self).pending), ..*old(self) },
                    *final(self),
                    r,
                )
            },
    {
        let due = self.pending.apply();
        let entered = match due {
            Some(s) => {
                self.enter(s);
                Some(s)
            },
            None => None,
        };
        let ghost mid = *self;
        let spawned_trunk = if self.state == AppState::Game {
            self.level.spawn_trunk()
        } else {
            None
        };
        let physics_set = self.physics.update(self.state);
        let r = FrameReport { entered, spawned_trunk, physics_set };
        assert(frame_rest(mid, *self, r));
        r
    }
}

} // verus!
