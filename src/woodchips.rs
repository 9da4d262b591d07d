//! Woodchips: their launch from a trunk in a chipper, the countdown that
//! schedules them, a woodchip jamming a chipper, and the player bouncing off
//! a stuck one to free it.
use vstd::prelude::*;

use crate::fixed::{div_toward_zero, trunc_div, Vec2, ONE};
use crate::level::{
    find, holds_id, ids_ok, index_of, Chipper, ChipperUnit, Level, Record, SpawnsWoodchips, Trunk,
    TrunkUnit, Woodchip,
};
use crate::player::{rescue_impulse, PlayerControl, MAX_VELOCITY};
use crate::random::unit_draw;

verus! {

/// A chip is stuck only when the cosine of its rotation is at least this
/// large in magnitude.
pub const UPRIGHT_COSINE: i64 = 5000;

/// The outcome of a woodchip / chipper event.
#[derive(Clone, Copy, Debug, PartialEq, Eq, Structural)]
pub enum ChipOutcome {
    /// No free woodchip met a free chipper.
    Skipped,
    /// The woodchip came in too oblique and was despawned.
    Despawned(u64),
    /// The woodchip stuck in the chipper and jammed it.
    Stuck { woodchip: u64, chipper: u64 },
}

/// What a woodchip / chipper event between woodchip `w` and chipper `c` does,
/// the woodchip's rotation having cosine `cos` (at scale `ONE`).
pub open spec fn chip_event_spec(before: Level, after: Level, w: u64, c: u64, cos: int, r: ChipOutcome) -> bool {
    let wi = index_of(before.woodchips@, w);
    let ci = index_of(before.chippers@, c);
    &&& after.trunks@ == before.trunks@
    &&& after.next_id == before.next_id
    &&& if before.chippers@[ci].value.state != Chipper::Free || before.woodchips@[wi].value != Woodchip::Free {
        &&& r == ChipOutcome::Skipped
        &&& after.chippers@ == before.chippers@
        &&& after.woodchips@ == before.woodchips@
    } else if -UPRIGHT_COSINE < cos < UPRIGHT_COSINE {
        &&& r == ChipOutcome::Despawned(w)
        &&& after.chippers@ == before.chippers@
        &&& after.woodchips@ == before.woodchips@.remove(wi)
    } else {
        &&& r == ChipOutcome::Stuck { woodchip: w, chipper: c }
        &&& after.chippers@ == before.chippers@.update(
            ci,
            Record {
                id: c,
                value: ChipperUnit { state: Chipper::Jammed, ..before.chippers@[ci].value },
            },
        )
        &&& after.woodchips@ == before.woodchips@.update(
            wi,
            Record { id: w, value: Woodchip::StuckInChipper(c) },
        )
    }
}

/// The outcome of the player touching a woodchip.
#[derive(Clone, Copy, Debug, PartialEq, Eq, Structural)]
pub enum RescueOutcome {
    /// Not the player touching a stuck woodchip.
    Skipped,
    /// The player touched a stuck woodchip: `impulse` is the bounce, if the
    /// player was not rising; `unjammed` the chipper freed (and the woodchip
    /// despawned), unless that chipper is gone.
    Rescued { impulse: Option<i64>, unjammed: Option<u64> },
}

/// What the player touching stuck woodchip `w` does: the player bounces off
/// it (when not already rising), and its chipper is freed and the woodchip
/// despawned, unless that chipper is gone.
pub open spec fn rescue_spec(
    before: Level,
    after: Level,
    c_before: PlayerControl,
    c_after: PlayerControl,
    w: u64,
    vy: int,
    inv_mass: int,
    r: RescueOutcome,
) -> bool {
    let wi = index_of(before.woodchips@, w);
    &&& after.trunks@ == before.trunks@
    &&& after.next_id == before.next_id
    &&& match before.woodchips@[wi].value {
        Woodchip::Free => {
            &&& r == RescueOutcome::Skipped
            &&& after.chippers@ == before.chippers@
            &&& after.woodchips@ == before.woodchips@
            &&& c_after == c_before
        },
        Woodchip::StuckInChipper(c) => {
            let impulse = if vy <= ONE / 10 {
                Some(rescue_impulse(c_before.jump_from_woodchip_power_coefficient as int, vy, inv_mass) as i64)
            } else {
                None
            };
            &&& c_after == if vy <= ONE / 10 {
                PlayerControl { jump_potential: ONE, ..c_before }
            } else {
                c_before
            }
            &&& if holds_id(before.chippers@, c) {
                let ci = index_of(before.chippers@, c);
                &&& r == RescueOutcome::Rescued { impulse, unjammed: Some(c) }
                &&& after.chippers@ == before.chippers@.update(
                    ci,
                    Record {
                        id: c,
                        value: ChipperUnit { state: Chipper::Free, ..before.chippers@[ci].value },
                    },
                )
                &&& after.woodchips@ == before.woodchips@.remove(wi)
            } else {
                &&& r == RescueOutcome::Rescued { impulse, unjammed: None }
                &&& after.chippers@ == before.chippers@
                &&& after.woodchips@ == before.woodchips@
            }
        },
    }
}

impl Level {
    /// Handles a woodchip / chipper sensor event between `a` and `b` (in either
    /// order); `cos` is the cosine of the woodchip's rotation, at scale `ONE`.
    /// A free woodchip that meets a free chipper upright enough sticks in it
    /// and jams it; one too oblique is despawned.
    pub fn chip_meets_chipper(&mut self, a: u64, b: u64, cos: i64) -> (r: ChipOutcome)
        requires
            old(self).wf(),
        ensures
            final(self).wf(),
            if holds_id(old(self).woodchips@, a) && holds_id(old(self).chippers@, b) {
                chip_event_spec(*old(self), *final(self), a, b, cos as int, r)
            } else if holds_id(old(self).woodchips@, b) && holds_id(old(self).chippers@, a) {
                chip_event_spec(*old(self), *final(self), b, a, cos as int, r)
            } else {
                &&& r == ChipOutcome::Skipped
                &&& final(self).chippers@ == old(self).chippers@
                &&& final(self).woodchips@ == old(self).woodchips@
                &&& final(self).trunks@ == old(self).trunks@
                &&& final(self).next_id == old(self).next_id
            },
    {
        let (w, c, wi, ci) = match (find(&self.woodchips, a), find(&self.chippers, b)) {
            (Some(wi), Some(ci)) => (a, b, wi, ci),
            _ => match (find(&self.woodchips, b), find(&self.chippers, a)) {
                (Some(wi), Some(ci)) => (b, a, wi, ci),
                _ => {
                    return ChipOutcome::Skipped;
                },
            },
        };
        let chipper = self.chippers[ci].value;
        if chipper.state != Chipper::Free || self.woodchips[wi].value != Woodchip::Free {
            return ChipOutcome::Skipped;
        }
        if -UPRIGHT_COSINE < cos && cos < UPRIGHT_COSINE {
            self.woodchips.remove(wi);
            return ChipOutcome::Despawned(w);
        }
        self.woodchips.set(wi, Record { id: w, value: Woodchip::StuckInChipper(c) });
        self.chippers.set(
            ci,
            Record { id: c, value: ChipperUnit { state: Chipper::Jammed, effect: chipper.effect } },
        );
        ChipOutcome::Stuck { woodchip: w, chipper: c }
    }

    /// Handles the player (`player`) touching a woodchip, `a` and `b` being
    /// the two entities of the contact in either order. `velocity_y` is the
    /// player's vertical velocity and `inv_mass` its inverse mass.
    pub fn player_meets_woodchip(
        &mut self,
        a: u64,
        b: u64,
        player: u64,
        control: &mut PlayerControl,
        velocity_y: i64,
        inv_mass: i64,
    ) -> (r: RescueOutcome)
        requires
            old(self).wf(),
            old(control).wf(),
            -MAX_VELOCITY <= velocity_y <= MAX_VELOCITY,
            0 < inv_mass <= ONE,
        ensures
            final(self).wf(),
            final(control).wf(),
            if holds_id(old(self).woodchips@, a) && b == player {
                rescue_spec(*old(self), *final(self), *old(control), *final(control), a, velocity_y as int, inv_mass as int, r)
            } else if holds_id(old(self).woodchips@, b) && a == player {
                rescue_spec(*old(self), *final(self), *old(control), *final(control), b, velocity_y as int, inv_mass as int, r)
            } else {
                &&& r == RescueOutcome::Skipped
                &&& final(self).chippers@ == old(self).chippers@
                &&& final(self).woodchips@ == old(self).woodchips@
                &&& final(self).trunks@ == old(self).trunks@
                &&& final(self).next_id == old(self).next_id
                &&& *final(control) == *old(control)
            },
    {
        let first = find(&self.woodchips, a);
        let second = find(&self.woodchips, b);
        let (w, wi) = if first.is_some() && b == player {
            (a, first.unwrap())
        } else if second.is_some() && a == player {
            (b, second.unwrap())
        } else {
            return RescueOutcome::Skipped;
        };
        let c = match self.woodchips[wi].value {
            Woodchip::StuckInChipper(c) => c,
            Woodchip::Free => {
                return RescueOutcome::Skipped;
            },
        };
        let impulse = control.rescue_bounce(velocity_y, inv_mass);
        let ci = match find(&self.chippers, c) {
            Some(ci) => ci,
            None => {
                return RescueOutcome::Rescued { impulse, unjammed: None };
            },
        };
        let effect = self.chippers[ci].value.effect;
        self.chippers.set(ci, Record { id: c, value: ChipperUnit { state: Chipper::Free, effect } });
        self.woodchips.remove(wi);
        RescueOutcome::Rescued { impulse, unjammed: Some(c) }
    }
}

/// Largest magnitude of a position coordinate, at scale `ONE`.
pub const MAX_POSITION: i64 = 1000000000;

/// A body's position and rotation (as cosine and sine), at scale `ONE`.
#[derive(Clone, Copy, Debug, PartialEq, Eq, Structural)]
pub struct Pose {
    pub x: i64,
    pub y: i64,
    pub cos: i64,
    pub sin: i64,
}

impl Pose {
    pub open spec fn wf(&self) -> bool {
        &&& -MAX_POSITION <= self.x <= MAX_POSITION
        &&& -MAX_POSITION <= self.y <= MAX_POSITION
        &&& -ONE <= self.cos <= ONE
        &&& -ONE <= self.sin <= ONE
    }
}

/// Uniform fractions in `[0, ONE)` that randomise a woodchip launch and the
/// wait before the next one.
#[derive(Clone, Copy, Debug, PartialEq, Eq, Structural)]
pub struct LaunchDraws {
    pub vertical: u64,
    pub horizontal: u64,
    pub spin: u64,
    pub interval: u64,
}

impl LaunchDraws {
    pub open spec fn wf(&self) -> bool {
        self.vertical < ONE && self.horizontal < ONE && self.spin < ONE && self.interval < ONE
    }
}

/// Where and how a new woodchip leaves its trunk.
#[derive(Clone, Copy, Debug, PartialEq, Eq, Structural)]
pub struct Launch {
    pub position: Vec2,
    pub cos: i64,
    pub sin: i64,
    pub velocity: Vec2,
    pub spin: i64,
}

/// The launch of a woodchip from a trunk at pose `p`: from the trunk end that
/// stands higher, slid along the trunk's up direction to height 0.5, with the
/// trunk's rotation, a vertical speed in `[5, 12)`, a horizontal speed in
/// `[3, 5)` toward that end's side, and a spin in `[-5, 5)`. There is none
/// for a trunk whose up direction is level.
pub open spec fn launch_of(p: Pose, d: LaunchDraws) -> Option<Launch> {
    if p.cos == 0 {
        None
    } else {
        let high_end_right = p.y - p.sin < p.y + p.sin;
        let fx = if high_end_right { p.x + p.cos } else { p.x - p.cos };
        let fy = if high_end_right { p.y + p.sin } else { p.y - p.sin };
        let side = if high_end_right { p.cos as int } else { -p.cos };
        let h = ONE / 2 - fy;
        let shift = if p.cos > 0 {
            trunc_div(-p.sin * h, p.cos as int)
        } else {
            trunc_div(p.sin * h, -p.cos)
        };
        Some(Launch {
            position: Vec2 { x: (fx + shift) as i64, y: (ONE / 2) as i64 },
            cos: p.cos,
            sin: p.sin,
            velocity: Vec2 {
                x: trunc_div((3 * ONE + 2 * d.horizontal) * side, ONE as int) as i64,
                y: (5 * ONE + 7 * d.vertical) as i64,
            },
            spin: (10 * d.spin - 5 * ONE) as i64,
        })
    }
}

/// Computes the launch of a woodchip from a trunk at pose `p`.
pub fn woodchip_launch(p: Pose, d: LaunchDraws) -> (r: Option<Launch>)
    requires
        p.wf(),
        d.wf(),
    ensures
        r == launch_of(p, d),
{
    if p.cos == 0 {
        return None;
    }
    let high_end_right = p.y - p.sin < p.y + p.sin;
    let (fx, fy, side) = if high_end_right {
        (p.x + p.cos, p.y + p.sin, p.cos)
    } else {
        (p.x - p.cos, p.y - p.sin, -p.cos)
    };
    let h = ONE / 2 - fy;
    assert(-10000 * 1100000000 <= p.sin * h <= 10000 * 1100000000 && -10000 * 1100000000 <= (
    -p.sin) * h <= 10000 * 1100000000) by (nonlinear_arith)
        requires
            -10000 <= p.sin <= 10000,
            -1100000000 <= h <= 1100000000,
    ;
    let shift = if p.cos > 0 {
        div_toward_zero(-p.sin * h, p.cos)
    } else {
        div_toward_zero(p.sin * h, -p.cos)
    };
    assert(-10000 * 1100000000 <= shift <= 10000 * 1100000000) by (nonlinear_arith)
        requires
            shift == trunc_div(-p.sin * h, p.cos as int) || shift == trunc_div(p.sin * h, -p.cos),
            p.cos > 0 ==> shift == trunc_div(-p.sin * h, p.cos as int),
            p.cos < 0 ==> shift == trunc_div(p.sin * h, -p.cos),
            p.cos != 0,
            -10000 * 1100000000 <= p.sin * h <= 10000 * 1100000000,
            -10000 * 1100000000 <= (-p.sin) * h <= 10000 * 1100000000,
    ;
    let speed_x: i64 = 3 * ONE + 2 * (d.horizontal as i64);
    assert(-50000 * 10000 <= speed_x * side <= 50000 * 10000) by (nonlinear_arith)
        requires
            0 <= speed_x <= 50000,
            -10000 <= side <= 10000,
    ;
    Some(
        Launch {
            position: Vec2 { x: fx + shift, y: ONE / 2 },
            cos: p.cos,
            sin: p.sin,
            velocity: Vec2 {
                x: div_toward_zero(speed_x * side, ONE),
                y: 5 * ONE + 7 * (d.vertical as i64),
            },
            spin: 10 * (d.spin as i64) - 5 * ONE,
        },
    )
}

/// The wait before the next woodchip, in milliseconds: in `[1000, 6000)`.
pub open spec fn next_interval_ms(draw: u64) -> u64 {
    (1000 + 5000 * (draw as int) / (ONE as int)) as u64
}

/// The countdown `t` after `dt` more milliseconds, and whether it just
/// finished: a finished countdown stays put until it is reset.
pub open spec fn tick_countdown(t: SpawnsWoodchips, dt: u64) -> (SpawnsWoodchips, bool) {
    if t.finished {
        (t, false)
    } else if t.elapsed_ms + dt >= t.duration_ms {
        (SpawnsWoodchips { elapsed_ms: t.duration_ms, finished: true, ..t }, true)
    } else {
        (SpawnsWoodchips { elapsed_ms: (t.elapsed_ms + dt) as u64, ..t }, false)
    }
}

/// Some chipper of `s` exists and runs.
pub open spec fn runs_in_free_chipper(level: Level, s: Seq<u64>) -> bool {
    exists|k: int|
        0 <= k < s.len() && holds_id(level.chippers@, #[trigger] s[k]) && level.chippers@[index_of(
            level.chippers@,
            s[k],
        )].value.state == Chipper::Free
}

/// The outcome of a woodchip countdown tick.
#[derive(Clone, Copy, Debug, PartialEq, Eq, Structural)]
pub enum SpawnTick {
    /// No countdown finished.
    Idle,
    /// The countdown finished and was rearmed, with no woodchip.
    Rescheduled,
    /// The countdown finished and was rearmed, and a woodchip was spawned.
    Emitted { woodchip: u64, launch: Launch },
}

/// What ticking the woodchip countdown of trunk `trunk` does: once it
/// finishes, it is rearmed with a random wait; a woodchip is spawned if the
/// finished wait was not the initial zero one, the trunk runs in at least one
/// free chipper, the launch exists and an id is left.
pub open spec fn spawner_tick_spec(
    before: Level,
    after: Level,
    trunk: u64,
    dt: u64,
    p: Pose,
    d: LaunchDraws,
    r: SpawnTick,
) -> bool {
    let i = index_of(before.trunks@, trunk);
    let unit = before.trunks@[i].value;
    &&& after.chippers@ == before.chippers@
    &&& if !holds_id(before.trunks@, trunk) || unit.spawner is None {
        &&& r == SpawnTick::Idle
        &&& after.trunks@ == before.trunks@
        &&& after.woodchips@ == before.woodchips@
        &&& after.next_id == before.next_id
    } else {
        let t = unit.spawner->Some_0;
        let (t2, fired) = tick_countdown(t, dt);
        let rearmed = SpawnsWoodchips {
            duration_ms: next_interval_ms(d.interval),
            elapsed_ms: 0,
            finished: false,
        };
        &&& after.trunks@.len() == before.trunks@.len()
        &&& after.trunks@[i].id == trunk
        &&& after.trunks@[i].value.state == unit.state
        &&& forall|k: int| 0 <= k < before.trunks@.len() && k != i ==> after.trunks@[k] == before.trunks@[k]
        &&& if !fired {
            &&& r == SpawnTick::Idle
            &&& after.trunks@[i].value.spawner == Some(t2)
            &&& after.woodchips@ == before.woodchips@
            &&& after.next_id == before.next_id
        } else {
            &&& after.trunks@[i].value.spawner == Some(rearmed)
            &&& if t.duration_ms != 0 && runs_in_free_chipper(before, unit.state->InChipper_0@)
                && launch_of(p, d) is Some && before.next_id < u64::MAX {
                &&& r == SpawnTick::Emitted { woodchip: before.next_id, launch: launch_of(p, d)->Some_0 }
                &&& after.woodchips@ == before.woodchips@.push(Record { id: before.next_id, value: Woodchip::Free })
                &&& after.next_id == before.next_id + 1
            } else {
                &&& r == SpawnTick::Rescheduled
                &&& after.woodchips@ == before.woodchips@
                &&& after.next_id == before.next_id
            }
        }
    }
}

impl Level {
    /// Whether some chipper of `set` exists and runs.
    fn any_free_chipper(&self, set: &Vec<u64>) -> (r: bool)
        requires
            ids_ok(self.chippers@, self.next_id),
        ensures
            r == runs_in_free_chipper(*self, set@),
    {
        let mut k: usize = 0;
        while k < set.len()
            invariant
                k <= set@.len(),
                ids_ok(self.chippers@, self.next_id),
                forall|m: int|
                    0 <= m < k ==> !(holds_id(self.chippers@, #[trigger] set@[m])
                        && self.chippers@[index_of(self.chippers@, set@[m])].value.state
                        == Chipper::Free),
            decreases set.len() - k,
        {
            match find(&self.chippers, set[k]) {
                Some(ci) => {
                    if self.chippers[ci].value.state == Chipper::Free {
                        return true;
                    }
                },
                None => {},
            }
            k = k + 1;
        }
        false
    }

    /// Ticks the woodchip countdown of trunk `trunk` by `dt_ms` milliseconds,
    /// the trunk standing at `pose`, with the random fractions `draws`.
    pub fn tick_woodchip_spawner_with(
        &mut self,
        trunk: u64,
        dt_ms: u64,
        pose: Pose,
        draws: LaunchDraws,
    ) -> (r: SpawnTick)
        requires
            old(self).wf(),
            dt_ms <= 1000,
            pose.wf(),
            draws.wf(),
        ensures
            final(self).wf(),
            spawner_tick_spec(*old(self), *final(self), trunk, dt_ms, pose, draws, r),
    {
        let i = match find(&self.trunks, trunk) {
            Some(i) => i,
            None => {
                return SpawnTick::Idle;
            },
        };
        let ghost before = self.trunks@;
        let t = match self.trunks[i].value.spawner {
            Some(t) => t,
            None => {
                return SpawnTick::Idle;
            },
        };
        let rec = self.trunks.remove(i);
        if t.finished || t.elapsed_ms + dt_ms < t.duration_ms {
            let t2 = if t.finished {
                t
            } else {
                SpawnsWoodchips { elapsed_ms: t.elapsed_ms + dt_ms, ..t }
            };
            self.trunks.insert(i, Record { id: trunk, value: TrunkUnit { state: rec.value.state, spawner: Some(t2) } });
            proof {
                assert forall|k: int| 0 <= k < self.trunks@.len() && k != i implies self.trunks@[k] == before[k] by {}
                assert forall|k: int| 0 <= k < self.trunks@.len() implies #[trigger] self.trunks@[k].id < self.next_id by {
                    if k != i {
                        assert(self.trunks@[k] == before[k]);
                    }
                }
                assert forall|a: int, b: int| 0 <= a < self.trunks@.len() && 0 <= b < self.trunks@.len() && a != b implies #[trigger] self.trunks@[a].id != #[trigger] self.trunks@[b].id by {
                    assert(self.trunks@.len() == 1);
                }
            }
            return SpawnTick::Idle;
        }
        let duration: u64 = 1000 + 5000 * draws.interval / 10000;
        let rearmed = SpawnsWoodchips { duration_ms: duration, elapsed_ms: 0, finished: false };
        let emit = match &rec.value.state {
            Trunk::InChipper(set) => t.duration_ms != 0 && self.any_free_chipper(set),
            Trunk::Free => false,
        };
        self.trunks.insert(i, Record { id: trunk, value: TrunkUnit { state: rec.value.state, spawner: Some(rearmed) } });
        proof {
            assert forall|k: int| 0 <= k < self.trunks@.len() implies #[trigger] self.trunks@[k].id < self.next_id by {
                assert(self.trunks@.len() == 1);
            }
            assert forall|a: int, b: int| 0 <= a < self.trunks@.len() && 0 <= b < self.trunks@.len() && a != b implies #[trigger] self.trunks@[a].id != #[trigger] self.trunks@[b].id by {
                assert(self.trunks@.len() == 1);
            }
        }
        if !emit || self.next_id == u64::MAX {
            return SpawnTick::Rescheduled;
        }
        let launch = match woodchip_launch(pose, draws) {
            Some(l) => l,
            None => {
                return SpawnTick::Rescheduled;
            },
        };
        let id = self.next_id;
        self.woodchips.push(Record { id, value: Woodchip::Free });
        self.next_id = id + 1;
        proof {
            let w = self.woodchips@;
            assert forall|a: int, b: int| 0 <= a < w.len() && 0 <= b < w.len() && a != b implies #[trigger] w[a].id != #[trigger] w[b].id by {
                if a < w.len() - 1 && b < w.len() - 1 {
                    assert(w[a] == old(self).woodchips@[a] && w[b] == old(self).woodchips@[b]);
                } else if a < w.len() - 1 {
                    assert(w[a] == old(self).woodchips@[a]);
                } else if b < w.len() - 1 {
                    assert(w[b] == old(self).woodchips@[b]);
                }
            }
            assert forall|a: int| 0 <= a < w.len() implies #[trigger] w[a].id < self.next_id by {
                if a < w.len() - 1 {
                    assert(w[a] == old(self).woodchips@[a]);
                }
            }
        }
        SpawnTick::Emitted { woodchip: id, launch }
    }

    /// Ticks the woodchip countdown of trunk `trunk` as
    /// `tick_woodchip_spawner_with` does, with freshly drawn random fractions.
    pub fn tick_woodchip_spawner(&mut self, trunk: u64, dt_ms: u64, pose: Pose) -> (r: SpawnTick)
        requires
            old(self).wf(),
            dt_ms <= 1000,
            pose.wf(),
        ensures
            final(self).wf(),
            exists|d: LaunchDraws| d.wf() && spawner_tick_spec(*old(self), *final(self), trunk, dt_ms, pose, d, r),
    {
        let draws = LaunchDraws {
            vertical: unit_draw(),
            horizontal: unit_draw(),
            spin: unit_draw(),
            interval: unit_draw(),
        };
        let r = self.tick_woodchip_spawner_with(trunk, dt_ms, pose, draws);
        assert(draws.wf() && spawner_tick_spec(*old(self), *self, trunk, dt_ms, pose, draws, r));
        r
    }
}

/// A woodchip gets stuck only when a free woodchip meets a free chipper with
/// the cosine of its rotation at least 0.5 in magnitude; one that comes in
/// more oblique is despawned and leaves the chipper free.
pub proof fn lemma_stuck_only_upright(before: Level, after: Level, w: u64, c: u64, cos: int, r: ChipOutcome)
    requires
        before.wf(),
        holds_id(before.woodchips@, w),
        holds_id(before.chippers@, c),
        chip_event_spec(before, after, w, c, cos, r),
    ensures
        r is Stuck ==> {
            &&& before.chippers@[index_of(before.chippers@, c)].value.state == Chipper::Free
            &&& before.woodchips@[index_of(before.woodchips@, w)].value == Woodchip::Free
            &&& (cos <= -UPRIGHT_COSINE || cos >= UPRIGHT_COSINE)
        },
        (before.chippers@[index_of(before.chippers@, c)].value.state == Chipper::Free
            && before.woodchips@[index_of(before.woodchips@, w)].value == Woodchip::Free
            && -UPRIGHT_COSINE < cos < UPRIGHT_COSINE) ==> {
            &&& r == ChipOutcome::Despawned(w)
            &&& after.chippers@ == before.chippers@
            &&& !holds_id(after.woodchips@, w)
        },
{
    let wi = index_of(before.woodchips@, w);
    if before.chippers@[index_of(before.chippers@, c)].value.state == Chipper::Free
        && before.woodchips@[wi].value == Woodchip::Free && -UPRIGHT_COSINE < cos < UPRIGHT_COSINE {
        if holds_id(after.woodchips@, w) {
            let k = choose|k: int| 0 <= k < after.woodchips@.len() && #[trigger] after.woodchips@[k].id == w;
            if k < wi {
                assert(before.woodchips@[k].id == w);
            } else {
                assert(before.woodchips@[k + 1].id == w);
            }
        }
    }
}

} // verus!
