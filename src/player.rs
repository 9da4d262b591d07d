//! Player locomotion: jump-power accumulation and depletion, slope-aware
//! horizontal movement, and the rescue bounce off a stuck woodchip.
use vstd::prelude::*;

use crate::fixed::{
    div_toward_zero, float_sign, isqrt, quarter_pow, quarter_pow_spec, sqrt_of, trunc_div, unit_bounded,
    Vec2, ONE,
};

verus! {

/// Largest frame duration, in milliseconds, that one update accepts.
pub const MAX_FRAME_MS: u64 = 1000;

/// Largest value of a tuning coefficient.
pub const MAX_COEFFICIENT: i64 = 1000000;

/// Largest magnitude of a velocity component, at scale `ONE`.
pub const MAX_VELOCITY: i64 = 1000000000;

/// Per-player tunables and transient locomotion state.
///
/// Rates are given per second at scale `ONE`; the uphill efficiencies are
/// exponents counted in quarters (2 is a square root, 4 is linear).
#[derive(Clone, Copy, Debug)]
pub struct PlayerControl {
    /// Top horizontal speed, at scale `ONE`.
    pub max_speed: i64,
    /// Impulse per second of a full-strength movement correction.
    pub impulse_coefficient: i64,
    /// Impulse of a full jump.
    pub jump_power_coefficient: i64,
    /// Impulse added when bouncing off a stuck woodchip.
    pub jump_from_woodchip_power_coefficient: i64,
    /// Jump potential drained per second while jumping.
    pub jump_time_coefficient: i64,
    /// Remaining jump power, in `[0, ONE]`.
    pub jump_potential: i64,
    /// Normal of the surface last stood on.
    pub last_stood_on: Vec2,
    /// Confidence in `last_stood_on`, in `[0, ONE]`.
    pub stood_on_potential: i64,
    /// Stood-on potential lost per second while airborne.
    pub stood_on_time_coefficient: i64,
    /// Uphill exponent used while accelerating.
    pub uphill_move_efficiency: u64,
    /// Uphill exponent used while braking.
    pub uphill_stop_efficiency: u64,
}

/// What one control update asks of the physics body and the animation.
#[derive(Clone, Copy, Debug, PartialEq, Eq, Structural)]
pub struct ControlOutput {
    /// Upward jump impulse at scale `ONE` (0 when not jumping).
    pub jump_impulse: i64,
    /// Movement impulse at scale `ONE`, or `None` when the player already
    /// moves at the requested speed.
    pub move_impulse: Option<Vec2>,
    /// Whether the player asks to move.
    pub is_moving: bool,
    /// The facing to take, when moving: `true` for left.
    pub face_left: Option<bool>,
}

impl PlayerControl {
    pub open spec fn wf(&self) -> bool {
        &&& 0 <= self.jump_potential <= ONE
        &&& 0 <= self.stood_on_potential <= ONE
        &&& unit_bounded(self.last_stood_on)
        &&& 0 < self.max_speed <= MAX_COEFFICIENT
        &&& 0 <= self.impulse_coefficient <= MAX_COEFFICIENT
        &&& 0 <= self.jump_power_coefficient <= MAX_COEFFICIENT
        &&& 0 <= self.jump_from_woodchip_power_coefficient <= MAX_COEFFICIENT
        &&& 0 <= self.jump_time_coefficient <= MAX_COEFFICIENT
        &&& 0 <= self.stood_on_time_coefficient <= MAX_COEFFICIENT
        &&& self.uphill_move_efficiency <= 4
        &&& self.uphill_stop_efficiency <= 4
    }
}

/// The normal of a contact as seen from the player, pointing away from the
/// touched surface: a contact normal points from the first body to the
/// second, so it is reversed when the player is the first body. `None` when
/// the player is neither body.
pub fn oriented_normal(player_is_first: bool, player_is_second: bool, normal: Vec2) -> (r: Option<
    Vec2,
>)
    requires
        unit_bounded(normal),
    ensures
        player_is_first ==> r == Some(Vec2 { x: (-normal.x) as i64, y: (-normal.y) as i64 }),
        !player_is_first && player_is_second ==> r == Some(normal),
        !player_is_first && !player_is_second ==> r is None,
        r matches Some(n) ==> unit_bounded(n),
{
    if player_is_first {
        Some(Vec2 { x: -normal.x, y: -normal.y })
    } else if player_is_second {
        Some(normal)
    } else {
        None
    }
}

/// Upward speed given to a player killed by a chipper.
pub const DEATH_KICK_SPEED: i64 = 50000;

/// Spin given to a player killed by a chipper.
pub const DEATH_KICK_SPIN: i64 = 100000;

/// The animation flags of a player: what the control asks for now and what
/// the animation last showed.
#[derive(Clone, Copy, Debug, PartialEq, Eq, Structural)]
pub struct AnimationStatus {
    pub is_moving: bool,
    pub was_moving: bool,
    pub is_left: bool,
    pub was_left: bool,
}

/// What the animation must change this frame.
#[derive(Clone, Copy, Debug, PartialEq, Eq, Structural)]
pub struct AnimationChange {
    /// Turn the body to face left (`Some(true)`) or right (`Some(false)`).
    pub turn_left: Option<bool>,
    /// Start (`Some(true)`) or stop (`Some(false)`) the leg swing.
    pub legs_moving: Option<bool>,
}

impl AnimationStatus {
    /// A player standing still and facing right.
    pub fn new() -> (r: AnimationStatus)
        ensures
            r == (AnimationStatus { is_moving: false, was_moving: false, is_left: false, was_left: false }),
    {
        AnimationStatus { is_moving: false, was_moving: false, is_left: false, was_left: false }
    }

    /// Takes in a control frame's flags: the facing changes only while moving.
    pub fn record(&mut self, out: &ControlOutput)
        ensures
            final(self).is_moving == out.is_moving,
            final(self).is_left == match out.face_left {
                Some(l) => l,
                None => old(self).is_left,
            },
            final(self).was_moving == old(self).was_moving,
            final(self).was_left == old(self).was_left,
    {
        self.is_moving = out.is_moving;
        match out.face_left {
            Some(l) => {
                self.is_left = l;
            },
            None => {},
        }
    }

    /// Reports what changed since the animation last caught up, and catches
    /// up.
    pub fn catch_up(&mut self) -> (r: AnimationChange)
        ensures
            r.turn_left == if old(self).is_left != old(self).was_left {
                Some(old(self).is_left)
            } else {
                None
            },
            r.legs_moving == if old(self).is_moving != old(self).was_moving {
                Some(old(self).is_moving)
            } else {
                None
            },
            *final(self) == (AnimationStatus {
                was_moving: old(self).is_moving,
                was_left: old(self).is_left,
                ..*old(self)
            }),
    {
        let turn_left = if self.is_left != self.was_left {
            self.was_left = self.is_left;
            Some(self.is_left)
        } else {
            None
        };
        let legs_moving = if self.is_moving != self.was_moving {
            self.was_moving = self.is_moving;
            Some(self.is_moving)
        } else {
            None
        };
        AnimationChange { turn_left, legs_moving }
    }
}

/// The sum of a sequence of axis values.
pub open spec fn sum(s: Seq<i64>) -> int
    decreases s.len(),
{
    if s.len() == 0 {
        0
    } else {
        sum(s.drop_last()) + s.last()
    }
}

/// The movement value of a frame: the mean of the participating axis
/// values, rounded toward zero, or 0 when none participates.
pub open spec fn mean_axis(s: Seq<i64>) -> int {
    if s.len() == 0 {
        0
    } else {
        trunc_div(sum(s), s.len() as int)
    }
}

/// Averages the axis values of all input sources that are not released.
pub fn movement_value(axis_values: &Vec<i64>) -> (r: i64)
    requires
        axis_values.len() <= 1000000,
        forall|i: int| 0 <= i < axis_values.len() ==> -ONE <= #[trigger] axis_values[i] <= ONE,
    ensures
        r == mean_axis(axis_values@),
        -ONE <= r <= ONE,
{
    let n = axis_values.len();
    let mut total: i64 = 0;
    let mut i: usize = 0;
    while i < n
        invariant
            n == axis_values.len(),
            n <= 1000000,
            i <= n,
            forall|j: int| 0 <= j < axis_values.len() ==> -ONE <= #[trigger] axis_values[j] <= ONE,
            total == sum(axis_values@.take(i as int)),
            -10000 * (i as int) <= total <= 10000 * (i as int),
        decreases n - i,
    {
        assert(axis_values@.take(i + 1).drop_last() =~= axis_values@.take(i as int));
        total = total + axis_values[i];
        i = i + 1;
    }
    assert(axis_values@.take(n as int) =~= axis_values@);
    if n == 0 {
        0
    } else {
        let r = div_toward_zero(total, n as i64);
        proof {
            let t = total as int;
            let m = n as int;
            if t >= 0 {
                assert(t / m <= ONE) by (nonlinear_arith)
                    requires
                        0 <= t <= ONE * m,
                        m > 0,
                ;
            } else {
                assert((-t) / m <= ONE) by (nonlinear_arith)
                    requires
                        0 <= -t <= ONE * m,
                        m > 0,
                ;
            }
        }
        r
    }
}

/// The standing surface among the active contact normals: the one most
/// aligned with world-up, the last of equals as a max-by-key scan picks it.
pub open spec fn standing_normal(s: Seq<Vec2>) -> Option<Vec2>
    decreases s.len(),
{
    if s.len() == 0 {
        None
    } else {
        match standing_normal(s.drop_last()) {
            Some(b) => if b.y > s.last().y {
                Some(b)
            } else {
                Some(s.last())
            },
            None => Some(s.last()),
        }
    }
}

proof fn lemma_standing_normal_is_member(s: Seq<Vec2>)
    ensures
        standing_normal(s) matches Some(n) ==> s.contains(n),
        s.len() > 0 ==> standing_normal(s) is Some,
    decreases s.len(),
{
    if s.len() > 0 {
        lemma_standing_normal_is_member(s.drop_last());
        if let Some(b) = standing_normal(s.drop_last()) {
            let k = choose|k: int| 0 <= k < s.drop_last().len() && s.drop_last()[k] == b;
            assert(s[k] == b);
        }
        assert(s[s.len() - 1] == s.last());
    }
}

/// Picks the standing surface among the active contact normals.
pub fn find_standing_normal(contacts: &Vec<Vec2>) -> (r: Option<Vec2>)
    ensures
        r == standing_normal(contacts@),
        r matches Some(n) ==> contacts@.contains(n),
        r is None <==> contacts.len() == 0,
{
    let mut best: Option<Vec2> = None;
    let mut i: usize = 0;
    while i < contacts.len()
        invariant
            i <= contacts.len(),
            best == standing_normal(contacts@.take(i as int)),
        decreases contacts.len() - i,
    {
        assert(contacts@.take(i + 1).drop_last() =~= contacts@.take(i as int));
        let c = contacts[i];
        match best {
            Some(b) => {
                if b.y <= c.y {
                    best = Some(c);
                }
            },
            None => {
                best = Some(c);
            },
        }
        i = i + 1;
    }
    assert(contacts@.take(contacts.len() as int) =~= contacts@);
    proof {
        lemma_standing_normal_is_member(contacts@);
    }
    best
}

/// `p` lowered by `dt` milliseconds at `rate` per second, but not below 0.
pub open spec fn decayed(p: int, dt: int, rate: int) -> int {
    if p - dt * rate / 1000 < 0 {
        0
    } else {
        p - dt * rate / 1000
    }
}

/// The state once the frame's standing surface (if any) is taken in: standing
/// refills the jump potential up to the surface's verticality and latches the
/// surface; in the air the latch fades, and the jump potential is lost unless
/// jump is held.
pub open spec fn after_contacts(
    c: PlayerControl,
    standing: Option<Vec2>,
    jumping: bool,
    dt: int,
) -> PlayerControl {
    match standing {
        Some(n) => PlayerControl {
            jump_potential: if c.jump_potential < n.y {
                n.y
            } else {
                c.jump_potential
            },
            last_stood_on: n,
            stood_on_potential: ONE,
            ..c
        },
        None => PlayerControl {
            jump_potential: if jumping {
                c.jump_potential
            } else {
                0
            },
            stood_on_potential: decayed(
                c.stood_on_potential as int,
                dt,
                c.stood_on_time_coefficient as int,
            ) as i64,
            ..c
        },
    }
}

/// Jump potential spent in a frame: none unless jumping, else the frame's
/// share of the drain rate, but no more than what is left.
pub open spec fn depletion(c: PlayerControl, jumping: bool, dt: int) -> int {
    if !jumping {
        0
    } else if c.jump_potential < dt * c.jump_time_coefficient / 1000 {
        c.jump_potential as int
    } else {
        dt * c.jump_time_coefficient / 1000
    }
}

/// The jump impulse for spending potential from `before` down to `after`: the
/// jump power times the area under the power curve `x^0.75` between them,
/// normalised so that the whole of `[0, 1]` gives the full power.
pub open spec fn jump_impulse_for(power: int, before: int, after: int) -> int {
    power * (quarter_pow_spec(before, 3) - quarter_pow_spec(after, 3))
}

/// The direction of movement: world-up blended toward the last stood-on normal
/// by the stood-on potential, turned a quarter clockwise.
pub open spec fn movement_axis_of(c: PlayerControl) -> Vec2 {
    let p = c.stood_on_potential as int;
    let up_x = trunc_div(p * c.last_stood_on.x, ONE as int);
    let up_y = (ONE - p) + trunc_div(p * c.last_stood_on.y, ONE as int);
    Vec2 { x: up_y as i64, y: (-up_x) as i64 }
}

/// Speed along `axis` as a fraction of `max_speed`, at scale `ONE`.
pub open spec fn speed_along(axis: Vec2, v: Vec2, max_speed: int) -> int {
    trunc_div(v.x * axis.x + v.y * axis.y, max_speed)
}

/// The player already moves at or beyond the target in its direction.
pub open spec fn at_target(target: int, current: int) -> bool {
    (0 < target && target <= current) || (target < 0 && current <= target)
}

/// The correction strength for a speed error `d`: quartic for small errors,
/// capped at one.
pub open spec fn correction(d: int) -> int {
    if d > ONE {
        ONE as int
    } else if d < -ONE {
        -ONE
    } else if d >= 0 {
        d * d * d * d / (ONE * ONE * ONE)
    } else {
        -(d * d * d * d / (ONE * ONE * ONE))
    }
}

/// `axis` times a correction strength `k`, a frame of `dt` milliseconds and
/// an impulse coefficient.
pub open spec fn raw_impulse(axis: Vec2, k: int, dt: int, coefficient: int) -> Vec2 {
    Vec2 {
        x: trunc_div(trunc_div(axis.x * k, ONE as int) * (dt * coefficient), 1000) as i64,
        y: trunc_div(trunc_div(axis.y * k, ONE as int) * (dt * coefficient), 1000) as i64,
    }
}

/// The cosine between the impulse direction (`axis`, reversed for a negative
/// strength) and world-up, at scale `ONE`.
pub open spec fn uphill_of(axis: Vec2, k: int) -> int {
    let along = if k >= 0 {
        axis.y as int
    } else {
        -axis.y
    };
    trunc_div(along * ONE, sqrt_of(axis.x * axis.x + axis.y * axis.y))
}

/// Whether an impulse of strength `k` along `axis` is slowed by the slope.
pub open spec fn slowed_uphill(axis: Vec2, k: int, dt: int, coefficient: int) -> bool {
    &&& k != 0
    &&& dt * coefficient > 0
    &&& sqrt_of(axis.x * axis.x + axis.y * axis.y) > 0
    &&& uphill_of(axis, k) >= ONE / 100
}

/// `v` scaled by the fraction `f / ONE`.
pub open spec fn scaled(v: Vec2, f: int) -> Vec2 {
    Vec2 { x: trunc_div(v.x * f, ONE as int) as i64, y: trunc_div(v.y * f, ONE as int) as i64 }
}

/// The movement impulse that brings a player moving at `current` toward
/// `target` (both fractions of top speed), uphill parts weakened by the
/// efficiency for accelerating or for braking.
pub open spec fn movement_impulse_for(
    c: PlayerControl,
    axis: Vec2,
    target: int,
    current: int,
    dt: int,
) -> Vec2 {
    let k = correction(target - current);
    let raw = raw_impulse(axis, k, dt, c.impulse_coefficient as int);
    let efficiency = if float_sign(target) == float_sign(current) {
        c.uphill_move_efficiency
    } else {
        c.uphill_stop_efficiency
    };
    if slowed_uphill(axis, k, dt, c.impulse_coefficient as int) {
        scaled(raw, ONE - quarter_pow_spec(uphill_of(axis, k), efficiency as int))
    } else {
        raw
    }
}

/// The inputs of one frame are within what an update accepts.
pub open spec fn frame_ok(
    target_speed: int,
    contacts: Seq<Vec2>,
    velocity: Vec2,
    inv_mass: int,
    dt: int,
) -> bool {
    &&& -ONE <= target_speed <= ONE
    &&& forall|i: int| 0 <= i < contacts.len() ==> unit_bounded(#[trigger] contacts[i])
    &&& -MAX_VELOCITY <= velocity.x <= MAX_VELOCITY
    &&& -MAX_VELOCITY <= velocity.y <= MAX_VELOCITY
    &&& 0 < inv_mass <= ONE
    &&& 0 <= dt <= MAX_FRAME_MS
}

/// The state after a frame's contacts and jump: stages one and two.
pub open spec fn after_jump(
    c: PlayerControl,
    contacts: Seq<Vec2>,
    jumping: bool,
    dt: int,
) -> PlayerControl {
    let c1 = after_contacts(c, standing_normal(contacts), jumping, dt);
    PlayerControl {
        jump_potential: (c1.jump_potential - depletion(c1, jumping, dt)) as i64,
        ..c1
    }
}

/// One frame of player control: the new state, and the impulses and
/// animation flags that the frame asks for. The movement correction sees the
/// velocity as the jump impulse left it (`inv_mass` at scale `ONE`).
pub open spec fn control_step(
    c: PlayerControl,
    target: int,
    jumping: bool,
    contacts: Seq<Vec2>,
    v: Vec2,
    inv_mass: int,
    dt: int,
) -> (PlayerControl, ControlOutput) {
    let c1 = after_contacts(c, standing_normal(contacts), jumping, dt);
    let c2 = after_jump(c, contacts, jumping, dt);
    let jump = jump_impulse_for(
        c1.jump_power_coefficient as int,
        c1.jump_potential as int,
        c2.jump_potential as int,
    );
    let vy = v.y + trunc_div(jump * inv_mass, ONE as int);
    let axis = movement_axis_of(c2);
    let current = speed_along(axis, Vec2 { x: v.x, y: vy as i64 }, c2.max_speed as int);
    let moving = target >= ONE / 100 || target <= -(ONE / 100);
    let out = ControlOutput {
        jump_impulse: jump as i64,
        move_impulse: if at_target(target, current) {
            None
        } else {
            Some(movement_impulse_for(c2, axis, target, current, dt))
        },
        is_moving: moving,
        face_left: if moving {
            Some(target < 0)
        } else {
            None
        },
    };
    (c2, out)
}

/// The impulse of a bounce off a stuck woodchip: the momentum that cancels
/// the vertical velocity `vy` (`vy / inv_mass`), plus the bounce power.
pub open spec fn rescue_impulse(power: int, vy: int, inv_mass: int) -> int {
    power * ONE - trunc_div(vy * ONE, inv_mass)
}

/// Jump frames run one after another: only the contacts, the jump button and
/// the frame time change the locomotion state.
pub open spec fn run_jump_frames(c: PlayerControl, frames: Seq<(bool, Seq<Vec2>, int)>) -> PlayerControl
    decreases frames.len(),
{
    if frames.len() == 0 {
        c
    } else {
        let f = frames.last();
        after_jump(run_jump_frames(c, frames.drop_last()), f.1, f.0, f.2)
    }
}

proof fn lemma_after_jump_wf(c: PlayerControl, contacts: Seq<Vec2>, jumping: bool, dt: int)
    requires
        c.wf(),
        forall|i: int| 0 <= i < contacts.len() ==> unit_bounded(#[trigger] contacts[i]),
        0 <= dt <= MAX_FRAME_MS,
    ensures
        after_jump(c, contacts, jumping, dt).wf(),
{
    lemma_standing_normal_is_member(contacts);
    if let Some(n) = standing_normal(contacts) {
        let k = choose|k: int| 0 <= k < contacts.len() && contacts[k] == n;
        assert(unit_bounded(contacts[k]));
    }
    assert(0 <= dt * c.stood_on_time_coefficient) by (nonlinear_arith)
        requires
            0 <= dt,
            0 <= c.stood_on_time_coefficient,
    ;
    let c1 = after_contacts(c, standing_normal(contacts), jumping, dt);
    assert(0 <= dt * c1.jump_time_coefficient) by (nonlinear_arith)
        requires
            0 <= dt,
            0 <= c1.jump_time_coefficient,
    ;
}

/// However long a grounded player keeps jumping, the jump potential stays
/// within `[0, 1]`.
pub proof fn lemma_jump_potential_bounded(c: PlayerControl, frames: Seq<(bool, Seq<Vec2>, int)>)
    requires
        c.wf(),
        forall|i: int|
            0 <= i < frames.len() ==> {
                let f = #[trigger] frames[i];
                &&& f.1.len() > 0
                &&& forall|j: int| 0 <= j < f.1.len() ==> unit_bounded(#[trigger] f.1[j])
                &&& 0 <= f.2 <= MAX_FRAME_MS
            },
    ensures
        run_jump_frames(c, frames).wf(),
        0 <= run_jump_frames(c, frames).jump_potential <= ONE,
    decreases frames.len(),
{
    if frames.len() > 0 {
        let init = frames.drop_last();
        assert forall|i: int| 0 <= i < init.len() implies {
            let f = #[trigger] init[i];
            &&& f.1.len() > 0
            &&& forall|j: int| 0 <= j < f.1.len() ==> unit_bounded(#[trigger] f.1[j])
            &&& 0 <= f.2 <= MAX_FRAME_MS
        } by {
            assert(init[i] == frames[i]);
        }
        lemma_jump_potential_bounded(c, init);
        let f = frames[frames.len() - 1];
        lemma_after_jump_wf(run_jump_frames(c, init), f.1, f.0, f.2);
    }
}

/// A frame with no active contact and the jump button up leaves no jump
/// potential: none is banked for a jump in the air.
pub proof fn lemma_airborne_release_clears_jump(
    c: PlayerControl,
    target: int,
    velocity: Vec2,
    inv_mass: int,
    dt: int,
)
    ensures
        control_step(c, target, false, Seq::empty(), velocity, inv_mass, dt).0.jump_potential == 0,
{
}

impl PlayerControl {
    /// Bounces the player off a stuck woodchip when it is not already rising
    /// (vertical velocity at most 0.1): the jump potential is refilled and the
    /// returned upward impulse cancels the fall and adds the bounce power.
    pub fn rescue_bounce(&mut self, velocity_y: i64, inv_mass: i64) -> (r: Option<i64>)
        requires
            old(self).wf(),
            -MAX_VELOCITY <= velocity_y <= MAX_VELOCITY,
            0 < inv_mass <= ONE,
        ensures
            velocity_y <= ONE / 10 ==> r == Some(
                rescue_impulse(
                    old(self).jump_from_woodchip_power_coefficient as int,
                    velocity_y as int,
                    inv_mass as int,
                ) as i64,
            ) && *final(self) == (PlayerControl { jump_potential: ONE, ..*old(self) }),
            velocity_y > ONE / 10 ==> r is None && *final(self) == *old(self),
            final(self).wf(),
    {
        if velocity_y > ONE / 10 {
            return None;
        }
        self.jump_potential = ONE;
        assert(-1000000000 * 10000 <= velocity_y * ONE <= 1000000000 * 10000);
        let compensate = div_toward_zero(velocity_y * ONE, inv_mass);
        assert(-1000000000 * 10000 <= compensate <= 1000000000 * 10000) by (nonlinear_arith)
            requires
                compensate == trunc_div(velocity_y * 10000, inv_mass as int),
                -1000000000 * 10000 <= velocity_y * 10000 <= 1000000000 * 10000,
                inv_mass > 0,
        ;
        Some(self.jump_from_woodchip_power_coefficient * ONE - compensate)
    }

    /// Runs one frame of player control. `target_speed` is the mean movement
    /// axis, `contacts` the normals of the active contacts (pointing away from
    /// the touched surface), `velocity` the body's velocity and `inv_mass` its
    /// inverse mass at scale `ONE`.
    pub fn step(
        &mut self,
        target_speed: i64,
        jumping: bool,
        contacts: &Vec<Vec2>,
        velocity: Vec2,
        inv_mass: i64,
        dt_ms: u64,
    ) -> (r: ControlOutput)
        requires
            old(self).wf(),
            frame_ok(target_speed as int, contacts@, velocity, inv_mass as int, dt_ms as int),
        ensures
            (*final(self), r) == control_step(
                *old(self),
                target_speed as int,
                jumping,
                contacts@,
                velocity,
                inv_mass as int,
                dt_ms as int,
            ),
            final(self).wf(),
            0 <= final(self).jump_potential <= ONE,
            contacts.len() == 0 && !jumping ==> final(self).jump_potential == 0,
    {
        let standing = find_standing_normal(contacts);
        proof {
            if let Some(n) = standing {
                let k = choose|k: int| 0 <= k < contacts@.len() && contacts@[k] == n;
                assert(unit_bounded(contacts@[k]));
            }
        }
        self.take_contacts(standing, jumping, dt_ms);
        let jump = self.deplete_jump(jumping, dt_ms);
        assert(-10000000000 <= jump <= 10000000000);
        assert(-10000000000 * 10000 <= jump * inv_mass <= 10000000000 * 10000) by (nonlinear_arith)
            requires
                -10000000000 <= jump <= 10000000000,
                0 < inv_mass <= 10000,
        ;
        let vy = velocity.y + div_toward_zero(jump * inv_mass, ONE);
        let axis = self.movement_axis();
        assert(-10000 * 1000000000 <= velocity.x * axis.x <= 10000 * 1000000000)
            by (nonlinear_arith)
            requires
                -1000000000 <= velocity.x <= 1000000000,
                -10000 <= axis.x <= 10000,
        ;
        assert(-10000 * 11000000000 <= vy * axis.y <= 10000 * 11000000000) by (nonlinear_arith)
            requires
                -11000000000 <= vy <= 11000000000,
                -10000 <= axis.y <= 10000,
        ;
        let current = div_toward_zero(velocity.x * axis.x + vy * axis.y, self.max_speed);
        assert(-10000 * 12000000000 <= current <= 10000 * 12000000000) by (nonlinear_arith)
            requires
                -10000 * 12000000000 <= velocity.x * axis.x + vy * axis.y <= 10000 * 12000000000,
                current == trunc_div(velocity.x * axis.x + vy * axis.y, self.max_speed as int),
                self.max_speed > 0,
        ;
        let moving = target_speed >= ONE / 100 || target_speed <= -(ONE / 100);
        let face_left = if moving {
            Some(target_speed < 0)
        } else {
            None
        };
        let at_target = (0 < target_speed && target_speed <= current) || (target_speed < 0
            && current <= target_speed);
        let move_impulse = if at_target {
            None
        } else {
            Some(self.movement_impulse(axis, target_speed, current, dt_ms))
        };
        ControlOutput { jump_impulse: jump, move_impulse, is_moving: moving, face_left }
    }

    /// Takes in the frame's standing surface.
    pub fn take_contacts(&mut self, standing: Option<Vec2>, jumping: bool, dt_ms: u64)
        requires
            old(self).wf(),
            dt_ms <= MAX_FRAME_MS,
            standing matches Some(n) ==> unit_bounded(n),
        ensures
            *final(self) == after_contacts(*old(self), standing, jumping, dt_ms as int),
            final(self).wf(),
    {
        match standing {
            Some(n) => {
                if self.jump_potential < n.y {
                    self.jump_potential = n.y;
                }
                self.last_stood_on = n;
                self.stood_on_potential = ONE;
            },
            None => {
                if !jumping {
                    self.jump_potential = 0;
                }
                assert(0 <= dt_ms * self.stood_on_time_coefficient <= 1000 * 1000000)
                    by (nonlinear_arith)
                    requires
                        dt_ms <= 1000,
                        0 <= self.stood_on_time_coefficient <= 1000000,
                ;
                let loss: i64 = (dt_ms as i64) * self.stood_on_time_coefficient / 1000;
                if self.stood_on_potential - loss < 0 {
                    self.stood_on_potential = 0;
                } else {
                    self.stood_on_potential = self.stood_on_potential - loss;
                }
            },
        }
    }

    /// Spends jump potential for a frame and returns the jump impulse.
    pub fn deplete_jump(&mut self, jumping: bool, dt_ms: u64) -> (impulse: i64)
        requires
            old(self).wf(),
            dt_ms <= MAX_FRAME_MS,
        ensures
            final(self).jump_potential == old(self).jump_potential - depletion(
                *old(self),
                jumping,
                dt_ms as int,
            ),
            *final(self) == (PlayerControl {
                jump_potential: final(self).jump_potential,
                ..*old(self)
            }),
            impulse == jump_impulse_for(
                old(self).jump_power_coefficient as int,
                old(self).jump_potential as int,
                final(self).jump_potential as int,
            ),
            -MAX_COEFFICIENT * ONE <= impulse <= MAX_COEFFICIENT * ONE,
            final(self).wf(),
    {
        if !jumping {
            return 0;
        }
        assert(0 <= dt_ms * self.jump_time_coefficient <= 1000 * 1000000) by (nonlinear_arith)
            requires
                dt_ms <= 1000,
                0 <= self.jump_time_coefficient <= 1000000,
        ;
        let rate: i64 = (dt_ms as i64) * self.jump_time_coefficient / 1000;
        let to_deplete = if self.jump_potential < rate {
            self.jump_potential
        } else {
            rate
        };
        let before = self.jump_potential;
        let after = before - to_deplete;
        self.jump_potential = after;
        let high = quarter_pow(before as u64, 3);
        let low = quarter_pow(after as u64, 3);
        let power = self.jump_power_coefficient;
        assert(-1000000 * 10000 <= power * (high - low) <= 1000000 * 10000) by (nonlinear_arith)
            requires
                0 <= power <= 1000000,
                0 <= high <= 10000,
                0 <= low <= 10000,
        ;
        power * (high as i64 - low as i64)
    }

    /// The direction in which horizontal input moves the player.
    pub fn movement_axis(&self) -> (r: Vec2)
        requires
            self.wf(),
        ensures
            r == movement_axis_of(*self),
            unit_bounded(r),
    {
        let p = self.stood_on_potential;
        let lx = self.last_stood_on.x;
        let ly = self.last_stood_on.y;
        assert(-10000 * 10000 <= p * lx <= 10000 * 10000 && -10000 * 10000 <= p * ly <= 10000
            * 10000) by (nonlinear_arith)
            requires
                0 <= p <= 10000,
                -10000 <= lx <= 10000,
                -10000 <= ly <= 10000,
        ;
        let up_x = div_toward_zero(p * lx, ONE);
        let blend_y = div_toward_zero(p * ly, ONE);
        assert(-p <= blend_y <= p) by (nonlinear_arith)
            requires
                0 <= p <= 10000,
                -10000 <= ly <= 10000,
                blend_y == trunc_div(p * ly, 10000),
        ;
        assert(-10000 <= up_x <= 10000);
        let up_y = (ONE - p) + blend_y;
        Vec2 { x: up_y, y: -up_x }
    }

    /// The impulse that moves the player from `current` toward `target`
    /// along `axis`.
    pub fn movement_impulse(&self, axis: Vec2, target: i64, current: i64, dt_ms: u64) -> (r: Vec2)
        requires
            self.wf(),
            unit_bounded(axis),
            -ONE <= target <= ONE,
            -100 * MAX_VELOCITY * ONE <= current <= 100 * MAX_VELOCITY * ONE,
            dt_ms <= MAX_FRAME_MS,
        ensures
            r == movement_impulse_for(*self, axis, target as int, current as int, dt_ms as int),
    {
        let d = target - current;
        let k: i64 = if d > ONE {
            ONE
        } else if d < -ONE {
            -ONE
        } else {
            assert(0 <= d * d <= 10000 * 10000 && -10000 * 10000 * 10000 <= d * d * d <= 10000
                * 10000 * 10000 && 0 <= d * d * d * d <= 10000 * 10000 * 10000 * 10000)
                by (nonlinear_arith)
                requires
                    -10000 <= d <= 10000,
            ;
            let q = d * d * d * d / (ONE * ONE * ONE);
            if d >= 0 {
                q
            } else {
                -q
            }
        };
        assert(-10000 <= k <= 10000);
        assert(0 <= dt_ms * self.impulse_coefficient <= 1000 * 1000000) by (nonlinear_arith)
            requires
                dt_ms <= 1000,
                0 <= self.impulse_coefficient <= 1000000,
        ;
        let m: i64 = (dt_ms as i64) * self.impulse_coefficient;
        assert(-10000 * 10000 <= axis.x * k <= 10000 * 10000 && -10000 * 10000 <= axis.y * k
            <= 10000 * 10000) by (nonlinear_arith)
            requires
                -10000 <= k <= 10000,
                unit_bounded(axis),
        ;
        let ax = div_toward_zero(axis.x * k, ONE);
        let ay = div_toward_zero(axis.y * k, ONE);
        assert(-10000 * 1000000000 <= ax * m <= 10000 * 1000000000 && -10000 * 1000000000 <= ay
            * m <= 10000 * 1000000000) by (nonlinear_arith)
            requires
                -10000 <= ax <= 10000,
                -10000 <= ay <= 10000,
                0 <= m <= 1000000000,
        ;
        let raw = Vec2 { x: div_toward_zero(ax * m, 1000), y: div_toward_zero(ay * m, 1000) };
        assert(-10000 * 1000000 <= raw.x <= 10000 * 1000000);
        assert(-10000 * 1000000 <= raw.y <= 10000 * 1000000);
        assert(0 <= axis.x * axis.x <= 10000 * 10000 && 0 <= axis.y * axis.y <= 10000 * 10000)
            by (nonlinear_arith)
            requires
                unit_bounded(axis),
        ;
        let norm2: u64 = (axis.x * axis.x + axis.y * axis.y) as u64;
        let len = isqrt(norm2);
        assert(len < 20000) by (nonlinear_arith)
            requires
                len * len <= norm2,
                norm2 <= 200000000,
        ;
        if k == 0 || m == 0 || len == 0 {
            return raw;
        }
        let along: i64 = if k >= 0 {
            axis.y
        } else {
            -axis.y
        };
        proof {
            let ay2 = if axis.y >= 0 {
                axis.y as int
            } else {
                -axis.y
            };
            assert(ay2 * ay2 <= axis.x * axis.x + axis.y * axis.y) by (nonlinear_arith)
                requires
                    ay2 == axis.y || ay2 == -axis.y,
            ;
            if len < ay2 {
                assert((len + 1) * (len + 1) <= ay2 * ay2) by (nonlinear_arith)
                    requires
                        0 <= len + 1 <= ay2,
                ;
            }
        }
        let up = div_toward_zero(along * ONE, len as i64);
        assert(-10000 <= up <= 10000) by (nonlinear_arith)
            requires
                up == trunc_div(along * 10000, len as int),
                -(len as int) <= along <= len,
                len > 0,
        ;
        if up < ONE / 100 {
            return raw;
        }
        let efficiency = if (target >= 0) == (current >= 0) {
            self.uphill_move_efficiency
        } else {
            self.uphill_stop_efficiency
        };
        let f: i64 = ONE - quarter_pow(up as u64, efficiency) as i64;
        assert(0 <= f <= 10000);
        assert(-10000 * 1000000 * 10000 <= raw.x * f <= 10000 * 1000000 * 10000 && -10000
            * 1000000 * 10000 <= raw.y * f <= 10000 * 1000000 * 10000) by (nonlinear_arith)
            requires
                0 <= f <= 10000,
                -10000 * 1000000 <= raw.x <= 10000 * 1000000,
                -10000 * 1000000 <= raw.y <= 10000 * 1000000,
        ;
        Vec2 { x: div_toward_zero(raw.x * f, ONE), y: div_toward_zero(raw.y * f, ONE) }
    }
}

} // verus!
