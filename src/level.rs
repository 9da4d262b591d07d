//! The level's entities and the trunk / chipper side of the interaction
//! machine. Entities are records in arenas keyed by integer ids; references
//! between them are ids, and a lookup that finds nothing skips the event.
use vstd::prelude::*;

use crate::fixed::{Vec2, ONE};

verus! {

/// Number of chippers in a level.
pub const CHIPPER_COUNT: u64 = 7;

/// An entity of the level: a stable id and its state.
#[derive(Debug)]
pub struct Record<T> {
    pub id: u64,
    pub value: T,
}

/// Whether a chipper runs or is jammed by a stuck woodchip.
#[derive(Clone, Copy, Debug, PartialEq, Eq, Structural)]
pub enum Chipper {
    Free,
    Jammed,
}

/// The particle effect a chipper shows.
#[derive(Clone, Copy, Debug, PartialEq, Eq, Structural)]
pub enum ChipperEffect {
    NoEffect,
    ChippingWood,
    Smoking,
}

/// A chipper and the effect it currently shows.
#[derive(Clone, Copy, Debug, PartialEq, Eq, Structural)]
pub struct ChipperUnit {
    pub state: Chipper,
    pub effect: ChipperEffect,
}

/// A falling log, or one being fed into the chippers whose ids it holds.
#[derive(Debug)]
pub enum Trunk {
    Free,
    InChipper(Vec<u64>),
}

/// A woodchip in flight, or one stuck in (and jamming) a chipper.
#[derive(Clone, Copy, Debug, PartialEq, Eq, Structural)]
pub enum Woodchip {
    Free,
    StuckInChipper(u64),
}

/// A one-shot countdown, in milliseconds, that schedules the next woodchip.
#[derive(Clone, Copy, Debug, PartialEq, Eq, Structural)]
pub struct SpawnsWoodchips {
    pub duration_ms: u64,
    pub elapsed_ms: u64,
    pub finished: bool,
}

/// A trunk and, once it reached a chipper, its woodchip countdown.
#[derive(Debug)]
pub struct TrunkUnit {
    pub state: Trunk,
    pub spawner: Option<SpawnsWoodchips>,
}

/// All entities of a level.
#[derive(Debug)]
pub struct Level {
    pub chippers: Vec<Record<ChipperUnit>>,
    pub trunks: Vec<Record<TrunkUnit>>,
    pub woodchips: Vec<Record<Woodchip>>,
    /// The id the next spawned entity gets.
    pub next_id: u64,
}

/// No two records share an id, and all ids lie below `bound`.
pub open spec fn ids_ok<T>(s: Seq<Record<T>>, bound: u64) -> bool {
    &&& forall|i: int| 0 <= i < s.len() ==> #[trigger] s[i].id < bound
    &&& forall|i: int, j: int| 0 <= i < s.len() && 0 <= j < s.len() && i != j ==> #[trigger] s[i].id != #[trigger] s[j].id
}

/// The records hold `id`.
pub open spec fn holds_id<T>(s: Seq<Record<T>>, id: u64) -> bool {
    exists|i: int| 0 <= i < s.len() && #[trigger] s[i].id == id
}

/// The position of the record with `id` (meaningful when `holds_id`).
pub open spec fn index_of<T>(s: Seq<Record<T>>, id: u64) -> int {
    choose|i: int| 0 <= i < s.len() && #[trigger] s[i].id == id
}

/// The ids of a chipper set, without repetition.
pub open spec fn distinct(s: Seq<u64>) -> bool {
    forall|i: int, j: int| 0 <= i < s.len() && 0 <= j < s.len() && i != j ==> s[i] != s[j]
}

impl Trunk {
    /// A trunk in chippers touches at least one, each listed once.
    pub open spec fn wf(&self) -> bool {
        match self {
            Trunk::Free => true,
            Trunk::InChipper(s) => s@.len() > 0 && distinct(s@),
        }
    }

    pub open spec fn is_free(&self) -> bool {
        self is Free
    }
}

impl TrunkUnit {
    /// Only a trunk in chippers has a countdown, and a countdown never runs
    /// past its duration.
    pub open spec fn wf(&self) -> bool {
        &&& self.state.wf()
        &&& match self.spawner {
            Some(t) => self.state is InChipper && t.elapsed_ms <= t.duration_ms <= MAX_SPAWN_INTERVAL_MS,
            None => true,
        }
    }
}

/// Longest wait between two woodchips, in milliseconds.
pub const MAX_SPAWN_INTERVAL_MS: u64 = 6000;

impl Level {
    /// Ids are unique and fresh ids lie above them; at most one trunk
    /// exists; a trunk in chippers touches at least one.
    pub open spec fn wf(&self) -> bool {
        &&& ids_ok(self.chippers@, self.next_id)
        &&& ids_ok(self.trunks@, self.next_id)
        &&& ids_ok(self.woodchips@, self.next_id)
        &&& self.trunks@.len() <= 1
        &&& forall|i: int| 0 <= i < self.trunks@.len() ==> (#[trigger] self.trunks@[i]).value.wf()
    }
}

/// Finds the record with `id`.
pub fn find<T>(v: &Vec<Record<T>>, id: u64) -> (r: Option<usize>)
    requires
        forall|i: int, j: int|
            0 <= i < v@.len() && 0 <= j < v@.len() && i != j ==> #[trigger] v@[i].id != #[trigger] v@[j].id,
    ensures
        r is Some <==> holds_id(v@, id),
        r matches Some(i) ==> i < v.len() && v@[i as int].id == id && i == index_of(v@, id),
{
    let mut i: usize = 0;
    while i < v.len()
        invariant
            i <= v.len(),
            forall|k: int| 0 <= k < i ==> (#[trigger] v@[k]).id != id,
            forall|a: int, b: int|
                0 <= a < v@.len() && 0 <= b < v@.len() && a != b ==> #[trigger] v@[a].id
                    != #[trigger] v@[b].id,
        decreases v.len() - i,
    {
        if v[i].id == id {
            proof {
                let j = index_of(v@, id);
                assert(v@[i as int].id == id);
                assert(0 <= j < v@.len() && v@[j].id == id);
                if j != i as int {
                    assert(v@[i as int].id != v@[j].id);
                }
            }
            return Some(i);
        }
        i = i + 1;
    }
    None
}

/// Finds `x` among chipper ids.
pub fn position_of(v: &Vec<u64>, x: u64) -> (r: Option<usize>)
    ensures
        r is Some <==> v@.contains(x),
        r matches Some(j) ==> j < v.len() && v@[j as int] == x,
{
    let mut j: usize = 0;
    while j < v.len()
        invariant
            j <= v.len(),
            forall|k: int| 0 <= k < j ==> v@[k] != x,
        decreases v.len() - j,
    {
        if v[j] == x {
            return Some(j);
        }
        j = j + 1;
    }
    None
}

/// The outcome of a trunk / chipper intersection event.
#[derive(Clone, Copy, Debug, PartialEq, Eq, Structural)]
pub enum TrunkOutcome {
    /// The event concerns no known trunk and chipper, or changes nothing.
    Skipped,
    /// A free trunk entered its first chipper; its woodchip countdown is armed.
    Entered,
    /// A trunk in chippers touched one more.
    Joined,
    /// A trunk left one of its chippers and still touches another.
    Left,
    /// A trunk left its last chipper and was despawned.
    Despawned(u64),
}

/// The countdown armed when a trunk reaches a chipper: it fires at once.
pub open spec fn armed_spawner() -> SpawnsWoodchips {
    SpawnsWoodchips { duration_ms: 0, elapsed_ms: 0, finished: false }
}

/// The chippers of a freshly loaded level: a row of `CHIPPER_COUNT`, all free
/// and showing no effect, with consecutive ids from `first`.
pub open spec fn fresh_chippers(s: Seq<Record<ChipperUnit>>, first: u64) -> bool {
    &&& s.len() == CHIPPER_COUNT
    &&& forall|i: int|
        0 <= i < s.len() ==> (#[trigger] s[i]).id == first + i && s[i].value == (ChipperUnit {
            state: Chipper::Free,
            effect: ChipperEffect::NoEffect,
        })
}

impl Level {
    /// A level with no entity.
    pub fn new() -> (r: Level)
        ensures
            r.wf(),
            r.chippers@.len() == 0,
            r.trunks@.len() == 0,
            r.woodchips@.len() == 0,
            r.next_id == 0,
    {
        Level { chippers: Vec::new(), trunks: Vec::new(), woodchips: Vec::new(), next_id: 0 }
    }

    /// Despawns every entity of the level. Ids are not reused.
    pub fn clear(&mut self)
        requires
            old(self).wf(),
        ensures
            final(self).wf(),
            final(self).chippers@.len() == 0,
            final(self).trunks@.len() == 0,
            final(self).woodchips@.len() == 0,
            final(self).next_id == old(self).next_id,
    {
        self.chippers = Vec::new();
        self.trunks = Vec::new();
        self.woodchips = Vec::new();
    }

    /// Clears the level and sets up a new one: the row of chippers, no trunk
    /// and no woodchip. Returns `false`, leaving the level cleared, when too
    /// few ids are left.
    pub fn load(&mut self) -> (r: bool)
        requires
            old(self).wf(),
        ensures
            final(self).wf(),
            r == (old(self).next_id <= u64::MAX - CHIPPER_COUNT),
            r ==> fresh_chippers(final(self).chippers@, old(self).next_id),
            r ==> final(self).next_id == old(self).next_id + CHIPPER_COUNT,
            !r ==> final(self).chippers@.len() == 0 && final(self).next_id == old(self).next_id,
            final(self).trunks@.len() == 0,
            final(self).woodchips@.len() == 0,
    {
        self.clear();
        if self.next_id > u64::MAX - CHIPPER_COUNT {
            return false;
        }
        let first = self.next_id;
        let mut chippers: Vec<Record<ChipperUnit>> = Vec::new();
        let mut i: u64 = 0;
        while i < CHIPPER_COUNT
            invariant
                i <= CHIPPER_COUNT,
                first <= u64::MAX - CHIPPER_COUNT,
                chippers@.len() == i,
                forall|k: int|
                    0 <= k < i ==> (#[trigger] chippers@[k]).id == first + k && chippers@[k].value == (
                    ChipperUnit { state: Chipper::Free, effect: ChipperEffect::NoEffect }),
            decreases CHIPPER_COUNT - i,
        {
            chippers.push(
                Record {
                    id: first + i,
                    value: ChipperUnit { state: Chipper::Free, effect: ChipperEffect::NoEffect },
                },
            );
            i = i + 1;
        }
        self.chippers = chippers;
        self.next_id = first + CHIPPER_COUNT;
        true
    }

    /// Hands out a fresh id for an entity kept outside the arenas.
    pub fn allocate_id(&mut self) -> (r: Option<u64>)
        requires
            old(self).wf(),
        ensures
            final(self).wf(),
            old(self).next_id < u64::MAX ==> r == Some(old(self).next_id) && final(self).next_id
                == old(self).next_id + 1,
            old(self).next_id == u64::MAX ==> r is None && final(self).next_id == old(self).next_id,
            final(self).chippers@ == old(self).chippers@,
            final(self).trunks@ == old(self).trunks@,
            final(self).woodchips@ == old(self).woodchips@,
    {
        if self.next_id == u64::MAX {
            return None;
        }
        let id = self.next_id;
        self.next_id = id + 1;
        Some(id)
    }

    /// Spawns a falling trunk when none is left, and returns its id.
    pub fn spawn_trunk(&mut self) -> (r: Option<u64>)
        requires
            old(self).wf(),
        ensures
            final(self).wf(),
            old(self).trunks@.len() == 0 && old(self).next_id < u64::MAX ==> {
                &&& r == Some(old(self).next_id)
                &&& final(self).trunks@.len() == 1
                &&& final(self).trunks@[0].id == old(self).next_id
                &&& final(self).trunks@[0].value.state is Free
                &&& final(self).trunks@[0].value.spawner is None
                &&& final(self).next_id == old(self).next_id + 1
            },
            !(old(self).trunks@.len() == 0 && old(self).next_id < u64::MAX) ==> {
                &&& r is None
                &&& final(self).trunks@ == old(self).trunks@
                &&& final(self).next_id == old(self).next_id
            },
            final(self).chippers@ == old(self).chippers@,
            final(self).woodchips@ == old(self).woodchips@,
    {
        if self.trunks.len() > 0 || self.next_id == u64::MAX {
            return None;
        }
        let id = self.next_id;
        self.trunks.push(Record { id, value: TrunkUnit { state: Trunk::Free, spawner: None } });
        self.next_id = id + 1;
        Some(id)
    }

    /// Handles a trunk / chipper sensor event between entities `a` and `b`
    /// (in either order): entering a chipper feeds the trunk to it, and a
    /// trunk that leaves its last chipper is despawned.
    pub fn trunk_meets_chipper(&mut self, a: u64, b: u64, intersecting: bool) -> (r:
        TrunkOutcome)
        requires
            old(self).wf(),
        ensures
            final(self).wf(),
            final(self).chippers@ == old(self).chippers@,
            final(self).woodchips@ == old(self).woodchips@,
            final(self).next_id == old(self).next_id,
            if holds_id(old(self).trunks@, a) && holds_id(old(self).chippers@, b) {
                trunk_event_spec(*old(self), *final(self), a, b, intersecting, r)
            } else if holds_id(old(self).trunks@, b) && holds_id(old(self).chippers@, a) {
                trunk_event_spec(*old(self), *final(self), b, a, intersecting, r)
            } else {
                r == TrunkOutcome::Skipped && final(self).trunks@ == old(self).trunks@
            },
    {
        let (t, c) = match (find(&self.trunks, a), find(&self.chippers, b)) {
            (Some(_), Some(_)) => (a, b),
            _ => match (find(&self.trunks, b), find(&self.chippers, a)) {
                (Some(_), Some(_)) => (b, a),
                _ => {
                    return TrunkOutcome::Skipped;
                },
            },
        };
        self.trunk_event(t, c, intersecting)
    }
}

proof fn lemma_push_to_set(s: Seq<u64>, c: u64)
    ensures
        s.push(c).to_set() == s.to_set().insert(c),
{
    let t = s.push(c);
    assert forall|x: u64| t.to_set().contains(x) <==> s.to_set().insert(c).contains(x) by {
        if s.contains(x) {
            let k = choose|k: int| 0 <= k < s.len() && s[k] == x;
            assert(t[k] == x);
        }
        if x == c {
            assert(t[s.len() as int] == c);
        }
        if t.contains(x) {
            let k = choose|k: int| 0 <= k < t.len() && t[k] == x;
            if k < s.len() {
                assert(s[k] == x);
            }
        }
    }
    assert(t.to_set() =~= s.to_set().insert(c));
}

proof fn lemma_remove_to_set(s: Seq<u64>, j: int)
    requires
        0 <= j < s.len(),
        distinct(s),
    ensures
        s.remove(j).to_set() == s.to_set().remove(s[j]),
        distinct(s.remove(j)),
        s.remove(j).len() == 0 <==> s.to_set().remove(s[j]).is_empty(),
{
    let t = s.remove(j);
    let c = s[j];
    assert forall|x: u64| t.to_set().contains(x) <==> s.to_set().remove(c).contains(x) by {
        if t.contains(x) {
            let k = choose|k: int| 0 <= k < t.len() && t[k] == x;
            if k < j {
                assert(s[k] == x);
            } else {
                assert(s[k + 1] == x);
            }
        }
        if s.contains(x) && x != c {
            let k = choose|k: int| 0 <= k < s.len() && s[k] == x;
            if k < j {
                assert(t[k] == x);
            } else {
                assert(k != j);
                assert(t[k - 1] == x);
            }
        }
    }
    assert(t.to_set() =~= s.to_set().remove(c));
    assert forall|a: int, b: int| 0 <= a < t.len() && 0 <= b < t.len() && a != b implies t[a]
        != t[b] by {
        let a2 = if a < j {
            a
        } else {
            a + 1
        };
        let b2 = if b < j {
            b
        } else {
            b + 1
        };
        assert(t[a] == s[a2] && t[b] == s[b2]);
    }
    if t.len() > 0 {
        assert(t.to_set().contains(t[0]));
    } else {
        assert(t.to_set() =~= Set::empty());
    }
}

impl Level {
    /// Applies a sensor event between trunk `t` and chipper `c`.
    fn trunk_event(&mut self, t: u64, c: u64, intersecting: bool) -> (r: TrunkOutcome)
        requires
            old(self).wf(),
            holds_id(old(self).trunks@, t),
            holds_id(old(self).chippers@, c),
        ensures
            final(self).wf(),
            final(self).chippers@ == old(self).chippers@,
            final(self).woodchips@ == old(self).woodchips@,
            final(self).next_id == old(self).next_id,
            trunk_event_spec(*old(self), *final(self), t, c, intersecting, r),
    {
        let i = match find(&self.trunks, t) {
            Some(i) => i,
            None => {
                return TrunkOutcome::Skipped;
            },
        };
        let ghost before = self.trunks@;
        let ghost old_unit = before[i as int].value;
        let rec = self.trunks.remove(i);
        let spawner = rec.value.spawner;
        let (unit, r) = match rec.value.state {
            Trunk::Free => {
                if !intersecting {
                    (TrunkUnit { state: Trunk::Free, spawner }, TrunkOutcome::Skipped)
                } else {
                    let set = vec![c];
                    proof {
                        lemma_push_to_set(Seq::empty(), c);
                        assert(set@ =~= Seq::<u64>::empty().push(c));
                        assert(Seq::<u64>::empty().to_set() =~= Set::empty());
                    }
                    (
                        TrunkUnit {
                            state: Trunk::InChipper(set),
                            spawner: Some(
                                SpawnsWoodchips { duration_ms: 0, elapsed_ms: 0, finished: false },
                            ),
                        },
                        TrunkOutcome::Entered,
                    )
                }
            },
            Trunk::InChipper(mut set) => {
                let ghost s0 = set@;
                match position_of(&set, c) {
                    Some(j) => {
                        if intersecting {
                            proof {
                                assert(s0.to_set().contains(c)) by {
                                    assert(s0[j as int] == c);
                                }
                                assert(s0.to_set().insert(c) =~= s0.to_set());
                            }
                            (TrunkUnit { state: Trunk::InChipper(set), spawner }, TrunkOutcome::Joined)
                        } else {
                            set.remove(j);
                            proof {
                                lemma_remove_to_set(s0, j as int);
                                assert(s0.to_set().contains(c)) by {
                                    assert(s0[j as int] == c);
                                }
                            }
                            if set.len() == 0 {
                                proof {
                                    assert(self.trunks@ == before.remove(i as int));
                                }
                                return TrunkOutcome::Despawned(t);
                            }
                            (TrunkUnit { state: Trunk::InChipper(set), spawner }, TrunkOutcome::Left)
                        }
                    },
                    None => {
                        if intersecting {
                            set.push(c);
                            proof {
                                lemma_push_to_set(s0, c);
                                assert forall|a: int, b: int|
                                    0 <= a < set@.len() && 0 <= b < set@.len() && a != b implies set@[a]
                                    != set@[b] by {
                                    if a < s0.len() {
                                        assert(set@[a] == s0[a] && s0.contains(s0[a]));
                                    }
                                    if b < s0.len() {
                                        assert(set@[b] == s0[b] && s0.contains(s0[b]));
                                    }
                                }
                            }
                            (TrunkUnit { state: Trunk::InChipper(set), spawner }, TrunkOutcome::Joined)
                        } else {
                            (TrunkUnit { state: Trunk::InChipper(set), spawner }, TrunkOutcome::Skipped)
                        }
                    },
                }
            },
        };
        proof {
            assert(before[i as int].id == t);
        }
        self.trunks.insert(i, Record { id: t, value: unit });
        proof {
            if r == TrunkOutcome::Skipped {
                assert(unit == old_unit);
                assert(self.trunks@ =~= before);
            }
            assert(self.trunks@ =~= before.update(i as int, self.trunks@[i as int]));
            assert forall|k: int| 0 <= k < self.trunks@.len() implies #[trigger] self.trunks@[k].id
                < self.next_id by {
                assert(k == i);
            }
        }
        r
    }
}

/// Height below which a trunk that never reached a chipper is lost.
pub const LOST_TRUNK_HEIGHT: i64 = -80000;

/// Downward speed at which chippers draw in a trunk.
pub const FEED_SPEED: i64 = 10000;

/// The chipper with id `c` exists and is jammed.
pub open spec fn jammed_chipper(level: Level, c: u64) -> bool {
    holds_id(level.chippers@, c) && level.chippers@[index_of(level.chippers@, c)].value.state
        == Chipper::Jammed
}

/// The velocity chippers impose on a trunk: none on a free trunk; still while
/// any of its chippers is jammed; else a slow downward feed.
pub open spec fn feed_velocity_of(level: Level, state: Trunk) -> Option<Vec2> {
    match state {
        Trunk::Free => None,
        Trunk::InChipper(s) => if exists|k: int| 0 <= k < s@.len() && jammed_chipper(level, #[trigger] s@[k]) {
            Some(Vec2 { x: 0, y: 0 })
        } else {
            Some(Vec2 { x: 0, y: (-FEED_SPEED) as i64 })
        },
    }
}

impl Level {
    /// The linear velocity the chippers impose on trunk `trunk`, if it is in
    /// any; its spin is stopped as well.
    pub fn trunk_feed_velocity(&self, trunk: u64) -> (r: Option<Vec2>)
        requires
            self.wf(),
        ensures
            !holds_id(self.trunks@, trunk) ==> r is None,
            holds_id(self.trunks@, trunk) ==> r == feed_velocity_of(
                *self,
                self.trunks@[index_of(self.trunks@, trunk)].value.state,
            ),
    {
        let i = match find(&self.trunks, trunk) {
            Some(i) => i,
            None => {
                return None;
            },
        };
        match &self.trunks[i].value.state {
            Trunk::Free => None,
            Trunk::InChipper(set) => {
                let mut k: usize = 0;
                while k < set.len()
                    invariant
                        self.wf(),
                        k <= set@.len(),
                        holds_id(self.trunks@, trunk),
                        i == index_of(self.trunks@, trunk),
                        self.trunks@[i as int].value.state == Trunk::InChipper(*set),
                        forall|m: int| 0 <= m < k ==> !jammed_chipper(*self, #[trigger] set@[m]),
                    decreases set.len() - k,
                {
                    match find(&self.chippers, set[k]) {
                        Some(ci) => {
                            if self.chippers[ci].value.state == Chipper::Jammed {
                                assert(jammed_chipper(*self, set@[k as int]));
                                return Some(Vec2 { x: 0, y: 0 });
                            }
                        },
                        None => {},
                    }
                    k = k + 1;
                }
                Some(Vec2 { x: 0, y: -FEED_SPEED })
            },
        }
    }

    /// Despawns trunk `trunk` if it is still falling free and has dropped
    /// below `LOST_TRUNK_HEIGHT`; `y` is its height.
    pub fn drop_lost_trunk(&mut self, trunk: u64, y: i64) -> (r: bool)
        requires
            old(self).wf(),
        ensures
            final(self).wf(),
            r == (holds_id(old(self).trunks@, trunk) && old(self).trunks@[index_of(
                old(self).trunks@,
                trunk,
            )].value.state is Free && y < LOST_TRUNK_HEIGHT),
            r ==> final(self).trunks@ == old(self).trunks@.remove(index_of(old(self).trunks@, trunk)),
            !r ==> final(self).trunks@ == old(self).trunks@,
            final(self).chippers@ == old(self).chippers@,
            final(self).woodchips@ == old(self).woodchips@,
            final(self).next_id == old(self).next_id,
    {
        let i = match find(&self.trunks, trunk) {
            Some(i) => i,
            None => {
                return false;
            },
        };
        let free = match &self.trunks[i].value.state {
            Trunk::Free => true,
            Trunk::InChipper(_) => false,
        };
        if free && y < LOST_TRUNK_HEIGHT {
            self.trunks.remove(i);
            true
        } else {
            false
        }
    }

}

/// The effect a chipper should show: smoke while jammed, flying chips while a
/// trunk is in it, else none.
pub open spec fn target_effect(trunks: Seq<Record<TrunkUnit>>, c: Record<ChipperUnit>) -> ChipperEffect {
    if c.value.state == Chipper::Jammed {
        ChipperEffect::Smoking
    } else if exists|k: int| 0 <= k < trunks.len() && chipper_set(#[trigger] trunks[k].value.state).contains(c.id) {
        ChipperEffect::ChippingWood
    } else {
        ChipperEffect::NoEffect
    }
}

/// The chippers whose effect must change, in order, with the new effect.
pub open spec fn effect_changes(trunks: Seq<Record<TrunkUnit>>, s: Seq<Record<ChipperUnit>>) -> Seq<(u64, ChipperEffect)>
    decreases s.len(),
{
    if s.len() == 0 {
        Seq::empty()
    } else {
        let prev = effect_changes(trunks, s.drop_last());
        let t = target_effect(trunks, s.last());
        if t != s.last().value.effect {
            prev.push((s.last().id, t))
        } else {
            prev
        }
    }
}

impl Level {
    /// Whether the player (`player`, alive while `*alive`) dies now by
    /// touching a chipper; `a` and `b` are the entities of an intersection
    /// event, in either order. A death clears `*alive`.
    pub fn player_meets_chipper(&self, a: u64, b: u64, intersecting: bool, player: u64, alive: &mut bool) -> (r: bool)
        requires
            self.wf(),
        ensures
            r == (*old(alive) && intersecting && ((a == player && holds_id(self.chippers@, b)) || (b
                == player && holds_id(self.chippers@, a)))),
            *final(alive) == (*old(alive) && !r),
    {
        if !intersecting || !*alive {
            return false;
        }
        let hit = (a == player && find(&self.chippers, b).is_some()) || (b == player && find(
            &self.chippers,
            a,
        ).is_some());
        if hit {
            *alive = false;
        }
        hit
    }

    /// Whether some trunk is in chipper `c`.
    fn chipper_in_use(&self, c: u64) -> (r: bool)
        ensures
            r == exists|k: int| 0 <= k < self.trunks@.len() && chipper_set(#[trigger] self.trunks@[k].value.state).contains(c),
    {
        let mut k: usize = 0;
        while k < self.trunks.len()
            invariant
                k <= self.trunks@.len(),
                forall|m: int| 0 <= m < k ==> !chipper_set(#[trigger] self.trunks@[m].value.state).contains(c),
            decreases self.trunks.len() - k,
        {
            match &self.trunks[k].value.state {
                Trunk::Free => {},
                Trunk::InChipper(set) => {
                    match position_of(set, c) {
                        Some(j) => {
                            assert(set@.to_set().contains(c)) by {
                                assert(set@[j as int] == c);
                            }
                            return true;
                        },
                        None => {},
                    }
                },
            }
            k = k + 1;
        }
        false
    }

    /// Sets each chipper's effect to the one it should show and returns the
    /// chippers whose effect changed, with their new effect.
    pub fn update_chipper_effects(&mut self) -> (r: Vec<(u64, ChipperEffect)>)
        requires
            old(self).wf(),
        ensures
            final(self).wf(),
            final(self).chippers@.len() == old(self).chippers@.len(),
            forall|i: int|
                0 <= i < old(self).chippers@.len() ==> #[trigger] final(self).chippers@[i] == (Record {
                    id: old(self).chippers@[i].id,
                    value: ChipperUnit {
                        state: old(self).chippers@[i].value.state,
                        effect: target_effect(old(self).trunks@, old(self).chippers@[i]),
                    },
                }),
            r@ == effect_changes(old(self).trunks@, old(self).chippers@),
            final(self).trunks@ == old(self).trunks@,
            final(self).woodchips@ == old(self).woodchips@,
            final(self).next_id == old(self).next_id,
    {
        let ghost start = self.chippers@;
        let mut changes: Vec<(u64, ChipperEffect)> = Vec::new();
        let mut i: usize = 0;
        while i < self.chippers.len()
            invariant
                self.chippers@.len() == start.len(),
                i <= start.len(),
                self.trunks@ == old(self).trunks@,
                self.woodchips@ == old(self).woodchips@,
                self.next_id == old(self).next_id,
                start == old(self).chippers@,
                old(self).wf(),
                forall|m: int| i <= m < start.len() ==> #[trigger] self.chippers@[m] == start[m],
                forall|m: int|
                    0 <= m < i ==> #[trigger] self.chippers@[m] == (Record {
                        id: start[m].id,
                        value: ChipperUnit {
                            state: start[m].value.state,
                            effect: target_effect(self.trunks@, start[m]),
                        },
                    }),
                changes@ == effect_changes(self.trunks@, start.take(i as int)),
            decreases start.len() - i,
        {
            let rec = Record { id: self.chippers[i].id, value: self.chippers[i].value };
            let target = if rec.value.state == Chipper::Jammed {
                ChipperEffect::Smoking
            } else if self.chipper_in_use(rec.id) {
                ChipperEffect::ChippingWood
            } else {
                ChipperEffect::NoEffect
            };
            assert(start.take(i + 1).drop_last() =~= start.take(i as int));
            assert(start.take(i + 1).last() == start[i as int]);
            if target != rec.value.effect {
                changes.push((rec.id, target));
            }
            self.chippers.set(
                i,
                Record { id: rec.id, value: ChipperUnit { state: rec.value.state, effect: target } },
            );
            i = i + 1;
        }
        assert(start.take(start.len() as int) =~= start);
        proof {
            assert forall|a: int| 0 <= a < self.chippers@.len() implies #[trigger] self.chippers@[a].id < self.next_id by {
                assert(self.chippers@[a].id == start[a].id);
            }
            assert forall|a: int, b: int| 0 <= a < self.chippers@.len() && 0 <= b < self.chippers@.len() && a != b implies #[trigger] self.chippers@[a].id != #[trigger] self.chippers@[b].id by {
                assert(self.chippers@[a].id == start[a].id);
                assert(self.chippers@[b].id == start[b].id);
            }
        }
        changes
    }
}

/// In every well-formed level (and every operation of `Level` keeps it so)
/// at most one trunk exists, and asking for a trunk while one exists spawns
/// none.
pub proof fn lemma_single_trunk(level: Level)
    requires
        level.wf(),
    ensures
        level.trunks@.len() <= 1,
        forall|i: int, j: int|
            0 <= i < level.trunks@.len() && 0 <= j < level.trunks@.len()
                && (#[trigger] level.trunks@[i]).value.state.is_free()
                && (#[trigger] level.trunks@[j]).value.state.is_free() ==> i == j,
{
}

/// In every well-formed level no trunk lingers in chippers with an empty
/// occupant set: the event that empties it despawns the trunk.
pub proof fn lemma_trunk_never_lingers(level: Level, after: Level, t: u64, c: u64, r: TrunkOutcome)
    requires
        level.wf(),
        trunk_event_spec(level, after, t, c, false, r),
        chipper_set(level.trunks@[index_of(level.trunks@, t)].value.state) =~= set![c],
    ensures
        forall|i: int|
            0 <= i < level.trunks@.len() ==> !(#[trigger] level.trunks@[i].value.state matches Trunk::InChipper(s) && s@.len() == 0),
        r == TrunkOutcome::Despawned(t),
        after.trunks@ == level.trunks@.remove(index_of(level.trunks@, t)),
{
    assert(set![c].remove(c) =~= Set::<u64>::empty());
    assert forall|i: int| 0 <= i < level.trunks@.len() implies !(#[trigger] level.trunks@[i].value.state matches Trunk::InChipper(s) && s@.len() == 0) by {
        assert(level.trunks@[i].value.wf());
    }
}

/// The chippers a trunk is in, as a set.
pub open spec fn chipper_set(t: Trunk) -> Set<u64> {
    match t {
        Trunk::Free => Set::empty(),
        Trunk::InChipper(s) => s@.to_set(),
    }
}

/// What a trunk / chipper event between trunk `t` and chipper `c` does.
pub open spec fn trunk_event_spec(
    before: Level,
    after: Level,
    t: u64,
    c: u64,
    intersecting: bool,
    r: TrunkOutcome,
) -> bool {
    &&& holds_id(before.trunks@, t)
    &&& holds_id(before.chippers@, c)
    &&& {
        let i = index_of(before.trunks@, t);
        let old_unit = before.trunks@[i].value;
        if intersecting {
            &&& after.trunks@.len() == before.trunks@.len()
            &&& after.trunks@[i].id == t
            &&& after.trunks@[i].value.state is InChipper
            &&& chipper_set(after.trunks@[i].value.state) == chipper_set(old_unit.state).insert(c)
            &&& if old_unit.state is Free {
                r == TrunkOutcome::Entered && after.trunks@[i].value.spawner == Some(armed_spawner())
            } else {
                r == TrunkOutcome::Joined && after.trunks@[i].value.spawner == old_unit.spawner
            }
        } else if chipper_set(old_unit.state).contains(c) {
            if chipper_set(old_unit.state).remove(c).is_empty() {
                r == TrunkOutcome::Despawned(t) && after.trunks@ == before.trunks@.remove(i)
            } else {
                &&& r == TrunkOutcome::Left
                &&& after.trunks@.len() == before.trunks@.len()
                &&& after.trunks@[i].id == t
                &&& after.trunks@[i].value.state is InChipper
                &&& chipper_set(after.trunks@[i].value.state) == chipper_set(old_unit.state).remove(c)
                &&& after.trunks@[i].value.spawner == old_unit.spawner
            }
        } else {
            r == TrunkOutcome::Skipped && after.trunks@ == before.trunks@
        }
    }
}

} // verus!
