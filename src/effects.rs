//! The particle-effect pool: entities ask for a kind of effect, and reusable
//! emitters are bound to them, follow them, and are released for reuse.
use vstd::prelude::*;

use crate::level::{find, holds_id, ids_ok, index_of, Record};

verus! {

/// A kind of particle effect.
#[derive(Clone, Copy, Debug, PartialEq, Eq, Structural, Hash)]
pub enum ParticleEffectType {
    ChippingWood,
    Smoke,
    Blood,
}

/// A reusable emitter: its kind, the entity it is bound to, and whether it
/// emits.
#[derive(Clone, Copy, Debug, PartialEq, Eq, Structural)]
pub struct Emitter {
    pub effect_type: ParticleEffectType,
    pub target: Option<u64>,
    pub active: bool,
}

/// All emitters, keyed by id.
#[derive(Debug)]
pub struct EffectPool {
    pub emitters: Vec<Record<Emitter>>,
    pub next_id: u64,
}

/// The outcome of asking for an effect on an entity.
#[derive(Clone, Copy, Debug, PartialEq, Eq, Structural)]
pub enum BindOutcome {
    /// An emitter of that kind is already bound to the entity.
    AlreadyBound(u64),
    /// An idle emitter of that kind was reactivated and bound.
    Claimed(u64),
    /// A new emitter was made and bound.
    Allocated(u64),
    /// No emitter is bound to it and no id is left for a new one.
    Exhausted,
}

/// What happened to a bound emitter this frame.
#[derive(Clone, Copy, Debug, PartialEq, Eq, Structural)]
pub struct EmitterAction {
    pub emitter: u64,
    /// The entity it moves to, or `None` when it was released.
    pub follow: Option<u64>,
}

/// Emitter `e` is bound to `target` with kind `ty`.
pub open spec fn bound_to(e: Emitter, target: u64, ty: ParticleEffectType) -> bool {
    e.target == Some(target) && e.effect_type == ty
}

/// Emitter `e` is idle and of kind `ty`.
pub open spec fn idle_of(e: Emitter, ty: ParticleEffectType) -> bool {
    e.target is None && e.effect_type == ty
}

/// Whether a bound emitter keeps its entity: the entity still exists and
/// still asks for the emitter's kind.
pub open spec fn keeps_target(targets: Seq<Record<ParticleEffectType>>, e: Emitter) -> bool {
    e.target matches Some(t) && holds_id(targets, t) && targets[index_of(targets, t)].value
        == e.effect_type
}

/// An emitter after a frame of following: released and stopped if it lost
/// its entity, else unchanged.
pub open spec fn followed(targets: Seq<Record<ParticleEffectType>>, e: Emitter) -> Emitter {
    if e.target is Some && !keeps_target(targets, e) {
        Emitter { target: None, active: false, ..e }
    } else {
        e
    }
}

/// The actions of a frame of following, one per bound emitter, in order.
pub open spec fn follow_actions(
    targets: Seq<Record<ParticleEffectType>>,
    s: Seq<Record<Emitter>>,
) -> Seq<EmitterAction>
    decreases s.len(),
{
    if s.len() == 0 {
        Seq::empty()
    } else {
        let prev = follow_actions(targets, s.drop_last());
        let e = s.last();
        match e.value.target {
            None => prev,
            Some(t) => prev.push(
                EmitterAction {
                    emitter: e.id,
                    follow: if keeps_target(targets, e.value) {
                        Some(t)
                    } else {
                        None
                    },
                },
            ),
        }
    }
}

impl EffectPool {
    pub open spec fn wf(&self) -> bool {
        ids_ok(self.emitters@, self.next_id)
    }

    /// A pool with no emitter.
    pub fn new() -> (r: EffectPool)
        ensures
            r.wf(),
            r.emitters@.len() == 0,
    {
        EffectPool { emitters: Vec::new(), next_id: 0 }
    }

    /// Binds an emitter of kind `ty` to entity `target`: none if one already
    /// is; else the first idle emitter of that kind, reactivated; else a new
    /// one.
    pub fn bind(&mut self, target: u64, ty: ParticleEffectType) -> (r: BindOutcome)
        requires
            old(self).wf(),
        ensures
            final(self).wf(),
            (exists|i: int| 0 <= i < old(self).emitters@.len() && bound_to(#[trigger] old(self).emitters@[i].value, target, ty))
                ==> r is AlreadyBound && final(self).emitters@ == old(self).emitters@,
            r matches BindOutcome::AlreadyBound(e) ==> exists|i: int| 0 <= i < old(self).emitters@.len()
                && old(self).emitters@[i].id == e && bound_to(#[trigger] old(self).emitters@[i].value, target, ty),
            r matches BindOutcome::Claimed(e) ==> exists|i: int| {
                &&& 0 <= i < old(self).emitters@.len()
                &&& old(self).emitters@[i].id == e
                &&& idle_of(#[trigger] old(self).emitters@[i].value, ty)
                &&& forall|j: int| 0 <= j < i ==> !idle_of(#[trigger] old(self).emitters@[j].value, ty)
                &&& final(self).emitters@ == old(self).emitters@.update(
                    i,
                    Record { id: e, value: Emitter { effect_type: ty, target: Some(target), active: true } },
                )
            },
            r is Allocated || r is Exhausted ==> forall|j: int|
                0 <= j < old(self).emitters@.len() ==> !idle_of(#[trigger] old(self).emitters@[j].value, ty),
            r matches BindOutcome::Allocated(e) ==> e == old(self).next_id && final(self).emitters@
                == old(self).emitters@.push(
                Record { id: e, value: Emitter { effect_type: ty, target: Some(target), active: true } },
            ) && final(self).next_id == old(self).next_id + 1,
            r is Exhausted ==> old(self).next_id == u64::MAX && final(self).emitters@ == old(self).emitters@,
            !(exists|i: int| 0 <= i < old(self).emitters@.len() && bound_to(#[trigger] old(self).emitters@[i].value, target, ty))
                ==> !(r is AlreadyBound),
    {
        let mut i: usize = 0;
        let mut idle: Option<usize> = None;
        while i < self.emitters.len()
            invariant
                i <= self.emitters@.len(),
                self.emitters@ == old(self).emitters@,
                self.next_id == old(self).next_id,
                old(self).wf(),
                forall|j: int| 0 <= j < i ==> !bound_to(#[trigger] self.emitters@[j].value, target, ty),
                idle matches Some(k) ==> k < i && idle_of(self.emitters@[k as int].value, ty) && forall|j: int|
                    0 <= j < k ==> !idle_of(#[trigger] self.emitters@[j].value, ty),
                idle is None ==> forall|j: int| 0 <= j < i ==> !idle_of(#[trigger] self.emitters@[j].value, ty),
            decreases self.emitters.len() - i,
        {
            let e = self.emitters[i].value;
            if e.target == Some(target) && e.effect_type == ty {
                return BindOutcome::AlreadyBound(self.emitters[i].id);
            }
            if idle.is_none() && e.target.is_none() && e.effect_type == ty {
                idle = Some(i);
            }
            i = i + 1;
        }
        match idle {
            Some(k) => {
                let id = self.emitters[k].id;
                self.emitters.set(
                    k,
                    Record { id, value: Emitter { effect_type: ty, target: Some(target), active: true } },
                );
                proof {
                    let s = self.emitters@;
                    assert forall|a: int| 0 <= a < s.len() implies #[trigger] s[a].id < self.next_id by {
                        if a != k {
                            assert(s[a] == old(self).emitters@[a]);
                        }
                    }
                    assert forall|a: int, b: int| 0 <= a < s.len() && 0 <= b < s.len() && a != b implies #[trigger] s[a].id != #[trigger] s[b].id by {
                        assert(s[a].id == old(self).emitters@[a].id);
                        assert(s[b].id == old(self).emitters@[b].id);
                    }
                }
                BindOutcome::Claimed(id)
            },
            None => {
                if self.next_id == u64::MAX {
                    return BindOutcome::Exhausted;
                }
                let id = self.next_id;
                self.emitters.push(
                    Record { id, value: Emitter { effect_type: ty, target: Some(target), active: true } },
                );
                self.next_id = id + 1;
                proof {
                    let s = self.emitters@;
                    let n = old(self).emitters@.len() as int;
                    assert forall|a: int| 0 <= a < s.len() implies #[trigger] s[a].id < self.next_id by {
                        if a < n {
                            assert(s[a] == old(self).emitters@[a]);
                        }
                    }
                    assert forall|a: int, b: int| 0 <= a < s.len() && 0 <= b < s.len() && a != b implies #[trigger] s[a].id != #[trigger] s[b].id by {
                        if a < n {
                            assert(s[a] == old(self).emitters@[a]);
                        }
                        if b < n {
                            assert(s[b] == old(self).emitters@[b]);
                        }
                    }
                }
                BindOutcome::Allocated(id)
            },
        }
    }

    /// Runs a frame of following against the entities that ask for effects
    /// (`targets`, keyed by entity id): each bound emitter whose entity is gone
    /// or asks for another kind is stopped and released; the others follow
    /// their entity. Returns one action per bound emitter.
    pub fn follow_targets(&mut self, targets: &Vec<Record<ParticleEffectType>>) -> (r: Vec<EmitterAction>)
        requires
            old(self).wf(),
            ids_ok(targets@, u64::MAX),
        ensures
            final(self).wf(),
            final(self).emitters@.len() == old(self).emitters@.len(),
            forall|i: int|
                0 <= i < old(self).emitters@.len() ==> #[trigger] final(self).emitters@[i] == (Record {
                    id: old(self).emitters@[i].id,
                    value: followed(targets@, old(self).emitters@[i].value),
                }),
            r@ == follow_actions(targets@, old(self).emitters@),
    {
        let ghost start = self.emitters@;
        let mut actions: Vec<EmitterAction> = Vec::new();
        let mut i: usize = 0;
        while i < self.emitters.len()
            invariant
                self.emitters@.len() == start.len(),
                i <= start.len(),
                start == old(self).emitters@,
                self.next_id == old(self).next_id,
                old(self).wf(),
                ids_ok(targets@, u64::MAX),
                forall|m: int| i <= m < start.len() ==> #[trigger] self.emitters@[m] == start[m],
                forall|m: int|
                    0 <= m < i ==> #[trigger] self.emitters@[m] == (Record {
                        id: start[m].id,
                        value: followed(targets@, start[m].value),
                    }),
                actions@ == follow_actions(targets@, start.take(i as int)),
            decreases start.len() - i,
        {
            let id = self.emitters[i].id;
            let e = self.emitters[i].value;
            assert(start.take(i + 1).drop_last() =~= start.take(i as int));
            assert(start.take(i + 1).last() == start[i as int]);
            match e.target {
                None => {},
                Some(t) => {
                    let keep = match find(targets, t) {
                        Some(k) => targets[k].value == e.effect_type,
                        None => false,
                    };
                    if keep {
                        actions.push(EmitterAction { emitter: id, follow: Some(t) });
                    } else {
                        self.emitters.set(
                            i,
                            Record { id, value: Emitter { target: None, active: false, ..e } },
                        );
                        actions.push(EmitterAction { emitter: id, follow: None });
                    }
                },
            }
            i = i + 1;
        }
        assert(start.take(start.len() as int) =~= start);
        proof {
            let s = self.emitters@;
            assert forall|a: int| 0 <= a < s.len() implies #[trigger] s[a].id < self.next_id by {
                assert(s[a].id == start[a].id);
            }
            assert forall|a: int, b: int| 0 <= a < s.len() && 0 <= b < s.len() && a != b implies #[trigger] s[a].id != #[trigger] s[b].id by {
                assert(s[a].id == start[a].id);
                assert(s[b].id == start[b].id);
            }
        }
        actions
    }

    /// Stops every emitter, keeping its binding (clearing effects before a
    /// level reload).
    pub fn stop_all(&mut self)
        requires
            old(self).wf(),
        ensures
            final(self).wf(),
            final(self).emitters@.len() == old(self).emitters@.len(),
            forall|i: int|
                0 <= i < old(self).emitters@.len() ==> #[trigger] final(self).emitters@[i] == (Record {
                    id: old(self).emitters@[i].id,
                    value: Emitter { active: false, ..old(self).emitters@[i].value },
                }),
    {
        let ghost start = self.emitters@;
        let mut i: usize = 0;
        while i < self.emitters.len()
            invariant
                self.emitters@.len() == start.len(),
                i <= start.len(),
                start == old(self).emitters@,
                self.next_id == old(self).next_id,
                old(self).wf(),
                forall|m: int| i <= m < start.len() ==> #[trigger] self.emitters@[m] == start[m],
                forall|m: int|
                    0 <= m < i ==> #[trigger] self.emitters@[m] == (Record {
                        id: start[m].id,
                        value: Emitter { active: false, ..start[m].value },
                    }),
            decreases start.len() - i,
        {
            let id = self.emitters[i].id;
            let e = self.emitters[i].value;
            self.emitters.set(i, Record { id, value: Emitter { active: false, ..e } });
            i = i + 1;
        }
        proof {
            let s = self.emitters@;
            assert forall|a: int| 0 <= a < s.len() implies #[trigger] s[a].id < self.next_id by {
                assert(s[a].id == start[a].id);
            }
            assert forall|a: int, b: int| 0 <= a < s.len() && 0 <= b < s.len() && a != b implies #[trigger] s[a].id != #[trigger] s[b].id by {
                assert(s[a].id == start[a].id);
                assert(s[b].id == start[b].id);
            }
        }
    }
}

} // verus!
