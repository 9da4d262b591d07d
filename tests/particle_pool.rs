use jamming_chipper::effects::{BindOutcome, EffectPool, Emitter, EmitterAction, ParticleEffectType};
use jamming_chipper::level::Record;

fn target(id: u64, ty: ParticleEffectType) -> Record<ParticleEffectType> {
    Record { id, value: ty }
}

#[test]
fn emitters_are_bound_reused_and_released() {
    let mut pool = EffectPool::new();
    assert_eq!(pool.bind(10, ParticleEffectType::Smoke), BindOutcome::Allocated(0));
    assert_eq!(pool.bind(10, ParticleEffectType::Smoke), BindOutcome::AlreadyBound(0));
    assert_eq!(pool.bind(11, ParticleEffectType::Blood), BindOutcome::Allocated(1));

    // entity 10 now asks for flying chips; entity 11 is gone
    let targets = vec![target(10, ParticleEffectType::ChippingWood)];
    assert_eq!(pool.bind(10, ParticleEffectType::ChippingWood), BindOutcome::Allocated(2));
    let actions = pool.follow_targets(&targets);
    assert_eq!(
        actions,
        vec![
            EmitterAction { emitter: 0, follow: None },
            EmitterAction { emitter: 1, follow: None },
            EmitterAction { emitter: 2, follow: Some(10) },
        ]
    );
    assert_eq!(
        pool.emitters[0].value,
        Emitter { effect_type: ParticleEffectType::Smoke, target: None, active: false }
    );

    // an idle emitter of the right kind is claimed before a new one is made
    assert_eq!(pool.bind(12, ParticleEffectType::Blood), BindOutcome::Claimed(1));
    assert_eq!(
        pool.emitters[1].value,
        Emitter { effect_type: ParticleEffectType::Blood, target: Some(12), active: true }
    );
    assert_eq!(pool.emitters.len(), 3);
}

#[test]
fn stop_all_keeps_bindings() {
    let mut pool = EffectPool::new();
    pool.bind(1, ParticleEffectType::Smoke);
    pool.bind(2, ParticleEffectType::Blood);
    pool.stop_all();
    assert!(pool.emitters.iter().all(|e| !e.value.active));
    assert_eq!(pool.emitters[1].value.target, Some(2));
}

#[test]
fn binding_without_ids_left() {
    let mut pool = EffectPool::new();
    pool.next_id = u64::MAX;
    assert_eq!(pool.bind(1, ParticleEffectType::Smoke), BindOutcome::Exhausted);
    assert!(pool.emitters.is_empty());
}
