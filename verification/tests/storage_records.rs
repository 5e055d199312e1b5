use pulsive::entity::Entity;
use pulsive::identity::{DefId, EntityId};
use pulsive::model::Model;
use pulsive::rng::GameRng;
use pulsive::storage::{assemble_model, speed_code, speed_from_code, ClockRecord};
use pulsive::time::{Clock, Speed};
use pulsive::value::{Value, ValueMap};

#[test]
fn speeds_are_stored_as_codes() {
    let speeds = [Speed::Paused, Speed::VerySlow, Speed::Slow, Speed::Normal, Speed::Fast, Speed::VeryFast];
    for (i, s) in speeds.iter().enumerate() {
        assert_eq!(speed_code(*s), i as u8);
        assert_eq!(speed_from_code(i as u8), *s);
    }
    assert_eq!(speed_from_code(9), Speed::VeryFast);
}

#[test]
fn a_stored_clock_gives_back_the_clock() {
    let mut clock = Clock::with_start_date(1444, 11, 11);
    clock.tick = 77;
    clock.speed = Speed::Fast;
    clock.ticks_per_day = 4;
    let record = ClockRecord::from_clock(&clock);
    assert_eq!(record.speed, 4);
    assert_eq!(record.start_year, 1444);
    let back = record.to_clock();
    assert_eq!(back.tick, clock.tick);
    assert_eq!(back.speed, clock.speed);
    assert_eq!(back.ticks_per_day, clock.ticks_per_day);
    assert_eq!(back.start_date, clock.start_date);
}

#[test]
fn assembled_models_renumber_entities_from_zero() {
    let mut a = Entity::new(EntityId(41), "nation");
    a.set("gold", Value::Int(5));
    a.add_flag(DefId::new("at_war"));
    let b = Entity::new(EntityId(7), "province");
    let mut globals = ValueMap::new();
    globals.insert("year".to_string(), Value::Int(1444));
    let mut clock = Clock::new();
    clock.tick = 12;

    let model: Model = assemble_model(vec![a, b], globals, Some(clock), Some(99));
    assert_eq!(model.entities.len(), 2);
    let first = model.entities.get(EntityId(0)).unwrap();
    assert_eq!(first.kind.as_str(), "nation");
    assert_eq!(first.get("gold").and_then(|v| v.as_int()), Some(5));
    assert!(first.has_flag(&DefId::new("at_war")));
    assert_eq!(model.entities.get(EntityId(1)).unwrap().kind.as_str(), "province");
    assert!(model.entities.get(EntityId(41)).is_none());
    assert_eq!(model.get_global("year").and_then(|v| v.as_int()), Some(1444));
    assert_eq!(model.current_tick(), 12);
    assert_eq!(model.rng().state(), GameRng::from_state(99).state());

    let empty = assemble_model(Vec::new(), ValueMap::new(), None, None);
    assert_eq!(empty.current_tick(), 0);
    assert_eq!(empty.rng().state(), 12345);
}

#[test]
fn model_parts_can_be_changed_in_place() {
    let mut model = Model::new();
    let id = model.entities_mut().create("unit");
    model.globals_mut().insert("x".to_string(), Value::Int(3));
    model.add_actor(pulsive::actor::Context::new(pulsive::actor::ActorId(2)));
    if let Some(ctx) = model.get_actor_mut(pulsive::actor::ActorId(2)) {
        ctx.ready = true;
    }
    assert!(model.get_actor(pulsive::actor::ActorId(2)).unwrap().ready);
    assert!(model.get_actor_mut(pulsive::actor::ActorId(9)).is_none());
    {
        let (entities, globals, rng) = model.eval_refs();
        assert!(entities.get(id).is_some());
        assert_eq!(globals.get("x").and_then(|v| v.as_int()), Some(3));
        rng.next_u64();
    }
    assert_ne!(model.rng().state(), 12345);
    let rebuilt = Model::from_snapshot_data(
        model.entities.duplicate(),
        model.globals.duplicate(),
        model.time,
        GameRng::from_state(7),
        Vec::new(),
    );
    assert_eq!(rebuilt.entities.len(), 1);
    assert_eq!(rebuilt.rng().state(), 7);
}
