use pulsive::actor::{ActorId, Command, Context};
use pulsive::effect::{Effect, ModifyOp};
use pulsive::entity::EntityRef;
use pulsive::expr::Expr;
use pulsive::identity::{DefId, EntityId};
use pulsive::msg::{Msg, MsgKind};
use pulsive::rng::GameRng;
use pulsive::time::{Clock, Speed, Timestamp};
use pulsive::value::Value;
use pulsive::write_set::WriteSetResult;

#[test]
fn test_actor_id() {
    let system = ActorId::system();
    assert!(system.is_system());
    assert_eq!(system.to_text(), "actor:system");

    let actor = ActorId::new(1);
    assert!(!actor.is_system());
    assert_eq!(actor.to_text(), "actor:1");
}

#[test]
fn test_command() {
    let cmd = Command::new(ActorId::new(1), "build_unit", EntityRef::Entity(EntityId::new(100)))
        .with_param("unit_type", Value::String("infantry".to_string()))
        .with_param("count", Value::Int(5))
        .at_tick(42);

    assert_eq!(cmd.actor_id, ActorId::new(1));
    assert_eq!(cmd.action.as_str(), "build_unit");
    assert_eq!(cmd.tick, 42);
}

#[test]
fn test_context() {
    let mut ctx = Context::new(ActorId::new(1));
    let entity = EntityId::new(100);

    assert!(!ctx.controls(entity));
    ctx.add_controlled_entity(entity);
    assert!(ctx.controls(entity));
}

#[test]
fn test_effect_builders() {
    let effect = Effect::set("gold", Expr::lit(Value::Float(100.0f64.to_bits())));
    assert!(matches!(effect, Effect::SetProperty { .. }));

    let effect = Effect::add("gold", Expr::lit(Value::Float(50.0f64.to_bits())));
    assert!(matches!(effect, Effect::ModifyProperty { op: ModifyOp::Add, .. }));

    let effect = Effect::flag("at_war");
    assert!(matches!(effect, Effect::AddFlag(_)));
}

#[test]
fn test_entity_id() {
    let id = EntityId::new(42);
    assert_eq!(id.raw(), 42);
    assert_eq!(id.to_text(), "entity:42");
}

#[test]
fn test_def_id() {
    let id = DefId::new("gold");
    assert_eq!(id.as_str(), "gold");
    assert_eq!(id.to_text(), "gold");
}

#[test]
fn test_msg_tick() {
    let msg = Msg::tick(42);
    assert_eq!(msg.kind, MsgKind::Tick);
    assert_eq!(msg.tick, 42);
}

#[test]
fn test_msg_event() {
    let msg = Msg::event("peasant_uprising", EntityRef::Global, 10).with_param("severity", Value::Int(5));

    assert_eq!(msg.kind, MsgKind::Event);
    assert_eq!(msg.event_id, Some(DefId::new("peasant_uprising")));
    assert!(msg.params.contains_key("severity"));
}

#[test]
fn test_determinism() {
    let mut rng1 = GameRng::new(42);
    let mut rng2 = GameRng::new(42);

    for _ in 0..100 {
        assert_eq!(rng1.next_u64(), rng2.next_u64());
    }
}

#[test]
fn test_range() {
    let mut rng = GameRng::new(42);
    for _ in 0..100 {
        let i = rng.range_i64(10, 20);
        assert!(i >= 10 && i <= 20);
    }
}

#[test]
fn test_shuffle() {
    let mut rng = GameRng::new(42);
    let items = vec![1, 2, 3, 4, 5, 6, 7, 8, 9, 10];
    let mut shuffled = items.clone();
    rng.shuffle(&mut shuffled);

    let mut sorted = shuffled.clone();
    sorted.sort();
    assert_eq!(sorted, items);

    assert_ne!(shuffled, items);
}

#[test]
fn test_clock() {
    let mut clock = Clock::with_start_date(2000, 1, 1);
    assert_eq!(clock.tick, 0);
    assert_eq!(clock.current_date().to_text(), "2000-01-01");

    clock.advance();
    assert_eq!(clock.tick, 1);
    assert_eq!(clock.current_date().to_text(), "2000-01-02");
}

#[test]
fn test_timestamp_add_days() {
    let date = Timestamp::new(2000, 1, 1);
    assert_eq!(date.add_days(30).to_text(), "2000-01-31");
    assert_eq!(date.add_days(366).to_text(), "2001-01-01");
}

#[test]
fn test_speed() {
    assert!(Speed::Paused.is_paused());
    assert!(!Speed::Normal.is_paused());
    assert_eq!(Speed::Normal.tick_interval_ms(), Some(500));
    assert_eq!(Speed::Paused.tick_interval_ms(), None);
}

#[test]
fn test_write_set_result_merge() {
    let mut result1 = WriteSetResult::new();
    result1.spawned.push(EntityId(1));

    let mut result2 = WriteSetResult::new();
    result2.spawned.push(EntityId(2));
    result2.destroyed.push(EntityId(3));

    result1.merge(result2);
    assert_eq!(result1.spawned.len(), 2);
    assert_eq!(result1.destroyed.len(), 1);
}

#[test]
fn shuffle_swaps_from_the_last_position_down() {
    let mut rng = GameRng::new(7);
    let mut v = vec![10, 20, 30];
    rng.shuffle(&mut v);
    let mut g = GameRng::new(7);
    let mut expected = vec![10, 20, 30];
    let mut i = 2;
    while i > 0 {
        let j = (g.next_u64() as usize) % (i + 1);
        expected.swap(i, j);
        i -= 1;
    }
    assert_eq!(v, expected);
    assert_eq!(rng.state(), g.state());
}
