use pulsive::evaluate::{evaluate_expr, NumOp, Number};
use pulsive::collect::Evaluated;
use pulsive::config::{max_cores, HubConfig, DEFAULT_GLOBAL_SEED};
use pulsive::cores::{CoreId, GroupId};
use pulsive::effect::{Effect, ModifyOp};
use pulsive::expr::Expr;
use pulsive::group::CoreGroup;
use pulsive::hub::Hub;
use pulsive::hub_core::Core;
use pulsive::hub_error::Error;
use pulsive::identity::{DefId, EntityId};
use pulsive::model::Model;
use pulsive::rng::GameRng;
use pulsive::runtime::TickHandler;
use pulsive::snapshot::ModelSnapshot;
use pulsive::tick_sync::TickSyncGroup;
use pulsive::value::{Value, ValueMap};

fn num(x: f64) -> Value {
    Value::Float(x.to_bits())
}

fn number_of(v: &Value) -> Option<f64> {
    match v {
        Value::Float(b) => Some(f64::from_bits(*b)),
        Value::Int(i) => Some(*i as f64),
        _ => None,
    }
}

fn as_f(n: Number) -> f64 {
    match n {
        Number::Int(i) => i as f64,
        Number::Float(b) => f64::from_bits(b),
    }
}

/// The numeric steps handed to the library's evaluator.
fn num_step(op: NumOp, a: Number, b: Number, c: Number) -> Value {
    let (x, y, z) = (as_f(a), as_f(b), as_f(c));
    match op {
        NumOp::Add => num(x + y),
        NumOp::Sub => num(x - y),
        NumOp::Mul => num(x * y),
        NumOp::Div => num(x / y),
        NumOp::Mod => num(x % y),
        NumOp::Min => num(x.min(y)),
        NumOp::Max => num(x.max(y)),
        NumOp::Neg => num(-x),
        NumOp::Abs => num(x.abs()),
        NumOp::Clamp => num(x.clamp(y, z)),
        NumOp::Floor => Value::Int(x.floor() as i64),
        NumOp::Ceil => Value::Int(x.ceil() as i64),
        NumOp::Round => Value::Int(x.round() as i64),
        NumOp::Lt => Value::Bool(x < y),
        NumOp::Le => Value::Bool(x <= y),
        NumOp::Gt => Value::Bool(x > y),
        NumOp::Ge => Value::Bool(x >= y),
        NumOp::IsZero => Value::Bool(x == 0.0),
        NumOp::NearlyEqual => Value::Bool((x - y).abs() < f64::EPSILON),
        NumOp::NonZero => Value::Bool(x != 0.0),
        NumOp::AsFloat => num(x),
    }
}

fn draw(lo: Number, hi: Number, s: u64) -> u64 {
    let u = (s as f64) / (u64::MAX as f64 + 1.0);
    (as_f(lo) + u * (as_f(hi) - as_f(lo))).to_bits()
}

fn text_of(v: &Value) -> String {
    match v {
        Value::String(s) => s.clone(),
        Value::Float(b) => format!("{}", f64::from_bits(*b)),
        Value::Int(i) => format!("{}", i),
        Value::Bool(b) => format!("{}", b),
        _ => format!("{:?}", v),
    }
}

/// The library's evaluator, with the float steps above.
fn evaluator(x: &Expr, m: &Model, t: Option<EntityId>, p: &ValueMap, g: &GameRng) -> Evaluated {
    evaluate_expr(x, m, t, p, g, &num_step, &draw, &pick, &text_of)
}

fn next_f64(rng: &mut GameRng) -> f64 {
    (rng.next_u64() as f64) / (u64::MAX as f64 + 1.0)
}

fn pick(weights: &Vec<u64>, g: &GameRng) -> (Option<usize>, GameRng) {
    let mut rng = GameRng::from_state(g.state());
    let ws: Vec<f64> = weights.iter().map(|b| f64::from_bits(*b)).collect();
    let total: f64 = ws.iter().sum();
    if total <= 0.0 || ws.is_empty() {
        return (None, rng);
    }
    let mut threshold = next_f64(&mut rng) * total;
    for (i, w) in ws.iter().enumerate() {
        threshold -= w;
        if threshold <= 0.0 {
            return (Some(i), rng);
        }
    }
    (Some(ws.len() - 1), rng)
}

fn numeric(op: ModifyOp, current: Option<Value>, operand: u64) -> u64 {
    let cur = current.as_ref().and_then(number_of).unwrap_or(0.0);
    let x = f64::from_bits(operand);
    let r = match op {
        ModifyOp::Assign => x,
        ModifyOp::Add => cur + x,
        ModifyOp::Sub => cur - x,
        ModifyOp::Mul => cur * x,
        ModifyOp::Div => {
            if x != 0.0 {
                cur / x
            } else {
                cur
            }
        }
        ModifyOp::Min => cur.min(x),
        ModifyOp::Max => cur.max(x),
    };
    r.to_bits()
}


fn lit(x: f64) -> Expr {
    Expr::lit(num(x))
}

fn global_number(model: &Model, key: &str) -> Option<f64> {
    model.get_global(key).and_then(number_of)
}

fn hub_tick(hub: &mut Hub) -> Result<pulsive::hub::TickResult, Error> {
    hub.tick(&evaluator, &pick, &numeric)
}

fn counter_handler() -> TickHandler {
    TickHandler {
        id: DefId::new("counter"),
        condition: None,
        target_kind: None,
        effects: vec![Effect::ModifyGlobal { property: "count".to_string(), op: ModifyOp::Add, value: lit(1.0) }],
        priority: 0,
    }
}

#[test]
fn test_core_creation() {
    let core = Core::with_seed(CoreId(0), 12345);
    assert_eq!(core.id, CoreId(0));
    assert_eq!(core.current_tick(), 0);
}

#[test]
fn test_core_tick() {
    let mut core = Core::with_seed(CoreId(0), 12345);
    core.tick(&evaluator, &pick, &numeric);
    assert_eq!(core.current_tick(), 1);
}

#[test]
fn core_load_model_reseeds_from_seed_id_and_tick() {
    let mut core = Core::with_seed(CoreId(3), 777);
    let mut model = Model::new();
    model.advance_tick();
    model.advance_tick();
    core.load_model(model);
    assert_eq!(core.current_tick(), 2);
    let expected = GameRng::new(pulsive::config::hash_seed(777, 3, 2));
    assert_eq!(core.model().rng().state(), expected.state());
    core.reseed_rng(9);
    assert_eq!(core.model().rng().state(), GameRng::new(pulsive::config::hash_seed(777, 3, 9)).state());
}

#[test]
fn test_hub_creation() {
    let hub = Hub::new();
    assert_eq!(hub.current_tick(), 0);
    assert_eq!(hub.group_count(), 0);
}

#[test]
fn test_hub_with_default_group() {
    let hub = Hub::with_default_group(Model::new(), 12345);
    assert_eq!(hub.group_count(), 1);
}

#[test]
fn test_hub_tick_no_groups() {
    let mut hub = Hub::new();
    let result = hub_tick(&mut hub);
    assert!(matches!(result, Err(Error::NoGroups)));
    assert_eq!(hub.version(), 0);
}

#[test]
fn test_hub_tick() {
    let mut hub = Hub::with_default_group(Model::new(), 12345);
    let result = hub_tick(&mut hub);
    assert!(result.is_ok());
    let tick_result = result.unwrap();
    assert_eq!(tick_result.tick, 1);
}

#[test]
fn hub_tick_counts_versions_and_gathers_results() {
    let mut hub = Hub::with_default_group(Model::new(), 12345);
    hub.add_group(TickSyncGroup::with_core_count(GroupId(1), 3, 5));
    let result = hub_tick(&mut hub).unwrap();
    assert_eq!(result.updates.len(), 4);
    assert_eq!(result.tick, 2);
    assert_eq!(hub.version(), 1);
    assert_eq!(hub.snapshot().version(), 1);
}

#[test]
fn test_hub_tick_with_handler() {
    let model = Model::new();
    let mut group = TickSyncGroup::single(GroupId(0), 12345);
    group.on_tick(counter_handler());

    let mut hub = Hub::with_model(model);
    hub.model_mut().set_global("count", num(0.0));
    hub.add_group(group);

    hub_tick(&mut hub).unwrap();
    hub_tick(&mut hub).unwrap();
    hub_tick(&mut hub).unwrap();

    assert_eq!(global_number(hub.model(), "count"), Some(3.0));
}

#[test]
fn hub_test_default_is_single_core() {
    let hub = Hub::new();
    assert_eq!(hub.core_count(), 1);
}

#[test]
fn test_with_config() {
    let config = HubConfig::with_core_count(4);
    let hub = Hub::with_config(Model::new(), config);
    assert_eq!(hub.core_count(), 4.min(max_cores()));
}

#[test]
fn hub_test_set_core_count() {
    let mut hub = Hub::new();
    assert_eq!(hub.core_count(), 1);

    hub.set_core_count(4);
    let expected = 4.min(max_cores());
    assert_eq!(hub.core_count(), expected);

    hub.set_core_count(1);
    assert_eq!(hub.core_count(), 1);
}

#[test]
fn hub_test_max_cores() {
    let hub = Hub::new();
    let max = hub.max_cores();
    assert!(max >= 1, "max_cores should be at least 1");
}

#[test]
fn hub_test_core_count_clamped_minimum() {
    let mut hub = Hub::new();
    hub.set_core_count(0);
    assert_eq!(hub.core_count(), 1);
}

#[test]
fn hub_test_core_count_clamped_maximum() {
    let mut hub = Hub::new();
    hub.set_core_count(10000);
    assert_eq!(hub.core_count(), max_cores());
}

#[test]
fn test_can_change_core_count_between_ticks() {
    let mut hub = Hub::with_default_group(Model::new(), 12345);

    assert_eq!(hub.core_count(), 1);
    hub_tick(&mut hub).unwrap();

    hub.set_core_count(4);
    assert_eq!(hub.core_count(), 4.min(max_cores()));
    hub_tick(&mut hub).unwrap();

    hub.set_core_count(1);
    assert_eq!(hub.core_count(), 1);
    hub_tick(&mut hub).unwrap();

    assert_eq!(hub.current_tick(), 3);
}

#[test]
fn test_deterministic_regardless_of_core_count() {
    let mut group1 = TickSyncGroup::single(GroupId(0), 12345);
    group1.on_tick(counter_handler());

    let mut hub1 = Hub::with_model(Model::new());
    hub1.model_mut().set_global("count", num(0.0));
    hub1.add_group(group1);
    assert_eq!(hub1.core_count(), 1);

    for _ in 0..5 {
        hub_tick(&mut hub1).unwrap();
    }
    let count1 = global_number(hub1.model(), "count");

    let mut group2 = TickSyncGroup::single(GroupId(0), 12345);
    group2.on_tick(counter_handler());

    let mut hub2 = Hub::with_model(Model::new());
    hub2.model_mut().set_global("count", num(0.0));
    hub2.add_group(group2);
    hub2.set_core_count(4);
    assert!(hub2.core_count() > 1 || max_cores() == 1);

    for _ in 0..5 {
        hub_tick(&mut hub2).unwrap();
    }
    let count2 = global_number(hub2.model(), "count");

    assert_eq!(count1, count2);
    assert_eq!(count1, Some(5.0));
}

#[test]
fn test_config_accessors() {
    let mut hub = Hub::new();
    assert_eq!(hub.config().core_count(), 1);
    hub.config_mut().set_core_count(2);
    assert_eq!(hub.core_count(), 2.min(max_cores()));
}

#[test]
fn test_global_seed_accessors() {
    let mut hub = Hub::new();
    assert_eq!(hub.global_seed(), DEFAULT_GLOBAL_SEED);
    hub.set_global_seed(42);
    assert_eq!(hub.global_seed(), 42);
}

#[test]
fn hub_test_create_core_rng_deterministic() {
    let mut hub = Hub::new();
    hub.set_global_seed(42);

    let mut rng1 = hub.create_core_rng(0, 5);
    let mut rng2 = hub.create_core_rng(0, 5);

    assert_eq!(rng1.next_u64(), rng2.next_u64());
    assert_eq!(rng1.next_u64(), rng2.next_u64());
    assert_eq!(rng1.next_u64(), rng2.next_u64());
}

#[test]
fn hub_test_create_core_rng_independent_cores() {
    let mut hub = Hub::new();
    hub.set_global_seed(42);

    let mut rng_core0 = hub.create_core_rng(0, 5);
    let mut rng_core1 = hub.create_core_rng(1, 5);

    assert_ne!(rng_core0.next_u64(), rng_core1.next_u64());
}

#[test]
fn hub_test_create_core_rng_independent_ticks() {
    let mut hub = Hub::new();
    hub.set_global_seed(42);

    let mut rng_tick5 = hub.create_core_rng(0, 5);
    let mut rng_tick6 = hub.create_core_rng(0, 6);

    assert_ne!(rng_tick5.next_u64(), rng_tick6.next_u64());
}

#[test]
fn test_same_seed_produces_same_outputs() {
    fn run_simulation(seed: u64) -> Vec<f64> {
        let mut results = Vec::new();
        let config = HubConfig::with_seed(seed);
        let hub = Hub::with_config(Model::new(), config);
        for tick in 0..5 {
            for core in 0..2 {
                let mut rng = hub.create_core_rng(core, tick);
                results.push(next_f64(&mut rng));
            }
        }
        results
    }

    let run1 = run_simulation(12345);
    let run2 = run_simulation(12345);

    assert_eq!(run1, run2, "Same seed should produce identical outputs");
}

#[test]
fn test_different_seeds_produce_different_outputs() {
    fn run_simulation(seed: u64) -> Vec<f64> {
        let config = HubConfig::with_seed(seed);
        let hub = Hub::with_config(Model::new(), config);
        (0..10)
            .map(|i| {
                let mut rng = hub.create_core_rng(0, i);
                next_f64(&mut rng)
            })
            .collect()
    }

    let run1 = run_simulation(12345);
    let run2 = run_simulation(54321);

    assert_ne!(run1, run2, "Different seeds should produce different outputs");
}

#[test]
fn test_rng_streams_independent_between_cores() {
    let hub = Hub::with_config(Model::new(), HubConfig::with_seed(42));

    let sequences: Vec<Vec<u64>> = (0..4)
        .map(|core| {
            let mut rng = hub.create_core_rng(core, 10);
            (0..5).map(|_| rng.next_u64()).collect()
        })
        .collect();

    for i in 0..sequences.len() {
        for j in (i + 1)..sequences.len() {
            assert_ne!(sequences[i], sequences[j], "Core {} and {} should have different RNG sequences", i, j);
        }
    }
}

#[test]
fn test_replay_produces_identical_results() {
    let hub = Hub::with_config(Model::new(), HubConfig::with_seed(99999));

    let first_run: Vec<u64> = {
        let mut rng = hub.create_core_rng(3, 42);
        (0..100).map(|_| rng.next_u64()).collect()
    };

    let replay: Vec<u64> = {
        let mut rng = hub.create_core_rng(3, 42);
        (0..100).map(|_| rng.next_u64()).collect()
    };

    assert_eq!(first_run, replay, "Replay should produce identical results");
}

#[test]
fn test_works_with_any_core_count() {
    let seed = 77777;

    for core_count in [1, 2, 4, 8, 16, 100] {
        let config = HubConfig::new(core_count, seed);
        let hub = Hub::with_config(Model::new(), config);

        let actual_core_count = hub.core_count();

        let values: Vec<u64> = (0..actual_core_count)
            .map(|core| {
                let mut rng = hub.create_core_rng(core, 0);
                rng.next_u64()
            })
            .collect();

        let unique: std::collections::HashSet<_> = values.iter().collect();
        assert_eq!(
            unique.len(),
            actual_core_count,
            "All cores should get unique RNG values (configured={}, actual={})",
            core_count,
            actual_core_count
        );
    }
}

#[test]
fn test_rng_distribution_quality() {
    let hub = Hub::with_config(Model::new(), HubConfig::with_seed(12345));

    let mut values = Vec::new();
    for tick in 0..100 {
        for core in 0..10 {
            let mut rng = hub.create_core_rng(core, tick);
            values.push(next_f64(&mut rng));
        }
    }

    assert!(values.iter().all(|&v| (0.0..1.0).contains(&v)));

    let mean: f64 = values.iter().sum::<f64>() / values.len() as f64;
    assert!((0.4..0.6).contains(&mean), "Mean should be close to 0.5, got {}", mean);

    let unique: std::collections::HashSet<u64> = values.iter().map(|v| v.to_bits()).collect();
    assert!(unique.len() > values.len() * 9 / 10, "Should have mostly unique values");
}

#[test]
fn test_tick_handler_with_random_deterministic() {
    fn run_random_simulation(seed: u64) -> f64 {
        let mut group = TickSyncGroup::single(GroupId(0), seed);
        group.on_tick(TickHandler {
            id: DefId::new("random_modifier"),
            condition: None,
            target_kind: None,
            effects: vec![Effect::ModifyGlobal {
                property: "value".to_string(),
                op: ModifyOp::Add,
                value: Expr::Random,
            }],
            priority: 0,
        });

        let mut hub = Hub::with_model(Model::new());
        hub.model_mut().set_global("value", num(0.0));
        hub.set_global_seed(seed);
        hub.add_group(group);

        for _ in 0..10 {
            hub_tick(&mut hub).unwrap();
        }

        global_number(hub.model(), "value").unwrap()
    }

    let result1 = run_random_simulation(12345);
    let result2 = run_random_simulation(12345);
    assert_eq!(result1, result2, "Same seed should produce same random results");

    let result3 = run_random_simulation(54321);
    assert_ne!(result1, result3, "Different seed should produce different results");
}

#[test]
fn test_snapshot_creation() {
    let mut model = Model::new();
    model.set_global("gold", num(100.0));
    model.advance_tick();
    model.advance_tick();

    let snapshot = ModelSnapshot::new(&model, 1);

    assert_eq!(snapshot.tick(), 2);
    assert_eq!(snapshot.version(), 1);
}

#[test]
fn test_snapshot_read_global() {
    let mut model = Model::new();
    model.set_global("gold", num(100.0));
    model.set_global("name", Value::String("TestGame".to_string()));

    let snapshot = ModelSnapshot::new(&model, 1);

    assert_eq!(snapshot.get_global("gold").and_then(number_of), Some(100.0));
    assert_eq!(snapshot.get_global_str("name"), Some("TestGame"));
    assert!(snapshot.has_global("gold"));
    assert!(!snapshot.has_global("silver"));
}

#[test]
fn test_snapshot_read_entity() {
    let mut model = Model::new();
    let entity_id = model.entities.create("nation");
    model.entities.set_property(entity_id, "name", Value::String("France".to_string()));
    model.entities.set_property(entity_id, "gold", num(500.0));

    let snapshot = ModelSnapshot::new(&model, 1);

    let entity = snapshot.get_entity(entity_id).unwrap();
    assert_eq!(entity.get("name").and_then(|v| v.as_str()), Some("France"));
    assert_eq!(entity.get("gold").and_then(number_of), Some(500.0));
    assert!(snapshot.has_entity(entity_id));
}

#[test]
fn test_snapshot_entities_by_kind() {
    let mut model = Model::new();
    let a = model.entities.create("nation");
    model.entities.set_property(a, "name", Value::String("France".to_string()));
    let b = model.entities.create("nation");
    model.entities.set_property(b, "name", Value::String("England".to_string()));
    let c = model.entities.create("province");
    model.entities.set_property(c, "name", Value::String("Paris".to_string()));

    let snapshot = ModelSnapshot::new(&model, 1);

    assert_eq!(snapshot.entities_by_kind(&DefId::new("nation")).len(), 2);
    assert_eq!(snapshot.entities_by_kind(&DefId::new("province")).len(), 1);
    assert_eq!(snapshot.entity_count(), 3);
}

#[test]
fn test_snapshot_immutability() {
    let mut model = Model::new();
    model.set_global("gold", num(100.0));

    let snapshot = ModelSnapshot::new(&model, 1);

    model.set_global("gold", num(200.0));

    assert_eq!(snapshot.get_global("gold").and_then(number_of), Some(100.0));
}

#[test]
fn test_snapshot_to_model() {
    let mut model = Model::new();
    model.set_global("gold", num(100.0));
    let e = model.entities.create("nation");
    model.entities.set_property(e, "name", Value::String("France".to_string()));
    model.advance_tick();
    model.advance_tick();
    model.advance_tick();

    let snapshot = ModelSnapshot::new(&model, 1);
    let restored = snapshot.to_model();

    assert_eq!(restored.current_tick(), 3);
    assert_eq!(global_number(&restored, "gold"), Some(100.0));
    assert_eq!(restored.entities().len(), 1);
}

#[test]
fn test_snapshot_isolation_after_mutation() {
    let mut model = Model::new();
    model.set_global("gold", num(100.0));

    let snapshot = ModelSnapshot::new(&model, 1);

    model.set_global("gold", num(200.0));

    assert_eq!(snapshot.get_global("gold").and_then(number_of), Some(100.0));
    assert_eq!(global_number(&model, "gold"), Some(200.0));
}

#[test]
fn test_snapshot_globals_iteration() {
    let mut model = Model::new();
    model.set_global("gold", num(100.0));
    model.set_global("silver", num(50.0));

    let snapshot = ModelSnapshot::new(&model, 1);

    let keys: Vec<&str> = snapshot.globals_iter().iter().map(|e| e.0.as_str()).collect();
    assert!(keys.contains(&"gold"));
    assert!(keys.contains(&"silver"));
}

#[test]
fn test_single_core_group() {
    let group = TickSyncGroup::single(GroupId(0), 12345);
    assert_eq!(group.core_count(), 1);
    assert_eq!(CoreGroup::tick(&group), 0);
}

#[test]
fn test_multi_core_group() {
    let group = TickSyncGroup::with_core_count(GroupId(0), 4, 12345);
    assert_eq!(group.core_count(), 4);
}

#[test]
fn test_execute_tick() {
    let mut group = TickSyncGroup::single(GroupId(0), 12345);

    let model = Model::new();
    group.load_model(&model);

    let results = group.execute_tick(&evaluator, &pick, &numeric);
    assert_eq!(results.len(), 1);

    let models = group.extract_models();
    assert_eq!(models[0].current_tick(), 1);
}

#[test]
fn test_advance_tick() {
    let mut group = TickSyncGroup::single(GroupId(0), 12345);
    assert_eq!(CoreGroup::tick(&group), 0);

    group.advance_tick();
    assert_eq!(CoreGroup::tick(&group), 1);

    group.advance_tick();
    assert_eq!(CoreGroup::tick(&group), 2);
}

#[test]
fn advance_tick_reseeds_each_core_from_base_seed_index_and_tick() {
    let mut group = TickSyncGroup::with_core_count(GroupId(0), 2, 99);
    group.advance_tick();
    for (i, core) in group.cores().iter().enumerate() {
        let expected = GameRng::new(pulsive::config::hash_seed(99, i as u64, 1));
        assert_eq!(core.model().rng().state(), expected.state());
    }
}

#[test]
fn on_event_registers_a_copy_on_every_core() {
    let mut group = TickSyncGroup::with_core_count(GroupId(0), 3, 1);
    group.on_event(pulsive::runtime::EventHandler {
        event_id: DefId::new("ping"),
        condition: None,
        effects: vec![Effect::SetGlobal { property: "x".to_string(), value: lit(1.0) }],
        priority: 2,
    });
    for core in group.cores() {
        let hs = core.runtime().handlers_for(&DefId::new("ping"));
        assert_eq!(hs.len(), 1);
        assert_eq!(hs[0].priority, 2);
    }
}
