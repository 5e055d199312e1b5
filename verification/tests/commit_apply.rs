use pulsive::commit::{apply, apply_batch, commit, commit_batch, has_conflicts};
use pulsive::conflict::ResolutionStrategy;
use pulsive::cores::CoreId;
use pulsive::effect::ModifyOp;
use pulsive::hub_error::Error;
use pulsive::identity::{DefId, EntityId};
use pulsive::model::Model;
use pulsive::value::{Value, ValueMap};
use pulsive::write_set::{PendingWrite, WriteSet};

fn num(x: f64) -> Value {
    Value::Float(x.to_bits())
}

fn as_number(v: &Value) -> Option<f64> {
    match v {
        Value::Float(b) => Some(f64::from_bits(*b)),
        Value::Int(i) => Some(*i as f64),
        _ => None,
    }
}

/// The numeric rule of modifications: the current number (0 when absent) combined with the
/// operand.
fn numeric(op: ModifyOp, current: Option<Value>, operand: u64) -> u64 {
    let cur = current.as_ref().and_then(as_number).unwrap_or(0.0);
    let x = f64::from_bits(operand);
    let r = match op {
        ModifyOp::Assign => x,
        ModifyOp::Add => cur + x,
        ModifyOp::Sub => cur - x,
        ModifyOp::Mul => cur * x,
        ModifyOp::Div => {
            if x != 0.0 {
                cur / x
            } else {
                cur
            }
        }
        ModifyOp::Min => cur.min(x),
        ModifyOp::Max => cur.max(x),
    };
    r.to_bits()
}

fn plus(a: u64, b: u64) -> u64 {
    (f64::from_bits(a) + f64::from_bits(b)).to_bits()
}

fn global(model: &Model, key: &str) -> Option<f64> {
    model.get_global(key).and_then(as_number)
}

fn property(model: &Model, id: EntityId, key: &str) -> Option<f64> {
    model.entities().get(id).and_then(|e| e.get(key)).and_then(as_number)
}

fn set_global(key: &str, x: f64) -> PendingWrite {
    PendingWrite::SetGlobal { key: key.to_string(), value: num(x) }
}

fn modify_global(key: &str, op: ModifyOp, x: f64) -> PendingWrite {
    PendingWrite::ModifyGlobal { key: key.to_string(), op, value: x.to_bits() }
}

fn ws(writes: Vec<PendingWrite>) -> WriteSet {
    WriteSet::from_writes(writes)
}

#[test]
fn test_apply_set_global() {
    let mut model = Model::new();
    apply(&ws(vec![set_global("gold", 100.0)]), &mut model, &numeric);
    assert_eq!(global(&model, "gold"), Some(100.0));
}

#[test]
fn test_apply_modify_global() {
    let mut model = Model::new();
    model.set_global("gold", num(100.0));
    apply(&ws(vec![modify_global("gold", ModifyOp::Add, 50.0)]), &mut model, &numeric);
    assert_eq!(global(&model, "gold"), Some(150.0));
}

#[test]
fn test_apply_entity_property() {
    let mut model = Model::new();
    let entity_id = model.entities.create("nation");
    model.entities.set_property(entity_id, "gold", num(100.0));
    let write = PendingWrite::SetProperty { entity_id, key: "gold".to_string(), value: num(200.0) };
    apply(&ws(vec![write]), &mut model, &numeric);
    assert_eq!(property(&model, entity_id, "gold"), Some(200.0));
}

#[test]
fn test_apply_modify_entity_property() {
    let mut model = Model::new();
    let entity_id = model.entities.create("nation");
    model.entities.set_property(entity_id, "gold", num(100.0));
    let write = PendingWrite::ModifyProperty {
        entity_id,
        key: "gold".to_string(),
        op: ModifyOp::Mul,
        value: 2.0f64.to_bits(),
    };
    apply(&ws(vec![write]), &mut model, &numeric);
    assert_eq!(property(&model, entity_id, "gold"), Some(200.0));
}

#[test]
fn test_apply_spawn_entity() {
    let mut model = Model::new();
    let mut properties = ValueMap::new();
    properties.insert("name".to_string(), Value::String("France".to_string()));
    properties.insert("gold".to_string(), num(100.0));
    let write = PendingWrite::SpawnEntity { kind: DefId::new("nation"), properties };
    let result = apply(&ws(vec![write]), &mut model, &numeric);
    assert_eq!(result.spawned.len(), 1);
    let entity_id = result.spawned[0];
    let entity = model.entities().get(entity_id).unwrap();
    assert_eq!(entity.get("name").and_then(|v| v.as_str()), Some("France"));
    assert_eq!(entity.get("gold").and_then(as_number), Some(100.0));
}

#[test]
fn test_apply_destroy_entity() {
    let mut model = Model::new();
    let entity_id = model.entities.create("nation");
    assert!(model.entities().get(entity_id).is_some());
    let result = apply(&ws(vec![PendingWrite::DestroyEntity { id: entity_id }]), &mut model, &numeric);
    assert_eq!(result.destroyed.len(), 1);
    assert!(model.entities().get(entity_id).is_none());
}

#[test]
fn test_apply_flags() {
    let mut model = Model::new();
    let entity_id = model.entities.create("nation");
    let add = PendingWrite::AddFlag { entity_id, flag: DefId::new("at_war") };
    apply(&ws(vec![add]), &mut model, &numeric);
    assert!(model.entities().get(entity_id).unwrap().has_flag(&DefId::new("at_war")));

    let remove = PendingWrite::RemoveFlag { entity_id, flag: DefId::new("at_war") };
    apply(&ws(vec![remove]), &mut model, &numeric);
    assert!(!model.entities().get(entity_id).unwrap().has_flag(&DefId::new("at_war")));
}

#[test]
fn test_atomic_application_order() {
    let mut model = Model::new();
    model.set_global("counter", num(0.0));
    let writes = ws(vec![
        modify_global("counter", ModifyOp::Add, 10.0),
        modify_global("counter", ModifyOp::Mul, 2.0),
    ]);
    apply(&writes, &mut model, &numeric);
    assert_eq!(global(&model, "counter"), Some(20.0));
}

#[test]
fn test_apply_batch() {
    let mut model = Model::new();
    model.set_global("total", num(0.0));
    let ws1 = ws(vec![modify_global("total", ModifyOp::Add, 10.0)]);
    let ws2 = ws(vec![modify_global("total", ModifyOp::Add, 20.0)]);
    apply_batch(vec![ws1, ws2], &mut model, &numeric);
    assert_eq!(global(&model, "total"), Some(30.0));
}

#[test]
fn test_commit_single() {
    let mut model = Model::new();
    let mut version = 0u64;
    let result = commit(ws(vec![set_global("gold", 100.0)]), &mut model, &mut version, &numeric);
    assert_eq!(result.version, 1);
    assert_eq!(version, 1);
    assert_eq!(global(&model, "gold"), Some(100.0));
}

fn batch(
    write_sets: Vec<(CoreId, WriteSet)>,
    model: &mut Model,
    version: &mut u64,
    strategy: ResolutionStrategy,
) -> Result<pulsive::commit::CommitResult, Error> {
    commit_batch(write_sets, model, version, &strategy, &numeric, &plus)
}

fn gold_conflict() -> Vec<(CoreId, WriteSet)> {
    vec![
        (CoreId(0), ws(vec![set_global("gold", 100.0)])),
        (CoreId(1), ws(vec![set_global("gold", 200.0)])),
    ]
}

#[test]
fn test_commit_batch_no_conflicts() {
    let mut model = Model::new();
    let mut version = 0u64;
    let result = batch(
        vec![
            (CoreId(0), ws(vec![set_global("gold", 100.0)])),
            (CoreId(1), ws(vec![set_global("silver", 200.0)])),
        ],
        &mut model,
        &mut version,
        ResolutionStrategy::Abort,
    )
    .unwrap();
    assert_eq!(result.version, 1);
    assert_eq!(result.conflicts_resolved, 0);
    assert_eq!(global(&model, "gold"), Some(100.0));
    assert_eq!(global(&model, "silver"), Some(200.0));
}

#[test]
fn test_commit_batch_with_conflicts_abort() {
    let mut model = Model::new();
    let mut version = 0u64;
    let result = batch(gold_conflict(), &mut model, &mut version, ResolutionStrategy::Abort);
    assert!(result.is_err());
    assert!(matches!(result, Err(Error::UnresolvedConflicts { .. })));
    assert_eq!(version, 0);
}

#[test]
fn test_commit_batch_with_conflicts_last_write_wins() {
    let mut model = Model::new();
    let mut version = 0u64;
    let result =
        batch(gold_conflict(), &mut model, &mut version, ResolutionStrategy::LastWriteWins).unwrap();
    assert_eq!(result.version, 1);
    assert_eq!(result.conflicts_resolved, 1);
    assert_eq!(global(&model, "gold"), Some(200.0));
}

#[test]
fn test_commit_batch_with_conflicts_first_write_wins() {
    let mut model = Model::new();
    let mut version = 0u64;
    let result =
        batch(gold_conflict(), &mut model, &mut version, ResolutionStrategy::FirstWriteWins).unwrap();
    assert_eq!(result.version, 1);
    assert_eq!(result.conflicts_resolved, 1);
    assert_eq!(global(&model, "gold"), Some(100.0));
}

#[test]
fn test_commit_batch_single_writeset() {
    let mut model = Model::new();
    let mut version = 0u64;
    let result = batch(
        vec![(CoreId(0), ws(vec![set_global("gold", 100.0)]))],
        &mut model,
        &mut version,
        ResolutionStrategy::Abort,
    )
    .unwrap();
    assert_eq!(result.version, 1);
    assert_eq!(result.conflicts_resolved, 0);
}

#[test]
fn test_commit_batch_empty_no_version_increment() {
    let mut model = Model::new();
    let mut version = 5u64;
    let result = batch(vec![], &mut model, &mut version, ResolutionStrategy::Abort).unwrap();
    assert_eq!(result.version, 5);
    assert_eq!(version, 5);
    assert_eq!(result.spawned.len(), 0);
    assert_eq!(result.destroyed.len(), 0);
}

#[test]
fn test_has_conflicts() {
    let ws0 = ws(vec![set_global("gold", 100.0)]);
    let ws1 = ws(vec![set_global("gold", 200.0)]);
    let ws2 = ws(vec![set_global("silver", 300.0)]);
    assert!(has_conflicts(&[(CoreId(0), ws0.duplicate()), (CoreId(1), ws1)]));
    assert!(!has_conflicts(&[(CoreId(0), ws0), (CoreId(2), ws2)]));
}

// Laws and edge cases of the library.

#[test]
fn commit_of_empty_write_set_changes_nothing() {
    let mut model = Model::new();
    model.set_global("gold", num(1.0));
    let mut version = 3u64;
    let result = commit(WriteSet::new(), &mut model, &mut version, &numeric);
    assert_eq!(result.version, 3);
    assert_eq!(version, 3);
    assert_eq!(global(&model, "gold"), Some(1.0));
}

#[test]
fn aborted_batch_leaves_model_unchanged() {
    let mut model = Model::new();
    model.set_global("gold", num(7.0));
    let mut version = 2u64;
    let err = batch(gold_conflict(), &mut model, &mut version, ResolutionStrategy::Abort);
    assert!(err.is_err());
    assert_eq!(global(&model, "gold"), Some(7.0));
    assert_eq!(version, 2);
}

#[test]
fn spawned_ids_are_consecutive_and_fresh() {
    let mut model = Model::new();
    let existing = model.entities.create("nation");
    let spawn = |k: &str| PendingWrite::SpawnEntity { kind: DefId::new(k), properties: ValueMap::new() };
    let result = apply(&ws(vec![spawn("a"), spawn("b")]), &mut model, &numeric);
    assert_eq!(result.spawned, vec![EntityId(existing.0 + 1), EntityId(existing.0 + 2)]);
    assert_eq!(model.entities().len(), 3);
}

#[test]
fn writes_to_missing_entities_are_ignored() {
    let mut model = Model::new();
    let missing = EntityId::new(99);
    let writes = ws(vec![
        PendingWrite::SetProperty { entity_id: missing, key: "hp".to_string(), value: num(1.0) },
        PendingWrite::AddFlag { entity_id: missing, flag: DefId::new("x") },
        PendingWrite::DestroyEntity { id: missing },
    ]);
    let result = apply(&writes, &mut model, &numeric);
    assert!(model.entities().is_empty());
    assert_eq!(result.destroyed, vec![missing]);
}

#[test]
fn modify_of_missing_global_starts_from_zero() {
    let mut model = Model::new();
    apply(&ws(vec![modify_global("gold", ModifyOp::Sub, 4.0)]), &mut model, &numeric);
    assert_eq!(global(&model, "gold"), Some(-4.0));
}
