use pulsive::conflict::{
    default_conflict_filter, detect_conflicts, detect_conflicts_filtered, resolve_conflicts,
    resolve_conflicts_custom,
    Conflict, ConflictReport, ConflictTarget, ConflictType, ResolutionResult,
    ResolutionStrategy, ResolvedConflict,
};
use pulsive::cores::{CoreId, GroupId};
use pulsive::effect::ModifyOp;
use pulsive::hub_error::Error;
use pulsive::identity::{DefId, EntityId};
use pulsive::value::{Value, ValueMap};
use pulsive::write_set::{PendingWrite, WriteSet};

fn num(x: f64) -> Value {
    Value::Float(x.to_bits())
}

fn set_global(key: &str, x: f64) -> PendingWrite {
    PendingWrite::SetGlobal { key: key.to_string(), value: num(x) }
}

fn set_prop(entity_id: EntityId, key: &str, x: f64) -> PendingWrite {
    PendingWrite::SetProperty { entity_id, key: key.to_string(), value: num(x) }
}

fn ws(writes: Vec<PendingWrite>) -> WriteSet {
    WriteSet::from_writes(writes)
}

fn plus(a: u64, b: u64) -> u64 {
    (f64::from_bits(a) + f64::from_bits(b)).to_bits()
}

fn resolve(
    write_sets: &[(CoreId, WriteSet)],
    strategy: ResolutionStrategy,
) -> Result<ResolutionResult, Error> {
    resolve_conflicts(write_sets, &strategy, &plus)
}

fn float_of(v: &Value) -> Option<f64> {
    v.float_bits().map(f64::from_bits)
}

#[test]
fn test_no_conflicts_single_core() {
    let report = detect_conflicts(&[(CoreId(0), ws(vec![set_global("gold", 100.0)]))]);
    assert!(!report.has_conflicts());
}

#[test]
fn test_no_conflicts_disjoint_writes() {
    let report = detect_conflicts(&[
        (CoreId(0), ws(vec![set_global("gold", 100.0)])),
        (CoreId(1), ws(vec![set_global("silver", 200.0)])),
    ]);
    assert!(!report.has_conflicts());
}

#[test]
fn test_global_write_write_conflict() {
    let report = detect_conflicts(&[
        (CoreId(0), ws(vec![set_global("gold", 100.0)])),
        (CoreId(1), ws(vec![set_global("gold", 200.0)])),
    ]);
    assert!(report.has_conflicts());
    assert_eq!(report.len(), 1);
    let conflict = &report.conflicts[0];
    match &conflict.target {
        ConflictTarget::GlobalProperty { property } => assert_eq!(property, "gold"),
        _ => panic!("Expected GlobalProperty target"),
    }
    assert_eq!(conflict.conflict_type, ConflictType::WriteWrite);
    assert_eq!(conflict.cores, vec![CoreId(0), CoreId(1)]);
}

#[test]
fn test_entity_property_write_write_conflict() {
    let entity_id = EntityId::new(42);
    let report = detect_conflicts(&[
        (CoreId(0), ws(vec![set_prop(entity_id, "health", 100.0)])),
        (
            CoreId(1),
            ws(vec![PendingWrite::ModifyProperty {
                entity_id,
                key: "health".to_string(),
                op: ModifyOp::Add,
                value: (-10.0f64).to_bits(),
            }]),
        ),
    ]);
    assert!(report.has_conflicts());
    assert_eq!(report.len(), 1);
    match &report.conflicts[0].target {
        ConflictTarget::EntityProperty { entity_id: eid, property } => {
            assert_eq!(*eid, entity_id);
            assert_eq!(property, "health");
        }
        _ => panic!("Expected EntityProperty target"),
    }
}

#[test]
fn test_entity_flag_write_write_conflict() {
    let entity_id = EntityId::new(42);
    let flag = DefId::new("poisoned");
    let report = detect_conflicts(&[
        (CoreId(0), ws(vec![PendingWrite::AddFlag { entity_id, flag: flag.clone() }])),
        (CoreId(1), ws(vec![PendingWrite::RemoveFlag { entity_id, flag: flag.clone() }])),
    ]);
    assert!(report.has_conflicts());
    assert_eq!(report.len(), 1);
    match &report.conflicts[0].target {
        ConflictTarget::EntityFlag { entity_id: eid, flag: f } => {
            assert_eq!(*eid, entity_id);
            assert_eq!(*f, flag);
        }
        _ => panic!("Expected EntityFlag target"),
    }
}

#[test]
fn test_destroy_entity_write_write_conflict() {
    let entity_id = EntityId::new(42);
    let report = detect_conflicts(&[
        (CoreId(0), ws(vec![PendingWrite::DestroyEntity { id: entity_id }])),
        (CoreId(1), ws(vec![PendingWrite::DestroyEntity { id: entity_id }])),
    ]);
    assert!(report.has_conflicts());
    assert_eq!(report.len(), 1);
    match &report.conflicts[0].target {
        ConflictTarget::DestroyEntity { entity_id: eid } => assert_eq!(*eid, entity_id),
        _ => panic!("Expected DestroyEntity target"),
    }
}

#[test]
fn test_multiple_conflicts() {
    let entity_id = EntityId::new(42);
    let report = detect_conflicts(&[
        (CoreId(0), ws(vec![set_global("gold", 100.0), set_prop(entity_id, "health", 100.0)])),
        (CoreId(1), ws(vec![set_global("gold", 200.0), set_prop(entity_id, "health", 50.0)])),
    ]);
    assert!(report.has_conflicts());
    assert_eq!(report.len(), 2);
}

#[test]
fn test_three_way_conflict() {
    let report = detect_conflicts(&[
        (CoreId(0), ws(vec![set_global("gold", 100.0)])),
        (CoreId(1), ws(vec![set_global("gold", 200.0)])),
        (CoreId(2), ws(vec![set_global("gold", 300.0)])),
    ]);
    assert!(report.has_conflicts());
    assert_eq!(report.len(), 1);
    assert_eq!(report.conflicts[0].writes.len(), 3);
    assert_eq!(report.conflicts[0].cores, vec![CoreId(0), CoreId(1), CoreId(2)]);
}

#[test]
fn test_spawn_conflict_detected() {
    let kind = DefId::new("unit");
    let ws1 = ws(vec![PendingWrite::SpawnEntity { kind: kind.clone(), properties: ValueMap::new() }]);
    let ws2 = ws(vec![PendingWrite::SpawnEntity { kind: kind.clone(), properties: ValueMap::new() }]);

    let report = detect_conflicts(&[(CoreId(0), ws1.duplicate()), (CoreId(1), ws2.duplicate())]);
    assert!(report.has_conflicts());
    assert_eq!(report.len(), 1);
    match &report.conflicts[0].target {
        ConflictTarget::SpawnEntity { kind: k } => assert_eq!(k.as_str(), "unit"),
        _ => panic!("Expected SpawnEntity target"),
    }

    let report_filtered =
        detect_conflicts_filtered(&[(CoreId(0), ws1), (CoreId(1), ws2)], default_conflict_filter);
    assert!(!report_filtered.has_conflicts());
}

#[test]
fn test_conflict_display() {
    let conflict = Conflict::new(
        ConflictTarget::GlobalProperty { property: "gold".to_string() },
        ConflictType::WriteWrite,
        vec![CoreId(0), CoreId(1)],
        vec![],
    );
    let display = conflict.to_text();
    assert!(display.contains("gold"));
    assert!(display.contains("write-write"));
    assert!(display.contains("Core(0)"));
    assert!(display.contains("Core(1)"));
}

#[test]
fn test_conflict_target_extraction() {
    let entity_id = EntityId::new(42);

    let write = set_prop(entity_id, "health", 100.0);
    let target = ConflictTarget::from_pending_write(&write);
    assert!(matches!(
        target,
        ConflictTarget::EntityProperty { entity_id: _, property } if property == "health"
    ));

    let write = PendingWrite::ModifyGlobal {
        key: "gold".to_string(),
        op: ModifyOp::Add,
        value: 10.0f64.to_bits(),
    };
    let target = ConflictTarget::from_pending_write(&write);
    assert!(matches!(
        target,
        ConflictTarget::GlobalProperty { property } if property == "gold"
    ));

    let write = PendingWrite::DestroyEntity { id: entity_id };
    let target = ConflictTarget::from_pending_write(&write);
    assert!(matches!(
        target,
        ConflictTarget::DestroyEntity { entity_id: eid } if eid == entity_id
    ));
}

#[test]
fn test_same_core_multiple_writes_no_conflict() {
    let report = detect_conflicts(&[(
        CoreId(0),
        ws(vec![
            set_global("gold", 100.0),
            PendingWrite::ModifyGlobal {
                key: "gold".to_string(),
                op: ModifyOp::Add,
                value: 50.0f64.to_bits(),
            },
            set_global("gold", 200.0),
        ]),
    )]);
    assert!(!report.has_conflicts());
}

#[test]
fn test_same_core_multiple_writes_entity_property_no_conflict() {
    let entity_id = EntityId::new(42);
    let report = detect_conflicts(&[(
        CoreId(0),
        ws(vec![
            set_prop(entity_id, "health", 100.0),
            PendingWrite::ModifyProperty {
                entity_id,
                key: "health".to_string(),
                op: ModifyOp::Add,
                value: (-10.0f64).to_bits(),
            },
        ]),
    )]);
    assert!(!report.has_conflicts());
}

#[test]
fn test_mixed_same_core_and_different_cores() {
    let report = detect_conflicts(&[
        (CoreId(0), ws(vec![set_global("gold", 100.0), set_global("gold", 150.0)])),
        (CoreId(1), ws(vec![set_global("gold", 200.0)])),
    ]);
    assert!(report.has_conflicts());
    assert_eq!(report.len(), 1);
    assert_eq!(report.conflicts[0].writes.len(), 3);
    match &report.conflicts[0].target {
        ConflictTarget::GlobalProperty { property } => assert_eq!(property, "gold"),
        _ => panic!("Expected GlobalProperty target"),
    }
    assert_eq!(report.conflicts[0].cores, vec![CoreId(0), CoreId(1)]);
}

#[test]
fn test_multiple_cores_with_duplicates() {
    let report = detect_conflicts(&[
        (CoreId(0), ws(vec![set_global("score", 10.0), set_global("score", 20.0)])),
        (CoreId(1), ws(vec![set_global("score", 30.0), set_global("score", 40.0)])),
        (CoreId(2), ws(vec![set_global("score", 50.0)])),
    ]);
    assert!(report.has_conflicts());
    assert_eq!(report.len(), 1);
    assert_eq!(report.conflicts[0].writes.len(), 5);
}

#[test]
fn test_spawn_conflict_display() {
    let conflict = Conflict::new(
        ConflictTarget::SpawnEntity { kind: DefId::new("unit") },
        ConflictType::WriteWrite,
        vec![CoreId(0), CoreId(1)],
        vec![],
    );
    let display = conflict.to_text();
    assert!(display.contains("unit"));
    assert!(display.contains("spawn"));
    assert!(display.contains("Core(0)"));
    assert!(display.contains("Core(1)"));
}

#[test]
fn test_custom_filter_exclude_globals() {
    let exclude_globals =
        |target: &ConflictTarget| !matches!(target, ConflictTarget::GlobalProperty { .. });
    let entity_id = EntityId::new(42);
    let ws1 = ws(vec![set_global("gold", 100.0), set_prop(entity_id, "health", 100.0)]);
    let ws2 = ws(vec![set_global("gold", 200.0), set_prop(entity_id, "health", 50.0)]);

    let report_unfiltered =
        detect_conflicts(&[(CoreId(0), ws1.duplicate()), (CoreId(1), ws2.duplicate())]);
    assert_eq!(report_unfiltered.len(), 2);

    let report_filtered =
        detect_conflicts_filtered(&[(CoreId(0), ws1), (CoreId(1), ws2)], exclude_globals);
    assert_eq!(report_filtered.len(), 1);
    assert!(matches!(&report_filtered.conflicts[0].target, ConflictTarget::EntityProperty { .. }));
}

#[test]
fn test_custom_filter_only_destroys() {
    let only_destroys =
        |target: &ConflictTarget| matches!(target, ConflictTarget::DestroyEntity { .. });
    let entity_id = EntityId::new(42);
    let ws1 = ws(vec![set_global("gold", 100.0), PendingWrite::DestroyEntity { id: entity_id }]);
    let ws2 = ws(vec![set_global("gold", 200.0), PendingWrite::DestroyEntity { id: entity_id }]);

    let report = detect_conflicts_filtered(&[(CoreId(0), ws1), (CoreId(1), ws2)], only_destroys);
    assert_eq!(report.len(), 1);
    assert!(matches!(&report.conflicts[0].target, ConflictTarget::DestroyEntity { .. }));
}

#[test]
fn test_deterministic_core_ordering() {
    let ws0 = ws(vec![set_global("gold", 100.0)]);
    let ws1 = ws(vec![set_global("gold", 200.0)]);
    let ws2 = ws(vec![set_global("gold", 300.0)]);

    let report1 = detect_conflicts(&[
        (CoreId(2), ws2.duplicate()),
        (CoreId(0), ws0.duplicate()),
        (CoreId(1), ws1.duplicate()),
    ]);
    let report2 = detect_conflicts(&[(CoreId(0), ws0), (CoreId(1), ws1), (CoreId(2), ws2)]);

    assert_eq!(report1.conflicts[0].cores, vec![CoreId(0), CoreId(1), CoreId(2)]);
    assert_eq!(report2.conflicts[0].cores, vec![CoreId(0), CoreId(1), CoreId(2)]);
    assert!(matches!(
        &report1.conflicts[0].target,
        ConflictTarget::GlobalProperty { property } if property == "gold"
    ));
}

#[test]
fn test_conflict_cores_field() {
    let report = detect_conflicts(&[
        (CoreId(0), ws(vec![set_global("gold", 100.0), set_global("gold", 150.0)])),
        (CoreId(1), ws(vec![set_global("gold", 200.0)])),
        (CoreId(2), ws(vec![set_global("gold", 300.0)])),
    ]);
    assert_eq!(report.conflicts[0].cores.len(), 3);
    assert_eq!(report.conflicts[0].cores, vec![CoreId(0), CoreId(1), CoreId(2)]);
    assert_eq!(report.conflicts[0].core_count(), 3);
    assert_eq!(report.conflicts[0].writes.len(), 4);
}

#[test]
fn test_resolve_no_conflicts() {
    let write_sets = vec![
        (CoreId(0), ws(vec![set_global("gold", 100.0)])),
        (CoreId(1), ws(vec![set_global("silver", 200.0)])),
    ];
    let result = resolve(&write_sets, ResolutionStrategy::Abort).unwrap();
    assert_eq!(result.conflicts_resolved, 0);
    assert_eq!(result.write_set.len(), 2);
}

fn gold_conflict() -> Vec<(CoreId, WriteSet)> {
    vec![
        (CoreId(0), ws(vec![set_global("gold", 100.0)])),
        (CoreId(1), ws(vec![set_global("gold", 200.0)])),
    ]
}

#[test]
fn test_resolve_abort_on_conflict() {
    let result = resolve(&gold_conflict(), ResolutionStrategy::Abort);
    assert!(result.is_err());
    match result {
        Err(Error::UnresolvedConflicts { count, report }) => {
            assert_eq!(count, 1);
            assert_eq!(report.len(), 1);
        }
        _ => panic!("Expected UnresolvedConflicts error"),
    }
}

#[test]
fn test_resolve_first_write_wins() {
    let result = resolve(&gold_conflict(), ResolutionStrategy::FirstWriteWins).unwrap();
    assert_eq!(result.conflicts_resolved, 1);
    assert_eq!(result.write_set.len(), 1);
    match result.write_set.writes().first() {
        Some(PendingWrite::SetGlobal { key, value }) => {
            assert_eq!(key, "gold");
            assert_eq!(float_of(value), Some(100.0));
        }
        _ => panic!("Expected SetGlobal write"),
    }
    assert_eq!(result.resolutions.len(), 1);
    let resolution = &result.resolutions[0];
    assert_eq!(resolution.cores, vec![CoreId(0), CoreId(1)]);
    assert!(resolution.resolved_write.is_some());
}

#[test]
fn test_resolve_last_write_wins() {
    let result = resolve(&gold_conflict(), ResolutionStrategy::LastWriteWins).unwrap();
    assert_eq!(result.conflicts_resolved, 1);
    assert_eq!(result.write_set.len(), 1);
    match &result.write_set.writes()[0] {
        PendingWrite::SetGlobal { key, value } => {
            assert_eq!(key, "gold");
            assert_eq!(float_of(value), Some(200.0));
        }
        _ => panic!("Expected SetGlobal write"),
    }
}

fn modify_global(key: &str, op: ModifyOp, x: f64) -> PendingWrite {
    PendingWrite::ModifyGlobal { key: key.to_string(), op, value: x.to_bits() }
}

#[test]
fn test_resolve_merge_add_operations() {
    let write_sets = vec![
        (CoreId(0), ws(vec![modify_global("gold", ModifyOp::Add, 10.0)])),
        (CoreId(1), ws(vec![modify_global("gold", ModifyOp::Add, 20.0)])),
        (CoreId(2), ws(vec![modify_global("gold", ModifyOp::Add, 30.0)])),
    ];
    let result = resolve(&write_sets, ResolutionStrategy::Merge).unwrap();
    assert_eq!(result.conflicts_resolved, 1);
    assert_eq!(result.write_set.len(), 1);
    match &result.write_set.writes()[0] {
        PendingWrite::ModifyGlobal { key, op, value } => {
            assert_eq!(key, "gold");
            assert!(matches!(op, ModifyOp::Add));
            assert!((f64::from_bits(*value) - 60.0).abs() < f64::EPSILON);
        }
        _ => panic!("Expected ModifyGlobal write"),
    }
}

#[test]
fn test_resolve_merge_sub_operations() {
    let entity_id = EntityId::new(42);
    let sub = |x: f64| PendingWrite::ModifyProperty {
        entity_id,
        key: "health".to_string(),
        op: ModifyOp::Sub,
        value: x.to_bits(),
    };
    let write_sets = vec![(CoreId(0), ws(vec![sub(10.0)])), (CoreId(1), ws(vec![sub(25.0)]))];
    let result = resolve(&write_sets, ResolutionStrategy::Merge).unwrap();
    assert_eq!(result.conflicts_resolved, 1);
    assert_eq!(result.write_set.len(), 1);
    match &result.write_set.writes()[0] {
        PendingWrite::ModifyProperty { entity_id: eid, key, op, value } => {
            assert_eq!(*eid, entity_id);
            assert_eq!(key, "health");
            assert!(matches!(op, ModifyOp::Sub));
            assert!((f64::from_bits(*value) - 35.0).abs() < f64::EPSILON);
        }
        _ => panic!("Expected ModifyProperty write"),
    }
}

#[test]
fn test_resolve_merge_non_mergeable_falls_back() {
    let result = resolve(&gold_conflict(), ResolutionStrategy::Merge).unwrap();
    assert_eq!(result.conflicts_resolved, 1);
    match &result.write_set.writes()[0] {
        PendingWrite::SetGlobal { key, value } => {
            assert_eq!(key, "gold");
            assert_eq!(float_of(value), Some(100.0));
        }
        _ => panic!("Expected SetGlobal write"),
    }
}

#[test]
fn test_resolve_mixed_conflicting_and_non_conflicting() {
    let entity_id = EntityId::new(42);
    let write_sets = vec![
        (CoreId(0), ws(vec![set_global("gold", 100.0), set_prop(entity_id, "health", 100.0)])),
        (CoreId(1), ws(vec![set_global("gold", 200.0), set_prop(entity_id, "mana", 50.0)])),
    ];
    let result = resolve(&write_sets, ResolutionStrategy::FirstWriteWins).unwrap();
    assert_eq!(result.conflicts_resolved, 1);
    assert_eq!(result.write_set.len(), 3);
}

#[test]
fn test_resolve_multiple_conflicts() {
    let entity_id = EntityId::new(42);
    let write_sets = vec![
        (CoreId(0), ws(vec![set_global("gold", 100.0), set_prop(entity_id, "health", 100.0)])),
        (CoreId(1), ws(vec![set_global("gold", 200.0), set_prop(entity_id, "health", 50.0)])),
    ];
    let result = resolve(&write_sets, ResolutionStrategy::LastWriteWins).unwrap();
    assert_eq!(result.conflicts_resolved, 2);
    assert_eq!(result.write_set.len(), 2);
    for write in result.write_set.writes() {
        match write {
            PendingWrite::SetGlobal { key, value } => {
                assert_eq!(key, "gold");
                assert_eq!(float_of(value), Some(200.0));
            }
            PendingWrite::SetProperty { key, value, .. } => {
                assert_eq!(key, "health");
                assert_eq!(float_of(value), Some(50.0));
            }
            _ => panic!("Unexpected write type"),
        }
    }
}

#[test]
fn test_resolution_strategy_debug() {
    assert_eq!(format!("{:?}", ResolutionStrategy::Abort), "Abort");
    assert_eq!(format!("{:?}", ResolutionStrategy::FirstWriteWins), "FirstWriteWins");
    assert_eq!(format!("{:?}", ResolutionStrategy::LastWriteWins), "LastWriteWins");
    assert_eq!(format!("{:?}", ResolutionStrategy::Merge), "Merge");
}

#[test]
fn test_resolution_strategy_default() {
    let strategy = ResolutionStrategy::default();
    assert!(matches!(strategy, ResolutionStrategy::Abort));
}

fn assert_send_sync<T: Send + Sync>() {}

#[test]
fn test_conflict_report_is_send_sync() {
    assert_send_sync::<ConflictReport>();
    assert_send_sync::<Conflict>();
    assert_send_sync::<ConflictTarget>();
    assert_send_sync::<ConflictType>();
    assert_send_sync::<ResolutionResult>();
    assert_send_sync::<ResolvedConflict>();
}

#[test]
fn test_error_display_roundtrip() {
    let err = resolve(&gold_conflict(), ResolutionStrategy::Abort).unwrap_err();
    let error_message = err.to_text();
    assert!(error_message.contains("1 conflict"), "{}", error_message);
    assert!(error_message.contains("unresolved conflicts"), "{}", error_message);
}

#[test]
fn test_error_conflict_report_accessor() {
    let err = resolve(&gold_conflict(), ResolutionStrategy::Abort).unwrap_err();
    let report = err.conflict_report().expect("Should have conflict report");
    assert_eq!(report.len(), 1);
    assert!(report.has_conflicts());
}

#[test]
fn test_error_conflict_report_accessor_returns_none_for_other_errors() {
    let err = Error::NoGroups;
    assert!(err.conflict_report().is_none());
    let err = Error::GroupNotFound(GroupId(42));
    assert!(err.conflict_report().is_none());
}

#[test]
fn test_new_api_conflict_target() {
    let report = detect_conflicts(&gold_conflict());
    assert!(report.has_conflicts());
    let conflict = &report.conflicts[0];
    assert!(matches!(conflict.target, ConflictTarget::GlobalProperty { property: _ }));
    assert_eq!(conflict.conflict_type, ConflictType::WriteWrite);
    assert_eq!(conflict.cores, vec![CoreId(0), CoreId(1)]);
    if let ConflictTarget::GlobalProperty { property } = &conflict.target {
        assert_eq!(property, "gold");
    } else {
        panic!("Expected GlobalProperty target");
    }
}

#[test]
fn test_new_api_conflict_target_entity_property() {
    let entity_id = EntityId::new(42);
    let report = detect_conflicts(&[
        (CoreId(0), ws(vec![set_prop(entity_id, "health", 100.0)])),
        (CoreId(1), ws(vec![set_prop(entity_id, "health", 50.0)])),
    ]);
    let conflict = &report.conflicts[0];
    match &conflict.target {
        ConflictTarget::EntityProperty { entity_id: eid, property } => {
            assert_eq!(*eid, entity_id);
            assert_eq!(property, "health");
        }
        _ => panic!("Expected EntityProperty target"),
    }
    assert_eq!(conflict.conflict_type, ConflictType::WriteWrite);
}

#[test]
fn test_new_api_conflict_helper_methods() {
    let conflict = Conflict::new(
        ConflictTarget::GlobalProperty { property: "gold".to_string() },
        ConflictType::WriteWrite,
        vec![CoreId(0), CoreId(1)],
        vec![],
    );
    assert!(conflict.is_write_write());
    assert!(!conflict.is_read_write());
    assert_eq!(conflict.core_count(), 2);
}

#[test]
fn test_new_api_resolution_includes_conflict_type() {
    let result = resolve(&gold_conflict(), ResolutionStrategy::FirstWriteWins).unwrap();
    assert_eq!(result.resolutions.len(), 1);
    let resolution = &result.resolutions[0];
    assert_eq!(resolution.conflict_type, ConflictType::WriteWrite);
    assert!(matches!(resolution.target, ConflictTarget::GlobalProperty { .. }));
}

// Laws and edge cases of the library.

#[test]
fn conflicts_come_in_order_of_first_write() {
    let entity_id = EntityId::new(7);
    let report = detect_conflicts(&[
        (CoreId(0), ws(vec![set_prop(entity_id, "hp", 1.0), set_global("gold", 1.0)])),
        (CoreId(1), ws(vec![set_global("gold", 2.0), set_prop(entity_id, "hp", 2.0)])),
    ]);
    assert_eq!(report.len(), 2);
    assert!(matches!(&report.conflicts[0].target, ConflictTarget::EntityProperty { .. }));
    assert!(matches!(&report.conflicts[1].target, ConflictTarget::GlobalProperty { .. }));
    assert_eq!(report.to_text(), "2 conflicts");
}

#[test]
fn unconflicted_writes_are_all_kept_in_order() {
    let write_sets = vec![
        (CoreId(3), ws(vec![set_global("a", 1.0), set_global("b", 2.0)])),
        (CoreId(1), ws(vec![set_global("c", 3.0)])),
    ];
    for strategy in [
        ResolutionStrategy::Abort,
        ResolutionStrategy::FirstWriteWins,
        ResolutionStrategy::LastWriteWins,
        ResolutionStrategy::Merge,
    ] {
        let result = resolve(&write_sets, strategy).unwrap();
        let keys: Vec<&str> = result
            .write_set
            .writes()
            .iter()
            .map(|w| match w {
                PendingWrite::SetGlobal { key, .. } => key.as_str(),
                _ => panic!("Unexpected write type"),
            })
            .collect();
        assert_eq!(keys, vec!["a", "b", "c"]);
        assert_eq!(result.conflicts_resolved, 0);
    }
}

#[test]
fn merge_of_mixed_operations_takes_first_write_of_lowest_core() {
    let write_sets = vec![
        (CoreId(1), ws(vec![modify_global("gold", ModifyOp::Add, 5.0)])),
        (CoreId(0), ws(vec![modify_global("gold", ModifyOp::Sub, 7.0)])),
    ];
    let result = resolve(&write_sets, ResolutionStrategy::Merge).unwrap();
    assert_eq!(result.write_set.len(), 1);
    match &result.write_set.writes()[0] {
        PendingWrite::ModifyGlobal { op, value, .. } => {
            assert!(matches!(op, ModifyOp::Sub));
            assert_eq!(f64::from_bits(*value), 7.0);
        }
        _ => panic!("Expected ModifyGlobal write"),
    }
    let resolution = &result.resolutions[0];
    assert_eq!(resolution.resolved_write.as_ref().map(|(c, _)| *c), Some(CoreId(0)));
}

#[test]
fn last_write_wins_takes_last_write_of_highest_core() {
    let write_sets = vec![
        (CoreId(2), ws(vec![set_global("gold", 1.0), set_global("gold", 2.0)])),
        (CoreId(0), ws(vec![set_global("gold", 3.0)])),
    ];
    let result = resolve(&write_sets, ResolutionStrategy::LastWriteWins).unwrap();
    match &result.write_set.writes()[0] {
        PendingWrite::SetGlobal { value, .. } => assert_eq!(float_of(value), Some(2.0)),
        _ => panic!("Expected SetGlobal write"),
    }
}

#[test]
fn empty_input_gives_empty_report_and_result() {
    let report = detect_conflicts(&[]);
    assert!(report.is_empty());
    assert_eq!(report.to_text(), "0 conflicts");
    let result = resolve(&[], ResolutionStrategy::Abort).unwrap();
    assert!(result.write_set.is_empty());
    assert!(result.resolutions.is_empty());
}

#[test]
fn test_resolve_custom_strategy() {
    // Custom resolver: always pick core 1's write.
    let pick_core_one = |c: &Conflict| -> Option<(CoreId, PendingWrite)> {
        c.writes.iter().find(|(core, _)| core.0 == 1).map(|(core, w)| (*core, w.duplicate()))
    };
    let result = resolve_conflicts_custom(&gold_conflict(), &pick_core_one);
    assert_eq!(result.conflicts_resolved, 1);
    match &result.write_set.writes()[0] {
        PendingWrite::SetGlobal { key, value } => {
            assert_eq!(key, "gold");
            assert_eq!(float_of(value), Some(200.0));
        }
        _ => panic!("Expected SetGlobal write"),
    }
}

#[test]
fn test_resolve_custom_strategy_skip_write() {
    let skip = |_: &Conflict| -> Option<(CoreId, PendingWrite)> { None };
    let result = resolve_conflicts_custom(&gold_conflict(), &skip);
    assert_eq!(result.conflicts_resolved, 1);
    assert_eq!(result.write_set.len(), 0);
    assert!(result.resolutions[0].resolved_write.is_none());
}
