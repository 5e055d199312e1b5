use pulsive::config::{HubConfig, DEFAULT_GLOBAL_SEED};
use pulsive::cores::CoreId;
use pulsive::entity::EntityStore;
use pulsive::hash::hash_value_with_seed;
use pulsive::identity::EntityId;
use pulsive::partition::{partition_custom, PartitionKind, PartitionResult, PartitionStrategy};
use pulsive::entity::Entity;
use pulsive::value::Value;

fn create_test_store(count: usize) -> EntityStore {
    let mut store = EntityStore::new();
    for _ in 0..count {
        store.create("unit");
    }
    store
}

fn num(x: f64) -> Value {
    Value::Float(x.to_bits())
}

fn number_of(v: Option<&Value>) -> f64 {
    match v {
        Some(Value::Float(b)) => f64::from_bits(*b),
        Some(Value::Int(i)) => *i as f64,
        _ => 0.0,
    }
}

/// The grid cell of each entity, in store order, as the spatial strategy reads positions.
fn cells_of(store: &EntityStore, strategy: &PartitionStrategy) -> Vec<(i64, i64)> {
    match strategy.kind() {
        PartitionKind::SpatialGrid { cell_size, x_prop, y_prop } => {
            let size = f64::from_bits(*cell_size);
            (0..store.len())
                .map(|i| {
                    let e = store.at(i);
                    let x = number_of(e.get(x_prop));
                    let y = number_of(e.get(y_prop));
                    ((x / size).floor() as i64, (y / size).floor() as i64)
                })
                .collect()
        }
        _ => Vec::new(),
    }
}

fn partition(strategy: &PartitionStrategy, store: &EntityStore, core_count: usize) -> PartitionResult {
    let cells = cells_of(store, strategy);
    strategy.partition(store, core_count, &cells)
}

fn imbalance_ratio(result: &PartitionResult) -> f64 {
    let (min, max) = result.size_range();
    let total = result.total_entities();
    if total == 0 {
        return 0.0;
    }
    let avg = total as f64 / result.partition_count() as f64;
    (max - min) as f64 / avg
}

#[test]
fn test_by_id_partitioning() {
    let store = create_test_store(12);
    let result = partition(&PartitionStrategy::by_id(), &store, 4);
    assert_eq!(result.total_entities(), 12);
    assert_eq!(result.partition_count(), 4);
    for p in result.partitions() {
        assert_eq!(p.len(), 3);
    }
}

#[test]
fn test_by_id_is_deterministic() {
    let store = create_test_store(100);
    let strategy = PartitionStrategy::by_id();
    let result1 = partition(&strategy, &store, 4);
    let result2 = partition(&strategy, &store, 4);
    for i in 0..4 {
        assert_eq!(result1.get(CoreId(i)), result2.get(CoreId(i)), "Partition {} should be deterministic", i);
    }
}

#[test]
fn test_by_id_round_robin_pattern() {
    let store = create_test_store(8);
    let result = partition(&PartitionStrategy::by_id(), &store, 4);
    assert!(result.get(CoreId(0)).contains(&EntityId::new(0)));
    assert!(result.get(CoreId(1)).contains(&EntityId::new(1)));
    assert!(result.get(CoreId(2)).contains(&EntityId::new(2)));
    assert!(result.get(CoreId(3)).contains(&EntityId::new(3)));
    assert!(result.get(CoreId(0)).contains(&EntityId::new(4)));
}

#[test]
fn test_by_owner_partitioning() {
    let mut store = EntityStore::new();
    for i in 0..12 {
        let id = store.create("unit");
        let owner = match i % 3 {
            0 => "france",
            1 => "england",
            _ => "spain",
        };
        store.set_property(id, "owner_id", Value::String(owner.to_string()));
    }
    let result = partition(&PartitionStrategy::by_owner("owner_id"), &store, 4);
    assert_eq!(result.total_entities(), 12);
}

#[test]
fn test_by_owner_same_owner_same_partition() {
    let mut store = EntityStore::new();
    for _ in 0..10 {
        let id = store.create("unit");
        store.set_property(id, "owner_id", Value::String("france".to_string()));
    }
    let result = partition(&PartitionStrategy::by_owner("owner_id"), &store, 4);
    let non_empty: Vec<_> = result.partitions().iter().filter(|p| !p.is_empty()).collect();
    assert_eq!(non_empty.len(), 1, "All entities with same owner should be in one partition");
    assert_eq!(non_empty[0].len(), 10);
}

fn owners_store() -> EntityStore {
    let mut store = EntityStore::new();
    for i in 0..20 {
        let id = store.create("unit");
        store.set_property(id, "owner_id", Value::String(format!("nation_{}", i % 5)));
    }
    store
}

#[test]
fn test_by_owner_is_deterministic() {
    let store = owners_store();
    let strategy = PartitionStrategy::by_owner("owner_id");
    let result1 = partition(&strategy, &store, 4);
    let result2 = partition(&strategy, &store, 4);
    for i in 0..4 {
        assert_eq!(result1.get(CoreId(i)), result2.get(CoreId(i)));
    }
}

#[test]
fn test_by_owner_missing_property_fallback() {
    let store = create_test_store(100);
    let result = partition(&PartitionStrategy::by_owner("owner_id"), &store, 4);
    assert_eq!(result.total_entities(), 100);
    let sizes = result.partition_sizes();
    let max_size = *sizes.iter().max().unwrap();
    let min_size = *sizes.iter().min().unwrap();
    assert!(max_size < 50, "Missing owner should not hot-spot: max_size={}", max_size);
    assert!(min_size > 10, "Missing owner should distribute: min_size={}", min_size);
}

#[test]
fn test_by_owner_missing_property_is_deterministic() {
    let store = create_test_store(20);
    let strategy = PartitionStrategy::by_owner("owner_id");
    let result1 = partition(&strategy, &store, 4);
    let result2 = partition(&strategy, &store, 4);
    for i in 0..4 {
        assert_eq!(result1.get(CoreId(i)), result2.get(CoreId(i)), "Missing owner fallback should be deterministic");
    }
}

fn place(store: &mut EntityStore, x: f64, y: f64) {
    let id = store.create("unit");
    store.set_property(id, "x", num(x));
    store.set_property(id, "y", num(y));
}

#[test]
fn test_spatial_grid_partitioning() {
    let mut store = EntityStore::new();
    for x in 0..3 {
        for y in 0..3 {
            place(&mut store, (x * 100) as f64, (y * 100) as f64);
        }
    }
    let strategy = PartitionStrategy::spatial_grid(100.0f64.to_bits(), "x", "y");
    let result = partition(&strategy, &store, 4);
    assert_eq!(result.total_entities(), 9);
}

#[test]
fn test_spatial_grid_same_cell_same_partition() {
    let mut store = EntityStore::new();
    for i in 0..10 {
        place(&mut store, 50.0 + i as f64, 50.0 + i as f64);
    }
    let strategy = PartitionStrategy::spatial_grid(100.0f64.to_bits(), "x", "y");
    let result = partition(&strategy, &store, 4);
    let non_empty: Vec<_> = result.partitions().iter().filter(|p| !p.is_empty()).collect();
    assert_eq!(non_empty.len(), 1, "All entities in same cell should be in one partition");
}

#[test]
fn test_spatial_grid_is_deterministic() {
    let mut store = EntityStore::new();
    for i in 0..20 {
        place(&mut store, (i * 50) as f64, ((i * 73) % 500) as f64);
    }
    let strategy = PartitionStrategy::spatial_grid(100.0f64.to_bits(), "x", "y");
    let result1 = partition(&strategy, &store, 4);
    let result2 = partition(&strategy, &store, 4);
    for i in 0..4 {
        assert_eq!(result1.get(CoreId(i)), result2.get(CoreId(i)));
    }
}

#[test]
fn test_spatial_grid_negative_coordinates() {
    let mut store = EntityStore::new();
    for x in -2..=2 {
        for y in -2..=2 {
            place(&mut store, (x * 100) as f64, (y * 100) as f64);
        }
    }
    let strategy = PartitionStrategy::spatial_grid(100.0f64.to_bits(), "x", "y");
    let result = partition(&strategy, &store, 4);
    assert_eq!(result.total_entities(), 25);
}

#[test]
fn test_default_seed() {
    assert_eq!(PartitionStrategy::by_id().seed(), DEFAULT_GLOBAL_SEED);
}

#[test]
fn partition_test_with_seed() {
    let strategy = PartitionStrategy::with_seed(PartitionKind::ById, 42);
    assert_eq!(strategy.seed(), 42);
}

fn by_owner_kind() -> PartitionKind {
    PartitionKind::ByOwner { property: "owner_id".to_string() }
}

#[test]
fn test_different_seeds_affect_hashing() {
    let value = Value::String("test_owner".into());
    let hash1 = hash_value_with_seed(&value, 12345);
    let hash2 = hash_value_with_seed(&value, 99999);
    assert_ne!(hash1, hash2, "Different seeds should produce different hash values");

    let mut store = EntityStore::new();
    let id = store.create("unit");
    store.set_property(id, "owner_id", Value::String("test_owner".to_string()));
    let entity = store.get(EntityId::new(0)).unwrap();

    let strategy1 = PartitionStrategy::with_seed(by_owner_kind(), 12345);
    let strategy2 = PartitionStrategy::with_seed(by_owner_kind(), 99999);

    let raw_hash1 = hash_value_with_seed(&Value::String("test_owner".into()), 12345);
    let raw_hash2 = hash_value_with_seed(&Value::String("test_owner".into()), 99999);
    assert_ne!(raw_hash1, raw_hash2, "Raw hashes should differ");

    let mut found_different = false;
    for core_count in 2..=16 {
        let c1 = strategy1.assign_core(entity, core_count, (0, 0));
        let c2 = strategy2.assign_core(entity, core_count, (0, 0));
        if c1 != c2 {
            found_different = true;
            break;
        }
    }
    assert!(found_different, "Different seeds should eventually produce different core assignments");
}

#[test]
fn test_same_seed_produces_same_partitions() {
    let store = owners_store();
    let strategy1 = PartitionStrategy::with_seed(by_owner_kind(), 42);
    let strategy2 = PartitionStrategy::with_seed(by_owner_kind(), 42);
    let result1 = partition(&strategy1, &store, 4);
    let result2 = partition(&strategy2, &store, 4);
    for i in 0..4 {
        assert_eq!(result1.get(CoreId(i)), result2.get(CoreId(i)), "Same seed should produce same partition layout");
    }
}

#[test]
fn test_from_config_uses_hub_seed() {
    let config = HubConfig::with_seed(12345);
    assert_eq!(PartitionStrategy::from_config(PartitionKind::ById, &config).seed(), 12345);
    assert_eq!(PartitionStrategy::by_id_from_config(&config).seed(), 12345);
    assert_eq!(PartitionStrategy::by_owner_from_config("owner", &config).seed(), 12345);
    assert_eq!(
        PartitionStrategy::spatial_grid_from_config(100.0f64.to_bits(), "x", "y", &config).seed(),
        12345
    );
}

#[test]
fn test_from_config_matches_with_seed() {
    let config = HubConfig::with_seed(42);
    let via_config = PartitionStrategy::by_owner_from_config("owner_id", &config);
    let via_with_seed = PartitionStrategy::with_seed(by_owner_kind(), 42);
    assert_eq!(via_config.seed(), via_with_seed.seed());
    let store = owners_store();
    let result_config = partition(&via_config, &store, 4);
    let result_with_seed = partition(&via_with_seed, &store, 4);
    for i in 0..4 {
        assert_eq!(result_config.get(CoreId(i)), result_with_seed.get(CoreId(i)));
    }
}

#[test]
fn test_by_id_ignores_seed() {
    let store = create_test_store(20);
    let result1 = partition(&PartitionStrategy::with_seed(PartitionKind::ById, 1), &store, 4);
    let result2 = partition(&PartitionStrategy::with_seed(PartitionKind::ById, 99999), &store, 4);
    for i in 0..4 {
        assert_eq!(result1.get(CoreId(i)), result2.get(CoreId(i)), "ById should ignore seed");
    }
}

#[test]
fn test_partition_result_is_balanced() {
    let store = create_test_store(100);
    let result = partition(&PartitionStrategy::by_id(), &store, 4);
    assert!(imbalance_ratio(&result) <= 0.01);
}

#[test]
fn test_partition_result_imbalance_ratio() {
    let store = create_test_store(100);
    let result = partition(&PartitionStrategy::by_id(), &store, 4);
    assert!(imbalance_ratio(&result) < 0.01);
}

#[test]
fn test_partition_result_iter() {
    let store = create_test_store(8);
    let result = partition(&PartitionStrategy::by_id(), &store, 4);
    let iterated = result.iter();
    assert_eq!(iterated.len(), 4);
    for (core_id, entities) in iterated {
        assert_eq!(entities.len(), 2);
        assert!(core_id.0 < 4);
    }
}

#[test]
fn test_empty_store_partitioning() {
    let store = EntityStore::new();
    let result = partition(&PartitionStrategy::by_id(), &store, 4);
    assert_eq!(result.total_entities(), 0);
    assert_eq!(result.partition_count(), 4);
    assert!(imbalance_ratio(&result) <= 0.0);
}

#[test]
fn test_single_core_partitioning() {
    let store = create_test_store(10);
    let result = partition(&PartitionStrategy::by_id(), &store, 1);
    assert_eq!(result.partition_count(), 1);
    assert_eq!(result.get(CoreId(0)).len(), 10);
}

#[test]
fn test_debug_strategy() {
    let debug = format!("{:?}", PartitionStrategy::by_id());
    assert!(debug.contains("PartitionStrategy"));
    assert!(debug.contains("ById"));
    assert!(debug.contains("seed"));
}

#[test]
fn test_debug_kind_by_owner() {
    let debug = format!("{:?}", by_owner_kind());
    assert!(debug.contains("ByOwner"));
    assert!(debug.contains("owner_id"));
}

// Laws and edge cases of the library.

#[test]
fn every_entity_is_placed_exactly_once() {
    let store = owners_store();
    let result = partition(&PartitionStrategy::with_seed(by_owner_kind(), 7), &store, 3);
    let mut seen: Vec<EntityId> = result.partitions().iter().flatten().copied().collect();
    seen.sort_by_key(|e| e.0);
    assert_eq!(seen, store.ids());
}

#[test]
fn partition_agrees_with_assign_core() {
    let store = owners_store();
    let strategy = PartitionStrategy::with_seed(by_owner_kind(), 9);
    let result = partition(&strategy, &store, 5);
    for i in 0..store.len() {
        let e = store.at(i);
        let c = strategy.assign_core(e, 5, (0, 0));
        assert!(result.get(CoreId(c)).contains(&e.id));
    }
}

#[test]
fn size_range_of_uneven_partition() {
    let store = create_test_store(10);
    let result = partition(&PartitionStrategy::by_id(), &store, 4);
    assert_eq!(result.partition_sizes(), vec![3, 3, 2, 2]);
    assert_eq!(result.size_range(), (2, 3));
}

#[test]
fn test_custom_partitioning() {
    let store = create_test_store(10);
    // Custom function: all entities go to core 2.
    let result = partition_custom(&store, 4, &|_: &Entity| 2usize);
    assert_eq!(result.get(CoreId(2)).len(), 10);
    assert_eq!(result.get(CoreId(0)).len(), 0);
    assert_eq!(result.get(CoreId(1)).len(), 0);
    assert_eq!(result.get(CoreId(3)).len(), 0);
}

#[test]
fn test_custom_partitioning_overflow_handled() {
    let store = create_test_store(10);
    // The function returns indexes past the core count; they wrap around.
    let result = partition_custom(&store, 4, &|e: &Entity| e.id.raw() as usize + 1000);
    assert_eq!(result.total_entities(), 10);
}

#[test]
fn test_custom_partitioning_by_kind() {
    let mut store = EntityStore::new();
    for _ in 0..5 {
        store.create("infantry");
    }
    for _ in 0..5 {
        store.create("cavalry");
    }
    let result = partition_custom(&store, 4, &|e: &Entity| if e.kind.as_str() == "infantry" { 0usize } else { 1 });
    assert_eq!(result.get(CoreId(0)).len(), 5);
    assert_eq!(result.get(CoreId(1)).len(), 5);
}
