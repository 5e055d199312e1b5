use pulsive::config::{hash_seed, max_cores, HubConfig, DEFAULT_GLOBAL_SEED};
use pulsive::conflict::{ConflictTarget, ConflictType, ReadRecord};
use pulsive::hash::{hash_bytes_with_seed, hash_u64_with_seed, hash_value_with_seed, spatial_hash_with_seed};
use pulsive::identity::{DefId, EntityId};
use pulsive::value::{Value, ValueMap};
use std::collections::HashSet;

#[test]
fn config_test_default_is_single_core() {
    let config = HubConfig::default();
    assert!(config.is_single_core());
    assert_eq!(config.core_count(), 1);
}

#[test]
fn test_with_core_count() {
    let config = HubConfig::with_core_count(4);
    assert_eq!(config.core_count(), 4.min(max_cores()));
}

#[test]
fn config_test_set_core_count() {
    let mut config = HubConfig::default();
    assert!(config.is_single_core());

    config.set_core_count(4);
    let expected = 4.min(max_cores());
    assert_eq!(config.core_count(), expected);
    assert_eq!(config.is_single_core(), expected == 1);

    config.set_core_count(1);
    assert!(config.is_single_core());
}

#[test]
fn config_test_core_count_clamped_minimum() {
    let config = HubConfig::with_core_count(0);
    assert_eq!(config.core_count(), 1);
    assert!(config.is_single_core());
}

#[test]
fn config_test_core_count_clamped_maximum() {
    let config = HubConfig::with_core_count(10000);
    assert_eq!(config.core_count(), max_cores());
}

#[test]
fn config_test_max_cores() {
    let cores = max_cores();
    assert!(cores >= 1, "max_cores should be at least 1");
}

#[test]
fn test_can_change_between_ticks() {
    let mut config = HubConfig::default();
    assert!(config.is_single_core());
    config.set_core_count(2);
    assert!(!config.is_single_core() || max_cores() == 1);
    config.set_core_count(1);
    assert!(config.is_single_core());
}

#[test]
fn test_default_global_seed() {
    let config = HubConfig::default();
    assert_eq!(config.global_seed(), DEFAULT_GLOBAL_SEED);
}

#[test]
fn config_test_with_seed() {
    let config = HubConfig::with_seed(42);
    assert!(config.is_single_core());
    assert_eq!(config.global_seed(), 42);
}

#[test]
fn test_new_with_core_count_and_seed() {
    let config = HubConfig::new(4, 42);
    assert_eq!(config.core_count(), 4.min(max_cores()));
    assert_eq!(config.global_seed(), 42);
}

#[test]
fn test_set_global_seed() {
    let mut config = HubConfig::default();
    assert_eq!(config.global_seed(), DEFAULT_GLOBAL_SEED);
    config.set_global_seed(99);
    assert_eq!(config.global_seed(), 99);
}

#[test]
fn test_with_core_count_uses_default_seed() {
    let config = HubConfig::with_core_count(4);
    assert_eq!(config.global_seed(), DEFAULT_GLOBAL_SEED);
}

#[test]
fn test_hash_seed_deterministic() {
    let seed1 = hash_seed(100, 0, 5);
    let seed2 = hash_seed(100, 0, 5);
    assert_eq!(seed1, seed2);
}

#[test]
fn test_hash_seed_different_base_seeds() {
    assert_ne!(hash_seed(100, 0, 5), hash_seed(101, 0, 5));
}

#[test]
fn test_hash_seed_different_core_ids() {
    assert_ne!(hash_seed(100, 0, 5), hash_seed(100, 1, 5));
}

#[test]
fn test_hash_seed_different_ticks() {
    assert_ne!(hash_seed(100, 0, 5), hash_seed(100, 0, 6));
}

#[test]
fn test_hash_seed_all_different() {
    let mut seeds = HashSet::new();
    for base in [0, 1, 100, u64::MAX] {
        for core in 0..4 {
            for tick in 0..10 {
                seeds.insert(hash_seed(base, core, tick));
            }
        }
    }
    assert_eq!(seeds.len(), 4 * 4 * 10);
}

#[test]
fn config_test_create_core_rng_deterministic() {
    let config = HubConfig::with_seed(42);
    let mut rng1 = config.create_core_rng(0, 5);
    let mut rng2 = config.create_core_rng(0, 5);
    assert_eq!(rng1.next_u64(), rng2.next_u64());
    assert_eq!(rng1.next_u64(), rng2.next_u64());
    assert_eq!(rng1.next_u64(), rng2.next_u64());
}

#[test]
fn config_test_create_core_rng_independent_cores() {
    let config = HubConfig::with_seed(42);
    let mut rng_core0 = config.create_core_rng(0, 5);
    let mut rng_core1 = config.create_core_rng(1, 5);
    assert_ne!(rng_core0.next_u64(), rng_core1.next_u64());
}

#[test]
fn config_test_create_core_rng_independent_ticks() {
    let config = HubConfig::with_seed(42);
    let mut rng_tick5 = config.create_core_rng(0, 5);
    let mut rng_tick6 = config.create_core_rng(0, 6);
    assert_ne!(rng_tick5.next_u64(), rng_tick6.next_u64());
}

#[test]
fn test_create_core_rng_independent_seeds() {
    let config1 = HubConfig::with_seed(42);
    let config2 = HubConfig::with_seed(43);
    let mut rng1 = config1.create_core_rng(0, 5);
    let mut rng2 = config2.create_core_rng(0, 5);
    assert_ne!(rng1.next_u64(), rng2.next_u64());
}

#[test]
fn test_create_core_rng_many_cores() {
    let config = HubConfig::with_seed(12345);
    let values: Vec<u64> = (0..100)
        .map(|core| {
            let mut rng = config.create_core_rng(core, 0);
            rng.next_u64()
        })
        .collect();
    let unique: HashSet<_> = values.iter().collect();
    assert_eq!(unique.len(), 100);
}

#[test]
fn test_create_core_rng_many_ticks() {
    let config = HubConfig::with_seed(12345);
    let values: Vec<u64> = (0..100)
        .map(|tick| {
            let mut rng = config.create_core_rng(0, tick);
            rng.next_u64()
        })
        .collect();
    let unique: HashSet<_> = values.iter().collect();
    assert_eq!(unique.len(), 100);
}

#[test]
fn test_hash_seed_determinism() {
    assert_eq!(hash_seed(100, 0, 5), hash_seed(100, 0, 5));
    assert_ne!(hash_seed(100, 0, 5), hash_seed(100, 1, 5));
    assert_ne!(hash_seed(100, 0, 5), hash_seed(100, 0, 6));
    assert_ne!(hash_seed(100, 0, 5), hash_seed(101, 0, 5));
}

#[test]
fn test_new_api_conflict_type_display() {
    assert_eq!(ConflictType::WriteWrite.to_text(), "write-write");
    assert_eq!(ConflictType::ReadWrite.to_text(), "read-write");
}

#[test]
fn test_new_api_conflict_target_display() {
    let target = ConflictTarget::GlobalProperty { property: "gold".to_string() };
    assert_eq!(target.to_text(), "global 'gold'");

    let target = ConflictTarget::EntityProperty { entity_id: EntityId::new(42), property: "health".to_string() };
    assert!(target.to_text().contains("entity"));
    assert!(target.to_text().contains("health"));

    let target = ConflictTarget::SpawnEntity { kind: DefId::new("unit") };
    assert!(target.to_text().contains("spawn"));
    assert!(target.to_text().contains("unit"));
}

#[test]
fn test_new_api_conflict_type_default() {
    let default_type = ConflictType::default();
    assert_eq!(default_type, ConflictType::WriteWrite);
}

fn assert_send_sync<T: Send + Sync>() {}

#[test]
fn test_send_sync_for_types() {
    assert_send_sync::<ConflictTarget>();
    assert_send_sync::<ConflictType>();
    assert_send_sync::<ReadRecord>();
}

#[test]
fn test_hash_u64_deterministic() {
    assert_eq!(hash_u64_with_seed(42, DEFAULT_GLOBAL_SEED), hash_u64_with_seed(42, DEFAULT_GLOBAL_SEED));
}

#[test]
fn test_hash_u64_different_values() {
    assert_ne!(hash_u64_with_seed(0, DEFAULT_GLOBAL_SEED), hash_u64_with_seed(1, DEFAULT_GLOBAL_SEED));
}

#[test]
fn test_hash_u64_different_seeds() {
    assert_ne!(hash_u64_with_seed(42, 100), hash_u64_with_seed(42, 200));
}

#[test]
fn test_hash_bytes_deterministic() {
    assert_eq!(hash_bytes_with_seed(b"hello", DEFAULT_GLOBAL_SEED), hash_bytes_with_seed(b"hello", DEFAULT_GLOBAL_SEED));
}

#[test]
fn test_hash_bytes_different_values() {
    assert_ne!(hash_bytes_with_seed(b"hello", DEFAULT_GLOBAL_SEED), hash_bytes_with_seed(b"world", DEFAULT_GLOBAL_SEED));
}

#[test]
fn test_hash_bytes_different_seeds() {
    assert_ne!(hash_bytes_with_seed(b"hello", 100), hash_bytes_with_seed(b"hello", 200));
}

#[test]
fn test_hash_bytes_empty() {
    assert_eq!(hash_bytes_with_seed(b"", DEFAULT_GLOBAL_SEED), hash_bytes_with_seed(b"", DEFAULT_GLOBAL_SEED));
}

#[test]
fn test_hash_value_deterministic() {
    let v1 = Value::String("test".to_string());
    let v2 = Value::String("test".to_string());
    assert_eq!(hash_value_with_seed(&v1, DEFAULT_GLOBAL_SEED), hash_value_with_seed(&v2, DEFAULT_GLOBAL_SEED));
}

#[test]
fn test_hash_value_different_values() {
    let v1 = Value::String("france".to_string());
    let v2 = Value::String("england".to_string());
    assert_ne!(hash_value_with_seed(&v1, DEFAULT_GLOBAL_SEED), hash_value_with_seed(&v2, DEFAULT_GLOBAL_SEED));
}

#[test]
fn test_hash_value_different_seeds() {
    let v = Value::String("test".to_string());
    assert_ne!(hash_value_with_seed(&v, 100), hash_value_with_seed(&v, 200));
}

#[test]
fn test_hash_value_type_discrimination() {
    assert_ne!(
        hash_value_with_seed(&Value::Int(0), DEFAULT_GLOBAL_SEED),
        hash_value_with_seed(&Value::Bool(false), DEFAULT_GLOBAL_SEED)
    );
    assert_ne!(
        hash_value_with_seed(&Value::Int(1), DEFAULT_GLOBAL_SEED),
        hash_value_with_seed(&Value::Bool(true), DEFAULT_GLOBAL_SEED)
    );
    assert_ne!(
        hash_value_with_seed(&Value::Null, DEFAULT_GLOBAL_SEED),
        hash_value_with_seed(&Value::Int(0), DEFAULT_GLOBAL_SEED)
    );
}

#[test]
fn test_hash_value_all_types() {
    let mut map = ValueMap::new();
    map.insert("a".to_string(), Value::Int(1));
    map.insert("b".to_string(), Value::Int(2));

    let values = vec![
        Value::Null,
        Value::Bool(true),
        Value::Bool(false),
        Value::Int(42),
        Value::Int(-1),
        Value::Float(3.14f64.to_bits()),
        Value::Float(0.0f64.to_bits()),
        Value::String("hello".to_string()),
        Value::String("".to_string()),
        Value::EntityRef(EntityId::new(123)),
        Value::List(vec![Value::Int(1), Value::Int(2)]),
        Value::List(vec![]),
        Value::Dict(map),
    ];

    for v in &values {
        let h1 = hash_value_with_seed(v, DEFAULT_GLOBAL_SEED);
        let h2 = hash_value_with_seed(v, DEFAULT_GLOBAL_SEED);
        assert_eq!(h1, h2, "Value {:?} should hash deterministically", v);
    }
}

#[test]
fn test_hash_value_nested() {
    let mut map = ValueMap::new();
    map.insert("x".to_string(), Value::Float(1.0f64.to_bits()));
    map.insert("y".to_string(), Value::Float(2.0f64.to_bits()));

    let nested = Value::List(vec![Value::Dict(map), Value::String("test".to_string())]);

    let h1 = hash_value_with_seed(&nested, DEFAULT_GLOBAL_SEED);
    let h2 = hash_value_with_seed(&nested, DEFAULT_GLOBAL_SEED);
    assert_eq!(h1, h2);
}

#[test]
fn test_hash_value_map_order_independent() {
    let mut map1 = ValueMap::new();
    map1.insert("a".to_string(), Value::Int(1));
    map1.insert("b".to_string(), Value::Int(2));
    map1.insert("c".to_string(), Value::Int(3));

    let mut map2 = ValueMap::new();
    map2.insert("c".to_string(), Value::Int(3));
    map2.insert("a".to_string(), Value::Int(1));
    map2.insert("b".to_string(), Value::Int(2));

    let h1 = hash_value_with_seed(&Value::Dict(map1), DEFAULT_GLOBAL_SEED);
    let h2 = hash_value_with_seed(&Value::Dict(map2), DEFAULT_GLOBAL_SEED);
    assert_eq!(h1, h2, "Maps with same key-value pairs should hash identically regardless of insertion order");
}

#[test]
fn test_spatial_hash_deterministic() {
    assert_eq!(spatial_hash_with_seed(10, 20, DEFAULT_GLOBAL_SEED), spatial_hash_with_seed(10, 20, DEFAULT_GLOBAL_SEED));
}

#[test]
fn test_spatial_hash_different_coords() {
    assert_ne!(spatial_hash_with_seed(10, 20, DEFAULT_GLOBAL_SEED), spatial_hash_with_seed(20, 10, DEFAULT_GLOBAL_SEED));
}

#[test]
fn test_spatial_hash_different_seeds() {
    assert_ne!(spatial_hash_with_seed(10, 20, 100), spatial_hash_with_seed(10, 20, 200));
}

#[test]
fn test_spatial_hash_negative_coords() {
    let h1 = spatial_hash_with_seed(-100, -200, DEFAULT_GLOBAL_SEED);
    let h2 = spatial_hash_with_seed(-100, -200, DEFAULT_GLOBAL_SEED);
    assert_eq!(h1, h2);
    let h3 = spatial_hash_with_seed(-100, -201, DEFAULT_GLOBAL_SEED);
    assert_ne!(h1, h3);
}
