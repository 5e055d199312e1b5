use pulsive::actor::{ActorId, Context};
use pulsive::cmd::Cmd;
use pulsive::entity::{Entity, EntityStore};
use pulsive::identity::{DefId, EntityId};
use pulsive::journal::{Journal, JournalConfig, JournalEntry};
use pulsive::model::Model;
use pulsive::msg::Msg;
use pulsive::value::{Value, ValueMap};
use pulsive::write_set::{PendingWrite, WriteSet};

fn set_global(key: &str, x: f64) -> PendingWrite {
    PendingWrite::SetGlobal { key: key.to_string(), value: Value::Float(x.to_bits()) }
}

#[test]
fn test_cmd_batch() {
    let cmd = Cmd::batch(vec![Cmd::none(), Cmd::debug("hello"), Cmd::none()]);
    assert!(matches!(cmd, Cmd::Log { .. }));
}

#[test]
fn test_cmd_batch_nested() {
    let cmd = Cmd::batch(vec![Cmd::batch(vec![Cmd::debug("a"), Cmd::debug("b")]), Cmd::debug("c")]);
    if let Cmd::Batch(cmds) = cmd {
        assert_eq!(cmds.len(), 3);
    } else {
        panic!("Expected Batch");
    }
}

#[test]
fn test_entity() {
    let mut entity = Entity::new(EntityId::new(1), "nation");
    entity.set("gold", Value::Float(100.0f64.to_bits()));
    entity.set("name", Value::String("France".to_string()));
    entity.add_flag(DefId::new("at_war"));

    assert_eq!(entity.get("gold").and_then(|v| v.float_bits()), Some(100.0f64.to_bits()));
    assert_eq!(entity.get("name").and_then(|v| v.as_str()), Some("France"));
    assert!(entity.has_flag(&DefId::new("at_war")));
}

#[test]
fn test_entity_store() {
    let mut store = EntityStore::new();

    let france_id = store.create("nation");
    store.set_property(france_id, "name", Value::String("France".to_string()));

    let england_id = store.create("nation");
    store.set_property(england_id, "name", Value::String("England".to_string()));

    let paris = store.create("province");
    store.set_property(paris, "name", Value::String("Paris".to_string()));

    assert_eq!(store.len(), 3);
    assert_eq!(store.by_kind(&DefId::new("nation")).len(), 2);
    assert_eq!(store.by_kind(&DefId::new("province")).len(), 1);

    assert!(store.get(france_id).is_some());
    assert!(store.get(england_id).is_some());
}

#[test]
fn test_model_globals() {
    let mut model = Model::new();
    model.set_global("difficulty", Value::Int(2));
    assert!(matches!(model.get_global("difficulty"), Some(Value::Int(2))));
}

#[test]
fn test_model_actors() {
    let mut model = Model::new();
    let actor = Context::new(ActorId::new(1));
    model.add_actor(actor);

    assert!(model.get_actor(ActorId::new(1)).is_some());
    assert!(model.get_actor(ActorId::new(2)).is_none());
}

#[test]
fn test_write_set_empty() {
    let write_set = WriteSet::new();
    assert!(write_set.is_empty());
    assert_eq!(write_set.len(), 0);
}

#[test]
fn test_write_set_push() {
    let mut write_set = WriteSet::new();
    write_set.push(set_global("test", 42.0));
    assert_eq!(write_set.len(), 1);
    assert!(!write_set.is_empty());
}

#[test]
fn test_write_set_extend() {
    let mut write_set1 = WriteSet::new();
    write_set1.push(set_global("a", 1.0));
    let mut write_set2 = WriteSet::new();
    write_set2.push(set_global("b", 2.0));
    write_set1.extend(write_set2);
    assert_eq!(write_set1.len(), 2);
}

#[test]
fn test_write_set_merge() {
    let mut ws1 = WriteSet::new();
    ws1.push(set_global("a", 1.0));
    let mut ws2 = WriteSet::new();
    ws2.push(set_global("b", 2.0));
    let merged = WriteSet::merge(vec![ws1, ws2]);
    assert_eq!(merged.len(), 2);
}

#[test]
fn test_write_set_extend_from() {
    let mut ws1 = WriteSet::new();
    ws1.push(set_global("a", 1.0));
    let mut ws2 = WriteSet::new();
    ws2.push(set_global("b", 2.0));
    ws1.extend_from(&ws2);
    assert_eq!(ws1.len(), 2);
    assert_eq!(ws2.len(), 1);
}

#[test]
fn test_write_set_merge_from() {
    let mut ws1 = WriteSet::new();
    ws1.push(set_global("a", 1.0));
    let mut ws2 = WriteSet::new();
    ws2.push(set_global("b", 2.0));
    let merged = WriteSet::merge_from(&[ws1.duplicate(), ws2.duplicate()]);
    assert_eq!(merged.len(), 2);
    assert_eq!(ws1.len(), 1);
    assert_eq!(ws2.len(), 1);
}

#[test]
fn test_write_set_into_iterator() {
    let mut ws = WriteSet::new();
    ws.push(set_global("a", 1.0));
    ws.push(set_global("b", 2.0));
    let keys: Vec<String> = ws
        .into_writes()
        .into_iter()
        .filter_map(|w| match w {
            PendingWrite::SetGlobal { key, .. } => Some(key),
            _ => None,
        })
        .collect();
    assert_eq!(keys, vec!["a".to_string(), "b".to_string()]);
}

#[test]
fn test_write_set_ref_iterator() {
    let mut ws = WriteSet::new();
    ws.push(set_global("a", 1.0));
    let count = ws.writes().iter().count();
    assert_eq!(count, 1);
    assert_eq!(ws.len(), 1);
}

#[test]
fn test_write_set_from_iterator() {
    let writes = vec![set_global("a", 1.0), set_global("b", 2.0)];
    let ws = WriteSet::from_writes(writes);
    assert_eq!(ws.len(), 2);
}

#[test]
fn test_write_set_extend_trait() {
    let mut ws = WriteSet::new();
    ws.push(set_global("a", 1.0));
    let more_writes = vec![set_global("b", 2.0), set_global("c", 3.0)];
    ws.extend_writes(more_writes);
    assert_eq!(ws.len(), 3);
}

#[test]
fn test_journal_recording() {
    let mut journal = Journal::new();
    journal.start_recording();

    journal.record_message(1, Msg::tick(1));
    journal.record_message(1, Msg::tick(1));
    journal.record_message(2, Msg::tick(1));

    let stats = journal.stats();
    assert_eq!(stats.message_count, 3);
    assert_eq!(stats.tick_count, 2);
}

#[test]
fn test_journal_disabled() {
    let mut journal = Journal::new();
    journal.record_message(1, Msg::tick(1));
    assert!(journal.entries().is_empty());
}

#[test]
fn test_journal_snapshot() {
    let mut journal = Journal::new();
    let model = Model::new();
    let id = journal.take_snapshot(&model);
    assert_eq!(journal.snapshots().len(), 1);
    assert!(journal.get_snapshot(id).is_some());
}

#[test]
fn test_entries_in_range() {
    let mut journal = Journal::new();
    journal.start_recording();
    for tick in 0..10 {
        journal.record_message(tick, Msg::tick(0));
    }
    let range = journal.entries_in_range(3, 6);
    assert!(!range.is_empty());
    for entry in range {
        match entry {
            JournalEntry::Message { tick, .. } => assert!(*tick >= 3 && *tick <= 6),
            JournalEntry::TickBoundary { tick } => assert!(*tick >= 3 && *tick <= 6),
            _ => {}
        }
    }
}

#[test]
fn test_max_entries_limit() {
    let config = JournalConfig { recording_enabled: true, max_entries: 5, ..Default::default() };
    let mut journal = Journal::with_config(config);
    for tick in 0..10 {
        journal.record_message(tick, Msg::tick(0));
    }
    assert!(journal.entries().len() <= 5);
}

#[test]
fn test_metadata_recording() {
    let mut journal = Journal::new();
    journal.start_recording();
    journal.record_metadata(1, "user", "alice");
    journal.record_metadata(1, "action", "login");

    let metadata: Vec<_> = journal
        .entries()
        .iter()
        .filter_map(|e| match e {
            JournalEntry::Metadata { key, value, .. } => Some((key.as_str(), value.as_str())),
            _ => None,
        })
        .collect();

    assert_eq!(metadata.len(), 2);
    assert!(metadata.contains(&("user", "alice")));
    assert!(metadata.contains(&("action", "login")));
}

#[test]
fn test_value_map_insert_keeps_order() {
    let mut m = ValueMap::new();
    assert!(m.insert("b".to_string(), Value::Int(1)).is_none());
    assert!(m.insert("a".to_string(), Value::Int(2)).is_none());
    assert!(matches!(m.insert("b".to_string(), Value::Int(3)), Some(Value::Int(1))));
    assert_eq!(m.len(), 2);
    assert_eq!(m.entry(0).0, "b");
    assert!(matches!(m.get("b"), Some(Value::Int(3))));
}
