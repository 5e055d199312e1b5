use pulsive::auditor::{AuditQuery, Auditor};
use pulsive::collect::Evaluated;
use pulsive::effect::ModifyOp;
use pulsive::expr::Expr;
use pulsive::identity::EntityId;
use pulsive::rng::GameRng;
use pulsive::value::{Value, ValueMap};
use pulsive::entity::EntityRef;
use pulsive::identity::DefId;
use pulsive::journal::{Journal, JournalConfig, JournalEntry};
use pulsive::journal_text::{journal_csv, journal_text};
use pulsive::model::Model;
use pulsive::msg::Msg;
use pulsive::replayer::{ReplayState, Replayer};
use pulsive::runtime::Runtime;

/// An evaluator for sessions whose runtime has no handlers: nothing is ever evaluated.
fn no_eval(_: &Expr, _: &Model, _: Option<EntityId>, _: &ValueMap, g: &GameRng) -> Evaluated {
    Evaluated { value: None, number: None, truthy: false, text: String::new(), rng: GameRng::from_state(g.state()) }
}

fn no_pick(_: &Vec<u64>, g: &GameRng) -> (Option<usize>, GameRng) {
    (None, GameRng::from_state(g.state()))
}

fn keep(_: ModifyOp, _: Option<Value>, x: u64) -> u64 {
    x
}

fn create_test_journal() -> Journal {
    let mut journal = Journal::new();
    journal.start_recording();
    for tick in 0..10 {
        journal.record_tick(tick);
        journal.record_message(tick, Msg::tick(tick));
        if tick % 2 == 0 {
            journal.record_message(tick, Msg::event("test_event", EntityRef::Global, tick));
        }
    }
    journal.record_metadata(5, "user", "test_user");
    journal
}

#[test]
fn test_generate_report() {
    let journal = create_test_journal();
    let auditor = Auditor::new(&journal);
    let report = auditor.generate_report();
    assert!(report.total_messages > 0);
    assert!(report.event_counts.iter().any(|(k, _)| k == "Tick"));
}

#[test]
fn test_query_by_range() {
    let journal = create_test_journal();
    let auditor = Auditor::new(&journal);
    let query = AuditQuery::new().in_range(3, 6);
    let results = auditor.query(&query);
    for entry in results {
        if let JournalEntry::Message { tick, .. } = entry {
            assert!(*tick >= 3 && *tick <= 6);
        }
    }
}

#[test]
fn test_unique_events() {
    let journal = create_test_journal();
    let auditor = Auditor::new(&journal);
    assert!(!auditor.unique_events().is_empty());
}

#[test]
fn test_metadata() {
    let journal = create_test_journal();
    let auditor = Auditor::new(&journal);
    let metadata = auditor.metadata();
    assert!(!metadata.is_empty());
    assert!(metadata.iter().any(|(k, v, _)| *k == "user" && *v == "test_user"));
}

fn create_recorded_session() -> (Journal, Model) {
    let mut model = Model::new();
    let mut runtime = Runtime::new();
    let mut journal = Journal::with_config(JournalConfig {
        recording_enabled: true,
        snapshot_interval: 5,
        ..Default::default()
    });
    for _ in 0..20 {
        runtime.tick_with_journal(&mut model, &mut journal, &no_eval, &no_pick, &keep);
    }
    (journal, model)
}

#[test]
fn test_replayer_goto() {
    let (journal, _) = create_recorded_session();
    let mut model = Model::new();
    let mut runtime = Runtime::new();
    let mut replayer = Replayer::new(&journal);
    replayer.goto(&mut model, &mut runtime, 10, &no_eval, &no_pick, &keep).unwrap();
    assert_eq!(replayer.current_tick(), 10);
    assert_eq!(replayer.state(), ReplayState::Paused);
}

#[test]
fn test_replayer_step() {
    let (journal, _) = create_recorded_session();
    let mut model = Model::new();
    let mut runtime = Runtime::new();
    let mut replayer = Replayer::new(&journal);
    replayer.step_forward(&mut model, &mut runtime, &no_eval, &no_pick, &keep).unwrap();
    assert_eq!(replayer.current_tick(), 1);
    replayer.step_forward(&mut model, &mut runtime, &no_eval, &no_pick, &keep).unwrap();
    assert_eq!(replayer.current_tick(), 2);
}

#[test]
fn test_replayer_reset() {
    let (journal, _) = create_recorded_session();
    let mut model = Model::new();
    let mut runtime = Runtime::new();
    let mut replayer = Replayer::new(&journal);
    replayer.goto(&mut model, &mut runtime, 10, &no_eval, &no_pick, &keep).unwrap();
    replayer.reset(&mut model);
    assert_eq!(replayer.current_tick(), 0);
    assert_eq!(replayer.state(), ReplayState::Idle);
}

#[test]
fn test_snapshot_ticks() {
    let (journal, _) = create_recorded_session();
    let replayer = Replayer::new(&journal);
    assert!(!replayer.snapshot_ticks().is_empty());
}

// Laws and edge cases of the library.

#[test]
fn goto_restores_latest_snapshot_and_replays_the_rest() {
    let (journal, _) = create_recorded_session();
    assert_eq!(Replayer::new(&journal).snapshot_ticks(), vec![5, 10, 15, 20]);
    let mut model = Model::new();
    let mut runtime = Runtime::new();
    let mut replayer = Replayer::new(&journal);
    replayer.goto(&mut model, &mut runtime, 13, &no_eval, &no_pick, &keep).unwrap();
    assert_eq!(model.current_tick(), 10);
    assert_eq!(runtime.queued(), 0);
}

#[test]
fn report_counts_messages_by_kind() {
    let journal = create_test_journal();
    let report = Auditor::new(&journal).generate_report();
    assert_eq!(report.total_messages, 15);
    assert_eq!(report.total_ticks, 10);
    assert_eq!(report.first_tick, Some(0));
    assert_eq!(report.last_tick, Some(9));
    assert!(report.event_counts.iter().any(|(k, n)| k == "Tick" && *n == 10));
    assert!(report.event_counts.iter().any(|(k, n)| k == "Event" && *n == 5));
    let auditor = Auditor::new(&journal);
    assert_eq!(auditor.count_event(&DefId::new("test_event")), 5);
    assert_eq!(auditor.unique_events().len(), 1);
}

#[test]
fn step_forward_finishes_at_the_last_tick() {
    let mut journal = Journal::new();
    journal.start_recording();
    journal.record_tick(1);
    journal.record_message(1, Msg::tick(1));
    let mut model = Model::new();
    let mut runtime = Runtime::new();
    let mut replayer = Replayer::new(&journal);
    assert_eq!(replayer.step_forward(&mut model, &mut runtime, &no_eval, &no_pick, &keep).unwrap(), true);
    assert_eq!(replayer.state(), ReplayState::Finished);
    assert_eq!(replayer.step_forward(&mut model, &mut runtime, &no_eval, &no_pick, &keep).unwrap(), false);
    assert_eq!(replayer.current_tick(), 1);
}

fn params_text(p: &ValueMap) -> String {
    format!("{} params", p.len())
}

#[test]
fn test_export_text() {
    let mut model = Model::new();
    let mut runtime = Runtime::new();
    let mut journal = Journal::with_config(JournalConfig {
        recording_enabled: true,
        snapshot_interval: 5,
        ..Default::default()
    });
    for _ in 0..10 {
        runtime.tick_with_journal(&mut model, &mut journal, &no_eval, &no_pick, &keep);
    }
    journal.record_metadata(5, "test_key", "test_value");
    let text = journal_text(&journal, &params_text);
    assert!(text.contains("Journal Export"));
    assert!(text.contains("Tick"));
    assert!(text.contains("  [META] test_key=test_value at tick 5\n"));
}

#[test]
fn exported_text_groups_entries_under_ticks() {
    let mut journal = Journal::new();
    journal.start_recording();
    journal.record_tick(3);
    journal.record_message(3, Msg::tick(3));
    let text = journal_text(&journal, &params_text);
    let expected = "=== Journal Export ===\n\nTotal entries: 2\nMessages: 1\nTicks: 1\nSnapshots: 0\nTick range: 3 - 3\n\n=== Entries ===\n\n\n--- Tick 3 ---\n  #0 Tick\n";
    assert_eq!(text, expected);
}

#[test]
fn test_export_csv() {
    let mut model = Model::new();
    let mut runtime = Runtime::new();
    let mut journal = Journal::with_config(JournalConfig {
        recording_enabled: true,
        snapshot_interval: 5,
        ..Default::default()
    });
    for _ in 0..10 {
        runtime.tick_with_journal(&mut model, &mut journal, &no_eval, &no_pick, &keep);
    }
    journal.record_metadata(5, "test_key", "test_value");
    let csv = journal_csv(&journal, &params_text);
    assert!(csv.starts_with("tick,seq,kind,event_id,actor,params\n"));
    assert!(csv.lines().count() > 1);
}

#[test]
fn csv_doubles_quotes_in_parameters() {
    let mut journal = Journal::new();
    journal.start_recording();
    journal.record_tick(2);
    journal.record_message(2, Msg::event("hit", EntityRef::Global, 2));
    let quoted = |_: &ValueMap| "{\"a\": 1}".to_string();
    let csv = journal_csv(&journal, &quoted);
    assert_eq!(csv, "tick,seq,kind,event_id,actor,params\n2,0,Event,hit,,\"{\"\"a\"\": 1}\"\n");
}
