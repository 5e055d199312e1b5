use pulsive::model::Model;
use pulsive::rollback::{RollbackBuffer, StateHistory};
use pulsive::input_buffer::NetcodeError;
use pulsive::reconciliation::Reconciler;

#[test]
fn test_new() {
    let buffer = RollbackBuffer::new(64);
    assert_eq!(buffer.capacity(), Some(64));
    assert_eq!(buffer.len(), 0);
    assert!(buffer.is_empty());
}

#[test]
fn lib_test_save_and_get() {
    let mut buffer = RollbackBuffer::new(64);
    let model = Model::new();
    buffer.save_state(10, &model);
    buffer.save_state(11, &model);
    buffer.save_state(12, &model);
    assert_eq!(buffer.len(), 3);
    assert!(buffer.get_state(10).is_some());
    assert!(buffer.get_state(11).is_some());
    assert!(buffer.get_state(12).is_some());
    assert!(buffer.get_state(13).is_none());
}

#[test]
fn test_ring_buffer_wrap() {
    let mut buffer = RollbackBuffer::new(4);
    let model = Model::new();
    for t in 0..4 {
        buffer.save_state(t, &model);
    }
    assert_eq!(buffer.len(), 4);
    buffer.save_state(4, &model);
    buffer.save_state(5, &model);
    assert!(buffer.get_state(0).is_none());
    assert!(buffer.get_state(1).is_none());
    assert!(buffer.get_state(4).is_some());
    assert!(buffer.get_state(5).is_some());
}

fn buffer_10_20_30() -> RollbackBuffer {
    let mut buffer = RollbackBuffer::new(64);
    let model = Model::new();
    buffer.save_state(10, &model);
    buffer.save_state(20, &model);
    buffer.save_state(30, &model);
    buffer
}

#[test]
fn lib_test_nearest_before() {
    let buffer = buffer_10_20_30();
    assert_eq!(buffer.get_nearest_before(25).unwrap().0, 20);
    assert_eq!(buffer.get_nearest_before(30).unwrap().0, 30);
    assert_eq!(buffer.get_nearest_before(35).unwrap().0, 30);
}

#[test]
fn lib_test_nearest_after() {
    let buffer = buffer_10_20_30();
    assert_eq!(buffer.get_nearest_after(15).unwrap().0, 20);
    assert_eq!(buffer.get_nearest_after(10).unwrap().0, 10);
    assert!(buffer.get_nearest_after(35).is_none());
}

#[test]
fn lib_test_clear_before() {
    let mut buffer = buffer_10_20_30();
    buffer.clear_before(20);
    assert!(buffer.get_state(10).is_none());
    assert!(buffer.get_state(20).is_some());
    assert!(buffer.get_state(30).is_some());
}

#[test]
fn lib_test_tick_range() {
    let mut buffer = RollbackBuffer::new(64);
    let model = Model::new();
    assert!(buffer.tick_range().is_none());
    buffer.save_state(10, &model);
    assert_eq!(buffer.tick_range(), Some((10, 10)));
    buffer.save_state(30, &model);
    assert_eq!(buffer.tick_range(), Some((10, 30)));
    buffer.save_state(20, &model);
    assert_eq!(buffer.tick_range(), Some((10, 30)));
}

#[test]
fn test_stats() {
    let buffer = buffer_10_20_30();
    let stats = buffer.stats();
    assert_eq!(stats.capacity, 64);
    assert_eq!(stats.count, 3);
    assert_eq!(stats.oldest_tick, 10);
    assert_eq!(stats.newest_tick, 30);
    assert_eq!(stats.tick_range(), 20);
}

/// A plain, unbounded history kept sorted by tick.
struct SimpleHistory {
    states: Vec<(u64, Model)>,
}

impl SimpleHistory {
    fn new() -> Self {
        SimpleHistory { states: Vec::new() }
    }
}

impl StateHistory for SimpleHistory {
    fn save_state(&mut self, tick: u64, model: &Model) {
        self.states.retain(|(t, _)| *t != tick);
        self.states.push((tick, model.duplicate()));
        self.states.sort_by_key(|(t, _)| *t);
    }

    fn get_state(&self, tick: u64) -> Option<&Model> {
        self.states.iter().find(|(t, _)| *t == tick).map(|(_, m)| m)
    }

    fn get_nearest_before(&self, tick: u64) -> Option<(u64, &Model)> {
        self.states.iter().filter(|(t, _)| *t <= tick).max_by_key(|(t, _)| *t).map(|(t, m)| (*t, m))
    }

    fn get_nearest_after(&self, tick: u64) -> Option<(u64, &Model)> {
        self.states.iter().filter(|(t, _)| *t >= tick).min_by_key(|(t, _)| *t).map(|(t, m)| (*t, m))
    }

    fn clear_before(&mut self, tick: u64) {
        self.states.retain(|(t, _)| *t >= tick);
    }

    fn clear(&mut self) {
        self.states.clear();
    }

    fn capacity(&self) -> Option<usize> {
        None
    }

    fn len(&self) -> usize {
        self.states.len()
    }

    fn tick_range(&self) -> Option<(u64, u64)> {
        match (self.states.first(), self.states.last()) {
            (Some(a), Some(b)) => Some((a.0, b.0)),
            _ => None,
        }
    }
}

fn history_10_20_30() -> SimpleHistory {
    let mut history = SimpleHistory::new();
    let model = Model::new();
    history.save_state(10, &model);
    history.save_state(20, &model);
    history.save_state(30, &model);
    history
}

#[test]
fn state_history_test_save_and_get() {
    let history = history_10_20_30();
    assert!(history.get_state(10).is_some());
    assert!(history.get_state(20).is_some());
    assert!(history.get_state(15).is_none());
}

#[test]
fn state_history_test_nearest_before() {
    let history = history_10_20_30();
    assert_eq!(history.get_nearest_before(25).unwrap().0, 20);
    assert_eq!(history.get_nearest_before(10).unwrap().0, 10);
    assert!(history.get_nearest_before(5).is_none());
}

#[test]
fn state_history_test_nearest_after() {
    let history = history_10_20_30();
    assert_eq!(history.get_nearest_after(15).unwrap().0, 20);
    assert_eq!(history.get_nearest_after(30).unwrap().0, 30);
    assert!(history.get_nearest_after(35).is_none());
}

#[test]
fn state_history_test_clear_before() {
    let mut history = history_10_20_30();
    history.clear_before(20);
    assert!(history.get_state(10).is_none());
    assert!(history.get_state(20).is_some());
    assert!(history.get_state(30).is_some());
    assert_eq!(history.len(), 2);
}

#[test]
fn state_history_test_tick_range() {
    let mut history = SimpleHistory::new();
    let model = Model::new();
    assert!(history.tick_range().is_none());
    assert!(history.is_empty());
    history.save_state(10, &model);
    assert_eq!(history.tick_range(), Some((10, 10)));
    history.save_state(30, &model);
    assert_eq!(history.tick_range(), Some((10, 30)));
    history.save_state(20, &model);
    assert_eq!(history.tick_range(), Some((10, 30)));
}

// Laws and edge cases of the library.

#[test]
fn read_after_save_gives_the_saved_state() {
    let mut buffer = RollbackBuffer::new(8);
    let mut model = Model::new();
    model.advance_tick();
    model.advance_tick();
    buffer.save_state(7, &model);
    assert_eq!(buffer.get_state(7).unwrap().current_tick(), 2);
}

#[test]
fn saving_the_same_tick_again_replaces_the_state() {
    let mut buffer = RollbackBuffer::new(8);
    let first = Model::new();
    let mut second = Model::new();
    second.advance_tick();
    buffer.save_state(3, &first);
    buffer.save_state(3, &second);
    assert_eq!(buffer.len(), 1);
    assert_eq!(buffer.get_state(3).unwrap().current_tick(), 1);
}

#[test]
fn interpolation_states_bracket_the_tick() {
    let buffer = buffer_10_20_30();
    let (before, _, after, _) = buffer.get_interpolation_states(25).unwrap();
    assert_eq!((before, after), (20, 30));
    assert!(buffer.get_interpolation_states(35).is_none());
    let ticks: Vec<u64> = buffer.iter().into_iter().map(|(t, _)| t).collect();
    assert_eq!(ticks, vec![10, 20, 30]);
}

#[test]
fn clear_empties_the_buffer() {
    let mut buffer = buffer_10_20_30();
    buffer.clear();
    assert!(buffer.is_empty());
    assert!(buffer.tick_range().is_none());
    assert_eq!(buffer.stats().tick_range(), 0);
}

#[test]
fn reconciler_over_a_buffer_rolls_back_to_the_latest_earlier_state() {
    let mut reconciler = Reconciler::new(RollbackBuffer::new(16));
    let mut at3 = Model::new();
    at3.advance_tick();
    at3.advance_tick();
    at3.advance_tick();
    let mut at7 = at3.duplicate();
    for _ in 0..4 {
        at7.advance_tick();
    }
    reconciler.save_state(3, &at3);
    reconciler.save_state(7, &at7);
    let mut model = Model::new();
    assert_eq!(reconciler.rollback(&mut model, 5).unwrap(), 3);
    assert_eq!(model.current_tick(), 3);
    assert_eq!(reconciler.rollback(&mut model, 7).unwrap(), 7);
    assert_eq!(model.current_tick(), 7);
    let mut untouched = Model::new();
    let r = reconciler.rollback(&mut untouched, 2);
    assert!(matches!(r, Err(NetcodeError::StateNotFound(2))));
    assert_eq!(untouched.current_tick(), 0);
}

#[test]
fn history_operations_through_the_trait() {
    let mut buffer = RollbackBuffer::new(8);
    let model = Model::new();
    StateHistory::save_state(&mut buffer, 2, &model);
    StateHistory::save_state(&mut buffer, 5, &model);
    assert_eq!(StateHistory::len(&buffer), 2);
    assert!(!StateHistory::is_empty(&buffer));
    assert_eq!(StateHistory::get_nearest_after(&buffer, 3).map(|p| p.0), Some(5));
    assert_eq!(StateHistory::tick_range(&buffer), Some((2, 5)));
    StateHistory::clear_before(&mut buffer, 4);
    assert!(StateHistory::get_state(&buffer, 2).is_none());
    assert!(StateHistory::get_state(&buffer, 5).is_some());
    StateHistory::clear(&mut buffer);
    assert!(StateHistory::is_empty(&buffer));
    assert_eq!(StateHistory::tick_range(&buffer), None);
}
