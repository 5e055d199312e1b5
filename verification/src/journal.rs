//! Recording of messages, tick boundaries, snapshots and metadata for replay and audit.
use vstd::prelude::*;
use crate::model::Model;
use crate::msg::{Msg, MsgModel};

verus! {

/// Identifier of a snapshot.
#[derive(Debug, Clone, Copy, PartialEq, Eq, Structural, Hash)]
pub struct SnapshotId(pub u64);

impl SnapshotId {
    /// A snapshot ID.
    pub fn new(id: u64) -> (r: Self)
        ensures
            r.0 == id,
    {
        SnapshotId(id)
    }
}

/// An entry of the journal.
#[derive(Debug)]
pub enum JournalEntry {
    /// A message processed at a tick, with its sequence number within the tick.
    Message { tick: u64, msg: Msg, seq: u64 },
    /// The start of a tick.
    TickBoundary { tick: u64 },
    /// A snapshot taken at a tick.
    Snapshot { tick: u64, snapshot_id: SnapshotId },
    /// A key and value recorded at a tick.
    Metadata { tick: u64, key: String, value: String },
}

/// The model of a journal entry.
pub enum EntryModel {
    Message { tick: u64, msg: MsgModel, seq: u64 },
    TickBoundary { tick: u64 },
    Snapshot { tick: u64, snapshot_id: u64 },
    Metadata { tick: u64, key: Seq<char>, value: Seq<char> },
}

/// The model of a journal entry.
pub open spec fn entry_model(e: &JournalEntry) -> EntryModel {
    match e {
        JournalEntry::Message { tick, msg, seq } => EntryModel::Message { tick: *tick, msg: msg.model(), seq: *seq },
        JournalEntry::TickBoundary { tick } => EntryModel::TickBoundary { tick: *tick },
        JournalEntry::Snapshot { tick, snapshot_id } => EntryModel::Snapshot {
            tick: *tick,
            snapshot_id: snapshot_id.0,
        },
        JournalEntry::Metadata { tick, key, value } => EntryModel::Metadata {
            tick: *tick,
            key: key@,
            value: value@,
        },
    }
}

/// Models of journal entries.
pub open spec fn entries_model(s: Seq<JournalEntry>) -> Seq<EntryModel> {
    s.map_values(|e: JournalEntry| entry_model(&e))
}

/// The tick of an entry.
pub open spec fn entry_tick(e: EntryModel) -> u64 {
    match e {
        EntryModel::Message { tick, .. } => tick,
        EntryModel::TickBoundary { tick } => tick,
        EntryModel::Snapshot { tick, .. } => tick,
        EntryModel::Metadata { tick, .. } => tick,
    }
}

impl JournalEntry {
    /// The tick of this entry.
    pub fn tick(&self) -> (r: u64)
        ensures
            r == entry_tick(entry_model(self)),
    {
        match self {
            JournalEntry::Message { tick, .. } => *tick,
            JournalEntry::TickBoundary { tick } => *tick,
            JournalEntry::Snapshot { tick, .. } => *tick,
            JournalEntry::Metadata { tick, .. } => *tick,
        }
    }
}

/// A saved model at a tick.
#[derive(Debug)]
pub struct Snapshot {
    /// The snapshot's ID.
    pub id: SnapshotId,
    /// The tick it was taken at.
    pub tick: u64,
    /// The saved model.
    pub model: Model,
}

/// Configuration of a journal.
#[derive(Debug, Clone, Copy)]
pub struct JournalConfig {
    /// Whether messages are recorded.
    pub recording_enabled: bool,
    /// Ticks between snapshots (0: never).
    pub snapshot_interval: u64,
    /// Most entries kept (0: unlimited).
    pub max_entries: usize,
    /// Most snapshots kept (0: unlimited).
    pub max_snapshots: usize,
}

impl Default for JournalConfig {
    fn default() -> (r: Self)
        ensures
            !r.recording_enabled,
            r.snapshot_interval == 100,
            r.max_entries == 0,
            r.max_snapshots == 10,
    {
        JournalConfig {
            recording_enabled: false,
            snapshot_interval: 100,
            max_entries: 0,
            max_snapshots: 10,
        }
    }
}

/// Statistics of a journal.
#[derive(Debug, Clone, Copy)]
pub struct JournalStats {
    /// Number of entries.
    pub total_entries: usize,
    /// Number of message entries.
    pub message_count: usize,
    /// Number of tick boundaries.
    pub tick_count: usize,
    /// Number of snapshots.
    pub snapshot_count: usize,
    /// Tick of the first entry.
    pub first_tick: Option<u64>,
    /// Last tick recorded.
    pub last_tick: Option<u64>,
}

/// The last `max` elements of `s` when `max` is positive and `s` is longer; `s` otherwise.
pub open spec fn keep_last<T>(s: Seq<T>, max: usize) -> Seq<T> {
    if max > 0 && s.len() > max {
        s.subrange(s.len() - max, s.len() as int)
    } else {
        s
    }
}

/// A journal with an entry limit never holds more entries than the limit after trimming,
/// and trimming keeps the newest entries in order.
pub proof fn lemma_keep_last_bound<T>(s: Seq<T>, max: usize)
    ensures
        max > 0 ==> keep_last(s, max).len() <= max,
        keep_last(s, max).len() <= s.len(),
        forall|i: int|
            0 <= i < keep_last(s, max).len() ==> #[trigger] keep_last(s, max)[i] == s[s.len()
                - keep_last(s, max).len() + i],
{
}

/// Number of message entries.
pub open spec fn message_count(s: Seq<EntryModel>) -> nat
    decreases s.len(),
{
    if s.len() == 0 {
        0
    } else {
        message_count(s.drop_last()) + if s.last() is Message {
            1nat
        } else {
            0nat
        }
    }
}

/// The messages of the entries with their ticks, in order.
pub open spec fn message_list(s: Seq<EntryModel>) -> Seq<(u64, MsgModel)>
    decreases s.len(),
{
    if s.len() == 0 {
        Seq::empty()
    } else {
        message_list(s.drop_last()) + match s.last() {
            EntryModel::Message { tick, msg, .. } => seq![(tick, msg)],
            _ => Seq::empty(),
        }
    }
}

/// The tick and model of a listed message.
pub open spec fn listed_message(p: (u64, &Msg)) -> (u64, MsgModel) {
    (p.0, p.1.model())
}

/// Number of tick boundaries.
pub open spec fn boundary_count(s: Seq<EntryModel>) -> nat
    decreases s.len(),
{
    if s.len() == 0 {
        0
    } else {
        boundary_count(s.drop_last()) + if s.last() is TickBoundary {
            1nat
        } else {
            0nat
        }
    }
}

/// The ID and tick of each snapshot.
pub open spec fn snapshot_keys(s: Seq<Snapshot>) -> Seq<(u64, u64)> {
    s.map_values(|x: Snapshot| (x.id.0, x.tick))
}

/// Snapshot `i` of `snaps` is the latest taken at or before `tick`: no other at or before
/// `tick` is later, and none after it in the list has its tick.
pub open spec fn latest_at_or_before(snaps: Seq<Snapshot>, tick: u64, i: int) -> bool {
    &&& 0 <= i < snaps.len()
    &&& snaps[i].tick <= tick
    &&& forall|j: int| 0 <= j < snaps.len() && (#[trigger] snaps[j]).tick <= tick ==> snaps[j].tick <= snaps[i].tick
    &&& forall|j: int| i < j < snaps.len() ==> (#[trigger] snaps[j]).tick != snaps[i].tick
}

/// A recording of messages and snapshots.
#[derive(Debug)]
pub struct Journal {
    config: JournalConfig,
    entries: Vec<JournalEntry>,
    snapshots: Vec<Snapshot>,
    current_seq: u64,
    next_snapshot_id: u64,
    last_recorded_tick: Option<u64>,
}

impl Default for Journal {
    /// An empty journal with the default configuration.
    fn default() -> (r: Self)
        ensures
            (r.spec_config() == JournalConfig {
                recording_enabled: false,
                snapshot_interval: 100,
                max_entries: 0,
                max_snapshots: 10,
            }),
            r.spec_entries().len() == 0,
            r.spec_snapshots().len() == 0,
            r.spec_current_seq() == 0,
            r.spec_next_snapshot_id() == 0,
            r.spec_last_tick() is None,
    {
        Journal::new()
    }
}

impl Journal {
    #[verifier::type_invariant]
    spec fn inv(self) -> bool {
        self.config.max_snapshots > 0 ==> self.snapshots@.len() <= self.config.max_snapshots
    }

    /// The configuration.
    pub closed spec fn spec_config(&self) -> JournalConfig {
        self.config
    }

    /// The entries, in order.
    pub closed spec fn spec_entries(&self) -> Seq<EntryModel> {
        entries_model(self.entries@)
    }

    /// The snapshots, oldest first.
    pub closed spec fn spec_snapshots(&self) -> Seq<Snapshot> {
        self.snapshots@
    }

    /// The sequence number of the next message in the current tick.
    pub closed spec fn spec_current_seq(&self) -> u64 {
        self.current_seq
    }

    /// The ID the next snapshot gets.
    pub closed spec fn spec_next_snapshot_id(&self) -> u64 {
        self.next_snapshot_id
    }

    /// The last tick that a boundary was recorded for.
    pub closed spec fn spec_last_tick(&self) -> Option<u64> {
        self.last_recorded_tick
    }

    /// An empty journal with the default configuration.
    pub fn new() -> (r: Self)
        ensures
            (r.spec_config() == JournalConfig {
                recording_enabled: false,
                snapshot_interval: 100,
                max_entries: 0,
                max_snapshots: 10,
            }),
            r.spec_entries().len() == 0,
            r.spec_snapshots().len() == 0,
            r.spec_current_seq() == 0,
            r.spec_next_snapshot_id() == 0,
            r.spec_last_tick() is None,
    {
        Self::with_config(JournalConfig::default())
    }

    /// An empty journal with a configuration.
    pub fn with_config(config: JournalConfig) -> (r: Self)
        ensures
            r.spec_config() == config,
            r.spec_entries().len() == 0,
            r.spec_snapshots().len() == 0,
            r.spec_current_seq() == 0,
            r.spec_next_snapshot_id() == 0,
            r.spec_last_tick() is None,
    {
        Journal {
            config,
            entries: Vec::new(),
            snapshots: Vec::new(),
            current_seq: 0,
            next_snapshot_id: 0,
            last_recorded_tick: None,
        }
    }

    /// Start recording.
    pub fn start_recording(&mut self)
        ensures
            final(self).spec_config() == (JournalConfig { recording_enabled: true, ..old(self).spec_config() }),
            final(self).spec_entries() == old(self).spec_entries(),
            final(self).spec_snapshots() == old(self).spec_snapshots(),
            final(self).spec_current_seq() == old(self).spec_current_seq(),
            final(self).spec_next_snapshot_id() == old(self).spec_next_snapshot_id(),
            final(self).spec_last_tick() == old(self).spec_last_tick(),
    {
        proof {
            use_type_invariant(&*self);
        }
        self.config.recording_enabled = true;
    }

    /// Stop recording.
    pub fn stop_recording(&mut self)
        ensures
            final(self).spec_config() == (JournalConfig { recording_enabled: false, ..old(self).spec_config() }),
            final(self).spec_entries() == old(self).spec_entries(),
            final(self).spec_snapshots() == old(self).spec_snapshots(),
            final(self).spec_current_seq() == old(self).spec_current_seq(),
            final(self).spec_next_snapshot_id() == old(self).spec_next_snapshot_id(),
            final(self).spec_last_tick() == old(self).spec_last_tick(),
    {
        proof {
            use_type_invariant(&*self);
        }
        self.config.recording_enabled = false;
    }

    /// Whether messages are recorded.
    pub fn is_recording(&self) -> (r: bool)
        ensures
            r == self.spec_config().recording_enabled,
    {
        self.config.recording_enabled
    }

    /// Append an entry.
    fn push_entry(&mut self, e: JournalEntry)
        ensures
            final(self).entries@ == old(self).entries@.push(e),
            final(self).config == old(self).config,
            final(self).snapshots@ == old(self).snapshots@,
            final(self).next_snapshot_id == old(self).next_snapshot_id,
            final(self).last_recorded_tick == old(self).last_recorded_tick,
            final(self).current_seq == old(self).current_seq,
    {
        proof {
            use_type_invariant(&*self);
        }
        let mut es: Vec<JournalEntry> = Vec::new();
        std::mem::swap(&mut es, &mut self.entries);
        es.push(e);
        self.entries = es;
    }

    /// Record a tick boundary unless the tick is the last one recorded; on a new tick the
    /// message sequence restarts at 0.
    fn open_tick(&mut self, tick: u64)
        ensures
            final(self).config == old(self).config,
            final(self).snapshots@ == old(self).snapshots@,
            final(self).next_snapshot_id == old(self).next_snapshot_id,
            final(self).last_recorded_tick == Some(tick),
            old(self).last_recorded_tick == Some(tick) ==> entries_model(final(self).entries@)
                == entries_model(old(self).entries@) && final(self).current_seq
                == old(self).current_seq,
            old(self).last_recorded_tick != Some(tick) ==> entries_model(final(self).entries@)
                == entries_model(old(self).entries@).push(EntryModel::TickBoundary { tick })
                && final(self).current_seq == 0,
    {
        proof {
            use_type_invariant(&*self);
        }
        let same = match self.last_recorded_tick {
            Some(t) => t == tick,
            None => false,
        };
        if !same {
            let ghost before = self.entries@;
            self.push_entry(JournalEntry::TickBoundary { tick });
            assert(entries_model(self.entries@) =~= entries_model(before).push(
                EntryModel::TickBoundary { tick },
            ));
            self.last_recorded_tick = Some(tick);
            self.current_seq = 0;
        }
    }

    /// Drop the oldest entries beyond the limit.
    fn enforce_limits(&mut self)
        ensures
            final(self).config == old(self).config,
            final(self).snapshots@ == old(self).snapshots@,
            final(self).next_snapshot_id == old(self).next_snapshot_id,
            final(self).last_recorded_tick == old(self).last_recorded_tick,
            final(self).current_seq == old(self).current_seq,
            entries_model(final(self).entries@) == keep_last(
                entries_model(old(self).entries@),
                old(self).config.max_entries,
            ),
    {
        proof {
            use_type_invariant(&*self);
        }
        let max = self.config.max_entries;
        let n = self.entries.len();
        if max > 0 && n > max {
            let excess = n - max;
            let ghost old_e = self.entries@;
            let mut kept: Vec<JournalEntry> = Vec::new();
            let mut all: Vec<JournalEntry> = Vec::new();
            std::mem::swap(&mut all, &mut self.entries);
            // reverse, drop the oldest, then restore the order of the rest
            let mut rev: Vec<JournalEntry> = Vec::new();
            while all.len() > 0
                invariant
                    n == old_e.len(),
                    all@.len() + rev@.len() == n,
                    all@ == old_e.subrange(0, all@.len() as int),
                    forall|j: int| 0 <= j < rev@.len() ==> #[trigger] rev@[j] == old_e[n - 1 - j],
                decreases all@.len(),
            {
                let e = all.pop().unwrap();
                rev.push(e);
                assert(all@ =~= old_e.subrange(0, all@.len() as int));
            }
            let mut dropped: usize = 0;
            while dropped < excess
                invariant
                    n == old_e.len(),
                    excess < n,
                    dropped <= excess,
                    rev@.len() + dropped == n,
                    forall|j: int| 0 <= j < rev@.len() ==> #[trigger] rev@[j] == old_e[n - 1 - j],
                decreases excess - dropped,
            {
                let _ = rev.pop();
                dropped = dropped + 1;
            }
            while rev.len() > 0
                invariant
                    n == old_e.len(),
                    rev@.len() + excess + kept@.len() == n,
                    forall|j: int| 0 <= j < rev@.len() ==> #[trigger] rev@[j] == old_e[n - 1 - j],
                    kept@ == old_e.subrange(excess as int, (excess + kept@.len()) as int),
                decreases rev@.len(),
            {
                let e = rev.pop().unwrap();
                kept.push(e);
                assert(kept@ =~= old_e.subrange(excess as int, (excess + kept@.len()) as int));
            }
            assert(kept@ =~= old_e.subrange(excess as int, n as int));
            assert(entries_model(kept@) =~= entries_model(old_e).subrange(
                entries_model(old_e).len() - max,
                entries_model(old_e).len() as int,
            ));
            self.entries = kept;
        }
    }

    /// Drop the oldest snapshots beyond the limit.
    fn enforce_snapshot_limits(snapshots: &mut Vec<Snapshot>, max: usize)
        ensures
            final(snapshots)@ == keep_last(old(snapshots)@, max),
    {
        let n = snapshots.len();
        if max > 0 && n > max {
            let excess = n - max;
            let ghost old_s = snapshots@;
            let mut all: Vec<Snapshot> = Vec::new();
            std::mem::swap(&mut all, snapshots);
            let mut rev: Vec<Snapshot> = Vec::new();
            while all.len() > 0
                invariant
                    n == old_s.len(),
                    all@.len() + rev@.len() == n,
                    all@ == old_s.subrange(0, all@.len() as int),
                    forall|j: int| 0 <= j < rev@.len() ==> #[trigger] rev@[j] == old_s[n - 1 - j],
                decreases all@.len(),
            {
                let e = all.pop().unwrap();
                rev.push(e);
                assert(all@ =~= old_s.subrange(0, all@.len() as int));
            }
            let mut dropped: usize = 0;
            while dropped < excess
                invariant
                    n == old_s.len(),
                    excess < n,
                    dropped <= excess,
                    rev@.len() + dropped == n,
                    forall|j: int| 0 <= j < rev@.len() ==> #[trigger] rev@[j] == old_s[n - 1 - j],
                decreases excess - dropped,
            {
                let _ = rev.pop();
                dropped = dropped + 1;
            }
            let mut kept: Vec<Snapshot> = Vec::new();
            while rev.len() > 0
                invariant
                    n == old_s.len(),
                    rev@.len() + excess + kept@.len() == n,
                    forall|j: int| 0 <= j < rev@.len() ==> #[trigger] rev@[j] == old_s[n - 1 - j],
                    kept@ == old_s.subrange(excess as int, (excess + kept@.len()) as int),
                decreases rev@.len(),
            {
                let e = rev.pop().unwrap();
                kept.push(e);
                assert(kept@ =~= old_s.subrange(excess as int, (excess + kept@.len()) as int));
            }
            assert(kept@ =~= old_s.subrange(excess as int, n as int));
            *snapshots = kept;
        }
    }

    /// Record a message at a tick (when recording): a tick boundary first if the tick is
    /// new, then the message with the next sequence number of its tick; then the oldest
    /// entries beyond the limit are dropped.
    pub fn record_message(&mut self, tick: u64, msg: Msg)
        requires
            old(self).spec_config().recording_enabled && old(self).spec_last_tick() == Some(tick)
                ==> old(self).spec_current_seq() < u64::MAX,
        ensures
            !old(self).spec_config().recording_enabled ==> *final(self) == *old(self),
            old(self).spec_config().recording_enabled ==> ({
                let fresh = old(self).spec_last_tick() != Some(tick);
                let with_boundary = if fresh {
                    old(self).spec_entries().push(EntryModel::TickBoundary { tick })
                } else {
                    old(self).spec_entries()
                };
                let seq: u64 = if fresh {
                    0
                } else {
                    old(self).spec_current_seq()
                };
                &&& final(self).spec_entries() == keep_last(
                    with_boundary.push(EntryModel::Message { tick, msg: msg.model(), seq }),
                    old(self).spec_config().max_entries,
                )
                &&& final(self).spec_current_seq() == seq + 1
                &&& final(self).spec_last_tick() == Some(tick)
                &&& final(self).spec_config() == old(self).spec_config()
                &&& final(self).spec_snapshots() == old(self).spec_snapshots()
                &&& final(self).spec_next_snapshot_id() == old(self).spec_next_snapshot_id()
            }),
    {
        if !self.config.recording_enabled {
            return;
        }
        self.open_tick(tick);
        let seq = self.current_seq;
        let ghost before = self.entries@;
        let ghost mm = msg.model();
        self.push_entry(JournalEntry::Message { tick, msg, seq });
        assert(entries_model(self.entries@) =~= entries_model(before).push(
            EntryModel::Message { tick, msg: mm, seq },
        ));
        proof {
            use_type_invariant(&*self);
        }
        self.current_seq = seq + 1;
        self.enforce_limits();
    }

    /// Record a tick boundary (when recording) unless the tick is the last one recorded;
    /// then the oldest entries beyond the limit are dropped.
    pub fn record_tick(&mut self, tick: u64)
        ensures
            !old(self).spec_config().recording_enabled ==> *final(self) == *old(self),
            old(self).spec_config().recording_enabled ==> ({
                let fresh = old(self).spec_last_tick() != Some(tick);
                &&& final(self).spec_entries() == keep_last(
                    if fresh {
                        old(self).spec_entries().push(EntryModel::TickBoundary { tick })
                    } else {
                        old(self).spec_entries()
                    },
                    old(self).spec_config().max_entries,
                )
                &&& final(self).spec_current_seq() == if fresh {
                    0
                } else {
                    old(self).spec_current_seq()
                }
                &&& final(self).spec_last_tick() == Some(tick)
                &&& final(self).spec_config() == old(self).spec_config()
                &&& final(self).spec_snapshots() == old(self).spec_snapshots()
                &&& final(self).spec_next_snapshot_id() == old(self).spec_next_snapshot_id()
            }),
    {
        if !self.config.recording_enabled {
            return;
        }
        self.open_tick(tick);
        self.enforce_limits();
    }

    /// Save a copy of the model as a snapshot with the next ID and the model's tick; when
    /// recording, a snapshot entry is added (entries are not trimmed here). The oldest
    /// snapshots beyond the limit are dropped.
    pub fn take_snapshot(&mut self, model: &Model) -> (r: SnapshotId)
        requires
            old(self).spec_next_snapshot_id() < u64::MAX,
        ensures
            r.0 == old(self).spec_next_snapshot_id(),
            final(self).spec_next_snapshot_id() == old(self).spec_next_snapshot_id() + 1,
            snapshot_keys(final(self).spec_snapshots()) == keep_last(
                snapshot_keys(old(self).spec_snapshots()).push((r.0, model.time.tick)),
                old(self).spec_config().max_snapshots,
            ),
            final(self).spec_snapshots().len() > 0,
            final(self).spec_snapshots().last().model.entities@ == model.entities@,
            final(self).spec_snapshots().last().model.globals@ == model.globals@,
            final(self).spec_snapshots().last().model.time == model.time,
            final(self).spec_snapshots().last().model.rng@ == model.rng@,
            old(self).spec_config().recording_enabled ==> final(self).spec_entries() == old(
                self,
            ).spec_entries().push(EntryModel::Snapshot { tick: model.time.tick, snapshot_id: r.0 }),
            !old(self).spec_config().recording_enabled ==> final(self).spec_entries() == old(
                self,
            ).spec_entries(),
            final(self).spec_config() == old(self).spec_config(),
            final(self).spec_current_seq() == old(self).spec_current_seq(),
            final(self).spec_last_tick() == old(self).spec_last_tick(),
    {
        proof {
            use_type_invariant(&*self);
        }
        let id = SnapshotId::new(self.next_snapshot_id);
        self.next_snapshot_id = self.next_snapshot_id + 1;
        let tick = model.current_tick();
        let snapshot = Snapshot { id, tick, model: model.duplicate() };
        let mut snaps: Vec<Snapshot> = Vec::new();
        std::mem::swap(&mut snaps, &mut self.snapshots);
        let ghost old_snaps = snaps@;
        snaps.push(snapshot);
        let ghost pushed = snaps@;
        assert(snapshot_keys(pushed) =~= snapshot_keys(old_snaps).push((id.0, tick)));
        Self::enforce_snapshot_limits(&mut snaps, self.config.max_snapshots);
        proof {
            if self.config.max_snapshots > 0 && pushed.len() > self.config.max_snapshots {
                assert(snaps@.last() == pushed.last());
            }
            assert(snapshot_keys(snaps@) =~= keep_last(snapshot_keys(pushed), self.config.max_snapshots));
        }
        self.snapshots = snaps;
        if self.config.recording_enabled {
            let ghost before = self.entries@;
            self.push_entry(JournalEntry::Snapshot { tick, snapshot_id: id });
            assert(entries_model(self.entries@) =~= entries_model(before).push(
                EntryModel::Snapshot { tick, snapshot_id: id.0 },
            ));
        }
        id
    }

    /// Whether a snapshot is due at a tick: the interval is positive and divides the tick.
    pub fn should_snapshot(&self, tick: u64) -> (r: bool)
        ensures
            r == (self.spec_config().snapshot_interval != 0 && tick % self.spec_config().snapshot_interval
                == 0),
    {
        if self.config.snapshot_interval == 0 {
            return false;
        }
        tick % self.config.snapshot_interval == 0
    }

    /// Record a key and value at a tick (when recording); then the oldest entries beyond
    /// the limit are dropped.
    pub fn record_metadata(&mut self, tick: u64, key: &str, value: &str)
        ensures
            !old(self).spec_config().recording_enabled ==> *final(self) == *old(self),
            old(self).spec_config().recording_enabled ==> ({
                &&& final(self).spec_entries() == keep_last(
                    old(self).spec_entries().push(
                        EntryModel::Metadata { tick, key: key@, value: value@ },
                    ),
                    old(self).spec_config().max_entries,
                )
                &&& final(self).spec_current_seq() == old(self).spec_current_seq()
                &&& final(self).spec_last_tick() == old(self).spec_last_tick()
                &&& final(self).spec_config() == old(self).spec_config()
                &&& final(self).spec_snapshots() == old(self).spec_snapshots()
                &&& final(self).spec_next_snapshot_id() == old(self).spec_next_snapshot_id()
            }),
    {
        if !self.config.recording_enabled {
            return;
        }
        let ghost before = self.entries@;
        self.push_entry(
            JournalEntry::Metadata { tick, key: String::from_str(key), value: String::from_str(value) },
        );
        assert(entries_model(self.entries@) =~= entries_model(before).push(
            EntryModel::Metadata { tick, key: key@, value: value@ },
        ));
        self.enforce_limits();
    }

    /// All entries, in order.
    pub fn entries(&self) -> (r: &[JournalEntry])
        ensures
            entries_model(r@) == self.spec_entries(),
    {
        self.entries.as_slice()
    }

    /// The entries at or after a tick, in order.
    pub fn entries_since(&self, tick: u64) -> (r: Vec<&JournalEntry>)
        ensures
            r@.map_values(|e: &JournalEntry| entry_model(e)) == self.spec_entries().filter(
                |e: EntryModel| entry_tick(e) >= tick,
            ),
    {
        let r = self.entries_in_range(tick, u64::MAX);
        assert((|e: EntryModel| tick <= entry_tick(e) <= u64::MAX) =~= (|e: EntryModel|
            entry_tick(e) >= tick));
        r
    }

    /// The entries whose ticks lie in `[start_tick, end_tick]`, in order.
    pub fn entries_in_range(&self, start_tick: u64, end_tick: u64) -> (r: Vec<&JournalEntry>)
        ensures
            r@.map_values(|e: &JournalEntry| entry_model(e)) == self.spec_entries().filter(
                |e: EntryModel| start_tick <= entry_tick(e) <= end_tick,
            ),
    {
        let ghost es = entries_model(self.entries@);
        let ghost pred = |e: EntryModel| start_tick <= entry_tick(e) <= end_tick;
        let n = self.entries.len();
        let mut out: Vec<&JournalEntry> = Vec::new();
        let mut i: usize = 0;
        while i < n
            invariant
                n == self.entries@.len(),
                es == entries_model(self.entries@),
                pred == (|e: EntryModel| start_tick <= entry_tick(e) <= end_tick),
                i <= n,
                out@.map_values(|e: &JournalEntry| entry_model(e)) == es.subrange(0, i as int).filter(pred),
            decreases n - i,
        {
            let e = &self.entries[i];
            let t = e.tick();
            proof {
                reveal_with_fuel(Seq::<EntryModel>::filter, 1);
                assert(es.subrange(0, i + 1).drop_last() =~= es.subrange(0, i as int));
                assert(es[i as int] == entry_model(e));
            }
            let ghost before = out@;
            if start_tick <= t && t <= end_tick {
                out.push(e);
                assert(out@.map_values(|e: &JournalEntry| entry_model(e)) =~= before.map_values(
                    |e: &JournalEntry| entry_model(e),
                ).push(entry_model(e)));
            }
            i = i + 1;
        }
        assert(es.subrange(0, n as int) =~= es);
        proof {
            assert((|e: EntryModel| start_tick <= entry_tick(e) <= end_tick) == pred);
        }
        out
    }

    /// The recorded messages with their ticks, in order.
    pub fn messages(&self) -> (r: Vec<(u64, &Msg)>)
        ensures
            r@.map_values(|p: (u64, &Msg)| listed_message(p)) == message_list(self.spec_entries()),
            r@.len() == message_count(self.spec_entries()),
    {
        let ghost es = entries_model(self.entries@);
        let n = self.entries.len();
        let mut out: Vec<(u64, &Msg)> = Vec::new();
        let mut i: usize = 0;
        while i < n
            invariant
                n == self.entries@.len(),
                es == entries_model(self.entries@),
                i <= n,
                out@.len() == message_count(es.subrange(0, i as int)),
                out@.map_values(|p: (u64, &Msg)| listed_message(p)) == message_list(es.subrange(0, i as int)),
            decreases n - i,
        {
            proof {
                assert(es.subrange(0, i + 1).drop_last() =~= es.subrange(0, i as int));
                assert(es[i as int] == entry_model(&self.entries@[i as int]));
            }
            let ghost before = out@;
            match &self.entries[i] {
                JournalEntry::Message { tick, msg, .. } => {
                    out.push((*tick, msg));
                    proof {
                        assert(out@.map_values(|p: (u64, &Msg)| listed_message(p)) =~= before.map_values(
                            |p: (u64, &Msg)| listed_message(p),
                        ) + seq![(*tick, msg.model())]);
                    }
                },
                _ => {
                    proof {
                        assert(out@.map_values(|p: (u64, &Msg)| listed_message(p)) =~= before.map_values(
                            |p: (u64, &Msg)| listed_message(p),
                        ) + Seq::<(u64, MsgModel)>::empty());
                    }
                },
            }
            i = i + 1;
        }
        assert(es.subrange(0, n as int) =~= es);
        out
    }

    /// The snapshots, oldest first.
    pub fn snapshots(&self) -> (r: &[Snapshot])
        ensures
            r@ == self.spec_snapshots(),
    {
        self.snapshots.as_slice()
    }

    /// The latest snapshot taken at or before a tick (the last one among equal ticks).
    pub fn snapshot_at_or_before(&self, tick: u64) -> (r: Option<&Snapshot>)
        ensures
            r is None <==> forall|i: int|
                0 <= i < self.spec_snapshots().len() ==> (#[trigger] self.spec_snapshots()[i]).tick > tick,
            r matches Some(s) ==> exists|i: int|
                #[trigger] latest_at_or_before(self.spec_snapshots(), tick, i) && self.spec_snapshots()[i] == *s,
    {
        let ghost ss = self.snapshots@;
        let n = self.snapshots.len();
        let mut best: Option<usize> = None;
        let mut i: usize = 0;
        while i < n
            invariant
                n == ss.len(),
                ss == self.snapshots@,
                i <= n,
                best is None <==> forall|j: int| 0 <= j < i ==> (#[trigger] ss[j]).tick > tick,
                best matches Some(b) ==> b < i && ss[b as int].tick <= tick && (forall|j: int|
                    0 <= j < i && (#[trigger] ss[j]).tick <= tick ==> ss[j].tick <= ss[b as int].tick)
                    && (forall|j: int| b < j < i ==> (#[trigger] ss[j]).tick != ss[b as int].tick),
            decreases n - i,
        {
            let t = self.snapshots[i].tick;
            if t <= tick {
                match best {
                    None => {
                        best = Some(i);
                    },
                    Some(b) => {
                        if t >= self.snapshots[b].tick {
                            best = Some(i);
                        }
                    },
                }
            }
            i = i + 1;
        }
        match best {
            None => None,
            Some(b) => {
                assert(latest_at_or_before(ss, tick, b as int));
                Some(&self.snapshots[b])
            },
        }
    }

    /// The first snapshot with an ID.
    pub fn get_snapshot(&self, id: SnapshotId) -> (r: Option<&Snapshot>)
        ensures
            r is None <==> forall|i: int|
                0 <= i < self.spec_snapshots().len() ==> (#[trigger] self.spec_snapshots()[i]).id != id,
            r matches Some(s) ==> exists|i: int|
                0 <= i < self.spec_snapshots().len() && self.spec_snapshots()[i] == *s && s.id == id
                    && forall|j: int| 0 <= j < i ==> (#[trigger] self.spec_snapshots()[j]).id != id,
    {
        let n = self.snapshots.len();
        let mut i: usize = 0;
        while i < n
            invariant
                n == self.snapshots@.len(),
                i <= n,
                forall|j: int| 0 <= j < i ==> (#[trigger] self.snapshots@[j]).id != id,
            decreases n - i,
        {
            if self.snapshots[i].id == id {
                return Some(&self.snapshots[i]);
            }
            i = i + 1;
        }
        None
    }

    /// Drop all entries and snapshots and forget the last tick; snapshot IDs keep counting.
    pub fn clear(&mut self)
        ensures
            final(self).spec_entries().len() == 0,
            final(self).spec_snapshots().len() == 0,
            final(self).spec_current_seq() == 0,
            final(self).spec_last_tick() is None,
            final(self).spec_config() == old(self).spec_config(),
            final(self).spec_next_snapshot_id() == old(self).spec_next_snapshot_id(),
    {
        proof {
            use_type_invariant(&*self);
        }
        self.entries = Vec::new();
        self.snapshots = Vec::new();
        self.current_seq = 0;
        self.last_recorded_tick = None;
    }

    /// Statistics: entry, message, boundary and snapshot counts, the first entry's tick and
    /// the last recorded tick.
    pub fn stats(&self) -> (r: JournalStats)
        ensures
            r.total_entries == self.spec_entries().len(),
            r.message_count == message_count(self.spec_entries()),
            r.tick_count == boundary_count(self.spec_entries()),
            r.snapshot_count == self.spec_snapshots().len(),
            r.first_tick == if self.spec_entries().len() == 0 {
                None
            } else {
                Some(entry_tick(self.spec_entries()[0]))
            },
            r.last_tick == self.spec_last_tick(),
    {
        let ghost es = entries_model(self.entries@);
        let n = self.entries.len();
        let mut messages: usize = 0;
        let mut boundaries: usize = 0;
        let mut i: usize = 0;
        while i < n
            invariant
                n == self.entries@.len(),
                es == entries_model(self.entries@),
                i <= n,
                messages == message_count(es.subrange(0, i as int)),
                boundaries == boundary_count(es.subrange(0, i as int)),
                messages <= i,
                boundaries <= i,
            decreases n - i,
        {
            proof {
                assert(es.subrange(0, i + 1).drop_last() =~= es.subrange(0, i as int));
                assert(es[i as int] == entry_model(&self.entries@[i as int]));
            }
            match &self.entries[i] {
                JournalEntry::Message { .. } => {
                    messages = messages + 1;
                },
                JournalEntry::TickBoundary { .. } => {
                    boundaries = boundaries + 1;
                },
                _ => {},
            }
            i = i + 1;
        }
        assert(es.subrange(0, n as int) =~= es);
        let first_tick = if n == 0 {
            None
        } else {
            Some(self.entries[0].tick())
        };
        JournalStats {
            total_entries: n,
            message_count: messages,
            tick_count: boundaries,
            snapshot_count: self.snapshots.len(),
            first_tick,
            last_tick: self.last_recorded_tick,
        }
    }
}

} // verus!
