//! Auditing of a journal: filtered queries, counts and summaries.
use vstd::prelude::*;
use crate::actor::ActorId;
use crate::identity::DefId;
use crate::journal::{boundary_count, entries_model, entry_model, entry_tick, message_count, EntryModel, Journal, JournalEntry};
use crate::msg::{kind_model, MsgKind};
use crate::text::{bytes_less, bytes_lt};
use vstd::utf8::encode_utf8;

verus! {

/// A filter over journal entries. Messages pass when they lie in the tick range and match
/// the actor, event and kind filters that are set; tick boundaries, snapshots and metadata
/// pass only when included (metadata also by key) and in the tick range.
#[derive(Debug)]
pub struct AuditQuery {
    /// Earliest tick.
    pub start_tick: Option<u64>,
    /// Latest tick.
    pub end_tick: Option<u64>,
    /// Only messages of this actor.
    pub actor_id: Option<u64>,
    /// Only messages with this event ID.
    pub event_id: Option<DefId>,
    /// Only messages of this kind.
    pub msg_kind: Option<MsgKind>,
    /// Include tick boundaries.
    pub include_tick_boundaries: bool,
    /// Include snapshot entries.
    pub include_snapshots: bool,
    /// Include metadata entries.
    pub include_metadata: bool,
    /// Only metadata with this key.
    pub metadata_key: Option<String>,
}

/// The model of a query.
pub struct QueryModel {
    pub start_tick: Option<u64>,
    pub end_tick: Option<u64>,
    pub actor_id: Option<u64>,
    pub event_id: Option<Seq<char>>,
    pub msg_kind: Option<(u8, Seq<char>)>,
    pub include_tick_boundaries: bool,
    pub include_snapshots: bool,
    pub include_metadata: bool,
    pub metadata_key: Option<Seq<char>>,
}

impl Default for AuditQuery {
    /// A query that passes every message and nothing else.
    fn default() -> (r: Self)
        ensures
            (r.model() == QueryModel {
                start_tick: None,
                end_tick: None,
                actor_id: None,
                event_id: None,
                msg_kind: None,
                include_tick_boundaries: false,
                include_snapshots: false,
                include_metadata: false,
                metadata_key: None,
            }),
    {
        AuditQuery::new()
    }
}

impl AuditQuery {
    /// The model of this query.
    pub open spec fn model(&self) -> QueryModel {
        QueryModel {
            start_tick: self.start_tick,
            end_tick: self.end_tick,
            actor_id: self.actor_id,
            event_id: match self.event_id {
                Some(e) => Some(e@),
                None => None,
            },
            msg_kind: match self.msg_kind {
                Some(k) => Some(kind_model(&k)),
                None => None,
            },
            include_tick_boundaries: self.include_tick_boundaries,
            include_snapshots: self.include_snapshots,
            include_metadata: self.include_metadata,
            metadata_key: match self.metadata_key {
                Some(k) => Some(k@),
                None => None,
            },
        }
    }

    /// A query that passes every message and nothing else.
    pub fn new() -> (r: Self)
        ensures
            (r.model() == QueryModel {
                start_tick: None,
                end_tick: None,
                actor_id: None,
                event_id: None,
                msg_kind: None,
                include_tick_boundaries: false,
                include_snapshots: false,
                include_metadata: false,
                metadata_key: None,
            }),
    {
        AuditQuery {
            start_tick: None,
            end_tick: None,
            actor_id: None,
            event_id: None,
            msg_kind: None,
            include_tick_boundaries: false,
            include_snapshots: false,
            include_metadata: false,
            metadata_key: None,
        }
    }

    /// Restrict to ticks in `[start, end]`.
    pub fn in_range(self, start: u64, end: u64) -> (r: Self)
        ensures
            (r.model() == QueryModel { start_tick: Some(start), end_tick: Some(end), ..self.model() }),
    {
        let mut q = self;
        q.start_tick = Some(start);
        q.end_tick = Some(end);
        q
    }

    /// Restrict to messages of an actor.
    pub fn by_actor(self, actor_id: u64) -> (r: Self)
        ensures
            (r.model() == QueryModel { actor_id: Some(actor_id), ..self.model() }),
    {
        let mut q = self;
        q.actor_id = Some(actor_id);
        q
    }

    /// Restrict to messages with an event ID.
    pub fn by_event(self, event_id: &str) -> (r: Self)
        ensures
            (r.model() == QueryModel { event_id: Some(event_id@), ..self.model() }),
    {
        let mut q = self;
        q.event_id = Some(DefId::new(event_id));
        q
    }

    /// Restrict to messages of a kind.
    pub fn by_kind(self, kind: MsgKind) -> (r: Self)
        ensures
            (r.model() == QueryModel { msg_kind: Some(kind_model(&kind)), ..self.model() }),
    {
        let mut q = self;
        q.msg_kind = Some(kind);
        q
    }

    /// Include tick boundaries.
    pub fn with_tick_boundaries(self) -> (r: Self)
        ensures
            (r.model() == QueryModel { include_tick_boundaries: true, ..self.model() }),
    {
        let mut q = self;
        q.include_tick_boundaries = true;
        q
    }

    /// Include snapshot entries.
    pub fn with_snapshots(self) -> (r: Self)
        ensures
            (r.model() == QueryModel { include_snapshots: true, ..self.model() }),
    {
        let mut q = self;
        q.include_snapshots = true;
        q
    }

    /// Include metadata entries.
    pub fn with_metadata(self) -> (r: Self)
        ensures
            (r.model() == QueryModel { include_metadata: true, ..self.model() }),
    {
        let mut q = self;
        q.include_metadata = true;
        q
    }

    /// Include metadata entries with a key only.
    pub fn metadata_with_key(self, key: &str) -> (r: Self)
        ensures
            (r.model() == QueryModel { include_metadata: true, metadata_key: Some(key@), ..self.model() }),
    {
        let mut q = self;
        q.include_metadata = true;
        q.metadata_key = Some(String::from_str(key));
        q
    }
}

/// A tick lies in the query's range.
pub open spec fn in_query_range(q: QueryModel, tick: u64) -> bool {
    &&& (q.start_tick matches Some(s) ==> tick >= s)
    &&& (q.end_tick matches Some(e) ==> tick <= e)
}

/// An entry passes a query.
pub open spec fn passes(q: QueryModel, e: EntryModel) -> bool {
    match e {
        EntryModel::Message { tick, msg, .. } => {
            &&& in_query_range(q, tick)
            &&& (q.actor_id matches Some(a) ==> (msg.actor matches Some(x) && x.0 == a))
            &&& (q.event_id matches Some(id) ==> msg.event_id == Some(id))
            &&& (q.msg_kind matches Some(k) ==> msg.kind == k)
        },
        EntryModel::TickBoundary { tick } => q.include_tick_boundaries && in_query_range(q, tick),
        EntryModel::Snapshot { tick, .. } => q.include_snapshots && in_query_range(q, tick),
        EntryModel::Metadata { tick, key, .. } => {
            &&& q.include_metadata
            &&& in_query_range(q, tick)
            &&& (q.metadata_key matches Some(k) ==> key == k)
        },
    }
}

/// Number of messages in `s` with event ID `id`.
pub open spec fn event_count(s: Seq<EntryModel>, id: Seq<char>) -> nat
    decreases s.len(),
{
    if s.len() == 0 {
        0
    } else {
        event_count(s.drop_last(), id) + if (s.last() matches EntryModel::Message { msg, .. }
            && msg.event_id == Some(id)) {
            1nat
        } else {
            0nat
        }
    }
}

/// Number of messages in `s` made by actor `a`.
pub open spec fn actor_count(s: Seq<EntryModel>, a: u64) -> nat
    decreases s.len(),
{
    if s.len() == 0 {
        0
    } else {
        actor_count(s.drop_last(), a) + if (s.last() matches EntryModel::Message { msg, .. }
            && msg.actor matches Some(x) && x.0 == a) {
            1nat
        } else {
            0nat
        }
    }
}

/// The metadata entries of `s` as key, value and tick, in order.
pub open spec fn metadata_of(s: Seq<EntryModel>) -> Seq<(Seq<char>, Seq<char>, u64)>
    decreases s.len(),
{
    if s.len() == 0 {
        Seq::empty()
    } else {
        let prev = metadata_of(s.drop_last());
        match s.last() {
            EntryModel::Metadata { tick, key, value } => prev.push((key, value, tick)),
            _ => prev,
        }
    }
}

/// Same event ID as `id`, if any.
fn same_event(e: &Option<DefId>, id: &DefId) -> (r: bool)
    ensures
        r == (e matches Some(x) && x@ == id@),
{
    match e {
        Some(x) => x.same_as(id),
        None => false,
    }
}

/// Same key as `k`.
fn same_text(a: &String, b: &String) -> (r: bool)
    ensures
        r == (a@ == b@),
{
    *a == *b
}

/// Reads a journal to answer audit questions.
pub struct Auditor<'a> {
    journal: &'a Journal,
}

impl<'a> Auditor<'a> {
    /// The audited journal.
    pub closed spec fn spec_journal(&self) -> &'a Journal {
        self.journal
    }

    /// An auditor of a journal.
    pub fn new(journal: &'a Journal) -> (r: Self)
        ensures
            r.spec_journal() == journal,
    {
        Auditor { journal }
    }

    /// Whether an entry passes a query.
    fn matches_query(entry: &JournalEntry, query: &AuditQuery) -> (r: bool)
        ensures
            r == passes(query.model(), entry_model(entry)),
    {
        let tick = entry.tick();
        let in_range = match query.start_tick {
            Some(s) => tick >= s,
            None => true,
        } && match query.end_tick {
            Some(e) => tick <= e,
            None => true,
        };
        match entry {
            JournalEntry::Message { msg, .. } => {
                if !in_range {
                    return false;
                }
                match query.actor_id {
                    Some(a) => {
                        match msg.actor {
                            Some(x) => {
                                if x.raw() != a {
                                    return false;
                                }
                            },
                            None => {
                                return false;
                            },
                        }
                    },
                    None => {},
                }
                match &query.event_id {
                    Some(id) => {
                        if !same_event(&msg.event_id, id) {
                            return false;
                        }
                    },
                    None => {},
                }
                match &query.msg_kind {
                    Some(k) => {
                        if !msg.kind.same_as(k) {
                            return false;
                        }
                    },
                    None => {},
                }
                true
            },
            JournalEntry::TickBoundary { .. } => query.include_tick_boundaries && in_range,
            JournalEntry::Snapshot { .. } => query.include_snapshots && in_range,
            JournalEntry::Metadata { key, .. } => {
                if !query.include_metadata || !in_range {
                    return false;
                }
                match &query.metadata_key {
                    Some(k) => same_text(key, k),
                    None => true,
                }
            },
        }
    }

    /// The entries that pass a query, in order.
    pub fn query(&self, query: &AuditQuery) -> (r: Vec<&JournalEntry>)
        ensures
            r@.map_values(|e: &JournalEntry| entry_model(e)) == self.spec_journal().spec_entries().filter(
                |e: EntryModel| passes(query.model(), e),
            ),
    {
        let entries = self.journal.entries();
        let ghost es = entries_model(entries@);
        let ghost pred = |e: EntryModel| passes(query.model(), e);
        let n = entries.len();
        let mut out: Vec<&JournalEntry> = Vec::new();
        let mut i: usize = 0;
        while i < n
            invariant
                n == entries@.len(),
                es == entries_model(entries@),
                pred == (|e: EntryModel| passes(query.model(), e)),
                i <= n,
                out@.map_values(|e: &JournalEntry| entry_model(e)) == es.subrange(0, i as int).filter(pred),
            decreases n - i,
        {
            let e = &entries[i];
            proof {
                reveal_with_fuel(Seq::<EntryModel>::filter, 1);
                assert(es.subrange(0, i + 1).drop_last() =~= es.subrange(0, i as int));
                assert(es[i as int] == entry_model(e));
            }
            let ghost before = out@;
            if Self::matches_query(e, query) {
                out.push(e);
                assert(out@.map_values(|e: &JournalEntry| entry_model(e)) =~= before.map_values(
                    |e: &JournalEntry| entry_model(e),
                ).push(entry_model(e)));
            }
            i = i + 1;
        }
        assert(es.subrange(0, n as int) =~= es);
        out
    }

    /// The entries whose ticks lie in `[start_tick, end_tick]`, in order.
    pub fn events_in_range(&self, start_tick: u64, end_tick: u64) -> (r: Vec<&JournalEntry>)
        ensures
            r@.map_values(|e: &JournalEntry| entry_model(e)) == self.spec_journal().spec_entries().filter(
                |e: EntryModel| start_tick <= entry_tick(e) <= end_tick,
            ),
    {
        self.journal.entries_in_range(start_tick, end_tick)
    }

    /// Number of messages with an event ID.
    pub fn count_event(&self, event_id: &DefId) -> (r: u64)
        ensures
            r == event_count(self.spec_journal().spec_entries(), event_id@),
    {
        let entries = self.journal.entries();
        let ghost es = entries_model(entries@);
        let n = entries.len();
        let mut count: u64 = 0;
        let mut i: usize = 0;
        while i < n
            invariant
                n == entries@.len(),
                es == entries_model(entries@),
                i <= n,
                count == event_count(es.subrange(0, i as int), event_id@),
                count <= i,
            decreases n - i,
        {
            proof {
                assert(es.subrange(0, i + 1).drop_last() =~= es.subrange(0, i as int));
                assert(es[i as int] == entry_model(&entries@[i as int]));
            }
            match &entries[i] {
                JournalEntry::Message { msg, .. } => {
                    if same_event(&msg.event_id, event_id) {
                        count = count + 1;
                    }
                },
                _ => {},
            }
            i = i + 1;
        }
        assert(es.subrange(0, n as int) =~= es);
        count
    }

    /// The metadata entries as key, value and tick, in order.
    pub fn metadata(&self) -> (r: Vec<(&str, &str, u64)>)
        ensures
            r@.map_values(|m: (&str, &str, u64)| (m.0@, m.1@, m.2)) == metadata_of(
                self.spec_journal().spec_entries(),
            ),
    {
        let entries = self.journal.entries();
        let ghost es = entries_model(entries@);
        let n = entries.len();
        let mut out: Vec<(&str, &str, u64)> = Vec::new();
        let mut i: usize = 0;
        while i < n
            invariant
                n == entries@.len(),
                es == entries_model(entries@),
                i <= n,
                out@.map_values(|m: (&str, &str, u64)| (m.0@, m.1@, m.2)) == metadata_of(
                    es.subrange(0, i as int),
                ),
            decreases n - i,
        {
            proof {
                assert(es.subrange(0, i + 1).drop_last() =~= es.subrange(0, i as int));
                assert(es[i as int] == entry_model(&entries@[i as int]));
            }
            let ghost before = out@;
            match &entries[i] {
                JournalEntry::Metadata { tick, key, value } => {
                    out.push((key.as_str(), value.as_str(), *tick));
                    assert(out@.map_values(|m: (&str, &str, u64)| (m.0@, m.1@, m.2)) =~= before.map_values(
                        |m: (&str, &str, u64)| (m.0@, m.1@, m.2),
                    ).push((key@, value@, *tick)));
                },
                _ => {},
            }
            i = i + 1;
        }
        assert(es.subrange(0, n as int) =~= es);
        out
    }
}


// ---------------------------------------------------------------------------
// Tallies
// ---------------------------------------------------------------------------

/// `t` has an entry for key `k`.
pub open spec fn tallied<K>(t: Seq<(K, nat)>, k: K) -> bool {
    exists|i: int| 0 <= i < t.len() && #[trigger] t[i].0 == k
}

/// One more occurrence of `k`: its count goes up, or it is added last with count 1.
pub open spec fn tally_step<K>(t: Seq<(K, nat)>, k: K) -> Seq<(K, nat)> {
    if tallied(t, k) {
        t.map_values(|e: (K, nat)| if e.0 == k {
            (e.0, e.1 + 1)
        } else {
            e
        })
    } else {
        t.push((k, 1nat))
    }
}

/// The distinct keys of `keys` in order of first occurrence, each with its number of
/// occurrences.
pub open spec fn tally<K>(keys: Seq<K>) -> Seq<(K, nat)>
    decreases keys.len(),
{
    if keys.len() == 0 {
        Seq::empty()
    } else {
        tally_step(tally(keys.drop_last()), keys.last())
    }
}

/// No key occurs twice in `t`.
pub open spec fn distinct_keys<K>(t: Seq<(K, nat)>) -> bool {
    forall|i: int, j: int| 0 <= i < j < t.len() ==> (#[trigger] t[i]).0 != (#[trigger] t[j]).0
}

/// A tally lists each key once, with counts between 1 and the number of keys.
pub proof fn lemma_tally_shape<K>(keys: Seq<K>)
    ensures
        distinct_keys(tally(keys)),
        forall|i: int| 0 <= i < tally(keys).len() ==> 1 <= (#[trigger] tally(keys)[i]).1 <= keys.len(),
        tally(keys).len() <= keys.len(),
    decreases keys.len(),
{
    if keys.len() > 0 {
        lemma_tally_shape(keys.drop_last());
        let t = tally(keys.drop_last());
        let k = keys.last();
        if tallied(t, k) {
            let u = tally(keys);
            assert forall|i: int, j: int| 0 <= i < j < u.len() implies (#[trigger] u[i]).0 != (#[trigger] u[j]).0 by {
                assert(u[i].0 == t[i].0 && u[j].0 == t[j].0);
            }
        } else {
            let u = tally(keys);
            assert forall|i: int, j: int| 0 <= i < j < u.len() implies (#[trigger] u[i]).0 != (#[trigger] u[j]).0 by {
                if j == t.len() {
                    assert(u[i] == t[i]);
                    if t[i].0 == k {
                        assert(tallied(t, k));
                    }
                }
            }
        }
    }
}

/// Models of text-keyed counts.
pub open spec fn text_counts(v: Seq<(String, u64)>) -> Seq<(Seq<char>, nat)> {
    v.map_values(|e: (String, u64)| (e.0@, e.1 as nat))
}

/// Models of number-keyed counts.
pub open spec fn id_counts(v: Seq<(u64, u64)>) -> Seq<(u64, nat)> {
    v.map_values(|e: (u64, u64)| (e.0, e.1 as nat))
}

/// Count one more occurrence of a text key.
fn bump_text(v: &mut Vec<(String, u64)>, key: String)
    requires
        distinct_keys(text_counts(old(v)@)),
        forall|i: int| 0 <= i < old(v)@.len() ==> (#[trigger] old(v)@[i]).1 < u64::MAX,
    ensures
        text_counts(final(v)@) == tally_step(text_counts(old(v)@), key@),
{
    let ghost t = text_counts(v@);
    let n = v.len();
    let mut j: usize = 0;
    while j < n && !(v[j].0 == key)
        invariant
            n == v@.len(),
            t == text_counts(v@),
            j <= n,
            forall|i: int| 0 <= i < j ==> (#[trigger] v@[i]).0@ != key@,
        decreases n - j,
    {
        j = j + 1;
    }
    if j < n {
        let c = v[j].1;
        assert(v@[j as int].0@ == key@);
        v[j].1 = c + 1;
        proof {
            assert(t[j as int].0 == key@);
            assert(tallied(t, key@));
            assert forall|i: int| 0 <= i < n implies #[trigger] text_counts(v@)[i] == (if t[i].0 == key@ {
                (t[i].0, t[i].1 + 1)
            } else {
                t[i]
            }) by {
                if i != j {
                    assert(t[i].0 != t[j as int].0 || i == j);
                }
            }
            assert(text_counts(v@) =~= tally_step(t, key@));
        }
    } else {
        proof {
            assert(!tallied(t, key@)) by {
                if tallied(t, key@) {
                    let i = choose|i: int| 0 <= i < t.len() && #[trigger] t[i].0 == key@;
                    assert(v@[i].0@ == key@);
                }
            }
        }
        let ghost before = v@;
        v.push((key, 1));
        assert(text_counts(v@) =~= text_counts(before).push((key@, 1nat)));
    }
}

/// Count one more occurrence of a number key.
fn bump_id(v: &mut Vec<(u64, u64)>, key: u64)
    requires
        distinct_keys(id_counts(old(v)@)),
        forall|i: int| 0 <= i < old(v)@.len() ==> (#[trigger] old(v)@[i]).1 < u64::MAX,
    ensures
        id_counts(final(v)@) == tally_step(id_counts(old(v)@), key),
{
    let ghost t = id_counts(v@);
    let n = v.len();
    let mut j: usize = 0;
    while j < n && v[j].0 != key
        invariant
            n == v@.len(),
            t == id_counts(v@),
            j <= n,
            forall|i: int| 0 <= i < j ==> (#[trigger] v@[i]).0 != key,
        decreases n - j,
    {
        j = j + 1;
    }
    if j < n {
        let c = v[j].1;
        v[j].1 = c + 1;
        proof {
            assert(t[j as int].0 == key);
            assert(tallied(t, key));
            assert forall|i: int| 0 <= i < n implies #[trigger] id_counts(v@)[i] == (if t[i].0 == key {
                (t[i].0, t[i].1 + 1)
            } else {
                t[i]
            }) by {
                if i != j {
                    assert(t[i].0 != t[j as int].0 || i == j);
                }
            }
            assert(id_counts(v@) =~= tally_step(t, key));
        }
    } else {
        proof {
            assert(!tallied(t, key)) by {
                if tallied(t, key) {
                    let i = choose|i: int| 0 <= i < t.len() && #[trigger] t[i].0 == key;
                    assert(v@[i].0 == key);
                }
            }
        }
        let ghost before = v@;
        v.push((key, 1));
        assert(id_counts(v@) =~= id_counts(before).push((key, 1nat)));
    }
}


// ---------------------------------------------------------------------------
// Reports
// ---------------------------------------------------------------------------

/// The name under which messages of a kind are counted: the kind's name, or `Custom(`,
/// the custom kind and `)`.
pub open spec fn kind_name(k: (u8, Seq<char>)) -> Seq<char> {
    if k.0 == 0 {
        "Tick"@
    } else if k.0 == 1 {
        "Command"@
    } else if k.0 == 2 {
        "Event"@
    } else if k.0 == 3 {
        "ScheduledEvent"@
    } else if k.0 == 4 {
        "EntitySpawned"@
    } else if k.0 == 5 {
        "EntityDestroyed"@
    } else if k.0 == 6 {
        "PropertyChanged"@
    } else if k.0 == 7 {
        "FlagAdded"@
    } else if k.0 == 8 {
        "FlagRemoved"@
    } else {
        "Custom("@ + k.1 + ")"@
    }
}

/// The counted name of a message kind.
pub(crate) fn kind_name_of(kind: &MsgKind) -> (r: String)
    ensures
        r@ == kind_name(kind_model(kind)),
{
    match kind {
        MsgKind::Tick => String::from_str("Tick"),
        MsgKind::Command => String::from_str("Command"),
        MsgKind::Event => String::from_str("Event"),
        MsgKind::ScheduledEvent => String::from_str("ScheduledEvent"),
        MsgKind::EntitySpawned => String::from_str("EntitySpawned"),
        MsgKind::EntityDestroyed => String::from_str("EntityDestroyed"),
        MsgKind::PropertyChanged => String::from_str("PropertyChanged"),
        MsgKind::FlagAdded => String::from_str("FlagAdded"),
        MsgKind::FlagRemoved => String::from_str("FlagRemoved"),
        MsgKind::Custom(id) => {
            let mut s = String::from_str("Custom(");
            s.append(id.as_str());
            s.append(")");
            s
        },
    }
}

/// The counted names of the messages of `s`, in order.
pub open spec fn message_names(s: Seq<EntryModel>) -> Seq<Seq<char>>
    decreases s.len(),
{
    if s.len() == 0 {
        Seq::empty()
    } else {
        let prev = message_names(s.drop_last());
        match s.last() {
            EntryModel::Message { msg, .. } => prev.push(kind_name(msg.kind)),
            _ => prev,
        }
    }
}

/// The actors of the messages of `s` that have one, in order.
pub open spec fn message_actors(s: Seq<EntryModel>) -> Seq<u64>
    decreases s.len(),
{
    if s.len() == 0 {
        Seq::empty()
    } else {
        let prev = message_actors(s.drop_last());
        match s.last() {
            EntryModel::Message { msg, .. } => match msg.actor {
                Some(a) => prev.push(a.0),
                None => prev,
            },
            _ => prev,
        }
    }
}

/// The event IDs of the command messages of `s` that have one, in order.
pub open spec fn command_events(s: Seq<EntryModel>) -> Seq<Seq<char>>
    decreases s.len(),
{
    if s.len() == 0 {
        Seq::empty()
    } else {
        let prev = command_events(s.drop_last());
        match s.last() {
            EntryModel::Message { msg, .. } => if msg.kind.0 == 1 && msg.event_id is Some {
                prev.push(msg.event_id.unwrap())
            } else {
                prev
            },
            _ => prev,
        }
    }
}

/// The event IDs of the messages of actor `a` in `s` that have one, in order.
pub open spec fn actor_events(s: Seq<EntryModel>, a: u64) -> Seq<Seq<char>>
    decreases s.len(),
{
    if s.len() == 0 {
        Seq::empty()
    } else {
        let prev = actor_events(s.drop_last(), a);
        match s.last() {
            EntryModel::Message { msg, .. } => if (msg.actor matches Some(x) && x.0 == a)
                && msg.event_id is Some {
                prev.push(msg.event_id.unwrap())
            } else {
                prev
            },
            _ => prev,
        }
    }
}

/// The event IDs of the messages of `s` that have one, in order.
pub open spec fn message_events(s: Seq<EntryModel>) -> Seq<Seq<char>>
    decreases s.len(),
{
    if s.len() == 0 {
        Seq::empty()
    } else {
        let prev = message_events(s.drop_last());
        match s.last() {
            EntryModel::Message { msg, .. } => match msg.event_id {
                Some(e) => prev.push(e),
                None => prev,
            },
            _ => prev,
        }
    }
}

/// A summary of a journal.
#[derive(Debug)]
pub struct AuditReport {
    /// Number of entries.
    pub total_entries: usize,
    /// Number of messages.
    pub total_messages: usize,
    /// Number of tick boundaries.
    pub total_ticks: usize,
    /// Number of snapshots.
    pub snapshot_count: usize,
    /// Tick of the first entry.
    pub first_tick: Option<u64>,
    /// Last recorded tick.
    pub last_tick: Option<u64>,
    /// Messages counted by kind name, in order of first occurrence.
    pub event_counts: Vec<(String, u64)>,
    /// Messages counted by actor, in order of first occurrence.
    pub actor_actions: Vec<(u64, u64)>,
    /// Commands counted by event ID, in order of first occurrence.
    pub commands_by_type: Vec<(String, u64)>,
}

/// The actions of one actor.
#[derive(Debug)]
pub struct EventSummary {
    /// Number of messages of the actor.
    pub total: u64,
    /// The actor's messages counted by event ID, in order of first occurrence.
    pub by_type: Vec<(String, u64)>,
}

impl<'a> Auditor<'a> {
    /// A report of the journal: its statistics, messages counted by kind name, by actor,
    /// and commands counted by event ID.
    pub fn generate_report(&self) -> (r: AuditReport)
        ensures
            ({
                let es = self.spec_journal().spec_entries();
                &&& r.total_entries == es.len()
                &&& r.total_messages == message_count(es)
                &&& r.total_ticks == boundary_count(es)
                &&& r.snapshot_count == self.spec_journal().spec_snapshots().len()
                &&& r.first_tick == if es.len() == 0 {
                    None
                } else {
                    Some(entry_tick(es[0]))
                }
                &&& r.last_tick == self.spec_journal().spec_last_tick()
                &&& text_counts(r.event_counts@) == tally(message_names(es))
                &&& id_counts(r.actor_actions@) == tally(message_actors(es))
                &&& text_counts(r.commands_by_type@) == tally(command_events(es))
            }),
    {
        let stats = self.journal.stats();
        let entries = self.journal.entries();
        let ghost es = entries_model(entries@);
        let n = entries.len();
        let mut event_counts: Vec<(String, u64)> = Vec::new();
        let mut actor_actions: Vec<(u64, u64)> = Vec::new();
        let mut commands: Vec<(String, u64)> = Vec::new();
        let mut i: usize = 0;
        assert(text_counts(event_counts@) =~= tally(message_names(es.subrange(0, 0))));
        assert(id_counts(actor_actions@) =~= tally(message_actors(es.subrange(0, 0))));
        assert(text_counts(commands@) =~= tally(command_events(es.subrange(0, 0))));
        while i < n
            invariant
                n == entries@.len(),
                es == entries_model(entries@),
                i <= n,
                text_counts(event_counts@) == tally(message_names(es.subrange(0, i as int))),
                id_counts(actor_actions@) == tally(message_actors(es.subrange(0, i as int))),
                text_counts(commands@) == tally(command_events(es.subrange(0, i as int))),
                message_names(es.subrange(0, i as int)).len() <= i,
                message_actors(es.subrange(0, i as int)).len() <= i,
                command_events(es.subrange(0, i as int)).len() <= i,
            decreases n - i,
        {
            let ghost pre = es.subrange(0, i as int);
            let ghost post = es.subrange(0, i + 1);
            proof {
                assert(post.drop_last() =~= pre);
                assert(post.last() == entry_model(&entries@[i as int]));
                lemma_tally_shape(message_names(pre));
                lemma_tally_shape(message_actors(pre));
                lemma_tally_shape(command_events(pre));
                assert forall|j: int| 0 <= j < event_counts@.len() implies (#[trigger] event_counts@[j]).1 < u64::MAX by {
                    assert(text_counts(event_counts@)[j].1 == event_counts@[j].1);
                }
                assert forall|j: int| 0 <= j < actor_actions@.len() implies (#[trigger] actor_actions@[j]).1 < u64::MAX by {
                    assert(id_counts(actor_actions@)[j].1 == actor_actions@[j].1);
                }
                assert forall|j: int| 0 <= j < commands@.len() implies (#[trigger] commands@[j]).1 < u64::MAX by {
                    assert(text_counts(commands@)[j].1 == commands@[j].1);
                }
            }
            match &entries[i] {
                JournalEntry::Message { msg, .. } => {
                    let name = kind_name_of(&msg.kind);
                    proof {
                        let nm = message_names(pre);
                        assert(nm.push(name@).drop_last() =~= nm);
                    }
                    bump_text(&mut event_counts, name);
                    match msg.actor {
                        Some(a) => {
                            proof {
                                let ma = message_actors(pre);
                                assert(ma.push(a.0).drop_last() =~= ma);
                            }
                            bump_id(&mut actor_actions, a.raw());
                        },
                        None => {},
                    }
                    match (&msg.kind, &msg.event_id) {
                        (MsgKind::Command, Some(id)) => {
                            proof {
                                let ce = command_events(pre);
                                assert(ce.push(id@).drop_last() =~= ce);
                            }
                            bump_text(&mut commands, id.to_text());
                        },
                        _ => {},
                    }
                },
                _ => {},
            }
            i = i + 1;
        }
        assert(es.subrange(0, n as int) =~= es);
        AuditReport {
            total_entries: stats.total_entries,
            total_messages: stats.message_count,
            total_ticks: stats.tick_count,
            snapshot_count: stats.snapshot_count,
            first_tick: stats.first_tick,
            last_tick: stats.last_tick,
            event_counts,
            actor_actions,
            commands_by_type: commands,
        }
    }

    /// The actions of an actor: its number of messages and their event IDs counted.
    pub fn actor_summary(&self, actor_id: ActorId) -> (r: EventSummary)
        ensures
            r.total == actor_count(self.spec_journal().spec_entries(), actor_id.0),
            text_counts(r.by_type@) == tally(actor_events(self.spec_journal().spec_entries(), actor_id.0)),
    {
        let entries = self.journal.entries();
        let ghost es = entries_model(entries@);
        let a = actor_id.raw();
        let n = entries.len();
        let mut total: u64 = 0;
        let mut by_type: Vec<(String, u64)> = Vec::new();
        let mut i: usize = 0;
        assert(text_counts(by_type@) =~= tally(actor_events(es.subrange(0, 0), a)));
        while i < n
            invariant
                n == entries@.len(),
                es == entries_model(entries@),
                a == actor_id.0,
                i <= n,
                total == actor_count(es.subrange(0, i as int), a),
                total <= i,
                text_counts(by_type@) == tally(actor_events(es.subrange(0, i as int), a)),
                actor_events(es.subrange(0, i as int), a).len() <= i,
            decreases n - i,
        {
            let ghost pre = es.subrange(0, i as int);
            proof {
                assert(es.subrange(0, i + 1).drop_last() =~= pre);
                assert(es.subrange(0, i + 1).last() == entry_model(&entries@[i as int]));
                lemma_tally_shape(actor_events(pre, a));
                assert forall|j: int| 0 <= j < by_type@.len() implies (#[trigger] by_type@[j]).1 < u64::MAX by {
                    assert(text_counts(by_type@)[j].1 == by_type@[j].1);
                }
            }
            match &entries[i] {
                JournalEntry::Message { msg, .. } => {
                    let mine = match msg.actor {
                        Some(x) => x.raw() == a,
                        None => false,
                    };
                    if mine {
                        total = total + 1;
                        match &msg.event_id {
                            Some(id) => {
                                proof {
                                    let ae = actor_events(pre, a);
                                    assert(ae.push(id@).drop_last() =~= ae);
                                }
                                bump_text(&mut by_type, id.to_text());
                            },
                            None => {},
                        }
                    }
                },
                _ => {},
            }
            i = i + 1;
        }
        assert(es.subrange(0, n as int) =~= es);
        EventSummary { total, by_type }
    }

    /// The distinct event IDs of the messages, ordered by their text.
    pub fn unique_events(&self) -> (r: Vec<DefId>)
        ensures
            forall|i: int, j: int|
                0 <= i < j < r@.len() ==> bytes_lt(
                    encode_utf8((#[trigger] r@[i])@),
                    encode_utf8((#[trigger] r@[j])@),
                ),
            forall|e: Seq<char>|
                #[trigger] has_id(r@, e) <==> message_events(self.spec_journal().spec_entries()).contains(e),
    {
        let entries = self.journal.entries();
        let ghost es = entries_model(entries@);
        let n = entries.len();
        let mut out: Vec<DefId> = Vec::new();
        let mut i: usize = 0;
        while i < n
            invariant
                n == entries@.len(),
                es == entries_model(entries@),
                i <= n,
                forall|a: int, b: int|
                    0 <= a < b < out@.len() ==> bytes_lt(
                        encode_utf8((#[trigger] out@[a])@),
                        encode_utf8((#[trigger] out@[b])@),
                    ),
                forall|e: Seq<char>|
                    #[trigger] has_id(out@, e) <==> message_events(es.subrange(0, i as int)).contains(e),
            decreases n - i,
        {
            let ghost pre = es.subrange(0, i as int);
            let ghost post = es.subrange(0, i + 1);
            proof {
                assert(post.drop_last() =~= pre);
                assert(post.last() == entry_model(&entries@[i as int]));
            }
            match &entries[i] {
                JournalEntry::Message { msg, .. } => {
                    match &msg.event_id {
                        Some(id) => {
                            insert_sorted(&mut out, id);
                            proof {
                                let me = message_events(pre);
                                assert(message_events(post) == me.push(id@));
                                assert forall|e: Seq<char>| #[trigger] has_id(out@, e) <==> me.push(id@).contains(e) by {
                                    if me.push(id@).contains(e) {
                                        let k = choose|k: int| 0 <= k < me.push(id@).len() && me.push(id@)[k] == e;
                                        if k < me.len() {
                                            assert(me[k] == e);
                                            assert(me.contains(e));
                                        }
                                    }
                                    if me.contains(e) {
                                        let k = choose|k: int| 0 <= k < me.len() && me[k] == e;
                                        assert(me.push(id@)[k] == e);
                                    }
                                    if e == id@ {
                                        assert(me.push(id@)[me.len() as int] == e);
                                    }
                                }
                            }
                        },
                        None => {},
                    }
                },
                _ => {},
            }
            i = i + 1;
        }
        assert(es.subrange(0, n as int) =~= es);
        out
    }
}

/// Some element of `s` has text `e`.
pub open spec fn has_id(s: Seq<DefId>, e: Seq<char>) -> bool {
    exists|a: int| 0 <= a < s.len() && (#[trigger] s[a])@ == e
}

/// Insert an ID into a list ordered by text without repeats, unless it is there.
fn insert_sorted(v: &mut Vec<DefId>, id: &DefId)
    requires
        forall|a: int, b: int|
            0 <= a < b < old(v)@.len() ==> bytes_lt(
                encode_utf8((#[trigger] old(v)@[a])@),
                encode_utf8((#[trigger] old(v)@[b])@),
            ),
    ensures
        forall|a: int, b: int|
            0 <= a < b < final(v)@.len() ==> bytes_lt(
                encode_utf8((#[trigger] final(v)@[a])@),
                encode_utf8((#[trigger] final(v)@[b])@),
            ),
        forall|e: Seq<char>| #[trigger] has_id(final(v)@, e) <==> (has_id(old(v)@, e) || e == id@),
{
    let ghost old_v = v@;
    let key = id.as_str().as_bytes();
    let n = v.len();
    let mut p: usize = 0;
    while p < n && bytes_less(v[p].as_str().as_bytes(), key)
        invariant
            n == v@.len(),
            old_v == v@,
            key@ == encode_utf8(id@),
            p <= n,
            forall|a: int| 0 <= a < p ==> bytes_lt(encode_utf8((#[trigger] v@[a])@), key@),
        decreases n - p,
    {
        p = p + 1;
    }
    if p < n && crate::text::bytes_eq(v[p].as_str().as_bytes(), key) {
        proof {
            crate::text::lemma_encode_injective(v@[p as int]@, id@);
        }
        return;
    }
    proof {
        if p < n {
            let x = encode_utf8(v@[p as int]@);
            assert(!bytes_lt(x, key@));
            assert(x != key@);
            crate::text::lemma_bytes_lt_total(x, key@);
        }
    }
    v.insert(p, id.duplicate());
    proof {
        assert forall|a: int, b: int| 0 <= a < b < v@.len() implies bytes_lt(
            encode_utf8((#[trigger] v@[a])@),
            encode_utf8((#[trigger] v@[b])@),
        ) by {
            if b < p {
                assert(v@[a] == old_v[a] && v@[b] == old_v[b]);
            } else if b == p {
                assert(v@[a] == old_v[a]);
            } else if a < p {
                assert(v@[a] == old_v[a] && v@[b] == old_v[b - 1]);
                if b - 1 > p {
                    crate::text::lemma_bytes_lt_transitive(
                        encode_utf8(old_v[a]@),
                        key@,
                        encode_utf8(old_v[p as int]@),
                    );
                    crate::text::lemma_bytes_lt_transitive(
                        encode_utf8(old_v[a]@),
                        encode_utf8(old_v[p as int]@),
                        encode_utf8(old_v[b - 1]@),
                    );
                } else {
                    crate::text::lemma_bytes_lt_transitive(
                        encode_utf8(old_v[a]@),
                        key@,
                        encode_utf8(old_v[p as int]@),
                    );
                }
            } else if a == p {
                assert(v@[b] == old_v[b - 1]);
                if b - 1 > p {
                    crate::text::lemma_bytes_lt_transitive(
                        key@,
                        encode_utf8(old_v[p as int]@),
                        encode_utf8(old_v[b - 1]@),
                    );
                }
            } else {
                assert(v@[a] == old_v[a - 1] && v@[b] == old_v[b - 1]);
            }
        }
        assert forall|e: Seq<char>| #[trigger] has_id(v@, e) <==> (has_id(old_v, e) || e == id@) by {
            if has_id(v@, e) {
                let a = choose|a: int| 0 <= a < v@.len() && (#[trigger] v@[a])@ == e;
                if a < p {
                    assert(old_v[a] == v@[a]);
                } else if a > p {
                    assert(old_v[a - 1] == v@[a]);
                }
            }
            if has_id(old_v, e) {
                let a = choose|a: int| 0 <= a < old_v.len() && (#[trigger] old_v[a])@ == e;
                if a < p {
                    assert(v@[a] == old_v[a]);
                } else {
                    assert(v@[a + 1] == old_v[a]);
                }
            }
            if e == id@ {
                assert(v@[p as int]@ == e);
            }
        }
    }
}


/// A query by actor returns only that actor's messages: every message entry that passes a
/// query whose actor is `a` was sent by actor `a`. And when the query sets nothing but the
/// actor, every message of that actor passes.
pub proof fn lemma_query_by_actor(q: QueryModel, es: Seq<EntryModel>, k: int)
    requires
        q.actor_id is Some,
        0 <= k < es.filter(|e: EntryModel| passes(q, e)).len(),
    ensures
        es.filter(|e: EntryModel| passes(q, e))[k] matches EntryModel::Message { msg, .. } ==> (msg.actor matches Some(
            x,
        ) && x.0 == q.actor_id.unwrap()),
{
    es.lemma_filter_pred(|e: EntryModel| passes(q, e), k);
}

/// With no range, event or kind set, a message whose actor is the query's actor passes.
pub proof fn lemma_actor_message_passes(q: QueryModel, e: EntryModel)
    requires
        q.start_tick is None,
        q.end_tick is None,
        q.event_id is None,
        q.msg_kind is None,
        q.actor_id is Some,
        e matches EntryModel::Message { msg, .. } && (msg.actor matches Some(x) && x.0 == q.actor_id.unwrap()),
    ensures
        passes(q, e),
{
}


/// Every entry a query returns meets each of the query's filters: its tick lies within the
/// start and end ticks that are set; a message has the query's event ID and kind when those
/// are set; tick boundaries, snapshots and metadata appear only when the query includes
/// them, and metadata only with the query's key when one is set.
pub proof fn lemma_query_results_meet_filters(q: QueryModel, es: Seq<EntryModel>, k: int)
    requires
        0 <= k < es.filter(|e: EntryModel| passes(q, e)).len(),
    ensures
        ({
            let e = es.filter(|e: EntryModel| passes(q, e))[k];
            &&& (q.start_tick matches Some(s) ==> entry_tick(e) >= s)
            &&& (q.end_tick matches Some(t) ==> entry_tick(e) <= t)
            &&& (e matches EntryModel::Message { msg, .. } ==> (q.event_id matches Some(id) ==> msg.event_id
                == Some(id)) && (q.msg_kind matches Some(kd) ==> msg.kind == kd))
            &&& (e is TickBoundary ==> q.include_tick_boundaries)
            &&& (e is Snapshot ==> q.include_snapshots)
            &&& (e matches EntryModel::Metadata { key, .. } ==> q.include_metadata && (q.metadata_key matches Some(
                kk,
            ) ==> key == kk))
        }),
{
    es.lemma_filter_pred(|e: EntryModel| passes(q, e), k);
}

} // verus!
