//! The journal as readable text: a header with the statistics, then the entries grouped
//! under a line for each tick.
use vstd::prelude::*;
use crate::auditor::{kind_name, kind_name_of};
use crate::journal::{
    boundary_count, entries_model, entry_model, entry_tick, message_count, EntryModel, Journal,
    JournalEntry,
};
use crate::text::{decimal, push_decimal};
use crate::evaluate::{replace_all, replace_text};
use crate::value::{ValueMap, ValueModel};

verus! {

/// The text the caller gives for parameters with this model.
pub open spec fn params_text_of<D: Fn(&ValueMap) -> String>(d: D, m: Seq<(Seq<char>, ValueModel)>) -> Seq<char> {
    let (x, s) = choose|x: ValueMap, s: String| x@ == m && #[trigger] call_ensures(d, (&x,), s);
    s@
}

/// The parameter text accepts all parameters and gives one text for parameters with one
/// model.
pub open spec fn params_text_is_function<D: Fn(&ValueMap) -> String>(d: D) -> bool {
    &&& forall|x: &ValueMap| #[trigger] call_requires(d, (x,))
    &&& forall|x1: &ValueMap, x2: &ValueMap, s1: String, s2: String|
        x1@ == x2@ && #[trigger] call_ensures(d, (x1,), s1) && #[trigger] call_ensures(d, (x2,), s2) ==> s1@
            == s2@
}

/// The line that opens a tick.
pub open spec fn tick_line(t: u64) -> Seq<char> {
    "\n--- Tick "@ + decimal(t as nat) + " ---\n"@
}

/// The tick line when the tick changes, and the tick after it.
pub open spec fn open_tick(t: u64, cur: Option<u64>) -> (Seq<char>, Option<u64>) {
    if cur != Some(t) {
        (tick_line(t), Some(t))
    } else {
        (Seq::empty(), cur)
    }
}

/// The line of a message: its sequence number, kind, event and actor, then its parameters
/// on a line of their own when it has any.
pub open spec fn message_line<D: Fn(&ValueMap) -> String>(d: D, msg: crate::msg::MsgModel, seq: u64) -> Seq<char> {
    let event = match msg.event_id {
        Some(id) => " ["@ + id + "]"@,
        None => Seq::empty(),
    };
    let actor = match msg.actor {
        Some(a) => " actor="@ + decimal(a.0 as nat),
        None => Seq::empty(),
    };
    let params = if msg.params.len() > 0 {
        "      params: "@ + params_text_of(d, msg.params) + "\n"@
    } else {
        Seq::empty()
    };
    "  #"@ + decimal(seq as nat) + " "@ + kind_name(msg.kind) + event + actor + "\n"@ + params
}

/// The text of one entry, given the tick of the last tick line, and that tick after it.
pub open spec fn entry_text<D: Fn(&ValueMap) -> String>(d: D, e: EntryModel, cur: Option<u64>) -> (
    Seq<char>,
    Option<u64>,
) {
    match e {
        EntryModel::TickBoundary { tick } => open_tick(tick, cur),
        EntryModel::Message { tick, msg, seq } => {
            let (head, next) = open_tick(tick, cur);
            (head + message_line(d, msg, seq), next)
        },
        EntryModel::Snapshot { tick, snapshot_id } => (
            "  [SNAPSHOT] id="@ + decimal(snapshot_id as nat) + " at tick "@ + decimal(tick as nat) + "\n"@,
            cur,
        ),
        EntryModel::Metadata { tick, key, value } => (
            "  [META] "@ + key + "="@ + value + " at tick "@ + decimal(tick as nat) + "\n"@,
            cur,
        ),
    }
}

/// The text of entries in order, and the tick of the last tick line.
pub open spec fn entries_text<D: Fn(&ValueMap) -> String>(d: D, s: Seq<EntryModel>) -> (Seq<char>, Option<u64>)
    decreases s.len(),
{
    if s.len() == 0 {
        (Seq::empty(), None)
    } else {
        let (before, cur) = entries_text(d, s.drop_last());
        let (t, next) = entry_text(d, s.last(), cur);
        (before + t, next)
    }
}

/// The header: the entry, message, tick and snapshot counts, and the tick range when the
/// journal has a first entry and a last recorded tick.
pub open spec fn header_text(
    total: nat,
    messages: nat,
    ticks: nat,
    snapshots: nat,
    first: Option<u64>,
    last: Option<u64>,
) -> Seq<char> {
    "=== Journal Export ===\n\n"@ + "Total entries: "@ + decimal(total) + "\n"@ + "Messages: "@ + decimal(
        messages,
    ) + "\n"@ + "Ticks: "@ + decimal(ticks) + "\n"@ + "Snapshots: "@ + decimal(snapshots) + "\n"@ + match (
        first,
        last,
    ) {
        (Some(a), Some(b)) => "Tick range: "@ + decimal(a as nat) + " - "@ + decimal(b as nat) + "\n"@,
        _ => Seq::empty(),
    } + "\n=== Entries ===\n\n"@
}

/// The readable text of a journal.
pub open spec fn export_text<D: Fn(&ValueMap) -> String>(j: &Journal, d: D) -> Seq<char> {
    let es = j.spec_entries();
    header_text(
        es.len(),
        message_count(es),
        boundary_count(es),
        j.spec_snapshots().len(),
        if es.len() == 0 {
            None
        } else {
            Some(entry_tick(es[0]))
        },
        j.spec_last_tick(),
    ) + entries_text(d, es).0
}

/// Append the tick line when the tick changes.
fn push_open_tick(out: &mut String, t: u64, cur: Option<u64>) -> (r: Option<u64>)
    ensures
        final(out)@ == old(out)@ + open_tick(t, cur).0,
        r == open_tick(t, cur).1,
{
    if cur != Some(t) {
        out.append("\n--- Tick ");
        push_decimal(out, t);
        out.append(" ---\n");
        proof {
            assert(final(out)@ =~= old(out)@ + tick_line(t));
        }
        Some(t)
    } else {
        proof {
            assert(final(out)@ =~= old(out)@ + Seq::<char>::empty());
        }
        cur
    }
}

/// Append the line of a message (see [`message_line`]).
fn push_message<D: Fn(&ValueMap) -> String>(out: &mut String, msg: &crate::msg::Msg, seq: u64, d: &D)
    requires
        params_text_is_function(*d),
    ensures
        final(out)@ == old(out)@ + message_line(*d, msg.model(), seq),
{
    let ghost o1 = out@;
    out.append("  #");
    push_decimal(out, seq);
    out.append(" ");
    let k = kind_name_of(&msg.kind);
    out.append(k.as_str());
    let ghost o2 = out@;
    match &msg.event_id {
        Some(id) => {
            out.append(" [");
            out.append(id.as_str());
            out.append("]");
        },
        None => {},
    }
    let ghost o3 = out@;
    match &msg.actor {
        Some(a) => {
            out.append(" actor=");
            push_decimal(out, a.0);
        },
        None => {},
    }
    let ghost o4 = out@;
    out.append("\n");
    let ghost o5 = out@;
    if msg.params.len() > 0 {
        let p = d(&msg.params);
        proof {
            assert(call_ensures(*d, (&msg.params,), p));
            let (x, w) = choose|x: ValueMap, w: String| x@ == msg.params@ && #[trigger] call_ensures(*d, (&x,), w);
            assert(call_ensures(*d, (&x,), w));
        }
        out.append("      params: ");
        out.append(p.as_str());
        out.append("\n");
    }
    proof {
        let m = msg.model();
        let event = match m.event_id {
            Some(id) => " ["@ + id + "]"@,
            None => Seq::<char>::empty(),
        };
        let actor = match m.actor {
            Some(a) => " actor="@ + decimal(a.0 as nat),
            None => Seq::<char>::empty(),
        };
        assert(o3 =~= o2 + event);
        assert(o4 =~= o3 + actor);
        assert(o2 =~= o1 + "  #"@ + decimal(seq as nat) + " "@ + kind_name(m.kind));
        let params = if m.params.len() > 0 {
            "      params: "@ + params_text_of(*d, m.params) + "\n"@
        } else {
            Seq::<char>::empty()
        };
        assert(out@ =~= o5 + params);
        assert(out@ =~= old(out)@ + message_line(*d, m, seq));
    }
}

/// Append the text of one entry (see [`entry_text`]).
fn push_entry<D: Fn(&ValueMap) -> String>(out: &mut String, e: &JournalEntry, cur: Option<u64>, d: &D) -> (r: Option<u64>)
    requires
        params_text_is_function(*d),
    ensures
        final(out)@ == old(out)@ + entry_text(*d, entry_model(e), cur).0,
        r == entry_text(*d, entry_model(e), cur).1,
{
    match e {
        JournalEntry::TickBoundary { tick } => push_open_tick(out, *tick, cur),
        JournalEntry::Message { tick, msg, seq } => {
            let next = push_open_tick(out, *tick, cur);
            push_message(out, msg, *seq, d);
            proof {
                assert(final(out)@ =~= old(out)@ + entry_text(*d, entry_model(e), cur).0);
            }
            next
        },
        JournalEntry::Snapshot { tick, snapshot_id } => {
            out.append("  [SNAPSHOT] id=");
            push_decimal(out, snapshot_id.0);
            out.append(" at tick ");
            push_decimal(out, *tick);
            out.append("\n");
            proof {
                assert(final(out)@ =~= old(out)@ + entry_text(*d, entry_model(e), cur).0);
            }
            cur
        },
        JournalEntry::Metadata { tick, key, value } => {
            out.append("  [META] ");
            out.append(key.as_str());
            out.append("=");
            out.append(value.as_str());
            out.append(" at tick ");
            push_decimal(out, *tick);
            out.append("\n");
            proof {
                assert(final(out)@ =~= old(out)@ + entry_text(*d, entry_model(e), cur).0);
            }
            cur
        },
    }
}

/// The journal as readable text (see [`export_text`]); the caller gives the text of
/// message parameters.
pub fn journal_text<D: Fn(&ValueMap) -> String>(journal: &Journal, params_text: &D) -> (r: String)
    requires
        params_text_is_function(*params_text),
    ensures
        r@ == export_text(journal, *params_text),
{
    let stats = journal.stats();
    let mut out = String::new();
    out.append("=== Journal Export ===\n\n");
    out.append("Total entries: ");
    push_decimal(&mut out, stats.total_entries as u64);
    out.append("\n");
    out.append("Messages: ");
    push_decimal(&mut out, stats.message_count as u64);
    out.append("\n");
    out.append("Ticks: ");
    push_decimal(&mut out, stats.tick_count as u64);
    out.append("\n");
    out.append("Snapshots: ");
    push_decimal(&mut out, stats.snapshot_count as u64);
    out.append("\n");
    let ghost before_range = out@;
    match (stats.first_tick, stats.last_tick) {
        (Some(first), Some(last)) => {
            out.append("Tick range: ");
            push_decimal(&mut out, first);
            out.append(" - ");
            push_decimal(&mut out, last);
            out.append("\n");
        },
        _ => {},
    }
    out.append("\n=== Entries ===\n\n");
    let ghost es = journal.spec_entries();
    proof {
        assert(out@ =~= header_text(
            es.len(),
            message_count(es),
            boundary_count(es),
            journal.spec_snapshots().len(),
            if es.len() == 0 {
                None
            } else {
                Some(entry_tick(es[0]))
            },
            journal.spec_last_tick(),
        ));
    }
    let ghost header = out@;
    let entries = journal.entries();
    let n = entries.len();
    let mut cur: Option<u64> = None;
    let mut i: usize = 0;
    proof {
        assert(es.take(0) =~= Seq::<EntryModel>::empty());
        assert(out@ =~= header + entries_text(*params_text, es.take(0)).0);
    }
    while i < n
        invariant
            n == entries@.len(),
            entries_model(entries@) == es,
            i <= n,
            params_text_is_function(*params_text),
            out@ == header + entries_text(*params_text, es.take(i as int)).0,
            cur == entries_text(*params_text, es.take(i as int)).1,
        decreases n - i,
    {
        let ghost o = out@;
        cur = push_entry(&mut out, &entries[i], cur, params_text);
        proof {
            assert(es.take(i + 1).drop_last() =~= es.take(i as int));
            assert(es.take(i + 1).last() == entry_model(&entries@[i as int]));
            assert(out@ =~= header + entries_text(*params_text, es.take(i + 1)).0);
        }
        i = i + 1;
    }
    proof {
        assert(es.take(n as int) =~= es);
    }
    out
}


/// The CSV field of message parameters: their text in quotes, quotes inside doubled.
pub open spec fn csv_params<D: Fn(&ValueMap) -> String>(d: D, params: Seq<(Seq<char>, ValueModel)>) -> Seq<char> {
    "\""@ + replace_all(params_text_of(d, params), "\""@, "\"\""@) + "\""@
}

/// The CSV line of a message entry: tick, sequence number, kind, event ID (empty when
/// none), actor (empty when none) and parameters.
pub open spec fn csv_line<D: Fn(&ValueMap) -> String>(d: D, tick: u64, msg: crate::msg::MsgModel, seq: u64) -> Seq<char> {
    decimal(tick as nat) + ","@ + decimal(seq as nat) + ","@ + kind_name(msg.kind) + ","@ + match msg.event_id {
        Some(id) => id,
        None => Seq::empty(),
    } + ","@ + match msg.actor {
        Some(a) => decimal(a.0 as nat),
        None => Seq::empty(),
    } + ","@ + csv_params(d, msg.params) + "\n"@
}

/// The CSV lines of the message entries in order; other entries give none.
pub open spec fn csv_lines<D: Fn(&ValueMap) -> String>(d: D, s: Seq<EntryModel>) -> Seq<char>
    decreases s.len(),
{
    if s.len() == 0 {
        Seq::empty()
    } else {
        csv_lines(d, s.drop_last()) + match s.last() {
            EntryModel::Message { tick, msg, seq } => csv_line(d, tick, msg, seq),
            _ => Seq::empty(),
        }
    }
}

/// The messages of a journal as CSV: a header line, then a line per message.
pub open spec fn export_csv<D: Fn(&ValueMap) -> String>(j: &Journal, d: D) -> Seq<char> {
    "tick,seq,kind,event_id,actor,params\n"@ + csv_lines(d, j.spec_entries())
}

/// Append the CSV line of a message (see [`csv_line`]).
fn push_csv_line<D: Fn(&ValueMap) -> String>(out: &mut String, tick: u64, msg: &crate::msg::Msg, seq: u64, d: &D)
    requires
        params_text_is_function(*d),
    ensures
        final(out)@ == old(out)@ + csv_line(*d, tick, msg.model(), seq),
{
    let ghost o0 = out@;
    push_decimal(out, tick);
    out.append(",");
    push_decimal(out, seq);
    out.append(",");
    let k = kind_name_of(&msg.kind);
    out.append(k.as_str());
    out.append(",");
    let ghost o1 = out@;
    match &msg.event_id {
        Some(id) => {
            out.append(id.as_str());
        },
        None => {},
    }
    let ghost o2 = out@;
    out.append(",");
    match &msg.actor {
        Some(a) => {
            push_decimal(out, a.0);
        },
        None => {},
    }
    let ghost o3 = out@;
    out.append(",");
    let p = d(&msg.params);
    proof {
        assert(call_ensures(*d, (&msg.params,), p));
        let (x, w) = choose|x: ValueMap, w: String| x@ == msg.params@ && #[trigger] call_ensures(*d, (&x,), w);
        assert(call_ensures(*d, (&x,), w));
        reveal_strlit("\"");
    }
    let escaped = replace_text(p.as_str(), "\"", "\"\"");
    out.append("\"");
    out.append(escaped.as_str());
    out.append("\"");
    out.append("\n");
    proof {
        let m = msg.model();
        let ev = match m.event_id {
            Some(id) => id,
            None => Seq::<char>::empty(),
        };
        let ac = match m.actor {
            Some(a) => decimal(a.0 as nat),
            None => Seq::<char>::empty(),
        };
        assert(o2 =~= o1 + ev);
        assert(out@ =~= o3 + ","@ + csv_params(*d, m.params) + "\n"@);
        assert(o3 =~= o2 + ","@ + ac);
        assert(out@ =~= old(out)@ + csv_line(*d, tick, m, seq));
    }
}

/// The messages of a journal as CSV (see [`export_csv`]); the caller gives the text of
/// message parameters.
pub fn journal_csv<D: Fn(&ValueMap) -> String>(journal: &Journal, params_text: &D) -> (r: String)
    requires
        params_text_is_function(*params_text),
    ensures
        r@ == export_csv(journal, *params_text),
{
    let mut out = String::from_str("tick,seq,kind,event_id,actor,params\n");
    let ghost header = out@;
    let ghost es = journal.spec_entries();
    let entries = journal.entries();
    let n = entries.len();
    let mut i: usize = 0;
    proof {
        assert(es.take(0) =~= Seq::<EntryModel>::empty());
        assert(out@ =~= header + csv_lines(*params_text, es.take(0)));
    }
    while i < n
        invariant
            n == entries@.len(),
            entries_model(entries@) == es,
            i <= n,
            params_text_is_function(*params_text),
            out@ == header + csv_lines(*params_text, es.take(i as int)),
        decreases n - i,
    {
        let ghost o = out@;
        match &entries[i] {
            JournalEntry::Message { tick, msg, seq } => {
                push_csv_line(&mut out, *tick, msg, *seq, params_text);
            },
            _ => {},
        }
        proof {
            assert(es.take(i + 1).drop_last() =~= es.take(i as int));
            assert(es.take(i + 1).last() == entry_model(&entries@[i as int]));
            assert(out@ =~= header + csv_lines(*params_text, es.take(i + 1)));
        }
        i = i + 1;
    }
    proof {
        assert(es.take(n as int) =~= es);
    }
    out
}

} // verus!
