//! Running the runtime with a journal: ticks and processed messages are recorded, and a
//! recorded session can be replayed to a tick.
use vstd::prelude::*;
use crate::collect::{evaluator_is_total, evaluator_reads_scene, picker_is_function, picker_is_total, Evaluated};
use crate::dispatch::{fresh_run, queue_run};
use crate::effect::ModifyOp;
use crate::execute::{numeric_is_total, numeric_reads_models, run_of};
use crate::expr::Expr;
use crate::identity::EntityId;
use crate::journal::{
    entry_model, entry_tick, keep_last, latest_at_or_before, snapshot_keys, EntryModel, Journal,
    JournalConfig, JournalEntry,
};
use crate::model::{restored_from, Model};
use crate::msg::{Msg, MsgKind, MsgModel};
use crate::replayer::{fresh_model, msg_models, processed};
use crate::rng::GameRng;
use crate::runtime::{Runtime, UpdateResult};
use crate::value::{Value, ValueMap};

verus! {

/// The part of a journal that recording messages changes.
pub struct JournalView {
    pub entries: Seq<EntryModel>,
    pub seq: u64,
    pub last: Option<u64>,
}

/// The recording state of a journal.
pub open spec fn journal_view(j: &Journal) -> JournalView {
    JournalView { entries: j.spec_entries(), seq: j.spec_current_seq(), last: j.spec_last_tick() }
}

/// Recording a tick boundary (when recording): a boundary unless the tick is the last one
/// recorded, then trimming to the entry limit.
pub open spec fn record_tick_view(cfg: JournalConfig, v: JournalView, tick: u64) -> JournalView {
    if !cfg.recording_enabled {
        v
    } else {
        let fresh = v.last != Some(tick);
        JournalView {
            entries: keep_last(
                if fresh {
                    v.entries.push(EntryModel::TickBoundary { tick })
                } else {
                    v.entries
                },
                cfg.max_entries,
            ),
            seq: if fresh {
                0
            } else {
                v.seq
            },
            last: Some(tick),
        }
    }
}

/// Recording one message (when recording): a tick boundary first if the tick is new, then
/// the message with the next sequence number of its tick, then trimming to the entry limit.
pub open spec fn record_one(cfg: JournalConfig, v: JournalView, tick: u64, m: MsgModel) -> JournalView {
    if !cfg.recording_enabled {
        v
    } else {
        let fresh = v.last != Some(tick);
        let with_boundary = if fresh {
            v.entries.push(EntryModel::TickBoundary { tick })
        } else {
            v.entries
        };
        let seq: u64 = if fresh {
            0
        } else {
            v.seq
        };
        JournalView {
            entries: keep_last(with_boundary.push(EntryModel::Message { tick, msg: m, seq }), cfg.max_entries),
            seq: (seq + 1) as u64,
            last: Some(tick),
        }
    }
}

/// Recording messages in order at one tick.
pub open spec fn record_all(cfg: JournalConfig, v: JournalView, tick: u64, ms: Seq<MsgModel>) -> JournalView
    decreases ms.len(),
{
    if ms.len() == 0 {
        v
    } else {
        record_one(cfg, record_all(cfg, v, tick, ms.drop_last()), tick, ms.last())
    }
}

/// The messages among journal entries, in order.
pub open spec fn messages_in(es: Seq<EntryModel>) -> Seq<MsgModel>
    decreases es.len(),
{
    if es.len() == 0 {
        Seq::empty()
    } else {
        let prev = messages_in(es.drop_last());
        match es.last() {
            EntryModel::Message { msg, .. } => prev.push(msg),
            _ => prev,
        }
    }
}

/// The model that replaying to `tick` starts from: a copy of the latest snapshot at or
/// before it, or a fresh model when there is none.
pub open spec fn replay_base(j: &Journal, tick: u64, m: Model) -> bool {
    let snaps = j.spec_snapshots();
    if forall|i: int| 0 <= i < snaps.len() ==> (#[trigger] snaps[i]).tick > tick {
        fresh_model(m)
    } else {
        exists|i: int| #[trigger] latest_at_or_before(snaps, tick, i) && restored_from(m, snaps[i].model)
    }
}

impl Runtime {
    /// Process every queued message in order like [`Runtime::process_queue`], recording
    /// each one in the journal at the model's current tick before processing it.
    pub fn process_queue_with_journal<
        E: Fn(&Expr, &Model, Option<EntityId>, &ValueMap, &GameRng) -> Evaluated,
        P: Fn(&Vec<u64>, &GameRng) -> (Option<usize>, GameRng),
        F: Fn(ModifyOp, Option<Value>, u64) -> u64,
    >(
        &mut self,
        model: &mut Model,
        journal: &mut Journal,
        eval: &E,
        pick: &P,
        numeric: &F,
    ) -> (r: UpdateResult)
        requires
            evaluator_reads_scene(*eval),
            evaluator_is_total(*eval),
            picker_is_function(*pick),
            picker_is_total(*pick),
            numeric_is_total(*numeric),
            numeric_reads_models(*numeric),
            old(journal).spec_current_seq() + old(self).spec_queue().len() < u64::MAX,
        ensures
            r.cmd is Nothing,
            r.emitted_messages@.len() == 0,
            run_of(final(model), &r.effect_result) == queue_run(
                *eval,
                *pick,
                *numeric,
                old(self).spec_tick_handlers(),
                old(self).spec_event_handlers(),
                old(self).spec_queue(),
                fresh_run(old(model)),
            ),
            journal_view(final(journal)) == record_all(
                old(journal).spec_config(),
                journal_view(old(journal)),
                old(model).time.tick,
                msg_models(old(self).spec_queue()),
            ),
            final(journal).spec_config() == old(journal).spec_config(),
            final(journal).spec_snapshots() == old(journal).spec_snapshots(),
            final(journal).spec_next_snapshot_id() == old(journal).spec_next_snapshot_id(),
            final(self).spec_queue().len() == 0,
            final(self).spec_scheduled() == old(self).spec_scheduled(),
            final(self).spec_tick_handlers() == old(self).spec_tick_handlers(),
            final(self).spec_event_handlers() == old(self).spec_event_handlers(),
            final(model).time == old(model).time,
            final(model).actors == old(model).actors,
    {
        let mut result = UpdateResult::new();
        proof {
            assert(run_of(model, &result.effect_result) == fresh_run(model)) by {
                assert(crate::execute::ids_of(result.effect_result.spawned@) =~= Seq::<u64>::empty());
                assert(crate::execute::ids_of(result.effect_result.destroyed@) =~= Seq::<u64>::empty());
                assert(crate::collect::emitted_model(result.effect_result.emitted_events@) =~= Seq::empty());
                assert(crate::collect::scheduled_model(result.effect_result.scheduled_events@) =~= Seq::empty());
                assert(crate::collect::logs_model(result.effect_result.logs@) =~= Seq::empty());
                assert(crate::collect::notes_model(result.effect_result.notifications@) =~= Seq::empty());
            }
        }
        let tick = model.current_tick();
        let ghost q0 = self.spec_queue();
        let ghost seq0 = journal.spec_current_seq();
        let mut cmds: Vec<crate::cmd::Cmd> = Vec::new();
        let n = self.queued();
        let mut i: usize = 0;
        while i < n
            invariant
                n == q0.len(),
                i <= n,
                q0 == old(self).spec_queue(),
                seq0 == old(journal).spec_current_seq(),
                seq0 + n < u64::MAX,
                tick == old(model).time.tick,
                self.spec_queue() == q0.subrange(i as int, n as int),
                self.spec_scheduled() == old(self).spec_scheduled(),
                self.spec_tick_handlers() == old(self).spec_tick_handlers(),
                self.spec_event_handlers() == old(self).spec_event_handlers(),
                evaluator_reads_scene(*eval),
                evaluator_is_total(*eval),
                picker_is_function(*pick),
                picker_is_total(*pick),
                numeric_is_total(*numeric),
                numeric_reads_models(*numeric),
                run_of(model, &result.effect_result) == queue_run(
                    *eval,
                    *pick,
                    *numeric,
                    old(self).spec_tick_handlers(),
                    old(self).spec_event_handlers(),
                    q0.subrange(0, i as int),
                    fresh_run(old(model)),
                ),
                journal_view(journal) == record_all(
                    old(journal).spec_config(),
                    journal_view(old(journal)),
                    tick,
                    msg_models(q0.subrange(0, i as int)),
                ),
                journal.spec_config() == old(journal).spec_config(),
                journal.spec_snapshots() == old(journal).spec_snapshots(),
                journal.spec_next_snapshot_id() == old(journal).spec_next_snapshot_id(),
                journal.spec_config().recording_enabled && i > 0 ==> journal.spec_last_tick() == Some(tick),
                journal.spec_config().recording_enabled ==> (journal.spec_current_seq() <= seq0 + i
                    || journal.spec_current_seq() <= i),
                result.cmd is Nothing,
                result.emitted_messages@.len() == 0,
                crate::cmd::flatten(cmds@).len() == 0,
                model.time == old(model).time,
                model.actors == old(model).actors,
            decreases n - i,
        {
            let msg = match self.next_message() {
                Some(m) => m,
                None => {
                    proof {
                        assert(false);
                    }
                    Msg::tick(0)
                },
            };
            proof {
                assert(msg == q0[i as int]);
                assert(self.spec_queue() =~= q0.subrange(i + 1, n as int));
            }
            let ghost jv = journal_view(journal);
            journal.record_message(tick, msg.duplicate());
            proof {
                assert(journal_view(journal) == record_one(old(journal).spec_config(), jv, tick, msg.model()));
                let ms = msg_models(q0.subrange(0, i + 1));
                assert(ms.drop_last() =~= msg_models(q0.subrange(0, i as int)));
                assert(ms.last() == msg.model());
            }
            self.update_into(model, &msg, &mut result.effect_result, eval, pick, numeric);
            let ghost c0 = cmds@;
            cmds.push(crate::cmd::Cmd::none());
            proof {
                assert(cmds@.drop_last() =~= c0);
                let sub = q0.subrange(0, i + 1);
                assert(sub.drop_last() =~= q0.subrange(0, i as int));
                assert(sub.last() == q0[i as int]);
            }
            i = i + 1;
        }
        proof {
            assert(q0.subrange(0, n as int) =~= q0);
            assert(self.spec_queue().len() == 0);
        }
        result.cmd = crate::cmd::Cmd::batch(cmds);
        result
    }

    /// Replay a journal to a tick: restore the model from the latest snapshot at or before
    /// it (a fresh model if none), queue the recorded messages whose ticks lie between the
    /// model's tick and the target tick (both included), and process the queue.
    pub fn replay_to<
        E: Fn(&Expr, &Model, Option<EntityId>, &ValueMap, &GameRng) -> Evaluated,
        P: Fn(&Vec<u64>, &GameRng) -> (Option<usize>, GameRng),
        F: Fn(ModifyOp, Option<Value>, u64) -> u64,
    >(
        &mut self,
        model: &mut Model,
        journal: &Journal,
        target_tick: u64,
        eval: &E,
        pick: &P,
        numeric: &F,
    ) -> (r: bool)
        requires
            evaluator_reads_scene(*eval),
            evaluator_is_total(*eval),
            picker_is_function(*pick),
            picker_is_total(*pick),
            numeric_is_total(*numeric),
            numeric_reads_models(*numeric),
        ensures
            r,
            exists|base: Model, q: Seq<Msg>|
                #![trigger replay_base(journal, target_tick, base), msg_models(q)]
                replay_base(journal, target_tick, base) && msg_models(q) == msg_models(
                    old(self).spec_queue(),
                ) + messages_in(
                    journal.spec_entries().filter(
                        |e: EntryModel| base.time.tick <= entry_tick(e) <= target_tick,
                    ),
                ) && processed(
                    *final(model),
                    base,
                    queue_run(
                        *eval,
                        *pick,
                        *numeric,
                        old(self).spec_tick_handlers(),
                        old(self).spec_event_handlers(),
                        q,
                        fresh_run(&base),
                    ),
                ),
            final(self).spec_queue().len() == 0,
            final(self).spec_scheduled() == old(self).spec_scheduled(),
            final(self).spec_tick_handlers() == old(self).spec_tick_handlers(),
            final(self).spec_event_handlers() == old(self).spec_event_handlers(),
    {
        let ghost snaps = journal.spec_snapshots();
        match journal.snapshot_at_or_before(target_tick) {
            Some(s) => {
                *model = s.model.duplicate();
            },
            None => {
                *model = Model::new();
            },
        }
        let ghost base = *model;
        assert(replay_base(journal, target_tick, base));
        let start = model.current_tick();
        let entries = journal.entries_in_range(start, target_tick);
        let ghost em = entries@.map_values(|e: &JournalEntry| entry_model(e));
        let ghost q0 = msg_models(self.spec_queue());
        let n = entries.len();
        let mut i: usize = 0;
        while i < n
            invariant
                n == entries@.len(),
                em == entries@.map_values(|e: &JournalEntry| entry_model(e)),
                i <= n,
                q0 == msg_models(old(self).spec_queue()),
                msg_models(self.spec_queue()) == q0 + messages_in(em.subrange(0, i as int)),
                self.spec_scheduled() == old(self).spec_scheduled(),
                self.spec_tick_handlers() == old(self).spec_tick_handlers(),
                self.spec_event_handlers() == old(self).spec_event_handlers(),
            decreases n - i,
        {
            proof {
                assert(em.subrange(0, i + 1).drop_last() =~= em.subrange(0, i as int));
                assert(em[i as int] == entry_model(entries@[i as int]));
            }
            match entries[i] {
                JournalEntry::Message { msg, .. } => {
                    let ghost before = self.spec_queue();
                    self.send(msg.duplicate());
                    assert(msg_models(self.spec_queue()) =~= msg_models(before).push(msg.model()));
                },
                _ => {},
            }
            i = i + 1;
        }
        assert(em.subrange(0, n as int) =~= em);
        let ghost q = self.spec_queue();
        let _ = self.process_queue(model, eval, pick, numeric);
        proof {
            assert(processed(
                *model,
                base,
                queue_run(
                    *eval,
                    *pick,
                    *numeric,
                    old(self).spec_tick_handlers(),
                    old(self).spec_event_handlers(),
                    q,
                    fresh_run(&base),
                ),
            ));
        }
        true
    }

    /// Step back one tick by replaying to the tick before the model's (see
    /// [`Runtime::replay_to`]); `None` at tick 0, where nothing changes.
    pub fn step_back<
        E: Fn(&Expr, &Model, Option<EntityId>, &ValueMap, &GameRng) -> Evaluated,
        P: Fn(&Vec<u64>, &GameRng) -> (Option<usize>, GameRng),
        F: Fn(ModifyOp, Option<Value>, u64) -> u64,
    >(
        &mut self,
        model: &mut Model,
        journal: &Journal,
        eval: &E,
        pick: &P,
        numeric: &F,
    ) -> (r: Option<u64>)
        requires
            evaluator_reads_scene(*eval),
            evaluator_is_total(*eval),
            picker_is_function(*pick),
            picker_is_total(*pick),
            numeric_is_total(*numeric),
            numeric_reads_models(*numeric),
        ensures
            old(model).time.tick == 0 ==> r is None && *final(model) == *old(model) && *final(self) == *old(self),
            old(model).time.tick > 0 ==> r == Some((old(model).time.tick - 1) as u64),
            old(model).time.tick > 0 ==> final(self).spec_queue().len() == 0,
            old(model).time.tick > 0 ==> ({
                let t = (old(model).time.tick - 1) as u64;
                exists|base: Model, q: Seq<Msg>|
                    #![trigger replay_base(journal, t, base), msg_models(q)]
                    replay_base(journal, t, base) && msg_models(q) == msg_models(old(self).spec_queue())
                        + messages_in(journal.spec_entries().filter(|e: EntryModel| base.time.tick <= entry_tick(e) <= t))
                        && processed(
                        *final(model),
                        base,
                        queue_run(
                            *eval,
                            *pick,
                            *numeric,
                            old(self).spec_tick_handlers(),
                            old(self).spec_event_handlers(),
                            q,
                            fresh_run(&base),
                        ),
                    )
            }),
    {
        let current = model.current_tick();
        if current == 0 {
            return None;
        }
        let target = current - 1;
        let _ = self.replay_to(model, journal, target, eval, pick, numeric);
        Some(target)
    }

    /// Step forward one tick by replaying to the tick after the model's (see
    /// [`Runtime::replay_to`]); returns that tick.
    pub fn step_forward<
        E: Fn(&Expr, &Model, Option<EntityId>, &ValueMap, &GameRng) -> Evaluated,
        P: Fn(&Vec<u64>, &GameRng) -> (Option<usize>, GameRng),
        F: Fn(ModifyOp, Option<Value>, u64) -> u64,
    >(
        &mut self,
        model: &mut Model,
        journal: &Journal,
        eval: &E,
        pick: &P,
        numeric: &F,
    ) -> (r: u64)
        requires
            old(model).time.tick < u64::MAX,
            evaluator_reads_scene(*eval),
            evaluator_is_total(*eval),
            picker_is_function(*pick),
            picker_is_total(*pick),
            numeric_is_total(*numeric),
            numeric_reads_models(*numeric),
        ensures
            r == old(model).time.tick + 1,
            exists|base: Model, q: Seq<Msg>|
                #![trigger replay_base(journal, r, base), msg_models(q)]
                replay_base(journal, r, base) && msg_models(q) == msg_models(old(self).spec_queue())
                    + messages_in(journal.spec_entries().filter(|e: EntryModel| base.time.tick <= entry_tick(e) <= r))
                    && processed(
                    *final(model),
                    base,
                    queue_run(
                        *eval,
                        *pick,
                        *numeric,
                        old(self).spec_tick_handlers(),
                        old(self).spec_event_handlers(),
                        q,
                        fresh_run(&base),
                    ),
                ),
            final(self).spec_queue().len() == 0,
    {
        let target = model.current_tick() + 1;
        let _ = self.replay_to(model, journal, target, eval, pick, numeric);
        target
    }
    /// Advance one tick like [`Runtime::tick`], with a journal: the new tick is recorded as
    /// a boundary, every processed message is recorded before it is processed (see
    /// [`Runtime::process_queue_with_journal`]), and a snapshot of the model is taken after
    /// processing when one is due at the new tick.
    pub fn tick_with_journal<
        E: Fn(&Expr, &Model, Option<EntityId>, &ValueMap, &GameRng) -> Evaluated,
        P: Fn(&Vec<u64>, &GameRng) -> (Option<usize>, GameRng),
        F: Fn(ModifyOp, Option<Value>, u64) -> u64,
    >(
        &mut self,
        model: &mut Model,
        journal: &mut Journal,
        eval: &E,
        pick: &P,
        numeric: &F,
    ) -> (r: UpdateResult)
        requires
            old(model).time.tick < u64::MAX,
            old(journal).spec_current_seq() + old(self).spec_queue().len() + old(self).spec_scheduled().len() + 1
                < u64::MAX,
            old(journal).spec_next_snapshot_id() < u64::MAX,
            evaluator_reads_scene(*eval),
            evaluator_is_total(*eval),
            picker_is_function(*pick),
            picker_is_total(*pick),
            numeric_is_total(*numeric),
            numeric_reads_models(*numeric),
        ensures
            final(model).time.tick == old(model).time.tick + 1,
            r.cmd is Nothing,
            r.emitted_messages@.len() == 0,
            final(self).spec_queue().len() == 0,
            final(self).spec_tick_handlers() == old(self).spec_tick_handlers(),
            final(self).spec_event_handlers() == old(self).spec_event_handlers(),
            final(journal).spec_config() == old(journal).spec_config(),
            exists|q: Seq<Msg>, mid: Model|
                #[trigger] queue_run(
                    *eval,
                    *pick,
                    *numeric,
                    old(self).spec_tick_handlers(),
                    old(self).spec_event_handlers(),
                    q,
                    fresh_run(&mid),
                ) == run_of(final(model), &r.effect_result) && q.len() > 0 && q.last().kind == MsgKind::Tick
                    && q.last().tick == final(model).time.tick && mid.entities == old(model).entities
                    && mid.globals == old(model).globals && mid.rng == old(model).rng && (exists|k: int|
                    0 <= k <= old(self).spec_scheduled().len() && (forall|i: int|
                        0 <= i < k ==> (#[trigger] old(self).spec_scheduled()[i]).0 <= final(model).time.tick) && (
                    forall|i: int|
                        k <= i < old(self).spec_scheduled().len() ==> (#[trigger] old(self).spec_scheduled()[i]).0
                            > final(model).time.tick) && final(self).spec_scheduled()
                        == #[trigger] old(self).spec_scheduled().subrange(k, old(self).spec_scheduled().len() as int)
                        && q.drop_last() == old(self).spec_queue() + old(self).spec_scheduled().subrange(0, k).map_values(
                        |e: (u64, Msg)| e.1,
                    )) && ({
                    let t = final(model).time.tick;
                    let cfg = old(journal).spec_config();
                    let v = record_all(cfg, record_tick_view(cfg, journal_view(old(journal)), t), t, msg_models(q));
                    if cfg.snapshot_interval != 0 && t % cfg.snapshot_interval == 0 {
                        &&& final(journal).spec_entries() == if cfg.recording_enabled {
                            v.entries.push(EntryModel::Snapshot { tick: t, snapshot_id: old(journal).spec_next_snapshot_id() })
                        } else {
                            v.entries
                        }
                        &&& final(journal).spec_current_seq() == v.seq
                        &&& final(journal).spec_last_tick() == v.last
                        &&& final(journal).spec_next_snapshot_id() == old(journal).spec_next_snapshot_id() + 1
                        &&& snapshot_keys(final(journal).spec_snapshots()) == keep_last(
                            snapshot_keys(old(journal).spec_snapshots()).push((old(journal).spec_next_snapshot_id(), t)),
                            cfg.max_snapshots,
                        )
                        &&& final(journal).spec_snapshots().len() > 0
                        &&& final(journal).spec_snapshots().last().model.entities@ == final(model).entities@
                        &&& final(journal).spec_snapshots().last().model.globals@ == final(model).globals@
                        &&& final(journal).spec_snapshots().last().model.time == final(model).time
                        &&& final(journal).spec_snapshots().last().model.rng@ == final(model).rng@
                    } else {
                        &&& journal_view(final(journal)) == v
                        &&& final(journal).spec_snapshots() == old(journal).spec_snapshots()
                        &&& final(journal).spec_next_snapshot_id() == old(journal).spec_next_snapshot_id()
                    }
                }),
    {
        let t = self.begin_tick(model);
        let ghost mid = *model;
        let ghost q = self.spec_queue();
        proof {
            let k = choose|k: int|
                0 <= k <= old(self).spec_scheduled().len() && (forall|i: int|
                    0 <= i < k ==> (#[trigger] old(self).spec_scheduled()[i]).0 <= t) && (forall|i: int|
                    k <= i < old(self).spec_scheduled().len() ==> (#[trigger] old(self).spec_scheduled()[i]).0 > t)
                    && self.spec_scheduled() == #[trigger] old(self).spec_scheduled().subrange(
                    k,
                    old(self).spec_scheduled().len() as int,
                ) && self.spec_queue().drop_last() == old(self).spec_queue() + old(self).spec_scheduled().subrange(
                    0,
                    k,
                ).map_values(|e: (u64, Msg)| e.1);
            assert(self.spec_queue().drop_last().len() == old(self).spec_queue().len() + k);
        }
        journal.record_tick(t);
        let r = self.process_queue_with_journal(model, journal, eval, pick, numeric);
        let ghost jv = journal_view(journal);
        if journal.should_snapshot(t) {
            let _ = journal.take_snapshot(model);
        }
        proof {
            assert(queue_run(
                *eval,
                *pick,
                *numeric,
                old(self).spec_tick_handlers(),
                old(self).spec_event_handlers(),
                q,
                fresh_run(&mid),
            ) == run_of(model, &r.effect_result));
        }
        r
    }
}

} // verus!
