//! Replay of a recorded journal: position, state and the messages to re-run.
//!
//! Moving to a tick restores the model from the nearest snapshot (or a fresh model) and
//! re-runs the recorded messages up to that tick on a runtime.
use vstd::prelude::*;
use crate::journal::{entries_model, entry_model, latest_at_or_before, EntryModel, Journal, JournalEntry, Snapshot};
use crate::journal_error::Error;
use crate::model::{restored_from, Model};
use crate::msg::{Msg, MsgModel};
use crate::runtime::Runtime;
use crate::collect::{evaluator_is_total, evaluator_reads_scene, picker_is_function, picker_is_total, Evaluated};
use crate::dispatch::{fresh_run, queue_run};
use crate::effect::ModifyOp;
use crate::execute::{numeric_is_total, numeric_reads_models, Run};
use crate::expr::Expr;
use crate::identity::EntityId;
use crate::rng::GameRng;
use crate::value::{Value, ValueMap};

verus! {

/// Replay speed.
#[derive(Debug, Clone, Copy, PartialEq, Eq, Structural)]
pub enum ReplaySpeed {
    /// One tick per step.
    Step,
    /// Real time scaled by a factor (the bits of an `f64`).
    RealTime(u64),
    /// As fast as possible.
    Instant,
}

impl Default for ReplaySpeed {
    fn default() -> (r: Self)
        ensures
            r == ReplaySpeed::Step,
    {
        ReplaySpeed::Step
    }
}

/// State of a replay.
#[derive(Debug, Clone, Copy, PartialEq, Eq, Structural)]
pub enum ReplayState {
    Idle,
    Playing,
    Paused,
    Finished,
}

/// Models of messages.
pub open spec fn msg_models(s: Seq<Msg>) -> Seq<MsgModel> {
    s.map_values(|m: Msg| m.model())
}

/// The messages of `s` recorded after tick `start` and at or before tick `end`, in order.
pub open spec fn range_messages(s: Seq<EntryModel>, start: u64, end: u64) -> Seq<MsgModel>
    decreases s.len(),
{
    if s.len() == 0 {
        Seq::empty()
    } else {
        let prev = range_messages(s.drop_last(), start, end);
        match s.last() {
            EntryModel::Message { tick, msg, .. } => if start < tick <= end {
                prev.push(msg)
            } else {
                prev
            },
            _ => prev,
        }
    }
}

/// The messages of `s` recorded at tick `tick`, in order.
pub open spec fn messages_of_tick(s: Seq<EntryModel>, tick: u64) -> Seq<MsgModel>
    decreases s.len(),
{
    if s.len() == 0 {
        Seq::empty()
    } else {
        let prev = messages_of_tick(s.drop_last(), tick);
        match s.last() {
            EntryModel::Message { tick: t, msg, .. } => if t == tick {
                prev.push(msg)
            } else {
                prev
            },
            _ => prev,
        }
    }
}

/// Replays a journal.
pub struct Replayer<'a> {
    journal: &'a Journal,
    state: ReplayState,
    speed: ReplaySpeed,
    current_tick: u64,
    target_tick: Option<u64>,
}

impl<'a> Replayer<'a> {
    /// The journal replayed.
    pub closed spec fn spec_journal(&self) -> &'a Journal {
        self.journal
    }

    /// The replay state.
    pub closed spec fn spec_state(&self) -> ReplayState {
        self.state
    }

    /// The tick replayed to.
    pub closed spec fn spec_tick(&self) -> u64 {
        self.current_tick
    }

    /// The replay speed.
    pub closed spec fn spec_speed(&self) -> ReplaySpeed {
        self.speed
    }

    /// The tick to stop at, if any.
    pub closed spec fn spec_target(&self) -> Option<u64> {
        self.target_tick
    }

    /// A replayer at tick 0, idle, stepping.
    pub fn new(journal: &'a Journal) -> (r: Self)
        ensures
            r.spec_journal() == journal,
            r.spec_state() == ReplayState::Idle,
            r.spec_speed() == ReplaySpeed::Step,
            r.spec_tick() == 0,
            r.spec_target() is None,
    {
        Replayer {
            journal,
            state: ReplayState::Idle,
            speed: ReplaySpeed::default(),
            current_tick: 0,
            target_tick: None,
        }
    }

    /// The replay state.
    pub fn state(&self) -> (r: ReplayState)
        ensures
            r == self.spec_state(),
    {
        self.state
    }

    /// The tick replayed to.
    pub fn current_tick(&self) -> (r: u64)
        ensures
            r == self.spec_tick(),
    {
        self.current_tick
    }

    /// The replay speed.
    pub fn speed(&self) -> (r: ReplaySpeed)
        ensures
            r == self.spec_speed(),
    {
        self.speed
    }

    /// Set the replay speed.
    pub fn set_speed(&mut self, speed: ReplaySpeed)
        ensures
            final(self).spec_speed() == speed,
            final(self).spec_state() == old(self).spec_state(),
            final(self).spec_tick() == old(self).spec_tick(),
            final(self).spec_journal() == old(self).spec_journal(),
            final(self).spec_target() == old(self).spec_target(),
    {
        self.speed = speed;
    }

    /// The tick of the journal's first entry.
    pub fn first_tick(&self) -> (r: Option<u64>)
        ensures
            r == if self.spec_journal().spec_entries().len() == 0 {
                None
            } else {
                Some(crate::journal::entry_tick(self.spec_journal().spec_entries()[0]))
            },
    {
        self.journal.stats().first_tick
    }

    /// The last tick recorded in the journal.
    pub fn last_tick(&self) -> (r: Option<u64>)
        ensures
            r == self.spec_journal().spec_last_tick(),
    {
        self.journal.stats().last_tick
    }

    /// Queue on `runtime` the recorded messages after `start` and at or before `end`.
    fn queue_range(&self, runtime: &mut Runtime, start: u64, end: u64)
        ensures
            msg_models(final(runtime).spec_queue()) == msg_models(old(runtime).spec_queue())
                + range_messages(self.journal.spec_entries(), start, end),
            final(runtime).spec_scheduled() == old(runtime).spec_scheduled(),
            final(runtime).spec_event_handlers() == old(runtime).spec_event_handlers(),
            final(runtime).spec_tick_handlers() == old(runtime).spec_tick_handlers(),
    {
        let entries = self.journal.entries();
        let ghost es = entries_model(entries@);
        let ghost q0 = msg_models(runtime.spec_queue());
        let n = entries.len();
        let mut i: usize = 0;
        while i < n
            invariant
                n == entries@.len(),
                es == entries_model(entries@),
                es == self.journal.spec_entries(),
                i <= n,
                msg_models(runtime.spec_queue()) == q0 + range_messages(es.subrange(0, i as int), start, end),
                runtime.spec_scheduled() == old(runtime).spec_scheduled(),
                runtime.spec_event_handlers() == old(runtime).spec_event_handlers(),
                runtime.spec_tick_handlers() == old(runtime).spec_tick_handlers(),
            decreases n - i,
        {
            proof {
                assert(es.subrange(0, i + 1).drop_last() =~= es.subrange(0, i as int));
                assert(es[i as int] == entry_model(&entries@[i as int]));
            }
            match &entries[i] {
                JournalEntry::Message { tick, msg, .. } => {
                    if start < *tick && *tick <= end {
                        let ghost before = runtime.spec_queue();
                        let m = msg.duplicate();
                        runtime.send(m);
                        assert(msg_models(runtime.spec_queue()) =~= msg_models(before).push(msg.model()));
                    }
                },
                _ => {},
            }
            i = i + 1;
        }
        assert(es.subrange(0, n as int) =~= es);
    }

    /// Go to a tick: restore the model from the latest snapshot at or before it (a fresh
    /// model at tick 0 if none); when the tick lies after that, queue on `runtime` the
    /// recorded messages after the snapshot's tick up to the tick and process the queue
    /// (see [`Runtime::process_queue`]); then pause there.
    pub fn goto<
        E: Fn(&Expr, &Model, Option<EntityId>, &ValueMap, &GameRng) -> Evaluated,
        P: Fn(&Vec<u64>, &GameRng) -> (Option<usize>, GameRng),
        F: Fn(ModifyOp, Option<Value>, u64) -> u64,
    >(
        &mut self,
        model: &mut Model,
        runtime: &mut Runtime,
        tick: u64,
        eval: &E,
        pick: &P,
        numeric: &F,
    ) -> (r: Result<(), Error>)
        requires
            evaluator_reads_scene(*eval),
            evaluator_is_total(*eval),
            picker_is_function(*pick),
            picker_is_total(*pick),
            numeric_is_total(*numeric),
            numeric_reads_models(*numeric),
        ensures
            r is Ok,
            final(self).spec_tick() == tick,
            final(self).spec_state() == ReplayState::Paused,
            final(self).spec_journal() == old(self).spec_journal(),
            final(self).spec_speed() == old(self).spec_speed(),
            final(self).spec_target() == old(self).spec_target(),
            exists|base: Model, q: Seq<Msg>|
                #[trigger] restores(
                    old(self).spec_journal(),
                    tick,
                    base,
                    msg_models(old(runtime).spec_queue()),
                    msg_models(q),
                ) && if tick > replay_start(old(self).spec_journal(), tick) {
                    &&& processed(
                        *final(model),
                        base,
                        queue_run(
                            *eval,
                            *pick,
                            *numeric,
                            old(runtime).spec_tick_handlers(),
                            old(runtime).spec_event_handlers(),
                            q,
                            fresh_run(&base),
                        ),
                    )
                    &&& final(runtime).spec_queue().len() == 0
                } else {
                    &&& *final(model) == base
                    &&& final(runtime).spec_queue() == old(runtime).spec_queue()
                },
            final(runtime).spec_scheduled() == old(runtime).spec_scheduled(),
            final(runtime).spec_event_handlers() == old(runtime).spec_event_handlers(),
            final(runtime).spec_tick_handlers() == old(runtime).spec_tick_handlers(),
    {
        let ghost snaps = self.journal.spec_snapshots();
        let ghost mut idx: int = -1;
        match self.journal.snapshot_at_or_before(tick) {
            Some(s) => {
                proof {
                    idx = choose|i: int| #[trigger] latest_at_or_before(snaps, tick, i) && snaps[i] == *s;
                    let c = choose|i: int| latest_at_or_before(snaps, tick, i);
                    assert(latest_at_or_before(snaps, tick, c));
                    assert(snaps[c].tick <= snaps[idx].tick);
                    assert(snaps[idx].tick <= snaps[c].tick);
                }
                *model = s.model.duplicate();
                self.current_tick = s.tick;
            },
            None => {
                proof {
                    if exists|i: int| latest_at_or_before(snaps, tick, i) {
                        let c = choose|i: int| latest_at_or_before(snaps, tick, i);
                        assert(snaps[c].tick <= tick);
                    }
                }
                *model = Model::new();
                self.current_tick = 0;
            },
        }
        let ghost base = *model;
        let ghost q0 = msg_models(runtime.spec_queue());
        let ghost mut qq = runtime.spec_queue();
        let ghost start = replay_start(self.journal, tick);
        assert(self.current_tick == start);
        if tick > self.current_tick {
            self.queue_range(runtime, self.current_tick, tick);
            proof {
                qq = runtime.spec_queue();
                if idx >= 0 {
                    assert(latest_at_or_before(snaps, tick, idx));
                    assert(restored_from(base, snaps[idx].model));
                }
                assert(restores(self.journal, tick, base, q0, msg_models(qq)));
            }
            let _ = runtime.process_queue(model, eval, pick, numeric);
            proof {
                assert(processed(
                    *model,
                    base,
                    queue_run(
                        *eval,
                        *pick,
                        *numeric,
                        old(runtime).spec_tick_handlers(),
                        old(runtime).spec_event_handlers(),
                        qq,
                        fresh_run(&base),
                    ),
                ));
            }
        } else {
            proof {
                assert(msg_models(runtime.spec_queue()) =~= q0 + Seq::<MsgModel>::empty());
                if idx >= 0 {
                    assert(latest_at_or_before(snaps, tick, idx));
                    assert(restored_from(base, snaps[idx].model));
                }
                assert(restores(self.journal, tick, base, q0, msg_models(qq)));
            }
        }
        proof {
            assert(restores(self.journal, tick, base, msg_models(old(runtime).spec_queue()), msg_models(qq)) && if tick
                > replay_start(self.journal, tick) {
                &&& processed(
                    *model,
                    base,
                    queue_run(
                        *eval,
                        *pick,
                        *numeric,
                        old(runtime).spec_tick_handlers(),
                        old(runtime).spec_event_handlers(),
                        qq,
                        fresh_run(&base),
                    ),
                )
                &&& runtime.spec_queue().len() == 0
            } else {
                &&& *model == base
                &&& runtime.spec_queue() == old(runtime).spec_queue()
            });
        }
        self.current_tick = tick;
        self.state = ReplayState::Paused;
        Ok(())
    }

    /// Step one tick forward: at or past the journal's last tick (0 when none) the replay
    /// finishes and nothing moves; otherwise the next tick's messages are queued and the
    /// queue processed, and the replay finishes when it reaches the last tick.
    pub fn step_forward<
        E: Fn(&Expr, &Model, Option<EntityId>, &ValueMap, &GameRng) -> Evaluated,
        P: Fn(&Vec<u64>, &GameRng) -> (Option<usize>, GameRng),
        F: Fn(ModifyOp, Option<Value>, u64) -> u64,
    >(
        &mut self,
        model: &mut Model,
        runtime: &mut Runtime,
        eval: &E,
        pick: &P,
        numeric: &F,
    ) -> (r: Result<bool, Error>)
        requires
            evaluator_reads_scene(*eval),
            evaluator_is_total(*eval),
            picker_is_function(*pick),
            picker_is_total(*pick),
            numeric_is_total(*numeric),
            numeric_reads_models(*numeric),
        ensures
            ({
                let last = match old(self).spec_journal().spec_last_tick() {
                    Some(t) => t,
                    None => 0,
                };
                if old(self).spec_tick() >= last {
                    &&& r == Ok::<bool, Error>(false)
                    &&& final(self).spec_state() == ReplayState::Finished
                    &&& final(self).spec_tick() == old(self).spec_tick()
                    &&& final(runtime).spec_queue() == old(runtime).spec_queue()
                    &&& *final(model) == *old(model)
                } else {
                    &&& r == Ok::<bool, Error>(true)
                    &&& final(self).spec_tick() == old(self).spec_tick() + 1
                    &&& final(self).spec_state() == if final(self).spec_tick() >= last {
                        ReplayState::Finished
                    } else {
                        old(self).spec_state()
                    }
                    &&& exists|q: Seq<Msg>|
                        msg_models(q) == msg_models(old(runtime).spec_queue()) + range_messages(
                            old(self).spec_journal().spec_entries(),
                            old(self).spec_tick(),
                            (old(self).spec_tick() + 1) as u64,
                        ) && processed(
                            *final(model),
                            *old(model),
                            #[trigger] queue_run(
                                *eval,
                                *pick,
                                *numeric,
                                old(runtime).spec_tick_handlers(),
                                old(runtime).spec_event_handlers(),
                                q,
                                fresh_run(old(model)),
                            ),
                        )
                    &&& final(runtime).spec_queue().len() == 0
                }
            }),
            final(self).spec_journal() == old(self).spec_journal(),
            final(self).spec_speed() == old(self).spec_speed(),
            final(self).spec_target() == old(self).spec_target(),
            final(runtime).spec_scheduled() == old(runtime).spec_scheduled(),
            final(runtime).spec_event_handlers() == old(runtime).spec_event_handlers(),
            final(runtime).spec_tick_handlers() == old(runtime).spec_tick_handlers(),
    {
        let last = match self.last_tick() {
            Some(t) => t,
            None => 0,
        };
        if self.current_tick >= last {
            self.state = ReplayState::Finished;
            return Ok(false);
        }
        let next = self.current_tick + 1;
        self.queue_range(runtime, self.current_tick, next);
        let ghost q = runtime.spec_queue();
        let _ = runtime.process_queue(model, eval, pick, numeric);
        proof {
            assert(processed(
                *model,
                *old(model),
                queue_run(
                    *eval,
                    *pick,
                    *numeric,
                    old(runtime).spec_tick_handlers(),
                    old(runtime).spec_event_handlers(),
                    q,
                    fresh_run(old(model)),
                ),
            ));
        }
        self.current_tick = next;
        if self.current_tick >= last {
            self.state = ReplayState::Finished;
        }
        Ok(true)
    }

    /// Step one tick back by going to the previous tick (see [`Replayer::goto`]); nothing
    /// happens at tick 0.
    pub fn step_backward<
        E: Fn(&Expr, &Model, Option<EntityId>, &ValueMap, &GameRng) -> Evaluated,
        P: Fn(&Vec<u64>, &GameRng) -> (Option<usize>, GameRng),
        F: Fn(ModifyOp, Option<Value>, u64) -> u64,
    >(
        &mut self,
        model: &mut Model,
        runtime: &mut Runtime,
        eval: &E,
        pick: &P,
        numeric: &F,
    ) -> (r: Result<bool, Error>)
        requires
            evaluator_reads_scene(*eval),
            evaluator_is_total(*eval),
            picker_is_function(*pick),
            picker_is_total(*pick),
            numeric_is_total(*numeric),
            numeric_reads_models(*numeric),
        ensures
            old(self).spec_tick() == 0 ==> r == Ok::<bool, Error>(false) && final(self).spec_tick() == 0
                && final(self).spec_state() == old(self).spec_state() && *final(model) == *old(model)
                && final(runtime).spec_queue() == old(runtime).spec_queue(),
            old(self).spec_tick() > 0 ==> r == Ok::<bool, Error>(true) && final(self).spec_tick()
                == old(self).spec_tick() - 1 && final(self).spec_state() == ReplayState::Paused,
            old(self).spec_tick() > 0 ==> ({
                let tick = (old(self).spec_tick() - 1) as u64;
                exists|base: Model, q: Seq<Msg>|
                    #[trigger] restores(
                        old(self).spec_journal(),
                        tick,
                        base,
                        msg_models(old(runtime).spec_queue()),
                        msg_models(q),
                    ) && if tick > replay_start(old(self).spec_journal(), tick) {
                        &&& processed(
                            *final(model),
                            base,
                            queue_run(
                                *eval,
                                *pick,
                                *numeric,
                                old(runtime).spec_tick_handlers(),
                                old(runtime).spec_event_handlers(),
                                q,
                                fresh_run(&base),
                            ),
                        )
                        &&& final(runtime).spec_queue().len() == 0
                    } else {
                        &&& *final(model) == base
                        &&& final(runtime).spec_queue() == old(runtime).spec_queue()
                    }
            }),
            final(self).spec_journal() == old(self).spec_journal(),
            final(self).spec_speed() == old(self).spec_speed(),
            final(self).spec_target() == old(self).spec_target(),
            final(runtime).spec_scheduled() == old(runtime).spec_scheduled(),
            final(runtime).spec_event_handlers() == old(runtime).spec_event_handlers(),
            final(runtime).spec_tick_handlers() == old(runtime).spec_tick_handlers(),
    {
        if self.current_tick == 0 {
            return Ok(false);
        }
        let target = self.current_tick - 1;
        let _ = self.goto(model, runtime, target, eval, pick, numeric);
        Ok(true)
    }

    /// Start playing, unless finished.
    pub fn play(&mut self)
        ensures
            final(self).spec_state() == if old(self).spec_state() == ReplayState::Finished {
                ReplayState::Finished
            } else {
                ReplayState::Playing
            },
            final(self).spec_tick() == old(self).spec_tick(),
            final(self).spec_journal() == old(self).spec_journal(),
            final(self).spec_speed() == old(self).spec_speed(),
            final(self).spec_target() == old(self).spec_target(),
    {
        if self.state != ReplayState::Finished {
            self.state = ReplayState::Playing;
        }
    }

    /// Pause, if playing.
    pub fn pause(&mut self)
        ensures
            final(self).spec_state() == if old(self).spec_state() == ReplayState::Playing {
                ReplayState::Paused
            } else {
                old(self).spec_state()
            },
            final(self).spec_tick() == old(self).spec_tick(),
            final(self).spec_journal() == old(self).spec_journal(),
            final(self).spec_speed() == old(self).spec_speed(),
            final(self).spec_target() == old(self).spec_target(),
    {
        if self.state == ReplayState::Playing {
            self.state = ReplayState::Paused;
        }
    }

    /// Back to a fresh model at tick 0, idle.
    pub fn reset(&mut self, model: &mut Model)
        ensures
            fresh_model(*final(model)),
            final(self).spec_tick() == 0,
            final(self).spec_state() == ReplayState::Idle,
            final(self).spec_journal() == old(self).spec_journal(),
            final(self).spec_speed() == old(self).spec_speed(),
            final(self).spec_target() == old(self).spec_target(),
    {
        *model = Model::new();
        self.current_tick = 0;
        self.state = ReplayState::Idle;
    }

    /// Restore the model from the latest snapshot at or before a tick and pause at the
    /// snapshot's tick, returned; nothing changes when there is none.
    pub fn seek_to_snapshot(&mut self, model: &mut Model, tick: u64) -> (r: Result<Option<u64>, Error>)
        ensures
            ({
                let snaps = old(self).spec_journal().spec_snapshots();
                if forall|i: int| 0 <= i < snaps.len() ==> (#[trigger] snaps[i]).tick > tick {
                    &&& r == Ok::<Option<u64>, Error>(None)
                    &&& *final(model) == *old(model)
                    &&& final(self).spec_tick() == old(self).spec_tick()
                    &&& final(self).spec_state() == old(self).spec_state()
                } else {
                    exists|i: int|
                        #[trigger] latest_at_or_before(snaps, tick, i) && restored_from(*final(model), snaps[i].model)
                            && r == Ok::<Option<u64>, Error>(Some(snaps[i].tick)) && final(self).spec_tick()
                            == snaps[i].tick && final(self).spec_state() == ReplayState::Paused
                }
            }),
            final(self).spec_journal() == old(self).spec_journal(),
            final(self).spec_speed() == old(self).spec_speed(),
            final(self).spec_target() == old(self).spec_target(),
    {
        let ghost snaps = self.journal.spec_snapshots();
        match self.journal.snapshot_at_or_before(tick) {
            Some(s) => {
                let ghost idx = choose|i: int| #[trigger] latest_at_or_before(snaps, tick, i) && snaps[i] == *s;
                *model = s.model.duplicate();
                self.current_tick = s.tick;
                self.state = ReplayState::Paused;
                assert(latest_at_or_before(snaps, tick, idx));
                Ok(Some(s.tick))
            },
            None => Ok(None),
        }
    }

    /// The messages recorded at a tick, in order.
    pub fn messages_at(&self, tick: u64) -> (r: Vec<&Msg>)
        ensures
            r@.map_values(|m: &Msg| m.model()) == messages_of_tick(self.spec_journal().spec_entries(), tick),
    {
        let entries = self.journal.entries();
        let ghost es = entries_model(entries@);
        let n = entries.len();
        let mut out: Vec<&Msg> = Vec::new();
        let mut i: usize = 0;
        while i < n
            invariant
                n == entries@.len(),
                es == entries_model(entries@),
                i <= n,
                out@.map_values(|m: &Msg| m.model()) == messages_of_tick(es.subrange(0, i as int), tick),
            decreases n - i,
        {
            proof {
                assert(es.subrange(0, i + 1).drop_last() =~= es.subrange(0, i as int));
                assert(es[i as int] == entry_model(&entries@[i as int]));
            }
            let ghost before = out@;
            match &entries[i] {
                JournalEntry::Message { tick: t, msg, .. } => {
                    if *t == tick {
                        out.push(msg);
                        assert(out@.map_values(|m: &Msg| m.model()) =~= before.map_values(|m: &Msg| m.model()).push(
                            msg.model(),
                        ));
                    }
                },
                _ => {},
            }
            i = i + 1;
        }
        assert(es.subrange(0, n as int) =~= es);
        out
    }

    /// The ticks of the snapshots, oldest first.
    pub fn snapshot_ticks(&self) -> (r: Vec<u64>)
        ensures
            r@ == self.spec_journal().spec_snapshots().map_values(|s: Snapshot| s.tick),
    {
        let snaps = self.journal.snapshots();
        let n = snaps.len();
        let mut out: Vec<u64> = Vec::new();
        let mut i: usize = 0;
        while i < n
            invariant
                n == snaps@.len(),
                snaps@ == self.journal.spec_snapshots(),
                i <= n,
                out@ == snaps@.subrange(0, i as int).map_values(|s: Snapshot| s.tick),
            decreases n - i,
        {
            out.push(snaps[i].tick);
            assert(out@ =~= snaps@.subrange(0, i + 1).map_values(|s: Snapshot| s.tick));
            i = i + 1;
        }
        assert(snaps@.subrange(0, n as int) =~= snaps@);
        out
    }
}

/// `m` is a fresh model.
pub open spec fn fresh_model(m: Model) -> bool {
    &&& m.entities@.len() == 0
    &&& m.globals@.len() == 0
    &&& m.time == crate::time::Clock::new_spec()
    &&& m.rng@ == 12345
    &&& m.actors@.len() == 0
}

/// The tick that going to `tick` replays from: that of the latest snapshot at or before
/// it, 0 when there is none.
pub open spec fn replay_start(j: &Journal, tick: u64) -> u64 {
    let snaps = j.spec_snapshots();
    if exists|i: int| latest_at_or_before(snaps, tick, i) {
        snaps[choose|i: int| latest_at_or_before(snaps, tick, i)].tick
    } else {
        0
    }
}

/// `m` is what processing messages left of the model `base`: the entities, globals and
/// generator of the run `st`, with the clock and actors of `base`.
pub open spec fn processed(m: Model, base: Model, st: Run) -> bool {
    &&& m.entities@ == st.entities
    &&& m.entities.spec_next_id() == st.next_id
    &&& m.globals@ == st.globals
    &&& m.rng == st.rng
    &&& m.time == base.time
    &&& m.actors == base.actors
}

/// Going to `tick` restored `m` from the latest snapshot at or before it, or a fresh model
/// if there is none, and queued after `q0` the recorded messages after that snapshot's tick
/// (after tick 0) up to `tick`, giving `q1`.
pub open spec fn restores(j: &Journal, tick: u64, m: Model, q0: Seq<MsgModel>, q1: Seq<MsgModel>) -> bool {
    let snaps = j.spec_snapshots();
    if forall|i: int| 0 <= i < snaps.len() ==> (#[trigger] snaps[i]).tick > tick {
        &&& fresh_model(m)
        &&& q1 == q0 + if tick > 0 {
            range_messages(j.spec_entries(), 0, tick)
        } else {
            Seq::empty()
        }
    } else {
        exists|i: int|
            #[trigger] latest_at_or_before(snaps, tick, i) && restored_from(m, snaps[i].model) && q1 == q0
                + if tick > snaps[i].tick {
                range_messages(j.spec_entries(), snaps[i].tick, tick)
            } else {
                Seq::empty()
            }
    }
}

/// Builds a replayer with a start tick, an end tick and a speed.
pub struct ReplaySessionBuilder<'a> {
    journal: &'a Journal,
    start_tick: Option<u64>,
    end_tick: Option<u64>,
    speed: ReplaySpeed,
}

impl<'a> ReplaySessionBuilder<'a> {
    /// The journal of the session.
    pub closed spec fn spec_journal(&self) -> &'a Journal {
        self.journal
    }

    /// The start tick, if set.
    pub closed spec fn spec_start(&self) -> Option<u64> {
        self.start_tick
    }

    /// The end tick, if set.
    pub closed spec fn spec_end(&self) -> Option<u64> {
        self.end_tick
    }

    /// The speed.
    pub closed spec fn spec_speed(&self) -> ReplaySpeed {
        self.speed
    }

    /// A builder with no start or end and stepping speed.
    pub fn new(journal: &'a Journal) -> (r: Self)
        ensures
            r.spec_journal() == journal,
            r.spec_start() is None,
            r.spec_end() is None,
            r.spec_speed() == ReplaySpeed::Step,
    {
        ReplaySessionBuilder { journal, start_tick: None, end_tick: None, speed: ReplaySpeed::default() }
    }

    /// Start at a tick.
    pub fn start_at(self, tick: u64) -> (r: Self)
        ensures
            r.spec_journal() == self.spec_journal(),
            r.spec_start() == Some(tick),
            r.spec_end() == self.spec_end(),
            r.spec_speed() == self.spec_speed(),
    {
        let mut b = self;
        b.start_tick = Some(tick);
        b
    }

    /// End at a tick.
    pub fn end_at(self, tick: u64) -> (r: Self)
        ensures
            r.spec_journal() == self.spec_journal(),
            r.spec_start() == self.spec_start(),
            r.spec_end() == Some(tick),
            r.spec_speed() == self.spec_speed(),
    {
        let mut b = self;
        b.end_tick = Some(tick);
        b
    }

    /// Replay at a speed.
    pub fn with_speed(self, speed: ReplaySpeed) -> (r: Self)
        ensures
            r.spec_journal() == self.spec_journal(),
            r.spec_start() == self.spec_start(),
            r.spec_end() == self.spec_end(),
            r.spec_speed() == speed,
    {
        let mut b = self;
        b.speed = speed;
        b
    }

    /// The replayer: idle, at the start tick (0 when unset), with the end as its target.
    pub fn build(self) -> (r: Replayer<'a>)
        ensures
            r.spec_journal() == self.spec_journal(),
            r.spec_state() == ReplayState::Idle,
            r.spec_speed() == self.spec_speed(),
            r.spec_tick() == match self.spec_start() {
                Some(t) => t,
                None => 0,
            },
            r.spec_target() == self.spec_end(),
    {
        let mut replayer = Replayer::new(self.journal);
        replayer.speed = self.speed;
        match self.start_tick {
            Some(t) => {
                replayer.current_tick = t;
            },
            None => {},
        }
        replayer.target_tick = self.end_tick;
        replayer
    }
}

} // verus!
