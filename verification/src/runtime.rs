//! The reactive runtime's message queue, scheduled messages and handler registry.
//!
//! Handlers are kept ordered by descending priority, registration order breaking ties;
//! scheduled messages are kept ordered by their due tick, scheduling order breaking ties.
use vstd::prelude::*;
use crate::cmd::Cmd;
use crate::effect::{duplicate_effects, effects_copy, option_copy, Effect, EffectResult};
use crate::expr::Expr;
use crate::identity::DefId;
use crate::model::Model;
use crate::msg::{Msg, MsgKind};
use std::collections::VecDeque;

verus! {

/// A handler for events and commands.
#[derive(Debug)]
pub struct EventHandler {
    /// The event or action this handler responds to.
    pub event_id: DefId,
    /// Condition that must hold for the handler to run.
    pub condition: Option<Expr>,
    /// Effects to execute.
    pub effects: Vec<Effect>,
    /// Priority: higher runs first.
    pub priority: i32,
}

/// A handler that runs every tick.
#[derive(Debug)]
pub struct TickHandler {
    /// Handler ID.
    pub id: DefId,
    /// Condition that must hold for the handler to run.
    pub condition: Option<Expr>,
    /// Entity kind to run for; globally once when absent.
    pub target_kind: Option<DefId>,
    /// Effects to execute.
    pub effects: Vec<Effect>,
    /// Priority: higher runs first.
    pub priority: i32,
}

/// `b` is a copy of `a`: both absent, or both present with the same text.
pub open spec fn def_option_copy(a: Option<DefId>, b: Option<DefId>) -> bool {
    match a {
        None => b is None,
        Some(x) => b matches Some(y) && y@ == x@,
    }
}

/// `b` is a copy of event handler `a`: the same event and priority, copies of its
/// condition and effects.
pub open spec fn event_handler_copy(a: EventHandler, b: EventHandler) -> bool {
    &&& b.event_id@ == a.event_id@
    &&& option_copy(a.condition, b.condition)
    &&& effects_copy(a.effects@, b.effects@)
    &&& b.priority == a.priority
}

/// `b` is a copy of tick handler `a`: the same ID, target kind and priority, copies of its
/// condition and effects.
pub open spec fn tick_handler_copy(a: TickHandler, b: TickHandler) -> bool {
    &&& b.id@ == a.id@
    &&& option_copy(a.condition, b.condition)
    &&& def_option_copy(a.target_kind, b.target_kind)
    &&& effects_copy(a.effects@, b.effects@)
    &&& b.priority == a.priority
}

impl EventHandler {
    /// A copy of this handler.
    pub fn duplicate(&self) -> (r: EventHandler)
        ensures
            event_handler_copy(*self, r),
    {
        let condition = match &self.condition {
            Some(c) => Some(c.duplicate()),
            None => None,
        };
        EventHandler {
            event_id: self.event_id.duplicate(),
            condition,
            effects: duplicate_effects(&self.effects),
            priority: self.priority,
        }
    }
}

impl TickHandler {
    /// A copy of this handler.
    pub fn duplicate(&self) -> (r: TickHandler)
        ensures
            tick_handler_copy(*self, r),
    {
        let condition = match &self.condition {
            Some(c) => Some(c.duplicate()),
            None => None,
        };
        let target_kind = match &self.target_kind {
            Some(k) => Some(k.duplicate()),
            None => None,
        };
        TickHandler {
            id: self.id.duplicate(),
            condition,
            target_kind,
            effects: duplicate_effects(&self.effects),
            priority: self.priority,
        }
    }
}

/// The result of processing messages.
#[derive(Debug)]
pub struct UpdateResult {
    /// Commands for the host.
    pub cmd: Cmd,
    /// Messages emitted while processing.
    pub emitted_messages: Vec<Msg>,
    /// What the executed effects did.
    pub effect_result: EffectResult,
}

impl Default for UpdateResult {
    /// No command, no messages, an empty effect result.
    fn default() -> (r: Self)
        ensures
            r.cmd is Nothing,
            r.emitted_messages@.len() == 0,
    {
        UpdateResult::new()
    }
}

impl UpdateResult {
    /// No command, no messages, an empty effect result.
    pub fn new() -> (r: Self)
        ensures
            r.cmd is Nothing,
            r.emitted_messages@.len() == 0,
            r.effect_result.spawned@.len() == 0,
            r.effect_result.destroyed@.len() == 0,
            r.effect_result.emitted_events@.len() == 0,
            r.effect_result.scheduled_events@.len() == 0,
            r.effect_result.logs@.len() == 0,
            r.effect_result.notifications@.len() == 0,
    {
        UpdateResult { cmd: Cmd::Nothing, emitted_messages: Vec::new(), effect_result: EffectResult::new() }
    }

    /// A command, no messages, an empty effect result.
    pub fn with_cmd(cmd: Cmd) -> (r: Self)
        ensures
            r.cmd == cmd,
            r.emitted_messages@.len() == 0,
            r.effect_result.spawned@.len() == 0,
            r.effect_result.destroyed@.len() == 0,
            r.effect_result.emitted_events@.len() == 0,
            r.effect_result.scheduled_events@.len() == 0,
            r.effect_result.logs@.len() == 0,
            r.effect_result.notifications@.len() == 0,
    {
        UpdateResult { cmd, emitted_messages: Vec::new(), effect_result: EffectResult::new() }
    }
}

/// The priorities of `ps` do not increase.
pub open spec fn descending(ps: Seq<i32>) -> bool {
    forall|i: int, j: int| 0 <= i < j < ps.len() ==> #[trigger] ps[i] >= #[trigger] ps[j]
}

/// The ticks of `ts` do not decrease.
pub open spec fn ascending(ts: Seq<u64>) -> bool {
    forall|i: int, j: int| 0 <= i < j < ts.len() ==> #[trigger] ts[i] <= #[trigger] ts[j]
}

/// Where a new entry goes in an ordered list: after every entry that comes no later.
pub open spec fn insert_point<T>(s: Seq<T>, before: spec_fn(T) -> bool, pos: int) -> bool {
    &&& 0 <= pos <= s.len()
    &&& forall|i: int| 0 <= i < pos ==> before(#[trigger] s[i])
    &&& forall|i: int| pos <= i < s.len() ==> !before(#[trigger] s[i])
}

/// The priorities of event handlers.
pub open spec fn event_priorities(s: Seq<EventHandler>) -> Seq<i32> {
    s.map_values(|h: EventHandler| h.priority)
}

/// The priorities of tick handlers.
pub open spec fn tick_priorities(s: Seq<TickHandler>) -> Seq<i32> {
    s.map_values(|h: TickHandler| h.priority)
}

/// The due ticks of scheduled messages.
pub open spec fn due_ticks(s: Seq<(u64, Msg)>) -> Seq<u64> {
    s.map_values(|e: (u64, Msg)| e.0)
}

/// The reactive runtime's queues and handlers.
#[derive(Debug)]
pub struct Runtime {
    message_queue: VecDeque<Msg>,
    scheduled: Vec<(u64, Msg)>,
    event_handlers: Vec<EventHandler>,
    tick_handlers: Vec<TickHandler>,
}

impl Default for Runtime {
    /// An empty runtime.
    fn default() -> (r: Self)
        ensures
            r.spec_queue().len() == 0,
            r.spec_scheduled().len() == 0,
            r.spec_event_handlers().len() == 0,
            r.spec_tick_handlers().len() == 0,
    {
        Runtime::new()
    }
}

impl Runtime {
    #[verifier::type_invariant]
    spec fn inv(self) -> bool {
        &&& descending(event_priorities(self.event_handlers@))
        &&& descending(tick_priorities(self.tick_handlers@))
        &&& ascending(due_ticks(self.scheduled@))
    }

    /// Messages waiting to be processed, in order.
    pub closed spec fn spec_queue(&self) -> Seq<Msg> {
        self.message_queue@
    }

    /// Scheduled messages with their due ticks, in order.
    pub closed spec fn spec_scheduled(&self) -> Seq<(u64, Msg)> {
        self.scheduled@
    }

    /// Event handlers, in the order they run.
    pub closed spec fn spec_event_handlers(&self) -> Seq<EventHandler> {
        self.event_handlers@
    }

    /// Tick handlers, in the order they run.
    pub closed spec fn spec_tick_handlers(&self) -> Seq<TickHandler> {
        self.tick_handlers@
    }

    /// The orders that the runtime keeps.
    pub fn orders_hold(&self)
        ensures
            descending(event_priorities(self.spec_event_handlers())),
            descending(tick_priorities(self.spec_tick_handlers())),
            ascending(due_ticks(self.spec_scheduled())),
    {
        proof {
            use_type_invariant(self);
        }
    }

    /// An empty runtime.
    pub fn new() -> (r: Self)
        ensures
            r.spec_queue().len() == 0,
            r.spec_scheduled().len() == 0,
            r.spec_event_handlers().len() == 0,
            r.spec_tick_handlers().len() == 0,
    {
        let r = Runtime {
            message_queue: VecDeque::new(),
            scheduled: Vec::new(),
            event_handlers: Vec::new(),
            tick_handlers: Vec::new(),
        };
        assert(event_priorities(r.event_handlers@) =~= Seq::<i32>::empty());
        assert(tick_priorities(r.tick_handlers@) =~= Seq::<i32>::empty());
        assert(due_ticks(r.scheduled@) =~= Seq::<u64>::empty());
        r
    }

    /// Register an event handler: it runs after the handlers of higher or equal priority
    /// and before those of lower priority.
    pub fn on_event(&mut self, handler: EventHandler)
        ensures
            exists|pos: int|
                insert_point(
                    old(self).spec_event_handlers(),
                    |h: EventHandler| h.priority >= handler.priority,
                    pos,
                ) && final(self).spec_event_handlers() == #[trigger] old(self).spec_event_handlers().insert(pos, handler),
            final(self).spec_tick_handlers() == old(self).spec_tick_handlers(),
            final(self).spec_queue() == old(self).spec_queue(),
            final(self).spec_scheduled() == old(self).spec_scheduled(),
    {
        proof {
            use_type_invariant(&*self);
        }
        let ghost old_s = self.event_handlers@;
        let n = self.event_handlers.len();
        let mut pos: usize = 0;
        while pos < n && self.event_handlers[pos].priority >= handler.priority
            invariant
                n == self.event_handlers@.len(),
                self.event_handlers@ == old_s,
                pos <= n,
                forall|i: int| 0 <= i < pos ==> (#[trigger] old_s[i]).priority >= handler.priority,
            decreases n - pos,
        {
            pos = pos + 1;
        }
        proof {
            let ps = event_priorities(old_s);
            assert forall|i: int| pos <= i < n implies (#[trigger] old_s[i]).priority < handler.priority by {
                if pos < n {
                    assert(ps[pos as int] >= ps[i] || pos == i);
                }
            }
        }
        let ghost new_s = old_s.insert(pos as int, handler);
        let mut hs: Vec<EventHandler> = Vec::new();
        std::mem::swap(&mut hs, &mut self.event_handlers);
        hs.insert(pos, handler);
        proof {
            let ps = event_priorities(hs@);
            assert forall|i: int, j: int| 0 <= i < j < ps.len() implies #[trigger] ps[i] >= #[trigger] ps[j] by {
                let op = event_priorities(old_s);
                if j < pos {
                    assert(ps[i] == op[i] && ps[j] == op[j]);
                } else if j == pos {
                    assert(ps[i] == op[i]);
                } else if i < pos {
                    assert(ps[i] == op[i] && ps[j] == op[j - 1]);
                } else if i == pos {
                    assert(ps[j] == op[j - 1]);
                } else {
                    assert(ps[i] == op[i - 1] && ps[j] == op[j - 1]);
                }
            }
        }
        self.event_handlers = hs;
        proof {
            assert(insert_point(old_s, |h: EventHandler| h.priority >= handler.priority, pos as int));
            assert(self.spec_event_handlers() == old(self).spec_event_handlers().insert(pos as int, handler));
        }
    }

    /// Register a tick handler: it runs after the handlers of higher or equal priority and
    /// before those of lower priority.
    pub fn on_tick(&mut self, handler: TickHandler)
        ensures
            exists|pos: int|
                insert_point(
                    old(self).spec_tick_handlers(),
                    |h: TickHandler| h.priority >= handler.priority,
                    pos,
                ) && final(self).spec_tick_handlers() == #[trigger] old(self).spec_tick_handlers().insert(pos, handler),
            final(self).spec_event_handlers() == old(self).spec_event_handlers(),
            final(self).spec_queue() == old(self).spec_queue(),
            final(self).spec_scheduled() == old(self).spec_scheduled(),
    {
        proof {
            use_type_invariant(&*self);
        }
        let ghost old_s = self.tick_handlers@;
        let n = self.tick_handlers.len();
        let mut pos: usize = 0;
        while pos < n && self.tick_handlers[pos].priority >= handler.priority
            invariant
                n == self.tick_handlers@.len(),
                self.tick_handlers@ == old_s,
                pos <= n,
                forall|i: int| 0 <= i < pos ==> (#[trigger] old_s[i]).priority >= handler.priority,
            decreases n - pos,
        {
            pos = pos + 1;
        }
        proof {
            let ps = tick_priorities(old_s);
            assert forall|i: int| pos <= i < n implies (#[trigger] old_s[i]).priority < handler.priority by {
                if pos < n {
                    assert(ps[pos as int] >= ps[i] || pos == i);
                }
            }
        }
        let mut hs: Vec<TickHandler> = Vec::new();
        std::mem::swap(&mut hs, &mut self.tick_handlers);
        hs.insert(pos, handler);
        proof {
            let ps = tick_priorities(hs@);
            assert forall|i: int, j: int| 0 <= i < j < ps.len() implies #[trigger] ps[i] >= #[trigger] ps[j] by {
                let op = tick_priorities(old_s);
                if j < pos {
                    assert(ps[i] == op[i] && ps[j] == op[j]);
                } else if j == pos {
                    assert(ps[i] == op[i]);
                } else if i < pos {
                    assert(ps[i] == op[i] && ps[j] == op[j - 1]);
                } else if i == pos {
                    assert(ps[j] == op[j - 1]);
                } else {
                    assert(ps[i] == op[i - 1] && ps[j] == op[j - 1]);
                }
            }
        }
        self.tick_handlers = hs;
        proof {
            assert(insert_point(old_s, |h: TickHandler| h.priority >= handler.priority, pos as int));
            assert(self.spec_tick_handlers() == old(self).spec_tick_handlers().insert(pos as int, handler));
        }
    }

    /// Queue a message for processing.
    pub fn send(&mut self, msg: Msg)
        ensures
            final(self).spec_queue() == old(self).spec_queue().push(msg),
            final(self).spec_scheduled() == old(self).spec_scheduled(),
            final(self).spec_event_handlers() == old(self).spec_event_handlers(),
            final(self).spec_tick_handlers() == old(self).spec_tick_handlers(),
    {
        proof {
            use_type_invariant(&*self);
        }
        let mut q: VecDeque<Msg> = VecDeque::new();
        std::mem::swap(&mut q, &mut self.message_queue);
        q.push_back(msg);
        self.message_queue = q;
    }

    /// Schedule a message `delay_ticks` after `current_tick`: it is due after the messages
    /// due no later and before those due later.
    pub fn schedule(&mut self, msg: Msg, delay_ticks: u64, current_tick: u64)
        requires
            current_tick + delay_ticks <= u64::MAX,
        ensures
            exists|pos: int|
                insert_point(
                    old(self).spec_scheduled(),
                    |e: (u64, Msg)| e.0 <= current_tick + delay_ticks,
                    pos,
                ) && final(self).spec_scheduled() == #[trigger] old(self).spec_scheduled().insert(
                    pos,
                    ((current_tick + delay_ticks) as u64, msg),
                ),
            final(self).spec_queue() == old(self).spec_queue(),
            final(self).spec_event_handlers() == old(self).spec_event_handlers(),
            final(self).spec_tick_handlers() == old(self).spec_tick_handlers(),
    {
        proof {
            use_type_invariant(&*self);
        }
        let target_tick = current_tick + delay_ticks;
        let ghost old_s = self.scheduled@;
        let n = self.scheduled.len();
        let mut pos: usize = 0;
        while pos < n && self.scheduled[pos].0 <= target_tick
            invariant
                n == self.scheduled@.len(),
                self.scheduled@ == old_s,
                pos <= n,
                forall|i: int| 0 <= i < pos ==> (#[trigger] old_s[i]).0 <= target_tick,
            decreases n - pos,
        {
            pos = pos + 1;
        }
        proof {
            let ts = due_ticks(old_s);
            assert forall|i: int| pos <= i < n implies (#[trigger] old_s[i]).0 > target_tick by {
                if pos < n {
                    assert(ts[pos as int] <= ts[i] || pos == i);
                }
            }
        }
        let mut s: Vec<(u64, Msg)> = Vec::new();
        std::mem::swap(&mut s, &mut self.scheduled);
        s.insert(pos, (target_tick, msg));
        proof {
            let ts = due_ticks(s@);
            assert forall|i: int, j: int| 0 <= i < j < ts.len() implies #[trigger] ts[i] <= #[trigger] ts[j] by {
                let ot = due_ticks(old_s);
                if j < pos {
                    assert(ts[i] == ot[i] && ts[j] == ot[j]);
                } else if j == pos {
                    assert(ts[i] == ot[i]);
                } else if i < pos {
                    assert(ts[i] == ot[i] && ts[j] == ot[j - 1]);
                } else if i == pos {
                    assert(ts[j] == ot[j - 1]);
                } else {
                    assert(ts[i] == ot[i - 1] && ts[j] == ot[j - 1]);
                }
            }
        }
        self.scheduled = s;
        proof {
            assert(insert_point(old_s, |e: (u64, Msg)| e.0 <= target_tick, pos as int));
            assert(self.spec_scheduled() == old(self).spec_scheduled().insert(pos as int, (target_tick, msg)));
        }
    }

    /// Move the scheduled messages due at or before `current_tick` to the end of the queue,
    /// in order; the later ones stay scheduled.
    pub fn release_due(&mut self, current_tick: u64)
        ensures
            exists|k: int|
                0 <= k <= old(self).spec_scheduled().len() && (forall|i: int|
                    0 <= i < k ==> (#[trigger] old(self).spec_scheduled()[i]).0 <= current_tick) && (
                forall|i: int|
                    k <= i < old(self).spec_scheduled().len() ==> (#[trigger] old(self).spec_scheduled()[i]).0 > current_tick) && final(self).spec_scheduled()
                    == #[trigger] old(self).spec_scheduled().subrange(k, old(self).spec_scheduled().len() as int)
                    && final(self).spec_queue() == old(self).spec_queue() + old(self).spec_scheduled().subrange(0, k).map_values(|e: (u64, Msg)| e.1),
            final(self).spec_event_handlers() == old(self).spec_event_handlers(),
            final(self).spec_tick_handlers() == old(self).spec_tick_handlers(),
    {
        proof {
            use_type_invariant(&*self);
        }
        let ghost old_s = self.scheduled@;
        let ghost old_q = self.message_queue@;
        let mut s: Vec<(u64, Msg)> = Vec::new();
        std::mem::swap(&mut s, &mut self.scheduled);
        let mut q: VecDeque<Msg> = VecDeque::new();
        std::mem::swap(&mut q, &mut self.message_queue);
        let mut k: usize = 0;
        let n = s.len();
        // move the due prefix: reverse the list, then pop from its end
        let mut rev: Vec<(u64, Msg)> = Vec::new();
        while s.len() > 0
            invariant
                n == old_s.len(),
                s@.len() + rev@.len() == n,
                s@ == old_s.subrange(0, s@.len() as int),
                forall|j: int| 0 <= j < rev@.len() ==> #[trigger] rev@[j] == old_s[n - 1 - j],
            decreases s@.len(),
        {
            let e = s.pop().unwrap();
            rev.push(e);
            assert(s@ =~= old_s.subrange(0, s@.len() as int));
        }
        while rev.len() > 0 && rev[rev.len() - 1].0 <= current_tick
            invariant
                n == old_s.len(),
                rev@.len() + k == n,
                forall|j: int| 0 <= j < rev@.len() ==> #[trigger] rev@[j] == old_s[n - 1 - j],
                forall|i: int| 0 <= i < k ==> (#[trigger] old_s[i]).0 <= current_tick,
                q@ == old_q + old_s.subrange(0, k as int).map_values(|e: (u64, Msg)| e.1),
            decreases rev@.len(),
        {
            let e = rev.pop().unwrap();
            assert(e == old_s[k as int]);
            q.push_back(e.1);
            assert(old_s.subrange(0, k + 1).map_values(|e: (u64, Msg)| e.1) =~= old_s.subrange(
                0,
                k as int,
            ).map_values(|e: (u64, Msg)| e.1).push(old_s[k as int].1));
            k = k + 1;
        }
        proof {
            let ts = due_ticks(old_s);
            assert forall|i: int| k <= i < n implies (#[trigger] old_s[i]).0 > current_tick by {
                assert(rev@[rev@.len() - 1] == old_s[k as int]);
                assert(ts[k as int] <= ts[i] || k == i);
            }
        }
        // put the rest back in order
        let mut rest: Vec<(u64, Msg)> = Vec::new();
        while rev.len() > 0
            invariant
                n == old_s.len(),
                rev@.len() + k + rest@.len() == n,
                forall|j: int| 0 <= j < rev@.len() ==> #[trigger] rev@[j] == old_s[n - 1 - j],
                rest@ == old_s.subrange(k as int, (k + rest@.len()) as int),
            decreases rev@.len(),
        {
            let e = rev.pop().unwrap();
            rest.push(e);
            assert(rest@ =~= old_s.subrange(k as int, (k + rest@.len()) as int));
        }
        proof {
            let ts = due_ticks(rest@);
            let ot = due_ticks(old_s);
            assert forall|i: int, j: int| 0 <= i < j < ts.len() implies #[trigger] ts[i] <= #[trigger] ts[j] by {
                assert(ts[i] == ot[k + i] && ts[j] == ot[k + j]);
            }
        }
        self.scheduled = rest;
        self.message_queue = q;
        proof {
            assert(rest@ =~= old_s.subrange(k as int, n as int));
            assert(self.spec_scheduled() == old(self).spec_scheduled().subrange(k as int, n as int));
        }
    }

    /// Take the next message to process.
    pub fn next_message(&mut self) -> (r: Option<Msg>)
        ensures
            old(self).spec_queue().len() == 0 ==> r is None && final(self).spec_queue() == old(self).spec_queue(),
            old(self).spec_queue().len() > 0 ==> r == Some(old(self).spec_queue()[0]) && final(self).spec_queue() == old(self).spec_queue().drop_first(),
            final(self).spec_scheduled() == old(self).spec_scheduled(),
            final(self).spec_event_handlers() == old(self).spec_event_handlers(),
            final(self).spec_tick_handlers() == old(self).spec_tick_handlers(),
    {
        proof {
            use_type_invariant(&*self);
        }
        let mut q: VecDeque<Msg> = VecDeque::new();
        std::mem::swap(&mut q, &mut self.message_queue);
        let r = q.pop_front();
        proof {
            if r is Some {
                assert(q@ =~= old(self).spec_queue().drop_first());
            }
        }
        self.message_queue = q;
        r
    }

    /// Number of queued messages.
    pub fn queued(&self) -> (r: usize)
        ensures
            r == self.spec_queue().len(),
    {
        self.message_queue.len()
    }

    /// Number of scheduled messages.
    pub fn scheduled_count(&self) -> (r: usize)
        ensures
            r == self.spec_scheduled().len(),
    {
        self.scheduled.len()
    }

    /// The tick handlers, in the order they run.
    pub fn tick_handlers(&self) -> (r: &[TickHandler])
        ensures
            r@ == self.spec_tick_handlers(),
    {
        self.tick_handlers.as_slice()
    }

    /// The event handlers for an event or action, in the order they run.
    pub fn handlers_for(&self, event_id: &DefId) -> (r: Vec<&EventHandler>)
        ensures
            r@.map_values(|h: &EventHandler| *h) == self.spec_event_handlers().filter(
                |h: EventHandler| h.event_id@ == event_id@,
            ),
    {
        let ghost hs = self.event_handlers@;
        let ghost pred = |h: EventHandler| h.event_id@ == event_id@;
        let n = self.event_handlers.len();
        let mut out: Vec<&EventHandler> = Vec::new();
        let mut i: usize = 0;
        while i < n
            invariant
                n == hs.len(),
                hs == self.event_handlers@,
                pred == (|h: EventHandler| h.event_id@ == event_id@),
                i <= n,
                out@.map_values(|h: &EventHandler| *h) == hs.subrange(0, i as int).filter(pred),
            decreases n - i,
        {
            let h = &self.event_handlers[i];
            proof {
                reveal_with_fuel(Seq::<EventHandler>::filter, 1);
                assert(hs.subrange(0, i + 1).drop_last() =~= hs.subrange(0, i as int));
            }
            let ghost before = out@;
            if h.event_id.same_as(event_id) {
                out.push(h);
                assert(out@.map_values(|h: &EventHandler| *h) =~= before.map_values(|h: &EventHandler| *h).push(*h));
            }
            i = i + 1;
        }
        assert(hs.subrange(0, n as int) =~= hs);
        out
    }

    /// Start a tick: advance the model's tick, release the scheduled messages due by then
    /// and queue a tick message; returns the new tick.
    pub fn begin_tick(&mut self, model: &mut Model) -> (r: u64)
        requires
            old(model).time.tick < u64::MAX,
        ensures
            r == old(model).time.tick + 1,
            final(model).time.tick == r,
            final(model).entities == old(model).entities,
            final(model).globals == old(model).globals,
            final(model).rng == old(model).rng,
            final(model).actors == old(model).actors,
            exists|k: int|
                0 <= k <= old(self).spec_scheduled().len() && (forall|i: int|
                    0 <= i < k ==> (#[trigger] old(self).spec_scheduled()[i]).0 <= r) && (forall|i: int|
                    k <= i < old(self).spec_scheduled().len() ==> (#[trigger] old(self).spec_scheduled()[i]).0 > r) && final(self).spec_scheduled() == #[trigger] old(self).spec_scheduled().subrange(k, old(self).spec_scheduled().len() as int) && final(self).spec_queue().drop_last() == old(self).spec_queue() + old(self).spec_scheduled().subrange(0, k).map_values(|e: (u64, Msg)| e.1),
            final(self).spec_queue().len() > 0,
            final(self).spec_queue().last().kind == MsgKind::Tick,
            final(self).spec_queue().last().tick == r,
            final(self).spec_event_handlers() == old(self).spec_event_handlers(),
            final(self).spec_tick_handlers() == old(self).spec_tick_handlers(),
    {
        model.advance_tick();
        let t = model.current_tick();
        self.release_due(t);
        let ghost mid = self.spec_queue();
        self.send(Msg::tick(t));
        assert(self.spec_queue().drop_last() =~= mid);
        t
    }
}

} // verus!
