//! Input buffering for network synchronization: inputs sent but not yet confirmed.
use vstd::prelude::*;
use std::collections::VecDeque;
use crate::msg::Msg;

verus! {

/// Errors of the networking layer.
#[derive(Debug)]
pub enum NetcodeError {
    /// No stored state for a tick.
    StateNotFound(u64),
    /// Rollback target older than the oldest stored state.
    RollbackTooFar { target: u64, oldest: u64 },
    /// The input buffer is full.
    InputBufferFull,
    /// Prediction failed.
    PredictionFailed(String),
    /// Reconciliation failed.
    ReconciliationFailed(String),
    /// Transport failure.
    Transport(String),
    /// Encoding or decoding failure.
    Serialization(String),
}

/// An entry of the input buffer.
#[derive(Debug)]
pub struct InputEntry {
    /// The tick when this input was generated.
    pub tick: u64,
    /// The input message.
    pub msg: Msg,
    /// Whether the server acknowledged this input.
    pub acknowledged: bool,
}

impl InputEntry {
    /// A new, unacknowledged entry.
    pub fn new(tick: u64, msg: Msg) -> (r: Self)
        ensures
            r.tick == tick,
            r.msg == msg,
            !r.acknowledged,
    {
        InputEntry { tick, msg, acknowledged: false }
    }
}

/// Bounded buffer of pending inputs, oldest first; it never holds more than its capacity.
#[derive(Debug)]
pub struct InputBuffer {
    inputs: VecDeque<InputEntry>,
    capacity: usize,
    last_acknowledged_tick: u64,
}

impl InputBuffer {
    #[verifier::type_invariant]
    spec fn inv(self) -> bool {
        self.inputs@.len() <= self.capacity
    }

    /// The buffered entries, oldest first.
    pub closed spec fn entries(&self) -> Seq<InputEntry> {
        self.inputs@
    }

    /// The capacity.
    pub closed spec fn spec_capacity(&self) -> usize {
        self.capacity
    }

    /// The last acknowledged tick.
    pub closed spec fn spec_last_ack(&self) -> u64 {
        self.last_acknowledged_tick
    }

    /// The buffer never holds more entries than its capacity.
    pub fn within_capacity(&self)
        ensures
            self.entries().len() <= self.spec_capacity(),
    {
        proof {
            use_type_invariant(self);
        }
    }

    /// An empty buffer with the given capacity.
    pub fn new(capacity: usize) -> (r: Self)
        ensures
            r.entries().len() == 0,
            r.spec_capacity() == capacity,
            r.spec_last_ack() == 0,
    {
        InputBuffer { inputs: VecDeque::with_capacity(capacity), capacity, last_acknowledged_tick: 0 }
    }

    /// Add an input at the end; fails with `InputBufferFull` when the buffer is full.
    pub fn push(&mut self, tick: u64, msg: Msg) -> (r: Result<(), NetcodeError>)
        ensures
            old(self).entries().len() >= old(self).spec_capacity() ==> (r matches Err(
                NetcodeError::InputBufferFull,
            )) && final(self).entries() == old(self).entries(),
            old(self).entries().len() < old(self).spec_capacity() ==> r is Ok && final(self).entries()
                == old(self).entries().push(
                InputEntry { tick, msg, acknowledged: false },
            ),
            final(self).spec_capacity() == old(self).spec_capacity(),
            final(self).spec_last_ack() == old(self).spec_last_ack(),
    {
        proof {
            use_type_invariant(&*self);
        }
        if self.inputs.len() >= self.capacity {
            return Err(NetcodeError::InputBufferFull);
        }
        let e = InputEntry::new(tick, msg);
        let ghost ev = e;
        let mut inputs: VecDeque<InputEntry> = VecDeque::new();
        std::mem::swap(&mut inputs, &mut self.inputs);
        inputs.push_back(e);
        self.inputs = inputs;
        assert(self.entries() =~= old(self).entries().push(ev));
        Ok(())
    }

    /// Acknowledge all inputs up to and including `tick`: remember the tick and drop every
    /// entry whose tick is at most `tick`; the others keep their order.
    pub fn acknowledge(&mut self, tick: u64)
        ensures
            final(self).spec_last_ack() == tick,
            final(self).spec_capacity() == old(self).spec_capacity(),
            final(self).entries() == old(self).entries().filter(|e: InputEntry| e.tick > tick),
    {
        proof {
            use_type_invariant(&*self);
        }
        self.last_acknowledged_tick = tick;
        let mut inputs: VecDeque<InputEntry> = VecDeque::new();
        std::mem::swap(&mut inputs, &mut self.inputs);
        let ghost s0 = inputs@;
        let mut kept: VecDeque<InputEntry> = VecDeque::new();
        let n = inputs.len();
        let mut i: usize = 0;
        while i < n
            invariant
                n == s0.len(),
                i <= n,
                inputs@ == s0.skip(i as int),
                kept@ == s0.subrange(0, i as int).filter(|e: InputEntry| e.tick > tick),
            decreases n - i,
        {
            proof {
                let pre = s0.subrange(0, i as int);
                assert(s0.subrange(0, i + 1) =~= pre.push(s0[i as int]));
                assert(pre.push(s0[i as int]).drop_last() =~= pre);
                reveal_with_fuel(Seq::<InputEntry>::filter, 1);
                assert(inputs@[0] == s0[i as int]);
            }
            let e = inputs.pop_front().unwrap();
            if e.tick > tick {
                kept.push_back(e);
            }
            proof {
                assert(inputs@ =~= s0.skip(i + 1));
            }
            i = i + 1;
        }
        proof {
            assert(s0.subrange(0, n as int) =~= s0);
            s0.lemma_filter_len(|e: InputEntry| e.tick > tick);
        }
        self.inputs = kept;
    }

    /// The unacknowledged inputs, oldest first.
    pub fn unacknowledged(&self) -> (r: Vec<&InputEntry>)
        ensures
            r@.map_values(|e: &InputEntry| *e) == self.entries().filter(|e: InputEntry| !e.acknowledged),
    {
        let n = self.inputs.len();
        let mut out: Vec<&InputEntry> = Vec::new();
        let mut i: usize = 0;
        while i < n
            invariant
                n == self.entries().len(),
                i <= n,
                out@.map_values(|e: &InputEntry| *e) == self.entries().subrange(0, i as int).filter(
                    |e: InputEntry| !e.acknowledged,
                ),
            decreases n - i,
        {
            proof {
                let pre = self.entries().subrange(0, i as int);
                assert(self.entries().subrange(0, i + 1) =~= pre.push(self.entries()[i as int]));
                assert(pre.push(self.entries()[i as int]).drop_last() =~= pre);
                reveal_with_fuel(Seq::<InputEntry>::filter, 1);
            }
            let e = &self.inputs[i];
            if !e.acknowledged {
                let ghost before = out@;
                out.push(e);
                assert(out@.map_values(|e: &InputEntry| *e) =~= before.map_values(|e: &InputEntry| *e).push(*e));
            }
            i = i + 1;
        }
        assert(self.entries().subrange(0, n as int) =~= self.entries());
        out
    }

    /// The inputs after a tick (for replay during reconciliation), oldest first.
    pub fn inputs_after(&self, tick: u64) -> (r: Vec<&InputEntry>)
        ensures
            r@.map_values(|e: &InputEntry| *e) == self.entries().filter(|e: InputEntry| e.tick > tick),
    {
        let n = self.inputs.len();
        let mut out: Vec<&InputEntry> = Vec::new();
        let mut i: usize = 0;
        while i < n
            invariant
                n == self.entries().len(),
                i <= n,
                out@.map_values(|e: &InputEntry| *e) == self.entries().subrange(0, i as int).filter(
                    |e: InputEntry| e.tick > tick,
                ),
            decreases n - i,
        {
            proof {
                let pre = self.entries().subrange(0, i as int);
                assert(self.entries().subrange(0, i + 1) =~= pre.push(self.entries()[i as int]));
                assert(pre.push(self.entries()[i as int]).drop_last() =~= pre);
                reveal_with_fuel(Seq::<InputEntry>::filter, 1);
            }
            let e = &self.inputs[i];
            if e.tick > tick {
                let ghost before = out@;
                out.push(e);
                assert(out@.map_values(|e: &InputEntry| *e) =~= before.map_values(|e: &InputEntry| *e).push(*e));
            }
            i = i + 1;
        }
        assert(self.entries().subrange(0, n as int) =~= self.entries());
        out
    }

    /// The tick of the oldest buffered input.
    pub fn oldest_unacknowledged_tick(&self) -> (r: Option<u64>)
        ensures
            r == (if self.entries().len() == 0 {
                None
            } else {
                Some(self.entries()[0].tick)
            }),
    {
        if self.inputs.len() == 0 {
            None
        } else {
            Some(self.inputs[0].tick)
        }
    }

    /// The tick of the newest buffered input.
    pub fn newest_tick(&self) -> (r: Option<u64>)
        ensures
            r == (if self.entries().len() == 0 {
                None
            } else {
                Some(self.entries().last().tick)
            }),
    {
        let n = self.inputs.len();
        if n == 0 {
            None
        } else {
            Some(self.inputs[n - 1].tick)
        }
    }

    /// The last acknowledged tick.
    pub fn last_acknowledged_tick(&self) -> (r: u64)
        ensures
            r == self.spec_last_ack(),
    {
        self.last_acknowledged_tick
    }

    /// Number of buffered inputs.
    pub fn len(&self) -> (r: usize)
        ensures
            r == self.entries().len(),
    {
        self.inputs.len()
    }

    /// Whether the buffer is empty.
    pub fn is_empty(&self) -> (r: bool)
        ensures
            r == (self.entries().len() == 0),
    {
        self.inputs.len() == 0
    }

    /// Whether the buffer is full.
    pub fn is_full(&self) -> (r: bool)
        ensures
            r == (self.entries().len() >= self.spec_capacity()),
    {
        self.inputs.len() >= self.capacity
    }

    /// Remove all inputs.
    pub fn clear(&mut self)
        ensures
            final(self).entries().len() == 0,
            final(self).spec_capacity() == old(self).spec_capacity(),
            final(self).spec_last_ack() == old(self).spec_last_ack(),
    {
        let mut inputs: VecDeque<InputEntry> = VecDeque::new();
        std::mem::swap(&mut inputs, &mut self.inputs);
    }

    /// The capacity.
    pub fn capacity(&self) -> (r: usize)
        ensures
            r == self.spec_capacity(),
    {
        self.capacity
    }
}

/// In a buffer whose ticks strictly increase, the entries after a tick are a suffix: the
/// entries before it have ticks at most that tick, and the first one kept is later.
pub proof fn lemma_later_entries_are_suffix(s: Seq<InputEntry>, tick: u64) -> (k: int)
    requires
        forall|i: int, j: int| 0 <= i < j < s.len() ==> #[trigger] s[i].tick < #[trigger] s[j].tick,
    ensures
        0 <= k <= s.len(),
        s.filter(|e: InputEntry| e.tick > tick) == s.skip(k),
        forall|j: int| 0 <= j < k ==> #[trigger] s[j].tick <= tick,
        k < s.len() ==> s[k].tick > tick,
    decreases s.len(),
{
    reveal_with_fuel(Seq::<InputEntry>::filter, 1);
    if s.len() == 0 {
        assert(s.skip(0) =~= s);
        0
    } else {
        let p = s.drop_last();
        let k0 = lemma_later_entries_are_suffix(p, tick);
        let last = s.last();
        if last.tick > tick {
            assert(s.skip(k0) =~= p.skip(k0).push(last));
            assert forall|j: int| 0 <= j < k0 implies #[trigger] s[j].tick <= tick by {
                assert(s[j] == p[j]);
            }
            if k0 < p.len() {
                assert(s[k0] == p[k0]);
            }
            k0
        } else {
            if k0 < p.len() {
                assert(s[k0] == p[k0]);
                assert(s[k0].tick < s[s.len() - 1].tick);
            }
            assert(p.skip(k0) =~= Seq::<InputEntry>::empty());
            assert(s.skip(s.len() as int) =~= Seq::<InputEntry>::empty());
            assert forall|j: int| 0 <= j < s.len() implies #[trigger] s[j].tick <= tick by {
                if j < s.len() - 1 {
                    assert(s[j].tick < s[s.len() - 1].tick);
                }
            }
            s.len() as int
        }
    }
}

} // verus!
