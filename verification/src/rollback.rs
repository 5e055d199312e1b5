//! A fixed-capacity history of model states for rollback, indexed by tick.
//!
//! The state of tick `t` lives in slot `t % capacity`, so a tick occupies at most one slot
//! and a newer tick in the same slot replaces the older one.
use vstd::prelude::*;
use crate::model::{restored_from, Model};

verus! {

/// Slot of a tick.
pub open spec fn slot_of(tick: u64, capacity: usize) -> int {
    (tick as usize) as int % (capacity as int)
}

/// Number of occupied slots.
pub open spec fn occupied(s: Seq<Option<(u64, Model)>>) -> nat
    decreases s.len(),
{
    if s.len() == 0 {
        0
    } else {
        occupied(s.drop_last()) + if s.last() is Some {
            1nat
        } else {
            0nat
        }
    }
}

/// Slot `i` holds tick `t`.
pub open spec fn holds(s: Seq<Option<(u64, Model)>>, i: int, t: u64) -> bool {
    0 <= i < s.len() && s[i] is Some && s[i].unwrap().0 == t
}

/// Some slot holds tick `t`.
pub open spec fn stored(s: Seq<Option<(u64, Model)>>, t: u64) -> bool {
    exists|i: int| #[trigger] holds(s, i, t)
}

/// Some slot before `i` holds tick `t`.
pub open spec fn held_before(s: Seq<Option<(u64, Model)>>, i: int, t: u64) -> bool {
    exists|j: int| 0 <= j < i && #[trigger] holds(s, j, t)
}

/// Some listed state has tick `t`.
pub open spec fn listed(out: Seq<(u64, &Model)>, t: u64) -> bool {
    exists|a: int| 0 <= a < out.len() && (#[trigger] out[a]).0 == t
}

/// Statistics of a rollback buffer.
#[derive(Debug, Clone, Copy)]
pub struct BufferStats {
    /// Number of slots.
    pub capacity: usize,
    /// Number of stored states.
    pub count: usize,
    /// Oldest stored tick (0 when empty).
    pub oldest_tick: u64,
    /// Newest stored tick (0 when empty).
    pub newest_tick: u64,
}

impl BufferStats {
    /// Ticks between the oldest and the newest stored state; 0 when empty.
    pub fn tick_range(&self) -> (r: u64)
        requires
            self.count > 0 ==> self.oldest_tick <= self.newest_tick,
        ensures
            r == if self.count == 0 {
                0
            } else {
                (self.newest_tick - self.oldest_tick) as u64
            },
    {
        if self.count == 0 {
            0
        } else {
            self.newest_tick - self.oldest_tick
        }
    }
}

/// A ring of model states indexed by tick.
#[derive(Debug)]
pub struct RollbackBuffer {
    states: Vec<Option<(u64, Model)>>,
    head: usize,
    count: usize,
    capacity: usize,
}

impl Default for RollbackBuffer {
    /// A buffer with 128 slots.
    fn default() -> (r: Self)
        ensures
            r.spec_capacity() == 128,
            r.spec_slots().len() == 128,
            forall|i: int| 0 <= i < 128 ==> (#[trigger] r.spec_slots()[i]) is None,
    {
        Self::new(128)
    }
}

impl RollbackBuffer {
    #[verifier::type_invariant]
    spec fn inv(self) -> bool {
        &&& self.capacity > 0
        &&& self.states@.len() == self.capacity
        &&& self.count == occupied(self.states@)
        &&& self.head < self.capacity
        &&& forall|i: int|
            0 <= i < self.states@.len() && (#[trigger] self.states@[i]) is Some ==> slot_of(
                self.states@[i].unwrap().0,
                self.capacity,
            ) == i
    }

    /// The slots.
    pub closed spec fn spec_slots(&self) -> Seq<Option<(u64, Model)>> {
        self.states@
    }

    /// The number of slots.
    pub closed spec fn spec_capacity(&self) -> usize {
        self.capacity
    }

    /// The slot after the last one written.
    pub closed spec fn spec_head(&self) -> usize {
        self.head
    }

    /// The buffer's shape: as many slots as its capacity, each tick in its own slot.
    pub fn shape(&self)
        ensures
            self.spec_capacity() > 0,
            self.spec_slots().len() == self.spec_capacity(),
            forall|i: int|
                0 <= i < self.spec_slots().len() && (#[trigger] self.spec_slots()[i]) is Some ==> slot_of(
                    self.spec_slots()[i].unwrap().0,
                    self.spec_capacity(),
                ) == i,
    {
        proof {
            use_type_invariant(self);
        }
    }

    /// An empty buffer with `capacity` slots (at least one).
    pub fn new(capacity: usize) -> (r: Self)
        requires
            capacity > 0,
        ensures
            r.spec_capacity() == capacity,
            r.spec_slots().len() == capacity,
            forall|i: int| 0 <= i < capacity ==> (#[trigger] r.spec_slots()[i]) is None,
            r.spec_head() == 0,
    {
        let mut states: Vec<Option<(u64, Model)>> = Vec::new();
        let mut i: usize = 0;
        while i < capacity
            invariant
                i <= capacity,
                states@.len() == i,
                forall|j: int| 0 <= j < i ==> (#[trigger] states@[j]) is None,
                occupied(states@) == 0,
            decreases capacity - i,
        {
            let ghost before = states@;
            states.push(None);
            assert(states@.drop_last() =~= before);
            i = i + 1;
        }
        RollbackBuffer { states, head: 0, count: 0, capacity }
    }

    /// The slot of a tick.
    fn tick_to_index(&self, tick: u64) -> (r: usize)
        ensures
            r == slot_of(tick, self.spec_capacity()),
            r < self.spec_capacity(),
    {
        proof {
            use_type_invariant(self);
        }
        (tick as usize) % self.capacity
    }

    /// Save a copy of a model as the state of a tick, in the tick's slot, replacing what
    /// was there.
    pub fn save_state(&mut self, tick: u64, model: &Model)
        ensures
            final(self).spec_capacity() == old(self).spec_capacity(),
            final(self).spec_slots().len() == old(self).spec_slots().len(),
            ({
                let i = slot_of(tick, old(self).spec_capacity());
                &&& final(self).spec_slots()[i] is Some
                &&& final(self).spec_slots()[i].unwrap().0 == tick
                &&& restored_from(final(self).spec_slots()[i].unwrap().1, *model)
                &&& forall|j: int|
                    0 <= j < old(self).spec_slots().len() && j != i ==> #[trigger] final(self).spec_slots()[j]
                        == old(self).spec_slots()[j]
                &&& final(self).spec_head() == (i + 1) % (old(self).spec_capacity() as int)
            }),
    {
        proof {
            use_type_invariant(&*self);
        }
        let index = self.tick_to_index(tick);
        let copy = model.duplicate();
        let mut tmp = Self::new(1);
        std::mem::swap(self, &mut tmp);
        proof {
            use_type_invariant(&tmp);
        }
        let RollbackBuffer { states, head: _, count, capacity } = tmp;
        let mut states = states;
        let was_empty = states[index].is_none();
        let ghost old_s = states@;
        states.set(index, Some((tick, copy)));
        proof {
            lemma_occupied_update(old_s, index as int, Some((tick, copy)));
            lemma_occupied_bound(old_s);
            lemma_occupied_bound(states@);
        }
        let mut count = count;
        if was_empty && count < capacity {
            count = count + 1;
        }
        proof {
            assert forall|i: int| 0 <= i < states@.len() && (#[trigger] states@[i]) is Some implies slot_of(
                states@[i].unwrap().0,
                capacity,
            ) == i by {
                if i != index {
                    assert(states@[i] == old_s[i]);
                }
            }
        }
        *self = RollbackBuffer { states, head: (index + 1) % capacity, count, capacity };
    }

    /// The state saved for a tick, if its slot still holds it.
    pub fn get_state(&self, tick: u64) -> (r: Option<&Model>)
        ensures
            ({
                let i = slot_of(tick, self.spec_capacity());
                &&& r is Some <==> holds(self.spec_slots(), i, tick)
                &&& r is Some ==> *r.unwrap() == self.spec_slots()[i].unwrap().1
            }),
            r is Some <==> stored(self.spec_slots(), tick),
    {
        proof {
            use_type_invariant(self);
        }
        let index = self.tick_to_index(tick);
        let r = match &self.states[index] {
            Some(p) => {
                if p.0 == tick {
                    Some(&p.1)
                } else {
                    None
                }
            },
            None => None,
        };
        proof {
            if stored(self.states@, tick) {
                let j = choose|j: int| #[trigger] holds(self.states@, j, tick);
                assert(slot_of(tick, self.capacity) == j);
            }
            if r is Some {
                assert(holds(self.states@, index as int, tick));
            }
        }
        r
    }

    /// The latest stored state at or before a tick, with its tick.
    pub fn get_nearest_before(&self, tick: u64) -> (r: Option<(u64, &Model)>)
        ensures
            r is None <==> forall|t: u64| stored(self.spec_slots(), t) ==> t > tick,
            r matches Some(p) ==> p.0 <= tick && stored(self.spec_slots(), p.0) && (forall|t: u64|
                stored(self.spec_slots(), t) && t <= tick ==> t <= p.0) && *p.1
                == self.spec_slots()[slot_of(p.0, self.spec_capacity())].unwrap().1,
    {
        proof {
            use_type_invariant(self);
        }
        let n = self.states.len();
        let mut best: Option<usize> = None;
        let mut i: usize = 0;
        while i < n
            invariant
                n == self.states@.len(),
                n == self.capacity,
                self.capacity > 0,
                forall|j: int|
                    0 <= j < self.states@.len() && (#[trigger] self.states@[j]) is Some ==> slot_of(
                        self.states@[j].unwrap().0,
                        self.capacity,
                    ) == j,
                i <= n,
                best is None ==> forall|j: int| 0 <= j < i && self.states@[j] is Some ==> (#[trigger] self.states@[j]).unwrap().0 > tick,
                best matches Some(b) ==> b < i && self.states@[b as int] is Some && self.states@[b as int].unwrap().0 <= tick
                    && forall|j: int| 0 <= j < i && self.states@[j] is Some && (#[trigger] self.states@[j]).unwrap().0 <= tick
                        ==> self.states@[j].unwrap().0 <= self.states@[b as int].unwrap().0,
            decreases n - i,
        {
            match &self.states[i] {
                Some(p) => {
                    if p.0 <= tick {
                        match best {
                            None => {
                                best = Some(i);
                            },
                            Some(b) => {
                                let bt = match &self.states[b] {
                                    Some(q) => q.0,
                                    None => 0,
                                };
                                if p.0 >= bt {
                                    best = Some(i);
                                }
                            },
                        }
                    }
                },
                None => {},
            }
            i = i + 1;
        }
        match best {
            None => {
                proof {
                    assert forall|t: u64| stored(self.states@, t) implies t > tick by {
                        let j = choose|j: int| #[trigger] holds(self.states@, j, t);
                        assert(self.states@[j] is Some);
                    }
                }
                None
            },
            Some(b) => {
                match &self.states[b] {
                    Some(p) => {
                        proof {
                            assert(holds(self.states@, b as int, p.0));
                            assert(stored(self.states@, p.0));
                            assert(slot_of(p.0, self.capacity) == b);
                            assert forall|t: u64| stored(self.states@, t) && t <= tick implies t <= p.0 by {
                                let j = choose|j: int| #[trigger] holds(self.states@, j, t);
                                assert(self.states@[j] is Some);
                            }
                        }
                        Some((p.0, &p.1))
                    },
                    None => None,
                }
            },
        }
    }

    /// The earliest stored state at or after a tick, with its tick.
    pub fn get_nearest_after(&self, tick: u64) -> (r: Option<(u64, &Model)>)
        ensures
            r is None <==> forall|t: u64| stored(self.spec_slots(), t) ==> t < tick,
            r matches Some(p) ==> p.0 >= tick && stored(self.spec_slots(), p.0) && (forall|t: u64|
                stored(self.spec_slots(), t) && t >= tick ==> t >= p.0) && *p.1
                == self.spec_slots()[slot_of(p.0, self.spec_capacity())].unwrap().1,
    {
        proof {
            use_type_invariant(self);
        }
        let n = self.states.len();
        let mut best: Option<usize> = None;
        let mut i: usize = 0;
        while i < n
            invariant
                n == self.states@.len(),
                n == self.capacity,
                self.capacity > 0,
                forall|j: int|
                    0 <= j < self.states@.len() && (#[trigger] self.states@[j]) is Some ==> slot_of(
                        self.states@[j].unwrap().0,
                        self.capacity,
                    ) == j,
                i <= n,
                best is None ==> forall|j: int| 0 <= j < i && self.states@[j] is Some ==> (#[trigger] self.states@[j]).unwrap().0 < tick,
                best matches Some(b) ==> b < i && self.states@[b as int] is Some && self.states@[b as int].unwrap().0 >= tick
                    && forall|j: int| 0 <= j < i && self.states@[j] is Some && (#[trigger] self.states@[j]).unwrap().0 >= tick
                        ==> self.states@[j].unwrap().0 >= self.states@[b as int].unwrap().0,
            decreases n - i,
        {
            match &self.states[i] {
                Some(p) => {
                    if p.0 >= tick {
                        match best {
                            None => {
                                best = Some(i);
                            },
                            Some(b) => {
                                let bt = match &self.states[b] {
                                    Some(q) => q.0,
                                    None => 0,
                                };
                                if p.0 < bt {
                                    best = Some(i);
                                }
                            },
                        }
                    }
                },
                None => {},
            }
            i = i + 1;
        }
        match best {
            None => {
                proof {
                    assert forall|t: u64| stored(self.states@, t) implies t < tick by {
                        let j = choose|j: int| #[trigger] holds(self.states@, j, t);
                        assert(self.states@[j] is Some);
                    }
                }
                None
            },
            Some(b) => {
                match &self.states[b] {
                    Some(p) => {
                        proof {
                            assert(holds(self.states@, b as int, p.0));
                            assert(stored(self.states@, p.0));
                            assert(slot_of(p.0, self.capacity) == b);
                            assert forall|t: u64| stored(self.states@, t) && t >= tick implies t >= p.0 by {
                                let j = choose|j: int| #[trigger] holds(self.states@, j, t);
                                assert(self.states@[j] is Some);
                            }
                        }
                        Some((p.0, &p.1))
                    },
                    None => None,
                }
            },
        }
    }

    /// Drop every stored state older than a tick.
    pub fn clear_before(&mut self, tick: u64)
        ensures
            final(self).spec_capacity() == old(self).spec_capacity(),
            final(self).spec_head() == old(self).spec_head(),
            final(self).spec_slots().len() == old(self).spec_slots().len(),
            forall|i: int|
                0 <= i < old(self).spec_slots().len() ==> #[trigger] final(self).spec_slots()[i] == if (old(
                    self,
                ).spec_slots()[i] matches Some(p) && p.0 < tick) {
                    None
                } else {
                    old(self).spec_slots()[i]
                },
    {
        let mut tmp = Self::new(1);
        std::mem::swap(self, &mut tmp);
        proof {
            use_type_invariant(&tmp);
        }
        let RollbackBuffer { states, head, count, capacity } = tmp;
        let ghost old_s = states@;
        let mut states = states;
        let mut count = count;
        let n = states.len();
        let mut i: usize = 0;
        while i < n
            invariant
                n == states@.len(),
                n == old_s.len(),
                n == capacity,
                count == occupied(states@),
                i <= n,
                forall|j: int|
                    0 <= j < i ==> #[trigger] states@[j] == if (old_s[j] matches Some(p) && p.0 < tick) {
                        None
                    } else {
                        old_s[j]
                    },
                forall|j: int| i <= j < n ==> #[trigger] states@[j] == old_s[j],
            decreases n - i,
        {
            let drop = match &states[i] {
                Some(p) => p.0 < tick,
                None => false,
            };
            if drop {
                let ghost before = states@;
                states.set(i, None);
                proof {
                    lemma_occupied_update(before, i as int, None);
                }
                count = count - 1;
            }
            i = i + 1;
        }
        proof {
            assert forall|j: int| 0 <= j < states@.len() && (#[trigger] states@[j]) is Some implies slot_of(
                states@[j].unwrap().0,
                capacity,
            ) == j by {
                assert(states@[j] == old_s[j]);
            }
        }
        *self = RollbackBuffer { states, head, count, capacity };
    }

    /// Drop every stored state.
    pub fn clear(&mut self)
        ensures
            final(self).spec_capacity() == old(self).spec_capacity(),
            final(self).spec_head() == 0,
            final(self).spec_slots().len() == old(self).spec_slots().len(),
            forall|i: int| 0 <= i < final(self).spec_slots().len() ==> (#[trigger] final(self).spec_slots()[i]) is None,
    {
        proof {
            use_type_invariant(&*self);
        }
        *self = Self::new(self.capacity);
    }

    /// The oldest and newest stored ticks; none when nothing is stored or every stored tick
    /// is the largest tick.
    pub fn tick_range(&self) -> (r: Option<(u64, u64)>)
        ensures
            (forall|t: u64| stored(self.spec_slots(), t) ==> t == u64::MAX) ==> r is None,
            r matches Some(p) ==> stored(self.spec_slots(), p.0) && stored(self.spec_slots(), p.1) && (
            forall|t: u64| stored(self.spec_slots(), t) ==> p.0 <= t <= p.1),
            !(forall|t: u64| stored(self.spec_slots(), t) ==> t == u64::MAX) ==> r is Some,
    {
        proof {
            use_type_invariant(self);
        }
        if self.count == 0 {
            proof {
                assert forall|t: u64| stored(self.states@, t) implies t == u64::MAX by {
                    let j = choose|j: int| #[trigger] holds(self.states@, j, t);
                    lemma_occupied_positive(self.states@, j);
                }
            }
            return None;
        }
        let n = self.states.len();
        let mut lo: u64 = u64::MAX;
        let mut hi: u64 = 0;
        let ghost mut lo_at: int = -1;
        let ghost mut hi_at: int = -1;
        let mut any = false;
        let mut i: usize = 0;
        while i < n
            invariant
                n == self.states@.len(),
                i <= n,
                lo_at < i,
                hi_at < i,
                lo_at >= 0 ==> holds(self.states@, lo_at, lo),
                hi_at >= 0 ==> holds(self.states@, hi_at, hi),
                lo_at < 0 ==> lo == u64::MAX,
                hi_at < 0 ==> hi == 0,
                any <==> hi_at >= 0,
                forall|j: int| 0 <= j < i && self.states@[j] is Some ==> lo <= (#[trigger] self.states@[j]).unwrap().0 <= hi,
                (exists|j: int| 0 <= j < i && (#[trigger] self.states@[j]) is Some) ==> hi_at >= 0,
                forall|j: int| 0 <= j < i && (#[trigger] self.states@[j]) is Some && self.states@[j].unwrap().0 < u64::MAX ==> lo_at >= 0,
            decreases n - i,
        {
            match &self.states[i] {
                Some(p) => {
                    if p.0 < lo {
                        lo = p.0;
                        proof {
                            lo_at = i as int;
                        }
                    }
                    if !any || p.0 > hi {
                        hi = p.0;
                        any = true;
                        proof {
                            hi_at = i as int;
                        }
                    }
                },
                None => {},
            }
            i = i + 1;
        }
        proof {
            assert forall|t: u64| stored(self.states@, t) implies lo <= t <= hi by {
                let j = choose|j: int| #[trigger] holds(self.states@, j, t);
                assert(self.states@[j] is Some);
            }
            if !(forall|t: u64| stored(self.states@, t) ==> t == u64::MAX) {
                let t = choose|t: u64| !(stored(self.states@, t) ==> t == u64::MAX);
                let j = choose|j: int| #[trigger] holds(self.states@, j, t);
                assert(self.states@[j] is Some);
            }
        }
        if lo == u64::MAX {
            proof {
                assert forall|t: u64| stored(self.states@, t) implies t == u64::MAX by {
                    let j = choose|j: int| #[trigger] holds(self.states@, j, t);
                    assert(self.states@[j] is Some);
                }
            }
            None
        } else {
            proof {
                assert(lo_at >= 0);
                assert(holds(self.states@, lo_at, lo));
                assert(stored(self.states@, lo));
                assert(stored(self.spec_slots(), lo));
                assert(lo != u64::MAX);
                assert(hi_at >= 0) by {
                    assert(self.states@[lo_at] is Some);
                }
                assert(holds(self.states@, hi_at, hi));
                assert(stored(self.states@, hi));
            }
            Some((lo, hi))
        }
    }

    /// Capacity, number of stored states and the stored tick range ((0, 0) when none).
    pub fn stats(&self) -> (r: BufferStats)
        ensures
            r.capacity == self.spec_capacity(),
            r.count == occupied(self.spec_slots()),
            (forall|t: u64| stored(self.spec_slots(), t) ==> t == u64::MAX) ==> r.oldest_tick == 0
                && r.newest_tick == 0,
            !(forall|t: u64| stored(self.spec_slots(), t) ==> t == u64::MAX) ==> stored(self.spec_slots(), r.oldest_tick)
                && stored(self.spec_slots(), r.newest_tick) && (forall|t: u64|
                stored(self.spec_slots(), t) ==> r.oldest_tick <= t <= r.newest_tick),
    {
        proof {
            use_type_invariant(self);
        }
        let (oldest, newest) = match self.tick_range() {
            Some(p) => p,
            None => (0, 0),
        };
        BufferStats { capacity: self.capacity, count: self.count, oldest_tick: oldest, newest_tick: newest }
    }

    /// The stored states with their ticks, oldest first.
    pub fn iter(&self) -> (r: Vec<(u64, &Model)>)
        ensures
            forall|a: int, b: int| 0 <= a < b < r@.len() ==> (#[trigger] r@[a]).0 < (#[trigger] r@[b]).0,
            forall|t: u64| #[trigger] stored(self.spec_slots(), t) <==> listed(r@, t),
            forall|a: int|
                0 <= a < r@.len() ==> *(#[trigger] r@[a]).1 == self.spec_slots()[slot_of(
                    r@[a].0,
                    self.spec_capacity(),
                )].unwrap().1,
    {
        proof {
            use_type_invariant(self);
        }
        let n = self.states.len();
        let mut out: Vec<(u64, &Model)> = Vec::new();
        let mut i: usize = 0;
        while i < n
            invariant
                n == self.states@.len(),
                n == self.capacity,
                self.capacity > 0,
                forall|j: int|
                    0 <= j < self.states@.len() && (#[trigger] self.states@[j]) is Some ==> slot_of(
                        self.states@[j].unwrap().0,
                        self.capacity,
                    ) == j,
                i <= n,
                forall|a: int, b: int| 0 <= a < b < out@.len() ==> (#[trigger] out@[a]).0 < (#[trigger] out@[b]).0,
                forall|t: u64| #[trigger] held_before(self.states@, i as int, t) <==> listed(out@, t),
                forall|a: int|
                    0 <= a < out@.len() ==> *(#[trigger] out@[a]).1 == self.states@[slot_of(
                        out@[a].0,
                        self.capacity,
                    )].unwrap().1 && holds(self.states@, slot_of(out@[a].0, self.capacity), out@[a].0),
            decreases n - i,
        {
            match &self.states[i] {
                Some(p) => {
                    let t = p.0;
                    let len = out.len();
                    let mut k: usize = 0;
                    while k < len && out[k].0 < t
                        invariant
                            len == out@.len(),
                            k <= len,
                            forall|a: int| 0 <= a < k ==> (#[trigger] out@[a]).0 < t,
                        decreases len - k,
                    {
                        k = k + 1;
                    }
                    let ghost old_out = out@;
                    proof {
                        // no stored tick repeats, so `t` is not listed yet
                        assert forall|a: int| 0 <= a < old_out.len() implies (#[trigger] old_out[a]).0 != t by {
                            if old_out[a].0 == t {
                                let j = slot_of(t, self.capacity);
                                assert(holds(self.states@, j, t));
                                assert(j == i);
                                assert(listed(old_out, t));
                                assert(held_before(self.states@, i as int, t));
                                let jj = choose|jj: int| 0 <= jj < i && #[trigger] holds(self.states@, jj, t);
                                assert(slot_of(self.states@[jj].unwrap().0, self.capacity) == jj);
                            }
                        }
                        assert(slot_of(t, self.capacity) == i);
                    }
                    out.insert(k, (t, &p.1));
                    proof {
                        assert forall|a: int, b: int| 0 <= a < b < out@.len() implies (#[trigger] out@[a]).0 < (#[trigger] out@[b]).0 by {
                            if b < k {
                                assert(out@[a] == old_out[a] && out@[b] == old_out[b]);
                            } else if b == k {
                                assert(out@[a] == old_out[a]);
                            } else if a < k {
                                assert(out@[a] == old_out[a] && out@[b] == old_out[b - 1]);
                                assert(old_out[k as int].0 >= t);
                                assert(old_out[k as int].0 != t);
                            } else if a == k {
                                assert(out@[b] == old_out[b - 1]);
                                assert(old_out[k as int].0 != t);
                                if b - 1 > k {
                                    assert(old_out[k as int].0 < old_out[b - 1].0);
                                }
                            } else {
                                assert(out@[a] == old_out[a - 1] && out@[b] == old_out[b - 1]);
                            }
                        }
                        assert forall|tt: u64| #[trigger] held_before(self.states@, i + 1, tt) <==> listed(out@, tt) by {
                            if held_before(self.states@, i + 1, tt) {
                                let j = choose|j: int| 0 <= j < i + 1 && #[trigger] holds(self.states@, j, tt);
                                if j < i {
                                    assert(held_before(self.states@, i as int, tt));
                                    let a = choose|a: int| 0 <= a < old_out.len() && (#[trigger] old_out[a]).0 == tt;
                                    if a < k {
                                        assert(out@[a] == old_out[a]);
                                    } else {
                                        assert(out@[a + 1] == old_out[a]);
                                    }
                                } else {
                                    assert(out@[k as int].0 == tt);
                                }
                                assert(listed(out@, tt));
                            }
                            if listed(out@, tt) {
                                let a = choose|a: int| 0 <= a < out@.len() && (#[trigger] out@[a]).0 == tt;
                                if a < k {
                                    assert(out@[a] == old_out[a]);
                                    assert(listed(old_out, tt));
                                } else if a > k {
                                    assert(out@[a] == old_out[a - 1]);
                                    assert(listed(old_out, tt));
                                } else {
                                    assert(holds(self.states@, i as int, tt));
                                }
                                if a != k {
                                    assert(held_before(self.states@, i as int, tt));
                                    let j = choose|j: int| 0 <= j < i && #[trigger] holds(self.states@, j, tt);
                                    assert(0 <= j < i + 1 && holds(self.states@, j, tt));
                                }
                            }
                        }
                        assert forall|a: int| 0 <= a < out@.len() implies *(#[trigger] out@[a]).1 == self.states@[slot_of(
                            out@[a].0,
                            self.capacity,
                        )].unwrap().1 && holds(self.states@, slot_of(out@[a].0, self.capacity), out@[a].0) by {
                            if a < k {
                                assert(out@[a] == old_out[a]);
                            } else if a > k {
                                assert(out@[a] == old_out[a - 1]);
                            }
                        }
                    }
                },
                None => {
                    proof {
                        assert forall|tt: u64| #[trigger] held_before(self.states@, i + 1, tt) <==> listed(out@, tt) by {
                            if held_before(self.states@, i + 1, tt) {
                                let j = choose|j: int| 0 <= j < i + 1 && #[trigger] holds(self.states@, j, tt);
                                assert(j != i);
                                assert(held_before(self.states@, i as int, tt));
                            }
                            if listed(out@, tt) {
                                assert(held_before(self.states@, i as int, tt));
                            }
                        }
                    }
                },
            }
            i = i + 1;
        }
        proof {
            assert forall|t: u64| #[trigger] stored(self.states@, t) <==> listed(out@, t) by {
                if stored(self.states@, t) {
                    let j = choose|j: int| #[trigger] holds(self.states@, j, t);
                    assert(0 <= j < n && holds(self.states@, j, t));
                    assert(held_before(self.states@, n as int, t));
                }
                if listed(out@, t) {
                    assert(held_before(self.states@, n as int, t));
                    let j = choose|j: int| 0 <= j < n && #[trigger] holds(self.states@, j, t);
                }
            }
        }
        out
    }

    /// The nearest stored states at or before and at or after a tick, when both exist.
    pub fn get_interpolation_states(&self, tick: u64) -> (r: Option<(u64, &Model, u64, &Model)>)
        ensures
            r is Some <==> (exists|t: u64| stored(self.spec_slots(), t) && t <= tick) && (exists|t: u64|
                stored(self.spec_slots(), t) && t >= tick),
            r matches Some(q) ==> q.0 <= tick && stored(self.spec_slots(), q.0) && (forall|t: u64|
                stored(self.spec_slots(), t) && t <= tick ==> t <= q.0) && q.2 >= tick && stored(
                self.spec_slots(),
                q.2,
            ) && (forall|t: u64| stored(self.spec_slots(), t) && t >= tick ==> t >= q.2),
    {
        let before = self.get_nearest_before(tick);
        let after = self.get_nearest_after(tick);
        match (before, after) {
            (Some(b), Some(a)) => Some((b.0, b.1, a.0, a.1)),
            _ => None,
        }
    }

    /// Number of slots.
    pub fn capacity(&self) -> (r: Option<usize>)
        ensures
            r == Some(self.spec_capacity()),
    {
        Some(self.capacity)
    }

    /// Number of stored states.
    pub fn len(&self) -> (r: usize)
        ensures
            r == occupied(self.spec_slots()),
    {
        proof {
            use_type_invariant(self);
        }
        self.count
    }

    /// Whether no state is stored.
    pub fn is_empty(&self) -> (r: bool)
        ensures
            r == (occupied(self.spec_slots()) == 0),
    {
        proof {
            use_type_invariant(self);
        }
        self.count == 0
    }
}

/// Replacing one slot changes the count of occupied slots by what the slot held.
pub proof fn lemma_occupied_update(s: Seq<Option<(u64, Model)>>, i: int, x: Option<(u64, Model)>)
    requires
        0 <= i < s.len(),
    ensures
        occupied(s.update(i, x)) + (if s[i] is Some {
            1nat
        } else {
            0nat
        }) == occupied(s) + (if x is Some {
            1nat
        } else {
            0nat
        }),
    decreases s.len(),
{
    if i == s.len() - 1 {
        assert(s.update(i, x).drop_last() =~= s.drop_last());
    } else {
        lemma_occupied_update(s.drop_last(), i, x);
        assert(s.update(i, x).drop_last() =~= s.drop_last().update(i, x));
    }
}

/// An occupied slot makes the count positive.
pub proof fn lemma_occupied_positive(s: Seq<Option<(u64, Model)>>, i: int)
    requires
        0 <= i < s.len(),
        s[i] is Some,
    ensures
        occupied(s) > 0,
    decreases s.len(),
{
    if i < s.len() - 1 {
        lemma_occupied_positive(s.drop_last(), i);
    }
}

/// At most every slot is occupied.
pub proof fn lemma_occupied_bound(s: Seq<Option<(u64, Model)>>)
    ensures
        occupied(s) <= s.len(),
    decreases s.len(),
{
    if s.len() > 0 {
        lemma_occupied_bound(s.drop_last());
    }
}

/// A history of model states by tick.
pub trait StateHistory {
    /// The state stored for a tick, if any. A history that stores states says which one
    /// it holds for each tick; one that keeps nothing can leave this as it is.
    open spec fn spec_state(&self, tick: u64) -> Option<Model> {
        None
    }

    /// Save the state of a tick: afterwards a copy of `model` is stored for it.
    fn save_state(&mut self, tick: u64, model: &Model)
        ensures
            final(self).spec_state(tick) matches Some(m) && restored_from(m, *model),
    ;

    /// The state of a tick, if stored.
    fn get_state(&self, tick: u64) -> (r: Option<&Model>)
        ensures
            r is Some <==> self.spec_state(tick) is Some,
            r matches Some(m) ==> self.spec_state(tick) == Some(*m),
    ;

    /// The latest stored state at or before a tick.
    fn get_nearest_before(&self, tick: u64) -> (r: Option<(u64, &Model)>)
        ensures
            r is None <==> forall|t: u64| t <= tick ==> (#[trigger] self.spec_state(t)) is None,
            r matches Some(p) ==> p.0 <= tick && self.spec_state(p.0) == Some(*p.1) && forall|t: u64|
                p.0 < t <= tick ==> (#[trigger] self.spec_state(t)) is None,
    ;

    /// The earliest stored state at or after a tick.
    fn get_nearest_after(&self, tick: u64) -> (r: Option<(u64, &Model)>)
        ensures
            r is None <==> forall|t: u64| t >= tick ==> (#[trigger] self.spec_state(t)) is None,
            r matches Some(p) ==> p.0 >= tick && self.spec_state(p.0) == Some(*p.1) && forall|t: u64|
                tick <= t < p.0 ==> (#[trigger] self.spec_state(t)) is None,
    ;

    /// Drop the states older than a tick.
    fn clear_before(&mut self, tick: u64)
        ensures
            forall|t: u64|
                #[trigger] final(self).spec_state(t) == if t < tick {
                    None
                } else {
                    old(self).spec_state(t)
                },
    ;

    /// Drop every state.
    fn clear(&mut self)
        ensures
            forall|t: u64| (#[trigger] final(self).spec_state(t)) is None,
    ;

    /// How many states fit, if bounded.
    fn capacity(&self) -> Option<usize>;

    /// Number of stored states: how many ticks have a state.
    fn len(&self) -> (r: usize)
        ensures
            Set::new(|t: u64| self.spec_state(t) is Some).finite(),
            r == Set::new(|t: u64| self.spec_state(t) is Some).len(),
    ;

    /// Whether nothing is stored.
    fn is_empty(&self) -> (r: bool)
        ensures
            r <==> forall|t: u64| (#[trigger] self.spec_state(t)) is None,
    {
        let n = self.len();
        proof {
            let ticks = Set::new(|t: u64| self.spec_state(t) is Some);
            if n == 0 {
                ticks.lemma_len0_is_empty();
                assert forall|t: u64| (#[trigger] self.spec_state(t)) is None by {
                    assert(!ticks.contains(t));
                }
            }
            if forall|t: u64| (#[trigger] self.spec_state(t)) is None {
                assert(ticks =~= Set::<u64>::empty());
            }
        }
        n == 0
    }

    /// The oldest and newest stored ticks: none when nothing is stored.
    fn tick_range(&self) -> (r: Option<(u64, u64)>)
        ensures
            (forall|t: u64| (#[trigger] self.spec_state(t)) is None) ==> r is None,
            r matches Some(p) ==> self.spec_state(p.0) is Some && self.spec_state(p.1) is Some && forall|
                t: u64,
            | (#[trigger] self.spec_state(t)) is Some ==> p.0 <= t <= p.1,
    ;
}

/// The ticks held in the slots of a buffer, as a set: as many as the occupied slots, when
/// each slot holds only ticks of its own slot.
pub proof fn lemma_stored_count(s: Seq<Option<(u64, Model)>>, capacity: usize)
    requires
        capacity > 0,
        forall|i: int|
            0 <= i < s.len() && (#[trigger] s[i]) is Some ==> slot_of(s[i].unwrap().0, capacity) == i,
    ensures
        Set::new(|t: u64| stored(s, t)).finite(),
        Set::new(|t: u64| stored(s, t)).len() == occupied(s),
    decreases s.len(),
{
    let ticks = Set::new(|t: u64| stored(s, t));
    if s.len() == 0 {
        assert(ticks =~= Set::<u64>::empty());
    } else {
        let p = s.drop_last();
        let n = s.len() - 1;
        lemma_stored_count(p, capacity);
        let before = Set::new(|t: u64| stored(p, t));
        assert forall|t: u64| stored(p, t) implies stored(s, t) by {
            let j = choose|j: int| #[trigger] holds(p, j, t);
            assert(holds(s, j, t));
        }
        assert forall|t: u64| stored(s, t) && !(s.last() matches Some(x) && x.0 == t) implies stored(p, t) by {
            let j = choose|j: int| #[trigger] holds(s, j, t);
            if j == n {
                assert(s[j] == s.last());
            }
            assert(holds(p, j, t));
        }
        match s.last() {
            None => {
                assert(ticks =~= before);
            },
            Some(x) => {
                assert(holds(s, n, x.0));
                assert(ticks =~= before.insert(x.0));
                if stored(p, x.0) {
                    let j = choose|j: int| #[trigger] holds(p, j, x.0);
                    assert(s[j] == p[j]);
                    assert(slot_of(x.0, capacity) == j);
                    assert(s[n] == s.last());
                }
            },
        }
    }
}

impl StateHistory for RollbackBuffer {
    /// The model in the tick's slot, when that slot holds the tick.
    closed spec fn spec_state(&self, tick: u64) -> Option<Model> {
        if stored(self.spec_slots(), tick) {
            Some(self.spec_slots()[slot_of(tick, self.spec_capacity())].unwrap().1)
        } else {
            None
        }
    }

    fn save_state(&mut self, tick: u64, model: &Model) {
        RollbackBuffer::save_state(self, tick, model);
        proof {
            use_type_invariant(&*self);
            let i = slot_of(tick, self.spec_capacity());
            assert(holds(self.spec_slots(), i, tick));
        }
    }

    fn get_state(&self, tick: u64) -> (r: Option<&Model>) {
        RollbackBuffer::get_state(self, tick)
    }

    fn get_nearest_before(&self, tick: u64) -> (r: Option<(u64, &Model)>) {
        let r = RollbackBuffer::get_nearest_before(self, tick);
        proof {
            use_type_invariant(self);
            if r is None {
                assert forall|t: u64| t <= tick implies (#[trigger] self.spec_state(t)) is None by {
                    if stored(self.spec_slots(), t) {
                        assert(t > tick);
                    }
                }
            } else {
                let t0 = r.unwrap().0;
                assert(self.spec_state(t0) is Some);
            }
        }
        r
    }

    fn get_nearest_after(&self, tick: u64) -> (r: Option<(u64, &Model)>) {
        let r = RollbackBuffer::get_nearest_after(self, tick);
        proof {
            use_type_invariant(self);
            if r is None {
                assert forall|t: u64| t >= tick implies (#[trigger] self.spec_state(t)) is None by {
                    if stored(self.spec_slots(), t) {
                        assert(t < tick);
                    }
                }
            } else {
                let t0 = r.unwrap().0;
                assert(self.spec_state(t0) is Some);
            }
        }
        r
    }

    fn clear_before(&mut self, tick: u64) {
        proof {
            use_type_invariant(&*self);
        }
        let ghost before = *self;
        RollbackBuffer::clear_before(self, tick);
        proof {
            use_type_invariant(&*self);
            let o = before.spec_slots();
            let f = self.spec_slots();
            assert forall|t: u64|
                #[trigger] self.spec_state(t) == if t < tick {
                    None
                } else {
                    before.spec_state(t)
                } by {
                let i = slot_of(t, self.spec_capacity());
                if stored(f, t) {
                    let j = choose|j: int| #[trigger] holds(f, j, t);
                    assert(holds(o, j, t));
                }
                if stored(o, t) && t >= tick {
                    let j = choose|j: int| #[trigger] holds(o, j, t);
                    assert(holds(f, j, t));
                }
            }
        }
    }

    fn clear(&mut self) {
        RollbackBuffer::clear(self);
        proof {
            assert forall|t: u64| (#[trigger] self.spec_state(t)) is None by {
                if stored(self.spec_slots(), t) {
                    let j = choose|j: int| #[trigger] holds(self.spec_slots(), j, t);
                }
            }
        }
    }

    fn capacity(&self) -> (r: Option<usize>)
        ensures
            r == Some(self.spec_capacity()),
    {
        RollbackBuffer::capacity(self)
    }

    fn len(&self) -> (r: usize) {
        proof {
            use_type_invariant(self);
            lemma_stored_count(self.spec_slots(), self.spec_capacity());
            assert(Set::new(|t: u64| self.spec_state(t) is Some) =~= Set::new(
                |t: u64| stored(self.spec_slots(), t),
            ));
        }
        RollbackBuffer::len(self)
    }

    fn is_empty(&self) -> (r: bool) {
        proof {
            use_type_invariant(self);
            lemma_stored_count(self.spec_slots(), self.spec_capacity());
            let ticks = Set::new(|t: u64| stored(self.spec_slots(), t));
            if occupied(self.spec_slots()) == 0 {
                ticks.lemma_len0_is_empty();
                assert forall|t: u64| (#[trigger] self.spec_state(t)) is None by {
                    assert(!ticks.contains(t));
                }
            }
            if forall|t: u64| (#[trigger] self.spec_state(t)) is None {
                assert forall|t: u64| !ticks.contains(t) by {
                    assert(self.spec_state(t) is None);
                }
                assert(ticks =~= Set::<u64>::empty());
            }
        }
        RollbackBuffer::is_empty(self)
    }

    /// When some stored tick is below the largest tick, the range is there.
    fn tick_range(&self) -> (r: Option<(u64, u64)>)
        ensures
            (exists|t: u64| t < u64::MAX && (#[trigger] self.spec_state(t)) is Some) ==> r is Some,
    {
        let r = RollbackBuffer::tick_range(self);
        proof {
            use_type_invariant(self);
            if forall|t: u64| (#[trigger] self.spec_state(t)) is None {
                assert forall|t: u64| stored(self.spec_slots(), t) implies t == u64::MAX by {
                    assert(self.spec_state(t) is Some);
                }
            }
            if exists|t: u64| t < u64::MAX && (#[trigger] self.spec_state(t)) is Some {
                let t = choose|t: u64| t < u64::MAX && (#[trigger] self.spec_state(t)) is Some;
                assert(stored(self.spec_slots(), t));
            }
            if r is Some {
                let p = r.unwrap();
                assert(self.spec_state(p.0) is Some);
                assert(self.spec_state(p.1) is Some);
                assert forall|t: u64| (#[trigger] self.spec_state(t)) is Some implies p.0 <= t <= p.1 by {
                    assert(stored(self.spec_slots(), t));
                }
            }
        }
        r
    }
}

} // verus!
