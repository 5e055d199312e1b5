//! Deferred writes: mutations collected during effect execution and applied together.
use vstd::prelude::*;
use crate::effect::ModifyOp;
use crate::identity::{DefId, EntityId};
use crate::value::{Value, ValueMap};

verus! {

/// A pending write to the model; values are already evaluated.
#[derive(Debug)]
pub enum PendingWrite {
    /// Set a property on an entity.
    SetProperty { entity_id: EntityId, key: String, value: Value },
    /// Modify a numeric property on an entity; the operand is the bits of a number.
    ModifyProperty { entity_id: EntityId, key: String, op: ModifyOp, value: u64 },
    /// Set a global property.
    SetGlobal { key: String, value: Value },
    /// Modify a global numeric property; the operand is the bits of a number.
    ModifyGlobal { key: String, op: ModifyOp, value: u64 },
    /// Add a flag to an entity.
    AddFlag { entity_id: EntityId, flag: DefId },
    /// Remove a flag from an entity.
    RemoveFlag { entity_id: EntityId, flag: DefId },
    /// Spawn a new entity with initial properties.
    SpawnEntity { kind: DefId, properties: ValueMap },
    /// Destroy an entity.
    DestroyEntity { id: EntityId },
}

impl PendingWrite {
    /// A copy of this write.
    pub fn duplicate(&self) -> (r: PendingWrite)
        ensures
            write_model(&r) == write_model(self),
    {
        match self {
            PendingWrite::SetProperty { entity_id, key, value } => PendingWrite::SetProperty {
                entity_id: *entity_id,
                key: key.clone(),
                value: value.duplicate(),
            },
            PendingWrite::ModifyProperty { entity_id, key, op, value } => PendingWrite::ModifyProperty {
                entity_id: *entity_id,
                key: key.clone(),
                op: *op,
                value: *value,
            },
            PendingWrite::SetGlobal { key, value } => PendingWrite::SetGlobal {
                key: key.clone(),
                value: value.duplicate(),
            },
            PendingWrite::ModifyGlobal { key, op, value } => PendingWrite::ModifyGlobal {
                key: key.clone(),
                op: *op,
                value: *value,
            },
            PendingWrite::AddFlag { entity_id, flag } => PendingWrite::AddFlag {
                entity_id: *entity_id,
                flag: flag.duplicate(),
            },
            PendingWrite::RemoveFlag { entity_id, flag } => PendingWrite::RemoveFlag {
                entity_id: *entity_id,
                flag: flag.duplicate(),
            },
            PendingWrite::SpawnEntity { kind, properties } => PendingWrite::SpawnEntity {
                kind: kind.duplicate(),
                properties: properties.duplicate(),
            },
            PendingWrite::DestroyEntity { id } => PendingWrite::DestroyEntity { id: *id },
        }
    }
}

/// The model of a pending write.
pub enum WriteModel {
    SetProperty { entity_id: u64, key: Seq<char>, value: crate::value::ValueModel },
    ModifyProperty { entity_id: u64, key: Seq<char>, op: ModifyOp, amount: u64 },
    SetGlobal { key: Seq<char>, value: crate::value::ValueModel },
    ModifyGlobal { key: Seq<char>, op: ModifyOp, amount: u64 },
    AddFlag { entity_id: u64, flag: Seq<char> },
    RemoveFlag { entity_id: u64, flag: Seq<char> },
    SpawnEntity { kind: Seq<char>, properties: Seq<(Seq<char>, crate::value::ValueModel)> },
    DestroyEntity { id: u64 },
}

/// The model of a pending write.
pub open spec fn write_model(w: &PendingWrite) -> WriteModel {
    match w {
        PendingWrite::SetProperty { entity_id, key, value } => WriteModel::SetProperty {
            entity_id: entity_id.0,
            key: key@,
            value: value.model(),
        },
        PendingWrite::ModifyProperty { entity_id, key, op, value } => WriteModel::ModifyProperty {
            entity_id: entity_id.0,
            key: key@,
            op: *op,
            amount: *value,
        },
        PendingWrite::SetGlobal { key, value } => WriteModel::SetGlobal { key: key@, value: value.model() },
        PendingWrite::ModifyGlobal { key, op, value } => WriteModel::ModifyGlobal {
            key: key@,
            op: *op,
            amount: *value,
        },
        PendingWrite::AddFlag { entity_id, flag } => WriteModel::AddFlag {
            entity_id: entity_id.0,
            flag: flag@,
        },
        PendingWrite::RemoveFlag { entity_id, flag } => WriteModel::RemoveFlag {
            entity_id: entity_id.0,
            flag: flag@,
        },
        PendingWrite::SpawnEntity { kind, properties } => WriteModel::SpawnEntity {
            kind: kind@,
            properties: properties@,
        },
        PendingWrite::DestroyEntity { id } => WriteModel::DestroyEntity { id: id.0 },
    }
}

/// Models of a sequence of writes.
pub open spec fn writes_model(s: Seq<PendingWrite>) -> Seq<WriteModel> {
    s.map_values(|w: PendingWrite| write_model(&w))
}

/// Entities spawned and destroyed by applying writes.
#[derive(Debug, Clone)]
pub struct WriteSetResult {
    /// Entities that were spawned.
    pub spawned: Vec<EntityId>,
    /// Entities that were destroyed.
    pub destroyed: Vec<EntityId>,
}

impl WriteSetResult {
    /// An empty result.
    pub fn new() -> (r: Self)
        ensures
            r.spawned@.len() == 0,
            r.destroyed@.len() == 0,
    {
        WriteSetResult { spawned: Vec::new(), destroyed: Vec::new() }
    }

    /// Append the lists of `other` to those of this result.
    pub fn merge(&mut self, other: WriteSetResult)
        ensures
            final(self).spawned@ == old(self).spawned@ + other.spawned@,
            final(self).destroyed@ == old(self).destroyed@ + other.destroyed@,
    {
        let mut o = other;
        self.spawned.append(&mut o.spawned);
        self.destroyed.append(&mut o.destroyed);
    }
}

/// An ordered collection of pending writes to apply together.
#[derive(Debug)]
pub struct WriteSet {
    writes: Vec<PendingWrite>,
}

impl View for WriteSet {
    type V = Seq<WriteModel>;

    closed spec fn view(&self) -> Seq<WriteModel> {
        writes_model(self.writes@)
    }
}

impl WriteSet {
    /// An empty write set.
    pub fn new() -> (r: Self)
        ensures
            r@ == Seq::<WriteModel>::empty(),
    {
        let r = WriteSet { writes: Vec::new() };
        assert(r@ =~= Seq::<WriteModel>::empty());
        r
    }

    /// Add a write at the end.
    pub fn push(&mut self, write: PendingWrite)
        ensures
            final(self)@ == old(self)@.push(write_model(&write)),
    {
        let ghost w = write_model(&write);
        self.writes.push(write);
        assert(self@ =~= old(self)@.push(w));
    }

    /// Append the writes of `other`.
    pub fn extend(&mut self, other: WriteSet)
        ensures
            final(self)@ == old(self)@ + other@,
    {
        let mut o = other;
        let ghost ov = o@;
        self.writes.append(&mut o.writes);
        assert(self@ =~= old(self)@ + ov);
    }

    /// Append copies of the writes of `other`.
    pub fn extend_from(&mut self, other: &WriteSet)
        ensures
            final(self)@ == old(self)@ + other@,
    {
        let n = other.writes.len();
        let mut i: usize = 0;
        while i < n
            invariant
                n == other.writes@.len(),
                i <= n,
                self@ == old(self)@ + other@.subrange(0, i as int),
            decreases n - i,
        {
            let w = other.writes[i].duplicate();
            self.push(w);
            assert(other@.subrange(0, i + 1) =~= other@.subrange(0, i as int).push(other@[i as int]));
            i = i + 1;
        }
        assert(other@.subrange(0, n as int) =~= other@);
    }

    /// Number of writes.
    pub fn len(&self) -> (r: usize)
        ensures
            r == self@.len(),
    {
        self.writes.len()
    }

    /// Whether there are no writes.
    pub fn is_empty(&self) -> (r: bool)
        ensures
            r == (self@.len() == 0),
    {
        self.writes.len() == 0
    }

    /// The writes, in order.
    pub fn writes(&self) -> (r: &[PendingWrite])
        ensures
            writes_model(r@) == self@,
    {
        self.writes.as_slice()
    }

    /// Consume the set and return its writes.
    pub fn into_writes(self) -> (r: Vec<PendingWrite>)
        ensures
            writes_model(r@) == self@,
    {
        self.writes
    }

    /// Remove all writes.
    pub fn clear(&mut self)
        ensures
            final(self)@ == Seq::<WriteModel>::empty(),
    {
        self.writes.clear();
        assert(self@ =~= Seq::<WriteModel>::empty());
    }

    /// Concatenate write sets in order.
    pub fn merge(write_sets: Vec<WriteSet>) -> (r: WriteSet)
        ensures
            r@ == write_sets@.fold_left(Seq::<WriteModel>::empty(), |acc: Seq<WriteModel>, ws: WriteSet| acc + ws@),
    {
        let mut merged = WriteSet::new();
        let mut sets = write_sets;
        let ghost all = sets@;
        let mut rest: Vec<WriteSet> = Vec::new();
        // consume from the back, then append in the original order
        let n = sets.len();
        let mut i: usize = 0;
        while i < n
            invariant
                n == all.len(),
                i <= n,
                sets@ == all.subrange(0, n - i),
                rest@.len() == i,
                forall|k: int| 0 <= k < i ==> #[trigger] rest@[k] == all[n - 1 - k],
            decreases n - i,
        {
            let ws = sets.pop().unwrap();
            rest.push(ws);
            assert(sets@ =~= all.subrange(0, n - i - 1));
            i = i + 1;
        }
        let mut j: usize = 0;
        while j < n
            invariant
                n == all.len(),
                j <= n,
                rest@.len() == n - j,
                forall|k: int| 0 <= k < n - j ==> #[trigger] rest@[k] == all[n - 1 - k],
                merged@ == all.subrange(0, j as int).fold_left(
                    Seq::<WriteModel>::empty(),
                    |acc: Seq<WriteModel>, ws: WriteSet| acc + ws@,
                ),
            decreases n - j,
        {
            let ws = rest.pop().unwrap();
            assert(ws == all[j as int]);
            proof {
                let f = |acc: Seq<WriteModel>, ws: WriteSet| acc + ws@;
                assert(all.subrange(0, j + 1).drop_last() =~= all.subrange(0, j as int));
            }
            merged.extend(ws);
            j = j + 1;
        }
        assert(all.subrange(0, n as int) =~= all);
        merged
    }
}

impl WriteSet {
    /// A write set holding writes, in order.
    pub fn from_writes(writes: Vec<PendingWrite>) -> (r: WriteSet)
        ensures
            r@ == writes_model(writes@),
    {
        WriteSet { writes }
    }

    /// Append writes, in order.
    pub fn extend_writes(&mut self, writes: Vec<PendingWrite>)
        ensures
            final(self)@ == old(self)@ + writes_model(writes@),
    {
        let mut w = writes;
        let ghost wv = writes_model(w@);
        self.writes.append(&mut w);
        assert(self@ =~= old(self)@ + wv);
    }

    /// A copy of this write set.
    pub fn duplicate(&self) -> (r: WriteSet)
        ensures
            r@ == self@,
    {
        let mut r = WriteSet::new();
        r.extend_from(self);
        assert(r@ =~= self@);
        r
    }

    /// Concatenate copies of write sets in order, leaving them as they are.
    pub fn merge_from(write_sets: &[WriteSet]) -> (r: WriteSet)
        ensures
            r@ == write_sets@.fold_left(Seq::<WriteModel>::empty(), |acc: Seq<WriteModel>, ws: WriteSet| acc + ws@),
    {
        let ghost all = write_sets@;
        let mut merged = WriteSet::new();
        let n = write_sets.len();
        let mut j: usize = 0;
        while j < n
            invariant
                n == all.len(),
                all == write_sets@,
                j <= n,
                merged@ == all.subrange(0, j as int).fold_left(
                    Seq::<WriteModel>::empty(),
                    |acc: Seq<WriteModel>, ws: WriteSet| acc + ws@,
                ),
            decreases n - j,
        {
            proof {
                assert(all.subrange(0, j + 1).drop_last() =~= all.subrange(0, j as int));
            }
            merged.extend_from(&write_sets[j]);
            j = j + 1;
        }
        assert(all.subrange(0, n as int) =~= all);
        merged
    }
}

} // verus!
