//! Applying write sets to the model and committing them with version tracking.
use vstd::prelude::*;
use crate::conflict::{
    conflict_targets, detect_conflicts, flat_writes, lemma_resolution_of_nothing,
    lemma_resolution_spawns, reports, resolve_conflicts, resolves, targets_in_order, untagged,
    ResolutionStrategy,
};
use crate::cores::CoreId;
use crate::effect::ModifyOp;
use crate::entity::{entity_index, has_entity, ids_unique, EntityModel};
use crate::identity::EntityId;
use crate::model::Model;
use crate::value::{insert_model, keys_unique, lookup, Value, ValueMap, ValueModel};
use crate::write_set::{write_model, writes_model, PendingWrite, WriteModel, WriteSet, WriteSetResult};

verus! {

/// The state that applying writes changes: entities, the next entity ID, globals, and
/// the lists of spawned and destroyed entity IDs.
pub struct ApplyState {
    pub entities: Seq<EntityModel>,
    pub next_id: u64,
    pub globals: Seq<(Seq<char>, ValueModel)>,
    pub spawned: Seq<u64>,
    pub destroyed: Seq<u64>,
}

/// The model of an optional value.
pub open spec fn opt_model(v: Option<Value>) -> Option<ValueModel> {
    match v {
        Some(x) => Some(x.model()),
        None => None,
    }
}

/// `r` is a result that the numeric step `f` may give for an operation, the current value
/// (if any) and the operand bits.
pub open spec fn numeric_gives<F: Fn(ModifyOp, Option<Value>, u64) -> u64>(
    f: F,
    op: ModifyOp,
    current: Option<ValueModel>,
    operand: u64,
    r: u64,
) -> bool {
    exists|cv: Option<Value>| opt_model(cv) == current && call_ensures(f, (op, cv, operand), r)
}

/// `newv` is a number that the numeric step `f` may give for the inputs.
pub open spec fn modified_to<F: Fn(ModifyOp, Option<Value>, u64) -> u64>(
    f: F,
    op: ModifyOp,
    current: Option<ValueModel>,
    operand: u64,
    newv: Option<ValueModel>,
) -> bool {
    newv matches Some(ValueModel::Float(r)) && numeric_gives(f, op, current, operand, r)
}

/// One write applied to a state gives the next state. Writes to a missing entity change
/// nothing; a destroyed ID is listed even when the entity was missing.
pub open spec fn apply_step<F: Fn(ModifyOp, Option<Value>, u64) -> u64>(
    f: F,
    s: ApplyState,
    w: WriteModel,
    t: ApplyState,
) -> bool {
    match w {
        WriteModel::SetProperty { entity_id, key, value } => if has_entity(s.entities, entity_id) {
            let i = entity_index(s.entities, entity_id);
            t == ApplyState {
                entities: s.entities.update(
                    i,
                    EntityModel {
                        properties: insert_model(s.entities[i].properties, key, value),
                        ..s.entities[i]
                    },
                ),
                ..s
            }
        } else {
            t == s
        },
        WriteModel::ModifyProperty { entity_id, key, op, amount } => if has_entity(
            s.entities,
            entity_id,
        ) {
            let i = entity_index(s.entities, entity_id);
            let newv = lookup(t.entities[i].properties, key);
            &&& modified_to(f, op, lookup(s.entities[i].properties, key), amount, newv)
            &&& t == ApplyState {
                entities: s.entities.update(
                    i,
                    EntityModel {
                        properties: insert_model(s.entities[i].properties, key, newv.unwrap()),
                        ..s.entities[i]
                    },
                ),
                ..s
            }
        } else {
            t == s
        },
        WriteModel::SetGlobal { key, value } => t == ApplyState {
            globals: insert_model(s.globals, key, value),
            ..s
        },
        WriteModel::ModifyGlobal { key, op, amount } => {
            let newv = lookup(t.globals, key);
            &&& modified_to(f, op, lookup(s.globals, key), amount, newv)
            &&& t == ApplyState { globals: insert_model(s.globals, key, newv.unwrap()), ..s }
        },
        WriteModel::AddFlag { entity_id, flag } => if has_entity(s.entities, entity_id) {
            let i = entity_index(s.entities, entity_id);
            t == ApplyState {
                entities: s.entities.update(
                    i,
                    EntityModel {
                        flags: if s.entities[i].flags.contains(flag) {
                            s.entities[i].flags
                        } else {
                            s.entities[i].flags.push(flag)
                        },
                        ..s.entities[i]
                    },
                ),
                ..s
            }
        } else {
            t == s
        },
        WriteModel::RemoveFlag { entity_id, flag } => if has_entity(s.entities, entity_id) {
            let i = entity_index(s.entities, entity_id);
            t == ApplyState {
                entities: s.entities.update(
                    i,
                    EntityModel {
                        flags: if s.entities[i].flags.contains(flag) {
                            s.entities[i].flags.remove(
                                crate::entity::flag_index(s.entities[i].flags, flag),
                            )
                        } else {
                            s.entities[i].flags
                        },
                        ..s.entities[i]
                    },
                ),
                ..s
            }
        } else {
            t == s
        },
        WriteModel::SpawnEntity { kind, properties } => t == ApplyState {
            entities: s.entities.push(
                EntityModel { id: s.next_id, kind, properties, flags: Seq::empty() },
            ),
            next_id: (s.next_id + 1) as u64,
            spawned: s.spawned.push(s.next_id),
            ..s
        },
        WriteModel::DestroyEntity { id } => t == ApplyState {
            entities: if has_entity(s.entities, id) {
                s.entities.remove(entity_index(s.entities, id))
            } else {
                s.entities
            },
            destroyed: s.destroyed.push(id),
            ..s
        },
    }
}

/// `trace` is a run of `writes` from its first state to its last.
pub open spec fn apply_run<F: Fn(ModifyOp, Option<Value>, u64) -> u64>(
    f: F,
    writes: Seq<WriteModel>,
    trace: Seq<ApplyState>,
) -> bool {
    &&& trace.len() == writes.len() + 1
    &&& forall|k: int| 0 <= k < writes.len() ==> apply_step(f, trace[k], writes[k], #[trigger] trace[k + 1])
}

/// Number of spawn writes.
pub open spec fn spawn_count(writes: Seq<WriteModel>) -> nat
    decreases writes.len(),
{
    if writes.len() == 0 {
        0
    } else {
        spawn_count(writes.drop_last()) + if writes.last() is SpawnEntity {
            1nat
        } else {
            0nat
        }
    }
}

/// The part of a model and a result that applying writes changes.
pub open spec fn state_of(model: &Model, result: &WriteSetResult) -> ApplyState {
    ApplyState {
        entities: model.entities@,
        next_id: model.entities.spec_next_id(),
        globals: model.globals@,
        spawned: result.spawned@.map_values(|id: EntityId| id.0),
        destroyed: result.destroyed@.map_values(|id: EntityId| id.0),
    }
}

/// The state before applying writes: the model's entities, next ID and globals, and
/// empty spawned and destroyed lists.
pub open spec fn initial_state(model: &Model) -> ApplyState {
    ApplyState {
        entities: model.entities@,
        next_id: model.entities.spec_next_id(),
        globals: model.globals@,
        spawned: Seq::empty(),
        destroyed: Seq::empty(),
    }
}

/// Applying `writes` leads from `start` to `end`.
pub open spec fn applies<F: Fn(ModifyOp, Option<Value>, u64) -> u64>(
    f: F,
    writes: Seq<WriteModel>,
    start: ApplyState,
    end: ApplyState,
) -> bool {
    exists|trace: Seq<ApplyState>| apply_run(f, writes, trace) && trace[0] == start && trace.last() == end
}

/// The concatenation of the writes of several write sets, in order.
pub open spec fn concat_writes(sets: Seq<WriteSet>) -> Seq<WriteModel> {
    sets.fold_left(Seq::<WriteModel>::empty(), |acc: Seq<WriteModel>, ws: WriteSet| acc + ws@)
}

/// The state that a commit result reports, with the model after it.
pub open spec fn commit_state(model: &Model, r: &CommitResult) -> ApplyState {
    ApplyState {
        entities: model.entities@,
        next_id: model.entities.spec_next_id(),
        globals: model.globals@,
        spawned: r.spawned@.map_values(|id: EntityId| id.0),
        destroyed: r.destroyed@.map_values(|id: EntityId| id.0),
    }
}

proof fn lemma_spawn_count_mono(writes: Seq<WriteModel>, j: int)
    requires
        0 <= j <= writes.len(),
    ensures
        spawn_count(writes.subrange(0, j)) <= spawn_count(writes),
    decreases writes.len() - j,
{
    if j == writes.len() {
        assert(writes.subrange(0, j) =~= writes);
    } else {
        lemma_spawn_count_mono(writes, j + 1);
        assert(writes.subrange(0, j + 1).drop_last() =~= writes.subrange(0, j));
    }
}

proof fn lemma_spawn_count_prefix(writes: Seq<WriteModel>, i: int)
    requires
        0 <= i < writes.len(),
    ensures
        spawn_count(writes.subrange(0, i + 1)) == spawn_count(writes.subrange(0, i)) + if writes[i] is SpawnEntity {
            1nat
        } else {
            0nat
        },
        spawn_count(writes.subrange(0, i)) <= spawn_count(writes),
    decreases writes.len(),
{
    assert(writes.subrange(0, i + 1).drop_last() =~= writes.subrange(0, i));
    if i + 1 == writes.len() {
        assert(writes.subrange(0, i + 1) =~= writes);
    } else {
        lemma_spawn_count_prefix(writes.drop_last(), i);
        assert(writes.drop_last().subrange(0, i) =~= writes.subrange(0, i));
        assert(writes.drop_last().subrange(0, i + 1) =~= writes.subrange(0, i + 1));
    }
}

/// Apply one write: the model and result move by one step of [`apply_step`].
fn apply_one<F: Fn(ModifyOp, Option<Value>, u64) -> u64>(
    write: &PendingWrite,
    model: &mut Model,
    result: &mut WriteSetResult,
    numeric: &F,
)
    requires
        forall|op: ModifyOp, cv: Option<Value>, x: u64| call_requires(*numeric, (op, cv, x)),
        write_model(write) is SpawnEntity ==> old(model).entities.spec_next_id() < u64::MAX,
    ensures
        apply_step(*numeric, state_of(old(model), old(result)), write_model(write), state_of(final(model), final(result))),
        final(model).entities.spec_next_id() == old(model).entities.spec_next_id() + if write_model(
            write,
        ) is SpawnEntity {
            1int
        } else {
            0int
        },
        final(model).time == old(model).time,
        final(model).rng == old(model).rng,
        final(model).actors == old(model).actors,
{
    let ghost s = state_of(model, result);
    model.entities.ids_are_unique();
    match write {
        PendingWrite::SetProperty { entity_id, key, value } => {
            let _ = model.entities.set_property(*entity_id, key.as_str(), value.duplicate());
        },
        PendingWrite::ModifyProperty { entity_id, key, op, value } => {
            match model.entities.position(*entity_id) {
                Some(i) => {
                    let current = match model.entities.at(i).get(key.as_str()) {
                        Some(v) => Some(v.duplicate()),
                        None => None,
                    };
                    let ghost cv = current;
                    model.entities.at(i).properties.keys_are_unique();
                    let new_value = numeric(*op, current, *value);
                    let _ = model.entities.set_property(*entity_id, key.as_str(), Value::Float(new_value));
                    proof {
                        assert(opt_model(cv) == lookup(s.entities[i as int].properties, key@));
                        assert(call_ensures(*numeric, (*op, cv, *value), new_value));
                        assert(numeric_gives(*numeric, *op, lookup(s.entities[i as int].properties, key@), *value, new_value));
                        crate::value::lemma_insert_keeps_unique(s.entities[i as int].properties, key@, ValueModel::Float(new_value));
                        crate::value::lemma_lookup_insert(s.entities[i as int].properties, key@, ValueModel::Float(new_value));
                        assert(apply_step(*numeric, s, write_model(write), state_of(model, result)));
                    }
                },
                None => {},
            }
        },
        PendingWrite::SetGlobal { key, value } => {
            let _ = model.globals.insert(key.clone(), value.duplicate());
        },
        PendingWrite::ModifyGlobal { key, op, value } => {
            let current = match model.globals.get(key.as_str()) {
                Some(v) => Some(v.duplicate()),
                None => None,
            };
            let ghost cv = current;
            let new_value = numeric(*op, current, *value);
            let _ = model.globals.insert(key.clone(), Value::Float(new_value));
            proof {
                assert(opt_model(cv) == lookup(s.globals, key@));
                assert(call_ensures(*numeric, (*op, cv, *value), new_value));
                assert(numeric_gives(*numeric, *op, lookup(s.globals, key@), *value, new_value));
                assert(state_of(model, result) == ApplyState {
                    globals: insert_model(s.globals, key@, ValueModel::Float(new_value)),
                    ..s
                });
                assert(exists|r: u64| #[trigger] numeric_gives(*numeric, *op, lookup(s.globals, key@), *value, r) && state_of(model, result) == ApplyState {
                    globals: insert_model(s.globals, key@, ValueModel::Float(r)),
                    ..s
                });
                crate::value::lemma_lookup_insert(s.globals, key@, ValueModel::Float(new_value));
                assert(modified_to(*numeric, *op, lookup(s.globals, key@), *value, lookup(model.globals@, key@)));
                assert(apply_step(*numeric, s, write_model(write), state_of(model, result)));
            }
        },
        PendingWrite::AddFlag { entity_id, flag } => {
            let _ = model.entities.add_flag(*entity_id, flag.duplicate());
        },
        PendingWrite::RemoveFlag { entity_id, flag } => {
            let _ = model.entities.remove_flag(*entity_id, flag);
        },
        PendingWrite::SpawnEntity { kind, properties } => {
            let id = model.entities.create(kind.as_str());
            let ghost created = model.entities@;
            let n = properties.len();
            assert(properties@.subrange(0, 0) =~= Seq::<(Seq<char>, ValueModel)>::empty());
            properties.keys_are_unique();
            let mut k: usize = 0;
            while k < n
                invariant
                    n == properties@.len(),
                    keys_unique(properties@),
                    k <= n,
                    model.entities.spec_next_id() == s.next_id + 1,
                    id.0 == s.next_id,
                    model.entities@ == s.entities.push(
                        EntityModel {
                            id: s.next_id,
                            kind: kind@,
                            properties: properties@.subrange(0, k as int),
                            flags: Seq::empty(),
                        },
                    ),
                    model.globals@ == s.globals,
                    model.time == old(model).time,
                    model.rng == old(model).rng,
                    model.actors == old(model).actors,
                    forall|j: int| 0 <= j < s.entities.len() ==> #[trigger] s.entities[j].id < s.next_id,
                decreases n - k,
            {
                let e = properties.entry(k);
                let ghost before = model.entities@;
                model.entities.ids_are_unique();
                proof {
                    crate::entity::lemma_entity_index_unique(before, id.0, s.entities.len() as int);
                    assert(!crate::value::has_key(properties@.subrange(0, k as int), e.0@)) by {
                        if crate::value::has_key(properties@.subrange(0, k as int), e.0@) {
                            let j = choose|j: int| 0 <= j < k && #[trigger] properties@.subrange(0, k as int)[j].0 == e.0@;
                            assert(properties@[j].0 == properties@[k as int].0);
                        }
                    }
                }
                let _ = model.entities.set_property(id, e.0.as_str(), e.1.duplicate());
                proof {
                    assert(properties@.subrange(0, k + 1) =~= properties@.subrange(0, k as int).push(properties@[k as int]));
                    assert(model.entities@ =~= s.entities.push(
                        EntityModel {
                            id: s.next_id,
                            kind: kind@,
                            properties: properties@.subrange(0, k + 1),
                            flags: Seq::empty(),
                        },
                    ));
                }
                k = k + 1;
            }
            let ghost sp0 = result.spawned@;
            result.spawned.push(id);
            proof {
                assert(properties@.subrange(0, n as int) =~= properties@);
                assert(result.spawned@.map_values(|x: EntityId| x.0) =~= sp0.map_values(|x: EntityId| x.0).push(id.0));
                assert(apply_step(*numeric, s, write_model(write), state_of(model, result)));
            }
        },
        PendingWrite::DestroyEntity { id } => {
            let _ = model.entities.remove(*id);
            let ghost d0 = result.destroyed@;
            result.destroyed.push(*id);
            proof {
                assert(result.destroyed@.map_values(|x: EntityId| x.0) =~= d0.map_values(|x: EntityId| x.0).push(id.0));
                assert(apply_step(*numeric, s, write_model(write), state_of(model, result)));
            }
        },
    }
}

/// Apply the writes of a write set to the model, in order. Numeric modifications get
/// their new value from `numeric`, given the operation, the current value (if any) and the
/// operand; the new value is stored as a number. Returns the spawned and destroyed IDs.
pub fn apply<F: Fn(ModifyOp, Option<Value>, u64) -> u64>(
    write_set: &WriteSet,
    model: &mut Model,
    numeric: &F,
) -> (r: WriteSetResult)
    requires
        forall|op: ModifyOp, cv: Option<Value>, x: u64| call_requires(*numeric, (op, cv, x)),
        old(model).entities.spec_next_id() + spawn_count(write_set@) <= u64::MAX,
    ensures
        applies(*numeric, write_set@, initial_state(old(model)), state_of(final(model), &r)),
        final(model).time == old(model).time,
        final(model).rng == old(model).rng,
        final(model).actors == old(model).actors,
{
    let mut result = WriteSetResult::new();
    let writes = write_set.writes();
    let n = writes.len();
    let ghost ws = write_set@;
    let ghost mut trace: Seq<ApplyState> = seq![state_of(model, &result)];
    proof {
        assert(result.spawned@.map_values(|x: EntityId| x.0) =~= Seq::<u64>::empty());
        assert(result.destroyed@.map_values(|x: EntityId| x.0) =~= Seq::<u64>::empty());
    }
    let mut i: usize = 0;
    while i < n
        invariant
            n == ws.len(),
            writes_model(writes@) == ws,
            i <= n,
            forall|op: ModifyOp, cv: Option<Value>, x: u64| call_requires(*numeric, (op, cv, x)),
            trace.len() == i + 1,
            forall|k: int| 0 <= k < i ==> apply_step(*numeric, trace[k], ws[k], #[trigger] trace[k + 1]),
            trace[0] == initial_state(old(model)),
            trace[i as int] == state_of(model, &result),
            model.entities.spec_next_id() == old(model).entities.spec_next_id() + spawn_count(ws.subrange(0, i as int)),
            old(model).entities.spec_next_id() + spawn_count(ws) <= u64::MAX,
            model.time == old(model).time,
            model.rng == old(model).rng,
            model.actors == old(model).actors,
        decreases n - i,
    {
        proof {
            lemma_spawn_count_prefix(ws, i as int);
            lemma_spawn_count_mono(ws, i + 1);
            assert(ws[i as int] == write_model(&writes@[i as int]));
        }
        let ghost before = state_of(model, &result);
        apply_one(&writes[i], model, &mut result, numeric);
        proof {
            trace = trace.push(state_of(model, &result));
            assert(apply_step(*numeric, trace[i as int], ws[i as int], trace[i + 1]));
        }
        i = i + 1;
    }
    proof {
        assert(trace.last() == state_of(model, &result));
        assert(apply_run(*numeric, ws, trace));
    }
    result
}

/// Apply several write sets, concatenated in order.
pub fn apply_batch<F: Fn(ModifyOp, Option<Value>, u64) -> u64>(
    write_sets: Vec<WriteSet>,
    model: &mut Model,
    numeric: &F,
) -> (r: WriteSetResult)
    requires
        forall|op: ModifyOp, cv: Option<Value>, x: u64| call_requires(*numeric, (op, cv, x)),
        old(model).entities.spec_next_id() + spawn_count(concat_writes(write_sets@)) <= u64::MAX,
    ensures
        applies(*numeric, concat_writes(write_sets@), initial_state(old(model)), state_of(final(model), &r)),
        final(model).time == old(model).time,
        final(model).rng == old(model).rng,
        final(model).actors == old(model).actors,
{
    let merged = WriteSet::merge(write_sets);
    apply(&merged, model, numeric)
}

/// Result of a successful commit.
#[derive(Debug, Clone)]
pub struct CommitResult {
    /// The version after this commit.
    pub version: u64,
    /// Entities that were spawned.
    pub spawned: Vec<EntityId>,
    /// Entities that were destroyed.
    pub destroyed: Vec<EntityId>,
    /// Number of conflicts that were resolved.
    pub conflicts_resolved: usize,
}

impl CommitResult {
    /// An empty commit result at a version.
    pub fn new(version: u64) -> (r: Self)
        ensures
            r.version == version,
            r.spawned@.len() == 0,
            r.destroyed@.len() == 0,
            r.conflicts_resolved == 0,
    {
        CommitResult { version, spawned: Vec::new(), destroyed: Vec::new(), conflicts_resolved: 0 }
    }

    /// Append the spawned and destroyed lists of a write result.
    pub fn merge_write_result(&mut self, result: WriteSetResult)
        ensures
            final(self).spawned@ == old(self).spawned@ + result.spawned@,
            final(self).destroyed@ == old(self).destroyed@ + result.destroyed@,
            final(self).version == old(self).version,
            final(self).conflicts_resolved == old(self).conflicts_resolved,
    {
        let mut o = result;
        self.spawned.append(&mut o.spawned);
        self.destroyed.append(&mut o.destroyed);
    }
}

/// Commit one write set: an empty set changes nothing and keeps the version; otherwise the
/// writes are applied and the version goes up by one.
pub fn commit<F: Fn(ModifyOp, Option<Value>, u64) -> u64>(
    write_set: WriteSet,
    model: &mut Model,
    version: &mut u64,
    numeric: &F,
) -> (r: CommitResult)
    requires
        forall|op: ModifyOp, cv: Option<Value>, x: u64| call_requires(*numeric, (op, cv, x)),
        old(model).entities.spec_next_id() + spawn_count(write_set@) <= u64::MAX,
        write_set@.len() > 0 ==> *old(version) < u64::MAX,
    ensures
        write_set@.len() == 0 ==> *final(version) == *old(version) && *final(model) == *old(model)
            && r.version == *old(version) && r.spawned@.len() == 0 && r.destroyed@.len() == 0,
        write_set@.len() > 0 ==> *final(version) == *old(version) + 1 && r.version == *final(version)
            && applies(*numeric, write_set@, initial_state(old(model)), commit_state(final(model), &r)),
        r.conflicts_resolved == 0,
{
    if write_set.is_empty() {
        return CommitResult::new(*version);
    }
    let write_result = apply(&write_set, model, numeric);
    *version = *version + 1;
    let mut result = CommitResult::new(*version);
    result.merge_write_result(write_result);
    proof {
        assert(result.spawned@ =~= write_result.spawned@);
        assert(result.destroyed@ =~= write_result.destroyed@);
        assert(commit_state(model, &result) == state_of(model, &write_result));
    }
    result
}

/// Commit the write sets of several cores: detect conflicts, resolve them with `strategy`
/// (see [`resolve_conflicts`]) and apply the resolved writes in one commit. `Abort` with
/// conflicts fails with the report and changes nothing; resolving to no writes keeps the
/// version; otherwise the version goes up by one. `numeric` computes numeric
/// modifications and `plus` adds operands when merging, both on the bits of numbers.
pub fn commit_batch<F: Fn(ModifyOp, Option<Value>, u64) -> u64, G: Fn(u64, u64) -> u64>(
    write_sets: Vec<(CoreId, WriteSet)>,
    model: &mut Model,
    version: &mut u64,
    strategy: &ResolutionStrategy,
    numeric: &F,
    plus: &G,
) -> (r: Result<CommitResult, crate::hub_error::Error>)
    requires
        forall|op: ModifyOp, cv: Option<Value>, x: u64| call_requires(*numeric, (op, cv, x)),
        forall|a: u64, b: u64| call_requires(*plus, (a, b)),
        old(model).entities.spec_next_id() + spawn_count(untagged(flat_writes(write_sets@)))
            <= u64::MAX,
        flat_writes(write_sets@).len() > 0 ==> *old(version) < u64::MAX,
    ensures
        ({
            let f = flat_writes(write_sets@);
            let ts = conflict_targets(targets_in_order(f), f);
            &&& (ts.len() > 0 && *strategy == ResolutionStrategy::Abort) ==> (r matches Err(
                crate::hub_error::Error::UnresolvedConflicts { count, report },
            ) && count == ts.len() && reports(report.conflicts@, f) && *final(model) == *old(model)
                && *final(version) == *old(version))
            &&& !(ts.len() > 0 && *strategy == ResolutionStrategy::Abort) ==> (r matches Ok(cr)
                && cr.conflicts_resolved == ts.len() && exists|res: crate::conflict::ResolutionResult|
                #[trigger] resolves(*strategy, *plus, f, res) && (res.write_set@.len() == 0 ==> (
            *final(model) == *old(model) && *final(version) == *old(version) && cr.version
                == *old(version) && cr.spawned@.len() == 0 && cr.destroyed@.len() == 0)) && (
            res.write_set@.len() > 0 ==> (*final(version) == *old(version) + 1 && cr.version
                == *final(version) && applies(
                *numeric,
                res.write_set@,
                initial_state(old(model)),
                commit_state(final(model), &cr),
            ))))
        }),
{
    let ghost f = flat_writes(write_sets@);
    let resolution = match resolve_conflicts(write_sets.as_slice(), strategy, plus) {
        Ok(res) => res,
        Err(e) => {
            return Err(e);
        },
    };
    proof {
        lemma_resolution_spawns(*strategy, *plus, f, resolution);
        if f.len() == 0 {
            lemma_resolution_of_nothing(*strategy, *plus, f, resolution);
        }
    }
    if resolution.write_set.is_empty() {
        let mut result = CommitResult::new(*version);
        result.conflicts_resolved = resolution.conflicts_resolved;
        return Ok(result);
    }
    let write_result = apply(&resolution.write_set, model, numeric);
    *version = *version + 1;
    let mut result = CommitResult::new(*version);
    result.merge_write_result(write_result);
    result.conflicts_resolved = resolution.conflicts_resolved;
    proof {
        assert(result.spawned@ =~= write_result.spawned@);
        assert(result.destroyed@ =~= write_result.destroyed@);
        assert(commit_state(model, &result) == state_of(model, &write_result));
    }
    Ok(result)
}

/// Whether the write sets of the cores conflict, without committing anything.
pub fn has_conflicts(write_sets: &[(CoreId, WriteSet)]) -> (r: bool)
    ensures
        r == (conflict_targets(targets_in_order(flat_writes(write_sets@)), flat_writes(write_sets@)).len()
            > 0),
{
    let report = detect_conflicts(write_sets);
    report.has_conflicts()
}

} // verus!
