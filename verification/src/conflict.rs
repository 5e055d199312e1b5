//! Conflict detection and resolution for merging the write sets of parallel cores.
//!
//! Two or more distinct cores writing to the same target (an entity property, an entity
//! flag, a global, a spawn kind or an entity destruction) is a write-write conflict.
//! Several writes from one core to one target are no conflict. Conflicts are reported
//! in the order in which their targets are first written.
use vstd::prelude::*;
use crate::commit::spawn_count;
use crate::cores::CoreId;
use crate::effect::ModifyOp;
use crate::identity::{DefId, EntityId};
use crate::text::{decimal, push_decimal};
use crate::write_set::{write_model, writes_model, PendingWrite, WriteModel, WriteSet};

verus! {

/// The resource that several cores wrote to.
#[derive(Debug, Clone, PartialEq, Eq, Hash)]
pub enum ConflictTarget {
    /// A property of an entity.
    EntityProperty { entity_id: EntityId, property: String },
    /// A flag of an entity.
    EntityFlag { entity_id: EntityId, flag: DefId },
    /// A global property.
    GlobalProperty { property: String },
    /// Spawning entities of a kind.
    SpawnEntity { kind: DefId },
    /// Destroying an entity.
    DestroyEntity { entity_id: EntityId },
}

/// The model of a conflict target.
pub enum TargetModel {
    EntityProperty { entity_id: u64, property: Seq<char> },
    EntityFlag { entity_id: u64, flag: Seq<char> },
    GlobalProperty { property: Seq<char> },
    SpawnEntity { kind: Seq<char> },
    DestroyEntity { entity_id: u64 },
}

/// The target that a write writes to.
pub open spec fn target_of(w: WriteModel) -> TargetModel {
    match w {
        WriteModel::SetProperty { entity_id, key, .. } => TargetModel::EntityProperty {
            entity_id,
            property: key,
        },
        WriteModel::ModifyProperty { entity_id, key, .. } => TargetModel::EntityProperty {
            entity_id,
            property: key,
        },
        WriteModel::SetGlobal { key, .. } => TargetModel::GlobalProperty { property: key },
        WriteModel::ModifyGlobal { key, .. } => TargetModel::GlobalProperty { property: key },
        WriteModel::AddFlag { entity_id, flag } => TargetModel::EntityFlag { entity_id, flag },
        WriteModel::RemoveFlag { entity_id, flag } => TargetModel::EntityFlag { entity_id, flag },
        WriteModel::SpawnEntity { kind, .. } => TargetModel::SpawnEntity { kind },
        WriteModel::DestroyEntity { id } => TargetModel::DestroyEntity { entity_id: id },
    }
}

/// The display text of a target.
pub open spec fn target_text(t: TargetModel) -> Seq<char> {
    match t {
        TargetModel::EntityProperty { entity_id, property } => "entity entity:"@ + decimal(
            entity_id as nat,
        ) + " property '"@ + property + "'"@,
        TargetModel::EntityFlag { entity_id, flag } => "entity entity:"@ + decimal(entity_id as nat)
            + " flag '"@ + flag + "'"@,
        TargetModel::GlobalProperty { property } => "global '"@ + property + "'"@,
        TargetModel::SpawnEntity { kind } => "spawn entity kind '"@ + kind + "'"@,
        TargetModel::DestroyEntity { entity_id } => "destroy entity entity:"@ + decimal(
            entity_id as nat,
        ),
    }
}

impl ConflictTarget {
    /// The model of this target.
    pub open spec fn model(&self) -> TargetModel {
        match self {
            ConflictTarget::EntityProperty { entity_id, property } => TargetModel::EntityProperty {
                entity_id: entity_id.0,
                property: property@,
            },
            ConflictTarget::EntityFlag { entity_id, flag } => TargetModel::EntityFlag {
                entity_id: entity_id.0,
                flag: flag@,
            },
            ConflictTarget::GlobalProperty { property } => TargetModel::GlobalProperty {
                property: property@,
            },
            ConflictTarget::SpawnEntity { kind } => TargetModel::SpawnEntity { kind: kind@ },
            ConflictTarget::DestroyEntity { entity_id } => TargetModel::DestroyEntity {
                entity_id: entity_id.0,
            },
        }
    }

    /// The target that a pending write writes to.
    pub fn from_pending_write(write: &PendingWrite) -> (r: Self)
        ensures
            r.model() == target_of(write_model(write)),
    {
        match write {
            PendingWrite::SetProperty { entity_id, key, .. } => ConflictTarget::EntityProperty {
                entity_id: *entity_id,
                property: key.clone(),
            },
            PendingWrite::ModifyProperty { entity_id, key, .. } => ConflictTarget::EntityProperty {
                entity_id: *entity_id,
                property: key.clone(),
            },
            PendingWrite::SetGlobal { key, .. } => ConflictTarget::GlobalProperty {
                property: key.clone(),
            },
            PendingWrite::ModifyGlobal { key, .. } => ConflictTarget::GlobalProperty {
                property: key.clone(),
            },
            PendingWrite::AddFlag { entity_id, flag } => ConflictTarget::EntityFlag {
                entity_id: *entity_id,
                flag: flag.duplicate(),
            },
            PendingWrite::RemoveFlag { entity_id, flag } => ConflictTarget::EntityFlag {
                entity_id: *entity_id,
                flag: flag.duplicate(),
            },
            PendingWrite::SpawnEntity { kind, .. } => ConflictTarget::SpawnEntity {
                kind: kind.duplicate(),
            },
            PendingWrite::DestroyEntity { id } => ConflictTarget::DestroyEntity { entity_id: *id },
        }
    }

    /// Whether two targets are the same resource.
    pub fn same_as(&self, other: &ConflictTarget) -> (r: bool)
        ensures
            r == (self.model() == other.model()),
    {
        match (self, other) {
            (
                ConflictTarget::EntityProperty { entity_id: a, property: p },
                ConflictTarget::EntityProperty { entity_id: b, property: q },
            ) => a.0 == b.0 && *p == *q,
            (
                ConflictTarget::EntityFlag { entity_id: a, flag: f },
                ConflictTarget::EntityFlag { entity_id: b, flag: g },
            ) => a.0 == b.0 && f.same_as(g),
            (
                ConflictTarget::GlobalProperty { property: p },
                ConflictTarget::GlobalProperty { property: q },
            ) => *p == *q,
            (ConflictTarget::SpawnEntity { kind: k }, ConflictTarget::SpawnEntity { kind: l }) => k.same_as(l),
            (
                ConflictTarget::DestroyEntity { entity_id: a },
                ConflictTarget::DestroyEntity { entity_id: b },
            ) => a.0 == b.0,
            _ => false,
        }
    }

    /// A copy of this target.
    pub fn duplicate(&self) -> (r: Self)
        ensures
            r.model() == self.model(),
    {
        match self {
            ConflictTarget::EntityProperty { entity_id, property } => ConflictTarget::EntityProperty {
                entity_id: *entity_id,
                property: property.clone(),
            },
            ConflictTarget::EntityFlag { entity_id, flag } => ConflictTarget::EntityFlag {
                entity_id: *entity_id,
                flag: flag.duplicate(),
            },
            ConflictTarget::GlobalProperty { property } => ConflictTarget::GlobalProperty {
                property: property.clone(),
            },
            ConflictTarget::SpawnEntity { kind } => ConflictTarget::SpawnEntity {
                kind: kind.duplicate(),
            },
            ConflictTarget::DestroyEntity { entity_id } => ConflictTarget::DestroyEntity {
                entity_id: *entity_id,
            },
        }
    }

    /// The display text of this target, such as `global 'gold'` or
    /// `entity entity:42 property 'health'`.
    pub fn to_text(&self) -> (r: String)
        ensures
            r@ == target_text(self.model()),
    {
        match self {
            ConflictTarget::EntityProperty { entity_id, property } => {
                let mut s = String::from_str("entity entity:");
                push_decimal(&mut s, entity_id.0);
                s.append(" property '");
                s.append(property.as_str());
                s.append("'");
                s
            },
            ConflictTarget::EntityFlag { entity_id, flag } => {
                let mut s = String::from_str("entity entity:");
                push_decimal(&mut s, entity_id.0);
                s.append(" flag '");
                s.append(flag.as_str());
                s.append("'");
                s
            },
            ConflictTarget::GlobalProperty { property } => {
                let mut s = String::from_str("global '");
                s.append(property.as_str());
                s.append("'");
                s
            },
            ConflictTarget::SpawnEntity { kind } => {
                let mut s = String::from_str("spawn entity kind '");
                s.append(kind.as_str());
                s.append("'");
                s
            },
            ConflictTarget::DestroyEntity { entity_id } => {
                let mut s = String::from_str("destroy entity entity:");
                push_decimal(&mut s, entity_id.0);
                s
            },
        }
    }
}

/// The kind of a conflict.
#[derive(Debug, Clone, Copy, PartialEq, Eq, Structural, Hash)]
pub enum ConflictType {
    /// Two or more cores wrote to the same target.
    WriteWrite,
    /// A core read what another core wrote (reserved; never detected yet).
    ReadWrite,
}

impl Default for ConflictType {
    fn default() -> (r: Self)
        ensures
            r == ConflictType::WriteWrite,
    {
        ConflictType::WriteWrite
    }
}

/// The display text of a conflict type.
pub open spec fn type_text(t: ConflictType) -> Seq<char> {
    match t {
        ConflictType::WriteWrite => "write-write"@,
        ConflictType::ReadWrite => "read-write"@,
    }
}

impl ConflictType {
    /// The display text: `write-write` or `read-write`.
    pub fn to_text(&self) -> (r: String)
        ensures
            r@ == type_text(*self),
    {
        match self {
            ConflictType::WriteWrite => String::from_str("write-write"),
            ConflictType::ReadWrite => String::from_str("read-write"),
        }
    }
}

/// Record of a read (reserved for read-write detection).
#[derive(Debug, Clone, PartialEq)]
pub struct ReadRecord {
    /// The target that was read.
    pub target: ConflictTarget,
}

/// Writes tagged with the core that made them, as models.
pub open spec fn tagged_models(s: Seq<(CoreId, PendingWrite)>) -> Seq<(CoreId, WriteModel)> {
    s.map_values(|p: (CoreId, PendingWrite)| (p.0, write_model(&p.1)))
}

/// Models of tagged writes after a push.
pub proof fn lemma_tagged_push(s: Seq<(CoreId, PendingWrite)>, x: (CoreId, PendingWrite))
    ensures
        tagged_models(s.push(x)) == tagged_models(s).push((x.0, write_model(&x.1))),
{
    assert(tagged_models(s.push(x)) =~= tagged_models(s).push((x.0, write_model(&x.1))));
}

/// A detected conflict.
#[derive(Debug)]
pub struct Conflict {
    /// The resource conflicted on.
    pub target: ConflictTarget,
    /// The kind of conflict.
    pub conflict_type: ConflictType,
    /// The distinct cores involved, in increasing order.
    pub cores: Vec<CoreId>,
    /// The conflicting writes with their cores, in the order they were made.
    pub writes: Vec<(CoreId, PendingWrite)>,
    /// Reads involved (reserved; always empty).
    pub reads: Vec<(CoreId, ReadRecord)>,
}

/// The display text of a core ID.
pub open spec fn core_text(c: CoreId) -> Seq<char> {
    "Core("@ + decimal(c.0 as nat) + ")"@
}

/// Core IDs' display texts separated by `, `.
pub open spec fn cores_text(cores: Seq<CoreId>) -> Seq<char>
    decreases cores.len(),
{
    if cores.len() == 0 {
        Seq::empty()
    } else if cores.len() == 1 {
        core_text(cores[0])
    } else {
        cores_text(cores.drop_last()) + ", "@ + core_text(cores.last())
    }
}

impl Conflict {
    /// A conflict between at least two cores, with no reads.
    pub fn new(
        target: ConflictTarget,
        conflict_type: ConflictType,
        cores: Vec<CoreId>,
        writes: Vec<(CoreId, PendingWrite)>,
    ) -> (r: Self)
        requires
            cores@.len() >= 2,
        ensures
            r.target.model() == target.model(),
            r.conflict_type == conflict_type,
            r.cores@ == cores@,
            tagged_models(r.writes@) == tagged_models(writes@),
            r.reads@.len() == 0,
    {
        Conflict { target, conflict_type, cores, writes, reads: Vec::new() }
    }

    /// Number of cores involved.
    pub fn core_count(&self) -> (r: usize)
        ensures
            r == self.cores@.len(),
    {
        self.cores.len()
    }

    /// Whether this is a write-write conflict.
    pub fn is_write_write(&self) -> (r: bool)
        ensures
            r == (self.conflict_type == ConflictType::WriteWrite),
    {
        self.conflict_type == ConflictType::WriteWrite
    }

    /// Whether this is a read-write conflict.
    pub fn is_read_write(&self) -> (r: bool)
        ensures
            r == (self.conflict_type == ConflictType::ReadWrite),
    {
        self.conflict_type == ConflictType::ReadWrite
    }

    /// The display text: `<type> conflict on <target> between Core(a), Core(b), ...`.
    pub fn to_text(&self) -> (r: String)
        ensures
            r@ == type_text(self.conflict_type) + " conflict on "@ + target_text(self.target.model())
                + " between "@ + cores_text(self.cores@),
    {
        let mut s = self.conflict_type.to_text();
        s.append(" conflict on ");
        let t = self.target.to_text();
        s.append(t.as_str());
        s.append(" between ");
        let ghost prefix = s@;
        let n = self.cores.len();
        let mut i: usize = 0;
        while i < n
            invariant
                n == self.cores@.len(),
                i <= n,
                s@ == prefix + cores_text(self.cores@.subrange(0, i as int)),
            decreases n - i,
        {
            let ghost before = s@;
            if i > 0 {
                s.append(", ");
            }
            s.append("Core(");
            push_decimal(&mut s, self.cores[i].0 as u64);
            s.append(")");
            proof {
                let sub = self.cores@.subrange(0, i + 1);
                assert(sub.drop_last() =~= self.cores@.subrange(0, i as int));
                if i == 0 {
                    assert(s@ =~= prefix + cores_text(sub));
                } else {
                    assert(s@ =~= prefix + cores_text(sub));
                }
            }
            i = i + 1;
        }
        assert(self.cores@.subrange(0, n as int) =~= self.cores@);
        s
    }
}

/// Whether a target is kept by the default filter: every target but spawns.
pub open spec fn kept_by_default(t: TargetModel) -> bool {
    !(t is SpawnEntity)
}

/// The default filter: keeps every target but spawns, which are usually harmless.
pub fn default_conflict_filter(target: &ConflictTarget) -> (r: bool)
    ensures
        r == kept_by_default(target.model()),
{
    match target {
        ConflictTarget::SpawnEntity { .. } => false,
        _ => true,
    }
}


// ---------------------------------------------------------------------------
// Detection
// ---------------------------------------------------------------------------

/// The writes of the core write sets in order, each tagged with its core.
pub open spec fn flat_writes(s: Seq<(CoreId, WriteSet)>) -> Seq<(CoreId, WriteModel)>
    decreases s.len(),
{
    if s.len() == 0 {
        Seq::empty()
    } else {
        flat_writes(s.drop_last()) + s.last().1@.map_values(|w: WriteModel| (s.last().0, w))
    }
}

/// The distinct targets written in `f`, in the order of their first write.
pub open spec fn targets_in_order(f: Seq<(CoreId, WriteModel)>) -> Seq<TargetModel>
    decreases f.len(),
{
    if f.len() == 0 {
        Seq::empty()
    } else {
        let prev = targets_in_order(f.drop_last());
        let t = target_of(f.last().1);
        if prev.contains(t) {
            prev
        } else {
            prev.push(t)
        }
    }
}

/// The writes in `f` to target `t`, in order.
pub open spec fn writes_for(f: Seq<(CoreId, WriteModel)>, t: TargetModel) -> Seq<(CoreId, WriteModel)>
    decreases f.len(),
{
    if f.len() == 0 {
        Seq::empty()
    } else {
        let prev = writes_for(f.drop_last(), t);
        if target_of(f.last().1) == t {
            prev.push(f.last())
        } else {
            prev
        }
    }
}

/// Core `c` made one of the writes in `s`.
pub open spec fn has_core(s: Seq<(CoreId, WriteModel)>, c: CoreId) -> bool {
    exists|i: int| 0 <= i < s.len() && #[trigger] s[i].0 == c
}

/// Two distinct cores made writes in `s`.
pub open spec fn multi_core(s: Seq<(CoreId, WriteModel)>) -> bool {
    exists|i: int, j: int| 0 <= i < s.len() && 0 <= j < s.len() && #[trigger] s[i].0 != #[trigger] s[j].0
}

/// `cores` lists, in strictly increasing order, exactly the cores that made writes in `s`.
pub open spec fn lists_cores(cores: Seq<CoreId>, s: Seq<(CoreId, WriteModel)>) -> bool {
    &&& forall|a: int, b: int| 0 <= a < b < cores.len() ==> (#[trigger] cores[a]).0 < (#[trigger] cores[b]).0
    &&& forall|c: CoreId| cores.contains(c) <==> has_core(s, c)
}

/// The targets among `ts` written by two or more distinct cores in `f`, in order.
pub open spec fn conflict_targets(ts: Seq<TargetModel>, f: Seq<(CoreId, WriteModel)>) -> Seq<TargetModel>
    decreases ts.len(),
{
    if ts.len() == 0 {
        Seq::empty()
    } else {
        let prev = conflict_targets(ts.drop_last(), f);
        if multi_core(writes_for(f, ts.last())) {
            prev.push(ts.last())
        } else {
            prev
        }
    }
}

/// `c` is the conflict on target `t` of the writes `f`.
pub open spec fn is_conflict_on(c: Conflict, f: Seq<(CoreId, WriteModel)>, t: TargetModel) -> bool {
    &&& c.target.model() == t
    &&& c.conflict_type == ConflictType::WriteWrite
    &&& tagged_models(c.writes@) == writes_for(f, t)
    &&& lists_cores(c.cores@, writes_for(f, t))
    &&& c.reads@.len() == 0
}

/// `conflicts` are the conflicts of the writes `f`: one for each target written by two or
/// more distinct cores, in the order of the targets' first writes.
pub open spec fn reports(conflicts: Seq<Conflict>, f: Seq<(CoreId, WriteModel)>) -> bool {
    let ts = conflict_targets(targets_in_order(f), f);
    &&& conflicts.len() == ts.len()
    &&& forall|k: int| 0 <= k < conflicts.len() ==> is_conflict_on(#[trigger] conflicts[k], f, ts[k])
}

/// A copy of tagged writes.
fn duplicate_tagged(v: &Vec<(CoreId, PendingWrite)>) -> (r: Vec<(CoreId, PendingWrite)>)
    ensures
        tagged_models(r@) == tagged_models(v@),
{
    let mut out: Vec<(CoreId, PendingWrite)> = Vec::new();
    let n = v.len();
    let mut i: usize = 0;
    while i < n
        invariant
            n == v@.len(),
            i <= n,
            out@.len() == i,
            tagged_models(out@) == tagged_models(v@).subrange(0, i as int),
        decreases n - i,
    {
        let c = v[i].0;
        let w = v[i].1.duplicate();
        let ghost wm = write_model(&w);
        out.push((c, w));
        assert(tagged_models(out@)[i as int] == tagged_models(v@)[i as int]);
        assert(tagged_models(out@) =~= tagged_models(v@).subrange(0, i + 1));
        i = i + 1;
    }
    assert(tagged_models(v@).subrange(0, n as int) =~= tagged_models(v@));
    out
}

/// All writes of the core write sets, in order, tagged with their cores.
fn collect_writes(write_sets: &[(CoreId, WriteSet)]) -> (r: Vec<(CoreId, PendingWrite)>)
    ensures
        tagged_models(r@) == flat_writes(write_sets@),
{
    let mut out: Vec<(CoreId, PendingWrite)> = Vec::new();
    let n = write_sets.len();
    let mut i: usize = 0;
    while i < n
        invariant
            n == write_sets@.len(),
            i <= n,
            tagged_models(out@) == flat_writes(write_sets@.subrange(0, i as int)),
        decreases n - i,
    {
        let core = write_sets[i].0;
        let ws = write_sets[i].1.writes();
        let ghost base = tagged_models(out@);
        assert(base.len() == out@.len());
        let ghost tagged = write_sets@[i as int].1@.map_values(|w: WriteModel| (core, w));
        let m = ws.len();
        let mut j: usize = 0;
        while j < m
            invariant
                n == write_sets@.len(),
                i < n,
                m == ws@.len(),
                j <= m,
                writes_model(ws@) == write_sets@[i as int].1@,
                tagged == write_sets@[i as int].1@.map_values(|w: WriteModel| (core, w)),
                out@.len() == base.len() + j,
                tagged.len() == m,
                tagged_models(out@) == base + tagged.subrange(0, j as int),
            decreases m - j,
        {
            let w = ws[j].duplicate();
            let ghost wm = write_model(&w);
            let ghost old_out = out@;
            out.push((core, w));
            proof {
                lemma_tagged_push(old_out, (core, w));
            }
            assert(writes_model(ws@)[j as int] == write_model(&ws@[j as int]));
            assert(tagged[j as int] == (core, wm));
            assert(tagged_models(out@) =~= base + tagged.subrange(0, j + 1));
            j = j + 1;
        }
        proof {
            assert(tagged.subrange(0, m as int) =~= tagged);
            let sub = write_sets@.subrange(0, i + 1);
            assert(sub.drop_last() =~= write_sets@.subrange(0, i as int));
            assert(write_sets@[i as int].0 == core);
        }
        i = i + 1;
    }
    assert(write_sets@.subrange(0, n as int) =~= write_sets@);
    out
}

/// A target never written in `f` has no writes in `f`.
proof fn lemma_writes_for_absent(f: Seq<(CoreId, WriteModel)>, t: TargetModel)
    requires
        !targets_in_order(f).contains(t),
    ensures
        writes_for(f, t) == Seq::<(CoreId, WriteModel)>::empty(),
    decreases f.len(),
{
    if f.len() > 0 {
        let prev = targets_in_order(f.drop_last());
        if prev.contains(t) {
            let k = choose|k: int| 0 <= k < prev.len() && prev[k] == t;
            if !prev.contains(target_of(f.last().1)) {
                assert(prev.push(target_of(f.last().1))[k] == t);
            }
        }
        lemma_writes_for_absent(f.drop_last(), t);
        if target_of(f.last().1) == t {
            if !prev.contains(t) {
                assert(prev.push(t)[prev.len() as int] == t);
            }
        }
    }
}

/// The targets in order occur once each.
proof fn lemma_targets_distinct(f: Seq<(CoreId, WriteModel)>)
    ensures
        targets_in_order(f).no_duplicates(),
    decreases f.len(),
{
    if f.len() > 0 {
        lemma_targets_distinct(f.drop_last());
    }
}

/// The writes grouped by target, in the order of the targets' first writes.
fn group_writes(f: &Vec<(CoreId, PendingWrite)>) -> (groups: Vec<(ConflictTarget, Vec<(CoreId, PendingWrite)>)>)
    ensures
        groups@.len() == targets_in_order(tagged_models(f@)).len(),
        forall|g: int|
            0 <= g < groups@.len() ==> (#[trigger] groups@[g]).0.model() == targets_in_order(
                tagged_models(f@),
            )[g] && tagged_models(groups@[g].1@) == writes_for(
                tagged_models(f@),
                targets_in_order(tagged_models(f@))[g],
            ),
{
    let ghost m = tagged_models(f@);
    let mut groups: Vec<(ConflictTarget, Vec<(CoreId, PendingWrite)>)> = Vec::new();
    let n = f.len();
    let mut i: usize = 0;
    while i < n
        invariant
            n == f@.len(),
            m == tagged_models(f@),
            i <= n,
            groups@.len() == targets_in_order(m.subrange(0, i as int)).len(),
            forall|g: int|
                0 <= g < groups@.len() ==> (#[trigger] groups@[g]).0.model() == targets_in_order(
                    m.subrange(0, i as int),
                )[g] && tagged_models(groups@[g].1@) == writes_for(
                    m.subrange(0, i as int),
                    targets_in_order(m.subrange(0, i as int))[g],
                ),
        decreases n - i,
    {
        let ghost pre = m.subrange(0, i as int);
        let ghost post = m.subrange(0, i + 1);
        let ghost ts = targets_in_order(pre);
        proof {
            assert(post.drop_last() =~= pre);
            assert(post.last() == m[i as int]);
            lemma_targets_distinct(pre);
        }
        let core = f[i].0;
        let target = ConflictTarget::from_pending_write(&f[i].1);
        let w = f[i].1.duplicate();
        let ghost entry = (core, write_model(&w));
        assert(entry == m[i as int]);
        let glen = groups.len();
        let mut g: usize = 0;
        let mut found = false;
        while !found && g < glen
            invariant
                glen == groups@.len(),
                g <= glen,
                found ==> g < glen && groups@[g as int].0.model() == target.model(),
                forall|h: int| 0 <= h < g ==> (#[trigger] groups@[h]).0.model() != target.model(),
            decreases glen - g + (if found {
                0int
            } else {
                1int
            }),
        {
            if groups[g].0.same_as(&target) {
                found = true;
            } else {
                g = g + 1;
            }
        }
        if found {
            let ghost before = groups@;
            groups[g].1.push((core, w));
            proof {
                assert(ts[g as int] == target.model());
                assert(ts.contains(target.model()));
                assert(targets_in_order(post) == ts);
                assert forall|h: int| 0 <= h < groups@.len() implies (#[trigger] groups@[h]).0.model()
                    == targets_in_order(post)[h] && tagged_models(groups@[h].1@) == writes_for(
                    post,
                    targets_in_order(post)[h],
                ) by {
                    if h == g {
                        assert(tagged_models(groups@[h].1@) =~= tagged_models(before[h].1@).push(
                            entry,
                        ));
                    } else {
                        assert(groups@[h] == before[h]);
                        assert(ts[h] != ts[g as int]);
                    }
                }
            }
        } else {
            let mut v: Vec<(CoreId, PendingWrite)> = Vec::new();
            v.push((core, w));
            let ghost before = groups@;
            groups.push((target, v));
            proof {
                assert(!ts.contains(target.model())) by {
                    if ts.contains(target.model()) {
                        let k = choose|k: int| 0 <= k < ts.len() && ts[k] == target.model();
                        assert(before[k].0.model() == ts[k]);
                    }
                }
                assert(targets_in_order(post) == ts.push(target.model()));
                lemma_writes_for_absent(pre, target.model());
                assert forall|h: int| 0 <= h < groups@.len() implies (#[trigger] groups@[h]).0.model()
                    == targets_in_order(post)[h] && tagged_models(groups@[h].1@) == writes_for(
                    post,
                    targets_in_order(post)[h],
                ) by {
                    if h == glen {
                        assert(tagged_models(groups@[h].1@) =~= seq![entry]);
                        assert(writes_for(post, target.model()) =~= seq![entry]);
                    } else {
                        assert(groups@[h] == before[h]);
                        assert(ts[h] != target.model());
                    }
                }
            }
        }
        i = i + 1;
    }
    assert(m.subrange(0, n as int) =~= m);
    groups
}


/// Whether a core made a write in a prefix one longer.
proof fn lemma_has_core_step(s: Seq<(CoreId, WriteModel)>, j: int, x: CoreId)
    requires
        0 <= j < s.len(),
    ensures
        has_core(s.subrange(0, j + 1), x) <==> (has_core(s.subrange(0, j), x) || s[j].0 == x),
{
    let a = s.subrange(0, j + 1);
    let b = s.subrange(0, j);
    if has_core(a, x) {
        let i = choose|i: int| 0 <= i < a.len() && #[trigger] a[i].0 == x;
        if i < j {
            assert(b[i].0 == x);
        }
    }
    if has_core(b, x) {
        let i = choose|i: int| 0 <= i < b.len() && #[trigger] b[i].0 == x;
        assert(a[i].0 == x);
    }
    if s[j].0 == x {
        assert(a[j].0 == x);
    }
}

/// With the cores of `s` listed, `s` has two distinct cores exactly when two or more are
/// listed.
proof fn lemma_multi_core_listed(cores: Seq<CoreId>, s: Seq<(CoreId, WriteModel)>)
    requires
        lists_cores(cores, s),
    ensures
        multi_core(s) <==> cores.len() >= 2,
{
    if cores.len() >= 2 {
        assert(cores[0].0 < cores[1].0);
        assert(cores.contains(cores[0]));
        assert(cores.contains(cores[1]));
        let i = choose|i: int| 0 <= i < s.len() && #[trigger] s[i].0 == cores[0];
        let j = choose|j: int| 0 <= j < s.len() && #[trigger] s[j].0 == cores[1];
        assert(s[i].0 != s[j].0);
    }
    if multi_core(s) {
        let (i, j) = choose|i: int, j: int|
            0 <= i < s.len() && 0 <= j < s.len() && #[trigger] s[i].0 != #[trigger] s[j].0;
        assert(has_core(s, s[i].0));
        assert(has_core(s, s[j].0));
        assert(cores.contains(s[i].0));
        assert(cores.contains(s[j].0));
        let a = choose|a: int| 0 <= a < cores.len() && cores[a] == s[i].0;
        let b = choose|b: int| 0 <= b < cores.len() && cores[b] == s[j].0;
        assert(a != b);
    }
}

/// The distinct cores of tagged writes, in increasing order.
fn distinct_cores(v: &Vec<(CoreId, PendingWrite)>) -> (r: Vec<CoreId>)
    ensures
        lists_cores(r@, tagged_models(v@)),
{
    let ghost m = tagged_models(v@);
    let mut out: Vec<CoreId> = Vec::new();
    let n = v.len();
    let mut j: usize = 0;
    proof {
        assert forall|c: CoreId| out@.contains(c) <==> has_core(m.subrange(0, 0), c) by {}
    }
    while j < n
        invariant
            n == v@.len(),
            m == tagged_models(v@),
            m.len() == n,
            j <= n,
            lists_cores(out@, m.subrange(0, j as int)),
        decreases n - j,
    {
        let c = v[j].0;
        assert(m[j as int].0 == c);
        let len = out.len();
        let mut p: usize = 0;
        while p < len && out[p].0 < c.0
            invariant
                len == out@.len(),
                p <= len,
                forall|a: int| 0 <= a < p ==> (#[trigger] out@[a]).0 < c.0,
            decreases len - p,
        {
            p = p + 1;
        }
        let ghost old_out = out@;
        if p < len && out[p].0 == c.0 {
            proof {
                assert(old_out[p as int] == c);
                assert(old_out.contains(c));
                assert forall|x: CoreId| out@.contains(x) <==> has_core(m.subrange(0, j + 1), x) by {
                    lemma_has_core_step(m, j as int, x);
                }
            }
        } else {
            out.insert(p, c);
            proof {
                assert forall|a: int, b: int| 0 <= a < b < out@.len() implies (#[trigger] out@[a]).0
                    < (#[trigger] out@[b]).0 by {
                    if b < p {
                        assert(out@[a] == old_out[a] && out@[b] == old_out[b]);
                    } else if b == p {
                        assert(out@[a] == old_out[a]);
                    } else if a < p {
                        assert(out@[a] == old_out[a] && out@[b] == old_out[b - 1]);
                        assert(old_out[p as int].0 >= c.0);
                        if b - 1 > p {
                            assert(old_out[p as int].0 < old_out[b - 1].0);
                        }
                    } else if a == p {
                        assert(out@[b] == old_out[b - 1]);
                        assert(old_out[p as int].0 >= c.0);
                        assert(old_out[p as int].0 != c.0);
                        if b - 1 > p {
                            assert(old_out[p as int].0 < old_out[b - 1].0);
                        }
                    } else {
                        assert(out@[a] == old_out[a - 1] && out@[b] == old_out[b - 1]);
                    }
                }
                assert forall|x: CoreId| out@.contains(x) <==> has_core(m.subrange(0, j + 1), x) by {
                    lemma_has_core_step(m, j as int, x);
                    if out@.contains(x) {
                        let k = choose|k: int| 0 <= k < out@.len() && out@[k] == x;
                        if k < p {
                            assert(old_out[k] == x);
                        } else if k > p {
                            assert(old_out[k - 1] == x);
                        }
                    }
                    if old_out.contains(x) {
                        let k = choose|k: int| 0 <= k < old_out.len() && old_out[k] == x;
                        if k < p {
                            assert(out@[k] == x);
                        } else {
                            assert(out@[k + 1] == x);
                        }
                    }
                    if x == c {
                        assert(out@[p as int] == x);
                    }
                }
            }
        }
        j = j + 1;
    }
    assert(m.subrange(0, n as int) =~= m);
    out
}

/// The conflicts of tagged writes (see [`reports`]).
fn conflicts_of(f: &Vec<(CoreId, PendingWrite)>) -> (r: Vec<Conflict>)
    ensures
        reports(r@, tagged_models(f@)),
{
    let groups = group_writes(f);
    let ghost m = tagged_models(f@);
    let ghost ts = targets_in_order(m);
    let mut out: Vec<Conflict> = Vec::new();
    let n = groups.len();
    let mut g: usize = 0;
    while g < n
        invariant
            n == groups@.len(),
            n == ts.len(),
            m == tagged_models(f@),
            ts == targets_in_order(m),
            forall|h: int|
                0 <= h < n ==> (#[trigger] groups@[h]).0.model() == ts[h] && tagged_models(
                    groups@[h].1@,
                ) == writes_for(m, ts[h]),
            g <= n,
            out@.len() == conflict_targets(ts.subrange(0, g as int), m).len(),
            forall|k: int|
                0 <= k < out@.len() ==> is_conflict_on(
                    #[trigger] out@[k],
                    m,
                    conflict_targets(ts.subrange(0, g as int), m)[k],
                ),
        decreases n - g,
    {
        let ghost prev = conflict_targets(ts.subrange(0, g as int), m);
        proof {
            assert(ts.subrange(0, g + 1).drop_last() =~= ts.subrange(0, g as int));
            assert(ts.subrange(0, g + 1).last() == ts[g as int]);
        }
        let cores = distinct_cores(&groups[g].1);
        proof {
            assert(groups@[g as int].0.model() == ts[g as int]);
            lemma_multi_core_listed(cores@, writes_for(m, ts[g as int]));
        }
        if cores.len() >= 2 {
            let target = groups[g].0.duplicate();
            let writes = duplicate_tagged(&groups[g].1);
            let c = Conflict {
                target,
                conflict_type: ConflictType::WriteWrite,
                cores,
                writes,
                reads: Vec::new(),
            };
            let ghost old_out = out@;
            out.push(c);
            proof {
                assert forall|k: int| 0 <= k < out@.len() implies is_conflict_on(
                    #[trigger] out@[k],
                    m,
                    conflict_targets(ts.subrange(0, g + 1), m)[k],
                ) by {
                    if k < old_out.len() {
                        assert(out@[k] == old_out[k]);
                    }
                }
            }
        }
        g = g + 1;
    }
    assert(ts.subrange(0, n as int) =~= ts);
    out
}

/// The result of conflict detection.
#[derive(Debug)]
pub struct ConflictReport {
    /// All detected conflicts.
    pub conflicts: Vec<Conflict>,
}

/// The display text of a report: `1 conflict` or `<n> conflicts`.
pub open spec fn report_text(n: nat) -> Seq<char> {
    if n == 1 {
        "1 conflict"@
    } else {
        decimal(n) + " conflicts"@
    }
}

impl ConflictReport {
    /// An empty report.
    pub fn new() -> (r: Self)
        ensures
            r.conflicts@.len() == 0,
    {
        ConflictReport { conflicts: Vec::new() }
    }

    /// Whether any conflict was found.
    pub fn has_conflicts(&self) -> (r: bool)
        ensures
            r == (self.conflicts@.len() > 0),
    {
        self.conflicts.len() > 0
    }

    /// Number of conflicts.
    pub fn len(&self) -> (r: usize)
        ensures
            r == self.conflicts@.len(),
    {
        self.conflicts.len()
    }

    /// Whether no conflict was found.
    pub fn is_empty(&self) -> (r: bool)
        ensures
            r == (self.conflicts@.len() == 0),
    {
        self.conflicts.len() == 0
    }

    /// The conflicts, in order.
    pub fn iter(&self) -> (r: &[Conflict])
        ensures
            r@ == self.conflicts@,
    {
        self.conflicts.as_slice()
    }

    /// The display text: `1 conflict` or `<n> conflicts`.
    pub fn to_text(&self) -> (r: String)
        ensures
            r@ == report_text(self.conflicts@.len()),
    {
        let n = self.conflicts.len();
        if n == 1 {
            String::from_str("1 conflict")
        } else {
            let mut s = String::new();
            push_decimal(&mut s, n as u64);
            s.append(" conflicts");
            s
        }
    }
}

/// Detect write-write conflicts between the write sets of cores: one conflict for each
/// target written by two or more distinct cores, in the order of the targets' first writes.
pub fn detect_conflicts(write_sets: &[(CoreId, WriteSet)]) -> (r: ConflictReport)
    ensures
        reports(r.conflicts@, flat_writes(write_sets@)),
{
    let f = collect_writes(write_sets);
    ConflictReport { conflicts: conflicts_of(&f) }
}


/// The elements of `s` whose flag in `d` is set, in order (`d` as long as `s`).
pub open spec fn select(s: Seq<(CoreId, WriteModel)>, d: Seq<bool>) -> Seq<(CoreId, WriteModel)>
    decreases s.len(),
{
    if s.len() == 0 || d.len() == 0 {
        Seq::empty()
    } else {
        let prev = select(s.drop_last(), d.drop_last());
        if d.last() {
            prev.push(s.last())
        } else {
            prev
        }
    }
}

/// `d` holds, for each write of `f`, what `filter` answered when handed `ts` at the same
/// position, the write's target.
pub open spec fn filter_decides<F: Fn(&ConflictTarget) -> bool>(
    filter: F,
    f: Seq<(CoreId, WriteModel)>,
    d: Seq<bool>,
    ts: Seq<ConflictTarget>,
) -> bool {
    &&& d.len() == f.len()
    &&& ts.len() == f.len()
    &&& forall|i: int|
        0 <= i < f.len() ==> call_ensures(filter, (&ts[i],), d[i]) && (#[trigger] ts[i]).model()
            == target_of(f[i].1)
}

/// Detect conflicts among the writes whose targets `filter` keeps (see
/// [`default_conflict_filter`], which drops spawns).
pub fn detect_conflicts_filtered<F: Fn(&ConflictTarget) -> bool>(
    write_sets: &[(CoreId, WriteSet)],
    filter: F,
) -> (r: ConflictReport)
    requires
        forall|t: &ConflictTarget| call_requires(filter, (t,)),
    ensures
        exists|d: Seq<bool>, ts: Seq<ConflictTarget>|
            filter_decides(filter, flat_writes(write_sets@), d, ts) && reports(
                r.conflicts@,
                select(flat_writes(write_sets@), d),
            ),
{
    let f = collect_writes(write_sets);
    let ghost m = tagged_models(f@);
    let mut kept: Vec<(CoreId, PendingWrite)> = Vec::new();
    let ghost mut d: Seq<bool> = Seq::empty();
    let ghost mut seen: Seq<ConflictTarget> = Seq::empty();
    let n = f.len();
    let mut i: usize = 0;
    while i < n
        invariant
            n == f@.len(),
            m == tagged_models(f@),
            m.len() == n,
            forall|t: &ConflictTarget| call_requires(filter, (t,)),
            i <= n,
            d.len() == i,
            seen.len() == i,
            forall|k: int|
                0 <= k < i ==> call_ensures(filter, (&seen[k],), d[k]) && (#[trigger] seen[k]).model()
                    == target_of(m[k].1),
            tagged_models(kept@) == select(m.subrange(0, i as int), d),
        decreases n - i,
    {
        let target = ConflictTarget::from_pending_write(&f[i].1);
        let keep = filter(&target);
        let ghost old_kept = kept@;
        if keep {
            let c = f[i].0;
            let w = f[i].1.duplicate();
            kept.push((c, w));
            proof {
                lemma_tagged_push(old_kept, (c, w));
            }
        }
        proof {
            assert(m[i as int] == (f@[i as int].0, write_model(&f@[i as int].1)));
            assert(m.subrange(0, i + 1).drop_last() =~= m.subrange(0, i as int));
            assert(d.push(keep).drop_last() =~= d);
            d = d.push(keep);
            seen = seen.push(target);
        }
        i = i + 1;
    }
    assert(m.subrange(0, n as int) =~= m);
    let r = ConflictReport { conflicts: conflicts_of(&kept) };
    proof {
        assert(filter_decides(filter, flat_writes(write_sets@), d, seen));
        assert(reports(r.conflicts@, select(flat_writes(write_sets@), d)));
    }
    r
}


// ---------------------------------------------------------------------------
// Resolution
// ---------------------------------------------------------------------------

/// How write-write conflicts are resolved.
#[derive(Debug, Clone, Copy, PartialEq, Eq, Structural)]
pub enum ResolutionStrategy {
    /// Fail with the conflict report.
    Abort,
    /// Take the last write of the core with the highest ID.
    LastWriteWins,
    /// Take the first write of the core with the lowest ID.
    FirstWriteWins,
    /// Sum the operands when all writes add (or all subtract), attributed to the lowest
    /// core; otherwise take the first write of the lowest core.
    Merge,
}

impl Default for ResolutionStrategy {
    fn default() -> (r: Self)
        ensures
            r == ResolutionStrategy::Abort,
    {
        ResolutionStrategy::Abort
    }
}

/// How one conflict was resolved.
#[derive(Debug)]
pub struct ResolvedConflict {
    /// The target that had a conflict.
    pub target: ConflictTarget,
    /// The kind of conflict.
    pub conflict_type: ConflictType,
    /// The cores involved, in increasing order.
    pub cores: Vec<CoreId>,
    /// The write that was kept, with the core it is attributed to.
    pub resolved_write: Option<(CoreId, PendingWrite)>,
}

/// The model of an optional tagged write.
pub open spec fn tagged_model(p: Option<(CoreId, PendingWrite)>) -> Option<(CoreId, WriteModel)> {
    match p {
        Some(x) => Some((x.0, write_model(&x.1))),
        None => None,
    }
}

/// The outcome of resolving conflicts.
#[derive(Debug)]
pub struct ResolutionResult {
    /// All writes that were not in conflict, in order, then the kept write of each conflict.
    pub write_set: WriteSet,
    /// Number of conflicts resolved.
    pub conflicts_resolved: usize,
    /// How each conflict was resolved, in the order of the conflicts.
    pub resolutions: Vec<ResolvedConflict>,
}

impl ResolutionResult {
    /// A result with a write set and no resolutions.
    pub fn new(write_set: WriteSet) -> (r: Self)
        ensures
            r.write_set@ == write_set@,
            r.conflicts_resolved == 0,
            r.resolutions@.len() == 0,
    {
        ResolutionResult { write_set, conflicts_resolved: 0, resolutions: Vec::new() }
    }

    /// Record one resolution.
    pub fn add_resolution(&mut self, resolution: ResolvedConflict)
        requires
            old(self).conflicts_resolved < usize::MAX,
        ensures
            final(self).write_set@ == old(self).write_set@,
            final(self).conflicts_resolved == old(self).conflicts_resolved + 1,
            final(self).resolutions@ == old(self).resolutions@.push(resolution),
    {
        self.conflicts_resolved = self.conflicts_resolved + 1;
        self.resolutions.push(resolution);
    }
}

/// Index of the first write of the lowest core in `s`.
pub open spec fn first_lowest(s: Seq<(CoreId, WriteModel)>) -> int
    decreases s.len(),
{
    if s.len() <= 1 {
        0
    } else {
        let p = first_lowest(s.drop_last());
        if s.last().0.0 < s[p].0.0 {
            s.len() - 1
        } else {
            p
        }
    }
}

/// Index of the last write of the highest core in `s`.
pub open spec fn last_highest(s: Seq<(CoreId, WriteModel)>) -> int
    decreases s.len(),
{
    if s.len() <= 1 {
        0
    } else {
        let p = last_highest(s.drop_last());
        if s.last().0.0 >= s[p].0.0 {
            s.len() - 1
        } else {
            p
        }
    }
}

/// `w` modifies a number with operation `op`.
pub open spec fn is_modify_with(w: WriteModel, op: ModifyOp) -> bool {
    match w {
        WriteModel::ModifyProperty { op: o, .. } => o == op,
        WriteModel::ModifyGlobal { op: o, .. } => o == op,
        _ => false,
    }
}

/// Every write in `s` modifies a number with operation `op`.
pub open spec fn all_modify_with(s: Seq<(CoreId, WriteModel)>, op: ModifyOp) -> bool {
    forall|i: int| 0 <= i < s.len() ==> is_modify_with(#[trigger] s[i].1, op)
}

/// The operand of a numeric modification (0 for other writes).
pub open spec fn amount_of(w: WriteModel) -> u64 {
    match w {
        WriteModel::ModifyProperty { amount, .. } => amount,
        WriteModel::ModifyGlobal { amount, .. } => amount,
        _ => 0,
    }
}

/// The operands of the writes in `s`.
pub open spec fn amounts(s: Seq<(CoreId, WriteModel)>) -> Seq<u64> {
    s.map_values(|e: (CoreId, WriteModel)| amount_of(e.1))
}

/// `p` holds running sums of the numbers `a` under `plus`: the first number, then each
/// sum so far added to the next number.
pub open spec fn partial_sums<F: Fn(u64, u64) -> u64>(plus: F, a: Seq<u64>, p: Seq<u64>) -> bool {
    &&& a.len() > 0
    &&& p.len() == a.len()
    &&& p[0] == a[0]
    &&& forall|i: int| 1 <= i < a.len() ==> call_ensures(plus, (p[i - 1], a[i]), #[trigger] p[i])
}

/// `total` is a result of adding the numbers `a` in order with `plus`, starting from the
/// first.
pub open spec fn sums_to<F: Fn(u64, u64) -> u64>(plus: F, a: Seq<u64>, total: u64) -> bool {
    exists|p: Seq<u64>| #[trigger] partial_sums(plus, a, p) && p.last() == total
}

/// The modification of `first`'s target with operation `op` and operand `total`.
pub open spec fn merged_write(first: WriteModel, op: ModifyOp, total: u64) -> WriteModel {
    match first {
        WriteModel::ModifyProperty { entity_id, key, .. } => WriteModel::ModifyProperty {
            entity_id,
            key,
            op,
            amount: total,
        },
        WriteModel::ModifyGlobal { key, .. } => WriteModel::ModifyGlobal { key, op, amount: total },
        other => other,
    }
}

/// `pick` merges the writes `s` with operation `op`, attributed to the lowest core.
pub open spec fn merged_pick<F: Fn(u64, u64) -> u64>(
    plus: F,
    s: Seq<(CoreId, WriteModel)>,
    cores: Seq<CoreId>,
    op: ModifyOp,
    pick: Option<(CoreId, WriteModel)>,
) -> bool {
    &&& pick is Some
    &&& pick.unwrap().0 == cores[0]
    &&& pick.unwrap().1 == merged_write(s[0].1, op, amount_of(pick.unwrap().1))
    &&& sums_to(plus, amounts(s), amount_of(pick.unwrap().1))
}

/// `pick` is what `strategy` keeps of the conflicting writes `s` among `cores`.
pub open spec fn picks<F: Fn(u64, u64) -> u64>(
    strategy: ResolutionStrategy,
    plus: F,
    s: Seq<(CoreId, WriteModel)>,
    cores: Seq<CoreId>,
    pick: Option<(CoreId, WriteModel)>,
) -> bool {
    match strategy {
        ResolutionStrategy::FirstWriteWins => pick == Some(s[first_lowest(s)]),
        ResolutionStrategy::LastWriteWins => pick == Some(s[last_highest(s)]),
        ResolutionStrategy::Merge => if all_modify_with(s, ModifyOp::Add) {
            merged_pick(plus, s, cores, ModifyOp::Add, pick)
        } else if all_modify_with(s, ModifyOp::Sub) {
            merged_pick(plus, s, cores, ModifyOp::Sub, pick)
        } else {
            pick == Some(s[first_lowest(s)])
        },
        ResolutionStrategy::Abort => false,
    }
}

/// The writes of `f` whose targets are not among `ts`, in order.
pub open spec fn unconflicted(f: Seq<(CoreId, WriteModel)>, ts: Seq<TargetModel>) -> Seq<WriteModel>
    decreases f.len(),
{
    if f.len() == 0 {
        Seq::empty()
    } else {
        let prev = unconflicted(f.drop_last(), ts);
        if ts.contains(target_of(f.last().1)) {
            prev
        } else {
            prev.push(f.last().1)
        }
    }
}

/// The kept writes of the resolutions, in order.
pub open spec fn picked_writes(rs: Seq<ResolvedConflict>) -> Seq<WriteModel>
    decreases rs.len(),
{
    if rs.len() == 0 {
        Seq::empty()
    } else {
        let prev = picked_writes(rs.drop_last());
        match rs.last().resolved_write {
            Some(x) => prev.push(write_model(&x.1)),
            None => prev,
        }
    }
}

/// `rc` resolves the conflict on target `t` of the writes `f` with `strategy`.
pub open spec fn resolved_as<F: Fn(u64, u64) -> u64>(
    rc: ResolvedConflict,
    strategy: ResolutionStrategy,
    plus: F,
    f: Seq<(CoreId, WriteModel)>,
    t: TargetModel,
) -> bool {
    &&& rc.target.model() == t
    &&& rc.conflict_type == ConflictType::WriteWrite
    &&& lists_cores(rc.cores@, writes_for(f, t))
    &&& picks(strategy, plus, writes_for(f, t), rc.cores@, tagged_model(rc.resolved_write))
}

/// `res` resolves the conflicts of the writes `f` with `strategy`: the unconflicted writes
/// in order, then the kept write of each conflict in the order of the conflicts.
pub open spec fn resolves<F: Fn(u64, u64) -> u64>(
    strategy: ResolutionStrategy,
    plus: F,
    f: Seq<(CoreId, WriteModel)>,
    res: ResolutionResult,
) -> bool {
    let ts = conflict_targets(targets_in_order(f), f);
    &&& res.write_set@ == unconflicted(f, ts) + picked_writes(res.resolutions@)
    &&& res.conflicts_resolved == ts.len()
    &&& res.resolutions@.len() == ts.len()
    &&& forall|k: int|
        0 <= k < ts.len() ==> resolved_as(#[trigger] res.resolutions@[k], strategy, plus, f, ts[k])
}

/// Every target listed as conflicting was written by two or more distinct cores.
pub proof fn lemma_conflict_targets_multi(ts: Seq<TargetModel>, f: Seq<(CoreId, WriteModel)>, k: int)
    requires
        0 <= k < conflict_targets(ts, f).len(),
    ensures
        multi_core(writes_for(f, conflict_targets(ts, f)[k])),
        ts.contains(conflict_targets(ts, f)[k]),
    decreases ts.len(),
{
    if ts.len() > 0 {
        let prev = conflict_targets(ts.drop_last(), f);
        if k < prev.len() {
            lemma_conflict_targets_multi(ts.drop_last(), f, k);
            let j = choose|j: int| 0 <= j < ts.drop_last().len() && ts.drop_last()[j] == prev[k];
            assert(ts[j] == prev[k]);
        } else {
            assert(ts[ts.len() - 1] == ts.last());
        }
    }
}

/// Every target of `ts` written by two or more cores is listed as conflicting.
pub proof fn lemma_conflict_targets_complete(ts: Seq<TargetModel>, f: Seq<(CoreId, WriteModel)>, t: TargetModel)
    requires
        ts.contains(t),
        multi_core(writes_for(f, t)),
    ensures
        conflict_targets(ts, f).contains(t),
    decreases ts.len(),
{
    let prev = conflict_targets(ts.drop_last(), f);
    if ts.last() == t {
        assert(prev.push(t)[prev.len() as int] == t);
    } else {
        let j = choose|j: int| 0 <= j < ts.len() && ts[j] == t;
        assert(ts.drop_last()[j] == t);
        lemma_conflict_targets_complete(ts.drop_last(), f, t);
        if multi_core(writes_for(f, ts.last())) {
            let k = choose|k: int| 0 <= k < prev.len() && prev[k] == t;
            assert(prev.push(ts.last())[k] == t);
        }
    }
}

/// The operand of a numeric modification (0 for other writes).
fn amount(w: &PendingWrite) -> (r: u64)
    ensures
        r == amount_of(write_model(w)),
{
    match w {
        PendingWrite::ModifyProperty { value, .. } => *value,
        PendingWrite::ModifyGlobal { value, .. } => *value,
        _ => 0,
    }
}

/// Whether every write modifies a number with `op`.
fn all_modify(v: &Vec<(CoreId, PendingWrite)>, op: ModifyOp) -> (r: bool)
    ensures
        r == all_modify_with(tagged_models(v@), op),
{
    let ghost m = tagged_models(v@);
    let n = v.len();
    let mut i: usize = 0;
    while i < n
        invariant
            n == v@.len(),
            m == tagged_models(v@),
            i <= n,
            forall|k: int| 0 <= k < i ==> is_modify_with(#[trigger] m[k].1, op),
        decreases n - i,
    {
        let ok = match &v[i].1 {
            PendingWrite::ModifyProperty { op: o, .. } => *o == op,
            PendingWrite::ModifyGlobal { op: o, .. } => *o == op,
            _ => false,
        };
        assert(m[i as int].1 == write_model(&v@[i as int].1));
        if !ok {
            return false;
        }
        i = i + 1;
    }
    true
}

/// The first write of the lowest core.
fn pick_first_lowest(v: &Vec<(CoreId, PendingWrite)>) -> (r: (CoreId, PendingWrite))
    requires
        v@.len() > 0,
    ensures
        (r.0, write_model(&r.1)) == tagged_models(v@)[first_lowest(tagged_models(v@))],
{
    let ghost m = tagged_models(v@);
    let n = v.len();
    let mut best: usize = 0;
    let mut i: usize = 1;
    while i < n
        invariant
            n == v@.len(),
            m == tagged_models(v@),
            1 <= i <= n,
            best < i,
            best == first_lowest(m.subrange(0, i as int)),
        decreases n - i,
    {
        proof {
            let s = m.subrange(0, i + 1);
            assert(s.drop_last() =~= m.subrange(0, i as int));
            assert(s[best as int] == m[best as int]);
            assert(s.last() == m[i as int]);
        }
        if v[i].0.0 < v[best].0.0 {
            best = i;
        }
        i = i + 1;
    }
    assert(m.subrange(0, n as int) =~= m);
    (v[best].0, v[best].1.duplicate())
}

/// The last write of the highest core.
fn pick_last_highest(v: &Vec<(CoreId, PendingWrite)>) -> (r: (CoreId, PendingWrite))
    requires
        v@.len() > 0,
    ensures
        (r.0, write_model(&r.1)) == tagged_models(v@)[last_highest(tagged_models(v@))],
{
    let ghost m = tagged_models(v@);
    let n = v.len();
    let mut best: usize = 0;
    let mut i: usize = 1;
    while i < n
        invariant
            n == v@.len(),
            m == tagged_models(v@),
            1 <= i <= n,
            best < i,
            best == last_highest(m.subrange(0, i as int)),
        decreases n - i,
    {
        proof {
            let s = m.subrange(0, i + 1);
            assert(s.drop_last() =~= m.subrange(0, i as int));
            assert(s[best as int] == m[best as int]);
            assert(s.last() == m[i as int]);
        }
        if v[i].0.0 >= v[best].0.0 {
            best = i;
        }
        i = i + 1;
    }
    assert(m.subrange(0, n as int) =~= m);
    (v[best].0, v[best].1.duplicate())
}

/// The writes merged into one with operation `op`, attributed to `core`.
fn merge_writes<F: Fn(u64, u64) -> u64>(
    v: &Vec<(CoreId, PendingWrite)>,
    op: ModifyOp,
    core: CoreId,
    plus: &F,
) -> (r: (CoreId, PendingWrite))
    requires
        v@.len() > 0,
        all_modify_with(tagged_models(v@), op),
        forall|a: u64, b: u64| call_requires(*plus, (a, b)),
    ensures
        r.0 == core,
        write_model(&r.1) == merged_write(tagged_models(v@)[0].1, op, amount_of(write_model(&r.1))),
        sums_to(*plus, amounts(tagged_models(v@)), amount_of(write_model(&r.1))),
{
    let ghost m = tagged_models(v@);
    let ghost a = amounts(m);
    let n = v.len();
    let mut total = amount(&v[0].1);
    let ghost mut p: Seq<u64> = seq![total];
    proof {
        assert(m[0].1 == write_model(&v@[0].1));
    }
    let mut i: usize = 1;
    while i < n
        invariant
            n == v@.len(),
            m == tagged_models(v@),
            a == amounts(m),
            a.len() == n,
            forall|x: u64, y: u64| call_requires(*plus, (x, y)),
            1 <= i <= n,
            p.len() == i,
            p[0] == a[0],
            p.last() == total,
            forall|j: int| 1 <= j < i ==> call_ensures(*plus, (p[j - 1], a[j]), #[trigger] p[j]),
        decreases n - i,
    {
        let x = amount(&v[i].1);
        proof {
            assert(m[i as int].1 == write_model(&v@[i as int].1));
            assert(a[i as int] == x);
        }
        let ghost mid = total;
        total = plus(total, x);
        proof {
            let p2 = p.push(total);
            assert forall|j: int| 1 <= j < i + 1 implies call_ensures(*plus, (p2[j - 1], a[j]), #[trigger] p2[j]) by {
                if j < i {
                    assert(p2[j] == p[j] && p2[j - 1] == p[j - 1]);
                } else {
                    assert(p2[j - 1] == mid);
                }
            }
            p = p2;
        }
        i = i + 1;
    }
    proof {
        assert(partial_sums(*plus, a, p));
    }
    assert(a.subrange(0, n as int) =~= a);
    proof {
        assert(m[0].1 == write_model(&v@[0].1));
        assert(is_modify_with(m[0].1, op));
    }
    let w = match &v[0].1 {
        PendingWrite::ModifyProperty { entity_id, key, .. } => PendingWrite::ModifyProperty {
            entity_id: *entity_id,
            key: key.clone(),
            op,
            value: total,
        },
        PendingWrite::ModifyGlobal { key, .. } => PendingWrite::ModifyGlobal {
            key: key.clone(),
            op,
            value: total,
        },
        _ => {
            proof {
                assert(false);
            }
            v[0].1.duplicate()
        },
    };
    (core, w)
}

/// What `strategy` keeps of a conflict (never called with `Abort`).
fn pick_write<F: Fn(u64, u64) -> u64>(
    strategy: ResolutionStrategy,
    conflict: &Conflict,
    plus: &F,
) -> (r: Option<(CoreId, PendingWrite)>)
    requires
        strategy != ResolutionStrategy::Abort,
        conflict.writes@.len() > 0,
        conflict.cores@.len() > 0,
        forall|a: u64, b: u64| call_requires(*plus, (a, b)),
    ensures
        picks(strategy, *plus, tagged_models(conflict.writes@), conflict.cores@, tagged_model(r)),
{
    match strategy {
        ResolutionStrategy::FirstWriteWins => Some(pick_first_lowest(&conflict.writes)),
        ResolutionStrategy::LastWriteWins => Some(pick_last_highest(&conflict.writes)),
        ResolutionStrategy::Merge => {
            if all_modify(&conflict.writes, ModifyOp::Add) {
                Some(merge_writes(&conflict.writes, ModifyOp::Add, conflict.cores[0], plus))
            } else if all_modify(&conflict.writes, ModifyOp::Sub) {
                Some(merge_writes(&conflict.writes, ModifyOp::Sub, conflict.cores[0], plus))
            } else {
                Some(pick_first_lowest(&conflict.writes))
            }
        },
        ResolutionStrategy::Abort => None,
    }
}

/// A copy of core IDs.
fn copy_cores(v: &Vec<CoreId>) -> (r: Vec<CoreId>)
    ensures
        r@ == v@,
{
    let mut out: Vec<CoreId> = Vec::new();
    let n = v.len();
    let mut i: usize = 0;
    while i < n
        invariant
            n == v@.len(),
            i <= n,
            out@ == v@.subrange(0, i as int),
        decreases n - i,
    {
        out.push(v[i]);
        assert(out@ =~= v@.subrange(0, i + 1));
        i = i + 1;
    }
    assert(v@.subrange(0, n as int) =~= v@);
    out
}

/// Whether one of the conflicts is on target `t`.
fn is_conflicted(conflicts: &Vec<Conflict>, t: &ConflictTarget) -> (r: bool)
    ensures
        r == exists|k: int| 0 <= k < conflicts@.len() && (#[trigger] conflicts@[k]).target.model() == t.model(),
{
    let n = conflicts.len();
    let mut k: usize = 0;
    while k < n
        invariant
            n == conflicts@.len(),
            k <= n,
            forall|j: int| 0 <= j < k ==> (#[trigger] conflicts@[j]).target.model() != t.model(),
        decreases n - k,
    {
        if conflicts[k].target.same_as(t) {
            return true;
        }
        k = k + 1;
    }
    false
}

/// The writes of `f` whose targets are not in conflict, in order.
fn keep_unconflicted(f: &Vec<(CoreId, PendingWrite)>, conflicts: &Vec<Conflict>) -> (ws: WriteSet)
    requires
        reports(conflicts@, tagged_models(f@)),
    ensures
        ws@ == unconflicted(
            tagged_models(f@),
            conflict_targets(targets_in_order(tagged_models(f@)), tagged_models(f@)),
        ),
{
    let ghost m = tagged_models(f@);
    let ghost ts = conflict_targets(targets_in_order(m), m);
    let mut ws = WriteSet::new();
    let n = f.len();
    let mut i: usize = 0;
    while i < n
        invariant
            n == f@.len(),
            m == tagged_models(f@),
            m.len() == n,
            reports(conflicts@, m),
            ts == conflict_targets(targets_in_order(m), m),
            i <= n,
            ws@ == unconflicted(m.subrange(0, i as int), ts),
        decreases n - i,
    {
        let t = ConflictTarget::from_pending_write(&f[i].1);
        let hit = is_conflicted(&conflicts, &t);
        proof {
            let s = m.subrange(0, i + 1);
            assert(s.drop_last() =~= m.subrange(0, i as int));
            assert(s.last() == m[i as int]);
            assert(m[i as int].1 == write_model(&f@[i as int].1));
            if hit {
                let k = choose|k: int| 0 <= k < conflicts@.len() && (#[trigger] conflicts@[k]).target.model() == t.model();
                assert(is_conflict_on(conflicts@[k], m, ts[k]));
                assert(ts[k] == t.model());
            } else {
                assert(!ts.contains(t.model())) by {
                    if ts.contains(t.model()) {
                        let k = choose|k: int| 0 <= k < ts.len() && ts[k] == t.model();
                        assert(is_conflict_on(conflicts@[k], m, ts[k]));
                    }
                }
            }
        }
        if !hit {
            ws.push(f[i].1.duplicate());
        }
        i = i + 1;
    }
    assert(m.subrange(0, n as int) =~= m);
    ws
}

/// Detect the conflicts between the write sets of cores and resolve them with `strategy`.
/// With no conflicts the result is all writes in order. With conflicts, `Abort` fails
/// with the conflict report; the other strategies keep the unconflicted writes in order,
/// then one write for each conflict. `plus` adds two numbers given by their bits, for
/// merging.
pub fn resolve_conflicts<F: Fn(u64, u64) -> u64>(
    write_sets: &[(CoreId, WriteSet)],
    strategy: &ResolutionStrategy,
    plus: &F,
) -> (r: Result<ResolutionResult, crate::hub_error::Error>)
    requires
        forall|a: u64, b: u64| call_requires(*plus, (a, b)),
    ensures
        ({
            let f = flat_writes(write_sets@);
            let ts = conflict_targets(targets_in_order(f), f);
            &&& (ts.len() > 0 && *strategy == ResolutionStrategy::Abort) ==> (r matches Err(
                crate::hub_error::Error::UnresolvedConflicts { count, report },
            ) && count == ts.len() && reports(report.conflicts@, f))
            &&& !(ts.len() > 0 && *strategy == ResolutionStrategy::Abort) ==> (r matches Ok(res)
                && resolves(*strategy, *plus, f, res))
        }),
{
    let f = collect_writes(write_sets);
    let ghost m = tagged_models(f@);
    let ghost ts = conflict_targets(targets_in_order(m), m);
    let conflicts = conflicts_of(&f);
    if conflicts.len() > 0 && *strategy == ResolutionStrategy::Abort {
        return Err(crate::hub_error::Error::unresolved_conflicts(ConflictReport { conflicts }));
    }
    let ws = keep_unconflicted(&f, &conflicts);
    let mut result = ResolutionResult::new(ws);
    let cn = conflicts.len();
    let mut k: usize = 0;
    while k < cn
        invariant
            cn == conflicts@.len(),
            cn == ts.len(),
            m == tagged_models(f@),
            reports(conflicts@, m),
            ts == conflict_targets(targets_in_order(m), m),
            cn > 0 ==> *strategy != ResolutionStrategy::Abort,
            forall|a: u64, b: u64| call_requires(*plus, (a, b)),
            k <= cn,
            result.write_set@ == unconflicted(m, ts) + picked_writes(result.resolutions@),
            result.conflicts_resolved == k,
            result.resolutions@.len() == k,
            forall|j: int|
                0 <= j < k ==> resolved_as(#[trigger] result.resolutions@[j], *strategy, *plus, m, ts[j]),
        decreases cn - k,
    {
        let c = &conflicts[k];
        proof {
            assert(is_conflict_on(conflicts@[k as int], m, ts[k as int]));
            lemma_conflict_targets_multi(targets_in_order(m), m, k as int);
            lemma_multi_core_listed(c.cores@, writes_for(m, ts[k as int]));
            let (a, b) = choose|a: int, b: int|
                0 <= a < writes_for(m, ts[k as int]).len() && 0 <= b < writes_for(m, ts[k as int]).len()
                    && #[trigger] writes_for(m, ts[k as int])[a].0 != #[trigger] writes_for(m, ts[k as int])[b].0;
            assert(tagged_models(c.writes@).len() == c.writes@.len());
        }
        let pick = pick_write(*strategy, c, plus);
        let ghost old_res = result.resolutions@;
        match &pick {
            Some(p) => {
                result.write_set.push(p.1.duplicate());
            },
            None => {},
        }
        let rc = ResolvedConflict {
            target: c.target.duplicate(),
            conflict_type: c.conflict_type,
            cores: copy_cores(&c.cores),
            resolved_write: pick,
        };
        result.add_resolution(rc);
        proof {
            assert(result.resolutions@.drop_last() =~= old_res);
            assert forall|j: int| 0 <= j < k + 1 implies resolved_as(
                #[trigger] result.resolutions@[j],
                *strategy,
                *plus,
                m,
                ts[j],
            ) by {
                if j < k {
                    assert(result.resolutions@[j] == old_res[j]);
                }
            }
        }
        k = k + 1;
    }
    Ok(result)
}


// ---------------------------------------------------------------------------
// Counting spawns through resolution
// ---------------------------------------------------------------------------

/// The writes of `f` without their cores.
pub open spec fn untagged(f: Seq<(CoreId, WriteModel)>) -> Seq<WriteModel> {
    f.map_values(|e: (CoreId, WriteModel)| e.1)
}

/// Number of spawn targets among `ts` that occur in `seen`.
pub open spec fn spawn_targets_in(ts: Seq<TargetModel>, seen: Seq<TargetModel>) -> nat
    decreases ts.len(),
{
    if ts.len() == 0 {
        0
    } else {
        spawn_targets_in(ts.drop_last(), seen) + if ts.last() is SpawnEntity && seen.contains(
            ts.last(),
        ) {
            1nat
        } else {
            0nat
        }
    }
}

/// Number of spawn targets among `ts`.
pub open spec fn spawn_targets(ts: Seq<TargetModel>) -> nat
    decreases ts.len(),
{
    if ts.len() == 0 {
        0
    } else {
        spawn_targets(ts.drop_last()) + if ts.last() is SpawnEntity {
            1nat
        } else {
            0nat
        }
    }
}

/// Seeing one more target adds one to the count exactly when it is a new spawn target of
/// `ts`.
proof fn lemma_spawn_targets_in_push(ts: Seq<TargetModel>, seen: Seq<TargetModel>, x: TargetModel)
    requires
        ts.no_duplicates(),
    ensures
        spawn_targets_in(ts, seen.push(x)) == spawn_targets_in(ts, seen) + if x is SpawnEntity
            && ts.contains(x) && !seen.contains(x) {
            1nat
        } else {
            0nat
        },
    decreases ts.len(),
{
    if ts.len() > 0 {
        let init = ts.drop_last();
        assert(init.no_duplicates()) by {
            assert forall|i: int, j: int| 0 <= i < init.len() && 0 <= j < init.len() && i != j implies init[i]
                != init[j] by {
                assert(ts[i] == init[i] && ts[j] == init[j]);
            }
        }
        lemma_spawn_targets_in_push(init, seen, x);
        let y = ts.last();
        assert(seen.push(x).contains(y) <==> (seen.contains(y) || y == x)) by {
            if seen.push(x).contains(y) {
                let k = choose|k: int| 0 <= k < seen.push(x).len() && seen.push(x)[k] == y;
                if k < seen.len() {
                    assert(seen[k] == y);
                }
            }
            if seen.contains(y) {
                let k = choose|k: int| 0 <= k < seen.len() && seen[k] == y;
                assert(seen.push(x)[k] == y);
            }
            if y == x {
                assert(seen.push(x)[seen.len() as int] == y);
            }
        }
        assert(ts.contains(x) <==> (init.contains(x) || y == x)) by {
            if ts.contains(x) {
                let k = choose|k: int| 0 <= k < ts.len() && ts[k] == x;
                if k < init.len() {
                    assert(init[k] == x);
                }
            }
            if init.contains(x) {
                let k = choose|k: int| 0 <= k < init.len() && init[k] == x;
                assert(ts[k] == x);
            }
        }
        if y == x {
            assert(!init.contains(x)) by {
                if init.contains(x) {
                    let k = choose|k: int| 0 <= k < init.len() && init[k] == x;
                    assert(ts[k] == ts[ts.len() - 1]);
                }
            }
        }
    }
}

/// When every target of `ts` was seen, the count is that of all spawn targets of `ts`.
proof fn lemma_spawn_targets_all_seen(ts: Seq<TargetModel>, seen: Seq<TargetModel>)
    requires
        forall|k: int| 0 <= k < ts.len() ==> seen.contains(#[trigger] ts[k]),
    ensures
        spawn_targets_in(ts, seen) == spawn_targets(ts),
    decreases ts.len(),
{
    if ts.len() > 0 {
        let init = ts.drop_last();
        assert forall|k: int| 0 <= k < init.len() implies seen.contains(#[trigger] init[k]) by {
            assert(init[k] == ts[k]);
        }
        lemma_spawn_targets_all_seen(init, seen);
        assert(seen.contains(ts[ts.len() - 1]));
    }
}

/// Writes whose targets are among `ts` are not kept, and each target of `ts` costs at least
/// one write of `f`: the kept spawns and the spawn targets seen so far together are at most
/// the spawns of `f`.
proof fn lemma_unconflicted_spawns(f: Seq<(CoreId, WriteModel)>, ts: Seq<TargetModel>)
    requires
        ts.no_duplicates(),
    ensures
        spawn_count(unconflicted(f, ts)) + spawn_targets_in(ts, targets_in_order(f)) <= spawn_count(untagged(f)),
    decreases f.len(),
{
    if f.len() == 0 {
        assert(targets_in_order(f) =~= Seq::<TargetModel>::empty());
        lemma_spawn_targets_none(ts);
    } else {
        let init = f.drop_last();
        lemma_unconflicted_spawns(init, ts);
        assert(untagged(f).drop_last() =~= untagged(init));
        assert(untagged(f).last() == f.last().1);
        let t = target_of(f.last().1);
        let prev = targets_in_order(init);
        if !prev.contains(t) {
            lemma_spawn_targets_in_push(ts, prev, t);
        }
        assert((f.last().1 is SpawnEntity) <==> (t is SpawnEntity));
        let u0 = unconflicted(init, ts);
        if !ts.contains(t) {
            assert(u0.push(f.last().1).drop_last() =~= u0);
            assert(spawn_count(u0.push(f.last().1)) == spawn_count(u0) + if f.last().1 is SpawnEntity {
                1nat
            } else {
                0nat
            });
        }
        assert(spawn_count(untagged(f)) == spawn_count(untagged(init)) + if f.last().1 is SpawnEntity {
            1nat
        } else {
            0nat
        });
    }
}

/// Nothing seen, nothing counted.
proof fn lemma_spawn_targets_none(ts: Seq<TargetModel>)
    ensures
        spawn_targets_in(ts, Seq::empty()) == 0,
    decreases ts.len(),
{
    if ts.len() > 0 {
        lemma_spawn_targets_none(ts.drop_last());
    }
}

/// The conflicting targets occur once each.
proof fn lemma_conflict_targets_distinct(ts: Seq<TargetModel>, f: Seq<(CoreId, WriteModel)>)
    requires
        ts.no_duplicates(),
    ensures
        conflict_targets(ts, f).no_duplicates(),
    decreases ts.len(),
{
    if ts.len() > 0 {
        let init = ts.drop_last();
        assert(init.no_duplicates()) by {
            assert forall|i: int, j: int| 0 <= i < init.len() && 0 <= j < init.len() && i != j implies init[i]
                != init[j] by {
                assert(ts[i] == init[i] && ts[j] == init[j]);
            }
        }
        lemma_conflict_targets_distinct(init, f);
        let prev = conflict_targets(init, f);
        if multi_core(writes_for(f, ts.last())) {
            assert(!prev.contains(ts.last())) by {
                if prev.contains(ts.last()) {
                    let k = choose|k: int| 0 <= k < prev.len() && prev[k] == ts.last();
                    lemma_conflict_targets_multi(init, f, k);
                    let j = choose|j: int| 0 <= j < init.len() && init[j] == ts.last();
                    assert(ts[j] == ts[ts.len() - 1]);
                }
            }
            let q = prev.push(ts.last());
            assert forall|i: int, j: int| 0 <= i < q.len() && 0 <= j < q.len() && i != j implies q[i]
                != q[j] by {
                if i < prev.len() && j < prev.len() {
                } else if i < prev.len() {
                    assert(prev.contains(q[i]));
                } else if j < prev.len() {
                    assert(prev.contains(q[j]));
                }
            }
        }
    }
}

/// Every write to `t` listed in `writes_for` is a write of `f` to `t`.
proof fn lemma_writes_for_target(f: Seq<(CoreId, WriteModel)>, t: TargetModel, i: int)
    requires
        0 <= i < writes_for(f, t).len(),
    ensures
        target_of(writes_for(f, t)[i].1) == t,
    decreases f.len(),
{
    if f.len() > 0 {
        let prev = writes_for(f.drop_last(), t);
        if i < prev.len() {
            lemma_writes_for_target(f.drop_last(), t, i);
            if target_of(f.last().1) == t {
                assert(prev.push(f.last())[i] == prev[i]);
            }
        }
    }
}

/// The first write of the lowest core is a write of the sequence.
proof fn lemma_first_lowest_in_range(s: Seq<(CoreId, WriteModel)>)
    requires
        s.len() > 0,
    ensures
        0 <= first_lowest(s) < s.len(),
    decreases s.len(),
{
    if s.len() > 1 {
        lemma_first_lowest_in_range(s.drop_last());
    }
}

/// The last write of the highest core is a write of the sequence.
proof fn lemma_last_highest_in_range(s: Seq<(CoreId, WriteModel)>)
    requires
        s.len() > 0,
    ensures
        0 <= last_highest(s) < s.len(),
    decreases s.len(),
{
    if s.len() > 1 {
        lemma_last_highest_in_range(s.drop_last());
    }
}

/// Each kept write of a resolution is a spawn exactly when its conflict is on a spawn
/// target, so the resolutions keep as many spawns as there are spawn targets.
proof fn lemma_picked_spawns<F: Fn(u64, u64) -> u64>(
    strategy: ResolutionStrategy,
    plus: F,
    f: Seq<(CoreId, WriteModel)>,
    rs: Seq<ResolvedConflict>,
    ts: Seq<TargetModel>,
)
    requires
        rs.len() == ts.len(),
        forall|k: int| 0 <= k < ts.len() ==> resolved_as(#[trigger] rs[k], strategy, plus, f, ts[k]),
        forall|k: int| 0 <= k < ts.len() ==> multi_core(writes_for(f, #[trigger] ts[k])),
    ensures
        spawn_count(picked_writes(rs)) == spawn_targets(ts),
    decreases ts.len(),
{
    if ts.len() > 0 {
        let n = ts.len() - 1;
        assert forall|k: int| 0 <= k < n implies resolved_as(#[trigger] rs.drop_last()[k], strategy, plus, f, ts.drop_last()[k]) by {
            assert(rs.drop_last()[k] == rs[k] && ts.drop_last()[k] == ts[k]);
        }
        assert forall|k: int| 0 <= k < n implies multi_core(writes_for(f, #[trigger] ts.drop_last()[k])) by {
            assert(ts.drop_last()[k] == ts[k]);
        }
        lemma_picked_spawns(strategy, plus, f, rs.drop_last(), ts.drop_last());
        let rc = rs[n];
        let t = ts[n];
        let s = writes_for(f, t);
        assert(resolved_as(rc, strategy, plus, f, t));
        assert(multi_core(s));
        let (a, b) = choose|a: int, b: int| 0 <= a < s.len() && 0 <= b < s.len() && #[trigger] s[a].0 != #[trigger] s[b].0;
        let pick = tagged_model(rc.resolved_write);
        lemma_first_lowest_in_range(s);
        lemma_last_highest_in_range(s);
        lemma_writes_for_target(f, t, 0);
        lemma_writes_for_target(f, t, first_lowest(s));
        lemma_writes_for_target(f, t, last_highest(s));
        assert(pick is Some);
        let w = pick.unwrap().1;
        assert((w is SpawnEntity) <==> (t is SpawnEntity));
        let prev = picked_writes(rs.drop_last());
        assert(rs.last() == rc);
        assert(picked_writes(rs) == prev.push(w));
        assert(prev.push(w).drop_last() =~= prev);
    }
}

/// Spawn counts add up over concatenation.
pub proof fn lemma_spawn_count_concat(a: Seq<WriteModel>, b: Seq<WriteModel>)
    ensures
        spawn_count(a + b) == spawn_count(a) + spawn_count(b),
    decreases b.len(),
{
    if b.len() > 0 {
        lemma_spawn_count_concat(a, b.drop_last());
        assert((a + b).drop_last() =~= a + b.drop_last());
        assert((a + b).last() == b.last());
    } else {
        assert(a + b =~= a);
    }
}

/// Resolving conflicts never keeps more spawns than the write sets held: every conflict on
/// a spawn kind keeps one of its two or more spawns.
pub proof fn lemma_resolution_spawns<F: Fn(u64, u64) -> u64>(
    strategy: ResolutionStrategy,
    plus: F,
    f: Seq<(CoreId, WriteModel)>,
    res: ResolutionResult,
)
    requires
        resolves(strategy, plus, f, res),
    ensures
        spawn_count(res.write_set@) <= spawn_count(untagged(f)),
{
    let ts = conflict_targets(targets_in_order(f), f);
    lemma_targets_distinct(f);
    lemma_conflict_targets_distinct(targets_in_order(f), f);
    assert forall|k: int| 0 <= k < ts.len() implies multi_core(writes_for(f, #[trigger] ts[k]))
        && targets_in_order(f).contains(ts[k]) by {
        lemma_conflict_targets_multi(targets_in_order(f), f, k);
    }
    lemma_unconflicted_spawns(f, ts);
    lemma_spawn_targets_all_seen(ts, targets_in_order(f));
    lemma_picked_spawns(strategy, plus, f, res.resolutions@, ts);
    lemma_spawn_count_concat(unconflicted(f, ts), picked_writes(res.resolutions@));
}

/// With no writes at all, resolution keeps no writes.
pub proof fn lemma_resolution_of_nothing<F: Fn(u64, u64) -> u64>(
    strategy: ResolutionStrategy,
    plus: F,
    f: Seq<(CoreId, WriteModel)>,
    res: ResolutionResult,
)
    requires
        resolves(strategy, plus, f, res),
        f.len() == 0,
    ensures
        res.write_set@.len() == 0,
        res.conflicts_resolved == 0,
{
    assert(targets_in_order(f) =~= Seq::<TargetModel>::empty());
    assert(conflict_targets(targets_in_order(f), f) =~= Seq::<TargetModel>::empty());
    assert(res.resolutions@ =~= Seq::<ResolvedConflict>::empty());
}

/// Without conflicts, resolution keeps every write, in order.
pub proof fn lemma_unconflicted_keeps_all(f: Seq<(CoreId, WriteModel)>)
    ensures
        unconflicted(f, Seq::empty()) == untagged(f),
    decreases f.len(),
{
    if f.len() > 0 {
        lemma_unconflicted_keeps_all(f.drop_last());
        assert(untagged(f).drop_last() =~= untagged(f.drop_last()));
        assert(untagged(f) =~= untagged(f.drop_last()).push(f.last().1));
    } else {
        assert(untagged(f) =~= Seq::<WriteModel>::empty());
    }
}


/// A target with a write in `f` is among the targets in order.
proof fn lemma_written_target_listed(f: Seq<(CoreId, WriteModel)>, t: TargetModel)
    requires
        writes_for(f, t).len() > 0,
    ensures
        targets_in_order(f).contains(t),
    decreases f.len(),
{
    let prev = writes_for(f.drop_last(), t);
    let ts = targets_in_order(f.drop_last());
    if prev.len() > 0 {
        lemma_written_target_listed(f.drop_last(), t);
        if !ts.contains(target_of(f.last().1)) {
            let j = choose|j: int| 0 <= j < ts.len() && ts[j] == t;
            assert(ts.push(target_of(f.last().1))[j] == t);
        }
    } else {
        assert(target_of(f.last().1) == t);
        if !ts.contains(t) {
            assert(ts.push(t)[ts.len() as int] == t);
        }
    }
}

/// A report of conflicts holds exactly one conflict for each target written by two or more
/// distinct cores, and none for any other target.
pub proof fn lemma_one_conflict_per_target(conflicts: Seq<Conflict>, f: Seq<(CoreId, WriteModel)>, t: TargetModel)
    requires
        reports(conflicts, f),
    ensures
        (exists|k: int| 0 <= k < conflicts.len() && (#[trigger] conflicts[k]).target.model() == t) <==> multi_core(
            writes_for(f, t),
        ),
        forall|a: int, b: int|
            0 <= a < b < conflicts.len() ==> (#[trigger] conflicts[a]).target.model() != (
            #[trigger] conflicts[b]).target.model(),
{
    let order = targets_in_order(f);
    let ts = conflict_targets(order, f);
    lemma_targets_distinct(f);
    lemma_conflict_targets_distinct(order, f);
    if exists|k: int| 0 <= k < conflicts.len() && (#[trigger] conflicts[k]).target.model() == t {
        let k = choose|k: int| 0 <= k < conflicts.len() && (#[trigger] conflicts[k]).target.model() == t;
        assert(is_conflict_on(conflicts[k], f, ts[k]));
        lemma_conflict_targets_multi(order, f, k);
    }
    if multi_core(writes_for(f, t)) {
        lemma_written_target_listed(f, t);
        lemma_conflict_targets_complete(order, f, t);
        let k = choose|k: int| 0 <= k < ts.len() && ts[k] == t;
        assert(is_conflict_on(conflicts[k], f, ts[k]));
    }
    assert forall|a: int, b: int|
        0 <= a < b < conflicts.len() implies (#[trigger] conflicts[a]).target.model() != (
        #[trigger] conflicts[b]).target.model() by {
        assert(is_conflict_on(conflicts[a], f, ts[a]));
        assert(is_conflict_on(conflicts[b], f, ts[b]));
    }
}


/// `rc` resolves the conflict on target `t` of the writes `f` with what `resolver` gave for
/// that conflict.
pub open spec fn resolved_by<R: Fn(&Conflict) -> Option<(CoreId, PendingWrite)>>(
    rc: ResolvedConflict,
    resolver: R,
    f: Seq<(CoreId, WriteModel)>,
    t: TargetModel,
) -> bool {
    &&& rc.target.model() == t
    &&& rc.conflict_type == ConflictType::WriteWrite
    &&& lists_cores(rc.cores@, writes_for(f, t))
    &&& exists|c: Conflict| is_conflict_on(c, f, t) && #[trigger] call_ensures(resolver, (&c,), rc.resolved_write)
}

/// Detect the conflicts between the write sets of cores and resolve each with `resolver`,
/// which is handed the conflict and gives the write to keep, with its core, or none to keep
/// no write for that target. The result holds the unconflicted writes in order, then the
/// kept write of each conflict in the order of the conflicts.
pub fn resolve_conflicts_custom<R: Fn(&Conflict) -> Option<(CoreId, PendingWrite)>>(
    write_sets: &[(CoreId, WriteSet)],
    resolver: &R,
) -> (r: ResolutionResult)
    requires
        forall|c: &Conflict| call_requires(*resolver, (c,)),
    ensures
        ({
            let f = flat_writes(write_sets@);
            let ts = conflict_targets(targets_in_order(f), f);
            &&& r.write_set@ == unconflicted(f, ts) + picked_writes(r.resolutions@)
            &&& r.conflicts_resolved == ts.len()
            &&& r.resolutions@.len() == ts.len()
            &&& forall|k: int| 0 <= k < ts.len() ==> resolved_by(#[trigger] r.resolutions@[k], *resolver, f, ts[k])
        }),
{
    let f = collect_writes(write_sets);
    let ghost m = tagged_models(f@);
    let ghost ts = conflict_targets(targets_in_order(m), m);
    let conflicts = conflicts_of(&f);
    let ws = keep_unconflicted(&f, &conflicts);
    let mut result = ResolutionResult::new(ws);
    let cn = conflicts.len();
    let mut k: usize = 0;
    while k < cn
        invariant
            cn == conflicts@.len(),
            cn == ts.len(),
            m == tagged_models(f@),
            reports(conflicts@, m),
            ts == conflict_targets(targets_in_order(m), m),
            forall|c: &Conflict| call_requires(*resolver, (c,)),
            k <= cn,
            result.write_set@ == unconflicted(m, ts) + picked_writes(result.resolutions@),
            result.conflicts_resolved == k,
            result.resolutions@.len() == k,
            forall|j: int| 0 <= j < k ==> resolved_by(#[trigger] result.resolutions@[j], *resolver, m, ts[j]),
        decreases cn - k,
    {
        let c = &conflicts[k];
        proof {
            assert(is_conflict_on(conflicts@[k as int], m, ts[k as int]));
        }
        let pick = resolver(c);
        let ghost old_res = result.resolutions@;
        let ghost old_ws = result.write_set@;
        match &pick {
            Some(p) => {
                result.write_set.push(p.1.duplicate());
            },
            None => {},
        }
        let rc = ResolvedConflict {
            target: c.target.duplicate(),
            conflict_type: c.conflict_type,
            cores: copy_cores(&c.cores),
            resolved_write: pick,
        };
        result.add_resolution(rc);
        proof {
            assert(result.resolutions@.drop_last() =~= old_res);
            assert(call_ensures(*resolver, (&conflicts@[k as int],), result.resolutions@[k as int].resolved_write));
            assert forall|j: int| 0 <= j < k + 1 implies resolved_by(
                #[trigger] result.resolutions@[j],
                *resolver,
                m,
                ts[j],
            ) by {
                if j < k {
                    assert(result.resolutions@[j] == old_res[j]);
                }
            }
        }
        k = k + 1;
    }
    result
}


/// The default filter rejects a target exactly when it is a spawn.
pub proof fn lemma_default_filter_drops_only_spawns(t: TargetModel)
    ensures
        kept_by_default(t) <==> !(t is SpawnEntity),
{
}

/// Selecting the writes that the default filter keeps drops exactly the spawns: the kept
/// writes are those whose target is not a spawn, in order.
pub proof fn lemma_default_selection(f: Seq<(CoreId, WriteModel)>, d: Seq<bool>)
    requires
        d.len() == f.len(),
        forall|i: int| 0 <= i < f.len() ==> d[i] == kept_by_default(target_of(#[trigger] f[i].1)),
    ensures
        select(f, d) == f.filter(|w: (CoreId, WriteModel)| !(target_of(w.1) is SpawnEntity)),
    decreases f.len(),
{
    reveal_with_fuel(Seq::<(CoreId, WriteModel)>::filter, 1);
    if f.len() > 0 {
        let f0 = f.drop_last();
        let d0 = d.drop_last();
        assert forall|i: int| 0 <= i < f0.len() implies d0[i] == kept_by_default(target_of(#[trigger] f0[i].1)) by {
            assert(f0[i] == f[i]);
        }
        lemma_default_selection(f0, d0);
        assert(d.last() == kept_by_default(target_of(f.last().1)));
    }
}

} // verus!
