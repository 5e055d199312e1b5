//! Deterministic, seed-configurable strategies that distribute entities across cores.
//!
//! Grid positions are real numbers; the cell that a position falls into is computed by
//! the caller and handed in as a pair of integers (`(0, 0)` where a position is missing).
use vstd::prelude::*;
use crate::config::{mix, HubConfig, DEFAULT_GLOBAL_SEED};
use crate::cores::CoreId;
use crate::entity::{ids_unique, Entity, EntityModel, EntityStore};
use crate::hash::{hash_model, hash_u64_with_seed, hash_value_with_seed, spatial_hash, spatial_hash_with_seed};
use crate::identity::EntityId;
use crate::value::lookup;

verus! {

/// The kind of partitioning strategy.
#[derive(Debug, Clone)]
pub enum PartitionKind {
    /// Round-robin by entity ID: `id % core_count`; does not use the seed.
    ById,
    /// By the hashed value of an owner property; entities without it are placed by
    /// their hashed ID.
    ByOwner { property: String },
    /// By the hashed 2D grid cell of the entity's position. `cell_size` holds the bits
    /// of a positive `f64`.
    SpatialGrid { cell_size: u64, x_prop: String, y_prop: String },
}

/// Whether `bits` are those of an `f64` greater than zero (positive and not NaN).
pub open spec fn positive_float_bits(bits: u64) -> bool {
    0 < bits <= 0x7FF0_0000_0000_0000
}

/// The core that an entity goes to under a strategy, given the grid cell of its position.
pub open spec fn assigned_core(
    kind: PartitionKind,
    seed: u64,
    e: EntityModel,
    core_count: usize,
    cell: (i64, i64),
) -> int {
    match kind {
        PartitionKind::ById => (e.id as usize) as int % (core_count as int),
        PartitionKind::ByOwner { property } => match lookup(e.properties, property@) {
            Some(v) => (hash_model(v, seed) as usize) as int % (core_count as int),
            None => (mix(seed, e.id, 0) as usize) as int % (core_count as int),
        },
        PartitionKind::SpatialGrid { .. } => (spatial_hash(cell.0, cell.1, seed) as usize) as int
            % (core_count as int),
    }
}

/// The grid cell handed in for the `i`-th entity: `(0, 0)` past the end of `cells`.
pub open spec fn cell_at(cells: Seq<(i64, i64)>, i: int) -> (i64, i64) {
    if 0 <= i < cells.len() {
        cells[i]
    } else {
        (0, 0)
    }
}

/// The IDs, in store order, of the first `n` entities that go to core `c`.
pub open spec fn members(
    kind: PartitionKind,
    seed: u64,
    store: Seq<EntityModel>,
    cells: Seq<(i64, i64)>,
    core_count: usize,
    c: int,
    n: nat,
) -> Seq<EntityId>
    decreases n,
{
    if n == 0 {
        Seq::empty()
    } else {
        let prev = members(kind, seed, store, cells, core_count, c, (n - 1) as nat);
        if assigned_core(kind, seed, store[n - 1], core_count, cell_at(cells, n - 1)) == c {
            prev.push(EntityId(store[n - 1].id))
        } else {
            prev
        }
    }
}

/// Partitioning places each entity of a store with unique IDs on exactly one core: the
/// first `n` entities' IDs listed for core `c` are those of the entities among them whose
/// assigned core is `c`.
pub proof fn lemma_members_contains(
    kind: PartitionKind,
    seed: u64,
    store: Seq<EntityModel>,
    cells: Seq<(i64, i64)>,
    core_count: usize,
    c: int,
    n: nat,
    i: int,
)
    requires
        ids_unique(store),
        n <= store.len(),
        0 <= i < store.len(),
    ensures
        members(kind, seed, store, cells, core_count, c, n).contains(EntityId(store[i].id)) <==> (
        i < n && assigned_core(kind, seed, store[i], core_count, cell_at(cells, i)) == c),
    decreases n,
{
    if n > 0 {
        lemma_members_contains(kind, seed, store, cells, core_count, c, (n - 1) as nat, i);
        let prev = members(kind, seed, store, cells, core_count, c, (n - 1) as nat);
        let x = EntityId(store[i].id);
        let y = EntityId(store[n - 1].id);
        if i != n - 1 {
            if i < n - 1 {
                assert(store[i].id != store[n - 1].id);
            } else {
                assert(store[n - 1].id != store[i].id);
            }
            assert(x != y);
        }
        if assigned_core(kind, seed, store[n - 1], core_count, cell_at(cells, n - 1)) == c {
            assert(prev.push(y).contains(x) <==> (prev.contains(x) || x == y)) by {
                if prev.push(y).contains(x) {
                    let k = choose|k: int| 0 <= k < prev.push(y).len() && prev.push(y)[k] == x;
                    if k < prev.len() {
                        assert(prev[k] == x);
                    }
                }
                if prev.contains(x) {
                    let k = choose|k: int| 0 <= k < prev.len() && prev[k] == x;
                    assert(prev.push(y)[k] == x);
                }
                if x == y {
                    assert(prev.push(y)[prev.len() as int] == x);
                }
            }
        }
    }
}

/// Round-robin by ID does not depend on the seed, and sends an entity to its ID modulo
/// the core count.
pub proof fn lemma_by_id_ignores_seed(
    seed_a: u64,
    seed_b: u64,
    e: EntityModel,
    core_count: usize,
    cell: (i64, i64),
)
    ensures
        assigned_core(PartitionKind::ById, seed_a, e, core_count, cell) == assigned_core(
            PartitionKind::ById,
            seed_b,
            e,
            core_count,
            cell,
        ),
        assigned_core(PartitionKind::ById, seed_a, e, core_count, cell) == (e.id as usize) as int
            % (core_count as int),
{
}

/// Two entities with the same value of the owner property go to the same core.
pub proof fn lemma_same_owner_same_core(
    property: String,
    seed: u64,
    a: EntityModel,
    b: EntityModel,
    core_count: usize,
    cell_a: (i64, i64),
    cell_b: (i64, i64),
)
    requires
        lookup(a.properties, property@) is Some,
        lookup(a.properties, property@) == lookup(b.properties, property@),
    ensures
        assigned_core(PartitionKind::ByOwner { property }, seed, a, core_count, cell_a)
            == assigned_core(PartitionKind::ByOwner { property }, seed, b, core_count, cell_b),
{
}

/// Two entities in the same grid cell go to the same core.
pub proof fn lemma_same_cell_same_core(
    cell_size: u64,
    x_prop: String,
    y_prop: String,
    seed: u64,
    a: EntityModel,
    b: EntityModel,
    core_count: usize,
    cell: (i64, i64),
)
    ensures
        assigned_core(
            PartitionKind::SpatialGrid { cell_size, x_prop, y_prop },
            seed,
            a,
            core_count,
            cell,
        ) == assigned_core(
            PartitionKind::SpatialGrid { cell_size, x_prop, y_prop },
            seed,
            b,
            core_count,
            cell,
        ),
{
}

/// Sum of the lengths of the sequences in `p`.
pub open spec fn total_len(p: Seq<Seq<EntityId>>) -> nat
    decreases p.len(),
{
    if p.len() == 0 {
        0
    } else {
        total_len(p.drop_last()) + p.last().len()
    }
}

/// Appending one ID to one of the sequences adds one to the total length.
pub proof fn lemma_total_len_push(p: Seq<Seq<EntityId>>, c: int, x: EntityId)
    requires
        0 <= c < p.len(),
    ensures
        total_len(p.update(c, p[c].push(x))) == total_len(p) + 1,
    decreases p.len(),
{
    let q = p.update(c, p[c].push(x));
    if c == p.len() - 1 {
        assert(q.drop_last() =~= p.drop_last());
    } else {
        lemma_total_len_push(p.drop_last(), c, x);
        assert(q.drop_last() =~= p.drop_last().update(c, p[c].push(x)));
    }
}

/// A sequence of empty sequences has total length zero.
pub proof fn lemma_total_len_empty(p: Seq<Seq<EntityId>>)
    requires
        forall|j: int| 0 <= j < p.len() ==> (#[trigger] p[j]).len() == 0,
    ensures
        total_len(p) == 0,
    decreases p.len(),
{
    if p.len() > 0 {
        lemma_total_len_empty(p.drop_last());
    }
}

/// The total length of a prefix is at most the total length.
pub proof fn lemma_total_len_prefix_le(p: Seq<Seq<EntityId>>, k: int)
    requires
        0 <= k <= p.len(),
    ensures
        total_len(p.subrange(0, k)) <= total_len(p),
    decreases p.len(),
{
    if k == p.len() {
        assert(p.subrange(0, k) =~= p);
    } else {
        lemma_total_len_prefix_le(p.drop_last(), k);
        assert(p.drop_last().subrange(0, k) =~= p.subrange(0, k));
    }
}

/// Views of a sequence of ID vectors.
pub open spec fn views(p: Seq<Vec<EntityId>>) -> Seq<Seq<EntityId>> {
    p.map_values(|v: Vec<EntityId>| v@)
}

/// A strategy for partitioning entities across cores: a kind and a seed.
#[derive(Debug, Clone)]
pub struct PartitionStrategy {
    kind: PartitionKind,
    seed: u64,
}

impl PartitionStrategy {
    /// The kind of this strategy.
    pub closed spec fn spec_kind(&self) -> PartitionKind {
        self.kind
    }

    /// The seed of this strategy.
    pub closed spec fn spec_seed(&self) -> u64 {
        self.seed
    }

    /// A strategy with a kind and a seed.
    pub fn with_seed(kind: PartitionKind, seed: u64) -> (r: Self)
        ensures
            r.spec_kind() == kind,
            r.spec_seed() == seed,
    {
        PartitionStrategy { kind, seed }
    }

    /// Round-robin by ID, with the default seed.
    pub fn by_id() -> (r: Self)
        ensures
            r.spec_kind() == PartitionKind::ById,
            r.spec_seed() == DEFAULT_GLOBAL_SEED,
    {
        Self::with_seed(PartitionKind::ById, DEFAULT_GLOBAL_SEED)
    }

    /// By owner property, with the default seed.
    pub fn by_owner(property: &str) -> (r: Self)
        ensures
            r.spec_kind() matches PartitionKind::ByOwner { property: p } && p@ == property@,
            r.spec_seed() == DEFAULT_GLOBAL_SEED,
    {
        Self::with_seed(
            PartitionKind::ByOwner { property: String::from_str(property) },
            DEFAULT_GLOBAL_SEED,
        )
    }

    /// By spatial grid, with the default seed; `cell_size` holds the bits of an `f64`,
    /// which must be greater than zero.
    pub fn spatial_grid(cell_size: u64, x_prop: &str, y_prop: &str) -> (r: Self)
        requires
            positive_float_bits(cell_size),
        ensures
            (r.spec_kind() matches PartitionKind::SpatialGrid { cell_size: cs, x_prop: xp, y_prop: yp }
                && cs == cell_size && xp@ == x_prop@ && yp@ == y_prop@),
            r.spec_seed() == DEFAULT_GLOBAL_SEED,
    {
        Self::with_seed(
            PartitionKind::SpatialGrid {
                cell_size,
                x_prop: String::from_str(x_prop),
                y_prop: String::from_str(y_prop),
            },
            DEFAULT_GLOBAL_SEED,
        )
    }

    /// A strategy with a kind and the configuration's global seed.
    pub fn from_config(kind: PartitionKind, config: &HubConfig) -> (r: Self)
        ensures
            r.spec_kind() == kind,
            r.spec_seed() == config.spec_global_seed(),
    {
        Self::with_seed(kind, config.global_seed())
    }

    /// Round-robin by ID, with the configuration's seed.
    pub fn by_id_from_config(config: &HubConfig) -> (r: Self)
        ensures
            r.spec_kind() == PartitionKind::ById,
            r.spec_seed() == config.spec_global_seed(),
    {
        Self::from_config(PartitionKind::ById, config)
    }

    /// By owner property, with the configuration's seed.
    pub fn by_owner_from_config(property: &str, config: &HubConfig) -> (r: Self)
        ensures
            r.spec_kind() matches PartitionKind::ByOwner { property: p } && p@ == property@,
            r.spec_seed() == config.spec_global_seed(),
    {
        Self::from_config(PartitionKind::ByOwner { property: String::from_str(property) }, config)
    }

    /// By spatial grid, with the configuration's seed; `cell_size` holds the bits of an
    /// `f64`, which must be greater than zero.
    pub fn spatial_grid_from_config(
        cell_size: u64,
        x_prop: &str,
        y_prop: &str,
        config: &HubConfig,
    ) -> (r: Self)
        requires
            positive_float_bits(cell_size),
        ensures
            (r.spec_kind() matches PartitionKind::SpatialGrid { cell_size: cs, x_prop: xp, y_prop: yp }
                && cs == cell_size && xp@ == x_prop@ && yp@ == y_prop@),
            r.spec_seed() == config.spec_global_seed(),
    {
        Self::from_config(
            PartitionKind::SpatialGrid {
                cell_size,
                x_prop: String::from_str(x_prop),
                y_prop: String::from_str(y_prop),
            },
            config,
        )
    }

    /// The seed used for hashing.
    pub fn seed(&self) -> (r: u64)
        ensures
            r == self.spec_seed(),
    {
        self.seed
    }

    /// The partition kind.
    pub fn kind(&self) -> (r: &PartitionKind)
        ensures
            *r == self.spec_kind(),
    {
        &self.kind
    }

    /// The core (below `core_count`) that `entity` goes to; `cell` is the grid cell of
    /// its position, used by the spatial kind only.
    pub fn assign_core(&self, entity: &Entity, core_count: usize, cell: (i64, i64)) -> (r: usize)
        requires
            core_count > 0,
        ensures
            r < core_count,
            r == assigned_core(self.spec_kind(), self.spec_seed(), entity.model(), core_count, cell),
    {
        match &self.kind {
            PartitionKind::ById => (entity.id.raw() as usize) % core_count,
            PartitionKind::ByOwner { property } => {
                match entity.get(property.as_str()) {
                    Some(value) => {
                        let h = hash_value_with_seed(value, self.seed);
                        (h as usize) % core_count
                    },
                    None => {
                        let h = hash_u64_with_seed(entity.id.raw(), self.seed);
                        (h as usize) % core_count
                    },
                }
            },
            PartitionKind::SpatialGrid { .. } => {
                let h = spatial_hash_with_seed(cell.0, cell.1, self.seed);
                (h as usize) % core_count
            },
        }
    }

    /// Partition the entities of a store across `core_count` cores: core `c` gets, in
    /// store order, the IDs of the entities assigned to it. `cells[i]` is the grid cell of
    /// the `i`-th entity, required for the spatial kind.
    pub fn partition(
        &self,
        entities: &EntityStore,
        core_count: usize,
        cells: &Vec<(i64, i64)>,
    ) -> (r: PartitionResult)
        requires
            core_count > 0,
            self.spec_kind() is SpatialGrid ==> cells@.len() == entities@.len(),
        ensures
            r@.len() == core_count,
            forall|c: int|
                0 <= c < core_count ==> #[trigger] r@[c] == members(
                    self.spec_kind(),
                    self.spec_seed(),
                    entities@,
                    cells@,
                    core_count,
                    c,
                    entities@.len(),
                ),
            total_len(r@) == entities@.len(),
    {
        let mut partitions: Vec<Vec<EntityId>> = Vec::new();
        let mut c: usize = 0;
        while c < core_count
            invariant
                c <= core_count,
                partitions@.len() == c,
                forall|j: int| 0 <= j < c ==> (#[trigger] partitions@[j])@.len() == 0,
            decreases core_count - c,
        {
            partitions.push(Vec::new());
            c = c + 1;
        }
        proof {
            assert forall|j: int| 0 <= j < core_count implies #[trigger] views(partitions@)[j]
                == members(self.kind, self.seed, entities@, cells@, core_count, j, 0) by {
                assert(views(partitions@)[j] =~= Seq::<EntityId>::empty());
            }
            lemma_total_len_empty(views(partitions@));
        }
        let n = entities.len();
        let mut i: usize = 0;
        while i < n
            invariant
                n == entities@.len(),
                i <= n,
                core_count > 0,
                self.spec_kind() is SpatialGrid ==> cells@.len() == n,
                partitions@.len() == core_count,
                forall|j: int|
                    0 <= j < core_count ==> #[trigger] views(partitions@)[j] == members(
                        self.spec_kind(),
                        self.spec_seed(),
                        entities@,
                        cells@,
                        core_count,
                        j,
                        i as nat,
                    ),
                total_len(views(partitions@)) == i,
            decreases n - i,
        {
            let entity = entities.at(i);
            let cell: (i64, i64) = if i < cells.len() {
                cells[i]
            } else {
                (0, 0)
            };
            let core_idx = self.assign_core(entity, core_count, cell);
            let ghost before = views(partitions@);
            partitions[core_idx].push(entity.id);
            proof {
                assert(views(partitions@) =~= before.update(
                    core_idx as int,
                    before[core_idx as int].push(entity.id),
                ));
                lemma_total_len_push(before, core_idx as int, entity.id);
                assert forall|j: int| 0 <= j < core_count implies #[trigger] views(partitions@)[j]
                    == members(
                    self.spec_kind(),
                    self.spec_seed(),
                    entities@,
                    cells@,
                    core_count,
                    j,
                    (i + 1) as nat,
                ) by {
                    assert(cell == cell_at(cells@, i as int));
                    assert(entity.id == EntityId(entities@[i as int].id));
                }
            }
            i = i + 1;
        }
        PartitionResult { partitions, core_count }
    }
}

/// The result of partitioning: the entity IDs of each core, indexed by core.
#[derive(Debug)]
pub struct PartitionResult {
    partitions: Vec<Vec<EntityId>>,
    core_count: usize,
}

impl View for PartitionResult {
    type V = Seq<Seq<EntityId>>;

    closed spec fn view(&self) -> Seq<Seq<EntityId>> {
        views(self.partitions@)
    }
}

impl PartitionResult {
    #[verifier::type_invariant]
    spec fn inv(self) -> bool {
        &&& self.partitions@.len() == self.core_count
        &&& total_len(views(self.partitions@)) <= usize::MAX
    }

    /// The IDs assigned to a core.
    pub fn get(&self, core_id: CoreId) -> (r: &[EntityId])
        requires
            core_id.0 < self@.len(),
        ensures
            r@ == self@[core_id.0 as int],
    {
        self.partitions[core_id.0].as_slice()
    }

    /// All partitions, indexed by core.
    pub fn partitions(&self) -> (r: &[Vec<EntityId>])
        ensures
            views(r@) == self@,
    {
        self.partitions.as_slice()
    }

    /// Number of partitions (the core count).
    pub fn partition_count(&self) -> (r: usize)
        ensures
            r == self@.len(),
    {
        proof {
            use_type_invariant(self);
        }
        self.core_count
    }

    /// Total number of entities over all partitions.
    pub fn total_entities(&self) -> (r: usize)
        ensures
            r == total_len(self@),
    {
        proof {
            use_type_invariant(self);
        }
        let ghost p = self@;
        let n = self.partitions.len();
        let mut sum: usize = 0;
        let mut k: usize = 0;
        while k < n
            invariant
                p == views(self.partitions@),
                n == p.len(),
                k <= n,
                total_len(p) <= usize::MAX,
                sum == total_len(p.subrange(0, k as int)),
            decreases n - k,
        {
            proof {
                assert(p.subrange(0, k + 1).drop_last() =~= p.subrange(0, k as int));
                lemma_total_len_prefix_le(p, k + 1);
            }
            sum = sum + self.partitions[k].len();
            k = k + 1;
        }
        assert(p.subrange(0, n as int) =~= p);
        sum
    }

    /// The size of each partition, indexed by core.
    pub fn partition_sizes(&self) -> (r: Vec<usize>)
        ensures
            r@.len() == self@.len(),
            forall|c: int| 0 <= c < r@.len() ==> #[trigger] r@[c] == self@[c].len(),
    {
        let n = self.partitions.len();
        let mut out: Vec<usize> = Vec::new();
        let mut k: usize = 0;
        while k < n
            invariant
                n == self@.len(),
                k <= n,
                out@.len() == k,
                forall|c: int| 0 <= c < k ==> #[trigger] out@[c] == self@[c].len(),
            decreases n - k,
        {
            out.push(self.partitions[k].len());
            k = k + 1;
        }
        out
    }

    /// The smallest and the largest partition size; `(0, 0)` when there are no partitions.
    pub fn size_range(&self) -> (r: (usize, usize))
        ensures
            self@.len() == 0 ==> r == (0usize, 0usize),
            self@.len() > 0 ==> {
                &&& forall|c: int| 0 <= c < self@.len() ==> r.0 <= #[trigger] self@[c].len() <= r.1
                &&& exists|c: int| 0 <= c < self@.len() && #[trigger] self@[c].len() == r.0
                &&& exists|c: int| 0 <= c < self@.len() && #[trigger] self@[c].len() == r.1
            },
    {
        let n = self.partitions.len();
        if n == 0 {
            return (0, 0);
        }
        let mut lo: usize = self.partitions[0].len();
        let mut hi: usize = lo;
        let mut k: usize = 1;
        let ghost mut lo_at: int = 0;
        let ghost mut hi_at: int = 0;
        while k < n
            invariant
                n == self@.len(),
                1 <= k <= n,
                0 <= lo_at < k,
                0 <= hi_at < k,
                self@[lo_at].len() == lo,
                self@[hi_at].len() == hi,
                forall|c: int| 0 <= c < k ==> lo <= #[trigger] self@[c].len() <= hi,
            decreases n - k,
        {
            let s = self.partitions[k].len();
            if s < lo {
                lo = s;
                proof {
                    lo_at = k as int;
                }
            }
            if s > hi {
                hi = s;
                proof {
                    hi_at = k as int;
                }
            }
            k = k + 1;
        }
        assert(self@[lo_at].len() == lo);
        assert(self@[hi_at].len() == hi);
        (lo, hi)
    }

    /// The partitions paired with their core IDs, in core order.
    pub fn iter(&self) -> (r: Vec<(CoreId, &[EntityId])>)
        ensures
            r@.len() == self@.len(),
            forall|c: int|
                0 <= c < r@.len() ==> (#[trigger] r@[c]).0 == CoreId(c as usize) && r@[c].1@
                    == self@[c],
    {
        let n = self.partitions.len();
        let mut out: Vec<(CoreId, &[EntityId])> = Vec::new();
        let mut k: usize = 0;
        while k < n
            invariant
                n == self@.len(),
                k <= n,
                out@.len() == k,
                forall|c: int|
                    0 <= c < k ==> (#[trigger] out@[c]).0 == CoreId(c as usize) && out@[c].1@
                        == self@[c],
            decreases n - k,
        {
            out.push((CoreId(k), self.partitions[k].as_slice()));
            k = k + 1;
        }
        out
    }
}


/// The core index a custom partitioning function gives for an entity of this model.
pub open spec fn custom_index<F: Fn(&Entity) -> usize>(f: F, e: EntityModel) -> usize {
    let (x, r) = choose|x: Entity, r: usize| x.model() == e && #[trigger] call_ensures(f, (&x,), r);
    r
}

/// A custom partitioning function accepts every entity and gives one index for entities of
/// one model.
pub open spec fn custom_is_function<F: Fn(&Entity) -> usize>(f: F) -> bool {
    &&& forall|x: &Entity| #[trigger] call_requires(f, (x,))
    &&& forall|x1: &Entity, x2: &Entity, r1: usize, r2: usize|
        x1.model() == x2.model() && #[trigger] call_ensures(f, (x1,), r1) && #[trigger] call_ensures(f, (x2,), r2)
            ==> r1 == r2
}

/// The IDs, in store order, of the first `n` entities that a custom function sends to core
/// `c`: the function's index modulo the core count.
pub open spec fn custom_members<F: Fn(&Entity) -> usize>(
    f: F,
    store: Seq<EntityModel>,
    core_count: usize,
    c: int,
    n: nat,
) -> Seq<EntityId>
    decreases n,
{
    if n == 0 {
        Seq::empty()
    } else {
        let prev = custom_members(f, store, core_count, c, (n - 1) as nat);
        if custom_index(f, store[n - 1]) as int % (core_count as int) == c {
            prev.push(EntityId(store[n - 1].id))
        } else {
            prev
        }
    }
}

/// Partition the entities of a store across `core_count` cores with a custom function:
/// each entity goes to the core at the function's index modulo the core count; core `c`
/// gets, in store order, the IDs of its entities.
pub fn partition_custom<F: Fn(&Entity) -> usize>(entities: &EntityStore, core_count: usize, f: &F) -> (r: PartitionResult)
    requires
        core_count > 0,
        custom_is_function(*f),
    ensures
        r@.len() == core_count,
        forall|c: int|
            0 <= c < core_count ==> #[trigger] r@[c] == custom_members(*f, entities@, core_count, c, entities@.len()),
        total_len(r@) == entities@.len(),
{
    let mut partitions: Vec<Vec<EntityId>> = Vec::new();
    let mut c: usize = 0;
    while c < core_count
        invariant
            c <= core_count,
            partitions@.len() == c,
            forall|j: int| 0 <= j < c ==> (#[trigger] partitions@[j])@.len() == 0,
        decreases core_count - c,
    {
        partitions.push(Vec::new());
        c = c + 1;
    }
    proof {
        assert forall|j: int| 0 <= j < core_count implies #[trigger] views(partitions@)[j] == custom_members(
            *f,
            entities@,
            core_count,
            j,
            0,
        ) by {
            assert(views(partitions@)[j] =~= Seq::<EntityId>::empty());
        }
        lemma_total_len_empty(views(partitions@));
    }
    let n = entities.len();
    let mut i: usize = 0;
    while i < n
        invariant
            n == entities@.len(),
            i <= n,
            core_count > 0,
            custom_is_function(*f),
            partitions@.len() == core_count,
            forall|j: int|
                0 <= j < core_count ==> #[trigger] views(partitions@)[j] == custom_members(
                    *f,
                    entities@,
                    core_count,
                    j,
                    i as nat,
                ),
            total_len(views(partitions@)) == i,
        decreases n - i,
    {
        let entity = entities.at(i);
        let k = f(entity);
        proof {
            assert(call_ensures(*f, (entity,), k));
            let (x, w) = choose|x: Entity, w: usize| x.model() == entity.model() && #[trigger] call_ensures(*f, (&x,), w);
            assert(call_ensures(*f, (&x,), w));
        }
        let core_idx = k % core_count;
        let ghost before = views(partitions@);
        partitions[core_idx].push(entity.id);
        proof {
            assert(views(partitions@) =~= before.update(core_idx as int, before[core_idx as int].push(entity.id)));
            lemma_total_len_push(before, core_idx as int, entity.id);
            assert forall|j: int| 0 <= j < core_count implies #[trigger] views(partitions@)[j] == custom_members(
                *f,
                entities@,
                core_count,
                j,
                (i + 1) as nat,
            ) by {
                assert(entity.id == EntityId(entities@[i as int].id));
            }
        }
        i = i + 1;
    }
    PartitionResult { partitions, core_count }
}

} // verus!
