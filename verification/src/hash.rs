//! Deterministic seeded hashing of integers, bytes and values.
use vstd::prelude::*;
use vstd::wrapping::u64_specs::wrapping_mul;
use vstd::wrapping::i64_specs::wrapping_add;
use crate::config::{hash_seed, mix};
use crate::text::{
    bytes_less, bytes_lt, lemma_bytes_lt_asymmetric, lemma_bytes_lt_irreflexive,
    lemma_bytes_lt_total, lemma_bytes_lt_transitive, lemma_encode_injective,
};
use crate::value::{keys_unique, lemma_models_of, models_of, Value, ValueMap, ValueModel};
use vstd::utf8::encode_utf8;
use vstd::arithmetic::div_mod::{lemma_fundamental_div_mod, lemma_fundamental_div_mod_converse};
use vstd::arithmetic::mul::lemma_mul_is_commutative;

verus! {

/// Multiplier of the byte hash.
pub const FNV_PRIME: u64 = 0x100000001b3;

/// Hash of a `u64` with a seed: the value in the core slot of the seed mixer, tick 0.
pub fn hash_u64_with_seed(value: u64, seed: u64) -> (r: u64)
    ensures
        r == mix(seed, value, 0),
{
    hash_seed(seed, value, 0)
}

/// State of the byte hash after the first `n` bytes: each byte is xored in and the
/// state multiplied by `FNV_PRIME`; after every eighth byte the state is re-mixed with
/// the seed and the byte's position.
pub open spec fn bytes_state(bs: Seq<u8>, seed: u64, n: nat) -> u64
    decreases n,
{
    if n == 0 {
        seed
    } else {
        let h = wrapping_mul(bytes_state(bs, seed, (n - 1) as nat) ^ (bs[n - 1] as u64), FNV_PRIME);
        if (n - 1) % 8 == 7 {
            mix(seed, h, (n - 1) as u64)
        } else {
            h
        }
    }
}

/// Hash of a byte sequence with a seed.
pub open spec fn bytes_hash(bs: Seq<u8>, seed: u64) -> u64 {
    mix(seed, bytes_state(bs, seed, bs.len()), bs.len() as u64)
}

/// Hash a byte slice with a seed.
pub fn hash_bytes_with_seed(bytes: &[u8], seed: u64) -> (r: u64)
    ensures
        r == bytes_hash(bytes@, seed),
{
    let n = bytes.len();
    let mut h = seed;
    let mut i: usize = 0;
    while i < n
        invariant
            n == bytes@.len(),
            i <= n,
            h == bytes_state(bytes@, seed, i as nat),
        decreases n - i,
    {
        h = h ^ (bytes[i] as u64);
        h = h.wrapping_mul(FNV_PRIME);
        if i % 8 == 7 {
            h = hash_seed(seed, h, i as u64);
        }
        i = i + 1;
    }
    hash_seed(seed, h, n as u64)
}

/// The offset that maps signed grid coordinates to unsigned ones.
pub const GRID_OFFSET: i64 = 4611686018427387903;

/// Hash of a 2D grid cell with a seed.
pub open spec fn spatial_hash(x: i64, y: i64, seed: u64) -> u64 {
    let ux = wrapping_add(x, GRID_OFFSET) as u64;
    let uy = wrapping_add(y, GRID_OFFSET) as u64;
    mix(mix(seed, ux, uy), ux ^ uy, 0)
}

/// Hash 2D grid coordinates with a seed.
pub fn spatial_hash_with_seed(x: i64, y: i64, seed: u64) -> (r: u64)
    ensures
        r == spatial_hash(x, y, seed),
{
    let ux = x.wrapping_add(GRID_OFFSET) as u64;
    let uy = y.wrapping_add(GRID_OFFSET) as u64;
    let h = hash_seed(seed, ux, uy);
    hash_seed(h, ux ^ uy, 0)
}

// ---------------------------------------------------------------------------
// Ordering map entries by key
// ---------------------------------------------------------------------------

/// The UTF-8 bytes of an entry's key.
pub open spec fn entry_key(e: (Seq<char>, ValueModel)) -> Seq<u8> {
    encode_utf8(e.0)
}

/// Entries strictly increasing by the byte order of their keys.
pub open spec fn strictly_sorted(a: Seq<(Seq<char>, ValueModel)>) -> bool {
    forall|i: int, j: int|
        0 <= i < j < a.len() ==> bytes_lt(entry_key(#[trigger] a[i]), entry_key(#[trigger] a[j]))
}

/// The entries of `s` at the positions listed in `p`.
pub open spec fn permuted(s: Seq<(Seq<char>, ValueModel)>, p: Seq<int>) -> Seq<
    (Seq<char>, ValueModel),
> {
    Seq::new(p.len(), |k: int| s[p[k]])
}

/// Insert position `x` into the position list `p`, before the first position whose key
/// comes after the key at `x`.
pub open spec fn insert_by_key(s: Seq<(Seq<char>, ValueModel)>, p: Seq<int>, x: int) -> Seq<int>
    decreases p.len(),
{
    if p.len() == 0 {
        seq![x]
    } else if bytes_lt(entry_key(s[x]), entry_key(s[p[0]])) {
        seq![x] + p
    } else {
        seq![p[0]] + insert_by_key(s, p.drop_first(), x)
    }
}

/// The positions `0..n` of `s`, ordered by key (insertion sort).
pub open spec fn key_order_prefix(s: Seq<(Seq<char>, ValueModel)>, n: nat) -> Seq<int>
    decreases n,
{
    if n == 0 {
        Seq::empty()
    } else {
        insert_by_key(s, key_order_prefix(s, (n - 1) as nat), n - 1)
    }
}

/// All positions of `s`, ordered by key.
pub open spec fn key_order(s: Seq<(Seq<char>, ValueModel)>) -> Seq<int> {
    key_order_prefix(s, s.len())
}

/// `p` lists positions of `s`, exactly those below `n`, each once.
pub open spec fn lists_prefix(s: Seq<(Seq<char>, ValueModel)>, p: Seq<int>, n: int) -> bool {
    &&& p.len() == n
    &&& forall|k: int| 0 <= k < p.len() ==> 0 <= #[trigger] p[k] < n
    &&& forall|i: int| 0 <= i < n ==> p.contains(i)
}

proof fn lemma_unique_keys_distinct_bytes(s: Seq<(Seq<char>, ValueModel)>, i: int, j: int)
    requires
        keys_unique(s),
        0 <= i < s.len(),
        0 <= j < s.len(),
        i != j,
    ensures
        entry_key(s[i]) != entry_key(s[j]),
        bytes_lt(entry_key(s[i]), entry_key(s[j])) || bytes_lt(entry_key(s[j]), entry_key(s[i])),
{
    if entry_key(s[i]) == entry_key(s[j]) {
        lemma_encode_injective(s[i].0, s[j].0);
        if i < j {
            assert(s[i].0 != s[j].0);
        } else {
            assert(s[j].0 != s[i].0);
        }
    }
    lemma_bytes_lt_total(entry_key(s[i]), entry_key(s[j]));
}

proof fn lemma_insert_by_key(s: Seq<(Seq<char>, ValueModel)>, p: Seq<int>, x: int)
    requires
        keys_unique(s),
        0 <= x < s.len(),
        forall|k: int| 0 <= k < p.len() ==> 0 <= #[trigger] p[k] < s.len() && p[k] != x,
        strictly_sorted(permuted(s, p)),
    ensures
        insert_by_key(s, p, x).len() == p.len() + 1,
        forall|y: int| #[trigger] insert_by_key(s, p, x).contains(y) <==> (p.contains(y) || y == x),
        forall|k: int|
            0 <= k < insert_by_key(s, p, x).len() ==> 0 <= #[trigger] insert_by_key(s, p, x)[k]
                < s.len(),
        strictly_sorted(permuted(s, insert_by_key(s, p, x))),
    decreases p.len(),
{
    let q = insert_by_key(s, p, x);
    if p.len() == 0 {
        assert(q =~= seq![x]);
        assert forall|y: int| #[trigger] q.contains(y) <==> (p.contains(y) || y == x) by {
            if q.contains(y) {
                assert(q[0] == y);
            }
            if y == x {
                assert(q[0] == y);
            }
        }
    } else if bytes_lt(entry_key(s[x]), entry_key(s[p[0]])) {
        assert(q =~= seq![x] + p);
        assert forall|y: int| #[trigger] q.contains(y) <==> (p.contains(y) || y == x) by {
            if q.contains(y) {
                let k = choose|k: int| 0 <= k < q.len() && q[k] == y;
                if k > 0 {
                    assert(p[k - 1] == y);
                }
            }
            if p.contains(y) {
                let k = choose|k: int| 0 <= k < p.len() && p[k] == y;
                assert(q[k + 1] == y);
            }
            if y == x {
                assert(q[0] == y);
            }
        }
        let ps = permuted(s, p);
        let qs = permuted(s, q);
        assert forall|i: int, j: int|
            0 <= i < j < qs.len() implies bytes_lt(entry_key(#[trigger] qs[i]), entry_key(#[trigger] qs[j])) by {
            if i == 0 {
                if j > 1 {
                    assert(bytes_lt(entry_key(ps[0]), entry_key(ps[j - 1])));
                    lemma_bytes_lt_transitive(entry_key(s[x]), entry_key(ps[0]), entry_key(ps[j - 1]));
                }
            } else {
                assert(qs[i] == ps[i - 1] && qs[j] == ps[j - 1]);
            }
        }
    } else {
        let rest = p.drop_first();
        let ps = permuted(s, p);
        assert forall|i: int, j: int| 0 <= i < j < permuted(s, rest).len() implies bytes_lt(
            entry_key(#[trigger] permuted(s, rest)[i]),
            entry_key(#[trigger] permuted(s, rest)[j]),
        ) by {
            assert(permuted(s, rest)[i] == ps[i + 1] && permuted(s, rest)[j] == ps[j + 1]);
        }
        lemma_insert_by_key(s, rest, x);
        let r = insert_by_key(s, rest, x);
        assert(q =~= seq![p[0]] + r);
        assert forall|y: int| #[trigger] q.contains(y) <==> (p.contains(y) || y == x) by {
            if q.contains(y) {
                let k = choose|k: int| 0 <= k < q.len() && q[k] == y;
                if k > 0 {
                    assert(r[k - 1] == y);
                    assert(r.contains(y));
                    if rest.contains(y) {
                        let m = choose|m: int| 0 <= m < rest.len() && rest[m] == y;
                        assert(p[m + 1] == y);
                    }
                } else {
                    assert(p[0] == y);
                }
            }
            if p.contains(y) {
                let k = choose|k: int| 0 <= k < p.len() && p[k] == y;
                if k == 0 {
                    assert(q[0] == y);
                } else {
                    assert(rest[k - 1] == y);
                    assert(rest.contains(y));
                    assert(r.contains(y));
                    let m = choose|m: int| 0 <= m < r.len() && r[m] == y;
                    assert(q[m + 1] == y);
                }
            }
            if y == x {
                assert(r.contains(x));
                let m = choose|m: int| 0 <= m < r.len() && r[m] == x;
                assert(q[m + 1] == y);
            }
        }
        // the head comes before every entry of the rest, the new one included
        lemma_unique_keys_distinct_bytes(s, x, p[0]);
        assert(bytes_lt(entry_key(s[p[0]]), entry_key(s[x])));
        let qs = permuted(s, q);
        let rs = permuted(s, r);
        assert forall|i: int, j: int|
            0 <= i < j < qs.len() implies bytes_lt(entry_key(#[trigger] qs[i]), entry_key(#[trigger] qs[j])) by {
            if i == 0 {
                let y = r[j - 1];
                assert(r.contains(y));
                assert(qs[j] == s[y]);
                if y == x {
                } else {
                    assert(rest.contains(y));
                    let m = choose|m: int| 0 <= m < rest.len() && rest[m] == y;
                    assert(ps[m + 1] == s[y]);
                    assert(bytes_lt(entry_key(ps[0]), entry_key(ps[m + 1])));
                }
            } else {
                assert(qs[i] == rs[i - 1] && qs[j] == rs[j - 1]);
            }
        }
    }
}

/// The key order of the first `n` positions lists exactly those positions, sorted by key.
pub proof fn lemma_key_order_prefix(s: Seq<(Seq<char>, ValueModel)>, n: nat)
    requires
        keys_unique(s),
        n <= s.len(),
    ensures
        lists_prefix(s, key_order_prefix(s, n), n as int),
        strictly_sorted(permuted(s, key_order_prefix(s, n))),
    decreases n,
{
    if n == 0 {
        assert(permuted(s, key_order_prefix(s, 0)) =~= Seq::empty());
    } else {
        let p = key_order_prefix(s, (n - 1) as nat);
        lemma_key_order_prefix(s, (n - 1) as nat);
        lemma_insert_by_key(s, p, n - 1);
        let q = key_order_prefix(s, n);
        assert forall|k: int| 0 <= k < q.len() implies 0 <= #[trigger] q[k] < n by {
            assert(q.contains(q[k]));
            if q[k] != n - 1 {
                assert(p.contains(q[k]));
            }
        }
        assert forall|i: int| 0 <= i < n implies q.contains(i) by {
            if i < n - 1 {
                assert(p.contains(i));
            }
        }
    }
}

/// Two lists of entries, both strictly sorted by key and holding the same entries,
/// are the same list.
pub proof fn lemma_sorted_entries_equal(a: Seq<(Seq<char>, ValueModel)>, b: Seq<(Seq<char>, ValueModel)>)
    requires
        strictly_sorted(a),
        strictly_sorted(b),
        forall|x: (Seq<char>, ValueModel)| a.contains(x) <==> b.contains(x),
    ensures
        a == b,
{
    assert forall|k: int| 0 <= k < a.len() && k < b.len() implies a[k] == b[k] by {
        lemma_sorted_prefix_equal(a, b, k);
    }
    if a.len() < b.len() {
        let x = b[a.len() as int];
        assert(b.contains(x));
        let j = choose|j: int| 0 <= j < a.len() && a[j] == x;
        lemma_sorted_prefix_equal(a, b, j);
        assert(bytes_lt(entry_key(b[j]), entry_key(b[a.len() as int])));
        lemma_bytes_lt_irreflexive(entry_key(x));
    } else if b.len() < a.len() {
        let x = a[b.len() as int];
        assert(a.contains(x));
        let j = choose|j: int| 0 <= j < b.len() && b[j] == x;
        lemma_sorted_prefix_equal(a, b, j);
        assert(bytes_lt(entry_key(a[j]), entry_key(a[b.len() as int])));
        lemma_bytes_lt_irreflexive(entry_key(x));
    }
    assert(a =~= b);
}

proof fn lemma_sorted_prefix_equal(a: Seq<(Seq<char>, ValueModel)>, b: Seq<(Seq<char>, ValueModel)>, k: int)
    requires
        strictly_sorted(a),
        strictly_sorted(b),
        forall|x: (Seq<char>, ValueModel)| a.contains(x) <==> b.contains(x),
        0 <= k < a.len(),
        k < b.len(),
    ensures
        forall|j: int| 0 <= j <= k ==> a[j] == b[j],
    decreases k,
{
    if k > 0 {
        lemma_sorted_prefix_equal(a, b, k - 1);
    }
    if a[k] != b[k] {
        assert(a.contains(a[k]));
        let m = choose|m: int| 0 <= m < b.len() && b[m] == a[k];
        assert(b.contains(b[k]));
        let m2 = choose|m: int| 0 <= m < a.len() && a[m] == b[k];
        if m < k {
            assert(a[m] == b[m]);
            assert(bytes_lt(entry_key(a[m]), entry_key(a[k])));
            lemma_bytes_lt_irreflexive(entry_key(a[k]));
        }
        if m2 < k {
            assert(a[m2] == b[m2]);
            assert(bytes_lt(entry_key(b[m2]), entry_key(b[k])));
            lemma_bytes_lt_irreflexive(entry_key(b[k]));
        }
        assert(bytes_lt(entry_key(b[k]), entry_key(b[m])));
        assert(bytes_lt(entry_key(a[k]), entry_key(a[m2])));
        lemma_bytes_lt_asymmetric(entry_key(b[k]), entry_key(a[k]));
    }
}

/// Listing every position of `s` once gives the entries of `s`.
pub proof fn lemma_permuted_contains(s: Seq<(Seq<char>, ValueModel)>, p: Seq<int>)
    requires
        lists_prefix(s, p, s.len() as int),
    ensures
        forall|x: (Seq<char>, ValueModel)| permuted(s, p).contains(x) <==> s.contains(x),
{
    assert forall|x: (Seq<char>, ValueModel)| permuted(s, p).contains(x) <==> s.contains(x) by {
        if permuted(s, p).contains(x) {
            let k = choose|k: int| 0 <= k < p.len() && permuted(s, p)[k] == x;
            assert(s[p[k]] == x);
        }
        if s.contains(x) {
            let i = choose|i: int| 0 <= i < s.len() && s[i] == x;
            assert(p.contains(i));
            let k = choose|k: int| 0 <= k < p.len() && p[k] == i;
            assert(permuted(s, p)[k] == x);
        }
    }
}

// ---------------------------------------------------------------------------
// Hashing values
// ---------------------------------------------------------------------------

/// Type tag of `Null` in value hashing.
pub const TYPE_NULL: u64 = 0;
/// Type tag of booleans.
pub const TYPE_BOOL: u64 = 1;
/// Type tag of integers.
pub const TYPE_INT: u64 = 2;
/// Type tag of numbers.
pub const TYPE_FLOAT: u64 = 3;
/// Type tag of text.
pub const TYPE_STRING: u64 = 4;
/// Type tag of entity references.
pub const TYPE_ENTITY_REF: u64 = 5;
/// Type tag of lists.
pub const TYPE_LIST: u64 = 6;
/// Type tag of maps.
pub const TYPE_MAP: u64 = 7;

/// Two's-complement 64-bit value of an integer.
pub open spec fn low64(x: int) -> u64 {
    (x % 0x1_0000_0000_0000_0000) as u64
}

/// The seeded hash of a value: a type tag mixed with the seed, then the payload. Lists fold
/// their elements in order; maps fold key and value of each entry in the byte order of
/// the keys, so that the hash does not depend on insertion order.
pub open spec fn hash_model(v: ValueModel, seed: u64) -> u64
    decreases v, 0nat,
{
    match v {
        ValueModel::Null => mix(seed, TYPE_NULL, 0),
        ValueModel::Bool(b) => mix(
            mix(seed, TYPE_BOOL, 0),
            if b {
                1
            } else {
                0
            },
            1,
        ),
        ValueModel::Int(i) => mix(mix(seed, TYPE_INT, 0), i as u64, 1),
        ValueModel::Float(f) => mix(mix(seed, TYPE_FLOAT, 0), f, 1),
        ValueModel::Str(t) => mix(
            mix(seed, TYPE_STRING, 0),
            bytes_hash(encode_utf8(t), mix(seed, TYPE_STRING, 0)),
            1,
        ),
        ValueModel::Ref(id) => mix(mix(seed, TYPE_ENTITY_REF, 0), id, 1),
        ValueModel::List(l) => list_fold(l, l.len(), mix(seed, TYPE_LIST, 0)),
        ValueModel::Dict(s) => dict_fold(s, key_order(s), s.len(), mix(seed, TYPE_MAP, 0)),
    }
}

/// Hash state after the first `n` list elements, starting from `h0`.
pub open spec fn list_fold(l: Seq<ValueModel>, n: nat, h0: u64) -> u64
    decreases l, n,
{
    if n == 0 || n > l.len() {
        h0
    } else {
        let h = list_fold(l, (n - 1) as nat, h0);
        mix(h, hash_model(l[n - 1], h), n as u64)
    }
}

/// Hash state after the first `n` entries in the order `p`, starting from `h0`.
pub open spec fn dict_fold(s: Seq<(Seq<char>, ValueModel)>, p: Seq<int>, n: nat, h0: u64) -> u64
    decreases s, n,
{
    if n == 0 || n > p.len() {
        h0
    } else {
        let h = dict_fold(s, p, (n - 1) as nat, h0);
        let i = p[n - 1];
        if 0 <= i < s.len() {
            let kh = bytes_hash(entry_key(s[i]), h);
            let vh = hash_model(s[i].1, h);
            mix(mix(h, kh, low64(2 * (n - 1) + 1)), vh, low64(2 * (n - 1) + 2))
        } else {
            h
        }
    }
}

proof fn lemma_dict_fold_same_entries(
    a: Seq<(Seq<char>, ValueModel)>,
    pa: Seq<int>,
    b: Seq<(Seq<char>, ValueModel)>,
    pb: Seq<int>,
    n: nat,
    h0: u64,
)
    requires
        pa.len() == pb.len(),
        n <= pa.len(),
        forall|k: int| 0 <= k < pa.len() ==> 0 <= #[trigger] pa[k] < a.len(),
        forall|k: int| 0 <= k < pb.len() ==> 0 <= #[trigger] pb[k] < b.len(),
        permuted(a, pa) == permuted(b, pb),
    ensures
        dict_fold(a, pa, n, h0) == dict_fold(b, pb, n, h0),
    decreases n,
{
    if n > 0 {
        lemma_dict_fold_same_entries(a, pa, b, pb, (n - 1) as nat, h0);
        assert(permuted(a, pa)[n - 1] == permuted(b, pb)[n - 1]);
    }
}

/// Maps holding the same entries hash the same under any seed, whatever order the
/// entries were inserted in.
pub proof fn lemma_map_hash_order_independent(
    a: Seq<(Seq<char>, ValueModel)>,
    b: Seq<(Seq<char>, ValueModel)>,
    seed: u64,
)
    requires
        keys_unique(a),
        keys_unique(b),
        forall|x: (Seq<char>, ValueModel)| a.contains(x) <==> b.contains(x),
    ensures
        hash_model(ValueModel::Dict(a), seed) == hash_model(ValueModel::Dict(b), seed),
{
    let pa = key_order(a);
    let pb = key_order(b);
    lemma_key_order_prefix(a, a.len());
    lemma_key_order_prefix(b, b.len());
    lemma_permuted_contains(a, pa);
    lemma_permuted_contains(b, pb);
    assert forall|x: (Seq<char>, ValueModel)|
        permuted(a, pa).contains(x) <==> permuted(b, pb).contains(x) by {
        assert(permuted(a, pa).contains(x) <==> a.contains(x));
        assert(permuted(b, pb).contains(x) <==> b.contains(x));
    }
    lemma_sorted_entries_equal(permuted(a, pa), permuted(b, pb));
    assert(permuted(a, pa).len() == permuted(b, pb).len());
    lemma_dict_fold_same_entries(a, pa, b, pb, a.len(), mix(seed, TYPE_MAP, 0));
}

proof fn lemma_insert_by_key_at(s: Seq<(Seq<char>, ValueModel)>, p: Seq<int>, x: int, j: int)
    requires
        0 <= j <= p.len(),
        forall|k: int| 0 <= k < j ==> !bytes_lt(entry_key(s[x]), entry_key(s[#[trigger] p[k]])),
        j < p.len() ==> bytes_lt(entry_key(s[x]), entry_key(s[p[j]])),
    ensures
        insert_by_key(s, p, x) == p.insert(j, x),
    decreases j,
{
    if j == 0 {
        if p.len() == 0 {
            assert(p.insert(0, x) =~= seq![x]);
        } else {
            assert(p.insert(0, x) =~= seq![x] + p);
        }
    } else {
        let rest = p.drop_first();
        assert forall|k: int| 0 <= k < j - 1 implies !bytes_lt(
            entry_key(s[x]),
            entry_key(s[#[trigger] rest[k]]),
        ) by {
            assert(rest[k] == p[k + 1]);
        }
        assert(!bytes_lt(entry_key(s[x]), entry_key(s[p[0]])));
        lemma_insert_by_key_at(s, rest, x, j - 1);
        assert(p.insert(j, x) =~= seq![p[0]] + rest.insert(j - 1, x));
    }
}

/// The positions of a map's entries, ordered by the byte order of their keys.
pub fn key_order_of(m: &ValueMap) -> (r: Vec<usize>)
    ensures
        r@.map_values(|u: usize| u as int) == key_order(m@),
{
    let n = m.len();
    let mut p: Vec<usize> = Vec::new();
    let mut x: usize = 0;
    while x < n
        invariant
            n == m@.len(),
            x <= n,
            p@.map_values(|u: usize| u as int) == key_order_prefix(m@, x as nat),
            forall|k: int| 0 <= k < p@.len() ==> #[trigger] p@[k] < n,
        decreases n - x,
    {
        let ghost pg = p@.map_values(|u: usize| u as int);
        let kx = m.entry(x).0.as_str().as_bytes();
        let mut j: usize = 0;
        while j < p.len() && !bytes_less(kx, m.entry(p[j]).0.as_str().as_bytes())
            invariant
                n == m@.len(),
                x < n,
                j <= p@.len(),
                kx@ == entry_key(m@[x as int]),
                pg == p@.map_values(|u: usize| u as int),
                forall|k: int| 0 <= k < p@.len() ==> #[trigger] p@[k] < n,
                forall|k: int|
                    0 <= k < j ==> !bytes_lt(entry_key(m@[x as int]), entry_key(m@[#[trigger] pg[k]])),
            decreases p@.len() - j,
        {
            j = j + 1;
        }
        proof {
            if j < p@.len() {
                assert(bytes_lt(entry_key(m@[x as int]), entry_key(m@[pg[j as int]])));
            }
            lemma_insert_by_key_at(m@, pg, x as int, j as int);
        }
        p.insert(j, x);
        proof {
            assert(p@.map_values(|u: usize| u as int) =~= pg.insert(j as int, x as int));
        }
        x = x + 1;
    }
    p
}

proof fn lemma_low64_step(k: u64, c: u64)
    requires
        1 <= c <= 2,
    ensures
        vstd::wrapping::u64_specs::wrapping_add(wrapping_mul(k, 2), c) == low64(2 * k + c),
{
    let m: int = 0x1_0000_0000_0000_0000;
    let x: int = 2 * k;
    lemma_fundamental_div_mod(x, m);
    lemma_mul_is_commutative(m, x / m);
    let q = x / m;
    let w = x % m;
    assert(wrapping_mul(k, 2) == w as u64);
    if w + c < m {
        lemma_fundamental_div_mod_converse(x + c, m, q, w + c);
    } else {
        assert((q + 1) * m == q * m + m) by (nonlinear_arith);
        lemma_fundamental_div_mod_converse(x + c, m, q + 1, w + c - m);
    }
}

/// The mixing slots of the key and the value of the `k`-th entry: `2k + 1` and `2k + 2`
/// as 64-bit numbers.
fn entry_slots(k: usize) -> (r: (u64, u64))
    ensures
        r.0 == low64(2 * k + 1),
        r.1 == low64(2 * k + 2),
{
    let kk = k as u64;
    proof {
        lemma_low64_step(kk, 1);
        lemma_low64_step(kk, 2);
    }
    (kk.wrapping_mul(2).wrapping_add(1), kk.wrapping_mul(2).wrapping_add(2))
}

/// Hash a value with a seed (see [`hash_model`]).
pub fn hash_value_with_seed(value: &Value, seed: u64) -> (r: u64)
    ensures
        r == hash_model(value.model(), seed),
    decreases value.model(),
{
    match value {
        Value::Null => hash_seed(seed, TYPE_NULL, 0),
        Value::Bool(b) => {
            let val: u64 = if *b {
                1
            } else {
                0
            };
            let h = hash_seed(seed, TYPE_BOOL, 0);
            hash_seed(h, val, 1)
        },
        Value::Int(i) => {
            let h = hash_seed(seed, TYPE_INT, 0);
            hash_seed(h, *i as u64, 1)
        },
        Value::Float(f) => {
            let h = hash_seed(seed, TYPE_FLOAT, 0);
            hash_seed(h, *f, 1)
        },
        Value::String(s) => {
            let h = hash_seed(seed, TYPE_STRING, 0);
            let string_hash = hash_bytes_with_seed(s.as_str().as_bytes(), h);
            hash_seed(h, string_hash, 1)
        },
        Value::EntityRef(id) => {
            let h = hash_seed(seed, TYPE_ENTITY_REF, 0);
            hash_seed(h, id.raw(), 1)
        },
        Value::List(list) => {
            let ghost ms = models_of(list@);
            proof {
                lemma_models_of(list@);
            }
            let n = list.len();
            let mut h = hash_seed(seed, TYPE_LIST, 0);
            let mut i: usize = 0;
            while i < n
                invariant
                    n == list@.len(),
                    ms == models_of(list@),
                    ms.len() == n,
                    forall|k: int| 0 <= k < n ==> #[trigger] ms[k] == list@[k].model(),
                    value.model() == ValueModel::List(ms),
                    i <= n,
                    h == list_fold(ms, i as nat, mix(seed, TYPE_LIST, 0)),
                decreases n - i,
            {
                assert(decreases_to!(value.model() => value.model()->List_0));
                assert(decreases_to!(ms => ms[i as int]));
                let elem_hash = hash_value_with_seed(&list[i], h);
                h = hash_seed(h, elem_hash, i as u64 + 1);
                i = i + 1;
            }
            h
        },
        Value::Dict(map) => {
            let ghost s = map@;
            map.keys_are_unique();
            let order = key_order_of(map);
            let ghost pg = order@.map_values(|u: usize| u as int);
            proof {
                lemma_key_order_prefix(s, s.len());
            }
            let n = map.len();
            let mut h = hash_seed(seed, TYPE_MAP, 0);
            let mut k: usize = 0;
            while k < n
                invariant
                    s == map@,
                    n == s.len(),
                    pg == order@.map_values(|u: usize| u as int),
                    pg == key_order(s),
                    lists_prefix(s, pg, n as int),
                    value.model() == ValueModel::Dict(s),
                    k <= n,
                    h == dict_fold(s, pg, k as nat, mix(seed, TYPE_MAP, 0)),
                decreases n - k,
            {
                let i = order[k];
                assert(pg[k as int] == i as int);
                let e = map.entry(i);
                let key_hash = hash_bytes_with_seed(e.0.as_str().as_bytes(), h);
                assert(decreases_to!(value.model() => value.model()->Dict_0));
                assert(decreases_to!(s => s[i as int]));
                assert(decreases_to!(s[i as int] => s[i as int].1));
                let val_hash = hash_value_with_seed(&e.1, h);
                let (pos_key, pos_val) = entry_slots(k);
                h = hash_seed(h, key_hash, pos_key);
                h = hash_seed(h, val_hash, pos_val);
                k = k + 1;
            }
            h
        },
    }
}

} // verus!
