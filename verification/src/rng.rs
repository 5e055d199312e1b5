//! Deterministic random number generation (xorshift64).
use vstd::prelude::*;

verus! {

broadcast use {
    vstd::seq_lib::to_multiset_remove,
    vstd::seq_lib::to_multiset_insert,
    vstd::seq_lib::to_multiset_contains,
    vstd::multiset::group_multiset_axioms,
};

/// One step of the xorshift64 generator.
pub open spec fn xorshift(x: u64) -> u64 {
    let a = x ^ (x << 13u64);
    let b = a ^ (a >> 7u64);
    b ^ (b << 17u64)
}

/// The state after `n` steps from `x`.
pub open spec fn xorshift_iter(x: u64, n: nat) -> u64
    decreases n,
{
    if n == 0 {
        x
    } else {
        xorshift(xorshift_iter(x, (n - 1) as nat))
    }
}

/// Fisher-Yates steps from position `i` down to 1, starting from generator state `x`: each
/// step advances the generator and swaps position `i` with the new state modulo `i + 1`.
pub open spec fn shuffle_from<T>(s: Seq<T>, i: nat, x: u64) -> Seq<T>
    decreases i,
{
    if i == 0 {
        s
    } else {
        let y = xorshift(x);
        let j: int = (y as usize) as int % (i as int + 1);
        shuffle_from(s.update(i as int, s[j]).update(j, s[i as int]), (i - 1) as nat, y)
    }
}

/// The Fisher-Yates shuffle of `s` with a generator in state `x`, from the last position down.
pub open spec fn fisher_yates<T>(s: Seq<T>, x: u64) -> Seq<T> {
    if s.len() == 0 {
        s
    } else {
        shuffle_from(s, (s.len() - 1) as nat, x)
    }
}

/// The state a generator starts from for a seed (zero is replaced by one).
pub open spec fn seeded_state(seed: u64) -> u64 {
    if seed == 0 {
        1
    } else {
        seed
    }
}

/// A step of the generator never reaches the zero state from another one.
pub proof fn lemma_xorshift_nonzero(x: u64)
    requires
        x != 0,
    ensures
        xorshift(x) != 0,
{
    assert(x != 0 ==> ((x ^ (x << 13u64)) ^ ((x ^ (x << 13u64)) >> 7u64)) ^ (((x ^ (x << 13u64)) ^ (
    (x ^ (x << 13u64)) >> 7u64)) << 17u64) != 0) by (bit_vector);
}

/// A deterministic random number generator; its state is never zero.
#[derive(Debug)]
pub struct GameRng {
    state: u64,
}

/// Two generators with the same state are the same.
pub proof fn lemma_view_eq(a: GameRng, b: GameRng)
    requires
        a@ == b@,
    ensures
        a == b,
{
}

impl View for GameRng {
    type V = u64;

    closed spec fn view(&self) -> u64 {
        self.state
    }
}

/// Swap the elements at positions `i` and `j` of `v`.
pub fn vec_swap<T>(v: &mut Vec<T>, i: usize, j: usize)
    requires
        i < old(v)@.len(),
        j < old(v)@.len(),
    ensures
        final(v)@ == old(v)@.update(i as int, old(v)@[j as int]).update(j as int, old(v)@[i as int]),
        final(v)@.to_multiset() == old(v)@.to_multiset(),
{
    if i == j {
        assert(v@ =~= old(v)@.update(i as int, old(v)@[j as int]).update(j as int, old(v)@[i as int]));
        return;
    }
    let (lo, hi) = if i < j {
        (i, j)
    } else {
        (j, i)
    };
    let ghost s0 = v@;
    let x_hi = v.remove(hi);
    let ghost s1 = v@;
    v.insert(lo, x_hi);
    let ghost s2 = v@;
    let x_lo = v.remove(lo + 1);
    let ghost s3 = v@;
    v.insert(hi, x_lo);
    proof {
        assert(v@ =~= s0.update(i as int, s0[j as int]).update(j as int, s0[i as int]));
        assert(s1.to_multiset() == s0.to_multiset().remove(s0[hi as int]));
        assert(s2.to_multiset() == s1.to_multiset().insert(s0[hi as int]));
        assert(s0.contains(s0[hi as int]));
        assert(s2.to_multiset() =~= s0.to_multiset());
        assert(s2[lo as int] == s0[hi as int]);
        assert(s2[lo + 1] == s0[lo as int]);
        assert(s3.to_multiset() == s2.to_multiset().remove(s0[lo as int]));
        assert(v@.to_multiset() == s3.to_multiset().insert(s0[lo as int]));
        assert(s2.contains(s0[lo as int]));
        assert(v@.to_multiset() =~= s0.to_multiset());
    }
}

impl Default for GameRng {
    /// The generator with the default seed, 12345.
    fn default() -> (r: Self)
        ensures
            r@ == 12345,
    {
        Self::new(12345)
    }
}

impl GameRng {
    #[verifier::type_invariant]
    spec fn inv(self) -> bool {
        self.state != 0
    }

    /// The state of a generator is never zero.
    pub fn state_is_nonzero(&self)
        ensures
            self@ != 0,
    {
        proof {
            use_type_invariant(self);
        }
    }

    /// Create a generator from a seed; a zero seed is replaced by one.
    pub fn new(seed: u64) -> (r: Self)
        ensures
            r@ == seeded_state(seed),
    {
        let state = if seed == 0 {
            1
        } else {
            seed
        };
        GameRng { state }
    }

    /// Create a generator from a saved state; a zero state is replaced by one.
    pub fn from_state(state: u64) -> (r: Self)
        ensures
            r@ == seeded_state(state),
    {
        let state = if state == 0 {
            1
        } else {
            state
        };
        GameRng { state }
    }

    /// The current state.
    pub fn state(&self) -> (r: u64)
        ensures
            r == self@,
    {
        self.state
    }

    /// Advance one step and return the new state.
    pub fn next_u64(&mut self) -> (r: u64)
        ensures
            r == xorshift(old(self)@),
            final(self)@ == r,
    {
        proof {
            use_type_invariant(&*self);
        }
        let mut x = self.state;
        x = x ^ (x << 13u64);
        x = x ^ (x >> 7u64);
        x = x ^ (x << 17u64);
        proof {
            lemma_xorshift_nonzero(self.state);
        }
        self.state = x;
        x
    }

    /// Advance one step and return the upper 32 bits of the new state.
    pub fn next_u32(&mut self) -> (r: u32)
        ensures
            r == (xorshift(old(self)@) >> 32u64) as u32,
            final(self)@ == xorshift(old(self)@),
    {
        (self.next_u64() >> 32u64) as u32
    }

    /// A value in `[min, max]`: `min` plus the next state modulo the width of the range.
    pub fn range_i64(&mut self, min: i64, max: i64) -> (r: i64)
        requires
            min <= max,
            max - min < i64::MAX,
        ensures
            r == min + (xorshift(old(self)@) % ((max - min + 1) as u64)) as int,
            min <= r <= max,
            final(self)@ == xorshift(old(self)@),
    {
        let range = (max - min + 1) as u64;
        let value = self.next_u64() % range;
        min + value as i64
    }

    /// A fair coin: the lowest bit of the next state.
    pub fn coin_flip(&mut self) -> (r: bool)
        ensures
            r == (xorshift(old(self)@) & 1u64 == 1u64),
            final(self)@ == xorshift(old(self)@),
    {
        self.next_u64() & 1 == 1
    }

    /// Shuffle in place (Fisher-Yates): for `i` from the last position down to 1, swap
    /// position `i` with position `next % (i + 1)`.
    pub fn shuffle<T>(&mut self, v: &mut Vec<T>)
        ensures
            final(v)@ == fisher_yates(old(v)@, old(self)@),
            final(v)@.to_multiset() == old(v)@.to_multiset(),
            final(v)@.len() == old(v)@.len(),
            final(self)@ == xorshift_iter(
                old(self)@,
                (if old(v)@.len() == 0 {
                    0
                } else {
                    old(v)@.len() - 1
                }) as nat,
            ),
    {
        let n = v.len();
        if n == 0 {
            return;
        }
        let mut i = n - 1;
        while i > 0
            invariant
                i < n,
                v@.len() == n,
                v@.to_multiset() == old(v)@.to_multiset(),
                self@ == xorshift_iter(old(self)@, (n - 1 - i) as nat),
                fisher_yates(old(v)@, old(self)@) == shuffle_from(v@, i as nat, self@),
            decreases i,
        {
            let j = (self.next_u64() as usize) % (i + 1);
            vec_swap(v, i, j);
            i = i - 1;
        }
    }

    /// A uniformly indexed element: the one at the next state modulo the length.
    pub fn pick<'a, T>(&mut self, slice: &'a [T]) -> (r: Option<&'a T>)
        ensures
            slice@.len() == 0 ==> r is None && final(self)@ == old(self)@,
            slice@.len() > 0 ==> r == Some(
                &slice@[((xorshift(old(self)@) as usize) % (slice@.len() as usize)) as int],
            ) && final(self)@ == xorshift(old(self)@),
    {
        if slice.len() == 0 {
            None
        } else {
            let i = (self.next_u64() as usize) % slice.len();
            Some(&slice[i])
        }
    }
}

} // verus!
