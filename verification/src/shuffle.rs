//! A seeded shuffle: the generator it draws from and the orders it produces.

use vstd::prelude::*;

verus! {

/// Generator state that a seed starts from: never zero, from which every number
/// drawn would be zero. Seed zero counts as one.
pub open spec fn rng_start(seed: u64) -> u64 {
    let mixed = (if seed == 0 {
        1u64
    } else {
        seed
    }) ^ 0x9E37_79B9_7F4A_7C15u64;
    if mixed == 0 {
        0x9E37_79B9_7F4A_7C15u64
    } else {
        mixed
    }
}

/// One xorshift step of the generator state.
pub open spec fn rng_mix(x: u64) -> u64 {
    let a = x ^ (x >> 12u64);
    let b = a ^ (a << 25u64);
    b ^ (b >> 27u64)
}

/// The number drawn from a generator state.
pub open spec fn rng_out(x: u64) -> u64 {
    x.wrapping_mul(0x2545_F491_4F6C_DD1D)
}

/// Deterministic, seedable generator for shuffling. Seeding makes a shuffle
/// reproducible rather than something one hopes is uniform.
pub struct Rng {
    pub state: u64,
}

impl Rng {
    pub fn new(seed: u64) -> (r: Self)
        ensures
            r.state == rng_start(seed),
            r.state != 0,
    {
        let start: u64 = if seed == 0 {
            1
        } else {
            seed
        };
        let mixed: u64 = start ^ 0x9E37_79B9_7F4A_7C15u64;
        if mixed == 0 {
            Rng { state: 0x9E37_79B9_7F4A_7C15 }
        } else {
            Rng { state: mixed }
        }
    }

    pub fn next_u64(&mut self) -> (r: u64)
        ensures
            final(self).state == rng_mix(old(self).state),
            r == rng_out(final(self).state),
            old(self).state != 0 ==> final(self).state != 0 && r != 0,
    {
        proof {
            if self.state != 0 {
                lemma_mix_keeps_nonzero(self.state);
                lemma_out_is_nonzero(rng_mix(self.state));
            }
        }
        let mut x: u64 = self.state;
        x = x ^ (x >> 12u64);
        x = x ^ (x << 25u64);
        x = x ^ (x >> 27u64);
        self.state = x;
        x.wrapping_mul(0x2545_F491_4F6C_DD1D)
    }

    /// A number below `n`, or zero when there is none.
    pub fn below(&mut self, n: usize) -> (r: usize)
        ensures
            n == 0 ==> r == 0 && final(self).state == old(self).state,
            n > 0 ==> {
                &&& final(self).state == rng_mix(old(self).state)
                &&& r == rng_out(final(self).state) % (n as u64)
                &&& r < n
            },
    {
        if n == 0 {
            0
        } else {
            (self.next_u64() % n as u64) as usize
        }
    }
}

/// A step never leads to zero from elsewhere.
proof fn lemma_mix_keeps_nonzero(x: u64)
    requires
        x != 0,
    ensures
        rng_mix(x) != 0,
{
    assert(x != 0 ==> x ^ (x >> 12u64) != 0) by (bit_vector);
    let a = x ^ (x >> 12u64);
    assert(a != 0 ==> a ^ (a << 25u64) != 0) by (bit_vector);
    let b = a ^ (a << 25u64);
    assert(b != 0 ==> b ^ (b >> 27u64) != 0) by (bit_vector);
}

/// The multiplier is odd, so it has an inverse: only zero is sent to zero.
proof fn lemma_out_is_nonzero(x: u64)
    requires
        x != 0,
    ensures
        rng_out(x) != 0,
{
    if rng_out(x) == 0 {
        let m: int = 0x2545_F491_4F6C_DD1D;
        let inverse: int = 0x5907_1D96_D81E_CD35;
        let whole: int = 0x1_0000_0000_0000_0000;
        let k: int = (x * m) / whole;
        assert(x * m == k * whole) by {
            assert((x * m) % whole == 0);
            vstd::arithmetic::div_mod::lemma_fundamental_div_mod(x * m, whole);
            vstd::arithmetic::mul::lemma_mul_is_commutative(whole, k);
        }
        let c: int = 934034299265436267;
        assert(m * inverse == 1 + c * whole);
        assert(x == (k * inverse - x * c) * whole) by (nonlinear_arith)
            requires
                x * m == k * whole,
                m * inverse == 1 + c * whole,
        ;
        assert(false) by (nonlinear_arith)
            requires
                x == (k * inverse - x * c) * whole,
                0 < x < whole,
        ;
    }
}

/// The generator state after `k` numbers were drawn.
pub open spec fn rng_after(seed: u64, k: nat) -> u64
    decreases k,
{
    if k == 0 {
        rng_start(seed)
    } else {
        rng_mix(rng_after(seed, (k - 1) as nat))
    }
}

/// The generator never degenerates: from any seed, however many numbers are
/// drawn, its state is not zero, and neither is what it draws from it.
pub proof fn law_generator_never_degenerates(seed: u64, k: nat)
    ensures
        rng_after(seed, k) != 0,
        rng_out(rng_after(seed, k)) != 0,
    decreases k,
{
    if k > 0 {
        law_generator_never_degenerates(seed, (k - 1) as nat);
        lemma_mix_keeps_nonzero(rng_after(seed, (k - 1) as nat));
    }
    lemma_out_is_nonzero(rng_after(seed, k));
}

/// The positions `0..n` in order.
pub open spec fn identity(n: nat) -> Seq<usize> {
    Seq::new(n, |i: int| i as usize)
}

/// `s` with the entries at `i` and `j` exchanged.
pub open spec fn swapped<T>(s: Seq<T>, i: int, j: int) -> Seq<T> {
    s.update(i, s[j]).update(j, s[i])
}

/// Whether `order` holds each of `0..n` exactly once.
pub open spec fn is_order(order: Seq<usize>, n: nat) -> bool {
    &&& order.len() == n
    &&& order.no_duplicates()
    &&& forall|i: int| 0 <= i < n ==> #[trigger] order[i] < n
    &&& forall|c: usize| c < n ==> #[trigger] order.contains(c)
}

/// Fisher-Yates from entry `i` down to entry 1.
pub open spec fn shuffle_from(order: Seq<usize>, state: u64, i: nat) -> Seq<usize>
    decreases i,
{
    if i == 0 {
        order
    } else {
        let next = rng_mix(state);
        let j = rng_out(next) % ((i + 1) as u64);
        shuffle_from(swapped(order, i as int, j as int), next, (i - 1) as nat)
    }
}

/// The order that `seed` gives `n` positions.
pub open spec fn shuffled(n: nat, seed: u64) -> Seq<usize> {
    if n == 0 {
        identity(n)
    } else {
        shuffle_from(identity(n), rng_start(seed), (n - 1) as nat)
    }
}

pub proof fn lemma_identity_is_order(n: nat)
    requires
        n <= usize::MAX,
    ensures
        is_order(identity(n), n),
{
    assert forall|c: usize| c < n implies #[trigger] identity(n).contains(c) by {
        assert(identity(n)[c as int] == c);
    }
}

pub proof fn lemma_swap_is_order(order: Seq<usize>, n: nat, i: int, j: int)
    requires
        is_order(order, n),
        0 <= i < n,
        0 <= j < n,
    ensures
        is_order(swapped(order, i, j), n),
{
    let s = swapped(order, i, j);
    assert forall|c: usize| c < n implies #[trigger] s.contains(c) by {
        assert(order.contains(c));
        let k = order.index_of(c);
        if k == i {
            assert(s[j] == c);
        } else if k == j {
            assert(s[i] == c);
        } else {
            assert(s[k] == c);
        }
    }
}

pub proof fn lemma_shuffle_from_is_order(order: Seq<usize>, n: nat, state: u64, i: nat)
    requires
        is_order(order, n),
        n <= usize::MAX,
        i < n || i == 0,
    ensures
        is_order(shuffle_from(order, state, i), n),
    decreases i,
{
    if i > 0 {
        let next = rng_mix(state);
        let j = rng_out(next) % ((i + 1) as u64);
        assert(0 <= j < i + 1);
        lemma_swap_is_order(order, n, i as int, j as int);
        lemma_shuffle_from_is_order(swapped(order, i as int, j as int), n, next, (i - 1) as nat);
    }
}

/// Shuffling is a permutation: every position comes up exactly once.
pub proof fn lemma_shuffled_is_order(n: nat, seed: u64)
    requires
        n <= usize::MAX,
    ensures
        is_order(shuffled(n, seed), n),
{
    lemma_identity_is_order(n);
    if n > 0 {
        lemma_shuffle_from_is_order(identity(n), n, rng_start(seed), (n - 1) as nat);
    }
}

/// Exchange two entries.
pub fn swap(v: &mut Vec<usize>, i: usize, j: usize)
    requires
        i < old(v)@.len(),
        j < old(v)@.len(),
    ensures
        final(v)@ == swapped(old(v)@, i as int, j as int),
{
    let a: usize = v[i];
    let b: usize = v[j];
    v.set(i, b);
    v.set(j, a);
}

/// The positions `0..n` in order.
pub fn in_order(n: usize) -> (v: Vec<usize>)
    ensures
        v@ == identity(n as nat),
{
    let mut v: Vec<usize> = Vec::new();
    let mut i: usize = 0;
    while i < n
        invariant
            i <= n,
            v@ == identity(i as nat),
        decreases n - i,
    {
        v.push(i);
        i = i + 1;
    }
    v
}

/// The order that `seed` gives `n` positions.
pub fn shuffle(n: usize, seed: u64) -> (v: Vec<usize>)
    ensures
        v@ == shuffled(n as nat, seed),
        is_order(v@, n as nat),
{
    let mut v = in_order(n);
    proof {
        lemma_identity_is_order(n as nat);
        lemma_shuffled_is_order(n as nat, seed);
    }
    if n == 0 {
        return v;
    }
    let mut rng = Rng::new(seed);
    let mut i: usize = n - 1;
    while i > 0
        invariant
            i < n,
            v@.len() == n,
            shuffled(n as nat, seed) == shuffle_from(v@, rng.state, i as nat),
        decreases i,
    {
        let j: usize = rng.below(i + 1);
        swap(&mut v, i, j);
        i = i - 1;
    }
    v
}

/// Where `x` first stands in `v`.
pub fn position(v: &[usize], x: usize) -> (r: Option<usize>)
    ensures
        match r {
            Some(i) => i < v@.len() && v@[i as int] == x && (forall|j: int|
                0 <= j < i ==> v@[j] != x),
            None => !v@.contains(x),
        },
{
    let mut i: usize = 0;
    while i < v.len()
        invariant
            i <= v@.len(),
            forall|j: int| 0 <= j < i ==> v@[j] != x,
        decreases v@.len() - i,
    {
        if v[i] == x {
            return Some(i);
        }
        i = i + 1;
    }
    None
}

} // verus!
