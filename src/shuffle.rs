//! A small xorshift generator and the in-place shuffle that selection uses for fairness.

use vstd::prelude::*;

verus! {

/// One step of the 32-bit xorshift generator.
pub open spec fn xorshift(x: u32) -> u32 {
    let a = x ^ (x << 13u32);
    let b = a ^ (a >> 17u32);
    b ^ (b << 5u32)
}

/// The position in `0..n` that a draw `x` picks: the top half of `x * n`, taken
/// modulo 2^64.
pub open spec fn scale(x: u32, n: usize) -> usize {
    (((x as u64) as int * (n as u64) as int) % 0x1_0000_0000_0000_0000int / 0x1_0000_0000int) as usize
}

/// `p` maps `0..n` onto `0..n` one to one.
pub open spec fn is_permutation(p: Seq<int>, n: int) -> bool {
    &&& p.len() == n
    &&& forall|k: int| 0 <= k < n ==> 0 <= #[trigger] p[k] < n
    &&& forall|a: int, b: int| 0 <= a < n && 0 <= b < n && a != b ==> #[trigger] p[a] != #[trigger] p[b]
}

/// `a` holds the items of `b` in some order: item `k` of `a` is item `p[k]` of `b`.
pub open spec fn permutes<T>(a: Seq<T>, b: Seq<T>) -> bool {
    &&& a.len() == b.len()
    &&& exists|p: Seq<int>|
        is_permutation(p, a.len() as int) && forall|k: int| 0 <= k < a.len() ==> #[trigger] a[k] == b[p[k]]
}

/// `s` with the items at `i` and `j` exchanged.
pub open spec fn swapped<T>(s: Seq<T>, i: int, j: int) -> Seq<T> {
    s.update(i, s[j]).update(j, s[i])
}

/// The shuffle from position `i` on, with the generator in state `x`: the generator
/// steps once, the draw picks `j` in `0..=i`, items `i` and `j` change places, and the
/// shuffle goes on from `i + 1`, up to `n`. Returns the items and the generator's final
/// state.
pub open spec fn shuffle_from<T>(s: Seq<T>, x: u32, i: nat, n: nat) -> (Seq<T>, u32)
    decreases n - i,
{
    if i >= n {
        (s, x)
    } else {
        let y = xorshift(x);
        let j = scale(y, (i + 1) as usize);
        shuffle_from(swapped(s, i as int, j as int), y, i + 1, n)
    }
}

/// The items and generator state that shuffling `s` with a generator in state `x`
/// gives: nothing moves and no draw is made for fewer than two items.
pub open spec fn shuffled<T>(s: Seq<T>, x: u32) -> (Seq<T>, u32) {
    if s.len() <= 1 {
        (s, x)
    } else {
        shuffle_from(s, x, 1, s.len())
    }
}

/// A pseudo-random generator of 32-bit words; its state is never zero.
#[derive(Clone, Copy, Debug)]
pub struct XorShift {
    state: u32,
}

/// The seed that a fresh generator starts from.
pub const SEED: u32 = 1406868647;

impl XorShift {
    pub closed spec fn view(self) -> u32 {
        self.state
    }

    /// A generator seeded with `seed`, or with `SEED` when `seed` is zero (a zero state
    /// would stay zero).
    pub fn new(seed: u32) -> (r: XorShift)
        ensures
            r@ == (if seed == 0 { SEED } else { seed }),
    {
        if seed == 0 {
            XorShift { state: SEED }
        } else {
            XorShift { state: seed }
        }
    }

    /// The current state, from which an equal generator can be rebuilt.
    pub fn state(&self) -> (r: u32)
        ensures
            r == self@,
    {
        self.state
    }

    /// Advances the generator and returns the new state.
    pub fn next_u32(&mut self) -> (r: u32)
        ensures
            r == xorshift(old(self)@),
            final(self)@ == r,
    {
        let mut x = self.state;
        x = x ^ (x << 13u32);
        x = x ^ (x >> 17u32);
        x = x ^ (x << 5u32);
        self.state = x;
        x
    }
}

/// Maps a draw `x` to a position below `n`, without division.
pub fn scale_draw(x: u32, n: usize) -> (j: usize)
    requires
        n > 0,
    ensures
        j == scale(x, n),
        j < n,
{
    let prod = (x as u64).wrapping_mul(n as u64);
    let j = (prod >> 32u64) as u32 as usize;
    proof {
        let xi = (x as u64) as int;
        let ni = (n as u64) as int;
        assert(prod as int == (xi * ni) % 0x1_0000_0000_0000_0000int);
        assert((prod >> 32u64) == prod / 0x1_0000_0000u64) by (bit_vector);
        assert(prod / 0x1_0000_0000u64 < 0x1_0000_0000u64) by (nonlinear_arith);
        if ni <= 0xffff_ffff {
            assert(xi * ni < 0x1_0000_0000_0000_0000int) by (nonlinear_arith)
                requires
                    0 <= xi < 0x1_0000_0000int,
                    0 < ni <= 0xffff_ffff,
            ;
            assert(xi * ni / 0x1_0000_0000int < ni) by (nonlinear_arith)
                requires
                    0 <= xi < 0x1_0000_0000int,
                    0 < ni,
            ;
        }
    }
    j
}

/// Swaps items `i` and `j` of `v`.
fn swap_items<T: Copy>(v: &mut Vec<T>, i: usize, j: usize)
    requires
        i < old(v).len(),
        j < old(v).len(),
    ensures
        final(v)@ == old(v)@.update(i as int, old(v)@[j as int]).update(j as int, old(v)@[i as int]),
{
    let a = v[i];
    let b = v[j];
    v.set(i, b);
    v.set(j, a);
}

/// Puts the items of `v` in a pseudo-random order drawn from `rng`.
///
/// For each position `i` from 1 up, one draw picks `j` in `0..=i` and the items at `i`
/// and `j` change places.
pub fn shuffle<T: Copy>(v: &mut Vec<T>, rng: &mut XorShift)
    ensures
        (final(v)@, final(rng)@) == shuffled(old(v)@, old(rng)@),
        permutes(final(v)@, old(v)@),
{
    let len = v.len();
    let ghost orig = v@;
    let ghost orig_rng = rng@;
    let ghost mut p: Seq<int> = Seq::new(len as nat, |k: int| k);
    if len <= 1 {
        assert(is_permutation(p, len as int));
        assert(forall|k: int| 0 <= k < v@.len() ==> #[trigger] v@[k] == orig[p[k]]);
        return;
    }
    let mut i: usize = 1;
    while i < len
        invariant
            1 <= i <= len,
            len == v@.len(),
            orig.len() == len,
            is_permutation(p, len as int),
            forall|k: int| 0 <= k < len ==> #[trigger] v@[k] == orig[p[k]],
            shuffle_from(v@, rng@, i as nat, len as nat) == shuffle_from(orig, orig_rng, 1, len as nat),
        decreases len - i,
    {
        let ghost old_v = v@;
        let ghost old_rng = rng@;
        let x = rng.next_u32();
        let j = scale_draw(x, i + 1);
        let ghost old_p = p;
        swap_items(v, i, j);
        proof {
            assert(v@ == swapped(old_v, i as int, j as int));
            assert(shuffle_from(old_v, old_rng, i as nat, len as nat) == shuffle_from(v@, rng@, (i + 1) as nat, len as nat));
            p = old_p.update(i as int, old_p[j as int]).update(j as int, old_p[i as int]);
            assert forall|k: int| 0 <= k < len implies #[trigger] v@[k] == orig[p[k]] by {
                if k == j as int {
                } else if k == i as int {
                } else {
                }
            }
            assert forall|a: int, b: int| 0 <= a < len && 0 <= b < len && a != b implies #[trigger] p[a]
                != #[trigger] p[b] by {
                let sa = if a == j as int { i as int } else if a == i as int { j as int } else { a };
                let sb = if b == j as int { i as int } else if b == i as int { j as int } else { b };
                assert(p[a] == old_p[sa]);
                assert(p[b] == old_p[sb]);
            }
            assert forall|k: int| 0 <= k < len implies 0 <= #[trigger] p[k] < len by {
                let sk = if k == j as int { i as int } else if k == i as int { j as int } else { k };
                assert(p[k] == old_p[sk]);
            }
        }
        i = i + 1;
    }
    assert(forall|k: int| 0 <= k < v@.len() ==> #[trigger] v@[k] == orig[p[k]]);
}

} // verus!
