//! The integer half of the gradient-noise sampler: the permutation table,
//! the origin of the lattice and the gradients at the corners of a cell.
//! The interpolation between the corners is arithmetic on real numbers and
//! is left to the caller.

use vstd::prelude::*;
use java_rand::Random;
use crate::rand::bedrock::legacy::{draw, lcg_step, lemma_draw_range, lemma_step_is_state, pow2_of, scramble};
use crate::rand::java::{bounded_draw, random_state};

verus! {

/// The number of entries of a permutation table.
pub const TABLE_SIZE: usize = 256;

/// The table before shuffling: every byte in its own place.
pub open spec fn identity_table() -> Seq<u8> {
    Seq::new(256, |i: int| i as u8)
}

/// `s` with the entries at `i` and `j` exchanged.
pub open spec fn swapped(s: Seq<u8>, i: int, j: int) -> Seq<u8> {
    s.update(i, s[j]).update(j, s[i])
}

/// Whether `s` is a permutation of the 256 bytes: each byte stands in it,
/// and none twice.
pub open spec fn is_permutation(s: Seq<u8>) -> bool {
    &&& s.len() == 256
    &&& s.no_duplicates()
    &&& forall|v: u8| #[trigger] s.contains(v)
}

/// Whether `draws` can drive a shuffle: draw `j` picks one of the `256 - j`
/// places from `j` on.
pub open spec fn valid_draws(draws: Seq<i32>) -> bool {
    &&& draws.len() == 256
    &&& forall|j: int| 0 <= j < 256 ==> 0 <= #[trigger] draws[j] < 256 - j
}

/// The table after the first `j` steps of the shuffle: step `i` exchanges
/// the entry at `i` with the one `draws[i]` places further on.
pub open spec fn shuffled_upto(draws: Seq<i32>, j: int) -> Seq<u8>
    decreases j,
{
    if j <= 0 {
        identity_table()
    } else {
        swapped(shuffled_upto(draws, j - 1), j - 1, j - 1 + draws[j - 1])
    }
}

/// The table that the shuffle makes of `draws`.
pub open spec fn shuffled(draws: Seq<i32>) -> Seq<u8> {
    shuffled_upto(draws, 256)
}

/// The first `j` draws of a shuffle by a generator that starts in state
/// `state`, and the state in which they leave it: draw `i` is bounded by
/// `256 - i`.
pub open spec fn draws_from(state: u64, j: int) -> (Seq<i32>, u64)
    decreases j,
{
    if j <= 0 {
        (Seq::empty(), state)
    } else {
        let before = draws_from(state, j - 1);
        let next = bounded_draw(before.1, (256 - (j - 1)) as i32);
        (before.0.push(next.0), next.1)
    }
}

/// The 53-bit number that the generator's next two draws make, of 26 and of
/// 27 bits: the numerator, over `2^53`, of a fraction from 0 up to, and
/// without, 1.
pub open spec fn fraction53(state: u64) -> u64 {
    let s1 = lcg_step(state);
    let s2 = lcg_step(s1);
    (draw(s1, 26) * 0x800_0000 + draw(s2, 27)) as u64
}

/// The state of a generator two steps after `state`.
pub open spec fn two_steps(state: u64) -> u64 {
    lcg_step(lcg_step(state))
}

/// The entry of table `t` that the hash `h` selects: the one at `h` modulo
/// 256.
pub open spec fn lookup(t: Seq<u8>, h: int) -> int {
    t[h % 256] as int
}

/// The gradient indices at the eight corners of the lattice cell
/// `(sx, sy, sz)`, each from 0 to 15. The corners come in the order
/// `(0,0,0)`, `(1,0,0)`, `(0,1,0)`, `(1,1,0)`, `(0,0,1)`, `(1,0,1)`,
/// `(0,1,1)`, `(1,1,1)`; each is hashed through the table once per axis.
pub open spec fn corner_indices(t: Seq<u8>, sx: int, sy: int, sz: int) -> Seq<int> {
    let i = lookup(t, sx) + sy;
    let l = lookup(t, sx + 1) + sy;
    let j = lookup(t, i) + sz;
    let k = lookup(t, i + 1) + sz;
    let m = lookup(t, l) + sz;
    let n = lookup(t, l + 1) + sz;
    seq![
        lookup(t, j) % 16,
        lookup(t, m) % 16,
        lookup(t, k) % 16,
        lookup(t, n) % 16,
        lookup(t, j + 1) % 16,
        lookup(t, m + 1) % 16,
        lookup(t, k + 1) % 16,
        lookup(t, n + 1) % 16,
    ]
}

/// The gradient vector of index `i`.
pub open spec fn gradient_of(i: int) -> (int, int, int) {
    if i == 0 || i == 12 {
        (1, 1, 0)
    } else if i == 1 || i == 14 {
        (-1, 1, 0)
    } else if i == 2 {
        (1, -1, 0)
    } else if i == 3 {
        (-1, -1, 0)
    } else if i == 4 {
        (1, 0, 1)
    } else if i == 5 {
        (-1, 0, 1)
    } else if i == 6 {
        (1, 0, -1)
    } else if i == 7 {
        (-1, 0, -1)
    } else if i == 8 {
        (0, 1, 1)
    } else if i == 9 || i == 13 {
        (0, -1, 1)
    } else if i == 10 {
        (0, 1, -1)
    } else {
        (0, -1, -1)
    }
}

/// Two hashes that agree modulo 256 select the same entry, and so do the
/// hashes one further on.
proof fn lemma_same_entry(t: Seq<u8>, a: int, b: int, step: int)
    requires
        a % 256 == b % 256,
    ensures
        lookup(t, a + step) == lookup(t, b + step),
{
    assert((a + step) % 256 == (b + step) % 256);
}

/// The gradient vector of index `i`.
pub fn gradient(i: usize) -> (g: [i32; 3])
    requires
        i < 16,
    ensures
        (g[0] as int, g[1] as int, g[2] as int) == gradient_of(i as int),
{
    match i {
        0 | 12 => [1, 1, 0],
        1 | 14 => [-1, 1, 0],
        2 => [1, -1, 0],
        3 => [-1, -1, 0],
        4 => [1, 0, 1],
        5 => [-1, 0, 1],
        6 => [1, 0, -1],
        7 => [-1, 0, -1],
        8 => [0, 1, 1],
        9 | 13 => [0, -1, 1],
        10 => [0, 1, -1],
        _ => [0, -1, -1],
    }
}

/// Exchanging two entries keeps a permutation a permutation.
pub proof fn lemma_swap_keeps_permutation(s: Seq<u8>, i: int, j: int)
    requires
        is_permutation(s),
        0 <= i < 256,
        0 <= j < 256,
    ensures
        is_permutation(swapped(s, i, j)),
{
    let t = swapped(s, i, j);
    assert forall|v: u8| #[trigger] t.contains(v) by {
        assert(s.contains(v));
        let k = choose|k: int| 0 <= k < s.len() && s[k] == v;
        let k2 = if k == i {
            j
        } else if k == j {
            i
        } else {
            k
        };
        assert(t[k2] == v);
    }
    assert forall|a: int, b: int| 0 <= a < t.len() && 0 <= b < t.len() && a != b implies t[a]
        != t[b] by {
        let a2 = if a == i {
            j
        } else if a == j {
            i
        } else {
            a
        };
        let b2 = if b == i {
            j
        } else if b == j {
            i
        } else {
            b
        };
        assert(t[a] == s[a2] && t[b] == s[b2] && a2 != b2);
    }
}

/// The table before shuffling is a permutation.
pub proof fn lemma_identity_is_permutation()
    ensures
        is_permutation(identity_table()),
{
    let t = identity_table();
    assert forall|v: u8| #[trigger] t.contains(v) by {
        assert(t[v as int] == v);
    }
}

/// Whatever the draws, the shuffle makes a permutation.
pub proof fn lemma_shuffle_is_permutation(draws: Seq<i32>, j: int)
    requires
        valid_draws(draws),
        0 <= j <= 256,
    ensures
        is_permutation(shuffled_upto(draws, j)),
    decreases j,
{
    if j == 0 {
        lemma_identity_is_permutation();
    } else {
        lemma_shuffle_is_permutation(draws, j - 1);
        lemma_swap_keeps_permutation(shuffled_upto(draws, j - 1), j - 1, j - 1 + draws[j - 1]);
    }
}

/// Shuffles the table by `draws`, in place from the first entry to the last:
/// entry `j` is exchanged with the one `draws[j]` places further on.
pub fn shuffle(draws: &Vec<i32>) -> (t: Vec<u8>)
    requires
        valid_draws(draws@),
    ensures
        t@ == shuffled(draws@),
        is_permutation(t@),
{
    let mut t: Vec<u8> = Vec::new();
    let mut i: usize = 0;
    while i < 256
        invariant
            i <= 256,
            t@ == Seq::new(i as nat, |k: int| k as u8),
        decreases 256 - i,
    {
        t.push(i as u8);
        i += 1;
    }
    let mut j: usize = 0;
    while j < 256
        invariant
            j <= 256,
            valid_draws(draws@),
            t@.len() == 256,
            t@ == shuffled_upto(draws@, j as int),
        decreases 256 - j,
    {
        let k = draws[j] as usize;
        let here = t[j];
        let there = t[j + k];
        t.set(j, there);
        t.set(j + k, here);
        j += 1;
    }
    proof {
        lemma_shuffle_is_permutation(draws@, 256);
    }
    t
}

/// Draws the next 53-bit fraction from `rnd`.
fn next_fraction(rnd: &mut Random) -> (n: u64)
    requires
        random_state(*old(rnd)) <= 0xFFFF_FFFF_FFFF,
    ensures
        n == fraction53(random_state(*old(rnd))),
        n < 0x20_0000_0000_0000,
        random_state(*final(rnd)) == two_steps(random_state(*old(rnd))),
        random_state(*final(rnd)) <= 0xFFFF_FFFF_FFFF,
{
    let ghost s1 = lcg_step(random_state(*rnd));
    let ghost s2 = lcg_step(s1);
    proof {
        lemma_step_is_state(random_state(*rnd));
        lemma_step_is_state(s1);
        lemma_draw_range(s1, 26);
        lemma_draw_range(s2, 27);
        assert(pow2_of(26) == 0x400_0000 && pow2_of(27) == 0x800_0000) by (bit_vector);
    }
    let high = rnd.next(26) as u64;
    let low = rnd.next(27) as u64;
    high * 0x800_0000 + low
}

/// Draws the 256 numbers of a shuffle from `rnd`.
fn shuffle_draws(rnd: &mut Random) -> (draws: Vec<i32>)
    ensures
        draws@ == draws_from(random_state(*old(rnd)), 256).0,
        random_state(*final(rnd)) == draws_from(random_state(*old(rnd)), 256).1,
        valid_draws(draws@),
{
    let ghost s = random_state(*rnd);
    let mut draws: Vec<i32> = Vec::new();
    let mut j: i32 = 0;
    while j < 256
        invariant
            0 <= j <= 256,
            draws@.len() == j,
            draws@ == draws_from(s, j as int).0,
            random_state(*rnd) == draws_from(s, j as int).1,
            forall|i: int| 0 <= i < j ==> 0 <= #[trigger] draws@[i] < 256 - i,
        decreases 256 - j,
    {
        let k = rnd.next_i32_bound(256 - j);
        draws.push(k);
        j += 1;
    }
    draws
}

/// A sampler of gradient noise: a permutation of the bytes, and the origin
/// of its lattice.
pub struct Sampler {
    origin_x: u64,
    origin_y: u64,
    origin_z: u64,
    permutations: Vec<u8>,
}

impl Sampler {
    /// The permutation table.
    pub closed spec fn table(self) -> Seq<u8> {
        self.permutations@
    }

    /// The three coordinates of the origin, in units of `2^-45`: each a
    /// number below `2^53`, for a coordinate below 256.
    pub closed spec fn origin(self) -> (u64, u64, u64) {
        (self.origin_x, self.origin_y, self.origin_z)
    }

    #[verifier::type_invariant]
    spec fn inv(self) -> bool {
        &&& is_permutation(self.permutations@)
        &&& self.origin_x < 0x20_0000_0000_0000
        &&& self.origin_y < 0x20_0000_0000_0000
        &&& self.origin_z < 0x20_0000_0000_0000
    }

    /// The origin along `x`, in units of `2^-45`.
    pub fn origin_x(&self) -> (n: u64)
        ensures
            n == self.origin().0,
            n < 0x20_0000_0000_0000,
    {
        proof {
            use_type_invariant(self);
        }
        self.origin_x
    }

    /// The origin along `y`, in units of `2^-45`.
    pub fn origin_y(&self) -> (n: u64)
        ensures
            n == self.origin().1,
            n < 0x20_0000_0000_0000,
    {
        proof {
            use_type_invariant(self);
        }
        self.origin_y
    }

    /// The origin along `z`, in units of `2^-45`.
    pub fn origin_z(&self) -> (n: u64)
        ensures
            n == self.origin().2,
            n < 0x20_0000_0000_0000,
    {
        proof {
            use_type_invariant(self);
        }
        self.origin_z
    }

    /// The sampler of `seed`, or of the seed 0 where none is given. The
    /// generator of the seed first gives the three coordinates of the
    /// origin, then the 256 draws of the shuffle.
    pub fn new(seed: Option<i64>) -> (r: Self)
        ensures
            ({
                let s0 = scramble(
                    match seed {
                        Some(v) => v,
                        None => 0,
                    },
                );
                &&& r.origin() == (
                    fraction53(s0),
                    fraction53(two_steps(s0)),
                    fraction53(two_steps(two_steps(s0))),
                )
                &&& r.table() == shuffled(draws_from(two_steps(two_steps(two_steps(s0))), 256).0)
                &&& is_permutation(r.table())
            }),
    {
        let chosen: i64 = match seed {
            Some(v) => v,
            None => 0,
        };
        let mut rnd = Random::new(#[verifier::truncate] (chosen as u64));
        proof {
            let u = chosen as u64;
            assert(((u as i64) as u64) == u) by (bit_vector);
            assert(((u ^ 0x5DEECE66Du64) & 0xFFFF_FFFF_FFFFu64) <= 0xFFFF_FFFF_FFFFu64)
                by (bit_vector);
        }
        let origin_x = next_fraction(&mut rnd);
        let origin_y = next_fraction(&mut rnd);
        let origin_z = next_fraction(&mut rnd);

        let draws = shuffle_draws(&mut rnd);
        let permutations = shuffle(&draws);
        Sampler { origin_x, origin_y, origin_z, permutations }
    }

    /// The entry of the table that `hash` selects.
    pub fn get_gradient(&self, hash: i32) -> (r: i32)
        ensures
            r == lookup(self.table(), hash as int),
            0 <= r < 256,
    {
        proof {
            use_type_invariant(self);
        }
        let at = hash & 255;
        assert(0 <= at < 256 && at == (hash as int) % 256) by (bit_vector)
            requires
                at == hash & 255,
        ;
        self.permutations[at as usize] as i32
    }

    /// The gradient indices at the eight corners of the lattice cell
    /// `(section_x, section_y, section_z)`.
    pub fn corner_gradients(&self, section_x: i32, section_y: i32, section_z: i32) -> (r: [usize; 8])
        ensures
            r@.len() == 8,
            forall|c: int|
                0 <= c < 8 ==> #[trigger] r@[c] as int == corner_indices(
                    self.table(),
                    section_x as int,
                    section_y as int,
                    section_z as int,
                )[c],
            forall|c: int| 0 <= c < 8 ==> #[trigger] r@[c] < 16,
    {
        let ghost t = self.table();
        let ghost gi = lookup(t, section_x as int) + section_y;
        let ghost gl = lookup(t, section_x + 1) + section_y;
        let ghost gj = lookup(t, gi) + section_z;
        let ghost gk = lookup(t, gi + 1) + section_z;
        let ghost gm = lookup(t, gl) + section_z;
        let ghost gn = lookup(t, gl + 1) + section_z;
        let i = self.hashed(section_x, 0, section_y);
        let l = self.hashed(section_x, 1, section_y);
        proof {
            lemma_same_entry(t, i as int, gi, 0);
            lemma_same_entry(t, i as int, gi, 1);
            lemma_same_entry(t, l as int, gl, 0);
            lemma_same_entry(t, l as int, gl, 1);
        }
        let j = self.hashed(i, 0, section_z);
        let k = self.hashed(i, 1, section_z);
        let m = self.hashed(l, 0, section_z);
        let n = self.hashed(l, 1, section_z);
        proof {
            lemma_same_entry(t, j as int, gj, 0);
            lemma_same_entry(t, j as int, gj, 1);
            lemma_same_entry(t, k as int, gk, 0);
            lemma_same_entry(t, k as int, gk, 1);
            lemma_same_entry(t, m as int, gm, 0);
            lemma_same_entry(t, m as int, gm, 1);
            lemma_same_entry(t, n as int, gn, 0);
            lemma_same_entry(t, n as int, gn, 1);
        }
        let c0 = self.index_at(j, 0);
        let c1 = self.index_at(m, 0);
        let c2 = self.index_at(k, 0);
        let c3 = self.index_at(n, 0);
        let c4 = self.index_at(j, 1);
        let c5 = self.index_at(m, 1);
        let c6 = self.index_at(k, 1);
        let c7 = self.index_at(n, 1);
        [c0, c1, c2, c3, c4, c5, c6, c7]
    }

    /// One hashing step: the entry that `hash + step` selects, plus
    /// `offset`, with wraparound. Only the value modulo 256 matters to what
    /// follows, and wraparound keeps it.
    fn hashed(&self, hash: i32, step: i32, offset: i32) -> (r: i32)
        requires
            step == 0 || step == 1,
        ensures
            (r as int) % 256 == (lookup(self.table(), hash + step) + offset) % 256,
    {
        let at = hash.wrapping_add(step);
        assert((at as int) % 256 == (hash + step) % 256);
        let entry = self.get_gradient(at);
        let r = entry.wrapping_add(offset);
        assert((r as int) % 256 == (entry + offset) % 256);
        r
    }

    /// The gradient index that `hash + step` selects.
    fn index_at(&self, hash: i32, step: i32) -> (r: usize)
        requires
            step == 0 || step == 1,
        ensures
            r as int == lookup(self.table(), hash + step) % 16,
            r < 16,
    {
        let at = hash.wrapping_add(step);
        assert((at as int) % 256 == (hash + step) % 256);
        let entry = self.get_gradient(at);
        let r = entry & 15;
        assert(0 <= r < 16 && r == entry % 16) by (bit_vector)
            requires
                r == entry & 15,
                0 <= entry < 256,
        ;
        r as usize
    }
}

} // verus!
