//! The linear congruential generator and the Perlin permutation table built
//! from it.
use vstd::prelude::*;

verus! {

/// The multiplier of the generator.
pub const LCG_MULTIPLIER: u32 = 1664525;

/// The increment of the generator.
pub const LCG_INCREMENT: u32 = 1013904223;

/// The state that follows `s`: `s * 1664525 + 1013904223` modulo 2^32.
pub open spec fn lcg_next(s: u32) -> u32 {
    ((s as nat * 1664525 + 1013904223) % 0x1_0000_0000) as u32
}

/// The state after `n` steps from `s`.
pub open spec fn lcg_iterate(s: u32, n: nat) -> u32
    decreases n,
{
    if n == 0 {
        s
    } else {
        lcg_next(lcg_iterate(s, (n - 1) as nat))
    }
}

/// A small deterministic pseudo-random generator.
pub struct SimpleRng {
    seed: u32,
}

impl SimpleRng {
    /// The current state; the next number is `lcg_next` of it.
    pub closed spec fn state(&self) -> u32 {
        self.seed
    }

    /// A generator whose state is `seed`.
    pub fn new(seed: u32) -> (r: SimpleRng)
        ensures
            r.state() == seed,
    {
        SimpleRng { seed }
    }

    /// Advances the state and returns the new state.
    pub fn next(&mut self) -> (r: u32)
        ensures
            r == lcg_next(old(self).state()),
            final(self).state() == r,
    {
        let x = self.seed.wrapping_mul(LCG_MULTIPLIER).wrapping_add(LCG_INCREMENT);
        proof {
            let m: int = 0x1_0000_0000;
            let prod: int = self.seed as int * 1664525;
            let p = prod % m;
            vstd::arithmetic::div_mod::lemma_add_mod_noop(prod, 1013904223int, m);
            vstd::arithmetic::div_mod::lemma_small_mod((1013904223nat) as nat, m as nat);
            vstd::arithmetic::div_mod::lemma_mod_twice(prod, m);
            if p + 1013904223 >= m {
                vstd::arithmetic::div_mod::lemma_mod_sub_multiples_vanish((p + 1013904223) as int, m);
                vstd::arithmetic::div_mod::lemma_small_mod((p + 1013904223 - m) as nat, m as nat);
            } else {
                vstd::arithmetic::div_mod::lemma_small_mod((p + 1013904223) as nat, m as nat);
            }
        }
        self.seed = x;
        x
    }
}

/// The identity table `0, 1, ..., 255`.
pub open spec fn identity_table() -> Seq<u8> {
    Seq::new(256, |i: int| i as u8)
}

/// `p` with the entries at `i` and `j` exchanged.
pub open spec fn swapped(p: Seq<u8>, i: int, j: int) -> Seq<u8> {
    p.update(i, p[j]).update(j, p[i])
}

/// The table and generator state after `n` steps of the shuffle from `seed`:
/// step `n` draws a number `r` and exchanges the entry at `256 - n` with the
/// one at `r % (257 - n)`.
pub open spec fn shuffle_state(seed: u32, n: nat) -> (Seq<u8>, u32)
    decreases n,
{
    if n == 0 {
        (identity_table(), seed)
    } else {
        let (p, s) = shuffle_state(seed, (n - 1) as nat);
        let i = 256 - n;
        let r = lcg_next(s);
        let j = r as int % (i + 1);
        (swapped(p, i, j), r)
    }
}

/// The shuffled table of a seed: the identity shuffled from index 255 down to 1.
pub open spec fn shuffled_table(seed: u32) -> Seq<u8> {
    shuffle_state(seed, 255).0
}

/// The table of a Perlin noise of `seed`: the shuffled table, twice over.
pub open spec fn perlin_table(seed: u32) -> Seq<u8> {
    Seq::new(512, |i: int| shuffled_table(seed)[i % 256])
}

/// Every byte value occurs exactly once in `p`.
pub open spec fn is_byte_permutation(p: Seq<u8>) -> bool {
    &&& p.len() == 256
    &&& p.no_duplicates()
    &&& forall|v: u8| #[trigger] p.contains(v)
}

/// Exchanging two entries keeps a byte permutation a byte permutation.
proof fn lemma_swap_keeps_permutation(p: Seq<u8>, i: int, j: int)
    requires
        is_byte_permutation(p),
        0 <= i < 256,
        0 <= j < 256,
    ensures
        is_byte_permutation(swapped(p, i, j)),
{
    let q = swapped(p, i, j);
    assert forall|a: int, b: int| 0 <= a < b < q.len() implies q[a] != q[b] by {
        let pa = if a == j { i } else if a == i { j } else { a };
        let pb = if b == j { i } else if b == i { j } else { b };
        assert(q[a] == p[pa] && q[b] == p[pb]);
    }
    assert forall|v: u8| #[trigger] q.contains(v) by {
        assert(p.contains(v));
        let k = choose|k: int| 0 <= k < p.len() && p[k] == v;
        let qk = if k == i { j } else if k == j { i } else { k };
        assert(q[qk] == v);
    }
}

/// Every step of the shuffle keeps a byte permutation.
proof fn lemma_shuffle_permutation(seed: u32, n: nat)
    requires
        n <= 255,
    ensures
        is_byte_permutation(shuffle_state(seed, n).0),
    decreases n,
{
    if n == 0 {
        let p = identity_table();
        assert forall|a: int, b: int| 0 <= a < b < p.len() implies p[a] != p[b] by {}
        assert forall|v: u8| #[trigger] p.contains(v) by {
            assert(p[v as int] == v);
        }
    } else {
        lemma_shuffle_permutation(seed, (n - 1) as nat);
        let (p, s) = shuffle_state(seed, (n - 1) as nat);
        let i = 256 - n;
        let r = lcg_next(s);
        let j = r as int % (i + 1);
        lemma_swap_keeps_permutation(p, i, j);
    }
}

/// The shuffled table of any seed holds each byte value exactly once.
pub proof fn lemma_perlin_table_is_permutation(seed: u32)
    ensures
        is_byte_permutation(shuffled_table(seed)),
        perlin_table(seed).len() == 512,
        forall|i: int| 0 <= i < 256 ==> #[trigger] perlin_table(seed)[i + 256] == perlin_table(seed)[i],
{
    lemma_shuffle_permutation(seed, 255);
}

/// Perlin noise: a permutation table of the lattice hashes.
pub struct PerlinNoise {
    permutation: Vec<u8>,
}

impl PerlinNoise {
    /// The permutation table.
    pub closed spec fn table(&self) -> Seq<u8> {
        self.permutation@
    }

    /// The noise of `seed`: the byte values shuffled by the generator seeded
    /// with `seed`, repeated to 512 entries.
    pub fn new(seed: u32) -> (r: PerlinNoise)
        ensures
            r.table() == perlin_table(seed),
    {
        let mut rng = SimpleRng::new(seed);
        let mut p: Vec<u8> = Vec::new();
        let mut i: usize = 0;
        while i < 256
            invariant
                i <= 256,
                p@ == identity_table().take(i as int),
            decreases 256 - i,
        {
            p.push(i as u8);
            i = i + 1;
            proof {
                assert(p@ =~= identity_table().take(i as int));
            }
        }
        proof {
            assert(p@ =~= identity_table());
        }
        let mut n: usize = 0;
        while n < 255
            invariant
                n <= 255,
                p@ == shuffle_state(seed, n as nat).0,
                rng.state() == shuffle_state(seed, n as nat).1,
                p@.len() == 256,
            decreases 255 - n,
        {
            let i = 255 - n;
            let r = rng.next();
            let j = (r as usize) % (i + 1);
            let a = p[i];
            let b = p[j];
            p.set(i, b);
            p.set(j, a);
            n = n + 1;
            proof {
                assert(p@ =~= swapped(shuffle_state(seed, (n - 1) as nat).0, i as int, j as int));
            }
        }
        let mut permutation: Vec<u8> = Vec::new();
        let mut k: usize = 0;
        while k < 512
            invariant
                k <= 512,
                p@ == shuffled_table(seed),
                p@.len() == 256,
                permutation@ == perlin_table(seed).take(k as int),
            decreases 512 - k,
        {
            permutation.push(p[k % 256]);
            k = k + 1;
            proof {
                assert(permutation@ =~= perlin_table(seed).take(k as int));
            }
        }
        proof {
            assert(permutation@ =~= perlin_table(seed));
        }
        PerlinNoise { permutation }
    }

    /// The hashes of the eight corners of the lattice cell `(xi, yi, zi)`, in
    /// the order the interpolation reads them: `aa, ba, ab, bb`, then the same
    /// four one step further.
    pub fn lattice_hashes(&self, xi: u8, yi: u8, zi: u8) -> (r: [u8; 8])
        requires
            self.table().len() == 512,
        ensures
            r@ == corner_hashes(self.table(), xi as int, yi as int, zi as int),
            r@ == seq![
                point_hash(self.table(), xi as int, yi as int, zi as int),
                point_hash(self.table(), xi + 1, yi as int, zi as int),
                point_hash(self.table(), xi as int, yi + 1, zi as int),
                point_hash(self.table(), xi + 1, yi + 1, zi as int),
                point_hash(self.table(), xi as int, yi as int, zi + 1),
                point_hash(self.table(), xi + 1, yi as int, zi + 1),
                point_hash(self.table(), xi as int, yi + 1, zi + 1),
                point_hash(self.table(), xi + 1, yi + 1, zi + 1)],
    {
        proof {
            lemma_corner_hashes_are_point_hashes(self.table(), xi as int, yi as int, zi as int);
        }
        let xi = xi as usize;
        let yi = yi as usize;
        let zi = zi as usize;
        let a = self.permutation[xi] as usize + yi;
        let aa = self.permutation[a] as usize + zi;
        let ab = self.permutation[a + 1] as usize + zi;
        let b = self.permutation[xi + 1] as usize + yi;
        let ba = self.permutation[b] as usize + zi;
        let bb = self.permutation[b + 1] as usize + zi;
        let r = [
            self.permutation[aa],
            self.permutation[ba],
            self.permutation[ab],
            self.permutation[bb],
            self.permutation[aa + 1],
            self.permutation[ba + 1],
            self.permutation[ab + 1],
            self.permutation[bb + 1],
        ];
        proof {
            assert(r@ =~= corner_hashes(self.table(), xi as int, yi as int, zi as int));
        }
        r
    }
}

/// The corner hashes of the lattice cell `(xi, yi, zi)` in the table `t`.
pub open spec fn corner_hashes(t: Seq<u8>, xi: int, yi: int, zi: int) -> Seq<u8> {
    let a = t[xi] + yi;
    let aa = t[a] + zi;
    let ab = t[a + 1] + zi;
    let b = t[xi + 1] + yi;
    let ba = t[b] + zi;
    let bb = t[b + 1] + zi;
    seq![t[aa], t[ba], t[ab], t[bb], t[aa + 1], t[ba + 1], t[ab + 1], t[bb + 1]]
}

/// The hash of the lattice point `(x, y, z)` in the table `t`.
pub open spec fn point_hash(t: Seq<u8>, x: int, y: int, z: int) -> u8 {
    t[t[t[x] + y] + z]
}

/// Each of the eight hashes of a cell is the hash of its own corner: first
/// the corners `(x, y)`, `(x+1, y)`, `(x, y+1)`, `(x+1, y+1)` at depth `z`,
/// then the same four at depth `z+1`.
pub proof fn lemma_corner_hashes_are_point_hashes(t: Seq<u8>, xi: int, yi: int, zi: int)
    requires
        t.len() == 512,
        0 <= xi < 256,
        0 <= yi < 256,
        0 <= zi < 256,
    ensures
        corner_hashes(t, xi, yi, zi) == seq![
            point_hash(t, xi, yi, zi), point_hash(t, xi + 1, yi, zi),
            point_hash(t, xi, yi + 1, zi), point_hash(t, xi + 1, yi + 1, zi),
            point_hash(t, xi, yi, zi + 1), point_hash(t, xi + 1, yi, zi + 1),
            point_hash(t, xi, yi + 1, zi + 1), point_hash(t, xi + 1, yi + 1, zi + 1)],
{
    assert(corner_hashes(t, xi, yi, zi) =~= seq![
            point_hash(t, xi, yi, zi), point_hash(t, xi + 1, yi, zi),
            point_hash(t, xi, yi + 1, zi), point_hash(t, xi + 1, yi + 1, zi),
            point_hash(t, xi, yi, zi + 1), point_hash(t, xi + 1, yi, zi + 1),
            point_hash(t, xi, yi + 1, zi + 1), point_hash(t, xi + 1, yi + 1, zi + 1)]);
}

/// Neighbouring cells agree on the corners they share: the corner one step
/// along x, y or z of a cell is the first corner of the next cell that way,
/// so the noise runs on without a jump from one cell into the next.
pub proof fn lemma_neighbouring_cells_share_corners(t: Seq<u8>, xi: int, yi: int, zi: int)
    requires
        t.len() == 512,
        0 <= xi < 256,
        0 <= yi < 256,
        0 <= zi < 256,
    ensures
        xi + 1 < 256 ==> corner_hashes(t, xi, yi, zi)[1] == corner_hashes(t, xi + 1, yi, zi)[0],
        yi + 1 < 256 ==> corner_hashes(t, xi, yi, zi)[2] == corner_hashes(t, xi, yi + 1, zi)[0],
        xi + 1 < 256 && yi + 1 < 256 ==> corner_hashes(t, xi, yi, zi)[3] == corner_hashes(t, xi + 1, yi + 1, zi)[0],
        zi + 1 < 256 ==> corner_hashes(t, xi, yi, zi)[4] == corner_hashes(t, xi, yi, zi + 1)[0],
        xi + 1 < 256 ==> corner_hashes(t, xi, yi, zi)[5] == corner_hashes(t, xi + 1, yi, zi)[4],
        yi + 1 < 256 ==> corner_hashes(t, xi, yi, zi)[6] == corner_hashes(t, xi, yi + 1, zi)[4],
{
    lemma_corner_hashes_are_point_hashes(t, xi, yi, zi);
    if xi + 1 < 256 {
        lemma_corner_hashes_are_point_hashes(t, xi + 1, yi, zi);
    }
    if yi + 1 < 256 {
        lemma_corner_hashes_are_point_hashes(t, xi, yi + 1, zi);
    }
    if xi + 1 < 256 && yi + 1 < 256 {
        lemma_corner_hashes_are_point_hashes(t, xi + 1, yi + 1, zi);
    }
    if zi + 1 < 256 {
        lemma_corner_hashes_are_point_hashes(t, xi, yi, zi + 1);
    }
}

/// Simple noise functions; they compute in floating point.
pub struct SimpleNoise;

/// Helpers that reshape noise values; they compute in floating point.
pub struct NoiseUtils;

} // verus!
