use vstd::prelude::*;
use crate::random::random_int;

verus! {

broadcast use vstd::seq_lib::group_to_multiset_ensures;

/// Size of each permutation table of the Perlin lattice.
pub const POINT_COUNT: usize = 256;

/// `p` is a permutation of `0..POINT_COUNT`: the right length, every entry in
/// range, no entry twice.
pub open spec fn is_lattice_permutation(p: Seq<i32>) -> bool {
    &&& p.len() == POINT_COUNT
    &&& forall|i: int| 0 <= i < p.len() ==> 0 <= #[trigger] p[i] < POINT_COUNT
    &&& p.no_duplicates()
}

/// The identity table `0, 1, ..., n - 1`.
pub open spec fn identity_table(n: nat) -> Seq<i32> {
    Seq::new(n, |i: int| i as i32)
}

/// Swaps entries `i` and `j` of `p`.
fn swap_entries(p: &mut Vec<i32>, i: usize, j: usize)
    requires
        i < old(p)@.len(),
        j < old(p)@.len(),
    ensures
        final(p)@ == old(p)@.update(i as int, old(p)@[j as int]).update(j as int, old(p)@[i as int]),
        final(p)@.to_multiset() == old(p)@.to_multiset(),
{
    let a = p[i];
    let b = p[j];
    p.set(i, b);
    p.set(j, a);
    proof {
        crate::swaps::lemma_swap_multiset(old(p)@, i as int, j as int);
    }
}

/// Shuffles the first `n` entries of `p` in place (Fisher-Yates, from the back):
/// the entries are rearranged, none added or lost.
pub fn permute(p: &mut Vec<i32>, n: usize)
    requires
        n <= old(p)@.len(),
        n <= i32::MAX as usize,
    ensures
        final(p)@.len() == old(p)@.len(),
        final(p)@.to_multiset() == old(p)@.to_multiset(),
        forall|k: int| n <= k < old(p)@.len() ==> #[trigger] final(p)@[k] == old(p)@[k],
{
    let mut i: usize = n;
    while i > 0
        invariant
            i <= n,
            n <= p@.len(),
            n <= i32::MAX as usize,
            p@.len() == old(p)@.len(),
            p@.to_multiset() == old(p)@.to_multiset(),
            forall|k: int| n <= k < old(p)@.len() ==> #[trigger] p@[k] == old(p)@[k],
        decreases i,
    {
        i = i - 1;
        let target = random_int(0, i as i32);
        swap_entries(p, i, target as usize);
    }
}

/// A fresh random permutation of `0..POINT_COUNT`.
pub fn perlin_generate_perm() -> (r: Vec<i32>)
    ensures
        is_lattice_permutation(r@),
{
    let mut p: Vec<i32> = Vec::with_capacity(POINT_COUNT);
    let mut i: usize = 0;
    while i < POINT_COUNT
        invariant
            i <= POINT_COUNT,
            p@ == identity_table(i as nat),
        decreases POINT_COUNT - i,
    {
        p.push(i as i32);
        i = i + 1;
        assert(p@ =~= identity_table(i as nat));
    }
    let ghost before = p@;
    assert(before.no_duplicates());
    proof {
        before.lemma_multiset_has_no_duplicates();
    }
    permute(&mut p, POINT_COUNT);
    proof {
        p@.lemma_multiset_has_no_duplicates_conv();
        assert forall|k: int| 0 <= k < p@.len() implies 0 <= #[trigger] p@[k] < POINT_COUNT by {
            assert(p@.to_multiset().contains(p@[k]));
            assert(before.contains(p@[k]));
        }
    }
    p
}

/// The integer part of Perlin noise: three random permutation tables, one per
/// axis, that hash a lattice corner to one of `POINT_COUNT` gradient slots.
pub struct PerlinHash {
    perm_x: Vec<i32>,
    perm_y: Vec<i32>,
    perm_z: Vec<i32>,
}

/// The slot of a lattice coordinate: its value modulo `POINT_COUNT`.
pub open spec fn wrap(c: int) -> int {
    c % (POINT_COUNT as int)
}

impl PerlinHash {
    /// Permutation table for the x axis.
    pub closed spec fn table_x(&self) -> Seq<i32> {
        self.perm_x@
    }

    /// Permutation table for the y axis.
    pub closed spec fn table_y(&self) -> Seq<i32> {
        self.perm_y@
    }

    /// Permutation table for the z axis.
    pub closed spec fn table_z(&self) -> Seq<i32> {
        self.perm_z@
    }

    #[verifier::type_invariant]
    spec fn inv(&self) -> bool {
        &&& is_lattice_permutation(self.perm_x@)
        &&& is_lattice_permutation(self.perm_y@)
        &&& is_lattice_permutation(self.perm_z@)
    }

    /// The gradient slot of lattice corner `(i, j, k)`: the exclusive or of the
    /// three tables' entries at the wrapped coordinates.
    pub open spec fn spec_corner(&self, i: int, j: int, k: int) -> int {
        ((self.table_x()[wrap(i)] as usize) ^ (self.table_y()[wrap(j)] as usize) ^ (
        self.table_z()[wrap(k)] as usize)) as int
    }

    /// The hash repeats every `POINT_COUNT` lattice cells along each axis.
    pub proof fn lemma_corner_periodic(&self, i: int, j: int, k: int)
        ensures
            self.spec_corner(i + POINT_COUNT, j, k) == self.spec_corner(i, j, k),
            self.spec_corner(i, j + POINT_COUNT, k) == self.spec_corner(i, j, k),
            self.spec_corner(i, j, k + POINT_COUNT) == self.spec_corner(i, j, k),
    {
        vstd::arithmetic::div_mod::lemma_mod_add_multiples_vanish(i, POINT_COUNT as int);
        vstd::arithmetic::div_mod::lemma_mod_add_multiples_vanish(j, POINT_COUNT as int);
        vstd::arithmetic::div_mod::lemma_mod_add_multiples_vanish(k, POINT_COUNT as int);
    }

    /// Three fresh random tables.
    pub fn new() -> (r: PerlinHash)
        ensures
            is_lattice_permutation(r.table_x()),
            is_lattice_permutation(r.table_y()),
            is_lattice_permutation(r.table_z()),
    {
        let perm_x = perlin_generate_perm();
        let perm_y = perlin_generate_perm();
        let perm_z = perlin_generate_perm();
        PerlinHash { perm_x, perm_y, perm_z }
    }

    /// The gradient slot of the lattice corner `(i, j, k)`, always below
    /// `POINT_COUNT`.
    pub fn corner(&self, i: i32, j: i32, k: i32) -> (r: usize)
        ensures
            r == self.spec_corner(i as int, j as int, k as int),
            r < POINT_COUNT,
    {
        proof {
            use_type_invariant(self);
        }
        let a = Self::slot(i);
        let b = Self::slot(j);
        let c = Self::slot(k);
        let x = self.perm_x[a] as usize;
        let y = self.perm_y[b] as usize;
        let z = self.perm_z[c] as usize;
        assert(x < 256 && y < 256 && z < 256);
        assert(x ^ y ^ z < 256) by (bit_vector)
            requires
                x < 256,
                y < 256,
                z < 256,
        ;
        x ^ y ^ z
    }

    /// The table slot of coordinate `c`: `c` modulo `POINT_COUNT`.
    fn slot(c: i32) -> (r: usize)
        ensures
            r == wrap(c as int),
            r < POINT_COUNT,
    {
        let m = c & 255;
        let q = c >> 8;
        assert(0 <= m < 256 && c == 256 * q + m) by (bit_vector)
            requires
                m == c & 255,
                q == c >> 8,
        ;
        proof {
            vstd::arithmetic::div_mod::lemma_fundamental_div_mod_converse_mod(
                c as int,
                256,
                q as int,
                m as int,
            );
        }
        m as usize
    }
}

} // verus!
