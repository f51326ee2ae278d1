//! The lattice of gradient noise: shuffled tables that send every lattice
//! point to one of a fixed set of gradients.

use vstd::prelude::*;
use crate::random::random_index;
use crate::vec3::Vec3;

verus! {

/// The number of gradients, and the length of each table.
pub const POINT_COUNT: usize = 256;

/// Whether `after` is `before` with its entries in another order: `source`
/// names, for each place of `after`, the place in `before` that its entry
/// comes from, and names no place twice.
pub open spec fn rearranges(before: Seq<usize>, after: Seq<usize>, source: Seq<int>) -> bool {
    &&& source.len() == before.len()
    &&& after.len() == before.len()
    &&& forall|k: int| 0 <= k < source.len() ==> 0 <= #[trigger] source[k] < before.len()
    &&& forall|k: int, l: int| 0 <= k < l < source.len() ==> source[k] != source[l]
    &&& forall|k: int| 0 <= k < after.len() ==> #[trigger] after[k] == before[source[k]]
}

/// Whether `table` holds each of the numbers below `POINT_COUNT` once.
pub open spec fn is_permutation(table: Seq<usize>) -> bool {
    &&& table.len() == POINT_COUNT
    &&& forall|k: int| 0 <= k < table.len() ==> #[trigger] table[k] < POINT_COUNT
    &&& forall|k: int, l: int| 0 <= k < l < table.len() ==> table[k] != table[l]
}

/// Gradients and the three tables that pick one for a lattice point.
pub struct Perlin {
    rand_vec: Vec<Vec3>,
    perm_x: Vec<usize>,
    perm_y: Vec<usize>,
    perm_z: Vec<usize>,
}

impl Perlin {
    #[verifier::type_invariant]
    spec fn well_formed(self) -> bool {
        &&& self.rand_vec@.len() == POINT_COUNT
        &&& is_permutation(self.perm_x@)
        &&& is_permutation(self.perm_y@)
        &&& is_permutation(self.perm_z@)
    }

    /// The gradients.
    pub closed spec fn gradients(self) -> Seq<Vec3> {
        self.rand_vec@
    }

    /// The table for the x coordinate.
    pub closed spec fn table_x(self) -> Seq<usize> {
        self.perm_x@
    }

    /// The table for the y coordinate.
    pub closed spec fn table_y(self) -> Seq<usize> {
        self.perm_y@
    }

    /// The table for the z coordinate.
    pub closed spec fn table_z(self) -> Seq<usize> {
        self.perm_z@
    }

    /// The number of the gradient at a lattice point: each coordinate,
    /// reduced to the table's length, is looked up in its table, and the
    /// three entries are combined bit by bit.
    pub open spec fn lattice_index(self, i: usize, j: usize, k: usize) -> usize {
        self.table_x()[i as int % 256] ^ self.table_y()[j as int % 256] ^ self.table_z()[k as int % 256]
    }

    /// The lattice coordinate `d` steps after `i`, reduced to the table's
    /// length.
    pub open spec fn after(i: usize, d: int) -> usize {
        ((i as int % 256 + d) % 256) as usize
    }

    /// The gradient at the corner `(di, dj, dk)` of the lattice cell at
    /// `(i, j, k)`, each of `di`, `dj` and `dk` being 0 or 1.
    pub open spec fn corner(self, i: usize, j: usize, k: usize, di: int, dj: int, dk: int) -> Vec3 {
        self.gradients()[self.lattice_index(Self::after(i, di), Self::after(j, dj), Self::after(k, dk)) as int]
    }

    /// Shuffles all entries of `p` but the last: from the last but one down
    /// to the first, each entry changes places with one drawn from those up
    /// to it.
    pub fn permute(p: &mut Vec<usize>)
        requires
            old(p)@.len() >= 1,
        ensures
            exists|source: Seq<int>| #[trigger]
                rearranges(old(p)@, final(p)@, source) && source[source.len() - 1] == source.len() - 1,
    {
        let n = p.len();
        let ghost mut source: Seq<int> = Seq::new(n as nat, |k: int| k);
        let mut i: usize = n - 1;
        while i > 0
            invariant
                n == old(p)@.len(),
                n >= 1,
                i < n,
                rearranges(old(p)@, p@, source),
                source[n - 1] == n - 1,
            decreases i,
        {
            i -= 1;
            let target = random_index(i);
            let a = p[target];
            let b = p[i];
            p.set(target, b);
            p.set(i, a);
            proof {
                let ghost before = source;
                source = source.update(target as int, before[i as int]).update(i as int, before[target as int]);
                assert forall|k: int, l: int| 0 <= k < l < source.len() implies source[k] != source[l] by {
                    let from_k = if k == target { i as int } else if k == i { target as int } else { k };
                    let from_l = if l == target { i as int } else if l == i { target as int } else { l };
                    assert(source[k] == before[from_k]);
                    assert(source[l] == before[from_l]);
                    assert(from_k != from_l);
                    if from_k < from_l {
                        assert(before[from_k] != before[from_l]);
                    } else {
                        assert(before[from_l] != before[from_k]);
                    }
                }
            }
        }
        proof {
            assert(rearranges(old(p)@, p@, source) && source[source.len() - 1] == source.len() - 1);
        }
    }

    /// A table of the numbers below `POINT_COUNT` in a drawn order. The last
    /// entry is never moved.
    pub fn perlin_generate_perm() -> (p: Vec<usize>)
        ensures
            is_permutation(p@),
            p@[POINT_COUNT - 1] == POINT_COUNT - 1,
    {
        let mut p: Vec<usize> = Vec::new();
        let mut k: usize = 0;
        while k < POINT_COUNT
            invariant
                k <= POINT_COUNT,
                p@.len() == k,
                forall|m: int| 0 <= m < k ==> p@[m] == m,
            decreases POINT_COUNT - k,
        {
            p.push(k);
            k += 1;
        }
        let ghost identity = p@;
        Self::permute(&mut p);
        proof {
            let source = choose|source: Seq<int>| #[trigger]
                rearranges(identity, p@, source) && source[source.len() - 1] == source.len() - 1;
            assert forall|m: int| 0 <= m < p@.len() implies #[trigger] p@[m] < POINT_COUNT by {
                assert(p@[m] == identity[source[m]]);
            }
            assert forall|m: int, l: int| 0 <= m < l < p@.len() implies p@[m] != p@[l] by {
                assert(p@[m] == identity[source[m]]);
                assert(p@[l] == identity[source[l]]);
            }
            assert(p@[POINT_COUNT - 1] == identity[source[POINT_COUNT - 1]]);
        }
        p
    }

    /// The noise lattice over the given gradients, with freshly drawn
    /// tables; `None` unless there are `POINT_COUNT` gradients.
    pub fn new(rand_vec: Vec<Vec3>) -> (perlin: Option<Perlin>)
        ensures
            perlin is Some <==> rand_vec@.len() == POINT_COUNT,
            perlin is Some ==> {
                &&& perlin->0.gradients() == rand_vec@
                &&& is_permutation(perlin->0.table_x())
                &&& is_permutation(perlin->0.table_y())
                &&& is_permutation(perlin->0.table_z())
            },
    {
        if rand_vec.len() != POINT_COUNT {
            return None;
        }
        let perm_x = Self::perlin_generate_perm();
        let perm_y = Self::perlin_generate_perm();
        let perm_z = Self::perlin_generate_perm();
        Some(Perlin { rand_vec, perm_x, perm_y, perm_z })
    }

    /// The gradient at the lattice point `(i, j, k)`.
    pub fn gradient(&self, i: usize, j: usize, k: usize) -> (g: Vec3)
        ensures
            self.lattice_index(i, j, k) < POINT_COUNT,
            g == self.gradients()[self.lattice_index(i, j, k) as int],
    {
        proof {
            use_type_invariant(self);
        }
        let a = self.perm_x[i % POINT_COUNT];
        let b = self.perm_y[j % POINT_COUNT];
        let c = self.perm_z[k % POINT_COUNT];
        assert((a ^ b ^ c) < 256) by (bit_vector)
            requires
                a < 256,
                b < 256,
                c < 256,
        ;
        self.rand_vec[a ^ b ^ c]
    }

    /// The gradients at the eight corners of the lattice cell at
    /// `(i, j, k)`: the corner `(di, dj, dk)` stands at place
    /// `4 * di + 2 * dj + dk`.
    pub fn cell(&self, i: usize, j: usize, k: usize) -> (corners: Vec<Vec3>)
        ensures
            corners@.len() == 8,
            forall|di: int, dj: int, dk: int|
                0 <= di < 2 && 0 <= dj < 2 && 0 <= dk < 2 ==> corners@[4 * di + 2 * dj + dk] == #[trigger] self.corner(
                    i,
                    j,
                    k,
                    di,
                    dj,
                    dk,
                ),
    {
        let i1 = (i % POINT_COUNT + 1) % POINT_COUNT;
        let j1 = (j % POINT_COUNT + 1) % POINT_COUNT;
        let k1 = (k % POINT_COUNT + 1) % POINT_COUNT;
        let i0 = i % POINT_COUNT;
        let j0 = j % POINT_COUNT;
        let k0 = k % POINT_COUNT;
        let mut corners: Vec<Vec3> = Vec::new();
        corners.push(self.gradient(i0, j0, k0));
        corners.push(self.gradient(i0, j0, k1));
        corners.push(self.gradient(i0, j1, k0));
        corners.push(self.gradient(i0, j1, k1));
        corners.push(self.gradient(i1, j0, k0));
        corners.push(self.gradient(i1, j0, k1));
        corners.push(self.gradient(i1, j1, k0));
        corners.push(self.gradient(i1, j1, k1));
        corners
    }
}

} // verus!
