//! The lattice of a gradient-noise field.

use vstd::prelude::*;
use rand::rngs::ThreadRng;
use crate::random::gen_int;
use crate::vec3::Vec3;

verus! {

/// The number of lattice vectors, and the length of each permutation.
pub const POINT_COUNT: usize = 256;

/// The tables of a noise field: a vector per lattice class, and for each axis
/// a permutation of the classes.
#[derive(Debug)]
pub struct Perlin {
    pub randvec: Vec<Vec3>,
    pub perm_x: Vec<usize>,
    pub perm_y: Vec<usize>,
    pub perm_z: Vec<usize>,
}

/// Whether `p` holds each of `0..POINT_COUNT` exactly once.
pub open spec fn is_permutation(p: Seq<usize>) -> bool {
    &&& p.len() == POINT_COUNT
    &&& forall|i: int| 0 <= i < p.len() ==> #[trigger] p[i] < POINT_COUNT
    &&& forall|i: int, j: int| 0 <= i < j < p.len() ==> p[i] != p[j]
}

/// The list `0, 1, .., n - 1`.
pub open spec fn identity(n: nat) -> Seq<usize> {
    Seq::new(n, |i: int| i as usize)
}

/// `p` with the entries at the places `i` and `j` exchanged.
pub open spec fn exchanged(p: Seq<usize>, i: int, j: int) -> Seq<usize> {
    p.update(i, p[j]).update(j, p[i])
}

/// Whether `targets` names, for each place from the second on, a place up to
/// that place: what the draws of a shuffle can be.
pub open spec fn draws_fit(targets: Seq<usize>) -> bool {
    &&& targets.len() == POINT_COUNT
    &&& forall|i: int| 1 <= i < POINT_COUNT ==> #[trigger] targets[i] <= i
}

/// `p` after the exchanges at the places from the last down to `i`, in this
/// order: at place `k` the entry changes places with the one at `targets[k]`.
pub open spec fn shuffled_down_to(p: Seq<usize>, targets: Seq<usize>, i: int) -> Seq<usize>
    decreases POINT_COUNT - i,
{
    if i >= POINT_COUNT {
        p
    } else {
        exchanged(shuffled_down_to(p, targets, i + 1), i, targets[i] as int)
    }
}

/// `p` shuffled by the draws `targets`: after the exchanges at all places from
/// the last down to the second.
pub open spec fn shuffled(p: Seq<usize>, targets: Seq<usize>) -> Seq<usize> {
    shuffled_down_to(p, targets, 1)
}

impl Perlin {
    /// Whether the tables have their sizes and each permutation is one.
    pub open spec fn well_formed(&self) -> bool {
        &&& self.randvec.len() == POINT_COUNT
        &&& is_permutation(self.perm_x@)
        &&& is_permutation(self.perm_y@)
        &&& is_permutation(self.perm_z@)
    }

    /// The class of the lattice point `(i, j, k)`, each coordinate taken
    /// modulo `POINT_COUNT`.
    pub open spec fn class_of(&self, i: usize, j: usize, k: usize) -> usize
        recommends
            self.well_formed(),
            i < POINT_COUNT,
            j < POINT_COUNT,
            k < POINT_COUNT,
    {
        self.perm_x[i as int] ^ self.perm_y[j as int] ^ self.perm_z[k as int]
    }

    /// A field with the given lattice vectors and three fresh random
    /// permutations.
    pub fn new(randvec: Vec<Vec3>, rng: &mut ThreadRng) -> (field: Perlin)
        requires
            randvec.len() == POINT_COUNT,
        ensures
            field.well_formed(),
            field.randvec == randvec,
    {
        let perm_x = Perlin::perlin_generate_perm(rng);
        let perm_y = Perlin::perlin_generate_perm(rng);
        let perm_z = Perlin::perlin_generate_perm(rng);
        Perlin { randvec, perm_x, perm_y, perm_z }
    }

    /// The vector of the lattice point whose coordinates, modulo
    /// `POINT_COUNT`, are `i`, `j` and `k`.
    pub fn lattice_vector(&self, i: usize, j: usize, k: usize) -> (v: Vec3)
        requires
            self.well_formed(),
            i < POINT_COUNT,
            j < POINT_COUNT,
            k < POINT_COUNT,
        ensures
            self.class_of(i, j, k) < POINT_COUNT,
            v == self.randvec[self.class_of(i, j, k) as int],
    {
        let a: usize = self.perm_x[i];
        let b: usize = self.perm_y[j];
        let c: usize = self.perm_z[k];
        assert(a ^ b ^ c < 256) by (bit_vector)
            requires
                a < 256,
                b < 256,
                c < 256,
        ;
        self.randvec[a ^ b ^ c]
    }

    /// A random permutation of `0..POINT_COUNT`.
    pub fn perlin_generate_perm(rng: &mut ThreadRng) -> (p: Vec<usize>)
        ensures
            is_permutation(p@),
    {
        let mut p: Vec<usize> = Vec::new();
        let mut i: usize = 0;
        while i < POINT_COUNT
            invariant
                i <= POINT_COUNT,
                p@ == identity(i as nat),
            decreases POINT_COUNT - i,
        {
            p.push(i);
            assert(p@ =~= identity((i + 1) as nat));
            i += 1;
        }
        Perlin::permute(&mut p, rng);
        p
    }

    /// Shuffles `p` in place: from the last place down to the second, each
    /// entry changes places with one drawn from the places up to its own.
    /// What comes of it is `p` shuffled by the draws that were made, each of
    /// which names a place up to the one it was drawn for; so it holds what
    /// `p` held, each entry once.
    pub fn permute(p: &mut Vec<usize>, rng: &mut ThreadRng)
        requires
            is_permutation(old(p)@),
        ensures
            exists|targets: Seq<usize>| #[trigger]
                draws_fit(targets) && final(p)@ == shuffled(old(p)@, targets),
            is_permutation(final(p)@),
            final(p)@.to_multiset() == old(p)@.to_multiset(),
    {
        let ghost mut targets: Seq<usize> = Seq::new(POINT_COUNT as nat, |k: int| 0usize);
        let mut i: usize = POINT_COUNT - 1;
        while i >= 1
            invariant
                i < POINT_COUNT,
                is_permutation(p@),
                p@.to_multiset() == old(p)@.to_multiset(),
                draws_fit(targets),
                p@ == shuffled_down_to(old(p)@, targets, i + 1),
            decreases i,
        {
            let bound: i32 = (i + 1) as i32;
            let target: usize = gen_int(0, bound, rng) as usize;
            let ghost before = p@;
            let a: usize = p[i];
            let b: usize = p[target];
            p.set(i, b);
            p.set(target, a);
            proof {
                let mid = before.update(i as int, b);
                assert(p@ =~= mid.update(target as int, a));
                assert(before.contains(a));
                vstd::seq_lib::to_multiset_contains(before, a);
                vstd::seq_lib::to_multiset_update(before, i as int, b);
                vstd::seq_lib::to_multiset_update(mid, target as int, a);
                assert(p@.to_multiset() =~= before.to_multiset());
                assert(p@ == exchanged(before, i as int, target as int));
                lemma_earlier_draw_is_open(old(p)@, targets, i as int, target, i + 1);
                targets = targets.update(i as int, target);
            }
            i -= 1;
        }
    }
}

/// The exchanges at the places from `i` on do not depend on the draw for an
/// earlier place `k`.
proof fn lemma_earlier_draw_is_open(p: Seq<usize>, targets: Seq<usize>, k: int, t: usize, i: int)
    requires
        0 <= k < i,
        targets.len() == POINT_COUNT,
    ensures
        shuffled_down_to(p, targets.update(k, t), i) == shuffled_down_to(p, targets, i),
    decreases POINT_COUNT - i,
{
    if i < POINT_COUNT {
        lemma_earlier_draw_is_open(p, targets, k, t, i + 1);
    }
}

} // verus!
