//! Perlin noise: the tables it is built on, and the choice of the gradients
//! that are blended at a point.
use crate::permutation::lemma_swap_keeps_elements;
use crate::random::random_below;
use crate::scalar::Scalar;
use crate::vec3::Vec3;
use vstd::prelude::*;

verus! {

/// How many gradients there are, and how long each table is.
pub const POINT_COUNT: usize = 256;

/// A texture of turbulent noise, with the scale at which it is laid over
/// space.
pub struct NoiseTexture {
    pub noise: Perlin,
    pub scale: Scalar,
}

impl NoiseTexture {
    pub fn new(sc: Scalar, noise: Perlin) -> (res: Self)
        ensures
            res.scale == sc,
            res.noise == noise,
    {
        Self { noise, scale: sc }
    }
}

/// The tables of Perlin noise: random gradients, and for each axis a random
/// order of their numbers.
pub struct Perlin {
    pub ranvec: Vec<Vec3>,
    pub perm_x: Vec<u8>,
    pub perm_y: Vec<u8>,
    pub perm_z: Vec<u8>,
}

/// The numbers of the gradients in their own order.
pub open spec fn identity_table() -> Seq<u8> {
    Seq::new(256, |i: int| i as u8)
}

/// Whether a table holds each number of a gradient exactly once.
pub open spec fn is_permutation(table: Seq<u8>) -> bool {
    table.to_multiset() == identity_table().to_multiset()
}

/// The place in a table for the lattice coordinate `i` moved on by `step`:
/// the coordinate taken modulo the length of the table.
pub open spec fn lattice_slot(i: i32, step: int) -> int {
    (i + step) % 256
}

/// The number of the corner of a lattice cell that lies `di`, `dj` and `dk`
/// cells on along the three axes, each 0 or 1.
pub open spec fn corner_number(di: int, dj: int, dk: int) -> int {
    4 * di + 2 * dj + dk
}

impl Perlin {
    /// Whether the tables are complete: 256 gradients, and three orders of
    /// their numbers.
    pub open spec fn wf(self) -> bool {
        &&& self.ranvec@.len() == 256
        &&& self.perm_x@.len() == 256
        &&& self.perm_y@.len() == 256
        &&& self.perm_z@.len() == 256
        &&& is_permutation(self.perm_x@)
        &&& is_permutation(self.perm_y@)
        &&& is_permutation(self.perm_z@)
    }

    /// The gradient at a corner of the lattice cell at `(i, j, k)`: the
    /// three tables are read at the corner's coordinates, and the numbers
    /// found are combined bit by bit into the number of a gradient.
    pub open spec fn gradient_at(self, i: i32, j: i32, k: i32, di: int, dj: int, dk: int) -> Vec3 {
        self.ranvec@[(self.perm_x@[lattice_slot(i, di)] ^ self.perm_y@[lattice_slot(j, dj)]
            ^ self.perm_z@[lattice_slot(k, dk)]) as int]
    }

    /// New tables around the given gradients, each table in a fresh random
    /// order; none unless there are 256 gradients.
    pub fn new(ranvec: Vec<Vec3>) -> (res: Option<Self>)
        ensures
            res is Some <==> ranvec@.len() == 256,
            res matches Some(perlin) ==> perlin.wf() && perlin.ranvec@ == ranvec@,
    {
        if ranvec.len() != POINT_COUNT {
            return None;
        }
        Some(
            Self {
                ranvec,
                perm_x: perlin_generate_perm(),
                perm_y: perlin_generate_perm(),
                perm_z: perlin_generate_perm(),
            },
        )
    }

    /// The gradients at the eight corners of the lattice cell at
    /// `(i, j, k)`, which the caller blends into the noise at a point of the
    /// cell. The corner that lies `di`, `dj`, `dk` on is at
    /// [`corner_number`]`(di, dj, dk)`.
    pub fn noise(&self, i: i32, j: i32, k: i32) -> (res: Vec<Vec3>)
        requires
            self.wf(),
        ensures
            res@.len() == 8,
            forall|di: int, dj: int, dk: int|
                0 <= di < 2 && 0 <= dj < 2 && 0 <= dk < 2 ==> #[trigger] res@[corner_number(
                    di,
                    dj,
                    dk,
                )] == self.gradient_at(i, j, k, di, dj, dk),
    {
        let mut c: Vec<Vec3> = Vec::new();
        let mut corner: usize = 0;
        while corner < 8
            invariant
                corner <= 8,
                self.wf(),
                c@.len() == corner,
                forall|n: int|
                    0 <= n < corner ==> #[trigger] c@[n] == self.gradient_at(
                        i,
                        j,
                        k,
                        n / 4,
                        (n / 2) % 2,
                        n % 2,
                    ),
            decreases 8 - corner,
        {
            let di: u8 = (corner / 4) as u8;
            let dj: u8 = ((corner / 2) % 2) as u8;
            let dk: u8 = (corner % 2) as u8;
            let x = self.perm_x[slot(i, di)];
            let y = self.perm_y[slot(j, dj)];
            let z = self.perm_z[slot(k, dk)];
            let number: u8 = x ^ y ^ z;
            c.push(self.ranvec[number as usize]);
            corner = corner + 1;
        }
        proof {
            assert forall|di: int, dj: int, dk: int|
                0 <= di < 2 && 0 <= dj < 2 && 0 <= dk < 2 implies #[trigger] c@[corner_number(
                di,
                dj,
                dk,
            )] == self.gradient_at(i, j, k, di, dj, dk) by {
                let n = corner_number(di, dj, dk);
                assert(n / 4 == di && (n / 2) % 2 == dj && n % 2 == dk);
            }
        }
        c
    }
}

/// The place in a table for a lattice coordinate moved on by 0 or 1.
fn slot(i: i32, step: u8) -> (res: usize)
    requires
        step < 2,
    ensures
        res == lattice_slot(i, step as int),
        res < 256,
{
    let lifted: i64 = i as i64 + 2147483648i64 + step as i64;
    (lifted % 256) as usize
}

/// A table of the numbers 0 to 255 in a random order.
pub fn perlin_generate_perm() -> (res: Vec<u8>)
    ensures
        res@.len() == 256,
        is_permutation(res@),
{
    let mut result: Vec<u8> = Vec::new();
    let mut n: usize = 0;
    while n < POINT_COUNT
        invariant
            n <= 256,
            result@ == Seq::new(n as nat, |i: int| i as u8),
        decreases 256 - n,
    {
        result.push(n as u8);
        proof {
            assert(result@ =~= Seq::new((n + 1) as nat, |i: int| i as u8));
        }
        n = n + 1;
    }
    let mut i: usize = POINT_COUNT - 1;
    while i >= 1
        invariant
            i < 256,
            result@.len() == 256,
            is_permutation(result@),
        decreases i,
    {
        let target = random_below(i);
        let ghost before = result@;
        let moved = result[i];
        let other = result[target];
        result.set(i, other);
        result.set(target, moved);
        proof {
            lemma_swap_keeps_elements(before, i as int, target as int);
            assert(result@ =~= before.update(i as int, before[target as int]).update(
                target as int,
                before[i as int],
            ));
        }
        i = i - 1;
    }
    result
}

} // verus!
