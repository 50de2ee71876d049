use vstd::prelude::*;
use crate::math::{Vect, vect_bounded, MAX_COORD};

verus! {

/// A set of fluid particles, stored structure-of-arrays and keyed by a dense
/// particle index. Positions, velocities and accelerations are integer
/// vectors; `volumes` and `density0` are integer scalars.
pub struct Fluid {
    pub positions: Vec<Vect>,
    pub velocities: Vec<Vect>,
    pub accelerations: Vec<Vect>,
    pub volumes: Vec<i64>,
    pub density0: i64,
}

impl Fluid {
    /// Well-formedness: one entry of every array per particle, positions in
    /// the coordinate range, and a positive rest density.
    pub open spec fn wf(self) -> bool {
        &&& self.velocities@.len() == self.positions@.len()
        &&& self.accelerations@.len() == self.positions@.len()
        &&& self.volumes@.len() == self.positions@.len()
        &&& forall|i: int|
            0 <= i < self.positions@.len() ==> vect_bounded(#[trigger] self.positions@[i], MAX_COORD as int)
        &&& self.density0 >= 1
    }

    pub open spec fn num_particles_spec(self) -> int {
        self.positions@.len() as int
    }

    /// Builds a fluid whose accelerations start at zero.
    pub fn new(positions: Vec<Vect>, velocities: Vec<Vect>, volumes: Vec<i64>, density0: i64) -> (r: Fluid)
        requires
            velocities@.len() == positions@.len(),
            volumes@.len() == positions@.len(),
            forall|i: int| 0 <= i < positions@.len() ==> vect_bounded(#[trigger] positions@[i], MAX_COORD as int),
            density0 >= 1,
        ensures
            r.wf(),
            r.positions@ == positions@,
            r.velocities@ == velocities@,
            r.volumes@ == volumes@,
            r.density0 == density0,
            r.accelerations@.len() == positions@.len(),
            forall|i: int| 0 <= i < positions@.len() ==> #[trigger] r.accelerations@[i] == (Vect { x: 0i64, y: 0i64 }),
    {
        let n = positions.len();
        let mut accelerations: Vec<Vect> = Vec::new();
        let mut k: usize = 0;
        while k < n
            invariant
                k <= n,
                accelerations@.len() == k as int,
                forall|i: int| 0 <= i < k as int ==> #[trigger] accelerations@[i] == (Vect { x: 0i64, y: 0i64 }),
            decreases n - k,
        {
            accelerations.push(Vect { x: 0, y: 0 });
            k = k + 1;
        }
        Fluid { positions, velocities, accelerations, volumes, density0 }
    }

    pub fn num_particles(&self) -> (r: usize)
        ensures
            r as int == self.num_particles_spec(),
    {
        self.positions.len()
    }
}

} // verus!
