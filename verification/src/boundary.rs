use vstd::prelude::*;
use crate::math::{Vect, vect_bounded, MAX_COORD};

verus! {

/// Index of a registered boundary inside a `LiquidWorld`.
pub type BoundaryHandle = usize;

/// A set of boundary particles. Boundaries are kinematic: this core never
/// integrates a velocity or an acceleration for them.
pub struct Boundary {
    pub positions: Vec<Vect>,
    pub volumes: Vec<i64>,
}

impl Boundary {
    /// Well-formedness: one volume per particle and positions in the
    /// coordinate range.
    pub open spec fn wf(self) -> bool {
        &&& self.volumes@.len() == self.positions@.len()
        &&& forall|i: int|
            0 <= i < self.positions@.len() ==> vect_bounded(#[trigger] self.positions@[i], MAX_COORD as int)
    }

    pub open spec fn num_particles_spec(self) -> int {
        self.positions@.len() as int
    }

    pub fn new(positions: Vec<Vect>, volumes: Vec<i64>) -> (r: Boundary)
        requires
            volumes@.len() == positions@.len(),
            forall|i: int| 0 <= i < positions@.len() ==> vect_bounded(#[trigger] positions@[i], MAX_COORD as int),
        ensures
            r.wf(),
            r.positions@ == positions@,
            r.volumes@ == volumes@,
    {
        Boundary { positions, volumes }
    }

    pub fn num_particles(&self) -> (r: usize)
        ensures
            r as int == self.num_particles_spec(),
    {
        self.positions.len()
    }
}

} // verus!
