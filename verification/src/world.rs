use vstd::prelude::*;
use crate::math::{Vect, MAX_COORD};
use crate::fluid::Fluid;
use crate::boundary::{Boundary, BoundaryHandle};
use crate::contacts::{ContactManager, sets_ok};
use crate::pressure::PBFSolver;
use crate::timestep::TimestepManager;

verus! {

/// The whole simulation scene: the registered fluid and boundary particle
/// sets, the interaction radius, and the solver state, stepped once per
/// frame.
pub struct LiquidWorld {
    pub particle_radius: i64,
    pub h: i64,
    pub fluids: Vec<Fluid>,
    pub boundaries: Vec<Boundary>,
    pub solver: PBFSolver,
    pub contact_manager: ContactManager,
    pub timestep_manager: TimestepManager,
}

impl LiquidWorld {
    pub open spec fn wf(self) -> bool {
        &&& 1 <= self.h <= MAX_COORD
        &&& self.particle_radius >= 1
        &&& sets_ok(self.fluids@, self.boundaries@)
        &&& self.timestep_manager.num_substeps >= 1
    }

    /// A fresh world whose interaction radius is
    /// `particle_radius * smoothing_factor * 2`.
    pub fn new(particle_radius: i64, smoothing_factor: i64) -> (r: LiquidWorld)
        requires
            particle_radius >= 1,
            smoothing_factor >= 1,
            particle_radius * smoothing_factor * 2 <= MAX_COORD,
        ensures
            r.wf(),
            r.h_spec() == particle_radius * smoothing_factor * 2,
            r.particle_radius_spec() == particle_radius,
            r.fluids_seq().len() == 0,
            r.boundaries_seq().len() == 0,
    {
        proof {
            assert(particle_radius * smoothing_factor >= 1) by (nonlinear_arith)
                requires
                    particle_radius >= 1,
                    smoothing_factor >= 1,
            ;
        }
        let h = particle_radius * smoothing_factor * 2;
        LiquidWorld {
            particle_radius,
            h,
            fluids: Vec::new(),
            boundaries: Vec::new(),
            solver: PBFSolver::new(),
            contact_manager: ContactManager::new(),
            timestep_manager: TimestepManager::new(),
        }
    }

    pub open spec fn h_spec(self) -> int {
        self.h as int
    }

    pub open spec fn particle_radius_spec(self) -> int {
        self.particle_radius as int
    }

    pub open spec fn fluids_seq(self) -> Seq<Fluid> {
        self.fluids@
    }

    pub open spec fn boundaries_seq(self) -> Seq<Boundary> {
        self.boundaries@
    }

    /// Advances the simulation by one frame of length `dt`: rebuilds
    /// contacts, runs the pressure solver's sub-steps, and commits the new
    /// fluid state. Boundaries are kinematic and never moved here.
    pub fn step(&mut self, dt: i64, gravity: &Vect)
        requires
            old(self).wf(),
            dt >= 1,
        ensures
            final(self).wf(),
            final(self).h_spec() == old(self).h_spec(),
            final(self).particle_radius_spec() == old(self).particle_radius_spec(),
            final(self).boundaries == old(self).boundaries,
            final(self).fluids_seq().len() == old(self).fluids_seq().len(),
            forall|q: int|
                0 <= q < old(self).fluids_seq().len() ==> (#[trigger] final(self).fluids_seq()[q]).wf()
                    && final(self).fluids_seq()[q].positions@.len() == old(self).fluids_seq()[q].positions@.len()
                    && final(self).fluids_seq()[q].volumes == old(self).fluids_seq()[q].volumes
                    && final(self).fluids_seq()[q].density0 == old(self).fluids_seq()[q].density0,
            old(self).timestep_manager.num_substeps == 1 ==> forall|q: int, i: int|
                0 <= q < old(self).fluids_seq().len() && 0 <= i < final(self).fluids_seq()[q].positions@.len()
                    ==> #[trigger] final(self).fluids_seq()[q].velocities@[i] == crate::math::vtdiv_spec(
                    crate::math::vsub_spec(
                        final(self).fluids_seq()[q].positions@[i],
                        old(self).fluids_seq()[q].positions@[i],
                    ),
                    dt as int,
                ),
            final(self).solver == old(self).solver,
            final(self).timestep_manager == old(self).timestep_manager,
            crate::pressure::step_rel(
                old(self).fluids_seq(),
                final(self).fluids_seq(),
                old(self).boundaries_seq(),
                *gravity,
                old(self).h_spec(),
                old(self).solver.num_pressure_iterations as int,
                old(self).solver.nonpressure_forces@,
                crate::timestep::substeps_spec(old(self).timestep_manager.num_substeps as int, dt as int),
            ),
    {
        self.solver.step(
            dt,
            &self.timestep_manager,
            &mut self.contact_manager,
            gravity,
            self.h,
            self.particle_radius,
            &mut self.fluids,
            &self.boundaries,
        );
    }

    /// Registers one fluid particle set.
    pub fn add_fluid(&mut self, fluid: Fluid)
        requires
            old(self).wf(),
            fluid.wf(),
        ensures
            final(self).wf(),
            final(self).fluids_seq() == old(self).fluids_seq().push(fluid),
            final(self).boundaries == old(self).boundaries,
            final(self).h_spec() == old(self).h_spec(),
            final(self).particle_radius_spec() == old(self).particle_radius_spec(),
    {
        self.fluids.push(fluid)
    }

    /// Registers one boundary particle set and hands back its handle.
    pub fn add_boundary(&mut self, boundary: Boundary) -> (handle: BoundaryHandle)
        requires
            old(self).wf(),
            boundary.wf(),
        ensures
            final(self).wf(),
            final(self).boundaries_seq() == old(self).boundaries_seq().push(boundary),
            final(self).fluids == old(self).fluids,
            final(self).h_spec() == old(self).h_spec(),
            final(self).particle_radius_spec() == old(self).particle_radius_spec(),
            handle as int == old(self).boundaries_seq().len(),
    {
        let handle = self.boundaries.len();
        self.boundaries.push(boundary);
        handle
    }

    pub fn fluids(&self) -> (r: &Vec<Fluid>)
        ensures
            r@ == self.fluids_seq(),
    {
        &self.fluids
    }

    pub fn boundaries(&self) -> (r: &Vec<Boundary>)
        ensures
            r@ == self.boundaries_seq(),
    {
        &self.boundaries
    }

    pub fn h(&self) -> (r: i64)
        ensures
            r as int == self.h_spec(),
    {
        self.h
    }

    pub fn particle_radius(&self) -> (r: i64)
        ensures
            r as int == self.particle_radius_spec(),
    {
        self.particle_radius
    }
}

} // verus!
