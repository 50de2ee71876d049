use vstd::prelude::*;
use crate::math::{
    Vect, sat, sat_add_spec, sat_mul_spec, tdiv_spec, vadd_spec, vsub_spec, vscale_spec, dot_spec, vzero_spec,
    sat_add, sat_mul, tdiv, SAT_LIMIT,
};
use crate::contacts::{Contact, ParticlesContacts};
use crate::fluid::Fluid;

verus! {

/// The softened denominator offset `h*h/100 + 1`: keeps the viscosity ratio
/// finite even for coincident particles.
pub open spec fn eta2_spec(h: int) -> int {
    tdiv_spec(sat_mul_spec(h, h), 100) + 1
}

/// The viscosity ratio `mu = h*(v.r) / (|r|^2 + eta2)` of one approaching pair.
pub open spec fn visc_mu_spec(h: int, vr: int, r2: int) -> int {
    tdiv_spec(sat_mul_spec(h, vr), sat_add_spec(r2, eta2_spec(h)))
}

/// The acceleration one same-model contact contributes before the global
/// viscosity coefficient: zero for cross-model pairs and for pairs that are
/// not approaching, else the artificial-viscosity term
/// `gradient * ((c*alpha*mu - beta*mu^2) * (vol_j * density0 / avg_density))`
/// with the average density floored at one.
pub open spec fn visc_term_spec(
    c: Contact,
    positions: Seq<Vect>,
    velocities: Seq<Vect>,
    densities: Seq<i64>,
    volumes: Seq<i64>,
    density0: int,
    h: int,
    sos: int,
    alpha: int,
    beta: int,
) -> Vect {
    if c.i_model == c.j_model {
        let r = vsub_spec(positions[c.i as int], positions[c.j as int]);
        let v = vsub_spec(velocities[c.i as int], velocities[c.j as int]);
        let vr = dot_spec(r, v);
        if vr < 0 {
            let r2 = dot_spec(r, r);
            let mu = visc_mu_spec(h, vr, r2);
            let f = sat_add_spec(
                sat_mul_spec(sat_mul_spec(sos, alpha), mu),
                -sat_mul_spec(beta, sat_mul_spec(mu, mu)),
            );
            let davg = {
                let raw = tdiv_spec(sat_add_spec(densities[c.i as int] as int, densities[c.j as int] as int), 2);
                if raw < 1 {
                    1
                } else {
                    raw
                }
            };
            let vt = tdiv_spec(sat_mul_spec(volumes[c.j as int] as int, density0), davg);
            vscale_spec(c.gradient, sat_mul_spec(f, vt))
        } else {
            vzero_spec()
        }
    } else {
        vzero_spec()
    }
}

/// The accumulated viscosity acceleration of one particle over its contact
/// range, folded left as the pass runs.
pub open spec fn visc_total_spec(
    contacts: Seq<Contact>,
    lo: int,
    hi: int,
    positions: Seq<Vect>,
    velocities: Seq<Vect>,
    densities: Seq<i64>,
    volumes: Seq<i64>,
    density0: int,
    h: int,
    sos: int,
    alpha: int,
    beta: int,
) -> Vect
    decreases hi - lo,
{
    if hi <= lo {
        vzero_spec()
    } else {
        vadd_spec(
            visc_total_spec(contacts, lo, hi - 1, positions, velocities, densities, volumes, density0, h, sos, alpha, beta),
            visc_term_spec(contacts[hi - 1], positions, velocities, densities, volumes, density0, h, sos, alpha, beta),
        )
    }
}

/// Same-model contacts must index particles of this fluid.
pub open spec fn visc_contacts_ok(contacts: Seq<Contact>, n: int) -> bool {
    forall|k: int|
        0 <= k < contacts.len() ==> ((#[trigger] contacts[k]).i as int) < n && (contacts[k].i_model
            == contacts[k].j_model ==> (contacts[k].j as int) < n)
}

/// The artificial-viscosity non-pressure force: adds, for every approaching
/// same-model pair, an acceleration along the kernel gradient that damps the
/// pair's approach rate.
pub struct ArtificialViscosity {
    pub alpha: i64,
    pub beta: i64,
    pub speed_of_sound: i64,
    pub viscosity_coefficient: i64,
}

impl ArtificialViscosity {
    pub fn new(viscosity_coefficient: i64) -> (r: ArtificialViscosity)
        ensures
            r.alpha == 1,
            r.beta == 0,
            r.speed_of_sound == 10,
            r.viscosity_coefficient == viscosity_coefficient,
    {
        ArtificialViscosity { alpha: 1, beta: 0, speed_of_sound: 10, viscosity_coefficient }
    }

    /// One viscosity pass: accumulates into each particle's own acceleration
    /// slot the viscosity of its same-model fluid-fluid contacts, scaled by
    /// the viscosity coefficient. Positions, velocities, volumes and the rest
    /// density are read-only; every particle writes only its own slot.
    pub fn solve(
        &self,
        _dt: i64,
        _inv_dt: i64,
        kernel_radius: i64,
        fluid_fluid_contacts: &ParticlesContacts,
        fluid: &mut Fluid,
        densities: &Vec<i64>,
    )
        requires
            old(fluid).wf(),
            fluid_fluid_contacts.wf(),
            densities@.len() == old(fluid).positions@.len(),
            fluid_fluid_contacts.ranges_seq().len() == old(fluid).positions@.len(),
            visc_contacts_ok(fluid_fluid_contacts.contacts_seq(), old(fluid).positions@.len() as int),
        ensures
            final(fluid).positions == old(fluid).positions,
            final(fluid).velocities == old(fluid).velocities,
            final(fluid).volumes == old(fluid).volumes,
            final(fluid).density0 == old(fluid).density0,
            final(fluid).accelerations@.len() == old(fluid).accelerations@.len(),
            final(fluid).wf(),
            forall|i: int|
                0 <= i < old(fluid).accelerations@.len() ==> #[trigger] final(fluid).accelerations@[i]
                    == vadd_spec(
                    old(fluid).accelerations@[i],
                    vscale_spec(
                        visc_total_spec(
                            fluid_fluid_contacts.contacts_seq(),
                            fluid_fluid_contacts.ranges_seq()[i].start as int,
                            fluid_fluid_contacts.ranges_seq()[i].end as int,
                            old(fluid).positions@,
                            old(fluid).velocities@,
                            densities@,
                            old(fluid).volumes@,
                            old(fluid).density0 as int,
                            kernel_radius as int,
                            self.speed_of_sound as int,
                            self.alpha as int,
                            self.beta as int,
                        ),
                        self.viscosity_coefficient as int,
                    ),
                ),
    {
        let ghost cts = fluid_fluid_contacts.contacts_seq();
        let ghost pos = fluid.positions@;
        let ghost vel = fluid.velocities@;
        let ghost dens = densities@;
        let ghost vols = fluid.volumes@;
        let ghost d0 = fluid.density0 as int;
        let ghost hs = kernel_radius as int;
        let ghost sos = self.speed_of_sound as int;
        let ghost al = self.alpha as int;
        let ghost be = self.beta as int;
        let n = fluid.positions.len();
        let mut i: usize = 0;
        while i < n
            invariant
                i <= n,
                n == pos.len(),
                fluid.positions@ == pos,
                fluid.positions == old(fluid).positions,
                fluid.velocities == old(fluid).velocities,
                fluid.volumes == old(fluid).volumes,
                fluid.density0 == old(fluid).density0,
                fluid.wf(),
                old(fluid).wf(),
                fluid.accelerations@.len() == old(fluid).accelerations@.len(),
                vel == old(fluid).velocities@,
                vols == old(fluid).volumes@,
                d0 == old(fluid).density0 as int,
                dens == densities@,
                dens.len() == n,
                hs == kernel_radius as int,
                sos == self.speed_of_sound as int,
                al == self.alpha as int,
                be == self.beta as int,
                cts == fluid_fluid_contacts.contacts_seq(),
                fluid_fluid_contacts.wf(),
                fluid_fluid_contacts.ranges_seq().len() == n,
                visc_contacts_ok(cts, n as int),
                forall|q: int|
                    (i as int) <= q < n ==> #[trigger] fluid.accelerations@[q] == old(fluid).accelerations@[q],
                forall|q: int|
                    0 <= q < i as int ==> #[trigger] fluid.accelerations@[q] == vadd_spec(
                        old(fluid).accelerations@[q],
                        vscale_spec(
                            visc_total_spec(
                                cts,
                                fluid_fluid_contacts.ranges_seq()[q].start as int,
                                fluid_fluid_contacts.ranges_seq()[q].end as int,
                                pos,
                                vel,
                                dens,
                                vols,
                                d0,
                                hs,
                                sos,
                                al,
                                be,
                            ),
                            self.viscosity_coefficient as int,
                        ),
                    ),
            decreases n - i,
        {
            let rg = fluid_fluid_contacts.particle_range(i);
            let lo = rg.start;
            let hi = rg.end;
            let mut added = Vect::zero();
            let mut k: usize = lo;
            while k < hi
                invariant
                    lo <= k <= hi,
                    (hi as int) <= cts.len(),
                    n == pos.len(),
                    fluid.positions@ == pos,
                    fluid.velocities@ == vel,
                    fluid.volumes@ == vols,
                    fluid.density0 as int == d0,
                    fluid.wf(),
                    dens == densities@,
                    dens.len() == n,
                    hs == kernel_radius as int,
                    sos == self.speed_of_sound as int,
                    al == self.alpha as int,
                    be == self.beta as int,
                    cts == fluid_fluid_contacts.contacts_seq(),
                    visc_contacts_ok(cts, n as int),
                    added == visc_total_spec(cts, lo as int, k as int, pos, vel, dens, vols, d0, hs, sos, al, be),
                decreases hi - k,
            {
                let c = fluid_fluid_contacts.contact_at(k);
                let term: Vect;
                if c.i_model == c.j_model {
                    let r = fluid.positions[c.i].sub(&fluid.positions[c.j]);
                    let v = fluid.velocities[c.i].sub(&fluid.velocities[c.j]);
                    let vr = r.dot(&v);
                    if vr < 0 {
                        let r2 = r.dot(&r);
                        proof {
                            assert((kernel_radius as int) * (kernel_radius as int) >= 0) by (nonlinear_arith);
                            assert((r.x as int) * (r.x as int) >= 0) by (nonlinear_arith);
                            assert((r.y as int) * (r.y as int) >= 0) by (nonlinear_arith);
                        }
                        let eta2 = tdiv(sat_mul(kernel_radius, kernel_radius), 100) + 1;
                        let den = sat_add(r2, eta2);
                        let mu = tdiv(sat_mul(kernel_radius, vr), den);
                        let b2 = sat_mul(self.beta, sat_mul(mu, mu));
                        let nb2 = if b2 == i64::MIN {
                            -SAT_LIMIT
                        } else {
                            -b2
                        };
                        let f = sat_add(sat_mul(sat_mul(self.speed_of_sound, self.alpha), mu), nb2);
                        let dsum = sat_add(densities[c.i], densities[c.j]);
                        let draw = tdiv(dsum, 2);
                        let davg = if draw < 1 {
                            1
                        } else {
                            draw
                        };
                        let vt = tdiv(sat_mul(fluid.volumes[c.j], fluid.density0), davg);
                        term = c.gradient.scale(sat_mul(f, vt));
                    } else {
                        term = Vect::zero();
                    }
                } else {
                    term = Vect::zero();
                }
                proof {
                    assert(term == visc_term_spec(cts[k as int], pos, vel, dens, vols, d0, hs, sos, al, be));
                }
                added = added.add(&term);
                k = k + 1;
            }
            let total = added.scale(self.viscosity_coefficient);
            let acc = fluid.accelerations[i];
            let newacc = acc.add(&total);
            fluid.accelerations.set(i, newacc);
            i = i + 1;
        }
    }

    /// Reindexing hook for external particle permutation: this force holds no
    /// per-particle state, so there is nothing to permute.
    pub fn apply_permutation(&mut self, _permutation: &Vec<usize>)
        ensures
            *final(self) == *old(self),
    {
    }
}

/// Momentum conservation of the viscosity pass over a symmetric pair: when
/// the two mirrored same-model contacts carry exactly opposite kernel
/// gradients and the two particles have equal volumes, the acceleration
/// terms they produce are exactly equal and opposite — so the pass changes
/// the pair's total momentum by nothing.
pub proof fn lemma_viscosity_antisymmetric(
    ci: Contact,
    cj: Contact,
    positions: Seq<Vect>,
    velocities: Seq<Vect>,
    densities: Seq<i64>,
    volumes: Seq<i64>,
    density0: int,
    h: int,
    sos: int,
    alpha: int,
    beta: int,
)
    requires
        ci.i_model == ci.j_model,
        cj.i_model == ci.i_model,
        cj.j_model == ci.j_model,
        cj.i == ci.j,
        cj.j == ci.i,
        (ci.i as int) < positions.len(),
        (ci.j as int) < positions.len(),
        velocities.len() == positions.len(),
        densities.len() == positions.len(),
        volumes.len() == positions.len(),
        volumes[ci.i as int] == volumes[ci.j as int],
        cj.gradient.x as int == -(ci.gradient.x as int),
        cj.gradient.y as int == -(ci.gradient.y as int),
    ensures
        visc_term_spec(cj, positions, velocities, densities, volumes, density0, h, sos, alpha, beta) == vscale_spec(
            visc_term_spec(ci, positions, velocities, densities, volumes, density0, h, sos, alpha, beta),
            -1,
        ),
{
    let pi = positions[ci.i as int];
    let pj = positions[ci.j as int];
    let vi = velocities[ci.i as int];
    let vj = velocities[ci.j as int];
    let r = vsub_spec(pi, pj);
    let rr = vsub_spec(pj, pi);
    crate::math::lemma_sat_odd(pi.x - pj.x);
    crate::math::lemma_sat_odd(pi.y - pj.y);
    assert(rr.x as int == -(r.x as int) && rr.y as int == -(r.y as int));
    let v = vsub_spec(vi, vj);
    let vv = vsub_spec(vj, vi);
    crate::math::lemma_sat_odd(vi.x - vj.x);
    crate::math::lemma_sat_odd(vi.y - vj.y);
    assert(vv.x as int == -(v.x as int) && vv.y as int == -(v.y as int));
    assert((rr.x as int) * (vv.x as int) == (r.x as int) * (v.x as int)) by (nonlinear_arith)
        requires
            rr.x as int == -(r.x as int),
            vv.x as int == -(v.x as int),
    ;
    assert((rr.y as int) * (vv.y as int) == (r.y as int) * (v.y as int)) by (nonlinear_arith)
        requires
            rr.y as int == -(r.y as int),
            vv.y as int == -(v.y as int),
    ;
    assert(dot_spec(rr, vv) == dot_spec(r, v));
    assert((rr.x as int) * (rr.x as int) == (r.x as int) * (r.x as int)) by (nonlinear_arith)
        requires
            rr.x as int == -(r.x as int),
    ;
    assert((rr.y as int) * (rr.y as int) == (r.y as int) * (r.y as int)) by (nonlinear_arith)
        requires
            rr.y as int == -(r.y as int),
    ;
    assert(dot_spec(rr, rr) == dot_spec(r, r));
    let vr = dot_spec(r, v);
    if vr < 0 {
        let r2 = dot_spec(r, r);
        let mu = visc_mu_spec(h, vr, r2);
        let f = sat_add_spec(
            sat_mul_spec(sat_mul_spec(sos, alpha), mu),
            -sat_mul_spec(beta, sat_mul_spec(mu, mu)),
        );
        let davg = {
            let raw = tdiv_spec(sat_add_spec(densities[ci.i as int] as int, densities[ci.j as int] as int), 2);
            if raw < 1 {
                1
            } else {
                raw
            }
        };
        let vt = tdiv_spec(sat_mul_spec(volumes[ci.j as int] as int, density0), davg);
        let s = sat_mul_spec(f, vt);
        let gi = ci.gradient;
        let gj = cj.gradient;
        assert((gj.x as int) * s == -((gi.x as int) * s)) by (nonlinear_arith)
            requires
                gj.x as int == -(gi.x as int),
        ;
        assert((gj.y as int) * s == -((gi.y as int) * s)) by (nonlinear_arith)
            requires
                gj.y as int == -(gi.y as int),
        ;
        crate::math::lemma_sat_odd((gi.x as int) * s);
        crate::math::lemma_sat_odd((gi.y as int) * s);
        let ti = vscale_spec(gi, s);
        crate::math::lemma_sat_odd(ti.x as int);
        crate::math::lemma_sat_odd(ti.y as int);
        assert(sat(ti.x as int * -1) == -(ti.x as int));
        assert(sat(ti.y as int * -1) == -(ti.y as int));
    } else {
        assert(vscale_spec(vzero_spec(), -1) == vzero_spec()) by {
            assert(sat(0int * -1) == 0);
        }
    }
}

/// The pair form of momentum conservation in the vocabulary of `solve`'s
/// contract: when each of two particles' contact ranges holds exactly its
/// mirrored contact, the accumulated viscosity accelerations of the two
/// particles are exactly equal and opposite.
pub proof fn lemma_viscosity_pair_momentum(
    contacts: Seq<Contact>,
    ki: int,
    kj: int,
    positions: Seq<Vect>,
    velocities: Seq<Vect>,
    densities: Seq<i64>,
    volumes: Seq<i64>,
    density0: int,
    h: int,
    sos: int,
    alpha: int,
    beta: int,
)
    requires
        0 <= ki < contacts.len(),
        0 <= kj < contacts.len(),
        contacts[ki].i_model == contacts[ki].j_model,
        contacts[kj].i_model == contacts[ki].i_model,
        contacts[kj].j_model == contacts[ki].j_model,
        contacts[kj].i == contacts[ki].j,
        contacts[kj].j == contacts[ki].i,
        (contacts[ki].i as int) < positions.len(),
        (contacts[ki].j as int) < positions.len(),
        velocities.len() == positions.len(),
        densities.len() == positions.len(),
        volumes.len() == positions.len(),
        volumes[contacts[ki].i as int] == volumes[contacts[ki].j as int],
        contacts[kj].gradient.x as int == -(contacts[ki].gradient.x as int),
        contacts[kj].gradient.y as int == -(contacts[ki].gradient.y as int),
    ensures
        visc_total_spec(contacts, kj, kj + 1, positions, velocities, densities, volumes, density0, h, sos, alpha, beta)
            == vscale_spec(
            visc_total_spec(contacts, ki, ki + 1, positions, velocities, densities, volumes, density0, h, sos, alpha, beta),
            -1,
        ),
{
    let ti = visc_term_spec(contacts[ki], positions, velocities, densities, volumes, density0, h, sos, alpha, beta);
    let tj = visc_term_spec(contacts[kj], positions, velocities, densities, volumes, density0, h, sos, alpha, beta);
    lemma_viscosity_antisymmetric(
        contacts[ki],
        contacts[kj],
        positions,
        velocities,
        densities,
        volumes,
        density0,
        h,
        sos,
        alpha,
        beta,
    );
    assert(-(SAT_LIMIT as int) <= (ti.x as int) <= SAT_LIMIT as int && -(SAT_LIMIT as int) <= (ti.y as int)
        <= SAT_LIMIT as int);
    assert(-(SAT_LIMIT as int) <= (tj.x as int) <= SAT_LIMIT as int && -(SAT_LIMIT as int) <= (tj.y as int)
        <= SAT_LIMIT as int);
    assert(vadd_spec(vzero_spec(), ti) == ti) by {
        assert(sat(0 + ti.x as int) == ti.x as int);
        assert(sat(0 + ti.y as int) == ti.y as int);
    }
    assert(vadd_spec(vzero_spec(), tj) == tj) by {
        assert(sat(0 + tj.x as int) == tj.x as int);
        assert(sat(0 + tj.y as int) == tj.y as int);
    }
    assert(visc_total_spec(contacts, ki, ki, positions, velocities, densities, volumes, density0, h, sos, alpha, beta)
        == vzero_spec());
    assert(visc_total_spec(contacts, kj, kj, positions, velocities, densities, volumes, density0, h, sos, alpha, beta)
        == vzero_spec());
    assert(visc_total_spec(contacts, ki, ki + 1, positions, velocities, densities, volumes, density0, h, sos, alpha, beta)
        == ti);
    assert(visc_total_spec(contacts, kj, kj + 1, positions, velocities, densities, volumes, density0, h, sos, alpha, beta)
        == tj);
}

} // verus!
