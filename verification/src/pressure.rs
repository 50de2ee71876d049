use vstd::prelude::*;
use crate::math::{
    Vect, sat_add_spec, sat_sub_spec, sat_mul_spec, tdiv_spec, vadd_spec, vsub_spec, vscale_spec, vzero_spec,
    vclamp_coord_spec, vtdiv_spec, vect_bounded, sat_add, sat_sub, sat_mul, tdiv, vclamp_coord, vtdiv, MAX_COORD,
};
use crate::contacts::{Contact, ParticlesContacts};
use crate::fluid::Fluid;
use crate::boundary::Boundary;

verus! {

/// The volume of a contact's neighbor, read from the fluid or the boundary
/// sets depending on the list's `j`-side kind.
pub open spec fn density_vol_j(c: Contact, fluids: Seq<Fluid>, boundaries: Seq<Boundary>, j_boundary: bool) -> int {
    if j_boundary {
        boundaries[c.j_model as int].volumes@[c.j as int] as int
    } else {
        fluids[c.j_model as int].volumes@[c.j as int] as int
    }
}

/// The kernel-weighted volume sum of one contact range, folded left.
pub open spec fn density_sum(
    contacts: Seq<Contact>,
    lo: int,
    hi: int,
    fluids: Seq<Fluid>,
    boundaries: Seq<Boundary>,
    j_boundary: bool,
) -> int
    decreases hi - lo,
{
    if hi <= lo {
        0
    } else {
        sat_add_spec(
            density_sum(contacts, lo, hi - 1, fluids, boundaries, j_boundary),
            sat_mul_spec(contacts[hi - 1].weight as int, density_vol_j(contacts[hi - 1], fluids, boundaries, j_boundary)),
        )
    }
}

/// One particle's predicted density: its kernel-weighted volume sum over its
/// fluid-fluid and fluid-boundary contacts, normalized by `h*h` and floored
/// at one (the minimum density floor).
pub open spec fn density_of(
    ffc: Seq<Contact>,
    ff_lo: int,
    ff_hi: int,
    fbc: Seq<Contact>,
    fb_lo: int,
    fb_hi: int,
    fluids: Seq<Fluid>,
    boundaries: Seq<Boundary>,
    h: int,
) -> int {
    let total = sat_add_spec(
        density_sum(ffc, ff_lo, ff_hi, fluids, boundaries, false),
        density_sum(fbc, fb_lo, fb_hi, fluids, boundaries, true),
    );
    let raw = tdiv_spec(total, sat_mul_spec(h, h));
    if raw < 1 {
        1
    } else {
        raw
    }
}

/// Contacts' `j` sides index real volumes of the given kind.
pub open spec fn contacts_j_ok(
    contacts: Seq<Contact>,
    fluids: Seq<Fluid>,
    boundaries: Seq<Boundary>,
    j_boundary: bool,
) -> bool {
    forall|k: int|
        0 <= k < contacts.len() ==> {
            let c = #[trigger] contacts[k];
            if j_boundary {
                (c.j_model as int) < boundaries.len() && (c.j as int) < boundaries[c.j_model as int].volumes@.len()
            } else {
                (c.j_model as int) < fluids.len() && (c.j as int) < fluids[c.j_model as int].volumes@.len()
            }
        }
}

/// Computes every particle's predicted density of one fluid model from its
/// two contact lists.
pub fn compute_densities(
    ff: &ParticlesContacts,
    fb: &ParticlesContacts,
    fluids: &Vec<Fluid>,
    boundaries: &Vec<Boundary>,
    h: i64,
) -> (r: Vec<i64>)
    requires
        ff.wf(),
        fb.wf(),
        fb.ranges_seq().len() == ff.ranges_seq().len(),
        contacts_j_ok(ff.contacts_seq(), fluids@, boundaries@, false),
        contacts_j_ok(fb.contacts_seq(), fluids@, boundaries@, true),
        1 <= h <= MAX_COORD,
    ensures
        r@.len() == ff.ranges_seq().len(),
        forall|i: int|
            0 <= i < r@.len() ==> #[trigger] r@[i] as int == density_of(
                ff.contacts_seq(),
                ff.ranges_seq()[i].start as int,
                ff.ranges_seq()[i].end as int,
                fb.contacts_seq(),
                fb.ranges_seq()[i].start as int,
                fb.ranges_seq()[i].end as int,
                fluids@,
                boundaries@,
                h as int,
            ),
        forall|i: int| 0 <= i < r@.len() ==> #[trigger] r@[i] >= 1,
{
    let n = ff.num_particles();
    let mut out: Vec<i64> = Vec::new();
    let mut i: usize = 0;
    while i < n
        invariant
            i <= n,
            n == ff.ranges_seq().len(),
            fb.ranges_seq().len() == n,
            ff.wf(),
            fb.wf(),
            contacts_j_ok(ff.contacts_seq(), fluids@, boundaries@, false),
            contacts_j_ok(fb.contacts_seq(), fluids@, boundaries@, true),
            1 <= h <= MAX_COORD,
            out@.len() == i as int,
            forall|q: int|
                0 <= q < i as int ==> #[trigger] out@[q] as int == density_of(
                    ff.contacts_seq(),
                    ff.ranges_seq()[q].start as int,
                    ff.ranges_seq()[q].end as int,
                    fb.contacts_seq(),
                    fb.ranges_seq()[q].start as int,
                    fb.ranges_seq()[q].end as int,
                    fluids@,
                    boundaries@,
                    h as int,
                ),
            forall|q: int| 0 <= q < i as int ==> #[trigger] out@[q] >= 1,
        decreases n - i,
    {
        let sum_ff = range_density_sum(ff, i, fluids, boundaries, false);
        let sum_fb = range_density_sum(fb, i, fluids, boundaries, true);
        let total = sat_add(sum_ff, sum_fb);
        proof {
            assert((h as int) * (h as int) >= 1) by (nonlinear_arith)
                requires
                    h >= 1,
            ;
        }
        let hh = sat_mul(h, h);
        let raw = tdiv(total, hh);
        let d = if raw < 1 {
            1
        } else {
            raw
        };
        out.push(d);
        i = i + 1;
    }
    out
}

/// The kernel-weighted volume sum of one particle's contact range.
fn range_density_sum(
    pc: &ParticlesContacts,
    i: usize,
    fluids: &Vec<Fluid>,
    boundaries: &Vec<Boundary>,
    j_boundary: bool,
) -> (r: i64)
    requires
        pc.wf(),
        (i as int) < pc.ranges_seq().len(),
        contacts_j_ok(pc.contacts_seq(), fluids@, boundaries@, j_boundary),
    ensures
        r as int == density_sum(
            pc.contacts_seq(),
            pc.ranges_seq()[i as int].start as int,
            pc.ranges_seq()[i as int].end as int,
            fluids@,
            boundaries@,
            j_boundary,
        ),
{
    let rg = pc.particle_range(i);
    let lo = rg.start;
    let hi = rg.end;
    let mut acc: i64 = 0;
    let mut k: usize = lo;
    while k < hi
        invariant
            lo <= k <= hi,
            (hi as int) <= pc.contacts_seq().len(),
            contacts_j_ok(pc.contacts_seq(), fluids@, boundaries@, j_boundary),
            acc as int == density_sum(pc.contacts_seq(), lo as int, k as int, fluids@, boundaries@, j_boundary),
        decreases hi - k,
    {
        let c = pc.contact_at(k);
        let vol = if j_boundary {
            boundaries[c.j_model].volumes[c.j]
        } else {
            fluids[c.j_model].volumes[c.j]
        };
        acc = sat_add(acc, sat_mul(c.weight, vol));
        k = k + 1;
    }
    acc
}

/// One particle's pressure multiplier: the negated density excess over the
/// rest density, zero when the fluid is at or below its rest density.
pub open spec fn lambda_spec(density: int, density0: int) -> int {
    if density > density0 {
        -sat_sub_spec(density, density0)
    } else {
        0
    }
}

/// Computes every particle's pressure multiplier from its predicted density.
pub fn compute_lambdas(densities: &Vec<i64>, density0: i64) -> (r: Vec<i64>)
    ensures
        r@.len() == densities@.len(),
        forall|i: int|
            0 <= i < r@.len() ==> #[trigger] r@[i] as int == lambda_spec(densities@[i] as int, density0 as int),
{
    let n = densities.len();
    let mut out: Vec<i64> = Vec::new();
    let mut i: usize = 0;
    while i < n
        invariant
            i <= n,
            n == densities@.len(),
            out@.len() == i as int,
            forall|q: int|
                0 <= q < i as int ==> #[trigger] out@[q] as int == lambda_spec(densities@[q] as int, density0 as int),
        decreases n - i,
    {
        let d = densities[i];
        let l = if d > density0 {
            let s = sat_sub(d, density0);
            -s
        } else {
            0
        };
        out.push(l);
        i = i + 1;
    }
    out
}

/// The position correction one contact contributes: along its kernel
/// gradient, scaled by the particles' summed multipliers over the rest
/// density. Cross-model fluid pairs contribute nothing; a boundary neighbor
/// mirrors the particle's own multiplier.
pub open spec fn corr_term_spec(c: Contact, lambdas: Seq<i64>, density0: int, j_boundary: bool) -> Vect {
    if !j_boundary && c.i_model != c.j_model {
        vzero_spec()
    } else {
        let li = lambdas[c.i as int] as int;
        let lj = if j_boundary {
            li
        } else {
            lambdas[c.j as int] as int
        };
        vscale_spec(c.gradient, tdiv_spec(sat_add_spec(li, lj), density0))
    }
}

/// The accumulated position correction of one particle over one contact
/// range, folded left.
pub open spec fn corr_total_spec(
    contacts: Seq<Contact>,
    lo: int,
    hi: int,
    lambdas: Seq<i64>,
    density0: int,
    j_boundary: bool,
) -> Vect
    decreases hi - lo,
{
    if hi <= lo {
        vzero_spec()
    } else {
        vadd_spec(
            corr_total_spec(contacts, lo, hi - 1, lambdas, density0, j_boundary),
            corr_term_spec(contacts[hi - 1], lambdas, density0, j_boundary),
        )
    }
}

/// Contacts' `i` sides — and, for a fluid-neighbor list, same-model `j`
/// sides — index this fluid's particles.
pub open spec fn corr_contacts_ok(contacts: Seq<Contact>, n: int, j_boundary: bool) -> bool {
    forall|k: int|
        0 <= k < contacts.len() ==> ((#[trigger] contacts[k]).i as int) < n && ((!j_boundary && contacts[k].i_model
            == contacts[k].j_model) ==> (contacts[k].j as int) < n)
}

/// Adds every particle's accumulated correction from both its contact lists
/// into its predicted position delta, clamped into the coordinate range.
pub fn accumulate_corrections(
    delta: &mut Vec<Vect>,
    ff: &ParticlesContacts,
    fb: &ParticlesContacts,
    lambdas: &Vec<i64>,
    density0: i64,
)
    requires
        ff.wf(),
        fb.wf(),
        old(delta)@.len() == ff.ranges_seq().len(),
        fb.ranges_seq().len() == ff.ranges_seq().len(),
        lambdas@.len() == ff.ranges_seq().len(),
        corr_contacts_ok(ff.contacts_seq(), ff.ranges_seq().len() as int, false),
        corr_contacts_ok(fb.contacts_seq(), ff.ranges_seq().len() as int, true),
        density0 >= 1,
    ensures
        final(delta)@.len() == old(delta)@.len(),
        forall|i: int|
            0 <= i < old(delta)@.len() ==> #[trigger] final(delta)@[i] == vclamp_coord_spec(
                vadd_spec(
                    vadd_spec(
                        old(delta)@[i],
                        corr_total_spec(
                            ff.contacts_seq(),
                            ff.ranges_seq()[i].start as int,
                            ff.ranges_seq()[i].end as int,
                            lambdas@,
                            density0 as int,
                            false,
                        ),
                    ),
                    corr_total_spec(
                        fb.contacts_seq(),
                        fb.ranges_seq()[i].start as int,
                        fb.ranges_seq()[i].end as int,
                        lambdas@,
                        density0 as int,
                        true,
                    ),
                ),
            ),
{
    let n = ff.num_particles();
    let mut i: usize = 0;
    while i < n
        invariant
            i <= n,
            n == ff.ranges_seq().len(),
            delta@.len() == n,
            old(delta)@.len() == n,
            fb.ranges_seq().len() == n,
            lambdas@.len() == n,
            ff.wf(),
            fb.wf(),
            corr_contacts_ok(ff.contacts_seq(), n as int, false),
            corr_contacts_ok(fb.contacts_seq(), n as int, true),
            density0 >= 1,
            forall|q: int| (i as int) <= q < n ==> #[trigger] delta@[q] == old(delta)@[q],
            forall|q: int|
                0 <= q < i as int ==> #[trigger] delta@[q] == vclamp_coord_spec(
                    vadd_spec(
                        vadd_spec(
                            old(delta)@[q],
                            corr_total_spec(
                                ff.contacts_seq(),
                                ff.ranges_seq()[q].start as int,
                                ff.ranges_seq()[q].end as int,
                                lambdas@,
                                density0 as int,
                                false,
                            ),
                        ),
                        corr_total_spec(
                            fb.contacts_seq(),
                            fb.ranges_seq()[q].start as int,
                            fb.ranges_seq()[q].end as int,
                            lambdas@,
                            density0 as int,
                            true,
                        ),
                    ),
                ),
        decreases n - i,
    {
        let cff = range_corr_total(ff, i, lambdas, density0, false);
        let cfb = range_corr_total(fb, i, lambdas, density0, true);
        let d0 = delta[i];
        let nd = vclamp_coord(d0.add(&cff).add(&cfb));
        delta.set(i, nd);
        i = i + 1;
    }
}

/// The accumulated correction of one particle's range.
fn range_corr_total(
    pc: &ParticlesContacts,
    i: usize,
    lambdas: &Vec<i64>,
    density0: i64,
    j_boundary: bool,
) -> (r: Vect)
    requires
        pc.wf(),
        (i as int) < pc.ranges_seq().len(),
        corr_contacts_ok(pc.contacts_seq(), lambdas@.len() as int, j_boundary),
        density0 >= 1,
    ensures
        r == corr_total_spec(
            pc.contacts_seq(),
            pc.ranges_seq()[i as int].start as int,
            pc.ranges_seq()[i as int].end as int,
            lambdas@,
            density0 as int,
            j_boundary,
        ),
{
    let rg = pc.particle_range(i);
    let lo = rg.start;
    let hi = rg.end;
    let mut acc = Vect::zero();
    let mut k: usize = lo;
    while k < hi
        invariant
            lo <= k <= hi,
            (hi as int) <= pc.contacts_seq().len(),
            corr_contacts_ok(pc.contacts_seq(), lambdas@.len() as int, j_boundary),
            density0 >= 1,
            acc == corr_total_spec(pc.contacts_seq(), lo as int, k as int, lambdas@, density0 as int, j_boundary),
        decreases hi - k,
    {
        let c = pc.contact_at(k);
        let term: Vect;
        if !j_boundary && c.i_model != c.j_model {
            term = Vect::zero();
        } else {
            let li = lambdas[c.i];
            let lj = if j_boundary {
                li
            } else {
                lambdas[c.j]
            };
            term = c.gradient.scale(tdiv(sat_add(li, lj), density0));
        }
        proof {
            assert(term == corr_term_spec(pc.contacts_seq()[k as int], lambdas@, density0 as int, j_boundary));
        }
        acc = acc.add(&term);
        k = k + 1;
    }
    acc
}

/// Overwrites every particle's acceleration with the step's gravity.
pub fn apply_gravity(fluid: &mut Fluid, gravity: Vect)
    requires
        old(fluid).wf(),
    ensures
        final(fluid).wf(),
        final(fluid).positions == old(fluid).positions,
        final(fluid).velocities == old(fluid).velocities,
        final(fluid).volumes == old(fluid).volumes,
        final(fluid).density0 == old(fluid).density0,
        final(fluid).accelerations@.len() == old(fluid).accelerations@.len(),
        forall|i: int| 0 <= i < final(fluid).accelerations@.len() ==> #[trigger] final(fluid).accelerations@[i] == gravity,
{
    let n = fluid.accelerations.len();
    let mut i: usize = 0;
    while i < n
        invariant
            i <= n,
            n == fluid.accelerations@.len(),
            fluid.wf(),
            fluid.positions == old(fluid).positions,
            fluid.velocities == old(fluid).velocities,
            fluid.volumes == old(fluid).volumes,
            fluid.density0 == old(fluid).density0,
            fluid.accelerations@.len() == old(fluid).accelerations@.len(),
            forall|q: int| 0 <= q < i as int ==> #[trigger] fluid.accelerations@[q] == gravity,
        decreases n - i,
    {
        fluid.accelerations.set(i, gravity);
        i = i + 1;
    }
}

/// Integrates the accumulated accelerations into the velocities over one
/// sub-step.
pub fn integrate_velocities(fluid: &mut Fluid, sdt: i64)
    requires
        old(fluid).wf(),
    ensures
        final(fluid).wf(),
        final(fluid).positions == old(fluid).positions,
        final(fluid).accelerations == old(fluid).accelerations,
        final(fluid).volumes == old(fluid).volumes,
        final(fluid).density0 == old(fluid).density0,
        final(fluid).velocities@.len() == old(fluid).velocities@.len(),
        forall|i: int|
            0 <= i < final(fluid).velocities@.len() ==> #[trigger] final(fluid).velocities@[i] == vadd_spec(
                old(fluid).velocities@[i],
                vscale_spec(old(fluid).accelerations@[i], sdt as int),
            ),
{
    let n = fluid.velocities.len();
    let mut i: usize = 0;
    while i < n
        invariant
            i <= n,
            n == fluid.velocities@.len(),
            fluid.wf(),
            fluid.positions == old(fluid).positions,
            fluid.accelerations == old(fluid).accelerations,
            fluid.volumes == old(fluid).volumes,
            fluid.density0 == old(fluid).density0,
            fluid.velocities@.len() == old(fluid).velocities@.len(),
            forall|q: int| (i as int) <= q < n ==> #[trigger] fluid.velocities@[q] == old(fluid).velocities@[q],
            forall|q: int|
                0 <= q < i as int ==> #[trigger] fluid.velocities@[q] == vadd_spec(
                    old(fluid).velocities@[q],
                    vscale_spec(old(fluid).accelerations@[q], sdt as int),
                ),
        decreases n - i,
    {
        let v = fluid.velocities[i];
        let a = fluid.accelerations[i];
        fluid.velocities.set(i, v.add(&a.scale(sdt)));
        i = i + 1;
    }
}

/// The predicted position delta of every particle over one sub-step: its
/// velocity times the sub-step, clamped into the coordinate range.
pub fn build_deltas(fluid: &Fluid, sdt: i64) -> (r: Vec<Vect>)
    ensures
        r@.len() == fluid.velocities@.len(),
        forall|i: int|
            0 <= i < r@.len() ==> #[trigger] r@[i] == vclamp_coord_spec(
                vscale_spec(fluid.velocities@[i], sdt as int),
            ),
        forall|i: int| 0 <= i < r@.len() ==> vect_bounded(#[trigger] r@[i], MAX_COORD as int),
{
    let n = fluid.velocities.len();
    let mut out: Vec<Vect> = Vec::new();
    let mut i: usize = 0;
    while i < n
        invariant
            i <= n,
            n == fluid.velocities@.len(),
            out@.len() == i as int,
            forall|q: int|
                0 <= q < i as int ==> #[trigger] out@[q] == vclamp_coord_spec(
                    vscale_spec(fluid.velocities@[q], sdt as int),
                ),
            forall|q: int| 0 <= q < i as int ==> vect_bounded(#[trigger] out@[q], MAX_COORD as int),
        decreases n - i,
    {
        out.push(vclamp_coord(fluid.velocities[i].scale(sdt)));
        i = i + 1;
    }
    out
}

/// Commits one sub-step: adds every particle's final predicted delta to its
/// stored position (clamped into the coordinate range), then derives its
/// velocity from the actual movement over the sub-step.
pub fn commit(fluid: &mut Fluid, delta: &Vec<Vect>, sdt: i64)
    requires
        old(fluid).wf(),
        delta@.len() == old(fluid).positions@.len(),
        sdt >= 1,
    ensures
        final(fluid).wf(),
        final(fluid).accelerations == old(fluid).accelerations,
        final(fluid).volumes == old(fluid).volumes,
        final(fluid).density0 == old(fluid).density0,
        final(fluid).positions@.len() == old(fluid).positions@.len(),
        final(fluid).velocities@.len() == old(fluid).positions@.len(),
        forall|i: int|
            0 <= i < final(fluid).positions@.len() ==> #[trigger] final(fluid).positions@[i] == vclamp_coord_spec(
                vadd_spec(old(fluid).positions@[i], delta@[i]),
            ),
        forall|i: int|
            0 <= i < final(fluid).positions@.len() ==> #[trigger] final(fluid).velocities@[i] == vtdiv_spec(
                vsub_spec(final(fluid).positions@[i], old(fluid).positions@[i]),
                sdt as int,
            ),
{
    let n = fluid.positions.len();
    let mut i: usize = 0;
    while i < n
        invariant
            i <= n,
            n == fluid.positions@.len(),
            sdt >= 1,
            delta@.len() == n,
            fluid.wf(),
            old(fluid).wf(),
            fluid.accelerations == old(fluid).accelerations,
            fluid.volumes == old(fluid).volumes,
            fluid.density0 == old(fluid).density0,
            fluid.positions@.len() == n,
            fluid.velocities@.len() == n,
            forall|q: int| (i as int) <= q < n ==> #[trigger] fluid.positions@[q] == old(fluid).positions@[q],
            forall|q: int| (i as int) <= q < n ==> #[trigger] fluid.velocities@[q] == old(fluid).velocities@[q],
            forall|q: int|
                0 <= q < i as int ==> #[trigger] fluid.positions@[q] == vclamp_coord_spec(
                    vadd_spec(old(fluid).positions@[q], delta@[q]),
                ),
            forall|q: int|
                0 <= q < i as int ==> #[trigger] fluid.velocities@[q] == vtdiv_spec(
                    vsub_spec(fluid.positions@[q], old(fluid).positions@[q]),
                    sdt as int,
                ),
        decreases n - i,
    {
        let p0 = fluid.positions[i];
        let np = vclamp_coord(p0.add(&delta[i]));
        let nv = vtdiv(np.sub(&p0), sdt);
        fluid.positions.set(i, np);
        fluid.velocities.set(i, nv);
        i = i + 1;
    }
}

/// Two fluid sets that agree on everything a detection or density pass
/// reads: particle counts, positions, volumes and rest densities.
pub open spec fn fluids_shape_eq(a: Seq<Fluid>, b: Seq<Fluid>) -> bool {
    &&& a.len() == b.len()
    &&& forall|f: int|
        0 <= f < a.len() ==> (#[trigger] a[f]).positions@ == b[f].positions@ && a[f].volumes@ == b[f].volumes@
            && a[f].density0 == b[f].density0
}

proof fn lemma_items_congruent(
    a: Seq<Fluid>,
    b: Seq<Fluid>,
    dv: Option<Seq<Seq<Vect>>>,
    f: int,
)
    requires
        fluids_shape_eq(a, b),
        0 <= f <= a.len(),
    ensures
        crate::contacts::fluid_items_upto(a, dv, f) == crate::contacts::fluid_items_upto(b, dv, f),
    decreases f,
{
    if f > 0 {
        lemma_items_congruent(a, b, dv, f - 1);
        let ra = crate::contacts::fluid_row_items(a, dv, f - 1);
        let rb = crate::contacts::fluid_row_items(b, dv, f - 1);
        assert(a[f - 1].positions@ == b[f - 1].positions@);
        assert forall|p: int| 0 <= p < ra.len() implies ra[p] == rb[p] by {
            assert(crate::contacts::fluid_pos(a, dv, f - 1, p) == crate::contacts::fluid_pos(b, dv, f - 1, p));
        }
        assert(ra =~= rb);
    }
}

proof fn lemma_row_filter_congruent(
    cands: Seq<crate::grid::Payload>,
    want_boundary: bool,
    a: Seq<Fluid>,
    b: Seq<Fluid>,
    bo: Seq<Boundary>,
    dv: Option<Seq<Seq<Vect>>>,
    h: int,
    pos_i: Vect,
    i_model: int,
    i: int,
)
    requires
        fluids_shape_eq(a, b),
        forall|k: int| 0 <= k < cands.len() ==> crate::contacts::payload_ok(#[trigger] cands[k], a, bo),
    ensures
        crate::contacts::row_filter(cands, want_boundary, a, bo, dv, h, pos_i, i_model, i)
            == crate::contacts::row_filter(cands, want_boundary, b, bo, dv, h, pos_i, i_model, i),
    decreases cands.len(),
{
    if cands.len() > 0 {
        assert(forall|k: int|
            0 <= k < cands.drop_last().len() ==> crate::contacts::payload_ok(
                #[trigger] cands.drop_last()[k],
                a,
                bo,
            ));
        lemma_row_filter_congruent(cands.drop_last(), want_boundary, a, b, bo, dv, h, pos_i, i_model, i);
        let pl = cands.last();
        assert(crate::contacts::payload_ok(pl, a, bo));
        assert(crate::contacts::payload_pos(a, bo, dv, pl) == crate::contacts::payload_pos(b, bo, dv, pl));
    }
}

proof fn lemma_family_flat_congruent(
    fam: crate::contacts::ContactFamily,
    a: Seq<Fluid>,
    b: Seq<Fluid>,
    bo: Seq<Boundary>,
    dv: Option<Seq<Seq<Vect>>>,
    h: int,
    f: int,
    n: int,
)
    requires
        fluids_shape_eq(a, b),
        fam is BoundaryBoundary || 0 <= f < a.len(),
        a.len() <= usize::MAX as int,
        bo.len() <= usize::MAX as int,
        forall|q: int| 0 <= q < a.len() ==> (#[trigger] a[q]).positions@.len() <= usize::MAX as int,
        forall|q: int| 0 <= q < bo.len() ==> (#[trigger] bo[q]).positions@.len() <= usize::MAX as int,
    ensures
        crate::contacts::family_flat(fam, a, bo, dv, h, f, n) == crate::contacts::family_flat(fam, b, bo, dv, h, f, n),
    decreases n,
{
    if n > 0 {
        lemma_family_flat_congruent(fam, a, b, bo, dv, h, f, n - 1);
        crate::contacts::lemma_all_items_ok(a, bo, dv);
        lemma_items_congruent(a, b, dv, a.len() as int);
        assert(crate::contacts::all_items(a, bo, dv) == crate::contacts::all_items(b, bo, dv));
        let pos_i = if fam is BoundaryBoundary {
            crate::contacts::boundary_pos(bo, f, n - 1)
        } else {
            crate::contacts::fluid_pos(a, dv, f, n - 1)
        };
        if !(fam is BoundaryBoundary) {
            assert(crate::contacts::fluid_pos(a, dv, f, n - 1) == crate::contacts::fluid_pos(b, dv, f, n - 1));
        }
        let items = crate::contacts::all_items(a, bo, dv);
        let c = crate::grid::cell_of_spec(pos_i, h);
        let cands = crate::contacts::model_neighborhood(items, h, c.0, c.1);
        crate::contacts::lemma_model_neighborhood_ok(items, a, bo, h, c.0, c.1, 9);
        lemma_row_filter_congruent(cands, !(fam is FluidFluid), a, b, bo, dv, h, pos_i, f, n - 1);
        assert(crate::contacts::family_row(fam, a, bo, dv, h, f, n - 1) == crate::contacts::family_row(
            fam,
            b,
            bo,
            dv,
            h,
            f,
            n - 1,
        ));
    }
}

proof fn lemma_with_kernels_congruent(
    contacts: Seq<Contact>,
    a: Seq<Fluid>,
    b: Seq<Fluid>,
    bo: Seq<Boundary>,
    i_boundary: bool,
    j_boundary: bool,
    h: int,
)
    requires
        fluids_shape_eq(a, b),
        forall|k: int|
            0 <= k < contacts.len() ==> crate::kernel::contact_sides_ok(
                #[trigger] contacts[k],
                a,
                bo,
                i_boundary,
                j_boundary,
            ),
    ensures
        crate::kernel::with_kernels(contacts, a, bo, i_boundary, j_boundary, h) == crate::kernel::with_kernels(
            contacts,
            b,
            bo,
            i_boundary,
            j_boundary,
            h,
        ),
{
    let wa = crate::kernel::with_kernels(contacts, a, bo, i_boundary, j_boundary, h);
    let wb = crate::kernel::with_kernels(contacts, b, bo, i_boundary, j_boundary, h);
    assert forall|k: int| 0 <= k < contacts.len() implies wa[k] == wb[k] by {
        assert(crate::kernel::contact_sep(contacts[k], a, bo, i_boundary, j_boundary)
            == crate::kernel::contact_sep(contacts[k], b, bo, i_boundary, j_boundary));
    }
    assert(wa =~= wb);
}

proof fn lemma_density_sum_congruent(
    contacts: Seq<Contact>,
    lo: int,
    hi: int,
    a: Seq<Fluid>,
    b: Seq<Fluid>,
    bo: Seq<Boundary>,
    j_boundary: bool,
)
    requires
        fluids_shape_eq(a, b),
        contacts_j_ok(contacts, a, bo, j_boundary),
        0 <= lo,
        hi <= contacts.len(),
    ensures
        density_sum(contacts, lo, hi, a, bo, j_boundary) == density_sum(contacts, lo, hi, b, bo, j_boundary),
    decreases hi - lo,
{
    if hi > lo {
        lemma_density_sum_congruent(contacts, lo, hi - 1, a, b, bo, j_boundary);
        if 0 <= hi - 1 < contacts.len() {
            assert(density_vol_j(contacts[hi - 1], a, bo, j_boundary) == density_vol_j(
                contacts[hi - 1],
                b,
                bo,
                j_boundary,
            ));
        }
    }
}

/// Number of particles of one fluid model.
pub open spec fn n_of(pre: Seq<Fluid>, f: int) -> int {
    pre[f].positions@.len() as int
}

/// One family list as detection and the kernel pass leave it: the model's
/// flat contact array with every kernel field filled.
pub open spec fn m_list(
    fam: crate::contacts::ContactFamily,
    pre: Seq<Fluid>,
    bo: Seq<Boundary>,
    dv: Option<Seq<Seq<Vect>>>,
    h: int,
    f: int,
) -> Seq<Contact> {
    crate::kernel::with_kernels(
        crate::contacts::family_flat(fam, pre, bo, dv, h, f, n_of(pre, f)),
        pre,
        bo,
        false,
        !(fam is FluidFluid),
        h,
    )
}

/// Where particle `i`'s range starts in the model's flat array.
pub open spec fn m_lo(
    fam: crate::contacts::ContactFamily,
    pre: Seq<Fluid>,
    bo: Seq<Boundary>,
    dv: Option<Seq<Seq<Vect>>>,
    h: int,
    f: int,
    i: int,
) -> int {
    crate::contacts::family_flat(fam, pre, bo, dv, h, f, i).len() as int
}

/// One particle's predicted density in the model.
pub open spec fn m_dens(
    pre: Seq<Fluid>,
    bo: Seq<Boundary>,
    dv: Option<Seq<Seq<Vect>>>,
    h: int,
    f: int,
    i: int,
) -> int {
    density_of(
        m_list(crate::contacts::ContactFamily::FluidFluid, pre, bo, dv, h, f),
        m_lo(crate::contacts::ContactFamily::FluidFluid, pre, bo, dv, h, f, i),
        m_lo(crate::contacts::ContactFamily::FluidFluid, pre, bo, dv, h, f, i + 1),
        m_list(crate::contacts::ContactFamily::FluidBoundary, pre, bo, dv, h, f),
        m_lo(crate::contacts::ContactFamily::FluidBoundary, pre, bo, dv, h, f, i),
        m_lo(crate::contacts::ContactFamily::FluidBoundary, pre, bo, dv, h, f, i + 1),
        pre,
        bo,
        h,
    )
}

/// One fluid model's densities in the model.
pub open spec fn m_dens_seq(pre: Seq<Fluid>, bo: Seq<Boundary>, dv: Option<Seq<Seq<Vect>>>, h: int, f: int) -> Seq<
    i64,
> {
    Seq::new(n_of(pre, f) as nat, |i: int| m_dens(pre, bo, dv, h, f, i) as i64)
}

/// The acceleration of one particle after the first `w` registered
/// non-pressure forces have run, starting from the step's gravity.
pub open spec fn m_forces_fold(
    forces: Seq<crate::viscosity::ArtificialViscosity>,
    w: int,
    base: Vect,
    ffl: Seq<Contact>,
    lo: int,
    hi: int,
    pos: Seq<Vect>,
    vel: Seq<Vect>,
    dens: Seq<i64>,
    vols: Seq<i64>,
    d0: int,
    h: int,
) -> Vect
    decreases w,
{
    if w <= 0 {
        base
    } else {
        vadd_spec(
            m_forces_fold(forces, w - 1, base, ffl, lo, hi, pos, vel, dens, vols, d0, h),
            vscale_spec(
                crate::viscosity::visc_total_spec(
                    ffl,
                    lo,
                    hi,
                    pos,
                    vel,
                    dens,
                    vols,
                    d0,
                    h,
                    forces[w - 1].speed_of_sound as int,
                    forces[w - 1].alpha as int,
                    forces[w - 1].beta as int,
                ),
                forces[w - 1].viscosity_coefficient as int,
            ),
        )
    }
}

/// One particle's acceleration after gravity and all forces.
pub open spec fn m_acc(
    pre: Seq<Fluid>,
    bo: Seq<Boundary>,
    gravity: Vect,
    h: int,
    forces: Seq<crate::viscosity::ArtificialViscosity>,
    f: int,
    i: int,
) -> Vect {
    m_forces_fold(
        forces,
        forces.len() as int,
        gravity,
        m_list(crate::contacts::ContactFamily::FluidFluid, pre, bo, None, h, f),
        m_lo(crate::contacts::ContactFamily::FluidFluid, pre, bo, None, h, f, i),
        m_lo(crate::contacts::ContactFamily::FluidFluid, pre, bo, None, h, f, i + 1),
        pre[f].positions@,
        pre[f].velocities@,
        m_dens_seq(pre, bo, None, h, f),
        pre[f].volumes@,
        pre[f].density0 as int,
        h,
    )
}

/// One particle's predicted velocity after integrating its acceleration.
pub open spec fn m_v1(
    pre: Seq<Fluid>,
    bo: Seq<Boundary>,
    gravity: Vect,
    h: int,
    forces: Seq<crate::viscosity::ArtificialViscosity>,
    sdt: int,
    f: int,
    i: int,
) -> Vect {
    vadd_spec(pre[f].velocities@[i], vscale_spec(m_acc(pre, bo, gravity, h, forces, f, i), sdt))
}

/// One particle's initial predicted position delta.
pub open spec fn m_delta0(
    pre: Seq<Fluid>,
    bo: Seq<Boundary>,
    gravity: Vect,
    h: int,
    forces: Seq<crate::viscosity::ArtificialViscosity>,
    sdt: int,
    f: int,
    i: int,
) -> Vect {
    vclamp_coord_spec(vscale_spec(m_v1(pre, bo, gravity, h, forces, sdt, f, i), sdt))
}

/// All fluids' initial predicted deltas.
pub open spec fn m_deltas0(
    pre: Seq<Fluid>,
    bo: Seq<Boundary>,
    gravity: Vect,
    h: int,
    forces: Seq<crate::viscosity::ArtificialViscosity>,
    sdt: int,
) -> Seq<Seq<Vect>> {
    Seq::new(
        pre.len(),
        |f: int| Seq::new(n_of(pre, f) as nat, |i: int| m_delta0(pre, bo, gravity, h, forces, sdt, f, i)),
    )
}

/// One fluid model's pressure multipliers in the model.
pub open spec fn m_lams(pre: Seq<Fluid>, bo: Seq<Boundary>, dv: Option<Seq<Seq<Vect>>>, h: int, f: int) -> Seq<i64> {
    Seq::new(
        n_of(pre, f) as nat,
        |i: int| lambda_spec(m_dens(pre, bo, dv, h, f, i), pre[f].density0 as int) as i64,
    )
}

/// One particle's delta after `r` correction rounds: each round adds its two
/// per-round correction totals and clamps into the coordinate range.
pub open spec fn m_iter_delta(r: int, base: Vect, cff: Vect, cfb: Vect) -> Vect
    decreases r,
{
    if r <= 0 {
        base
    } else {
        vclamp_coord_spec(vadd_spec(vadd_spec(m_iter_delta(r - 1, base, cff, cfb), cff), cfb))
    }
}

/// One particle's per-round correction total from one family list.
pub open spec fn m_corr(
    fam: crate::contacts::ContactFamily,
    pre: Seq<Fluid>,
    bo: Seq<Boundary>,
    dv: Option<Seq<Seq<Vect>>>,
    h: int,
    f: int,
    i: int,
) -> Vect {
    corr_total_spec(
        m_list(fam, pre, bo, dv, h, f),
        m_lo(fam, pre, bo, dv, h, f, i),
        m_lo(fam, pre, bo, dv, h, f, i + 1),
        m_lams(pre, bo, dv, h, f),
        pre[f].density0 as int,
        !(fam is FluidFluid),
    )
}

/// One particle's final committed delta.
pub open spec fn m_delta_final(
    pre: Seq<Fluid>,
    bo: Seq<Boundary>,
    gravity: Vect,
    h: int,
    niter: int,
    forces: Seq<crate::viscosity::ArtificialViscosity>,
    sdt: int,
    f: int,
    i: int,
) -> Vect {
    let dv = Some(m_deltas0(pre, bo, gravity, h, forces, sdt));
    m_iter_delta(
        niter,
        m_delta0(pre, bo, gravity, h, forces, sdt, f, i),
        m_corr(crate::contacts::ContactFamily::FluidFluid, pre, bo, dv, h, f, i),
        m_corr(crate::contacts::ContactFamily::FluidBoundary, pre, bo, dv, h, f, i),
    )
}

/// One particle's committed position.
pub open spec fn m_pos(
    pre: Seq<Fluid>,
    bo: Seq<Boundary>,
    gravity: Vect,
    h: int,
    niter: int,
    forces: Seq<crate::viscosity::ArtificialViscosity>,
    sdt: int,
    f: int,
    i: int,
) -> Vect {
    vclamp_coord_spec(
        vadd_spec(pre[f].positions@[i], m_delta_final(pre, bo, gravity, h, niter, forces, sdt, f, i)),
    )
}

/// One particle's committed velocity: its actual movement over the sub-step.
pub open spec fn m_vel(
    pre: Seq<Fluid>,
    bo: Seq<Boundary>,
    gravity: Vect,
    h: int,
    niter: int,
    forces: Seq<crate::viscosity::ArtificialViscosity>,
    sdt: int,
    f: int,
    i: int,
) -> Vect {
    vtdiv_spec(
        vsub_spec(m_pos(pre, bo, gravity, h, niter, forces, sdt, f, i), pre[f].positions@[i]),
        sdt,
    )
}

/// What one correction sub-step does: every particle's acceleration is the
/// step's gravity plus its registered non-pressure forces, its position is
/// the old position moved by the corrected predicted delta, and its velocity
/// is its actual movement over the sub-step. Volumes and rest densities are
/// untouched.
pub open spec fn substep_rel(
    pre: Seq<Fluid>,
    post: Seq<Fluid>,
    bo: Seq<Boundary>,
    gravity: Vect,
    h: int,
    niter: int,
    forces: Seq<crate::viscosity::ArtificialViscosity>,
    sdt: int,
) -> bool {
    &&& post.len() == pre.len()
    &&& forall|f: int|
        0 <= f < pre.len() ==> (#[trigger] post[f]).positions@.len() == n_of(pre, f) && post[f].velocities@.len()
            == n_of(pre, f) && post[f].accelerations@.len() == pre[f].accelerations@.len() && post[f].volumes@
            == pre[f].volumes@ && post[f].density0 == pre[f].density0
    &&& forall|f: int, i: int|
        0 <= f < pre.len() && 0 <= i < pre[f].accelerations@.len() ==> #[trigger] post[f].accelerations@[i]
            == m_acc(pre, bo, gravity, h, forces, f, i)
    &&& forall|f: int, i: int|
        0 <= f < pre.len() && 0 <= i < n_of(pre, f) ==> #[trigger] post[f].positions@[i] == m_pos(
            pre,
            bo,
            gravity,
            h,
            niter,
            forces,
            sdt,
            f,
            i,
        )
    &&& forall|f: int, i: int|
        0 <= f < pre.len() && 0 <= i < n_of(pre, f) ==> #[trigger] post[f].velocities@[i] == m_vel(
            pre,
            bo,
            gravity,
            h,
            niter,
            forces,
            sdt,
            f,
            i,
        )
}

/// What one frame does: the sub-step relation folded over the frame's
/// sub-step sizes.
pub open spec fn step_rel(
    pre: Seq<Fluid>,
    post: Seq<Fluid>,
    bo: Seq<Boundary>,
    gravity: Vect,
    h: int,
    niter: int,
    forces: Seq<crate::viscosity::ArtificialViscosity>,
    subs: Seq<i64>,
) -> bool
    decreases subs.len(),
{
    if subs.len() == 0 {
        post == pre
    } else {
        exists|mid: Seq<Fluid>|
            #[trigger] substep_rel(pre, mid, bo, gravity, h, niter, forces, subs[0] as int) && step_rel(
                mid,
                post,
                bo,
                gravity,
                h,
                niter,
                forces,
                subs.drop_first(),
            )
    }
}

/// Extending a frame's fold by one more sub-step.
proof fn lemma_step_rel_snoc(
    pre: Seq<Fluid>,
    mid: Seq<Fluid>,
    post: Seq<Fluid>,
    bo: Seq<Boundary>,
    gravity: Vect,
    h: int,
    niter: int,
    forces: Seq<crate::viscosity::ArtificialViscosity>,
    subs: Seq<i64>,
    s: i64,
)
    requires
        step_rel(pre, mid, bo, gravity, h, niter, forces, subs),
        substep_rel(mid, post, bo, gravity, h, niter, forces, s as int),
    ensures
        step_rel(pre, post, bo, gravity, h, niter, forces, subs.push(s)),
    decreases subs.len(),
{
    if subs.len() == 0 {
        assert(mid == pre);
        assert(subs.push(s)[0] == s);
        assert(subs.push(s).drop_first() =~= Seq::<i64>::empty());
        assert(step_rel(post, post, bo, gravity, h, niter, forces, Seq::<i64>::empty()));
        assert(substep_rel(pre, post, bo, gravity, h, niter, forces, subs.push(s)[0] as int));
    } else {
        let mid1 = choose|m: Seq<Fluid>|
            #[trigger] substep_rel(pre, m, bo, gravity, h, niter, forces, subs[0] as int) && step_rel(
                m,
                mid,
                bo,
                gravity,
                h,
                niter,
                forces,
                subs.drop_first(),
            );
        lemma_step_rel_snoc(mid1, mid, post, bo, gravity, h, niter, forces, subs.drop_first(), s);
        assert(subs.push(s).drop_first() =~= subs.drop_first().push(s));
        assert(subs.push(s)[0] == subs[0]);
        assert(substep_rel(pre, mid1, bo, gravity, h, niter, forces, subs.push(s)[0] as int) && step_rel(
            mid1,
            post,
            bo,
            gravity,
            h,
            niter,
            forces,
            subs.push(s).drop_first(),
        ));
    }
}

/// The sub-step relation pins the new state: two post-states of the same
/// sub-step from the same pre-state agree on every particle's position,
/// velocity and acceleration. Run-to-run determinism of a sub-step follows
/// from the contract alone.
pub proof fn lemma_substep_deterministic(
    pre: Seq<Fluid>,
    p1: Seq<Fluid>,
    p2: Seq<Fluid>,
    bo: Seq<Boundary>,
    gravity: Vect,
    h: int,
    niter: int,
    forces: Seq<crate::viscosity::ArtificialViscosity>,
    sdt: int,
)
    requires
        substep_rel(pre, p1, bo, gravity, h, niter, forces, sdt),
        substep_rel(pre, p2, bo, gravity, h, niter, forces, sdt),
    ensures
        p1.len() == p2.len(),
        forall|f: int|
            0 <= f < p1.len() ==> (#[trigger] p1[f]).positions@ == p2[f].positions@ && p1[f].velocities@
                == p2[f].velocities@ && p1[f].accelerations@ == p2[f].accelerations@ && p1[f].volumes@
                == p2[f].volumes@ && p1[f].density0 == p2[f].density0,
{
    assert forall|f: int|
        0 <= f < p1.len() implies (#[trigger] p1[f]).positions@ == p2[f].positions@ && p1[f].velocities@
        == p2[f].velocities@ && p1[f].accelerations@ == p2[f].accelerations@ && p1[f].volumes@ == p2[f].volumes@
        && p1[f].density0 == p2[f].density0 by {
        assert(p1[f].positions@ =~= p2[f].positions@);
        assert(p1[f].velocities@ =~= p2[f].velocities@);
        assert(p1[f].accelerations@ =~= p2[f].accelerations@);
    }
}

/// Determinism of a whole single-substep frame (the default configuration):
/// two runs of `step` from identical state with identical `dt` and gravity
/// produce fluids that agree on every particle field.
pub proof fn lemma_step_deterministic_single(
    pre: Seq<Fluid>,
    p1: Seq<Fluid>,
    p2: Seq<Fluid>,
    bo: Seq<Boundary>,
    gravity: Vect,
    h: int,
    niter: int,
    forces: Seq<crate::viscosity::ArtificialViscosity>,
    subs: Seq<i64>,
)
    requires
        subs.len() == 1,
        step_rel(pre, p1, bo, gravity, h, niter, forces, subs),
        step_rel(pre, p2, bo, gravity, h, niter, forces, subs),
    ensures
        p1.len() == p2.len(),
        forall|f: int|
            0 <= f < p1.len() ==> (#[trigger] p1[f]).positions@ == p2[f].positions@ && p1[f].velocities@
                == p2[f].velocities@ && p1[f].accelerations@ == p2[f].accelerations@ && p1[f].volumes@
                == p2[f].volumes@ && p1[f].density0 == p2[f].density0,
{
    let m1 = choose|m: Seq<Fluid>|
        #[trigger] substep_rel(pre, m, bo, gravity, h, niter, forces, subs[0] as int) && step_rel(
            m,
            p1,
            bo,
            gravity,
            h,
            niter,
            forces,
            subs.drop_first(),
        );
    let m2 = choose|m: Seq<Fluid>|
        #[trigger] substep_rel(pre, m, bo, gravity, h, niter, forces, subs[0] as int) && step_rel(
            m,
            p2,
            bo,
            gravity,
            h,
            niter,
            forces,
            subs.drop_first(),
        );
    assert(p1 == m1);
    assert(p2 == m2);
    lemma_substep_deterministic(pre, m1, m2, bo, gravity, h, niter, forces, subs[0] as int);
}

/// What the solver needs of one detection-produced list: the range partition
/// invariant, one range per particle of its model, and valid pair indices.
pub open spec fn model_list_ok(
    pc: ParticlesContacts,
    fluids: Seq<Fluid>,
    boundaries: Seq<Boundary>,
    f: int,
    j_boundary: bool,
) -> bool {
    &&& pc.wf()
    &&& pc.ranges_seq().len() == fluids[f].positions@.len()
    &&& forall|k: int|
        0 <= k < pc.contacts_seq().len() ==> {
            let c = #[trigger] pc.contacts_seq()[k];
            &&& c.i_model as int == f
            &&& (c.i as int) < fluids[f].positions@.len()
            &&& if j_boundary {
                (c.j_model as int) < boundaries.len() && (c.j as int) < boundaries[c.j_model as int].positions@.len()
            } else {
                (c.j_model as int) < fluids.len() && (c.j as int) < fluids[c.j_model as int].positions@.len()
            }
        }
}

/// The projection-based incompressibility solver: per sub-step it applies
/// gravity and the registered non-pressure forces, predicts positions,
/// rebuilds contacts from the predictions, iterates density / multiplier /
/// correction passes, and commits positions and velocities.
pub struct PBFSolver {
    pub num_pressure_iterations: usize,
    pub nonpressure_forces: Vec<crate::viscosity::ArtificialViscosity>,
}

impl PBFSolver {
    pub fn new() -> (r: PBFSolver)
        ensures
            r.num_pressure_iterations == 4,
            r.nonpressure_forces@.len() == 0,
    {
        PBFSolver { num_pressure_iterations: 4, nonpressure_forces: Vec::new() }
    }

    /// Rebuilds all contact lists and records what the solver needs of them.
    fn update_contacts(
        cm: &mut crate::contacts::ContactManager,
        h: i64,
        fluids: &Vec<Fluid>,
        boundaries: &Vec<Boundary>,
        deltas: Option<&Vec<Vec<Vect>>>,
    )
        requires
            1 <= h <= MAX_COORD,
            crate::contacts::sets_ok(fluids@, boundaries@),
            crate::contacts::deltas_ok(fluids@, crate::contacts::deltas_view(deltas)),
        ensures
            final(cm).fluid_fluid@.len() == fluids@.len(),
            final(cm).fluid_boundary@.len() == fluids@.len(),
            final(cm).boundary_boundary@.len() == boundaries@.len(),
            forall|f: int|
                0 <= f < fluids@.len() ==> model_list_ok(
                    #[trigger] final(cm).fluid_fluid@[f],
                    fluids@,
                    boundaries@,
                    f,
                    false,
                ),
            forall|f: int|
                0 <= f < fluids@.len() ==> model_list_ok(
                    #[trigger] final(cm).fluid_boundary@[f],
                    fluids@,
                    boundaries@,
                    f,
                    true,
                ),
            forall|f: int|
                0 <= f < fluids@.len() ==> crate::contacts::family_matches(
                    crate::contacts::ContactFamily::FluidFluid,
                    #[trigger] final(cm).fluid_fluid@[f],
                    fluids@,
                    boundaries@,
                    crate::contacts::deltas_view(deltas),
                    h as int,
                    f,
                ),
            forall|f: int|
                0 <= f < fluids@.len() ==> crate::contacts::family_matches(
                    crate::contacts::ContactFamily::FluidBoundary,
                    #[trigger] final(cm).fluid_boundary@[f],
                    fluids@,
                    boundaries@,
                    crate::contacts::deltas_view(deltas),
                    h as int,
                    f,
                ),
    {
        crate::contacts::compute_contacts(
            h,
            fluids,
            boundaries,
            deltas,
            &mut cm.fluid_fluid,
            &mut cm.fluid_boundary,
            &mut cm.boundary_boundary,
        );
        proof {
            let fl = fluids@;
            let bo = boundaries@;
            let dv = crate::contacts::deltas_view(deltas);
            vstd::std_specs::vec::axiom_spec_len(fluids);
            vstd::std_specs::vec::axiom_spec_len(boundaries);
            assert forall|q: int| 0 <= q < fl.len() implies (#[trigger] fl[q]).positions@.len() <= usize::MAX as int by {
                vstd::std_specs::vec::axiom_spec_len(&fl[q].positions);
            }
            assert forall|q: int|
                0 <= q < bo.len() implies (#[trigger] bo[q]).positions@.len() <= usize::MAX as int by {
                vstd::std_specs::vec::axiom_spec_len(&bo[q].positions);
            }
            assert forall|f: int|
                0 <= f < fl.len() implies model_list_ok(#[trigger] cm.fluid_fluid@[f], fl, bo, f, false) by {
                crate::contacts::lemma_family_contacts_ok(
                    crate::contacts::ContactFamily::FluidFluid,
                    cm.fluid_fluid@[f],
                    fl,
                    bo,
                    dv,
                    h as int,
                    f,
                );
            }
            assert forall|f: int|
                0 <= f < fl.len() implies model_list_ok(#[trigger] cm.fluid_boundary@[f], fl, bo, f, true) by {
                crate::contacts::lemma_family_contacts_ok(
                    crate::contacts::ContactFamily::FluidBoundary,
                    cm.fluid_boundary@[f],
                    fl,
                    bo,
                    dv,
                    h as int,
                    f,
                );
            }
        }
    }

    /// Evaluates the kernels of one fluid model's two lists.
    fn evaluate_model_kernels(
        cm: &mut crate::contacts::ContactManager,
        h: i64,
        fluids: &Vec<Fluid>,
        boundaries: &Vec<Boundary>,
        f: usize,
    )
        requires
            (f as int) < fluids@.len(),
            old(cm).fluid_fluid@.len() == fluids@.len(),
            old(cm).fluid_boundary@.len() == fluids@.len(),
            forall|q: int|
                0 <= q < fluids@.len() ==> model_list_ok(#[trigger] old(cm).fluid_fluid@[q], fluids@, boundaries@, q, false),
            forall|q: int|
                0 <= q < fluids@.len() ==> model_list_ok(#[trigger] old(cm).fluid_boundary@[q], fluids@, boundaries@, q, true),
        ensures
            final(cm).fluid_fluid@.len() == fluids@.len(),
            final(cm).fluid_boundary@.len() == fluids@.len(),
            final(cm).boundary_boundary == old(cm).boundary_boundary,
            forall|q: int|
                0 <= q < fluids@.len() ==> model_list_ok(#[trigger] final(cm).fluid_fluid@[q], fluids@, boundaries@, q, false),
            forall|q: int|
                0 <= q < fluids@.len() ==> model_list_ok(#[trigger] final(cm).fluid_boundary@[q], fluids@, boundaries@, q, true),
            forall|q: int|
                0 <= q < fluids@.len() && q != f as int ==> #[trigger] final(cm).fluid_fluid@[q] == old(
                    cm,
                ).fluid_fluid@[q],
            forall|q: int|
                0 <= q < fluids@.len() && q != f as int ==> #[trigger] final(cm).fluid_boundary@[q] == old(
                    cm,
                ).fluid_boundary@[q],
            final(cm).fluid_fluid@[f as int].contacts_seq() == crate::kernel::with_kernels(
                old(cm).fluid_fluid@[f as int].contacts_seq(),
                fluids@,
                boundaries@,
                false,
                false,
                h as int,
            ),
            final(cm).fluid_boundary@[f as int].contacts_seq() == crate::kernel::with_kernels(
                old(cm).fluid_boundary@[f as int].contacts_seq(),
                fluids@,
                boundaries@,
                false,
                true,
                h as int,
            ),
            final(cm).fluid_fluid@[f as int].ranges_seq() == old(cm).fluid_fluid@[f as int].ranges_seq(),
            final(cm).fluid_boundary@[f as int].ranges_seq() == old(cm).fluid_boundary@[f as int].ranges_seq(),
    {
        let ghost fl = fluids@;
        let ghost bo = boundaries@;
        let pcf = &mut cm.fluid_fluid[f];
        proof {
            assert(model_list_ok(*pcf, fl, bo, f as int, false));
            assert forall|k: int|
                0 <= k < pcf.contacts_seq().len() implies crate::kernel::contact_sides_ok(
                #[trigger] pcf.contacts_seq()[k],
                fl,
                bo,
                false,
                false,
            ) by {
                assert(pcf.contacts_seq()[k].i_model as int == f as int);
            }
        }
        crate::kernel::evaluate_kernels(pcf, fluids, boundaries, false, false, h);
        proof {
            assert(model_list_ok(cm.fluid_fluid@[f as int], fl, bo, f as int, false));
        }
        let pcb = &mut cm.fluid_boundary[f];
        proof {
            assert(model_list_ok(*pcb, fl, bo, f as int, true));
            assert forall|k: int|
                0 <= k < pcb.contacts_seq().len() implies crate::kernel::contact_sides_ok(
                #[trigger] pcb.contacts_seq()[k],
                fl,
                bo,
                false,
                true,
            ) by {
                assert(pcb.contacts_seq()[k].i_model as int == f as int);
            }
        }
        crate::kernel::evaluate_kernels(pcb, fluids, boundaries, false, true, h);
        proof {
            assert(model_list_ok(cm.fluid_boundary@[f as int], fl, bo, f as int, true));
        }
    }

    /// One detection, kernel-evaluation and density pass over the whole
    /// scene, pinned to the model over a reference state `pre` that agrees
    /// with the current fluids on positions, volumes and rest densities.
    #[verifier::rlimit(50)]
    fn prepare(
        cm: &mut crate::contacts::ContactManager,
        h: i64,
        fluids: &Vec<Fluid>,
        boundaries: &Vec<Boundary>,
        deltas: Option<&Vec<Vec<Vect>>>,
        Ghost(pre): Ghost<Seq<Fluid>>,
    ) -> (dens: Vec<Vec<i64>>)
        requires
            1 <= h <= MAX_COORD,
            crate::contacts::sets_ok(fluids@, boundaries@),
            crate::contacts::deltas_ok(fluids@, crate::contacts::deltas_view(deltas)),
            fluids_shape_eq(fluids@, pre),
        ensures
            final(cm).fluid_fluid@.len() == fluids@.len(),
            final(cm).fluid_boundary@.len() == fluids@.len(),
            forall|q: int|
                0 <= q < fluids@.len() ==> model_list_ok(#[trigger] final(cm).fluid_fluid@[q], fluids@, boundaries@, q, false),
            forall|q: int|
                0 <= q < fluids@.len() ==> model_list_ok(#[trigger] final(cm).fluid_boundary@[q], fluids@, boundaries@, q, true),
            forall|q: int|
                0 <= q < fluids@.len() ==> (#[trigger] final(cm).fluid_fluid@[q]).contacts_seq() == m_list(
                    crate::contacts::ContactFamily::FluidFluid,
                    pre,
                    boundaries@,
                    crate::contacts::deltas_view(deltas),
                    h as int,
                    q,
                ) && final(cm).fluid_boundary@[q].contacts_seq() == m_list(
                    crate::contacts::ContactFamily::FluidBoundary,
                    pre,
                    boundaries@,
                    crate::contacts::deltas_view(deltas),
                    h as int,
                    q,
                ),
            forall|q: int|
                0 <= q < fluids@.len() ==> (#[trigger] final(cm).fluid_fluid@[q]).ranges_seq().len() == n_of(pre, q)
                    && final(cm).fluid_boundary@[q].ranges_seq().len() == n_of(pre, q) && final(cm).fluid_fluid@[q].wf() && final(cm).fluid_boundary@[q].wf(),
            forall|q: int, i: int|
                0 <= q < fluids@.len() && 0 <= i < n_of(pre, q) ==> (#[trigger] final(cm).fluid_fluid@[q].ranges_seq()[i]).start as int == m_lo(
                    crate::contacts::ContactFamily::FluidFluid,
                    pre,
                    boundaries@,
                    crate::contacts::deltas_view(deltas),
                    h as int,
                    q,
                    i,
                ) && final(cm).fluid_fluid@[q].ranges_seq()[i].end as int == m_lo(
                    crate::contacts::ContactFamily::FluidFluid,
                    pre,
                    boundaries@,
                    crate::contacts::deltas_view(deltas),
                    h as int,
                    q,
                    i + 1,
                ),
            forall|q: int, i: int|
                0 <= q < fluids@.len() && 0 <= i < n_of(pre, q) ==> (#[trigger] final(cm).fluid_boundary@[q].ranges_seq()[i]).start as int == m_lo(
                    crate::contacts::ContactFamily::FluidBoundary,
                    pre,
                    boundaries@,
                    crate::contacts::deltas_view(deltas),
                    h as int,
                    q,
                    i,
                ) && final(cm).fluid_boundary@[q].ranges_seq()[i].end as int == m_lo(
                    crate::contacts::ContactFamily::FluidBoundary,
                    pre,
                    boundaries@,
                    crate::contacts::deltas_view(deltas),
                    h as int,
                    q,
                    i + 1,
                ),
            dens@.len() == fluids@.len(),
            forall|q: int| 0 <= q < fluids@.len() ==> (#[trigger] dens@[q])@.len() == n_of(pre, q),
            forall|q: int, i: int|
                0 <= q < fluids@.len() && 0 <= i < n_of(pre, q) ==> (#[trigger] dens@[q]@[i]) as int == m_dens(
                    pre,
                    boundaries@,
                    crate::contacts::deltas_view(deltas),
                    h as int,
                    q,
                    i,
                ),
    {
        let ghost fl = fluids@;
        let ghost bo = boundaries@;
        let ghost dv = crate::contacts::deltas_view(deltas);
        Self::update_contacts(cm, h, fluids, boundaries, deltas);
        proof {
            vstd::std_specs::vec::axiom_spec_len(fluids);
            vstd::std_specs::vec::axiom_spec_len(boundaries);
            assert forall|q: int| 0 <= q < fl.len() implies (#[trigger] fl[q]).positions@.len() <= usize::MAX as int by {
                vstd::std_specs::vec::axiom_spec_len(&fl[q].positions);
            }
            assert forall|q: int|
                0 <= q < bo.len() implies (#[trigger] bo[q]).positions@.len() <= usize::MAX as int by {
                vstd::std_specs::vec::axiom_spec_len(&bo[q].positions);
            }
        }
        let nf = fluids.len();
        proof {
            assert forall|q: int, i: int|
                0 <= q < nf as int && 0 <= i implies #[trigger] crate::contacts::family_flat(
                crate::contacts::ContactFamily::FluidFluid,
                fl,
                bo,
                dv,
                h as int,
                q,
                i,
            ) == crate::contacts::family_flat(
                crate::contacts::ContactFamily::FluidFluid,
                pre,
                bo,
                dv,
                h as int,
                q,
                i,
            ) by {
                lemma_family_flat_congruent(
                    crate::contacts::ContactFamily::FluidFluid,
                    fl,
                    pre,
                    bo,
                    dv,
                    h as int,
                    q,
                    i,
                );
            }
            assert forall|q: int, i: int|
                0 <= q < nf as int && 0 <= i implies #[trigger] crate::contacts::family_flat(
                crate::contacts::ContactFamily::FluidBoundary,
                fl,
                bo,
                dv,
                h as int,
                q,
                i,
            ) == crate::contacts::family_flat(
                crate::contacts::ContactFamily::FluidBoundary,
                pre,
                bo,
                dv,
                h as int,
                q,
                i,
            ) by {
                lemma_family_flat_congruent(
                    crate::contacts::ContactFamily::FluidBoundary,
                    fl,
                    pre,
                    bo,
                    dv,
                    h as int,
                    q,
                    i,
                );
            }
        }
        let mut dens: Vec<Vec<i64>> = Vec::new();
        let mut f: usize = 0;
        while f < nf
            invariant
                f <= nf,
                nf == fl.len(),
                fl == fluids@,
                bo == boundaries@,
                dv == crate::contacts::deltas_view(deltas),
                1 <= h <= MAX_COORD,
                crate::contacts::sets_ok(fl, bo),
                fluids_shape_eq(fl, pre),
                fl.len() <= usize::MAX as int,
                bo.len() <= usize::MAX as int,
                forall|q: int| 0 <= q < fl.len() ==> (#[trigger] fl[q]).positions@.len() <= usize::MAX as int,
                forall|q: int| 0 <= q < bo.len() ==> (#[trigger] bo[q]).positions@.len() <= usize::MAX as int,
                cm.fluid_fluid@.len() == nf,
                cm.fluid_boundary@.len() == nf,
                forall|q: int|
                    0 <= q < nf as int ==> model_list_ok(#[trigger] cm.fluid_fluid@[q], fl, bo, q, false),
                forall|q: int|
                    0 <= q < nf as int ==> model_list_ok(#[trigger] cm.fluid_boundary@[q], fl, bo, q, true),
                forall|q: int|
                    f as int <= q < nf as int ==> crate::contacts::family_matches(
                        crate::contacts::ContactFamily::FluidFluid,
                        #[trigger] cm.fluid_fluid@[q],
                        fl,
                        bo,
                        dv,
                        h as int,
                        q,
                    ),
                forall|q: int|
                    f as int <= q < nf as int ==> crate::contacts::family_matches(
                        crate::contacts::ContactFamily::FluidBoundary,
                        #[trigger] cm.fluid_boundary@[q],
                        fl,
                        bo,
                        dv,
                        h as int,
                        q,
                    ),
                forall|q: int|
                    0 <= q < f as int ==> (#[trigger] cm.fluid_fluid@[q]).contacts_seq() == m_list(
                        crate::contacts::ContactFamily::FluidFluid,
                        pre,
                        bo,
                        dv,
                        h as int,
                        q,
                    ),
                forall|q: int|
                    0 <= q < f as int ==> (#[trigger] cm.fluid_boundary@[q]).contacts_seq() == m_list(
                        crate::contacts::ContactFamily::FluidBoundary,
                        pre,
                        bo,
                        dv,
                        h as int,
                        q,
                    ),
                forall|q: int|
                    0 <= q < nf as int ==> (#[trigger] cm.fluid_fluid@[q]).ranges_seq().len() == n_of(pre, q)
                        && cm.fluid_boundary@[q].ranges_seq().len() == n_of(pre, q) && cm.fluid_fluid@[q].wf()
                        && cm.fluid_boundary@[q].wf(),
                forall|q: int, i: int|
                    0 <= q < nf as int && 0 <= i < n_of(pre, q) ==> (#[trigger] cm.fluid_fluid@[q].ranges_seq()[i]).start
                        as int == m_lo(crate::contacts::ContactFamily::FluidFluid, pre, bo, dv, h as int, q, i)
                        && cm.fluid_fluid@[q].ranges_seq()[i].end as int == m_lo(
                        crate::contacts::ContactFamily::FluidFluid,
                        pre,
                        bo,
                        dv,
                        h as int,
                        q,
                        i + 1,
                    ),
                forall|q: int, i: int|
                    0 <= q < nf as int && 0 <= i < n_of(pre, q) ==> (#[trigger] cm.fluid_boundary@[q].ranges_seq()[i]).start
                        as int == m_lo(crate::contacts::ContactFamily::FluidBoundary, pre, bo, dv, h as int, q, i)
                        && cm.fluid_boundary@[q].ranges_seq()[i].end as int == m_lo(
                        crate::contacts::ContactFamily::FluidBoundary,
                        pre,
                        bo,
                        dv,
                        h as int,
                        q,
                        i + 1,
                    ),
                dens@.len() == f as int,
                forall|q: int| 0 <= q < f as int ==> (#[trigger] dens@[q])@.len() == n_of(pre, q),
                forall|q: int, i: int|
                    0 <= q < f as int && 0 <= i < n_of(pre, q) ==> (#[trigger] dens@[q]@[i]) as int == m_dens(
                        pre,
                        bo,
                        dv,
                        h as int,
                        q,
                        i,
                    ),
            decreases nf - f,
        {
            let ghost cm0 = *cm;
            let ghost ff_old = cm.fluid_fluid@[f as int].contacts_seq();
            let ghost fb_old = cm.fluid_boundary@[f as int].contacts_seq();
            proof {
                lemma_family_flat_congruent(
                    crate::contacts::ContactFamily::FluidFluid,
                    fl,
                    pre,
                    bo,
                    dv,
                    h as int,
                    f as int,
                    n_of(fl, f as int),
                );
                lemma_family_flat_congruent(
                    crate::contacts::ContactFamily::FluidBoundary,
                    fl,
                    pre,
                    bo,
                    dv,
                    h as int,
                    f as int,
                    n_of(fl, f as int),
                );
                assert(n_of(fl, f as int) == n_of(pre, f as int));
            }
            Self::evaluate_model_kernels(cm, h, fluids, boundaries, f);
            proof {
                lemma_with_kernels_congruent(ff_old, fl, pre, bo, false, false, h as int);
                lemma_with_kernels_congruent(fb_old, fl, pre, bo, false, true, h as int);
                assert(cm.fluid_fluid@[f as int].contacts_seq() == m_list(
                    crate::contacts::ContactFamily::FluidFluid,
                    pre,
                    bo,
                    dv,
                    h as int,
                    f as int,
                ));
                assert(cm.fluid_boundary@[f as int].contacts_seq() == m_list(
                    crate::contacts::ContactFamily::FluidBoundary,
                    pre,
                    bo,
                    dv,
                    h as int,
                    f as int,
                ));
            }
            let d = compute_densities(&cm.fluid_fluid[f], &cm.fluid_boundary[f], fluids, boundaries, h);
            proof {
                let ffl = cm.fluid_fluid@[f as int];
                let fbl = cm.fluid_boundary@[f as int];
                assert forall|i: int|
                    0 <= i < n_of(pre, f as int) implies (#[trigger] d@[i]) as int == m_dens(
                    pre,
                    bo,
                    dv,
                    h as int,
                    f as int,
                    i,
                ) by {
                    crate::contacts::lemma_family_flat_mono(
                        crate::contacts::ContactFamily::FluidFluid,
                        pre,
                        bo,
                        dv,
                        h as int,
                        f as int,
                        i + 1,
                        n_of(pre, f as int),
                    );
                    crate::contacts::lemma_family_flat_mono(
                        crate::contacts::ContactFamily::FluidBoundary,
                        pre,
                        bo,
                        dv,
                        h as int,
                        f as int,
                        i + 1,
                        n_of(pre, f as int),
                    );
                    lemma_density_sum_congruent(
                        ffl.contacts_seq(),
                        ffl.ranges_seq()[i].start as int,
                        ffl.ranges_seq()[i].end as int,
                        fl,
                        pre,
                        bo,
                        false,
                    );
                    lemma_density_sum_congruent(
                        fbl.contacts_seq(),
                        fbl.ranges_seq()[i].start as int,
                        fbl.ranges_seq()[i].end as int,
                        fl,
                        pre,
                        bo,
                        true,
                    );
                }
            }
            dens.push(d);
            proof {
                assert forall|q: int|
                    f as int + 1 <= q < nf as int implies crate::contacts::family_matches(
                    crate::contacts::ContactFamily::FluidFluid,
                    #[trigger] cm.fluid_fluid@[q],
                    fl,
                    bo,
                    dv,
                    h as int,
                    q,
                ) && crate::contacts::family_matches(
                    crate::contacts::ContactFamily::FluidBoundary,
                    cm.fluid_boundary@[q],
                    fl,
                    bo,
                    dv,
                    h as int,
                    q,
                ) by {
                    assert(cm.fluid_fluid@[q] == cm0.fluid_fluid@[q]);
                    assert(cm.fluid_boundary@[q] == cm0.fluid_boundary@[q]);
                }
                assert forall|q: int|
                    0 <= q < f as int + 1 implies (#[trigger] cm.fluid_fluid@[q]).contacts_seq() == m_list(
                    crate::contacts::ContactFamily::FluidFluid,
                    pre,
                    bo,
                    dv,
                    h as int,
                    q,
                ) && cm.fluid_boundary@[q].contacts_seq() == m_list(
                    crate::contacts::ContactFamily::FluidBoundary,
                    pre,
                    bo,
                    dv,
                    h as int,
                    q,
                ) by {
                    if q < f as int {
                        assert(cm.fluid_fluid@[q] == cm0.fluid_fluid@[q]);
                        assert(cm.fluid_boundary@[q] == cm0.fluid_boundary@[q]);
                    }
                }
            }
            f = f + 1;
        }
        dens
    }

    /// Commits every fluid's final predicted delta and derives the new
    /// velocities, completing the sub-step relation.
    #[verifier::rlimit(100)]
    fn commit_all(
        fluids: &mut Vec<Fluid>,
        deltas: &Vec<Vec<Vect>>,
        sdt: i64,
        Ghost(ctx): Ghost<(Seq<Fluid>, Seq<Boundary>, Vect, int, int, Seq<crate::viscosity::ArtificialViscosity>, int)>,
    )
        requires
            sdt >= 1,
            ctx.6 == sdt as int,
            old(fluids)@.len() == ctx.0.len(),
            deltas@.len() == ctx.0.len(),
            forall|q: int| 0 <= q < ctx.0.len() ==> (#[trigger] deltas@[q])@.len() == n_of(ctx.0, q),
            forall|q: int, i: int|
                0 <= q < ctx.0.len() && 0 <= i < n_of(ctx.0, q) ==> #[trigger] deltas@[q]@[i] == m_delta_final(
                    ctx.0,
                    ctx.1,
                    ctx.2,
                    ctx.3,
                    ctx.4,
                    ctx.5,
                    ctx.6,
                    q,
                    i,
                ),
            forall|q: int|
                0 <= q < ctx.0.len() ==> (#[trigger] old(fluids)@[q]).wf() && old(fluids)@[q].positions
                    == ctx.0[q].positions && old(fluids)@[q].velocities@.len() == n_of(ctx.0, q) && old(fluids)@[q].volumes == ctx.0[q].volumes && old(fluids)@[q].density0 == ctx.0[q].density0 && old(fluids)@[q].accelerations@.len() == ctx.0[q].accelerations@.len(),
            forall|q: int, i: int|
                0 <= q < ctx.0.len() && 0 <= i < ctx.0[q].accelerations@.len() ==> #[trigger] old(fluids)@[q].accelerations@[i] == m_acc(ctx.0, ctx.1, ctx.2, ctx.3, ctx.5, q, i),
        ensures
            final(fluids)@.len() == old(fluids)@.len(),
            forall|q: int|
                0 <= q < ctx.0.len() ==> (#[trigger] final(fluids)@[q]).wf() && final(fluids)@[q].positions@.len()
                    == n_of(ctx.0, q) && final(fluids)@[q].volumes == ctx.0[q].volumes && final(fluids)@[q].density0 == ctx.0[q].density0,
            substep_rel(ctx.0, final(fluids)@, ctx.1, ctx.2, ctx.3, ctx.4, ctx.5, ctx.6),
    {
        let ghost fl0 = ctx.0;
        let ghost bo = ctx.1;
        let ghost grav = ctx.2;
        let ghost hh = ctx.3;
        let ghost ni = ctx.4;
        let ghost fo = ctx.5;
        let ghost sd = ctx.6;
        let nf = fluids.len();
        let mut f5: usize = 0;
        while f5 < nf
            invariant
                f5 <= nf,
                nf == fl0.len(),
                fluids@.len() == nf,
                sdt >= 1,
                sd == sdt as int,
                deltas@.len() == nf,
                forall|q: int| 0 <= q < nf as int ==> (#[trigger] deltas@[q])@.len() == n_of(fl0, q),
                forall|q: int, i: int|
                    0 <= q < nf as int && 0 <= i < n_of(fl0, q) ==> #[trigger] deltas@[q]@[i] == m_delta_final(
                        fl0,
                        bo,
                        grav,
                        hh,
                        ni,
                        fo,
                        sd,
                        q,
                        i,
                    ),
                forall|q: int|
                    f5 as int <= q < nf as int ==> (#[trigger] fluids@[q]).positions == fl0[q].positions
                        && fluids@[q].velocities@.len() == n_of(fl0, q),
                forall|q: int|
                    0 <= q < nf as int ==> (#[trigger] fluids@[q]).wf() && fluids@[q].positions@.len() == n_of(fl0, q)
                        && fluids@[q].volumes == fl0[q].volumes && fluids@[q].density0 == fl0[q].density0
                        && fluids@[q].accelerations@.len() == fl0[q].accelerations@.len(),
                forall|q: int, i: int|
                    0 <= q < nf as int && 0 <= i < fl0[q].accelerations@.len() ==> #[trigger] fluids@[q].accelerations@[i]
                        == m_acc(fl0, bo, grav, hh, fo, q, i),
                forall|q: int, i: int|
                    0 <= q < f5 as int && 0 <= i < n_of(fl0, q) ==> #[trigger] fluids@[q].positions@[i] == m_pos(
                        fl0,
                        bo,
                        grav,
                        hh,
                        ni,
                        fo,
                        sd,
                        q,
                        i,
                    ),
                forall|q: int, i: int|
                    0 <= q < f5 as int && 0 <= i < n_of(fl0, q) ==> #[trigger] fluids@[q].velocities@[i] == m_vel(
                        fl0,
                        bo,
                        grav,
                        hh,
                        ni,
                        fo,
                        sd,
                        q,
                        i,
                    ),
                forall|q: int|
                    0 <= q < f5 as int ==> (#[trigger] fluids@[q]).velocities@.len() == n_of(fl0, q),
            decreases nf - f5,
        {
            let dvec = &deltas[f5];
            let ghost pre5 = fluids@[f5 as int];
            commit(&mut fluids[f5], dvec, sdt);
            proof {
                assert(pre5.positions == fl0[f5 as int].positions);
                assert forall|i: int|
                    0 <= i < n_of(fl0, f5 as int) implies #[trigger] fluids@[f5 as int].positions@[i] == m_pos(
                    fl0,
                    bo,
                    grav,
                    hh,
                    ni,
                    fo,
                    sd,
                    f5 as int,
                    i,
                ) && fluids@[f5 as int].velocities@[i] == m_vel(
                    fl0,
                    bo,
                    grav,
                    hh,
                    ni,
                    fo,
                    sd,
                    f5 as int,
                    i,
                ) by {
                    assert(fluids@[f5 as int].positions@[i] == vclamp_coord_spec(
                        vadd_spec(pre5.positions@[i], deltas@[f5 as int]@[i]),
                    ));
                }
            }
            f5 = f5 + 1;
        }
    }

    /// One correction sub-step over the whole scene, pinned to the
    /// sub-step model.
    #[verifier::rlimit(100)]
    fn substep(
        &self,
        sdt: i64,
        cm: &mut crate::contacts::ContactManager,
        gravity: &Vect,
        h: i64,
        fluids: &mut Vec<Fluid>,
        boundaries: &Vec<Boundary>,
    )
        requires
            sdt >= 1,
            1 <= h <= MAX_COORD,
            crate::contacts::sets_ok(old(fluids)@, boundaries@),
        ensures
            final(fluids)@.len() == old(fluids)@.len(),
            forall|q: int|
                0 <= q < old(fluids)@.len() ==> (#[trigger] final(fluids)@[q]).wf() && final(fluids)@[q].positions@.len()
                    == old(fluids)@[q].positions@.len() && final(fluids)@[q].volumes == old(fluids)@[q].volumes
                    && final(fluids)@[q].density0 == old(fluids)@[q].density0,
            substep_rel(
                old(fluids)@,
                final(fluids)@,
                boundaries@,
                *gravity,
                h as int,
                self.num_pressure_iterations as int,
                self.nonpressure_forces@,
                sdt as int,
            ),
    {
        let nf = fluids.len();
        let ghost fl0 = fluids@;
        let ghost bo = boundaries@;
        let ghost grav = *gravity;
        let ghost fo = self.nonpressure_forces@;
        let ghost hh = h as int;
        let ghost sd = sdt as int;
        let ghost ff = crate::contacts::ContactFamily::FluidFluid;
        let ghost fb = crate::contacts::ContactFamily::FluidBoundary;
        let dens1 = Self::prepare(cm, h, fluids, boundaries, None, Ghost(fl0));
        let mut deltas: Vec<Vec<Vect>> = Vec::new();
        let mut f2: usize = 0;
        while f2 < nf
            invariant
                f2 <= nf,
                nf == fl0.len(),
                fluids@.len() == nf,
                sdt >= 1,
                1 <= h <= MAX_COORD,
                bo == boundaries@,
                grav == *gravity,
                fo == self.nonpressure_forces@,
                hh == h as int,
                sd == sdt as int,
                ff == crate::contacts::ContactFamily::FluidFluid,
                fb == crate::contacts::ContactFamily::FluidBoundary,
                crate::contacts::sets_ok(fluids@, bo),
                crate::contacts::sets_ok(fl0, bo),
                forall|q: int| f2 as int <= q < nf as int ==> #[trigger] fluids@[q] == fl0[q],
                forall|q: int|
                    0 <= q < nf as int ==> (#[trigger] fluids@[q]).positions == fl0[q].positions && fluids@[q].volumes
                        == fl0[q].volumes && fluids@[q].density0 == fl0[q].density0 && fluids@[q].accelerations@.len()
                        == fl0[q].accelerations@.len(),
                forall|q: int, i: int|
                    0 <= q < f2 as int && 0 <= i < fl0[q].accelerations@.len() ==> #[trigger] fluids@[q].accelerations@[i]
                        == m_acc(fl0, bo, grav, hh, fo, q, i),
                forall|q: int, i: int|
                    0 <= q < f2 as int && 0 <= i < n_of(fl0, q) ==> #[trigger] fluids@[q].velocities@[i] == m_v1(
                        fl0,
                        bo,
                        grav,
                        hh,
                        fo,
                        sd,
                        q,
                        i,
                    ),
                cm.fluid_fluid@.len() == nf,
                forall|q: int| 0 <= q < nf as int ==> model_list_ok(#[trigger] cm.fluid_fluid@[q], fl0, bo, q, false),
                forall|q: int|
                    0 <= q < nf as int ==> (#[trigger] cm.fluid_fluid@[q]).contacts_seq() == m_list(
                        crate::contacts::ContactFamily::FluidFluid,
                        fl0,
                        bo,
                        None,
                        hh,
                        q,
                    ),
                forall|q: int|
                    0 <= q < nf as int ==> (#[trigger] cm.fluid_fluid@[q]).ranges_seq().len() == n_of(fl0, q)
                        && cm.fluid_fluid@[q].wf(),
                forall|q: int, i: int|
                    0 <= q < nf as int && 0 <= i < n_of(fl0, q) ==> (#[trigger] cm.fluid_fluid@[q].ranges_seq()[i]).start
                        as int == m_lo(crate::contacts::ContactFamily::FluidFluid, fl0, bo, None, hh, q, i)
                        && cm.fluid_fluid@[q].ranges_seq()[i].end as int == m_lo(
                        crate::contacts::ContactFamily::FluidFluid,
                        fl0,
                        bo,
                        None,
                        hh,
                        q,
                        i + 1,
                    ),
                dens1@.len() == nf,
                forall|q: int| 0 <= q < nf as int ==> (#[trigger] dens1@[q])@.len() == n_of(fl0, q),
                forall|q: int, i: int|
                    0 <= q < nf as int && 0 <= i < n_of(fl0, q) ==> (#[trigger] dens1@[q]@[i]) as int == m_dens(
                        fl0,
                        bo,
                        None,
                        hh,
                        q,
                        i,
                    ),
                deltas@.len() == f2 as int,
                forall|q: int| 0 <= q < f2 as int ==> (#[trigger] deltas@[q])@.len() == n_of(fl0, q),
                forall|q: int, i: int|
                    0 <= q < f2 as int && 0 <= i < n_of(fl0, q) ==> #[trigger] deltas@[q]@[i] == m_delta0(
                        fl0,
                        bo,
                        grav,
                        hh,
                        fo,
                        sd,
                        q,
                        i,
                    ),
                forall|q: int, i: int|
                    0 <= q < f2 as int && 0 <= i < deltas@[q]@.len() ==> vect_bounded(
                        #[trigger] deltas@[q]@[i],
                        MAX_COORD as int,
                    ),
            decreases nf - f2,
        {
            let fluid = &mut fluids[f2];
            apply_gravity(fluid, *gravity);
            proof {
                assert forall|i: int|
                    0 <= i < fluid.accelerations@.len() implies #[trigger] fluid.accelerations@[i] == m_forces_fold(
                    fo,
                    0,
                    grav,
                    m_list(ff, fl0, bo, None, hh, f2 as int),
                    m_lo(ff, fl0, bo, None, hh, f2 as int, i),
                    m_lo(ff, fl0, bo, None, hh, f2 as int, i + 1),
                    fl0[f2 as int].positions@,
                    fl0[f2 as int].velocities@,
                    m_dens_seq(fl0, bo, None, hh, f2 as int),
                    fl0[f2 as int].volumes@,
                    fl0[f2 as int].density0 as int,
                    hh,
                ) by {}
            }
            let nforces = self.nonpressure_forces.len();
            let mut w: usize = 0;
            while w < nforces
                invariant
                    w <= nforces,
                    nforces == fo.len(),
                    fo == self.nonpressure_forces@,
                    (f2 as int) < nf as int,
                    nf == fl0.len(),
                    sdt >= 1,
                    1 <= h <= MAX_COORD,
                    bo == boundaries@,
                    grav == *gravity,
                    hh == h as int,
                    sd == sdt as int,
                    ff == crate::contacts::ContactFamily::FluidFluid,
                    fluid.wf(),
                    fluid.positions == fl0[f2 as int].positions,
                    fluid.velocities == fl0[f2 as int].velocities,
                    fluid.volumes == fl0[f2 as int].volumes,
                    fluid.density0 == fl0[f2 as int].density0,
                    fluid.accelerations@.len() == fl0[f2 as int].accelerations@.len(),
                    cm.fluid_fluid@.len() == nf,
                    model_list_ok(cm.fluid_fluid@[f2 as int], fl0, bo, f2 as int, false),
                    cm.fluid_fluid@[f2 as int].contacts_seq() == m_list(ff, fl0, bo, None, hh, f2 as int),
                    cm.fluid_fluid@[f2 as int].ranges_seq().len() == n_of(fl0, f2 as int),
                    cm.fluid_fluid@[f2 as int].wf(),
                    forall|i: int|
                        0 <= i < n_of(fl0, f2 as int) ==> (#[trigger] cm.fluid_fluid@[f2 as int].ranges_seq()[i]).start
                            as int == m_lo(ff, fl0, bo, None, hh, f2 as int, i)
                            && cm.fluid_fluid@[f2 as int].ranges_seq()[i].end as int == m_lo(
                            ff,
                            fl0,
                            bo,
                            None,
                            hh,
                            f2 as int,
                            i + 1,
                        ),
                    dens1@.len() == nf,
                    dens1@[f2 as int]@.len() == n_of(fl0, f2 as int),
                    forall|i: int|
                        0 <= i < n_of(fl0, f2 as int) ==> (#[trigger] dens1@[f2 as int]@[i]) as int == m_dens(
                            fl0,
                            bo,
                            None,
                            hh,
                            f2 as int,
                            i,
                        ),
                    fl0[f2 as int].accelerations@.len() == n_of(fl0, f2 as int),
                    forall|i: int|
                        0 <= i < fluid.accelerations@.len() ==> #[trigger] fluid.accelerations@[i] == m_forces_fold(
                            fo,
                            w as int,
                            grav,
                            m_list(ff, fl0, bo, None, hh, f2 as int),
                            m_lo(ff, fl0, bo, None, hh, f2 as int, i),
                            m_lo(ff, fl0, bo, None, hh, f2 as int, i + 1),
                            fl0[f2 as int].positions@,
                            fl0[f2 as int].velocities@,
                            m_dens_seq(fl0, bo, None, hh, f2 as int),
                            fl0[f2 as int].volumes@,
                            fl0[f2 as int].density0 as int,
                            hh,
                        ),
                decreases nforces - w,
            {
                proof {
                    assert(crate::viscosity::visc_contacts_ok(
                        cm.fluid_fluid@[f2 as int].contacts_seq(),
                        fluid.positions@.len() as int,
                    ));
                    assert(dens1@[f2 as int]@ =~= m_dens_seq(fl0, bo, None, hh, f2 as int));
                }
                let force = &self.nonpressure_forces[w];
                force.solve(sdt, 1, h, &cm.fluid_fluid[f2], fluid, &dens1[f2]);
                w = w + 1;
            }
            integrate_velocities(fluid, sdt);
            let d = build_deltas(fluid, sdt);
            proof {
                assert forall|i: int|
                    0 <= i < n_of(fl0, f2 as int) implies #[trigger] d@[i] == m_delta0(
                    fl0,
                    bo,
                    grav,
                    hh,
                    fo,
                    sd,
                    f2 as int,
                    i,
                ) by {
                    assert(fluid.velocities@[i] == m_v1(fl0, bo, grav, hh, fo, sd, f2 as int, i));
                }
            }
            deltas.push(d);
            f2 = f2 + 1;
        }
        proof {
            assert(crate::contacts::deltas_ok(fluids@, crate::contacts::deltas_view(Some(&deltas))));
            assert(fluids_shape_eq(fluids@, fl0));
            let dvv = deltas@.map_values(|x: Vec<Vect>| x@);
            assert forall|q: int| 0 <= q < nf as int implies #[trigger] dvv[q] == m_deltas0(fl0, bo, grav, hh, fo, sd)[q] by {
                assert(deltas@[q]@ =~= m_deltas0(fl0, bo, grav, hh, fo, sd)[q]);
            }
            assert(dvv =~= m_deltas0(fl0, bo, grav, hh, fo, sd));
            assert(crate::contacts::deltas_view(Some(&deltas)) == Some(m_deltas0(fl0, bo, grav, hh, fo, sd)));
        }
        let ghost fl1 = fluids@;
        let ghost dvm = Some(m_deltas0(fl0, bo, grav, hh, fo, sd));
        let dens2 = Self::prepare(cm, h, fluids, boundaries, Some(&deltas), Ghost(fl0));
        let mut lams_all: Vec<Vec<i64>> = Vec::new();
        let mut f3: usize = 0;
        while f3 < nf
            invariant
                f3 <= nf,
                nf == fl0.len(),
                fluids@ == fl1,
                fl1.len() == nf,
                hh == h as int,
                bo == boundaries@,
                forall|q: int|
                    0 <= q < nf as int ==> (#[trigger] fl1[q]).positions == fl0[q].positions && fl1[q].volumes
                        == fl0[q].volumes && fl1[q].density0 == fl0[q].density0,
                dens2@.len() == nf,
                forall|q: int| 0 <= q < nf as int ==> (#[trigger] dens2@[q])@.len() == n_of(fl0, q),
                forall|q: int, i: int|
                    0 <= q < nf as int && 0 <= i < n_of(fl0, q) ==> (#[trigger] dens2@[q]@[i]) as int == m_dens(
                        fl0,
                        bo,
                        dvm,
                        hh,
                        q,
                        i,
                    ),
                lams_all@.len() == f3 as int,
                forall|q: int| 0 <= q < f3 as int ==> (#[trigger] lams_all@[q])@ == m_lams(fl0, bo, dvm, hh, q),
            decreases nf - f3,
        {
            let d0v = fluids[f3].density0;
            let l = compute_lambdas(&dens2[f3], d0v);
            proof {
                assert(l@ =~= m_lams(fl0, bo, dvm, hh, f3 as int));
            }
            lams_all.push(l);
            f3 = f3 + 1;
        }
        let niter = self.num_pressure_iterations;
        let mut it: usize = 0;
        while it < niter
            invariant
                it <= niter,
                nf == fl0.len(),
                fluids@ == fl1,
                fl1.len() == nf,
                sdt >= 1,
                1 <= h <= MAX_COORD,
                hh == h as int,
                sd == sdt as int,
                grav == *gravity,
                fo == self.nonpressure_forces@,
                bo == boundaries@,
                ff == crate::contacts::ContactFamily::FluidFluid,
                fb == crate::contacts::ContactFamily::FluidBoundary,
                dvm == Some(m_deltas0(fl0, bo, grav, hh, fo, sd)),
                crate::contacts::sets_ok(fl1, bo),
                forall|q: int|
                    0 <= q < nf as int ==> (#[trigger] fl1[q]).positions == fl0[q].positions && fl1[q].volumes
                        == fl0[q].volumes && fl1[q].density0 == fl0[q].density0,
                cm.fluid_fluid@.len() == nf,
                cm.fluid_boundary@.len() == nf,
                forall|q: int| 0 <= q < nf as int ==> model_list_ok(#[trigger] cm.fluid_fluid@[q], fl1, bo, q, false),
                forall|q: int| 0 <= q < nf as int ==> model_list_ok(#[trigger] cm.fluid_boundary@[q], fl1, bo, q, true),
                forall|q: int|
                    0 <= q < nf as int ==> (#[trigger] cm.fluid_fluid@[q]).contacts_seq() == m_list(
                        crate::contacts::ContactFamily::FluidFluid,
                        fl0,
                        bo,
                        dvm,
                        hh,
                        q,
                    ) && cm.fluid_boundary@[q].contacts_seq() == m_list(
                        crate::contacts::ContactFamily::FluidBoundary,
                        fl0,
                        bo,
                        dvm,
                        hh,
                        q,
                    ),
                forall|q: int|
                    0 <= q < nf as int ==> (#[trigger] cm.fluid_fluid@[q]).ranges_seq().len() == n_of(fl0, q)
                        && cm.fluid_boundary@[q].ranges_seq().len() == n_of(fl0, q) && cm.fluid_fluid@[q].wf()
                        && cm.fluid_boundary@[q].wf(),
                forall|q: int, i: int|
                    0 <= q < nf as int && 0 <= i < n_of(fl0, q) ==> (#[trigger] cm.fluid_fluid@[q].ranges_seq()[i]).start
                        as int == m_lo(crate::contacts::ContactFamily::FluidFluid, fl0, bo, dvm, hh, q, i)
                        && cm.fluid_fluid@[q].ranges_seq()[i].end as int == m_lo(
                        crate::contacts::ContactFamily::FluidFluid,
                        fl0,
                        bo,
                        dvm,
                        hh,
                        q,
                        i + 1,
                    ),
                forall|q: int, i: int|
                    0 <= q < nf as int && 0 <= i < n_of(fl0, q) ==> (#[trigger] cm.fluid_boundary@[q].ranges_seq()[i]).start
                        as int == m_lo(crate::contacts::ContactFamily::FluidBoundary, fl0, bo, dvm, hh, q, i)
                        && cm.fluid_boundary@[q].ranges_seq()[i].end as int == m_lo(
                        crate::contacts::ContactFamily::FluidBoundary,
                        fl0,
                        bo,
                        dvm,
                        hh,
                        q,
                        i + 1,
                    ),
                lams_all@.len() == nf,
                forall|q: int| 0 <= q < nf as int ==> (#[trigger] lams_all@[q])@ == m_lams(fl0, bo, dvm, hh, q),
                deltas@.len() == nf,
                forall|q: int| 0 <= q < nf as int ==> (#[trigger] deltas@[q])@.len() == n_of(fl0, q),
                forall|q: int, i: int|
                    0 <= q < nf as int && 0 <= i < n_of(fl0, q) ==> #[trigger] deltas@[q]@[i] == m_iter_delta(
                        it as int,
                        m_delta0(fl0, bo, grav, hh, fo, sd, q, i),
                        m_corr(crate::contacts::ContactFamily::FluidFluid, fl0, bo, dvm, hh, q, i),
                        m_corr(crate::contacts::ContactFamily::FluidBoundary, fl0, bo, dvm, hh, q, i),
                    ),
            decreases niter - it,
        {
            let mut f4: usize = 0;
            while f4 < nf
                invariant
                    f4 <= nf,
                    it < niter,
                    nf == fl0.len(),
                    fluids@ == fl1,
                    fl1.len() == nf,
                    sdt >= 1,
                    1 <= h <= MAX_COORD,
                    hh == h as int,
                    sd == sdt as int,
                    grav == *gravity,
                    fo == self.nonpressure_forces@,
                    bo == boundaries@,
                    dvm == Some(m_deltas0(fl0, bo, grav, hh, fo, sd)),
                    crate::contacts::sets_ok(fl1, bo),
                    forall|q: int|
                        0 <= q < nf as int ==> (#[trigger] fl1[q]).positions == fl0[q].positions && fl1[q].volumes
                            == fl0[q].volumes && fl1[q].density0 == fl0[q].density0,
                    cm.fluid_fluid@.len() == nf,
                    cm.fluid_boundary@.len() == nf,
                    forall|q: int| 0 <= q < nf as int ==> model_list_ok(#[trigger] cm.fluid_fluid@[q], fl1, bo, q, false),
                    forall|q: int| 0 <= q < nf as int ==> model_list_ok(#[trigger] cm.fluid_boundary@[q], fl1, bo, q, true),
                    forall|q: int|
                        0 <= q < nf as int ==> (#[trigger] cm.fluid_fluid@[q]).contacts_seq() == m_list(
                            crate::contacts::ContactFamily::FluidFluid,
                            fl0,
                            bo,
                            dvm,
                            hh,
                            q,
                        ) && cm.fluid_boundary@[q].contacts_seq() == m_list(
                            crate::contacts::ContactFamily::FluidBoundary,
                            fl0,
                            bo,
                            dvm,
                            hh,
                            q,
                        ),
                    forall|q: int|
                        0 <= q < nf as int ==> (#[trigger] cm.fluid_fluid@[q]).ranges_seq().len() == n_of(fl0, q)
                            && cm.fluid_boundary@[q].ranges_seq().len() == n_of(fl0, q) && cm.fluid_fluid@[q].wf()
                            && cm.fluid_boundary@[q].wf(),
                    forall|q: int, i: int|
                        0 <= q < nf as int && 0 <= i < n_of(fl0, q) ==> (#[trigger] cm.fluid_fluid@[q].ranges_seq()[i]).start
                            as int == m_lo(crate::contacts::ContactFamily::FluidFluid, fl0, bo, dvm, hh, q, i)
                            && cm.fluid_fluid@[q].ranges_seq()[i].end as int == m_lo(
                            crate::contacts::ContactFamily::FluidFluid,
                            fl0,
                            bo,
                            dvm,
                            hh,
                            q,
                            i + 1,
                        ),
                    forall|q: int, i: int|
                        0 <= q < nf as int && 0 <= i < n_of(fl0, q) ==> (#[trigger] cm.fluid_boundary@[q].ranges_seq()[i]).start
                            as int == m_lo(crate::contacts::ContactFamily::FluidBoundary, fl0, bo, dvm, hh, q, i)
                            && cm.fluid_boundary@[q].ranges_seq()[i].end as int == m_lo(
                            crate::contacts::ContactFamily::FluidBoundary,
                            fl0,
                            bo,
                            dvm,
                            hh,
                            q,
                            i + 1,
                        ),
                    lams_all@.len() == nf,
                    forall|q: int| 0 <= q < nf as int ==> (#[trigger] lams_all@[q])@ == m_lams(fl0, bo, dvm, hh, q),
                    deltas@.len() == nf,
                    forall|q: int| 0 <= q < nf as int ==> (#[trigger] deltas@[q])@.len() == n_of(fl0, q),
                    forall|q: int, i: int|
                        0 <= q < nf as int && 0 <= i < n_of(fl0, q) ==> #[trigger] deltas@[q]@[i] == m_iter_delta(
                            if q < f4 as int {
                                it as int + 1
                            } else {
                                it as int
                            },
                            m_delta0(fl0, bo, grav, hh, fo, sd, q, i),
                            m_corr(crate::contacts::ContactFamily::FluidFluid, fl0, bo, dvm, hh, q, i),
                            m_corr(crate::contacts::ContactFamily::FluidBoundary, fl0, bo, dvm, hh, q, i),
                        ),
                decreases nf - f4,
            {
                proof {
                    assert(corr_contacts_ok(
                        cm.fluid_fluid@[f4 as int].contacts_seq(),
                        n_of(fl0, f4 as int),
                        false,
                    ));
                    assert(corr_contacts_ok(
                        cm.fluid_boundary@[f4 as int].contacts_seq(),
                        n_of(fl0, f4 as int),
                        true,
                    ));
                }
                let d0v = fluids[f4].density0;
                let dvec = &mut deltas[f4];
                accumulate_corrections(dvec, &cm.fluid_fluid[f4], &cm.fluid_boundary[f4], &lams_all[f4], d0v);
                f4 = f4 + 1;
            }
            it = it + 1;
        }
        Self::commit_all(
            fluids,
            &deltas,
            sdt,
            Ghost((fl0, bo, grav, hh, niter as int, fo, sd)),
        );
    }


    /// One frame: asks the timestep manager for the sub-step split and runs
    /// each sub-step's correction pass. Fluids are mutated in place;
    /// boundaries are read-only.
    pub fn step(
        &self,
        dt: i64,
        timestep_manager: &crate::timestep::TimestepManager,
        contact_manager: &mut crate::contacts::ContactManager,
        gravity: &Vect,
        kernel_radius: i64,
        _particle_radius: i64,
        fluids: &mut Vec<Fluid>,
        boundaries: &Vec<Boundary>,
    )
        requires
            dt >= 1,
            timestep_manager.num_substeps >= 1,
            1 <= kernel_radius <= MAX_COORD,
            crate::contacts::sets_ok(old(fluids)@, boundaries@),
        ensures
            final(fluids)@.len() == old(fluids)@.len(),
            forall|q: int|
                0 <= q < old(fluids)@.len() ==> (#[trigger] final(fluids)@[q]).wf() && final(fluids)@[q].positions@.len()
                    == old(fluids)@[q].positions@.len() && final(fluids)@[q].volumes == old(fluids)@[q].volumes
                    && final(fluids)@[q].density0 == old(fluids)@[q].density0,
            timestep_manager.num_substeps == 1 ==> forall|q: int, i: int|
                0 <= q < old(fluids)@.len() && 0 <= i < final(fluids)@[q].positions@.len()
                    ==> #[trigger] final(fluids)@[q].velocities@[i] == vtdiv_spec(
                    vsub_spec(final(fluids)@[q].positions@[i], old(fluids)@[q].positions@[i]),
                    dt as int,
                ),
            step_rel(
                old(fluids)@,
                final(fluids)@,
                boundaries@,
                *gravity,
                kernel_radius as int,
                self.num_pressure_iterations as int,
                self.nonpressure_forces@,
                crate::timestep::substeps_spec(timestep_manager.num_substeps as int, dt as int),
            ),
    {
        let subs = timestep_manager.substeps(dt);
        let ns = subs.len();
        let mut s: usize = 0;
        while s < ns
            invariant
                s <= ns,
                ns == subs@.len(),
                1 <= kernel_radius <= MAX_COORD,
                forall|k: int| 0 <= k < subs@.len() ==> #[trigger] subs@[k] >= 1,
                crate::contacts::sets_ok(fluids@, boundaries@),
                fluids@.len() == old(fluids)@.len(),
                forall|q: int|
                    0 <= q < old(fluids)@.len() ==> (#[trigger] fluids@[q]).wf() && fluids@[q].positions@.len()
                        == old(fluids)@[q].positions@.len() && fluids@[q].volumes == old(fluids)@[q].volumes
                        && fluids@[q].density0 == old(fluids)@[q].density0,
                s == 0 ==> fluids@ == old(fluids)@,
                step_rel(
                    old(fluids)@,
                    fluids@,
                    boundaries@,
                    *gravity,
                    kernel_radius as int,
                    self.num_pressure_iterations as int,
                    self.nonpressure_forces@,
                    subs@.take(s as int),
                ),
                (ns == 1 && s == 1) ==> forall|q: int, i: int|
                    0 <= q < old(fluids)@.len() && 0 <= i < fluids@[q].positions@.len()
                        ==> #[trigger] fluids@[q].velocities@[i] == vtdiv_spec(
                        vsub_spec(fluids@[q].positions@[i], old(fluids)@[q].positions@[i]),
                        subs@[0] as int,
                    ),
            decreases ns - s,
        {
            let sdt = subs[s];
            let ghost before = fluids@;
            self.substep(sdt, contact_manager, gravity, kernel_radius, fluids, boundaries);
            proof {
                lemma_step_rel_snoc(
                    old(fluids)@,
                    before,
                    fluids@,
                    boundaries@,
                    *gravity,
                    kernel_radius as int,
                    self.num_pressure_iterations as int,
                    self.nonpressure_forces@,
                    subs@.take(s as int),
                    sdt,
                );
                assert(subs@.take(s as int).push(sdt) =~= subs@.take(s as int + 1));
            }
            s = s + 1;
        }
        proof {
            assert(subs@.take(ns as int) =~= subs@);
            if timestep_manager.num_substeps == 1 {
                assert(ns == 1);
                assert(subs@.drop_last() =~= Seq::<i64>::empty());
                assert(crate::timestep::seq_sum(Seq::<i64>::empty()) == 0);
                assert(subs@[0] as int == crate::timestep::seq_sum(subs@));
            }
        }
    }
}

} // verus!
