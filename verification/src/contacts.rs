use vstd::prelude::*;
use vstd::slice::slice_subrange;
use crate::math::{Vect, vadd_spec, dist2_spec, true_dist2, vect_bounded, ediv, MAX_COORD, MAX_EFF_COORD};
use crate::fluid::Fluid;
use crate::boundary::Boundary;
use crate::grid::{HGrid, Payload, cell_of_spec, neighborhood_upto};

verus! {

/// A directed, distance-qualified particle pair: `i` of model `i_model` saw
/// `j` of model `j_model` within the interaction radius. `weight` and
/// `gradient` are zero at creation and filled by the kernel-evaluation pass.
#[derive(Clone, Copy, Debug, PartialEq, Eq, Structural)]
pub struct Contact {
    pub i: usize,
    pub i_model: usize,
    pub j: usize,
    pub j_model: usize,
    pub weight: i64,
    pub gradient: Vect,
}

/// A half-open index range into the flat contact array.
#[derive(Clone, Copy, Debug, PartialEq, Eq, Structural)]
pub struct ContactRange {
    pub start: usize,
    pub end: usize,
}

/// A per-particle-indexed adjacency structure over one flat contact array:
/// `contact_ranges[i]` bounds the contacts whose first particle is `i`.
pub struct ParticlesContacts {
    pub contacts: Vec<Contact>,
    pub contact_ranges: Vec<ContactRange>,
}

impl ParticlesContacts {
    pub open spec fn contacts_seq(self) -> Seq<Contact> {
        self.contacts@
    }

    pub open spec fn ranges_seq(self) -> Seq<ContactRange> {
        self.contact_ranges@
    }

    /// The range partition invariant: ranges are within bounds, consecutive,
    /// start at zero, and together cover the whole flat array.
    pub open spec fn wf(self) -> bool {
        &&& forall|i: int|
            0 <= i < self.contact_ranges@.len() ==> (#[trigger] self.contact_ranges@[i]).start
                <= self.contact_ranges@[i].end <= self.contacts@.len()
        &&& (self.contact_ranges@.len() > 0 ==> self.contact_ranges@[0].start == 0)
        &&& forall|i: int|
            0 <= i < self.contact_ranges@.len() - 1 ==> (#[trigger] self.contact_ranges@[i]).end
                == self.contact_ranges@[i + 1].start
        &&& (self.contact_ranges@.len() > 0 ==> self.contact_ranges@[self.contact_ranges@.len() - 1].end
            == self.contacts@.len())
        &&& (self.contact_ranges@.len() == 0 ==> self.contacts@.len() == 0)
    }

    pub fn new() -> (r: ParticlesContacts)
        ensures
            r.contacts_seq() == Seq::<Contact>::empty(),
            r.ranges_seq() == Seq::<ContactRange>::empty(),
            r.wf(),
    {
        ParticlesContacts { contacts: Vec::new(), contact_ranges: Vec::new() }
    }

    pub fn num_particles(&self) -> (r: usize)
        ensures
            r as int == self.ranges_seq().len(),
    {
        self.contact_ranges.len()
    }

    /// The contacts recorded for particle `i`, as the slice bounded by its range.
    pub fn particle_contacts(&self, i: usize) -> (r: &[Contact])
        requires
            self.wf(),
            (i as int) < self.ranges_seq().len(),
        ensures
            r@ == self.contacts_seq().subrange(
                self.ranges_seq()[i as int].start as int,
                self.ranges_seq()[i as int].end as int,
            ),
    {
        let rg = self.contact_ranges[i];
        slice_subrange(self.contacts.as_slice(), rg.start, rg.end)
    }

    /// The range recorded for particle `i`.
    pub fn particle_range(&self, i: usize) -> (r: ContactRange)
        requires
            (i as int) < self.ranges_seq().len(),
        ensures
            r == self.ranges_seq()[i as int],
    {
        self.contact_ranges[i]
    }

    /// The whole flat contact array, for bulk passes.
    pub fn contacts(&self) -> (r: &[Contact])
        ensures
            r@ == self.contacts_seq(),
    {
        self.contacts.as_slice()
    }

    /// One contact of the flat array, by flat index.
    pub fn contact_at(&self, k: usize) -> (r: Contact)
        requires
            (k as int) < self.contacts_seq().len(),
        ensures
            r == self.contacts_seq()[k as int],
    {
        self.contacts[k]
    }

    pub fn num_contacts(&self) -> (r: usize)
        ensures
            r as int == self.contacts_seq().len(),
    {
        self.contacts.len()
    }

    /// Overwrites the kernel fields of one contact in place; the pair's
    /// indices are untouched. This is the only mutation consumers may make.
    pub fn set_kernel(&mut self, k: usize, weight: i64, gradient: Vect)
        requires
            (k as int) < old(self).contacts_seq().len(),
        ensures
            final(self).ranges_seq() == old(self).ranges_seq(),
            final(self).contacts_seq() == old(self).contacts_seq().update(
                k as int,
                Contact { weight, gradient, ..old(self).contacts_seq()[k as int] },
            ),
            old(self).wf() ==> final(self).wf(),
    {
        let c = self.contacts[k];
        self.contacts.set(k, Contact { weight, gradient, ..c });
    }
}

/// Owns the three families of contact lists for one step; rebuilt from
/// scratch by every detection pass.
pub struct ContactManager {
    pub fluid_fluid: Vec<ParticlesContacts>,
    pub fluid_boundary: Vec<ParticlesContacts>,
    pub boundary_boundary: Vec<ParticlesContacts>,
}

impl ContactManager {
    pub fn new() -> (r: ContactManager)
        ensures
            r.fluid_fluid@.len() == 0,
            r.fluid_boundary@.len() == 0,
            r.boundary_boundary@.len() == 0,
    {
        ContactManager { fluid_fluid: Vec::new(), fluid_boundary: Vec::new(), boundary_boundary: Vec::new() }
    }
}

/// The per-fluid predicted position deltas, viewed as ghost sequences.
pub open spec fn deltas_view(d: Option<&Vec<Vec<Vect>>>) -> Option<Seq<Seq<Vect>>> {
    match d {
        None => None,
        Some(v) => Some(v@.map_values(|x: Vec<Vect>| x@)),
    }
}

/// Shape and bounds required of optional position deltas: one per fluid
/// particle, within the coordinate range.
pub open spec fn deltas_ok(fluids: Seq<Fluid>, deltas: Option<Seq<Seq<Vect>>>) -> bool {
    match deltas {
        None => true,
        Some(d) => {
            &&& d.len() == fluids.len()
            &&& forall|f: int| 0 <= f < fluids.len() ==> (#[trigger] d[f]).len() == fluids[f].positions@.len()
            &&& forall|f: int, p: int|
                0 <= f < fluids.len() && 0 <= p < fluids[f].positions@.len() ==> vect_bounded(
                    #[trigger] d[f][p],
                    MAX_COORD as int,
                )
        },
    }
}

/// The position a fluid particle is tested and bucketed at: its stored
/// position, shifted by its predicted delta when one is supplied.
pub open spec fn fluid_pos(fluids: Seq<Fluid>, deltas: Option<Seq<Seq<Vect>>>, f: int, p: int) -> Vect {
    match deltas {
        None => fluids[f].positions@[p],
        Some(d) => vadd_spec(fluids[f].positions@[p], d[f][p]),
    }
}

/// Boundary particles are always tested at their raw stored position.
pub open spec fn boundary_pos(boundaries: Seq<Boundary>, b: int, p: int) -> Vect {
    boundaries[b].positions@[p]
}

/// Whether a grid payload names a real particle of the given sets.
pub open spec fn payload_ok(pl: Payload, fluids: Seq<Fluid>, boundaries: Seq<Boundary>) -> bool {
    if pl.boundary {
        (pl.model as int) < boundaries.len() && (pl.particle as int) < boundaries[pl.model as int].positions@.len()
    } else {
        (pl.model as int) < fluids.len() && (pl.particle as int) < fluids[pl.model as int].positions@.len()
    }
}

/// The effective position of the particle a payload names.
pub open spec fn payload_pos(
    fluids: Seq<Fluid>,
    boundaries: Seq<Boundary>,
    deltas: Option<Seq<Seq<Vect>>>,
    pl: Payload,
) -> Vect {
    if pl.boundary {
        boundary_pos(boundaries, pl.model as int, pl.particle as int)
    } else {
        fluid_pos(fluids, deltas, pl.model as int, pl.particle as int)
    }
}

/// The insertion stream of one fluid model: every particle at its effective
/// position, in particle order.
pub open spec fn fluid_row_items(fluids: Seq<Fluid>, deltas: Option<Seq<Seq<Vect>>>, f: int) -> Seq<
    (Vect, Payload),
> {
    Seq::new(
        fluids[f].positions@.len(),
        |p: int| (fluid_pos(fluids, deltas, f, p), Payload { model: f as usize, particle: p as usize, boundary: false }),
    )
}

/// The insertion stream of the first `f` fluid models, concatenated.
pub open spec fn fluid_items_upto(fluids: Seq<Fluid>, deltas: Option<Seq<Seq<Vect>>>, f: int) -> Seq<
    (Vect, Payload),
>
    decreases f,
{
    if f <= 0 {
        Seq::empty()
    } else {
        fluid_items_upto(fluids, deltas, f - 1) + fluid_row_items(fluids, deltas, f - 1)
    }
}

/// The insertion stream of one boundary model.
pub open spec fn boundary_row_items(boundaries: Seq<Boundary>, b: int) -> Seq<(Vect, Payload)> {
    Seq::new(
        boundaries[b].positions@.len(),
        |p: int| (boundary_pos(boundaries, b, p), Payload { model: b as usize, particle: p as usize, boundary: true }),
    )
}

/// The insertion stream of the first `b` boundary models, concatenated.
pub open spec fn boundary_items_upto(boundaries: Seq<Boundary>, b: int) -> Seq<(Vect, Payload)>
    decreases b,
{
    if b <= 0 {
        Seq::empty()
    } else {
        boundary_items_upto(boundaries, b - 1) + boundary_row_items(boundaries, b - 1)
    }
}

/// The whole insertion stream of one detection pass: all fluids (at effective
/// positions), then all boundaries (at raw positions).
pub open spec fn all_items(
    fluids: Seq<Fluid>,
    boundaries: Seq<Boundary>,
    deltas: Option<Seq<Seq<Vect>>>,
) -> Seq<(Vect, Payload)> {
    fluid_items_upto(fluids, deltas, fluids.len() as int) + boundary_items_upto(boundaries, boundaries.len() as int)
}

/// What the grid holds at one cell after inserting a stream of items, in
/// insertion order.
pub open spec fn parts_model(items: Seq<(Vect, Payload)>, h: int, cx: int, cy: int) -> Seq<Payload>
    decreases items.len(),
{
    if items.len() == 0 {
        Seq::empty()
    } else {
        let prev = parts_model(items.drop_last(), h, cx, cy);
        if cell_of_spec(items.last().0, h) == (cx, cy) {
            prev.push(items.last().1)
        } else {
            prev
        }
    }
}

/// How one more insertion changes the modelled grid contents.
pub proof fn lemma_parts_model_push(items: Seq<(Vect, Payload)>, it: (Vect, Payload), h: int)
    ensures
        forall|cx: int, cy: int| #[trigger]
            parts_model(items.push(it), h, cx, cy) == if cell_of_spec(it.0, h) == (cx, cy) {
                parts_model(items, h, cx, cy).push(it.1)
            } else {
                parts_model(items, h, cx, cy)
            },
{
    assert(items.push(it).drop_last() =~= items);
    assert(items.push(it).last() == it);
}

/// Every inserted item is among the modelled contents of its own cell.
pub proof fn lemma_parts_model_complete(items: Seq<(Vect, Payload)>, h: int, idx: int)
    requires
        0 <= idx < items.len(),
    ensures
        ({
            let c = cell_of_spec(items[idx].0, h);
            parts_model(items, h, c.0, c.1).contains(items[idx].1)
        }),
    decreases items.len(),
{
    let c = cell_of_spec(items[idx].0, h);
    if idx == items.len() - 1 {
        let prev = parts_model(items.drop_last(), h, c.0, c.1);
        assert(parts_model(items, h, c.0, c.1) == prev.push(items[idx].1));
        assert(parts_model(items, h, c.0, c.1)[prev.len() as int] == items[idx].1);
    } else {
        lemma_parts_model_complete(items.drop_last(), h, idx);
        assert(items.drop_last()[idx] == items[idx]);
        let prev = parts_model(items.drop_last(), h, c.0, c.1);
        let k = choose|k: int| 0 <= k < prev.len() && prev[k] == items[idx].1;
        if cell_of_spec(items.last().0, h) == (c.0, c.1) {
            assert(parts_model(items, h, c.0, c.1)[k] == items[idx].1);
        }
    }
}

/// The 3x3 neighborhood of a cell in the modelled grid, in slot order.
pub open spec fn model_neighborhood_upto(
    items: Seq<(Vect, Payload)>,
    h: int,
    cx: int,
    cy: int,
    t: int,
) -> Seq<Payload>
    decreases t,
{
    if t <= 0 {
        Seq::empty()
    } else {
        model_neighborhood_upto(items, h, cx, cy, t - 1) + parts_model(
            items,
            h,
            cx + (t - 1) / 3 - 1,
            cy + (t - 1) % 3 - 1,
        )
    }
}

pub open spec fn model_neighborhood(items: Seq<(Vect, Payload)>, h: int, cx: int, cy: int) -> Seq<Payload> {
    model_neighborhood_upto(items, h, cx, cy, 9)
}

/// A grid whose cells all match the model yields the modelled neighborhoods.
pub proof fn lemma_neighborhood_congruent(
    g: HGrid,
    items: Seq<(Vect, Payload)>,
    h: int,
    cx: int,
    cy: int,
    t: int,
)
    requires
        forall|a: int, b: int| #[trigger] g.parts_at(a, b) == parts_model(items, h, a, b),
    ensures
        neighborhood_upto(g, cx, cy, t) == model_neighborhood_upto(items, h, cx, cy, t),
    decreases t,
{
    if t > 0 {
        lemma_neighborhood_congruent(g, items, h, cx, cy, t - 1);
    }
}

/// Payloads gathered from a grid whose payloads are all valid are valid.
pub proof fn lemma_neighborhood_ok(
    g: HGrid,
    fluids: Seq<Fluid>,
    boundaries: Seq<Boundary>,
    cx: int,
    cy: int,
    t: int,
)
    requires
        forall|a: int, b: int, k: int|
            0 <= k < g.parts_at(a, b).len() ==> payload_ok(#[trigger] g.parts_at(a, b)[k], fluids, boundaries),
    ensures
        forall|k: int|
            0 <= k < neighborhood_upto(g, cx, cy, t).len() ==> payload_ok(
                #[trigger] neighborhood_upto(g, cx, cy, t)[k],
                fluids,
                boundaries,
            ),
    decreases t,
{
    if t > 0 {
        lemma_neighborhood_ok(g, fluids, boundaries, cx, cy, t - 1);
        let prev = neighborhood_upto(g, cx, cy, t - 1);
        let slot = g.parts_at(cx + (t - 1) / 3 - 1, cy + (t - 1) % 3 - 1);
        assert forall|k: int|
            0 <= k < neighborhood_upto(g, cx, cy, t).len() implies payload_ok(
            #[trigger] neighborhood_upto(g, cx, cy, t)[k],
            fluids,
            boundaries,
        ) by {
            if k < prev.len() {
                assert(neighborhood_upto(g, cx, cy, t)[k] == prev[k]);
            } else {
                assert(neighborhood_upto(g, cx, cy, t)[k] == slot[k - prev.len()]);
            }
        }
    }
}

/// Whether a candidate is accepted as a neighbor of a particle at `pos_i`:
/// the (saturating) squared distance test against the interaction radius.
pub open spec fn accepts(
    fluids: Seq<Fluid>,
    boundaries: Seq<Boundary>,
    deltas: Option<Seq<Seq<Vect>>>,
    h: int,
    pos_i: Vect,
    pl: Payload,
) -> bool {
    dist2_spec(pos_i, payload_pos(fluids, boundaries, deltas, pl)) <= h * h
}

/// The contact recorded for an accepted pair: kernel fields start at zero.
pub open spec fn contact_of(i_model: int, i: int, pl: Payload) -> Contact {
    Contact {
        i: i as usize,
        i_model: i_model as usize,
        j: pl.particle,
        j_model: pl.model,
        weight: 0i64,
        gradient: Vect { x: 0i64, y: 0i64 },
    }
}

/// The contacts particle `(i_model, i)` records against a candidate stream:
/// candidates of the wanted kind (boundary or not) that pass the distance
/// test, in candidate order.
pub open spec fn row_filter(
    cands: Seq<Payload>,
    want_boundary: bool,
    fluids: Seq<Fluid>,
    boundaries: Seq<Boundary>,
    deltas: Option<Seq<Seq<Vect>>>,
    h: int,
    pos_i: Vect,
    i_model: int,
    i: int,
) -> Seq<Contact>
    decreases cands.len(),
{
    if cands.len() == 0 {
        Seq::empty()
    } else {
        let prev = row_filter(cands.drop_last(), want_boundary, fluids, boundaries, deltas, h, pos_i, i_model, i);
        let pl = cands.last();
        if pl.boundary == want_boundary && accepts(fluids, boundaries, deltas, h, pos_i, pl) {
            prev.push(contact_of(i_model, i, pl))
        } else {
            prev
        }
    }
}

/// The three families of contact lists one detection pass produces.
#[derive(Clone, Copy, Debug, PartialEq, Eq, Structural)]
pub enum ContactFamily {
    FluidFluid,
    FluidBoundary,
    BoundaryBoundary,
}

/// The contacts recorded for one particle of one model in one family: its
/// candidate neighborhood, filtered.
pub open spec fn family_row(
    fam: ContactFamily,
    fluids: Seq<Fluid>,
    boundaries: Seq<Boundary>,
    deltas: Option<Seq<Seq<Vect>>>,
    h: int,
    m: int,
    p: int,
) -> Seq<Contact> {
    let items = all_items(fluids, boundaries, deltas);
    let pos_i = if fam is BoundaryBoundary {
        boundary_pos(boundaries, m, p)
    } else {
        fluid_pos(fluids, deltas, m, p)
    };
    let c = cell_of_spec(pos_i, h);
    let cands = model_neighborhood(items, h, c.0, c.1);
    let want_boundary = !(fam is FluidFluid);
    row_filter(cands, want_boundary, fluids, boundaries, deltas, h, pos_i, m, p)
}

/// The flat contact array of one family for one model: the rows of its first
/// `n` particles, concatenated in particle order.
pub open spec fn family_flat(
    fam: ContactFamily,
    fluids: Seq<Fluid>,
    boundaries: Seq<Boundary>,
    deltas: Option<Seq<Seq<Vect>>>,
    h: int,
    m: int,
    n: int,
) -> Seq<Contact>
    decreases n,
{
    if n <= 0 {
        Seq::empty()
    } else {
        family_flat(fam, fluids, boundaries, deltas, h, m, n - 1) + family_row(
            fam,
            fluids,
            boundaries,
            deltas,
            h,
            m,
            n - 1,
        )
    }
}

/// Row concatenation only grows.
pub proof fn lemma_family_flat_mono(
    fam: ContactFamily,
    fluids: Seq<Fluid>,
    boundaries: Seq<Boundary>,
    deltas: Option<Seq<Seq<Vect>>>,
    h: int,
    m: int,
    a: int,
    b: int,
)
    requires
        0 <= a <= b,
    ensures
        family_flat(fam, fluids, boundaries, deltas, h, m, a).len() <= family_flat(
            fam,
            fluids,
            boundaries,
            deltas,
            h,
            m,
            b,
        ).len(),
    decreases b,
{
    if a < b {
        lemma_family_flat_mono(fam, fluids, boundaries, deltas, h, m, a, b - 1);
    }
}

/// The number of particles of the model a family list belongs to.
pub open spec fn family_model_len(fam: ContactFamily, fluids: Seq<Fluid>, boundaries: Seq<Boundary>, m: int) -> int {
    if fam is BoundaryBoundary {
        boundaries[m].positions@.len() as int
    } else {
        fluids[m].positions@.len() as int
    }
}

/// What one detection pass guarantees of one produced list: its flat array is
/// exactly the concatenation of its model's rows, and each particle's range
/// delimits its own row inside it.
pub open spec fn family_matches(
    fam: ContactFamily,
    pc: ParticlesContacts,
    fluids: Seq<Fluid>,
    boundaries: Seq<Boundary>,
    deltas: Option<Seq<Seq<Vect>>>,
    h: int,
    m: int,
) -> bool {
    let n = family_model_len(fam, fluids, boundaries, m);
    &&& pc.contacts_seq() == family_flat(fam, fluids, boundaries, deltas, h, m, n)
    &&& pc.ranges_seq().len() == n
    &&& forall|p: int|
        0 <= p < n ==> (#[trigger] pc.ranges_seq()[p]).start as int == family_flat(
            fam,
            fluids,
            boundaries,
            deltas,
            h,
            m,
            p,
        ).len() && pc.ranges_seq()[p].end as int == family_flat(fam, fluids, boundaries, deltas, h, m, p + 1).len()
}

/// All fluids and boundaries are well-formed.
pub open spec fn sets_ok(fluids: Seq<Fluid>, boundaries: Seq<Boundary>) -> bool {
    &&& forall|f: int| 0 <= f < fluids.len() ==> (#[trigger] fluids[f]).wf()
    &&& forall|b: int| 0 <= b < boundaries.len() ==> (#[trigger] boundaries[b]).wf()
}

/// The effective position of one fluid particle, bounded by the predicted
/// coordinate range.
fn fluid_eff_pos(fluids: &Vec<Fluid>, deltas: Option<&Vec<Vec<Vect>>>, f: usize, p: usize) -> (r: Vect)
    requires
        (f as int) < fluids@.len(),
        (p as int) < fluids@[f as int].positions@.len(),
        fluids@[f as int].wf(),
        deltas_ok(fluids@, deltas_view(deltas)),
    ensures
        r == fluid_pos(fluids@, deltas_view(deltas), f as int, p as int),
        vect_bounded(r, MAX_EFF_COORD as int),
{
    let base = fluids[f].positions[p];
    match deltas {
        Some(d) => {
            proof {
                assert(deltas_view(deltas) == Some(d@.map_values(|x: Vec<Vect>| x@)));
                assert(d@.map_values(|x: Vec<Vect>| x@).len() == fluids@.len());
                assert(d@.map_values(|x: Vec<Vect>| x@)[f as int] == d@[f as int]@);
            }
            base.add(&d[f][p])
        },
        None => base,
    }
}

/// The effective position of the particle a payload names.
fn payload_position(
    fluids: &Vec<Fluid>,
    boundaries: &Vec<Boundary>,
    deltas: Option<&Vec<Vec<Vect>>>,
    pl: Payload,
) -> (r: Vect)
    requires
        payload_ok(pl, fluids@, boundaries@),
        sets_ok(fluids@, boundaries@),
        deltas_ok(fluids@, deltas_view(deltas)),
    ensures
        r == payload_pos(fluids@, boundaries@, deltas_view(deltas), pl),
{
    if pl.boundary {
        boundaries[pl.model].positions[pl.particle]
    } else {
        fluid_eff_pos(fluids, deltas, pl.model, pl.particle)
    }
}

/// Builds the step's grid: every fluid particle at its effective position,
/// then every boundary particle at its raw position.
fn build_grid(
    h: i64,
    fluids: &Vec<Fluid>,
    boundaries: &Vec<Boundary>,
    deltas: Option<&Vec<Vec<Vect>>>,
) -> (g: HGrid)
    requires
        1 <= h <= MAX_COORD,
        sets_ok(fluids@, boundaries@),
        deltas_ok(fluids@, deltas_view(deltas)),
    ensures
        g.wf(),
        g.cell_size == h,
        forall|a: int, b: int| #[trigger]
            g.parts_at(a, b) == parts_model(
                all_items(fluids@, boundaries@, deltas_view(deltas)),
                h as int,
                a,
                b,
            ),
        forall|a: int, b: int, k: int|
            0 <= k < g.parts_at(a, b).len() ==> payload_ok(#[trigger] g.parts_at(a, b)[k], fluids@, boundaries@),
{
    let ghost fl = fluids@;
    let ghost bo = boundaries@;
    let ghost dv = deltas_view(deltas);
    let mut g = HGrid::new(h);
    let nf = fluids.len();
    let mut f: usize = 0;
    while f < nf
        invariant
            f <= nf,
            nf == fl.len(),
            fl == fluids@,
            bo == boundaries@,
            dv == deltas_view(deltas),
            1 <= h <= MAX_COORD,
            sets_ok(fl, bo),
            deltas_ok(fl, dv),
            g.wf(),
            g.cell_size == h,
            forall|a: int, b: int| #[trigger]
                g.parts_at(a, b) == parts_model(fluid_items_upto(fl, dv, f as int), h as int, a, b),
            forall|a: int, b: int, k: int|
                0 <= k < g.parts_at(a, b).len() ==> payload_ok(#[trigger] g.parts_at(a, b)[k], fl, bo),
        decreases nf - f,
    {
        let n = fluids[f].num_particles();
        let mut p: usize = 0;
        while p < n
            invariant
                p <= n,
                f < nf,
                nf == fl.len(),
                n == fl[f as int].positions@.len(),
                fl == fluids@,
                bo == boundaries@,
                dv == deltas_view(deltas),
                1 <= h <= MAX_COORD,
                sets_ok(fl, bo),
                deltas_ok(fl, dv),
                g.wf(),
                g.cell_size == h,
                forall|a: int, b: int| #[trigger]
                    g.parts_at(a, b) == parts_model(
                        fluid_items_upto(fl, dv, f as int) + fluid_row_items(fl, dv, f as int).take(p as int),
                        h as int,
                        a,
                        b,
                    ),
                forall|a: int, b: int, k: int|
                    0 <= k < g.parts_at(a, b).len() ==> payload_ok(#[trigger] g.parts_at(a, b)[k], fl, bo),
            decreases n - p,
        {
            let ghost items0 = fluid_items_upto(fl, dv, f as int) + fluid_row_items(fl, dv, f as int).take(p as int);
            let pos = fluid_eff_pos(fluids, deltas, f, p);
            let pl = Payload { model: f, particle: p, boundary: false };
            let ghost oldg = g;
            g.insert(&pos, pl);
            proof {
                let it = fluid_row_items(fl, dv, f as int)[p as int];
                assert(it == (pos, pl));
                lemma_parts_model_push(items0, it, h as int);
                assert(fluid_items_upto(fl, dv, f as int) + fluid_row_items(fl, dv, f as int).take(p as int + 1)
                    =~= items0.push(it));
                let c = cell_of_spec(pos, h as int);
                assert forall|a: int, b: int| #[trigger]
                    g.parts_at(a, b) == parts_model(items0.push(it), h as int, a, b) by {
                    if (a, b) == c {
                        assert(g.parts_at(a, b) == oldg.parts_at(a, b).push(pl));
                    } else {
                        assert(g.parts_at(a, b) == oldg.parts_at(a, b));
                    }
                }
                assert forall|a: int, b: int, k: int|
                    0 <= k < g.parts_at(a, b).len() implies payload_ok(#[trigger] g.parts_at(a, b)[k], fl, bo) by {
                    if (a, b) == c {
                        assert(g.parts_at(a, b) == oldg.parts_at(a, b).push(pl));
                        if k < oldg.parts_at(a, b).len() {
                            assert(g.parts_at(a, b)[k] == oldg.parts_at(a, b)[k]);
                        } else {
                            assert(g.parts_at(a, b)[k] == pl);
                        }
                    } else {
                        assert(g.parts_at(a, b) == oldg.parts_at(a, b));
                    }
                }
            }
            p = p + 1;
        }
        proof {
            assert(fluid_row_items(fl, dv, f as int).take(n as int) =~= fluid_row_items(fl, dv, f as int));
        }
        f = f + 1;
    }
    proof {
        assert(fluid_items_upto(fl, dv, nf as int) + boundary_items_upto(bo, 0) =~= fluid_items_upto(
            fl,
            dv,
            nf as int,
        ));
    }
    let nb = boundaries.len();
    let mut b: usize = 0;
    while b < nb
        invariant
            b <= nb,
            nb == bo.len(),
            nf == fl.len(),
            fl == fluids@,
            bo == boundaries@,
            dv == deltas_view(deltas),
            1 <= h <= MAX_COORD,
            sets_ok(fl, bo),
            deltas_ok(fl, dv),
            g.wf(),
            g.cell_size == h,
            forall|a: int, bb: int| #[trigger]
                g.parts_at(a, bb) == parts_model(
                    fluid_items_upto(fl, dv, nf as int) + boundary_items_upto(bo, b as int),
                    h as int,
                    a,
                    bb,
                ),
            forall|a: int, bb: int, k: int|
                0 <= k < g.parts_at(a, bb).len() ==> payload_ok(#[trigger] g.parts_at(a, bb)[k], fl, bo),
        decreases nb - b,
    {
        let n = boundaries[b].num_particles();
        let mut p: usize = 0;
        while p < n
            invariant
                p <= n,
                b < nb,
                nb == bo.len(),
                nf == fl.len(),
                n == bo[b as int].positions@.len(),
                fl == fluids@,
                bo == boundaries@,
                dv == deltas_view(deltas),
                1 <= h <= MAX_COORD,
                sets_ok(fl, bo),
                deltas_ok(fl, dv),
                g.wf(),
                g.cell_size == h,
                forall|a: int, bb: int| #[trigger]
                    g.parts_at(a, bb) == parts_model(
                        fluid_items_upto(fl, dv, nf as int) + boundary_items_upto(bo, b as int)
                            + boundary_row_items(bo, b as int).take(p as int),
                        h as int,
                        a,
                        bb,
                    ),
                forall|a: int, bb: int, k: int|
                    0 <= k < g.parts_at(a, bb).len() ==> payload_ok(#[trigger] g.parts_at(a, bb)[k], fl, bo),
            decreases n - p,
        {
            let ghost items0 = fluid_items_upto(fl, dv, nf as int) + boundary_items_upto(bo, b as int)
                + boundary_row_items(bo, b as int).take(p as int);
            let pos = boundaries[b].positions[p];
            let pl = Payload { model: b, particle: p, boundary: true };
            let ghost oldg = g;
            g.insert(&pos, pl);
            proof {
                let it = boundary_row_items(bo, b as int)[p as int];
                assert(it == (pos, pl));
                lemma_parts_model_push(items0, it, h as int);
                assert(fluid_items_upto(fl, dv, nf as int) + boundary_items_upto(bo, b as int)
                    + boundary_row_items(bo, b as int).take(p as int + 1) =~= items0.push(it));
                let c = cell_of_spec(pos, h as int);
                assert forall|a: int, bb: int| #[trigger]
                    g.parts_at(a, bb) == parts_model(items0.push(it), h as int, a, bb) by {
                    if (a, bb) == c {
                        assert(g.parts_at(a, bb) == oldg.parts_at(a, bb).push(pl));
                    } else {
                        assert(g.parts_at(a, bb) == oldg.parts_at(a, bb));
                    }
                }
                assert forall|a: int, bb: int, k: int|
                    0 <= k < g.parts_at(a, bb).len() implies payload_ok(#[trigger] g.parts_at(a, bb)[k], fl, bo) by {
                    if (a, bb) == c {
                        assert(g.parts_at(a, bb) == oldg.parts_at(a, bb).push(pl));
                        if k < oldg.parts_at(a, bb).len() {
                            assert(g.parts_at(a, bb)[k] == oldg.parts_at(a, bb)[k]);
                        } else {
                            assert(g.parts_at(a, bb)[k] == pl);
                        }
                    } else {
                        assert(g.parts_at(a, bb) == oldg.parts_at(a, bb));
                    }
                }
            }
            p = p + 1;
        }
        proof {
            assert(boundary_row_items(bo, b as int).take(n as int) =~= boundary_row_items(bo, b as int));
            assert(fluid_items_upto(fl, dv, nf as int) + boundary_items_upto(bo, b as int + 1)
                =~= fluid_items_upto(fl, dv, nf as int) + boundary_items_upto(bo, b as int)
                + boundary_row_items(bo, b as int));
        }
        b = b + 1;
    }
    g
}

/// Precondition bundle for a detection pass over an already-built grid.
pub open spec fn grid_ready(
    g: HGrid,
    fluids: Seq<Fluid>,
    boundaries: Seq<Boundary>,
    deltas: Option<Seq<Seq<Vect>>>,
    h: int,
) -> bool {
    &&& g.wf()
    &&& g.cell_size as int == h
    &&& 1 <= h <= MAX_COORD as int
    &&& sets_ok(fluids, boundaries)
    &&& deltas_ok(fluids, deltas)
    &&& forall|a: int, b: int| #[trigger]
        g.parts_at(a, b) == parts_model(all_items(fluids, boundaries, deltas), h, a, b)
    &&& forall|a: int, b: int, k: int|
        0 <= k < g.parts_at(a, b).len() ==> payload_ok(#[trigger] g.parts_at(a, b)[k], fluids, boundaries)
}

/// One detection pass for one fluid model: its fluid-fluid and its
/// fluid-boundary lists, built row by row in particle order.
fn detect_fluid_model(
    g: &HGrid,
    h: i64,
    fluids: &Vec<Fluid>,
    boundaries: &Vec<Boundary>,
    deltas: Option<&Vec<Vec<Vect>>>,
    f: usize,
) -> (r: (ParticlesContacts, ParticlesContacts))
    requires
        grid_ready(*g, fluids@, boundaries@, deltas_view(deltas), h as int),
        (f as int) < fluids@.len(),
    ensures
        family_matches(ContactFamily::FluidFluid, r.0, fluids@, boundaries@, deltas_view(deltas), h as int, f as int),
        family_matches(
            ContactFamily::FluidBoundary,
            r.1,
            fluids@,
            boundaries@,
            deltas_view(deltas),
            h as int,
            f as int,
        ),
        r.0.wf(),
        r.1.wf(),
{
    let ghost fl = fluids@;
    let ghost bo = boundaries@;
    let ghost dv = deltas_view(deltas);
    let ghost items = all_items(fl, bo, dv);
    let n = fluids[f].num_particles();
    let mut ffc: Vec<Contact> = Vec::new();
    let mut ffr: Vec<ContactRange> = Vec::new();
    let mut fbc: Vec<Contact> = Vec::new();
    let mut fbr: Vec<ContactRange> = Vec::new();
    let mut p: usize = 0;
    while p < n
        invariant
            p <= n,
            f < fl.len(),
            n == fl[f as int].positions@.len(),
            fl == fluids@,
            bo == boundaries@,
            dv == deltas_view(deltas),
            items == all_items(fl, bo, dv),
            grid_ready(*g, fl, bo, dv, h as int),
            ffc@ == family_flat(ContactFamily::FluidFluid, fl, bo, dv, h as int, f as int, p as int),
            fbc@ == family_flat(ContactFamily::FluidBoundary, fl, bo, dv, h as int, f as int, p as int),
            ffr@.len() == p && fbr@.len() == p,
            forall|q: int|
                0 <= q < p as int ==> (#[trigger] ffr@[q]).start as int == family_flat(
                    ContactFamily::FluidFluid,
                    fl,
                    bo,
                    dv,
                    h as int,
                    f as int,
                    q,
                ).len() && ffr@[q].end as int == family_flat(
                    ContactFamily::FluidFluid,
                    fl,
                    bo,
                    dv,
                    h as int,
                    f as int,
                    q + 1,
                ).len(),
            forall|q: int|
                0 <= q < p as int ==> (#[trigger] fbr@[q]).start as int == family_flat(
                    ContactFamily::FluidBoundary,
                    fl,
                    bo,
                    dv,
                    h as int,
                    f as int,
                    q,
                ).len() && fbr@[q].end as int == family_flat(
                    ContactFamily::FluidBoundary,
                    fl,
                    bo,
                    dv,
                    h as int,
                    f as int,
                    q + 1,
                ).len(),
        decreases n - p,
    {
        let pos_i = fluid_eff_pos(fluids, deltas, f, p);
        let cpx = ediv(pos_i.x, h);
        let cpy = ediv(pos_i.y, h);
        let cands = g.neighbor_candidates(cpx, cpy);
        proof {
            lemma_neighborhood_congruent(*g, items, h as int, cpx as int, cpy as int, 9);
            lemma_neighborhood_ok(*g, fl, bo, cpx as int, cpy as int, 9);
            assert(cands@ == model_neighborhood(items, h as int, cpx as int, cpy as int));
            assert((cpx as int, cpy as int) == cell_of_spec(pos_i, h as int));
        }
        let ff_start = ffc.len();
        let fb_start = fbc.len();
        let m = cands.len();
        let mut k: usize = 0;
        while k < m
            invariant
                k <= m,
                m == cands@.len(),
                f < fl.len(),
                p < n,
                n == fl[f as int].positions@.len(),
                fl == fluids@,
                bo == boundaries@,
                dv == deltas_view(deltas),
                items == all_items(fl, bo, dv),
                grid_ready(*g, fl, bo, dv, h as int),
                1 <= h <= MAX_COORD,
                pos_i == fluid_pos(fl, dv, f as int, p as int),
                forall|j: int| 0 <= j < cands@.len() ==> payload_ok(#[trigger] cands@[j], fl, bo),
                ffc@ == family_flat(ContactFamily::FluidFluid, fl, bo, dv, h as int, f as int, p as int)
                    + row_filter(cands@.take(k as int), false, fl, bo, dv, h as int, pos_i, f as int, p as int),
                fbc@ == family_flat(ContactFamily::FluidBoundary, fl, bo, dv, h as int, f as int, p as int)
                    + row_filter(cands@.take(k as int), true, fl, bo, dv, h as int, pos_i, f as int, p as int),
            decreases m - k,
        {
            let pl = cands[k];
            let pos_j = payload_position(fluids, boundaries, deltas, pl);
            let d2 = pos_i.sub(&pos_j).norm_squared();
            proof {
                assert((h as int) * (h as int) <= 1_000_000_000_000) by (nonlinear_arith)
                    requires
                        1 <= h <= 1_000_000,
                ;
            }
            let hh = h * h;
            proof {
                assert(cands@.take(k as int + 1).drop_last() =~= cands@.take(k as int));
                assert(cands@.take(k as int + 1).last() == cands@[k as int]);
            }
            if d2 <= hh {
                let c = Contact { i: p, i_model: f, j: pl.particle, j_model: pl.model, weight: 0, gradient: Vect::zero() };
                if pl.boundary {
                    fbc.push(c);
                } else {
                    ffc.push(c);
                }
            }
            k = k + 1;
        }
        proof {
            assert(cands@.take(m as int) =~= cands@);
        }
        ffr.push(ContactRange { start: ff_start, end: ffc.len() });
        fbr.push(ContactRange { start: fb_start, end: fbc.len() });
        p = p + 1;
    }
    let ff = ParticlesContacts { contacts: ffc, contact_ranges: ffr };
    let fb = ParticlesContacts { contacts: fbc, contact_ranges: fbr };
    proof {
        lemma_matches_wf(ContactFamily::FluidFluid, ff, fl, bo, dv, h as int, f as int);
        lemma_matches_wf(ContactFamily::FluidBoundary, fb, fl, bo, dv, h as int, f as int);
    }
    (ff, fb)
}

/// One detection pass for one boundary model: its boundary-boundary list.
/// Fluid candidates are skipped: those pairs are covered from the fluid side.
fn detect_boundary_model(
    g: &HGrid,
    h: i64,
    fluids: &Vec<Fluid>,
    boundaries: &Vec<Boundary>,
    deltas: Option<&Vec<Vec<Vect>>>,
    b: usize,
) -> (r: ParticlesContacts)
    requires
        grid_ready(*g, fluids@, boundaries@, deltas_view(deltas), h as int),
        (b as int) < boundaries@.len(),
    ensures
        family_matches(
            ContactFamily::BoundaryBoundary,
            r,
            fluids@,
            boundaries@,
            deltas_view(deltas),
            h as int,
            b as int,
        ),
        r.wf(),
{
    let ghost fl = fluids@;
    let ghost bo = boundaries@;
    let ghost dv = deltas_view(deltas);
    let ghost items = all_items(fl, bo, dv);
    let n = boundaries[b].num_particles();
    let mut bbc: Vec<Contact> = Vec::new();
    let mut bbr: Vec<ContactRange> = Vec::new();
    let mut p: usize = 0;
    while p < n
        invariant
            p <= n,
            b < bo.len(),
            n == bo[b as int].positions@.len(),
            fl == fluids@,
            bo == boundaries@,
            dv == deltas_view(deltas),
            items == all_items(fl, bo, dv),
            grid_ready(*g, fl, bo, dv, h as int),
            bbc@ == family_flat(ContactFamily::BoundaryBoundary, fl, bo, dv, h as int, b as int, p as int),
            bbr@.len() == p,
            forall|q: int|
                0 <= q < p as int ==> (#[trigger] bbr@[q]).start as int == family_flat(
                    ContactFamily::BoundaryBoundary,
                    fl,
                    bo,
                    dv,
                    h as int,
                    b as int,
                    q,
                ).len() && bbr@[q].end as int == family_flat(
                    ContactFamily::BoundaryBoundary,
                    fl,
                    bo,
                    dv,
                    h as int,
                    b as int,
                    q + 1,
                ).len(),
        decreases n - p,
    {
        let pos_i = boundaries[b].positions[p];
        let cpx = ediv(pos_i.x, h);
        let cpy = ediv(pos_i.y, h);
        let cands = g.neighbor_candidates(cpx, cpy);
        proof {
            lemma_neighborhood_congruent(*g, items, h as int, cpx as int, cpy as int, 9);
            lemma_neighborhood_ok(*g, fl, bo, cpx as int, cpy as int, 9);
            assert(cands@ == model_neighborhood(items, h as int, cpx as int, cpy as int));
            assert((cpx as int, cpy as int) == cell_of_spec(pos_i, h as int));
        }
        let bb_start = bbc.len();
        let m = cands.len();
        let mut k: usize = 0;
        while k < m
            invariant
                k <= m,
                m == cands@.len(),
                b < bo.len(),
                p < n,
                n == bo[b as int].positions@.len(),
                fl == fluids@,
                bo == boundaries@,
                dv == deltas_view(deltas),
                items == all_items(fl, bo, dv),
                grid_ready(*g, fl, bo, dv, h as int),
                1 <= h <= MAX_COORD,
                pos_i == boundary_pos(bo, b as int, p as int),
                forall|j: int| 0 <= j < cands@.len() ==> payload_ok(#[trigger] cands@[j], fl, bo),
                bbc@ == family_flat(ContactFamily::BoundaryBoundary, fl, bo, dv, h as int, b as int, p as int)
                    + row_filter(cands@.take(k as int), true, fl, bo, dv, h as int, pos_i, b as int, p as int),
            decreases m - k,
        {
            let pl = cands[k];
            proof {
                assert(cands@.take(k as int + 1).drop_last() =~= cands@.take(k as int));
                assert(cands@.take(k as int + 1).last() == cands@[k as int]);
            }
            if pl.boundary {
                let pos_j = payload_position(fluids, boundaries, deltas, pl);
                let d2 = pos_i.sub(&pos_j).norm_squared();
                proof {
                assert((h as int) * (h as int) <= 1_000_000_000_000) by (nonlinear_arith)
                    requires
                        1 <= h <= 1_000_000,
                ;
            }
            let hh = h * h;
                if d2 <= hh {
                    let c = Contact {
                        i: p,
                        i_model: b,
                        j: pl.particle,
                        j_model: pl.model,
                        weight: 0,
                        gradient: Vect::zero(),
                    };
                    bbc.push(c);
                }
            }
            k = k + 1;
        }
        proof {
            assert(cands@.take(m as int) =~= cands@);
        }
        bbr.push(ContactRange { start: bb_start, end: bbc.len() });
        p = p + 1;
    }
    let bb = ParticlesContacts { contacts: bbc, contact_ranges: bbr };
    proof {
        lemma_matches_wf(ContactFamily::BoundaryBoundary, bb, fl, bo, dv, h as int, b as int);
    }
    bb
}

/// A list that matches its family model satisfies the range partition
/// invariant.
proof fn lemma_matches_wf(
    fam: ContactFamily,
    pc: ParticlesContacts,
    fluids: Seq<Fluid>,
    boundaries: Seq<Boundary>,
    deltas: Option<Seq<Seq<Vect>>>,
    h: int,
    m: int,
)
    requires
        family_matches(fam, pc, fluids, boundaries, deltas, h, m),
    ensures
        pc.wf(),
{
    let n = family_model_len(fam, fluids, boundaries, m);
    assert forall|i: int|
        0 <= i < pc.ranges_seq().len() implies (#[trigger] pc.ranges_seq()[i]).start <= pc.ranges_seq()[i].end
        <= pc.contacts_seq().len() by {
        lemma_family_flat_mono(fam, fluids, boundaries, deltas, h, m, i, i + 1);
        lemma_family_flat_mono(fam, fluids, boundaries, deltas, h, m, i + 1, n);
    }
}

/// Rebuilds the three families of contact lists from scratch: one
/// fluid-fluid and one fluid-boundary list per fluid model (fluids tested at
/// their effective positions), and one boundary-boundary list per boundary
/// model. Boundary-as-`i`/fluid-as-`j` pairs are never recorded.
pub fn compute_contacts(
    h: i64,
    fluids: &Vec<Fluid>,
    boundaries: &Vec<Boundary>,
    fluid_delta_pos: Option<&Vec<Vec<Vect>>>,
    fluid_fluid_contacts: &mut Vec<ParticlesContacts>,
    fluid_boundary_contacts: &mut Vec<ParticlesContacts>,
    boundary_boundary_contacts: &mut Vec<ParticlesContacts>,
)
    requires
        1 <= h <= MAX_COORD,
        sets_ok(fluids@, boundaries@),
        deltas_ok(fluids@, deltas_view(fluid_delta_pos)),
    ensures
        final(fluid_fluid_contacts)@.len() == fluids@.len(),
        final(fluid_boundary_contacts)@.len() == fluids@.len(),
        final(boundary_boundary_contacts)@.len() == boundaries@.len(),
        forall|f: int|
            0 <= f < fluids@.len() ==> family_matches(
                ContactFamily::FluidFluid,
                #[trigger] final(fluid_fluid_contacts)@[f],
                fluids@,
                boundaries@,
                deltas_view(fluid_delta_pos),
                h as int,
                f,
            ) && final(fluid_fluid_contacts)@[f].wf(),
        forall|f: int|
            0 <= f < fluids@.len() ==> family_matches(
                ContactFamily::FluidBoundary,
                #[trigger] final(fluid_boundary_contacts)@[f],
                fluids@,
                boundaries@,
                deltas_view(fluid_delta_pos),
                h as int,
                f,
            ) && final(fluid_boundary_contacts)@[f].wf(),
        forall|b: int|
            0 <= b < boundaries@.len() ==> family_matches(
                ContactFamily::BoundaryBoundary,
                #[trigger] final(boundary_boundary_contacts)@[b],
                fluids@,
                boundaries@,
                deltas_view(fluid_delta_pos),
                h as int,
                b,
            ) && final(boundary_boundary_contacts)@[b].wf(),
{
    let ghost fl = fluids@;
    let ghost bo = boundaries@;
    let ghost dv = deltas_view(fluid_delta_pos);
    let g = build_grid(h, fluids, boundaries, fluid_delta_pos);
    let nf = fluids.len();
    let mut ff_out: Vec<ParticlesContacts> = Vec::new();
    let mut fb_out: Vec<ParticlesContacts> = Vec::new();
    let mut f: usize = 0;
    while f < nf
        invariant
            f <= nf,
            nf == fl.len(),
            fl == fluids@,
            bo == boundaries@,
            dv == deltas_view(fluid_delta_pos),
            grid_ready(g, fl, bo, dv, h as int),
            ff_out@.len() == f && fb_out@.len() == f,
            forall|q: int|
                0 <= q < f as int ==> family_matches(
                    ContactFamily::FluidFluid,
                    #[trigger] ff_out@[q],
                    fl,
                    bo,
                    dv,
                    h as int,
                    q,
                ) && ff_out@[q].wf(),
            forall|q: int|
                0 <= q < f as int ==> family_matches(
                    ContactFamily::FluidBoundary,
                    #[trigger] fb_out@[q],
                    fl,
                    bo,
                    dv,
                    h as int,
                    q,
                ) && fb_out@[q].wf(),
        decreases nf - f,
    {
        let (ff, fb) = detect_fluid_model(&g, h, fluids, boundaries, fluid_delta_pos, f);
        ff_out.push(ff);
        fb_out.push(fb);
        f = f + 1;
    }
    let nb = boundaries.len();
    let mut bb_out: Vec<ParticlesContacts> = Vec::new();
    let mut b: usize = 0;
    while b < nb
        invariant
            b <= nb,
            nb == bo.len(),
            fl == fluids@,
            bo == boundaries@,
            dv == deltas_view(fluid_delta_pos),
            grid_ready(g, fl, bo, dv, h as int),
            bb_out@.len() == b,
            forall|q: int|
                0 <= q < b as int ==> family_matches(
                    ContactFamily::BoundaryBoundary,
                    #[trigger] bb_out@[q],
                    fl,
                    bo,
                    dv,
                    h as int,
                    q,
                ) && bb_out@[q].wf(),
        decreases nb - b,
    {
        let bb = detect_boundary_model(&g, h, fluids, boundaries, fluid_delta_pos, b);
        bb_out.push(bb);
        b = b + 1;
    }
    *fluid_fluid_contacts = ff_out;
    *fluid_boundary_contacts = fb_out;
    *boundary_boundary_contacts = bb_out;
}

/// Validity of one recorded contact against the particle sets: `i` names a
/// particle of the list's own model, and `j` a particle of the family's
/// wanted kind.
pub open spec fn family_contact_ok(
    fam: ContactFamily,
    c: Contact,
    fluids: Seq<Fluid>,
    boundaries: Seq<Boundary>,
    m: int,
) -> bool {
    &&& c.i_model as int == m
    &&& (c.i as int) < family_model_len(fam, fluids, boundaries, m)
    &&& if fam is FluidFluid {
        (c.j_model as int) < fluids.len() && (c.j as int) < fluids[c.j_model as int].positions@.len()
    } else {
        (c.j_model as int) < boundaries.len() && (c.j as int) < boundaries[c.j_model as int].positions@.len()
    }
}

/// Every payload of the insertion stream names a real particle.
proof fn lemma_fluid_items_ok(fluids: Seq<Fluid>, deltas: Option<Seq<Seq<Vect>>>, f: int)
    requires
        0 <= f <= fluids.len(),
        fluids.len() <= usize::MAX as int,
        forall|q: int| 0 <= q < fluids.len() ==> (#[trigger] fluids[q]).positions@.len() <= usize::MAX as int,
    ensures
        forall|idx: int|
            0 <= idx < fluid_items_upto(fluids, deltas, f).len() ==> payload_ok(
                (#[trigger] fluid_items_upto(fluids, deltas, f)[idx]).1,
                fluids,
                Seq::empty(),
            ) && !fluid_items_upto(fluids, deltas, f)[idx].1.boundary,
    decreases f,
{
    if f > 0 {
        lemma_fluid_items_ok(fluids, deltas, f - 1);
        let prev = fluid_items_upto(fluids, deltas, f - 1);
        let row = fluid_row_items(fluids, deltas, f - 1);
        assert forall|idx: int|
            0 <= idx < fluid_items_upto(fluids, deltas, f).len() implies payload_ok(
            (#[trigger] fluid_items_upto(fluids, deltas, f)[idx]).1,
            fluids,
            Seq::empty(),
        ) && !fluid_items_upto(fluids, deltas, f)[idx].1.boundary by {
            if idx < prev.len() {
                assert(fluid_items_upto(fluids, deltas, f)[idx] == prev[idx]);
            } else {
                assert(fluid_items_upto(fluids, deltas, f)[idx] == row[idx - prev.len()]);
            }
        }
    }
}

/// Every payload of the boundary insertion stream names a real particle.
proof fn lemma_boundary_items_ok(boundaries: Seq<Boundary>, b: int)
    requires
        0 <= b <= boundaries.len(),
        boundaries.len() <= usize::MAX as int,
        forall|q: int| 0 <= q < boundaries.len() ==> (#[trigger] boundaries[q]).positions@.len() <= usize::MAX as int,
    ensures
        forall|idx: int|
            0 <= idx < boundary_items_upto(boundaries, b).len() ==> payload_ok(
                (#[trigger] boundary_items_upto(boundaries, b)[idx]).1,
                Seq::empty(),
                boundaries,
            ) && boundary_items_upto(boundaries, b)[idx].1.boundary,
    decreases b,
{
    if b > 0 {
        lemma_boundary_items_ok(boundaries, b - 1);
        let prev = boundary_items_upto(boundaries, b - 1);
        let row = boundary_row_items(boundaries, b - 1);
        assert forall|idx: int|
            0 <= idx < boundary_items_upto(boundaries, b).len() implies payload_ok(
            (#[trigger] boundary_items_upto(boundaries, b)[idx]).1,
            Seq::empty(),
            boundaries,
        ) && boundary_items_upto(boundaries, b)[idx].1.boundary by {
            if idx < prev.len() {
                assert(boundary_items_upto(boundaries, b)[idx] == prev[idx]);
            } else {
                assert(boundary_items_upto(boundaries, b)[idx] == row[idx - prev.len()]);
            }
        }
    }
}

/// Every payload of the whole insertion stream names a real particle.
pub proof fn lemma_all_items_ok(fluids: Seq<Fluid>, boundaries: Seq<Boundary>, deltas: Option<Seq<Seq<Vect>>>)
    requires
        fluids.len() <= usize::MAX as int,
        boundaries.len() <= usize::MAX as int,
        forall|q: int| 0 <= q < fluids.len() ==> (#[trigger] fluids[q]).positions@.len() <= usize::MAX as int,
        forall|q: int| 0 <= q < boundaries.len() ==> (#[trigger] boundaries[q]).positions@.len() <= usize::MAX as int,
    ensures
        forall|idx: int|
            0 <= idx < all_items(fluids, boundaries, deltas).len() ==> payload_ok(
                (#[trigger] all_items(fluids, boundaries, deltas)[idx]).1,
                fluids,
                boundaries,
            ),
{
    lemma_fluid_items_ok(fluids, deltas, fluids.len() as int);
    lemma_boundary_items_ok(boundaries, boundaries.len() as int);
    let fiu = fluid_items_upto(fluids, deltas, fluids.len() as int);
    let biu = boundary_items_upto(boundaries, boundaries.len() as int);
    assert forall|idx: int|
        0 <= idx < all_items(fluids, boundaries, deltas).len() implies payload_ok(
        (#[trigger] all_items(fluids, boundaries, deltas)[idx]).1,
        fluids,
        boundaries,
    ) by {
        if idx < fiu.len() {
            assert(all_items(fluids, boundaries, deltas)[idx] == fiu[idx]);
        } else {
            assert(all_items(fluids, boundaries, deltas)[idx] == biu[idx - fiu.len()]);
        }
    }
}

/// Every payload the modelled grid holds came from the insertion stream.
proof fn lemma_parts_model_sound(items: Seq<(Vect, Payload)>, h: int, cx: int, cy: int, k: int)
    requires
        0 <= k < parts_model(items, h, cx, cy).len(),
    ensures
        exists|idx: int|
            0 <= idx < items.len() && (#[trigger] items[idx]).1 == parts_model(items, h, cx, cy)[k],
    decreases items.len(),
{
    let prev = parts_model(items.drop_last(), h, cx, cy);
    if k < prev.len() {
        lemma_parts_model_sound(items.drop_last(), h, cx, cy, k);
        let idx = choose|idx: int|
            0 <= idx < items.drop_last().len() && (#[trigger] items.drop_last()[idx]).1 == prev[k];
        assert(items[idx].1 == parts_model(items, h, cx, cy)[k]);
    } else {
        assert(items[items.len() - 1].1 == parts_model(items, h, cx, cy)[k]);
    }
}

/// Every modelled candidate names a real particle.
pub proof fn lemma_model_neighborhood_ok(
    items: Seq<(Vect, Payload)>,
    fluids: Seq<Fluid>,
    boundaries: Seq<Boundary>,
    h: int,
    cx: int,
    cy: int,
    t: int,
)
    requires
        forall|idx: int| 0 <= idx < items.len() ==> payload_ok((#[trigger] items[idx]).1, fluids, boundaries),
    ensures
        forall|k: int|
            0 <= k < model_neighborhood_upto(items, h, cx, cy, t).len() ==> payload_ok(
                #[trigger] model_neighborhood_upto(items, h, cx, cy, t)[k],
                fluids,
                boundaries,
            ),
    decreases t,
{
    if t > 0 {
        lemma_model_neighborhood_ok(items, fluids, boundaries, h, cx, cy, t - 1);
        let prev = model_neighborhood_upto(items, h, cx, cy, t - 1);
        let slot = parts_model(items, h, cx + (t - 1) / 3 - 1, cy + (t - 1) % 3 - 1);
        assert forall|k: int|
            0 <= k < model_neighborhood_upto(items, h, cx, cy, t).len() implies payload_ok(
            #[trigger] model_neighborhood_upto(items, h, cx, cy, t)[k],
            fluids,
            boundaries,
        ) by {
            if k < prev.len() {
                assert(model_neighborhood_upto(items, h, cx, cy, t)[k] == prev[k]);
            } else {
                assert(model_neighborhood_upto(items, h, cx, cy, t)[k] == slot[k - prev.len()]);
                lemma_parts_model_sound(items, h, cx + (t - 1) / 3 - 1, cy + (t - 1) % 3 - 1, k - prev.len());
            }
        }
    }
}

proof fn lemma_flat_contacts_ok(
    fam: ContactFamily,
    fluids: Seq<Fluid>,
    boundaries: Seq<Boundary>,
    deltas: Option<Seq<Seq<Vect>>>,
    h: int,
    m: int,
    n: int,
)
    requires
        0 <= m <= usize::MAX as int,
        0 <= n <= usize::MAX as int,
        n <= family_model_len(fam, fluids, boundaries, m),
        fluids.len() <= usize::MAX as int,
        boundaries.len() <= usize::MAX as int,
        forall|q: int| 0 <= q < fluids.len() ==> (#[trigger] fluids[q]).positions@.len() <= usize::MAX as int,
        forall|q: int| 0 <= q < boundaries.len() ==> (#[trigger] boundaries[q]).positions@.len() <= usize::MAX as int,
    ensures
        forall|k: int|
            0 <= k < family_flat(fam, fluids, boundaries, deltas, h, m, n).len() ==> family_contact_ok(
                fam,
                #[trigger] family_flat(fam, fluids, boundaries, deltas, h, m, n)[k],
                fluids,
                boundaries,
                m,
            ),
    decreases n,
{
    if n > 0 {
        lemma_flat_contacts_ok(fam, fluids, boundaries, deltas, h, m, n - 1);
        lemma_all_items_ok(fluids, boundaries, deltas);
        let prev = family_flat(fam, fluids, boundaries, deltas, h, m, n - 1);
        let row = family_row(fam, fluids, boundaries, deltas, h, m, n - 1);
        let pos_i = if fam is BoundaryBoundary {
            boundary_pos(boundaries, m, n - 1)
        } else {
            fluid_pos(fluids, deltas, m, n - 1)
        };
        let items = all_items(fluids, boundaries, deltas);
        let ci = cell_of_spec(pos_i, h);
        let cands = model_neighborhood(items, h, ci.0, ci.1);
        lemma_model_neighborhood_ok(items, fluids, boundaries, h, ci.0, ci.1, 9);
        assert forall|k: int|
            0 <= k < family_flat(fam, fluids, boundaries, deltas, h, m, n).len() implies family_contact_ok(
            fam,
            #[trigger] family_flat(fam, fluids, boundaries, deltas, h, m, n)[k],
            fluids,
            boundaries,
            m,
        ) by {
            if k < prev.len() {
                assert(family_flat(fam, fluids, boundaries, deltas, h, m, n)[k] == prev[k]);
            } else {
                assert(family_flat(fam, fluids, boundaries, deltas, h, m, n)[k] == row[k - prev.len()]);
                lemma_row_filter_sound(
                    cands,
                    !(fam is FluidFluid),
                    fluids,
                    boundaries,
                    deltas,
                    h,
                    pos_i,
                    m,
                    n - 1,
                    k - prev.len(),
                );
                let pl = choose|pl: Payload|
                    cands.contains(pl) && pl.boundary == !(fam is FluidFluid) && accepts(
                        fluids,
                        boundaries,
                        deltas,
                        h,
                        pos_i,
                        pl,
                    ) && row[k - prev.len()] == contact_of(m, n - 1, pl);
                let pidx = choose|pidx: int| 0 <= pidx < cands.len() && cands[pidx] == pl;
                assert(payload_ok(cands[pidx], fluids, boundaries));
            }
        }
    }
}

/// Every contact of a list produced by detection names real particles: `i`
/// is a particle of the list's own model and `j` one of the family's wanted
/// kind of model.
pub proof fn lemma_family_contacts_ok(
    fam: ContactFamily,
    pc: ParticlesContacts,
    fluids: Seq<Fluid>,
    boundaries: Seq<Boundary>,
    deltas: Option<Seq<Seq<Vect>>>,
    h: int,
    m: int,
)
    requires
        family_matches(fam, pc, fluids, boundaries, deltas, h, m),
        0 <= m <= usize::MAX as int,
        family_model_len(fam, fluids, boundaries, m) <= usize::MAX as int,
        fluids.len() <= usize::MAX as int,
        boundaries.len() <= usize::MAX as int,
        forall|q: int| 0 <= q < fluids.len() ==> (#[trigger] fluids[q]).positions@.len() <= usize::MAX as int,
        forall|q: int| 0 <= q < boundaries.len() ==> (#[trigger] boundaries[q]).positions@.len() <= usize::MAX as int,
    ensures
        forall|k: int|
            0 <= k < pc.contacts_seq().len() ==> family_contact_ok(
                fam,
                #[trigger] pc.contacts_seq()[k],
                fluids,
                boundaries,
                m,
            ),
{
    let n = family_model_len(fam, fluids, boundaries, m);
    lemma_flat_contacts_ok(fam, fluids, boundaries, deltas, h, m, n);
}

/// Determinism of contact detection: two lists that match the same family
/// model of the same input are identical, so re-running detection on
/// identical input reproduces every contact and every range exactly.
pub proof fn lemma_detection_deterministic(
    fam: ContactFamily,
    pc1: ParticlesContacts,
    pc2: ParticlesContacts,
    fluids: Seq<Fluid>,
    boundaries: Seq<Boundary>,
    deltas: Option<Seq<Seq<Vect>>>,
    h: int,
    m: int,
)
    requires
        family_matches(fam, pc1, fluids, boundaries, deltas, h, m),
        family_matches(fam, pc2, fluids, boundaries, deltas, h, m),
    ensures
        pc1.contacts_seq() == pc2.contacts_seq(),
        pc1.ranges_seq() == pc2.ranges_seq(),
{
    assert forall|p: int|
        0 <= p < pc1.ranges_seq().len() implies pc1.ranges_seq()[p] == pc2.ranges_seq()[p] by {
        assert(pc1.ranges_seq()[p].start as int == pc2.ranges_seq()[p].start as int);
        assert(pc1.ranges_seq()[p].end as int == pc2.ranges_seq()[p].end as int);
    }
    assert(pc1.ranges_seq() =~= pc2.ranges_seq());
}

/// A subrange taken entirely inside the left part of a concatenation.
proof fn lemma_subrange_of_concat_prefix(a: Seq<Contact>, b: Seq<Contact>, i: int, j: int)
    requires
        0 <= i <= j <= a.len(),
    ensures
        (a + b).subrange(i, j) == a.subrange(i, j),
{
    assert((a + b).subrange(i, j) =~= a.subrange(i, j));
}

/// Inside the flat array, the slice delimited by particle `p`'s range is
/// exactly `p`'s own row.
proof fn lemma_flat_slice_is_row(
    fam: ContactFamily,
    fluids: Seq<Fluid>,
    boundaries: Seq<Boundary>,
    deltas: Option<Seq<Seq<Vect>>>,
    h: int,
    m: int,
    p: int,
    n: int,
)
    requires
        0 <= p < n,
    ensures
        family_flat(fam, fluids, boundaries, deltas, h, m, n).subrange(
            family_flat(fam, fluids, boundaries, deltas, h, m, p).len() as int,
            family_flat(fam, fluids, boundaries, deltas, h, m, p + 1).len() as int,
        ) == family_row(fam, fluids, boundaries, deltas, h, m, p),
    decreases n,
{
    let lo = family_flat(fam, fluids, boundaries, deltas, h, m, p).len() as int;
    let hi = family_flat(fam, fluids, boundaries, deltas, h, m, p + 1).len() as int;
    if n == p + 1 {
        assert(family_flat(fam, fluids, boundaries, deltas, h, m, p + 1).subrange(lo, hi) =~= family_row(
            fam,
            fluids,
            boundaries,
            deltas,
            h,
            m,
            p,
        ));
    } else {
        lemma_flat_slice_is_row(fam, fluids, boundaries, deltas, h, m, p, n - 1);
        lemma_family_flat_mono(fam, fluids, boundaries, deltas, h, m, p + 1, n - 1);
        lemma_subrange_of_concat_prefix(
            family_flat(fam, fluids, boundaries, deltas, h, m, n - 1),
            family_row(fam, fluids, boundaries, deltas, h, m, n - 1),
            lo,
            hi,
        );
    }
}

/// The range partition property: each particle's range delimits exactly its
/// own recorded matches, its length is that match count, and consecutive
/// ranges tile the flat array without overlap.
pub proof fn lemma_range_partition(
    fam: ContactFamily,
    pc: ParticlesContacts,
    fluids: Seq<Fluid>,
    boundaries: Seq<Boundary>,
    deltas: Option<Seq<Seq<Vect>>>,
    h: int,
    m: int,
    p: int,
)
    requires
        family_matches(fam, pc, fluids, boundaries, deltas, h, m),
        0 <= p < family_model_len(fam, fluids, boundaries, m),
    ensures
        pc.wf(),
        pc.contacts_seq().subrange(
            pc.ranges_seq()[p].start as int,
            pc.ranges_seq()[p].end as int,
        ) == family_row(fam, fluids, boundaries, deltas, h, m, p),
        pc.ranges_seq()[p].end - pc.ranges_seq()[p].start == family_row(
            fam,
            fluids,
            boundaries,
            deltas,
            h,
            m,
            p,
        ).len(),
{
    let n = family_model_len(fam, fluids, boundaries, m);
    lemma_matches_wf(fam, pc, fluids, boundaries, deltas, h, m);
    lemma_flat_slice_is_row(fam, fluids, boundaries, deltas, h, m, p, n);
}

/// Membership survives appending more candidates.
proof fn lemma_row_filter_grows(
    cands: Seq<Payload>,
    k: int,
    want_boundary: bool,
    fluids: Seq<Fluid>,
    boundaries: Seq<Boundary>,
    deltas: Option<Seq<Seq<Vect>>>,
    h: int,
    pos_i: Vect,
    i_model: int,
    i: int,
    c: Contact,
)
    requires
        0 <= k <= cands.len(),
        row_filter(cands.take(k), want_boundary, fluids, boundaries, deltas, h, pos_i, i_model, i).contains(c),
    ensures
        row_filter(cands, want_boundary, fluids, boundaries, deltas, h, pos_i, i_model, i).contains(c),
    decreases cands.len() - k,
{
    if k == cands.len() {
        assert(cands.take(k) =~= cands);
    } else {
        let prev = row_filter(cands.take(k), want_boundary, fluids, boundaries, deltas, h, pos_i, i_model, i);
        let next = row_filter(cands.take(k + 1), want_boundary, fluids, boundaries, deltas, h, pos_i, i_model, i);
        assert(cands.take(k + 1).drop_last() =~= cands.take(k));
        assert(cands.take(k + 1).last() == cands[k]);
        let idx = choose|idx: int| 0 <= idx < prev.len() && prev[idx] == c;
        assert(next[idx] == c);
        lemma_row_filter_grows(cands, k + 1, want_boundary, fluids, boundaries, deltas, h, pos_i, i_model, i, c);
    }
}

/// A candidate of the wanted kind that passes the distance test appears in
/// the filtered row.
proof fn lemma_row_filter_contains(
    cands: Seq<Payload>,
    want_boundary: bool,
    fluids: Seq<Fluid>,
    boundaries: Seq<Boundary>,
    deltas: Option<Seq<Seq<Vect>>>,
    h: int,
    pos_i: Vect,
    i_model: int,
    i: int,
    k: int,
)
    requires
        0 <= k < cands.len(),
        cands[k].boundary == want_boundary,
        accepts(fluids, boundaries, deltas, h, pos_i, cands[k]),
    ensures
        row_filter(cands, want_boundary, fluids, boundaries, deltas, h, pos_i, i_model, i).contains(
            contact_of(i_model, i, cands[k]),
        ),
{
    let c = contact_of(i_model, i, cands[k]);
    assert(cands.take(k + 1).drop_last() =~= cands.take(k));
    assert(cands.take(k + 1).last() == cands[k]);
    let row1 = row_filter(cands.take(k + 1), want_boundary, fluids, boundaries, deltas, h, pos_i, i_model, i);
    assert(row1.last() == c);
    assert(row1.contains(c));
    lemma_row_filter_grows(cands, k + 1, want_boundary, fluids, boundaries, deltas, h, pos_i, i_model, i, c);
}

/// Every recorded contact comes from a candidate of the wanted kind that
/// passed the distance test.
proof fn lemma_row_filter_sound(
    cands: Seq<Payload>,
    want_boundary: bool,
    fluids: Seq<Fluid>,
    boundaries: Seq<Boundary>,
    deltas: Option<Seq<Seq<Vect>>>,
    h: int,
    pos_i: Vect,
    i_model: int,
    i: int,
    k: int,
)
    requires
        0 <= k < row_filter(cands, want_boundary, fluids, boundaries, deltas, h, pos_i, i_model, i).len(),
    ensures
        exists|pl: Payload|
            cands.contains(pl) && pl.boundary == want_boundary && accepts(fluids, boundaries, deltas, h, pos_i, pl)
                && row_filter(cands, want_boundary, fluids, boundaries, deltas, h, pos_i, i_model, i)[k]
                == contact_of(i_model, i, pl),
    decreases cands.len(),
{
    let row = row_filter(cands, want_boundary, fluids, boundaries, deltas, h, pos_i, i_model, i);
    let prev = row_filter(cands.drop_last(), want_boundary, fluids, boundaries, deltas, h, pos_i, i_model, i);
    if k < prev.len() {
        lemma_row_filter_sound(cands.drop_last(), want_boundary, fluids, boundaries, deltas, h, pos_i, i_model, i, k);
        let pl = choose|pl: Payload|
            cands.drop_last().contains(pl) && pl.boundary == want_boundary && accepts(
                fluids,
                boundaries,
                deltas,
                h,
                pos_i,
                pl,
            ) && prev[k] == contact_of(i_model, i, pl);
        let idx = choose|idx: int| 0 <= idx < cands.drop_last().len() && cands.drop_last()[idx] == pl;
        assert(cands[idx] == pl);
        assert(cands.contains(pl));
        assert(row[k] == prev[k]);
    } else {
        let pl = cands.last();
        assert(cands.contains(pl));
        assert(row[k] == contact_of(i_model, i, pl));
    }
}

/// The slot of `fluid_items_upto` holding one fluid particle's item.
proof fn lemma_fluid_items_index(
    fluids: Seq<Fluid>,
    deltas: Option<Seq<Seq<Vect>>>,
    f: int,
    p: int,
    fend: int,
)
    requires
        0 <= f < fend <= fluids.len(),
        0 <= p < fluids[f].positions@.len(),
    ensures
        exists|idx: int|
            0 <= idx < fluid_items_upto(fluids, deltas, fend).len() && #[trigger] fluid_items_upto(
                fluids,
                deltas,
                fend,
            )[idx] == fluid_row_items(fluids, deltas, f)[p],
    decreases fend,
{
    if f == fend - 1 {
        let base = fluid_items_upto(fluids, deltas, fend - 1).len() as int;
        assert(fluid_items_upto(fluids, deltas, fend)[base + p] == fluid_row_items(fluids, deltas, f)[p]);
    } else {
        lemma_fluid_items_index(fluids, deltas, f, p, fend - 1);
        let idx = choose|idx: int|
            0 <= idx < fluid_items_upto(fluids, deltas, fend - 1).len() && #[trigger] fluid_items_upto(
                fluids,
                deltas,
                fend - 1,
            )[idx] == fluid_row_items(fluids, deltas, f)[p];
        assert(fluid_items_upto(fluids, deltas, fend)[idx] == fluid_row_items(fluids, deltas, f)[p]);
    }
}

/// The slot of `boundary_items_upto` holding one boundary particle's item.
proof fn lemma_boundary_items_index(boundaries: Seq<Boundary>, b: int, p: int, bend: int)
    requires
        0 <= b < bend <= boundaries.len(),
        0 <= p < boundaries[b].positions@.len(),
    ensures
        exists|idx: int|
            0 <= idx < boundary_items_upto(boundaries, bend).len() && #[trigger] boundary_items_upto(
                boundaries,
                bend,
            )[idx] == boundary_row_items(boundaries, b)[p],
    decreases bend,
{
    if b == bend - 1 {
        let base = boundary_items_upto(boundaries, bend - 1).len() as int;
        assert(boundary_items_upto(boundaries, bend)[base + p] == boundary_row_items(boundaries, b)[p]);
    } else {
        lemma_boundary_items_index(boundaries, b, p, bend - 1);
        let idx = choose|idx: int|
            0 <= idx < boundary_items_upto(boundaries, bend - 1).len() && #[trigger] boundary_items_upto(
                boundaries,
                bend - 1,
            )[idx] == boundary_row_items(boundaries, b)[p];
        assert(boundary_items_upto(boundaries, bend)[idx] == boundary_row_items(boundaries, b)[p]);
    }
}

/// The insertion stream holds every particle of every set, at its effective
/// position and under its own payload.
proof fn lemma_all_items_has(
    fluids: Seq<Fluid>,
    boundaries: Seq<Boundary>,
    deltas: Option<Seq<Seq<Vect>>>,
    pl: Payload,
)
    requires
        payload_ok(pl, fluids, boundaries),
    ensures
        exists|idx: int|
            0 <= idx < all_items(fluids, boundaries, deltas).len() && #[trigger] all_items(
                fluids,
                boundaries,
                deltas,
            )[idx] == (payload_pos(fluids, boundaries, deltas, pl), pl),
{
    let items = all_items(fluids, boundaries, deltas);
    let flen = fluid_items_upto(fluids, deltas, fluids.len() as int).len() as int;
    if pl.boundary {
        lemma_boundary_items_index(boundaries, pl.model as int, pl.particle as int, boundaries.len() as int);
        let idx = choose|idx: int|
            0 <= idx < boundary_items_upto(boundaries, boundaries.len() as int).len()
                && #[trigger] boundary_items_upto(boundaries, boundaries.len() as int)[idx] == boundary_row_items(
                boundaries,
                pl.model as int,
            )[pl.particle as int];
        assert(items[flen + idx] == (payload_pos(fluids, boundaries, deltas, pl), pl));
    } else {
        lemma_fluid_items_index(fluids, deltas, pl.model as int, pl.particle as int, fluids.len() as int);
        let idx = choose|idx: int|
            0 <= idx < fluid_items_upto(fluids, deltas, fluids.len() as int).len() && #[trigger] fluid_items_upto(
                fluids,
                deltas,
                fluids.len() as int,
            )[idx] == fluid_row_items(fluids, deltas, pl.model as int)[pl.particle as int];
        assert(items[idx] == (payload_pos(fluids, boundaries, deltas, pl), pl));
    }
}

/// Model-side counterpart of the grid's 3x3 membership: a payload bucketed
/// within one cell of `(cx, cy)` is among the modelled candidates.
proof fn lemma_model_neighborhood_contains(
    items: Seq<(Vect, Payload)>,
    h: int,
    cx: int,
    cy: int,
    ncx: int,
    ncy: int,
    k: int,
)
    requires
        -1 <= ncx - cx <= 1,
        -1 <= ncy - cy <= 1,
        0 <= k < parts_model(items, h, ncx, ncy).len(),
    ensures
        model_neighborhood(items, h, cx, cy).contains(parts_model(items, h, ncx, ncy)[k]),
{
    let a = ncx - cx + 1;
    let b = ncy - cy + 1;
    let t = a * 3 + b;
    assert(0 <= t < 9);
    assert(t / 3 == a && t % 3 == b) by (nonlinear_arith)
        requires
            0 <= a < 3,
            0 <= b < 3,
            t == a * 3 + b,
    ;
    let upto = model_neighborhood_upto(items, h, cx, cy, t + 1);
    assert(upto == model_neighborhood_upto(items, h, cx, cy, t) + parts_model(items, h, ncx, ncy));
    let idx = model_neighborhood_upto(items, h, cx, cy, t).len() + k;
    assert(upto[idx as int] == parts_model(items, h, ncx, ncy)[k]);
    assert(upto.contains(parts_model(items, h, ncx, ncy)[k]));
    lemma_model_neighborhood_grows(items, h, cx, cy, parts_model(items, h, ncx, ncy)[k], t + 1, 9);
}

/// Membership in a slot prefix persists as later slots are appended.
proof fn lemma_model_neighborhood_grows(
    items: Seq<(Vect, Payload)>,
    h: int,
    cx: int,
    cy: int,
    x: Payload,
    t1: int,
    t2: int,
)
    requires
        0 <= t1 <= t2,
        model_neighborhood_upto(items, h, cx, cy, t1).contains(x),
    ensures
        model_neighborhood_upto(items, h, cx, cy, t2).contains(x),
    decreases t2 - t1,
{
    if t1 < t2 {
        let prev = model_neighborhood_upto(items, h, cx, cy, t2 - 1);
        lemma_model_neighborhood_grows(items, h, cx, cy, x, t1, t2 - 1);
        let i = choose|i: int| 0 <= i < prev.len() && prev[i] == x;
        assert(model_neighborhood_upto(items, h, cx, cy, t2)[i] == x);
    }
}

/// The effective position of any valid particle stays in the predicted
/// coordinate range.
proof fn lemma_payload_pos_bounded(
    fluids: Seq<Fluid>,
    boundaries: Seq<Boundary>,
    deltas: Option<Seq<Seq<Vect>>>,
    pl: Payload,
)
    requires
        sets_ok(fluids, boundaries),
        deltas_ok(fluids, deltas),
        payload_ok(pl, fluids, boundaries),
    ensures
        vect_bounded(payload_pos(fluids, boundaries, deltas, pl), MAX_EFF_COORD as int),
{
}

/// Neighbor completeness, the heart of contact detection: any particle `j`
/// (of the family's wanted kind) whose true effective distance from particle
/// `(m, p)` is at most `h` appears among `(m, p)`'s recorded contacts, as the
/// contact `contact_of(m, p, j)`; and conversely every recorded contact is
/// such a particle whose effective distance is at most `h`. No neighbor is
/// missed and no false pair is recorded.
pub proof fn lemma_neighbor_complete(
    fam: ContactFamily,
    fluids: Seq<Fluid>,
    boundaries: Seq<Boundary>,
    deltas: Option<Seq<Seq<Vect>>>,
    h: int,
    m: int,
    p: int,
    pl: Payload,
)
    requires
        1 <= h <= MAX_COORD as int,
        sets_ok(fluids, boundaries),
        deltas_ok(fluids, deltas),
        payload_ok(pl, fluids, boundaries),
        pl.boundary == !(fam is FluidFluid),
        if fam is BoundaryBoundary {
            0 <= m < boundaries.len() && 0 <= p < boundaries[m].positions@.len()
        } else {
            0 <= m < fluids.len() && 0 <= p < fluids[m].positions@.len()
        },
        ({
            let pos_i = if fam is BoundaryBoundary {
                boundary_pos(boundaries, m, p)
            } else {
                fluid_pos(fluids, deltas, m, p)
            };
            true_dist2(pos_i, payload_pos(fluids, boundaries, deltas, pl)) <= h * h
        }),
    ensures
        family_row(fam, fluids, boundaries, deltas, h, m, p).contains(contact_of(m, p, pl)),
{
    let items = all_items(fluids, boundaries, deltas);
    let pos_i = if fam is BoundaryBoundary {
        boundary_pos(boundaries, m, p)
    } else {
        fluid_pos(fluids, deltas, m, p)
    };
    let pos_j = payload_pos(fluids, boundaries, deltas, pl);
    lemma_payload_pos_bounded(fluids, boundaries, deltas, pl);
    assert(vect_bounded(pos_i, MAX_EFF_COORD as int));
    crate::math::lemma_dist2_exact(pos_i, pos_j);
    assert(accepts(fluids, boundaries, deltas, h, pos_i, pl));
    lemma_all_items_has(fluids, boundaries, deltas, pl);
    let idx = choose|idx: int|
        0 <= idx < items.len() && #[trigger] items[idx] == (pos_j, pl);
    lemma_parts_model_complete(items, h, idx);
    let cj = cell_of_spec(pos_j, h);
    let ci = cell_of_spec(pos_i, h);
    let k = choose|k: int|
        0 <= k < parts_model(items, h, cj.0, cj.1).len() && parts_model(items, h, cj.0, cj.1)[k] == pl;
    crate::grid::lemma_cells_adjacent(pos_i, pos_j, h);
    lemma_model_neighborhood_contains(items, h, ci.0, ci.1, cj.0, cj.1, k);
    let cands = model_neighborhood(items, h, ci.0, ci.1);
    let ck = choose|ck: int| 0 <= ck < cands.len() && cands[ck] == pl;
    lemma_row_filter_contains(cands, !(fam is FluidFluid), fluids, boundaries, deltas, h, pos_i, m, p, ck);
}

/// No false positives: every contact a family row records names a valid
/// particle of the family's wanted kind whose true effective distance from
/// the recording particle is at most `h`.
pub proof fn lemma_no_false_positive(
    fam: ContactFamily,
    fluids: Seq<Fluid>,
    boundaries: Seq<Boundary>,
    deltas: Option<Seq<Seq<Vect>>>,
    h: int,
    m: int,
    p: int,
    k: int,
)
    requires
        1 <= h <= MAX_COORD as int,
        sets_ok(fluids, boundaries),
        deltas_ok(fluids, deltas),
        0 <= k < family_row(fam, fluids, boundaries, deltas, h, m, p).len(),
    ensures
        exists|pl: Payload|
            {
                let pos_i = if fam is BoundaryBoundary {
                    boundary_pos(boundaries, m, p)
                } else {
                    fluid_pos(fluids, deltas, m, p)
                };
                &&& pl.boundary == !(fam is FluidFluid)
                &&& family_row(fam, fluids, boundaries, deltas, h, m, p)[k] == contact_of(m, p, pl)
                &&& dist2_spec(pos_i, #[trigger] payload_pos(fluids, boundaries, deltas, pl)) <= h * h
            },
{
    let pos_i = if fam is BoundaryBoundary {
        boundary_pos(boundaries, m, p)
    } else {
        fluid_pos(fluids, deltas, m, p)
    };
    let items = all_items(fluids, boundaries, deltas);
    let ci = cell_of_spec(pos_i, h);
    let cands = model_neighborhood(items, h, ci.0, ci.1);
    lemma_row_filter_sound(cands, !(fam is FluidFluid), fluids, boundaries, deltas, h, pos_i, m, p, k);
}

/// Neighbor completeness on a produced list: any particle of the family's
/// wanted kind whose true effective distance from `(m, p)` is at most `h` is
/// recorded inside `p`'s own range of the flat contact array.
pub proof fn lemma_neighbor_recorded(
    fam: ContactFamily,
    pc: ParticlesContacts,
    fluids: Seq<Fluid>,
    boundaries: Seq<Boundary>,
    deltas: Option<Seq<Seq<Vect>>>,
    h: int,
    m: int,
    p: int,
    pl: Payload,
)
    requires
        family_matches(fam, pc, fluids, boundaries, deltas, h, m),
        1 <= h <= MAX_COORD as int,
        sets_ok(fluids, boundaries),
        deltas_ok(fluids, deltas),
        payload_ok(pl, fluids, boundaries),
        pl.boundary == !(fam is FluidFluid),
        if fam is BoundaryBoundary {
            0 <= m < boundaries.len() && 0 <= p < boundaries[m].positions@.len()
        } else {
            0 <= m < fluids.len() && 0 <= p < fluids[m].positions@.len()
        },
        p < family_model_len(fam, fluids, boundaries, m),
        ({
            let pos_i = if fam is BoundaryBoundary {
                boundary_pos(boundaries, m, p)
            } else {
                fluid_pos(fluids, deltas, m, p)
            };
            true_dist2(pos_i, payload_pos(fluids, boundaries, deltas, pl)) <= h * h
        }),
    ensures
        exists|k: int|
            pc.ranges_seq()[p].start <= k < pc.ranges_seq()[p].end && #[trigger] pc.contacts_seq()[k]
                == contact_of(m, p, pl),
{
    lemma_neighbor_complete(fam, fluids, boundaries, deltas, h, m, p, pl);
    lemma_range_partition(fam, pc, fluids, boundaries, deltas, h, m, p);
    let row = family_row(fam, fluids, boundaries, deltas, h, m, p);
    let idx = choose|idx: int| 0 <= idx < row.len() && row[idx] == contact_of(m, p, pl);
    let start = pc.ranges_seq()[p].start as int;
    assert(pc.contacts_seq().subrange(start, pc.ranges_seq()[p].end as int)[idx] == row[idx]);
    assert(pc.contacts_seq()[start + idx] == contact_of(m, p, pl));
}

/// No false positives on a produced list: every contact inside `p`'s range
/// names a particle of the family's wanted kind whose saturating effective
/// distance from `(m, p)` is at most `h`.
pub proof fn lemma_recorded_within_radius(
    fam: ContactFamily,
    pc: ParticlesContacts,
    fluids: Seq<Fluid>,
    boundaries: Seq<Boundary>,
    deltas: Option<Seq<Seq<Vect>>>,
    h: int,
    m: int,
    p: int,
    k: int,
)
    requires
        family_matches(fam, pc, fluids, boundaries, deltas, h, m),
        1 <= h <= MAX_COORD as int,
        sets_ok(fluids, boundaries),
        deltas_ok(fluids, deltas),
        0 <= p < family_model_len(fam, fluids, boundaries, m),
        pc.ranges_seq()[p].start <= k < pc.ranges_seq()[p].end,
    ensures
        exists|pl: Payload|
            {
                let pos_i = if fam is BoundaryBoundary {
                    boundary_pos(boundaries, m, p)
                } else {
                    fluid_pos(fluids, deltas, m, p)
                };
                &&& pl.boundary == !(fam is FluidFluid)
                &&& pc.contacts_seq()[k] == contact_of(m, p, pl)
                &&& dist2_spec(pos_i, #[trigger] payload_pos(fluids, boundaries, deltas, pl)) <= h * h
            },
{
    lemma_range_partition(fam, pc, fluids, boundaries, deltas, h, m, p);
    let row = family_row(fam, fluids, boundaries, deltas, h, m, p);
    let start = pc.ranges_seq()[p].start as int;
    assert(pc.contacts_seq().subrange(start, pc.ranges_seq()[p].end as int)[k - start] == row[k - start]);
    lemma_no_false_positive(fam, fluids, boundaries, deltas, h, m, p, k - start);
}

/// One-sidedness: a fluid-boundary pair within range is always recorded from
/// the fluid side (this is `lemma_neighbor_complete` for the fluid-boundary
/// family), while the boundary-boundary family — the only family whose `i` is
/// a boundary particle — only ever records boundary neighbors, so no
/// boundary-as-`i`/fluid-as-`j` contact exists in any list.
pub proof fn lemma_one_sidedness(
    fluids: Seq<Fluid>,
    boundaries: Seq<Boundary>,
    deltas: Option<Seq<Seq<Vect>>>,
    h: int,
    f: int,
    p: int,
    bm: int,
    bp: int,
)
    requires
        1 <= h <= MAX_COORD as int,
        sets_ok(fluids, boundaries),
        deltas_ok(fluids, deltas),
        0 <= f < fluids.len(),
        0 <= p < fluids[f].positions@.len(),
        0 <= bm < boundaries.len(),
        0 <= bp < boundaries[bm].positions@.len(),
        bm <= usize::MAX as int,
        bp <= usize::MAX as int,
        true_dist2(fluid_pos(fluids, deltas, f, p), boundary_pos(boundaries, bm, bp)) <= h * h,
    ensures
        family_row(ContactFamily::FluidBoundary, fluids, boundaries, deltas, h, f, p).contains(
            contact_of(f, p, Payload { model: bm as usize, particle: bp as usize, boundary: true }),
        ),
        forall|q: int, k: int|
            0 <= k < family_row(ContactFamily::BoundaryBoundary, fluids, boundaries, deltas, h, q, p).len()
                ==> exists|pl: Payload| #[trigger]
                family_row(ContactFamily::BoundaryBoundary, fluids, boundaries, deltas, h, q, p)[k]
                    == contact_of(q, p, pl) && pl.boundary,
{
    let pl = Payload { model: bm as usize, particle: bp as usize, boundary: true };
    lemma_neighbor_complete(ContactFamily::FluidBoundary, fluids, boundaries, deltas, h, f, p, pl);
    assert forall|q: int, k: int|
        0 <= k < family_row(ContactFamily::BoundaryBoundary, fluids, boundaries, deltas, h, q, p).len()
            implies exists|pl2: Payload| #[trigger]
        family_row(ContactFamily::BoundaryBoundary, fluids, boundaries, deltas, h, q, p)[k]
            == contact_of(q, p, pl2) && pl2.boundary by {
        let pos_i = boundary_pos(boundaries, q, p);
        let items = all_items(fluids, boundaries, deltas);
        let ci = cell_of_spec(pos_i, h);
        let cands = model_neighborhood(items, h, ci.0, ci.1);
        lemma_row_filter_sound(cands, true, fluids, boundaries, deltas, h, pos_i, q, p, k);
    }
}

} // verus!
