use vstd::prelude::*;
use crate::math::{Vect, sat_mul_spec, sat_sub_spec, vsub_spec, norm_squared_spec, vscale_spec, sat_mul, sat_sub};
use crate::contacts::{Contact, ParticlesContacts};
use crate::fluid::Fluid;
use crate::boundary::Boundary;

verus! {

/// The smoothing-kernel value at squared separation `d2` for support radius
/// `h`: the quadratic bump `h*h - d2`, zero outside the support.
pub open spec fn kernel_weight_spec(d2: int, h: int) -> int {
    let hh = sat_mul_spec(h, h);
    if d2 <= hh {
        sat_sub_spec(hh, d2)
    } else {
        0
    }
}

/// The spatial derivative of the kernel with respect to the first particle's
/// position: `-2 r` inside the support (the exact gradient of `h*h - |r|^2`),
/// zero outside. Antisymmetric in the pair by construction.
pub open spec fn kernel_gradient_spec(r: Vect, h: int) -> Vect {
    let hh = sat_mul_spec(h, h);
    if norm_squared_spec(r) <= hh {
        vscale_spec(r, -2)
    } else {
        Vect { x: 0i64, y: 0i64 }
    }
}

/// Evaluates the kernel for one separation vector.
pub fn kernel_eval(r: Vect, h: i64) -> (wg: (i64, Vect))
    ensures
        wg.0 as int == kernel_weight_spec(norm_squared_spec(r), h as int),
        wg.1 == kernel_gradient_spec(r, h as int),
{
    let d2 = r.norm_squared();
    let hh = sat_mul(h, h);
    if d2 <= hh {
        (sat_sub(hh, d2), r.scale(-2))
    } else {
        (0, Vect::zero())
    }
}

/// The stored position of one side of a contact: a fluid's or a boundary's
/// particle, depending on which kind of model that side names.
pub open spec fn side_pos(fluids: Seq<Fluid>, boundaries: Seq<Boundary>, is_boundary: bool, m: int, p: int) -> Vect {
    if is_boundary {
        boundaries[m].positions@[p]
    } else {
        fluids[m].positions@[p]
    }
}

/// Both sides of a contact name real particles, for the given side kinds.
pub open spec fn contact_sides_ok(
    c: Contact,
    fluids: Seq<Fluid>,
    boundaries: Seq<Boundary>,
    i_boundary: bool,
    j_boundary: bool,
) -> bool {
    &&& if i_boundary {
        (c.i_model as int) < boundaries.len() && (c.i as int) < boundaries[c.i_model as int].positions@.len()
    } else {
        (c.i_model as int) < fluids.len() && (c.i as int) < fluids[c.i_model as int].positions@.len()
    }
    &&& if j_boundary {
        (c.j_model as int) < boundaries.len() && (c.j as int) < boundaries[c.j_model as int].positions@.len()
    } else {
        (c.j_model as int) < fluids.len() && (c.j as int) < fluids[c.j_model as int].positions@.len()
    }
}

/// The separation a contact's kernel is evaluated at.
pub open spec fn contact_sep(
    c: Contact,
    fluids: Seq<Fluid>,
    boundaries: Seq<Boundary>,
    i_boundary: bool,
    j_boundary: bool,
) -> Vect {
    vsub_spec(
        side_pos(fluids, boundaries, i_boundary, c.i_model as int, c.i as int),
        side_pos(fluids, boundaries, j_boundary, c.j_model as int, c.j as int),
    )
}

/// A contact list with its kernel fields filled from the pairs' stored
/// separations: what one bulk kernel-evaluation pass produces.
pub open spec fn with_kernels(
    contacts: Seq<Contact>,
    fluids: Seq<Fluid>,
    boundaries: Seq<Boundary>,
    i_boundary: bool,
    j_boundary: bool,
    h: int,
) -> Seq<Contact> {
    Seq::new(
        contacts.len(),
        |k: int| Contact {
            weight: kernel_weight_spec(
                norm_squared_spec(contact_sep(contacts[k], fluids, boundaries, i_boundary, j_boundary)),
                h,
            ) as i64,
            gradient: kernel_gradient_spec(contact_sep(contacts[k], fluids, boundaries, i_boundary, j_boundary), h),
            ..contacts[k]
        },
    )
}

/// One shared kernel-evaluation pass over one contact list: fills `weight`
/// and `gradient` of every contact from the pair's stored separation; the
/// pair's indices are never changed. The two flags say which kind of model
/// each side of the list names. Kernels are deliberately evaluated at the
/// stored (committed) positions, not at delta-predicted ones: the prediction
/// only decides which pairs are in contact, while the kernel measures the
/// pair's present geometry.
pub fn evaluate_kernels(
    pc: &mut ParticlesContacts,
    fluids: &Vec<Fluid>,
    boundaries: &Vec<Boundary>,
    i_boundary: bool,
    j_boundary: bool,
    h: i64,
)
    requires
        forall|k: int|
            0 <= k < old(pc).contacts_seq().len() ==> contact_sides_ok(
                #[trigger] old(pc).contacts_seq()[k],
                fluids@,
                boundaries@,
                i_boundary,
                j_boundary,
            ),
    ensures
        final(pc).ranges_seq() == old(pc).ranges_seq(),
        final(pc).contacts_seq().len() == old(pc).contacts_seq().len(),
        final(pc).contacts_seq() == with_kernels(
            old(pc).contacts_seq(),
            fluids@,
            boundaries@,
            i_boundary,
            j_boundary,
            h as int,
        ),
        forall|k: int|
            0 <= k < old(pc).contacts_seq().len() ==> #[trigger] final(pc).contacts_seq()[k] == (Contact {
                weight: kernel_weight_spec(
                    norm_squared_spec(
                        contact_sep(old(pc).contacts_seq()[k], fluids@, boundaries@, i_boundary, j_boundary),
                    ),
                    h as int,
                ) as i64,
                gradient: kernel_gradient_spec(
                    contact_sep(old(pc).contacts_seq()[k], fluids@, boundaries@, i_boundary, j_boundary),
                    h as int,
                ),
                ..old(pc).contacts_seq()[k]
            }),
        old(pc).wf() ==> final(pc).wf(),
{
    let ghost oldc = pc.contacts_seq();
    let n = pc.num_contacts();
    let mut k: usize = 0;
    while k < n
        invariant
            k <= n,
            n == oldc.len(),
            pc.contacts_seq().len() == oldc.len(),
            pc.ranges_seq() == old(pc).ranges_seq(),
            old(pc).wf() ==> pc.wf(),
            forall|j: int|
                0 <= j < oldc.len() ==> contact_sides_ok(#[trigger] oldc[j], fluids@, boundaries@, i_boundary, j_boundary),
            forall|j: int|
                k as int <= j < oldc.len() ==> #[trigger] pc.contacts_seq()[j] == oldc[j],
            forall|j: int|
                0 <= j < k as int ==> #[trigger] pc.contacts_seq()[j] == (Contact {
                    weight: kernel_weight_spec(
                        norm_squared_spec(contact_sep(oldc[j], fluids@, boundaries@, i_boundary, j_boundary)),
                        h as int,
                    ) as i64,
                    gradient: kernel_gradient_spec(
                        contact_sep(oldc[j], fluids@, boundaries@, i_boundary, j_boundary),
                        h as int,
                    ),
                    ..oldc[j]
                }),
        decreases n - k,
    {
        let c = pc.contact_at(k);
        let pi = if i_boundary {
            boundaries[c.i_model].positions[c.i]
        } else {
            fluids[c.i_model].positions[c.i]
        };
        let pj = if j_boundary {
            boundaries[c.j_model].positions[c.j]
        } else {
            fluids[c.j_model].positions[c.j]
        };
        let r = pi.sub(&pj);
        let (w, g) = kernel_eval(r, h);
        pc.set_kernel(k, w, g);
        k = k + 1;
    }
    proof {
        assert(pc.contacts_seq() =~= with_kernels(oldc, fluids@, boundaries@, i_boundary, j_boundary, h as int));
    }
}

} // verus!
