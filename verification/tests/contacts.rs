use salva::boundary::Boundary;
use salva::contacts::{compute_contacts, ParticlesContacts};
use salva::fluid::Fluid;
use salva::math::Vect;

fn fluid_at(points: &[(i64, i64)], volume: i64, density0: i64) -> Fluid {
    let positions: Vec<Vect> = points.iter().map(|&(x, y)| Vect::new(x, y)).collect();
    let n = positions.len();
    let velocities = vec![Vect::zero(); n];
    let volumes = vec![volume; n];
    Fluid::new(positions, velocities, volumes, density0)
}

fn boundary_at(points: &[(i64, i64)], volume: i64) -> Boundary {
    let positions: Vec<Vect> = points.iter().map(|&(x, y)| Vect::new(x, y)).collect();
    let n = positions.len();
    Boundary::new(positions, vec![volume; n])
}

fn detect(
    h: i64,
    fluids: &Vec<Fluid>,
    boundaries: &Vec<Boundary>,
) -> (Vec<ParticlesContacts>, Vec<ParticlesContacts>, Vec<ParticlesContacts>) {
    let mut ff = Vec::new();
    let mut fb = Vec::new();
    let mut bb = Vec::new();
    compute_contacts(h, fluids, boundaries, None, &mut ff, &mut fb, &mut bb);
    (ff, fb, bb)
}

fn recorded_js(pc: &ParticlesContacts, i: usize) -> Vec<(usize, usize)> {
    pc.particle_contacts(i).iter().map(|c| (c.j_model, c.j)).collect()
}

#[test]
fn neighbor_completeness_within_radius() {
    // particles 0 and 1 are within h of each other, particle 2 is far away
    let fluids = vec![fluid_at(&[(0, 0), (60, 80), (5000, 5000)], 1, 1000)];
    let boundaries = Vec::new();
    let (ff, _, _) = detect(100, &fluids, &boundaries);
    // distance(p0, p1) = 100 == h: recorded both ways, plus each self-pair
    let js0 = recorded_js(&ff[0], 0);
    assert!(js0.contains(&(0, 0)));
    assert!(js0.contains(&(0, 1)));
    assert!(!js0.contains(&(0, 2)));
    let js1 = recorded_js(&ff[0], 1);
    assert!(js1.contains(&(0, 0)));
    assert!(js1.contains(&(0, 1)));
    let js2 = recorded_js(&ff[0], 2);
    assert_eq!(js2, vec![(0, 2)]);
}

#[test]
fn no_false_positives_beyond_radius() {
    // distance 101 > h = 100: only the self-pairs are recorded
    let fluids = vec![fluid_at(&[(0, 0), (101, 0)], 1, 1000)];
    let boundaries = Vec::new();
    let (ff, _, _) = detect(100, &fluids, &boundaries);
    assert_eq!(recorded_js(&ff[0], 0), vec![(0, 0)]);
    assert_eq!(recorded_js(&ff[0], 1), vec![(0, 1)]);
}

#[test]
fn range_partition_tiles_flat_array() {
    let fluids = vec![fluid_at(&[(0, 0), (10, 0), (20, 0), (9000, 9000)], 1, 1000)];
    let boundaries = Vec::new();
    let (ff, _, _) = detect(100, &fluids, &boundaries);
    let pc = &ff[0];
    assert_eq!(pc.num_particles(), 4);
    let mut expected_start = 0;
    let mut total = 0;
    for i in 0..4 {
        let rg = pc.particle_range(i);
        assert_eq!(rg.start, expected_start);
        assert!(rg.start <= rg.end);
        assert_eq!(rg.end - rg.start, pc.particle_contacts(i).len());
        expected_start = rg.end;
        total += rg.end - rg.start;
    }
    assert_eq!(total, pc.contacts().len());
    // every contact in particle i's range has i as its first particle
    for i in 0..4 {
        for c in pc.particle_contacts(i) {
            assert_eq!(c.i, i);
            assert_eq!(c.i_model, 0);
        }
    }
}

#[test]
fn one_sidedness_boundary_pairs() {
    let fluids = vec![fluid_at(&[(0, 0)], 1, 1000)];
    let boundaries = vec![boundary_at(&[(30, 0)], 1)];
    let (ff, fb, bb) = detect(100, &fluids, &boundaries);
    // the fluid-boundary pair is recorded with the fluid as i
    let js = recorded_js(&fb[0], 0);
    assert_eq!(js, vec![(0, 0)]);
    // the boundary's own list records only boundary neighbors (here itself),
    // never the fluid
    let bjs = recorded_js(&bb[0], 0);
    assert_eq!(bjs, vec![(0, 0)]);
    // the fluid-fluid list holds only the fluid self-pair
    assert_eq!(recorded_js(&ff[0], 0), vec![(0, 0)]);
}

#[test]
fn determinism_identical_runs() {
    let fluids = vec![
        fluid_at(&[(0, 0), (50, 50), (-70, 30), (400, -400)], 2, 500),
        fluid_at(&[(25, 25), (-100, -100)], 3, 800),
    ];
    let boundaries = vec![boundary_at(&[(10, 10), (-50, 60)], 1)];
    let (ff1, fb1, bb1) = detect(100, &fluids, &boundaries);
    let (ff2, fb2, bb2) = detect(100, &fluids, &boundaries);
    for (a, b) in ff1.iter().zip(ff2.iter()).chain(fb1.iter().zip(fb2.iter())).chain(bb1.iter().zip(bb2.iter())) {
        assert_eq!(a.contacts(), b.contacts());
        assert_eq!(a.num_particles(), b.num_particles());
        for i in 0..a.num_particles() {
            assert_eq!(a.particle_range(i), b.particle_range(i));
        }
    }
}

#[test]
fn empty_range_for_isolated_particle() {
    let fluids = vec![fluid_at(&[(0, 0)], 1, 1000)];
    let boundaries = Vec::new();
    let (ff, fb, _) = detect(100, &fluids, &boundaries);
    // the self-pair is always within range; the boundary list is empty
    assert_eq!(ff[0].particle_contacts(0).len(), 1);
    assert_eq!(fb[0].particle_contacts(0).len(), 0);
    let rg = fb[0].particle_range(0);
    assert_eq!(rg.start, rg.end);
}

#[test]
fn predicted_deltas_shift_detection() {
    // 200 apart: out of range at stored positions, in range once the deltas
    // that predict their movement are applied
    let fluids = vec![fluid_at(&[(0, 0), (200, 0)], 1, 1000)];
    let boundaries = Vec::new();
    let deltas = vec![vec![Vect::new(60, 0), Vect::new(-60, 0)]];
    let mut ff = Vec::new();
    let mut fb = Vec::new();
    let mut bb = Vec::new();
    compute_contacts(100, &fluids, &boundaries, Some(&deltas), &mut ff, &mut fb, &mut bb);
    let js0 = recorded_js(&ff[0], 0);
    assert!(js0.contains(&(0, 1)));
}
