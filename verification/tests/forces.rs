use salva::boundary::Boundary;
use salva::contacts::compute_contacts;
use salva::fluid::Fluid;
use salva::kernel::{evaluate_kernels, kernel_eval};
use salva::math::Vect;
use salva::pressure::compute_densities;
use salva::viscosity::ArtificialViscosity;

fn two_approaching() -> (Fluid, Vec<Boundary>) {
    let positions = vec![Vect::new(0, 0), Vect::new(50, 0)];
    let velocities = vec![Vect::new(1, 0), Vect::new(-1, 0)];
    let volumes = vec![100, 100];
    (Fluid::new(positions, velocities, volumes, 1000), Vec::new())
}

#[test]
fn kernel_values_and_antisymmetry() {
    // weight is the quadratic bump h*h - d2; gradient is -2 r
    let (w, g) = kernel_eval(Vect::new(30, 40), 100);
    assert_eq!(w, 10000 - 2500);
    assert_eq!(g, Vect::new(-60, -80));
    let (w2, g2) = kernel_eval(Vect::new(-30, -40), 100);
    assert_eq!(w2, w);
    assert_eq!(g2, Vect::new(60, 80));
    // outside the support both vanish
    let (w3, g3) = kernel_eval(Vect::new(101, 0), 100);
    assert_eq!(w3, 0);
    assert_eq!(g3, Vect::new(0, 0));
}

#[test]
fn viscosity_pair_equal_and_opposite() {
    // two fluid particles of one model, 0.5 h apart, approaching head-on,
    // zero gravity: after one viscosity pass the accelerations are non-zero,
    // opposite to each particle's motion, and exactly equal and opposite
    let h = 100;
    let (mut fluid, boundaries) = two_approaching();
    let fluids_ro = vec![fluid];
    let mut ff = Vec::new();
    let mut fb = Vec::new();
    let mut bb = Vec::new();
    compute_contacts(h, &fluids_ro, &boundaries, None, &mut ff, &mut fb, &mut bb);
    evaluate_kernels(&mut ff[0], &fluids_ro, &boundaries, false, false, h);
    evaluate_kernels(&mut fb[0], &fluids_ro, &boundaries, false, true, h);
    let densities = compute_densities(&ff[0], &fb[0], &fluids_ro, &boundaries, h);
    assert_eq!(densities, vec![175, 175]);
    fluid = fluids_ro.into_iter().next().unwrap();
    let visc = ArtificialViscosity::new(1);
    assert_eq!(visc.alpha, 1);
    assert_eq!(visc.beta, 0);
    assert_eq!(visc.speed_of_sound, 10);
    visc.solve(1, 1, h, &ff[0], &mut fluid, &densities);
    let a0 = fluid.accelerations[0];
    let a1 = fluid.accelerations[1];
    // exact value: mu = 100*(-100)/2601 = -3, f = 10*-3 = -30,
    // vt = 100*1000/175 = 571, s = -17130, gradient = (100, 0) for (0,1)
    assert_eq!(a0, Vect::new(-1_713_000, 0));
    assert_eq!(a1, Vect::new(1_713_000, 0));
    // equal magnitude, opposite direction: momentum is conserved
    assert_eq!(a0.x, -a1.x);
    assert_eq!(a0.y, -a1.y);
    // particle 0 moves in +x and is pushed in -x: the approach is damped
    assert!(a0.x < 0);
    assert!(a1.x > 0);
}

#[test]
fn viscosity_ignores_separating_pair() {
    // same geometry but receding velocities: v.r >= 0, no force at all
    let h = 100;
    let positions = vec![Vect::new(0, 0), Vect::new(50, 0)];
    let velocities = vec![Vect::new(-1, 0), Vect::new(1, 0)];
    let volumes = vec![100, 100];
    let fluids_ro = vec![Fluid::new(positions, velocities, volumes, 1000)];
    let boundaries = Vec::new();
    let mut ff = Vec::new();
    let mut fb = Vec::new();
    let mut bb = Vec::new();
    compute_contacts(h, &fluids_ro, &boundaries, None, &mut ff, &mut fb, &mut bb);
    evaluate_kernels(&mut ff[0], &fluids_ro, &boundaries, false, false, h);
    let densities = vec![175, 175];
    let mut fluid = fluids_ro.into_iter().next().unwrap();
    let visc = ArtificialViscosity::new(1);
    visc.solve(1, 1, h, &ff[0], &mut fluid, &densities);
    assert_eq!(fluid.accelerations[0], Vect::new(0, 0));
    assert_eq!(fluid.accelerations[1], Vect::new(0, 0));
}

#[test]
fn viscosity_permutation_hook_is_stateless() {
    let mut visc = ArtificialViscosity::new(7);
    visc.apply_permutation(&vec![1, 0]);
    assert_eq!(visc.viscosity_coefficient, 7);
}
