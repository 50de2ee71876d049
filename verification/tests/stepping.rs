use salva::boundary::Boundary;
use salva::fluid::Fluid;
use salva::math::Vect;
use salva::timestep::TimestepManager;
use salva::world::LiquidWorld;

fn single_particle_world() -> LiquidWorld {
    // particle_radius 5, smoothing_factor 2: h = 20
    let mut world = LiquidWorld::new(5, 2);
    let fluid = Fluid::new(vec![Vect::new(100, 100)], vec![Vect::zero()], vec![1], 1000);
    world.add_fluid(fluid);
    world
}

#[test]
fn free_fall_without_neighbors() {
    // a single fluid particle with no neighbors within h: viscosity adds
    // nothing, its density (its own volume) is far below the rest density so
    // the pressure correction is zero, and one step is exact free fall
    let mut world = single_particle_world();
    assert_eq!(world.h(), 20);
    assert_eq!(world.particle_radius(), 5);
    let gravity = Vect::new(0, -2);
    world.step(3, &gravity);
    let fluid = &world.fluids()[0];
    // v = g*dt = (0, -6); p = p0 + v*dt = (100, 100 - 18)
    assert_eq!(fluid.velocities[0], Vect::new(0, -6));
    assert_eq!(fluid.positions[0], Vect::new(100, 82));
}

#[test]
fn rest_grid_stays_at_rest() {
    // a grid of particles at exact rest-density spacing (spacing h, so each
    // particle's kernel sum is its own volume, equal to the rest density)
    // with zero velocity and zero gravity: a step moves nothing
    let mut world = LiquidWorld::new(5, 2);
    let h = world.h();
    assert_eq!(h, 20);
    let mut points = Vec::new();
    for ix in 0..3i64 {
        for iy in 0..3i64 {
            points.push(Vect::new(ix * h, iy * h));
        }
    }
    let n = points.len();
    let fluid = Fluid::new(points.clone(), vec![Vect::zero(); n], vec![500; n], 500);
    world.add_fluid(fluid);
    world.step(1, &Vect::zero());
    let fluid = &world.fluids()[0];
    for i in 0..n {
        assert_eq!(fluid.positions[i], points[i]);
        assert_eq!(fluid.velocities[i], Vect::zero());
    }
}

#[test]
fn compressed_pair_is_pushed_apart() {
    // two overlapping particles whose density exceeds the rest density are
    // pushed apart by the pressure correction
    let mut world = LiquidWorld::new(5, 2);
    let fluid = Fluid::new(
        vec![Vect::new(0, 0), Vect::new(4, 0)],
        vec![Vect::zero(), Vect::zero()],
        vec![100, 100],
        50,
    );
    world.add_fluid(fluid);
    world.step(1, &Vect::zero());
    let fluid = &world.fluids()[0];
    let x0 = fluid.positions[0].x;
    let x1 = fluid.positions[1].x;
    // the gap grew
    assert!(x1 - x0 > 4);
    // and symmetrically: both moved the same distance outward
    assert_eq!(x0 - 0, -(x1 - 4));
}

#[test]
fn boundaries_never_move() {
    let mut world = single_particle_world();
    let boundary = Boundary::new(vec![Vect::new(100, 60)], vec![1]);
    let handle = world.add_boundary(boundary);
    assert_eq!(handle, 0);
    world.step(2, &Vect::new(0, -1));
    assert_eq!(world.boundaries()[0].positions[0], Vect::new(100, 60));
}

#[test]
fn substeps_sum_to_frame() {
    let tm = TimestepManager::with_substeps(4);
    let subs = tm.substeps(10);
    assert_eq!(subs.len(), 4);
    assert_eq!(subs.iter().sum::<i64>(), 10);
    assert!(subs.iter().all(|&s| s >= 1));
    // a frame shorter than the configured sub-step count still splits into
    // positive parts
    let short = tm.substeps(3);
    assert_eq!(short.len(), 3);
    assert_eq!(short.iter().sum::<i64>(), 3);
    // the default manager runs whole frames
    let tm1 = TimestepManager::new();
    assert_eq!(tm1.substeps(7), vec![7]);
}
