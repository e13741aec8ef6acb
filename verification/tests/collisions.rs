use gravity_sandbox::sim::Simulation;

const UNIT: i64 = 1_000_000;

#[test]
fn head_on_equal_masses_exchange_normal_velocity() {
    // two equal bodies of radius 20 at distance 30, closing head on
    let mut sim = Simulation::new();
    sim.spawn(0, 0, 2 * UNIT, 0, UNIT, 20 * UNIT);
    sim.spawn(30 * UNIT, 0, -2 * UNIT, 0, UNIT, 20 * UNIT);
    sim.set_collisions_enabled(true);
    sim.tick(0);
    let a = sim.get_body(0);
    let b = sim.get_body(1);
    // the normal-component velocities are exchanged: both reverse, and the
    // outcome stays exactly symmetric
    assert_eq!(a.v_x, -b.v_x);
    assert!(a.v_x < 0);
    assert!(b.v_x > 0);
    assert!((a.v_x + 2 * UNIT).abs() < 15_000);
    assert!((b.v_x - 2 * UNIT).abs() < 15_000);
    // the exact outcome of the truncating impulse arithmetic
    assert_eq!(a.v_x, -1_987_728);
    assert_eq!(b.v_x, 1_987_728);
    assert_eq!(a.v_y, 0);
    assert_eq!(b.v_y, 0);
    // the de-penetration push: half the overlap each way, so the center
    // distance afterwards is exactly the sum of the radii
    assert_eq!(a.x, -5 * UNIT);
    assert_eq!(b.x, 35 * UNIT);
    assert_eq!(b.x - a.x, 40 * UNIT);
}

#[test]
fn separated_bodies_are_left_alone() {
    let mut sim = Simulation::new();
    sim.spawn(0, 0, UNIT, 0, UNIT, 20 * UNIT);
    sim.spawn(50 * UNIT, 0, -UNIT, 0, UNIT, 20 * UNIT);
    sim.set_collisions_enabled(true);
    sim.tick(0);
    let a = sim.get_body(0);
    let b = sim.get_body(1);
    assert_eq!((a.x, a.v_x), (0, UNIT));
    assert_eq!((b.x, b.v_x), (50 * UNIT, -UNIT));
}

#[test]
fn disabled_resolver_lets_bodies_overlap() {
    let mut sim = Simulation::new();
    sim.spawn(0, 0, 2 * UNIT, 0, UNIT, 20 * UNIT);
    sim.spawn(30 * UNIT, 0, -2 * UNIT, 0, UNIT, 20 * UNIT);
    sim.tick(0);
    let a = sim.get_body(0);
    let b = sim.get_body(1);
    // velocities and positions untouched: only gravity ran
    assert_eq!((a.x, a.v_x), (0, 2 * UNIT));
    assert_eq!((b.x, b.v_x), (30 * UNIT, -2 * UNIT));
}

#[test]
fn mirrored_pair_stays_mirrored_through_collisions() {
    // the two bodies fall toward each other, collide and bounce; the state
    // stays an exact mirror image throughout
    let mut sim = Simulation::new();
    sim.spawn(150 * UNIT, 0, 0, 0, 5 * UNIT, 20 * UNIT);
    sim.spawn(-150 * UNIT, 0, 0, 0, 5 * UNIT, 20 * UNIT);
    sim.set_collisions_enabled(true);
    let mut bounced = false;
    for _ in 0..400 {
        sim.tick(16_667);
        let a = sim.get_body(0);
        let b = sim.get_body(1);
        assert_eq!(b.x, -a.x);
        assert_eq!(b.y, -a.y);
        assert_eq!(b.v_x, -a.v_x);
        assert_eq!(b.v_y, -a.v_y);
        // the body that started on the positive side fell inward; a
        // positive velocity can only come from the collision impulse
        if a.v_x > 0 {
            bounced = true;
        }
    }
    assert!(bounced);
}

#[test]
fn coinciding_centers_use_the_fallback_normal() {
    // both bodies at the same point: the normal degenerates and falls back
    // to the unit direction along positive x, so the push separates them
    // horizontally and every value stays defined
    let mut sim = Simulation::new();
    sim.spawn(0, 0, 0, 0, UNIT, 2 * UNIT);
    sim.spawn(0, 0, 0, 0, UNIT, 3 * UNIT);
    sim.set_collisions_enabled(true);
    sim.tick(0);
    let a = sim.get_body(0);
    let b = sim.get_body(1);
    // half of the five-unit overlap each way, along positive x
    assert_eq!(a.x, -2_500_000);
    assert_eq!(b.x, 2_500_000);
    assert_eq!(a.y, 0);
    assert_eq!(b.y, 0);
    // at rest relative to each other, no impulse is exchanged
    assert_eq!(a.v_x, 0);
    assert_eq!(b.v_x, 0);
}
