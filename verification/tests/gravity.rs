use gravity_sandbox::sim::Simulation;

const UNIT: i64 = 1_000_000;
const DT: i64 = 16_667; // about one sixtieth of a second

#[test]
fn pair_accelerations_obey_newtons_third_law() {
    let mut sim = Simulation::new();
    sim.spawn(0, 0, 0, 0, 1000 * UNIT, 50 * UNIT);
    sim.spawn(200 * UNIT, 0, 0, 2 * UNIT, UNIT, 20 * UNIT);
    sim.tick(DT);
    let a = sim.get_body(0);
    let b = sim.get_body(1);
    // mass times acceleration balances across the pair up to fixed-point
    // rounding: a1 * m1 is approximately -(a2 * m2), componentwise
    let lhs_x = a.mass as i128 * a.a_x as i128;
    let rhs_x = -(b.mass as i128 * b.a_x as i128);
    let lhs_y = a.mass as i128 * a.a_y as i128;
    let rhs_y = -(b.mass as i128 * b.a_y as i128);
    assert!(lhs_x > 0);
    assert!(rhs_x > 0);
    assert!((lhs_x - rhs_x).abs() <= rhs_x / 50);
    // the balance holds within the proved bound of two steps of either mass
    let bound = 2 * (a.mass as i128 + b.mass as i128);
    assert!((lhs_x - rhs_x).abs() < bound);
    assert!((lhs_y - rhs_y).abs() < bound);
    // and the contributions point in opposite directions
    assert!(a.a_x * b.a_x <= 0);
    assert!(a.a_y * b.a_y <= 0);
}

#[test]
fn isolated_body_gets_no_acceleration() {
    let mut sim = Simulation::new();
    sim.spawn(40 * UNIT, -7 * UNIT, 3 * UNIT, UNIT, 2 * UNIT, 5 * UNIT);
    for _ in 0..3 {
        sim.tick(DT);
        let b = sim.get_body(0);
        assert_eq!(b.a_x, 0);
        assert_eq!(b.a_y, 0);
        assert_eq!(b.v_x, 3 * UNIT);
        assert_eq!(b.v_y, UNIT);
    }
}

#[test]
fn mirrored_pair_stays_mirrored_and_bounded() {
    // two equal masses symmetric about the origin, at rest: they fall
    // toward each other symmetrically and every value stays bounded even
    // once the separation collapses onto the distance floor
    let mut sim = Simulation::new();
    sim.spawn(150 * UNIT, 0, 0, 0, 5 * UNIT, 20 * UNIT);
    sim.spawn(-150 * UNIT, 0, 0, 0, 5 * UNIT, 20 * UNIT);
    for _ in 0..400 {
        sim.tick(DT);
        let a = sim.get_body(0);
        let b = sim.get_body(1);
        assert_eq!(b.x, -a.x);
        assert_eq!(b.y, -a.y);
        assert_eq!(b.v_x, -a.v_x);
        assert_eq!(b.v_y, -a.v_y);
        assert_eq!(b.a_x, -a.a_x);
        assert_eq!(b.a_y, -a.a_y);
        assert_eq!(b.mass, a.mass);
        for v in [a.x, a.v_x, a.a_x, b.x, b.v_x, b.a_x] {
            assert!(v.abs() <= 1_000_000_000_000_000_000);
        }
    }
}

#[test]
fn mirrored_pair_falls_together() {
    let mut sim = Simulation::new();
    sim.spawn(150 * UNIT, 0, 0, 0, 5 * UNIT, 20 * UNIT);
    sim.spawn(-150 * UNIT, 0, 0, 0, 5 * UNIT, 20 * UNIT);
    sim.tick(DT);
    let a = sim.get_body(0);
    // the body on the positive side is pulled toward the origin
    assert!(a.a_x < 0);
    sim.tick(DT);
    let a = sim.get_body(0);
    assert!(a.x < 150 * UNIT);
    assert!(a.v_x < 0);
}
