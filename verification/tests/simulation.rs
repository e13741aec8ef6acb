use gravity_sandbox::body::Body;
use gravity_sandbox::sim::Simulation;

const UNIT: i64 = 1_000_000;
const DT: i64 = 16_667; // about one sixtieth of a second
const MULT: i64 = 6_666_800; // DT * 400, the step multiplier

#[test]
fn single_body_moves_at_constant_velocity() {
    let mut sim = Simulation::new();
    sim.spawn(UNIT, 2 * UNIT, 3_500_000, -1_250_000, UNIT, UNIT);
    for _ in 0..5 {
        sim.tick(DT);
        let b = sim.get_body(0);
        assert_eq!(b.v_x, 3_500_000);
        assert_eq!(b.v_y, -1_250_000);
        assert_eq!(b.a_x, 0);
        assert_eq!(b.a_y, 0);
        assert_eq!(b.past_a_x, 0);
        assert_eq!(b.past_a_y, 0);
    }
    // five equal straight-line steps of exactly v * MULT each
    let b = sim.get_body(0);
    assert_eq!(b.x, UNIT + 5 * 23_333_800);
    assert_eq!(b.y, 2 * UNIT - 5 * 8_333_500);
}

#[test]
fn zero_dt_changes_no_position_or_velocity() {
    let mut sim = Simulation::new();
    sim.spawn(0, 0, 0, 0, 1000 * UNIT, 50 * UNIT);
    sim.spawn(200 * UNIT, 0, 0, 2 * UNIT, UNIT, 20 * UNIT);
    sim.tick(0);
    let a = sim.get_body(0);
    let b = sim.get_body(1);
    assert_eq!((a.x, a.y, a.v_x, a.v_y), (0, 0, 0, 0));
    assert_eq!((b.x, b.y, b.v_x, b.v_y), (200 * UNIT, 0, 0, 2 * UNIT));
    // the accumulator was still recomputed: the pair attracts
    assert!(b.a_x < 0);
    assert!(a.a_x > 0);
}

#[test]
fn spawn_then_despawn_restores_the_body_set() {
    let mut sim = Simulation::new();
    let id0 = sim.spawn(10 * UNIT, 0, 0, 0, UNIT, 2 * UNIT);
    let id1 = sim.spawn(-10 * UNIT, 0, 0, 0, 2 * UNIT, 3 * UNIT);
    assert_ne!(id0, id1);
    let before: Vec<Body> = vec![sim.get_body(0), sim.get_body(1)];
    let before_ids = (sim.body_at(0).0, sim.body_at(1).0);

    let id2 = sim.spawn(0, 5 * UNIT, UNIT, 0, UNIT, UNIT);
    assert_eq!(sim.body_count(), 3);
    assert!(sim.despawn(id2));
    assert_eq!(sim.body_count(), 2);
    assert_eq!(sim.get_body(0), before[0]);
    assert_eq!(sim.get_body(1), before[1]);
    assert_eq!((sim.body_at(0).0, sim.body_at(1).0), before_ids);
    // the handle is gone for good
    assert!(!sim.despawn(id2));
}

#[test]
fn despawn_of_a_middle_body_keeps_the_order() {
    let mut sim = Simulation::new();
    let _first = sim.spawn(UNIT, 0, 0, 0, UNIT, UNIT);
    let middle = sim.spawn(2 * UNIT, 0, 0, 0, UNIT, UNIT);
    let _last = sim.spawn(3 * UNIT, 0, 0, 0, UNIT, UNIT);
    assert!(sim.despawn(middle));
    assert_eq!(sim.body_count(), 2);
    assert_eq!(sim.get_body(0).x, UNIT);
    assert_eq!(sim.get_body(1).x, 3 * UNIT);
}

#[test]
fn clear_all_empties_the_store() {
    let mut sim = Simulation::new();
    sim.spawn(0, 0, 0, 0, UNIT, UNIT);
    sim.spawn(UNIT, 0, 0, 0, UNIT, UNIT);
    sim.set_collisions_enabled(true);
    sim.clear_all();
    assert_eq!(sim.body_count(), 0);
    // the toggle survives a reset
    assert!(sim.collisions_enabled());
    // handles are not reused after a clear
    let id = sim.spawn(0, 0, 0, 0, UNIT, UNIT);
    assert_eq!(id, 2);
}

#[test]
fn collision_toggle_reads_back() {
    let mut sim = Simulation::new();
    assert!(!sim.collisions_enabled());
    sim.set_collisions_enabled(true);
    assert!(sim.collisions_enabled());
    sim.set_collisions_enabled(false);
    assert!(!sim.collisions_enabled());
}

#[test]
fn body_at_reports_handle_position_size_and_mass() {
    let mut sim = Simulation::new();
    let id = sim.spawn(7 * UNIT, -3 * UNIT, 0, 0, UNIT, 2 * UNIT);
    let (got_id, x, y, size, mass) = sim.body_at(0);
    assert_eq!(got_id, id);
    assert_eq!(x, 7 * UNIT);
    assert_eq!(y, -3 * UNIT);
    assert_eq!(size, 2 * UNIT);
    assert_eq!(mass, sim.get_body(0).mass);
}

#[test]
fn heavy_and_light_body_scenario() {
    // body A: density 1000, size 50, resting at the origin;
    // body B: density 1, size 20, at (200, 0), moving with (0, 2)
    let mut sim = Simulation::new();
    sim.spawn(0, 0, 0, 0, 1000 * UNIT, 50 * UNIT);
    sim.spawn(200 * UNIT, 0, 0, 2 * UNIT, UNIT, 20 * UNIT);
    sim.tick(DT);
    let a = sim.get_body(0);
    let b = sim.get_body(1);
    // B is pulled toward A
    assert!(b.a_x < 0);
    // every component of both bodies stays a plain bounded value
    for body in [a, b] {
        for v in [body.x, body.y, body.v_x, body.v_y, body.a_x, body.a_y] {
            assert!(v.abs() <= 1_000_000_000_000_000_000);
        }
    }
    // A, at rest with no prior acceleration, has not moved at all, while B
    // has moved by its full velocity step: the displacement ratio follows
    // the mass ratio
    assert_eq!((a.x, a.y), (0, 0));
    assert_eq!(b.x, 200 * UNIT);
    assert_eq!(b.y, 2 * MULT);
    // the pull on massive A is smaller than the pull on light B by orders
    // of magnitude
    assert!(a.a_x > 0);
    assert!(a.a_x < 10_000);
    assert!(b.a_x < -1_000_000);
    // the exact accumulator values of the truncating solver arithmetic
    assert_eq!((a.a_x, a.a_y), (416, 27));
    assert_eq!((b.a_x, b.a_y), (-6_501_590, -433_445));
}
