use square_physics::body::{Force, Square};
use square_physics::scalar::Scalar;
use square_physics::world::{Rejection, World};

fn u(n: i32) -> Scalar {
    Scalar::from_units(n)
}

fn raw(v: i64) -> Scalar {
    Scalar::from_raw(v)
}

fn tenths(n: i64) -> Scalar {
    Scalar::from_raw(n * 100_000)
}

fn force(name: &str, x: i32, y: i32) -> Force {
    Force::new(String::from(name), u(x), u(y))
}

fn world() -> World {
    World::new(u(0), u(100), u(100))
}

fn state(s: &Square) -> (String, bool, [Scalar; 8]) {
    (
        s.name.clone(),
        s.is_fixed,
        [s.x, s.y, s.size, s.mass, s.x_vel, s.y_vel, s.x_acc, s.y_acc],
    )
}

fn states(w: &World) -> Vec<(String, bool, [Scalar; 8])> {
    let mut out = Vec::new();
    for s in w.squares() {
        out.push(state(s));
    }
    out
}

#[test]
fn new_world_is_empty() {
    let w = World::new(u(7), u(100), u(50));
    assert!(w.squares().is_empty());
    assert!(w.get_square_props().is_empty());
    assert!(w.get_global_forces().is_empty());
    assert_eq!(w.last_update(), u(7));
}

#[test]
fn add_square_appends_a_body_at_rest() {
    let mut w = world();
    assert_eq!(w.add_square("a", false, u(1), u(2), u(3), u(4)), Ok(()));
    assert_eq!(w.add_square("b", true, u(10), u(20), u(30), u(40)), Ok(()));
    assert_eq!(
        states(&w),
        vec![
            (String::from("a"), false, [u(1), u(2), u(3), u(4), u(0), u(0), u(0), u(0)]),
            (String::from("b"), true, [u(10), u(20), u(30), u(40), u(0), u(0), u(0), u(0)]),
        ]
    );
}

#[test]
fn overlapping_square_is_rejected() {
    let mut w = world();
    assert_eq!(w.add_square("first", false, u(0), u(0), u(10), u(1)), Ok(()));
    let before = states(&w);
    assert_eq!(w.add_square("second", false, u(5), u(5), u(10), u(1)), Err(Rejection::Overlap));
    assert_eq!(w.add_square("inside", true, u(2), u(2), u(1), u(1)), Err(Rejection::Overlap));
    assert_eq!(w.add_square("around", true, u(-5), u(-5), u(50), u(1)), Err(Rejection::Overlap));
    assert_eq!(w.add_square("same", false, u(0), u(0), u(10), u(1)), Err(Rejection::Overlap));
    assert_eq!(states(&w), before);
    assert_eq!(w.get_square_props(), vec![u(0), u(0), u(10)]);
}

#[test]
fn request_that_overlaps_only_a_refused_request_is_taken() {
    let mut w = world();
    assert_eq!(w.add_square("there", false, u(0), u(0), u(10), u(1)), Ok(()));
    assert_eq!(w.add_square("refused", false, u(5), u(0), u(10), u(1)), Err(Rejection::Overlap));
    assert_eq!(w.add_square("taken", false, u(12), u(0), u(10), u(1)), Ok(()));
    assert_eq!(w.add_square("massless", false, u(50), u(50), u(10), u(0)), Err(Rejection::InvalidMass));
    assert_eq!(w.add_square("taken too", false, u(55), u(55), u(10), u(1)), Ok(()));
    assert_eq!(
        w.get_square_props(),
        vec![u(0), u(0), u(10), u(12), u(0), u(10), u(55), u(55), u(10)]
    );
}

#[test]
fn overlap_with_any_body_rejects() {
    let mut w = world();
    assert_eq!(w.add_square("a", false, u(0), u(0), u(10), u(1)), Ok(()));
    assert_eq!(w.add_square("b", false, u(20), u(0), u(10), u(1)), Ok(()));
    assert_eq!(w.add_square("c", false, u(40), u(0), u(10), u(1)), Ok(()));
    assert_eq!(w.add_square("d", false, u(45), u(5), u(10), u(1)), Err(Rejection::Overlap));
    assert_eq!(w.add_square("e", false, u(25), u(-5), u(10), u(1)), Err(Rejection::Overlap));
    assert_eq!(w.squares().len(), 3);
}

#[test]
fn touching_squares_do_not_overlap() {
    let mut w = world();
    assert_eq!(w.add_square("a", false, u(10), u(10), u(10), u(1)), Ok(()));
    assert_eq!(w.add_square("right", false, u(20), u(10), u(10), u(1)), Ok(()));
    assert_eq!(w.add_square("below", false, u(10), u(20), u(10), u(1)), Ok(()));
    assert_eq!(w.add_square("left", false, u(0), u(10), u(10), u(1)), Ok(()));
    assert_eq!(w.add_square("above", false, u(10), u(0), u(10), u(1)), Ok(()));
    assert_eq!(w.add_square("corner", false, u(20), u(20), u(10), u(1)), Ok(()));
    assert_eq!(w.squares().len(), 6);
    assert_eq!(
        w.add_square("just in", false, raw(29_999_999), raw(29_999_999), u(10), u(1)),
        Err(Rejection::Overlap)
    );
}

#[test]
fn overlap_on_one_axis_only_is_accepted() {
    let mut w = world();
    assert_eq!(w.add_square("a", false, u(0), u(0), u(10), u(1)), Ok(()));
    assert_eq!(w.add_square("b", false, u(5), u(50), u(10), u(1)), Ok(()));
    assert_eq!(w.add_square("c", false, u(50), u(5), u(10), u(1)), Ok(()));
    assert_eq!(w.squares().len(), 3);
}

#[test]
fn movable_square_needs_a_positive_mass() {
    let mut w = world();
    assert_eq!(w.add_square("a", false, u(0), u(0), u(10), u(0)), Err(Rejection::InvalidMass));
    assert_eq!(w.add_square("b", false, u(0), u(0), u(10), u(-1)), Err(Rejection::InvalidMass));
    assert_eq!(w.add_square("c", false, u(0), u(0), u(10), raw(i64::MIN)), Err(Rejection::InvalidMass));
    assert!(w.squares().is_empty());
    assert_eq!(w.add_square("d", false, u(0), u(0), u(10), raw(1)), Ok(()));
    assert_eq!(w.squares().len(), 1);
}

#[test]
fn fixed_square_may_have_any_mass() {
    let mut w = world();
    assert_eq!(w.add_square("a", true, u(0), u(0), u(10), u(0)), Ok(()));
    assert_eq!(w.add_square("b", true, u(20), u(0), u(10), u(-5)), Ok(()));
    w.add_force(force("g", 3, 98));
    w.update(u(1));
    assert_eq!(
        states(&w),
        vec![
            (String::from("a"), true, [u(0), u(0), u(10), u(0), u(0), u(0), u(0), u(0)]),
            (String::from("b"), true, [u(20), u(0), u(10), u(-5), u(0), u(0), u(0), u(0)]),
        ]
    );
}

#[test]
fn mass_is_judged_before_place() {
    let mut w = world();
    assert_eq!(w.add_square("a", false, u(0), u(0), u(10), u(1)), Ok(()));
    assert_eq!(w.add_square("b", false, u(5), u(5), u(10), u(0)), Err(Rejection::InvalidMass));
    assert_eq!(w.add_square("c", true, u(5), u(5), u(10), u(0)), Err(Rejection::Overlap));
}

#[test]
fn squares_may_be_created_outside_the_visible_area() {
    let mut w = world();
    assert_eq!(w.add_square("far", true, u(500), u(500), u(10), u(1)), Ok(()));
    assert_eq!(w.add_square("near", true, u(50), u(50), u(10), u(1)), Ok(()));
    assert_eq!(w.get_square_props(), vec![u(500), u(500), u(10), u(50), u(50), u(10)]);
    w.update(u(1));
    assert_eq!(w.get_square_props(), vec![u(50), u(50), u(10)]);
}

#[test]
fn overlap_is_judged_against_where_the_bodies_are_now() {
    let mut w = world();
    assert_eq!(w.add_square("a", false, u(0), u(0), u(10), u(1)), Ok(()));
    w.add_force(force("push", 40, 0));
    w.update(u(1));
    assert_eq!(w.get_square_props(), vec![u(20), u(0), u(10)]);
    assert_eq!(w.add_square("b", false, u(0), u(0), u(10), u(1)), Ok(()));
    assert_eq!(w.add_square("c", false, u(25), u(0), u(10), u(1)), Err(Rejection::Overlap));
}

#[test]
fn forces_are_kept_in_order() {
    let mut w = world();
    w.add_force(force("gravity", 0, 98));
    w.add_force(force("wind", -3, 0));
    w.add_force(force("gravity", 0, 98));
    let forces = w.get_global_forces();
    assert_eq!(forces.len(), 3);
    assert_eq!((forces[0].name(), forces[0].x(), forces[0].y()), (String::from("gravity"), u(0), u(98)));
    assert_eq!((forces[1].name(), forces[1].x(), forces[1].y()), (String::from("wind"), u(-3), u(0)));
    assert_eq!((forces[2].name(), forces[2].x(), forces[2].y()), (String::from("gravity"), u(0), u(98)));
}

#[test]
fn global_forces_are_a_snapshot() {
    let mut w = world();
    w.add_force(force("wind", -3, 0));
    let mut copy = w.get_global_forces();
    copy[0].x = u(1000);
    copy.push(force("extra", 1, 1));
    let again = w.get_global_forces();
    assert_eq!(again.len(), 1);
    assert_eq!((again[0].name(), again[0].x(), again[0].y()), (String::from("wind"), u(-3), u(0)));
}

#[test]
fn change_force_replaces_one_component() {
    let mut w = world();
    w.add_force(force("a", 1, 2));
    w.add_force(force("b", 3, 4));
    w.change_force_x(1, u(30));
    w.change_force_y(0, u(20));
    let forces = w.get_global_forces();
    assert_eq!((forces[0].name(), forces[0].x(), forces[0].y()), (String::from("a"), u(1), u(20)));
    assert_eq!((forces[1].name(), forces[1].x(), forces[1].y()), (String::from("b"), u(30), u(4)));
    w.change_force_x(1, u(-1));
    let forces = w.get_global_forces();
    assert_eq!((forces[1].x(), forces[1].y()), (u(-1), u(4)));
}

#[test]
fn changed_forces_act_from_the_next_step() {
    let mut w = world();
    assert_eq!(w.add_square("a", false, u(0), u(0), u(10), u(1)), Ok(()));
    w.add_force(force("push", 2, 0));
    w.update(u(1));
    assert_eq!(states(&w)[0].2, [u(1), u(0), u(10), u(1), u(2), u(0), u(2), u(0)]);
    w.change_force_x(0, u(0));
    w.change_force_y(0, u(4));
    w.update(u(2));
    assert_eq!(states(&w)[0].2, [u(3), u(2), u(10), u(1), u(2), u(4), u(0), u(4)]);
}

#[test]
fn square_props_are_triples_in_collection_order() {
    let mut w = world();
    assert_eq!(w.add_square("a", false, u(1), u(2), u(3), u(4)), Ok(()));
    assert_eq!(w.add_square("b", true, u(10), u(20), u(30), u(40)), Ok(()));
    assert_eq!(w.add_square("c", true, raw(-1), raw(50_000_001), raw(7), u(1)), Ok(()));
    assert_eq!(
        w.get_square_props(),
        vec![u(1), u(2), u(3), u(10), u(20), u(30), raw(-1), raw(50_000_001), raw(7)]
    );
}

#[test]
fn update_integrates_with_the_net_force_over_the_mass() {
    let mut w = world();
    assert_eq!(w.add_square("ball", false, u(40), u(0), u(10), u(2)), Ok(()));
    w.add_force(force("gravity", 0, 98));
    w.add_force(force("wind", 4, 0));
    w.update(tenths(5));
    assert_eq!(w.last_update(), tenths(5));
    assert_eq!(
        states(&w)[0].2,
        [raw(40_250_000), raw(6_125_000), u(10), u(2), u(1), raw(24_500_000), u(2), u(49)]
    );
    w.update(u(1));
    assert_eq!(
        states(&w)[0].2,
        [u(41), raw(24_500_000), u(10), u(2), u(2), u(49), u(2), u(49)]
    );
}

#[test]
fn update_measures_time_from_the_latest_step() {
    let mut w = World::new(u(1000), u(100), u(100));
    assert_eq!(w.add_square("a", false, u(0), u(0), u(10), u(1)), Ok(()));
    w.add_force(force("push", 2, 0));
    w.update(u(1001));
    assert_eq!(w.get_square_props(), vec![u(1), u(0), u(10)]);
    w.update(u(1003));
    assert_eq!(w.get_square_props(), vec![u(9), u(0), u(10)]);
    assert_eq!(w.last_update(), u(1003));
}

#[test]
fn fixed_bodies_never_change() {
    let mut w = world();
    assert_eq!(w.add_square("floor", true, u(0), u(90), u(100), u(1)), Ok(()));
    assert_eq!(w.add_square("ball", false, u(40), u(0), u(10), u(1)), Ok(()));
    assert_eq!(w.add_square("ledge", true, u(60), u(40), u(20), u(3)), Ok(()));
    w.add_force(force("gravity", 0, 98));
    w.add_force(force("wind", 15, 0));
    let floor = (String::from("floor"), true, [u(0), u(90), u(100), u(1), u(0), u(0), u(0), u(0)]);
    let ledge = (String::from("ledge"), true, [u(60), u(40), u(20), u(3), u(0), u(0), u(0), u(0)]);
    for step in 1..=40 {
        w.update(tenths(step));
        let all = states(&w);
        assert_eq!(all[0], floor);
        assert_eq!(all[all.len() - 1], ledge);
    }
}

#[test]
fn second_update_at_the_same_time_moves_nothing() {
    let mut w = world();
    assert_eq!(w.add_square("a", false, u(10), u(10), u(10), u(1)), Ok(()));
    assert_eq!(w.add_square("b", false, u(50), u(10), u(10), u(4)), Ok(()));
    assert_eq!(w.add_square("wall", true, u(80), u(0), u(10), u(1)), Ok(()));
    w.add_force(force("gravity", 3, 8));
    w.update(u(1));
    let first = states(&w);
    assert_eq!(first[0].2, [raw(11_500_000), u(14), u(10), u(1), u(3), u(8), u(3), u(8)]);
    assert_eq!(first[1].2, [raw(50_375_000), u(11), u(10), u(4), raw(750_000), u(2), raw(750_000), u(2)]);
    w.update(u(1));
    assert_eq!(states(&w), first);
    w.update(u(1));
    assert_eq!(states(&w), first);
    assert_eq!(w.last_update(), u(1));
}

#[test]
fn update_without_time_refreshes_the_accelerations() {
    let mut w = world();
    assert_eq!(w.add_square("a", false, u(10), u(10), u(10), u(2)), Ok(()));
    w.add_force(force("gravity", 0, 8));
    w.update(u(0));
    assert_eq!(states(&w)[0].2, [u(10), u(10), u(10), u(2), u(0), u(0), u(0), u(4)]);
}

#[test]
fn clock_running_backwards_moves_nothing() {
    let mut w = world();
    assert_eq!(w.add_square("a", false, u(10), u(10), u(10), u(1)), Ok(()));
    w.add_force(force("gravity", 3, 8));
    w.update(u(2));
    let first = states(&w);
    assert_eq!(first[0].2, [u(16), u(26), u(10), u(1), u(6), u(16), u(3), u(8)]);
    w.update(u(1));
    assert_eq!(states(&w), first);
    assert_eq!(w.last_update(), u(1));
    w.update(u(2));
    assert_eq!(states(&w)[0].2, [raw(23_500_000), u(46), u(10), u(1), u(9), u(24), u(3), u(8)]);
}

#[test]
fn dense_cluster_update_returns() {
    let mut w = World::new(u(0), u(1000), u(1000));
    let masses = [1_000_000, 1_250_000, 1_666_667, 2_500_000, 5_000_000];
    let places = [150, 161, 172, 183, 194];
    for i in 0..5 {
        assert_eq!(w.add_square("b", false, u(places[i]), u(0), u(10), raw(masses[i])), Ok(()));
    }
    w.add_force(force("pull", 100, 0));
    w.update(u(1));
    assert_eq!(w.squares().len(), 5);
    assert_eq!(w.get_square_props().len(), 15);
    assert_eq!(states(&w)[0].2[0], u(204));
    assert_eq!(states(&w)[0].2[4], u(0));
    for step in 2..=30 {
        w.change_force_x(0, u(if step % 2 == 0 { -100 } else { 100 }));
        w.update(u(step));
    }
    assert_eq!(w.last_update(), u(30));
}

#[test]
fn body_driven_past_the_edge_is_culled() {
    let mut w = world();
    assert_eq!(w.add_square("stays", true, u(0), u(0), u(5), u(1)), Ok(()));
    assert_eq!(w.add_square("leaves", false, u(90), u(10), u(5), u(1)), Ok(()));
    assert_eq!(w.add_square("stays too", true, u(0), u(50), u(5), u(1)), Ok(()));
    w.add_force(force("push", 20, 0));
    w.update(u(1));
    assert_eq!(
        w.get_square_props(),
        vec![u(0), u(0), u(5), u(100), u(10), u(5), u(0), u(50), u(5)]
    );
    w.update(u(2));
    assert_eq!(w.get_square_props(), vec![u(0), u(0), u(5), u(0), u(50), u(5)]);
    assert_eq!(w.squares()[1].name, "stays too");
    w.update(u(3));
    assert_eq!(w.get_square_props(), vec![u(0), u(0), u(5), u(0), u(50), u(5)]);
}

#[test]
fn body_driven_past_the_edge_by_a_large_force_is_culled_at_once() {
    let mut w = world();
    assert_eq!(w.add_square("leaves", false, u(10), u(10), u(5), u(1)), Ok(()));
    w.add_force(force("push", 1_000_000, 0));
    w.update(u(1));
    assert!(w.get_square_props().is_empty());
    assert!(w.squares().is_empty());
}

#[test]
fn bodies_leave_on_every_side() {
    let mut w = world();
    assert_eq!(w.add_square("up", false, u(50), u(0), u(10), u(1)), Ok(()));
    w.add_force(force("lift", 0, -20));
    w.update(u(1));
    assert_eq!(w.get_square_props(), vec![u(50), u(-10), u(10)]);
    w.update(u(2));
    assert!(w.squares().is_empty());

    let mut w = world();
    assert_eq!(w.add_square("left", false, u(0), u(50), u(10), u(1)), Ok(()));
    w.add_force(force("pull", -20, 0));
    w.update(u(1));
    assert_eq!(w.get_square_props(), vec![u(-10), u(50), u(10)]);
    w.update(u(2));
    assert!(w.squares().is_empty());

    let mut w = world();
    assert_eq!(w.add_square("down", false, u(50), u(90), u(10), u(1)), Ok(()));
    w.add_force(force("gravity", 0, 20));
    w.update(u(1));
    assert_eq!(w.get_square_props(), vec![u(50), u(100), u(10)]);
    w.update(u(2));
    assert!(w.squares().is_empty());
}

#[test]
fn ball_comes_to_rest_on_the_floor() {
    let mut w = world();
    assert_eq!(w.add_square("floor", true, u(0), u(90), u(100), u(1)), Ok(()));
    assert_eq!(w.add_square("ball", false, u(40), u(0), u(10), u(1)), Ok(()));
    w.add_force(force("gravity", 0, 98));
    for step in 1..=12 {
        w.update(tenths(step));
        let ball = &w.squares()[1];
        assert_eq!(ball.y, raw(490_000 * step * step));
        assert_eq!(ball.y_vel, raw(9_800_000 * step));
    }
    assert_eq!(w.squares()[1].y, raw(70_560_000));
    w.update(tenths(13));
    assert_eq!(
        states(&w)[1].2,
        [u(40), u(80), u(10), u(1), u(0), u(0), u(0), u(98)]
    );
    for step in 14..=200 {
        w.update(tenths(step));
        assert_eq!(
            states(&w)[1].2,
            [u(40), u(80), u(10), u(1), u(0), u(0), u(0), u(98)]
        );
    }
    assert_eq!(
        states(&w)[0],
        (String::from("floor"), true, [u(0), u(90), u(100), u(1), u(0), u(0), u(0), u(0)])
    );
    assert_eq!(w.get_square_props(), vec![u(0), u(90), u(100), u(40), u(80), u(10)]);
}

#[test]
fn ball_falling_in_whole_seconds_passes_through_the_floor() {
    let mut w = world();
    assert_eq!(w.add_square("floor", true, u(0), u(90), u(100), u(1)), Ok(()));
    assert_eq!(w.add_square("ball", false, u(40), u(0), u(10), u(1)), Ok(()));
    w.add_force(force("gravity", 0, 98));
    w.update(u(1));
    assert_eq!(
        states(&w)[1].2,
        [u(40), u(49), u(10), u(1), u(0), u(98), u(0), u(98)]
    );
    w.update(u(2));
    assert_eq!(w.get_square_props(), vec![u(0), u(90), u(100)]);
    w.update(u(3));
    assert_eq!(w.get_square_props(), vec![u(0), u(90), u(100)]);
}

#[test]
fn deep_penetration_leaves_on_the_far_side() {
    let mut w = World::new(u(0), u(100), u(300));
    assert_eq!(w.add_square("floor", true, u(0), u(90), u(100), u(1)), Ok(()));
    assert_eq!(w.add_square("ball", false, u(40), u(35), u(10), u(1)), Ok(()));
    w.add_force(force("gravity", 0, 98));
    w.update(u(1));
    assert_eq!(
        states(&w)[1].2,
        [u(40), u(80), u(10), u(1), u(0), u(0), u(0), u(98)]
    );
    w.update(u(2));
    assert_eq!(
        states(&w)[1].2,
        [u(40), u(190), u(10), u(1), u(0), u(0), u(0), u(98)]
    );
}

#[test]
fn insertion_order_decides_who_yields() {
    let mut w = World::new(u(0), u(1000), u(1000));
    assert_eq!(w.add_square("fast", false, u(0), u(0), u(10), u(1)), Ok(()));
    assert_eq!(w.add_square("slow", false, u(30), u(0), u(10), u(100)), Ok(()));
    w.add_force(force("push", 50, 0));
    w.update(u(1));
    assert_eq!(w.get_square_props(), vec![u(20), u(0), u(10), raw(30_250_000), u(0), u(10)]);
    assert_eq!(w.squares()[0].x_vel, u(0));
    assert_eq!(w.squares()[1].x_vel, raw(500_000));

    let mut w = World::new(u(0), u(1000), u(1000));
    assert_eq!(w.add_square("slow", false, u(30), u(0), u(10), u(100)), Ok(()));
    assert_eq!(w.add_square("fast", false, u(0), u(0), u(10), u(1)), Ok(()));
    w.add_force(force("push", 50, 0));
    w.update(u(1));
    assert_eq!(w.get_square_props(), vec![raw(30_250_000), u(0), u(10), raw(20_250_000), u(0), u(10)]);
    assert_eq!(w.squares()[0].x_vel, raw(500_000));
    assert_eq!(w.squares()[1].x_vel, u(0));
}

#[test]
fn two_worlds_do_not_share_anything() {
    let mut a = world();
    let mut b = world();
    assert_eq!(a.add_square("a", false, u(0), u(0), u(10), u(1)), Ok(()));
    assert_eq!(b.add_square("b", false, u(0), u(0), u(10), u(1)), Ok(()));
    a.add_force(force("push", 2, 0));
    a.update(u(1));
    b.update(u(1));
    assert_eq!(a.get_square_props(), vec![u(1), u(0), u(10)]);
    assert_eq!(b.get_square_props(), vec![u(0), u(0), u(10)]);
    assert!(b.get_global_forces().is_empty());
}

#[test]
fn same_inputs_give_the_same_world() {
    let run = || {
        let mut w = World::new(u(0), u(300), u(300));
        w.add_square("floor", true, u(0), u(200), u(300), u(1)).unwrap();
        w.add_square("a", false, u(10), u(0), u(10), raw(1_300_000)).unwrap();
        w.add_square("b", false, u(15), u(20), u(10), raw(700_000)).unwrap();
        w.add_square("c", false, u(12), u(40), u(10), u(3)).unwrap();
        w.add_force(force("gravity", 0, 98));
        w.add_force(force("wind", 7, 0));
        for step in 1..=120 {
            w.update(Scalar::from_raw(step * 33_333));
        }
        states(&w)
    };
    assert_eq!(run(), run());
}
