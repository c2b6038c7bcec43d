use falling_sand::grid::{Universe, UniverseInterface};
use falling_sand::rules::{
    update_dirt_with, update_fire_with, update_grass_with, update_mud_with, update_rock_with,
    update_sand_with, update_smoke_with, update_void, update_water_with,
};
use falling_sand::substance::Substance;

fn empty(w: isize, h: isize) -> Universe {
    Universe::with_dimensions(w, h)
}

#[test]
fn bounds_reads_give_the_sentinel() {
    let u = empty(4, 3);
    assert_eq!(u.get(-1, 0).substance, Substance::OutOfBounds);
    assert_eq!(u.get(4, 0).substance, Substance::OutOfBounds);
    assert_eq!(u.get(0, -1).substance, Substance::OutOfBounds);
    assert_eq!(u.get(0, 3).substance, Substance::OutOfBounds);
    assert_eq!(u.get(0, 0).substance, Substance::Void);
    assert_eq!(u.get(3, 2).substance, Substance::Void);
}

#[test]
fn paint_writes_in_range_and_rejects_out_of_range() {
    let mut u = empty(3, 3);
    u.paint(1, 1, Substance::Rock);
    assert_eq!(u.get(1, 1).substance, Substance::Rock);
    u.paint(3, 1, Substance::Water);
    u.paint(-1, 0, Substance::Water);
    u.paint(0, 17, Substance::Water);
    for x in 0..3 {
        for y in 0..3 {
            if (x, y) != (1, 1) {
                assert_eq!(u.get(x, y).substance, Substance::Void);
            }
        }
    }
}

#[test]
fn interface_set_marks_the_target_processed() {
    let mut u = empty(3, 3);
    let iface = UniverseInterface { x: 1, y: 1 };
    iface.set(&mut u, 1, 0, Substance::Water);
    assert_eq!(u.get(2, 1).substance, Substance::Water);
    assert!(u.get(2, 1).has_ticked);
    assert!(!u.get(1, 1).has_ticked);
}

#[test]
fn interface_swap_exchanges_and_marks_both() {
    let mut u = empty(3, 3);
    u.paint(1, 1, Substance::Sand(true));
    u.paint(1, 2, Substance::Water);
    let iface = UniverseInterface { x: 1, y: 1 };
    iface.swap(&mut u, 0, 1);
    assert_eq!(u.get(1, 1).substance, Substance::Water);
    assert_eq!(u.get(1, 2).substance, Substance::Sand(true));
    assert!(u.get(1, 1).has_ticked);
    assert!(u.get(1, 2).has_ticked);
}

#[test]
fn void_rule_changes_nothing() {
    let mut u = empty(3, 3);
    u.paint(0, 0, Substance::Rock);
    update_void(&mut u, 1, 1);
    assert_eq!(u.get(0, 0).substance, Substance::Rock);
    for x in 0..3 {
        for y in 0..3 {
            assert!(!u.get(x, y).has_ticked);
        }
    }
}

#[test]
fn resting_sand_falls_into_the_offset_cell() {
    let mut u = empty(3, 2);
    u.paint(1, 0, Substance::Sand(false));
    update_sand_with(&mut u, 1, 0, 1);
    assert_eq!(u.get(2, 1).substance, Substance::Sand(true));
    assert_eq!(u.get(1, 0).substance, Substance::Void);
    assert!(u.get(2, 1).has_ticked);
    assert!(u.get(1, 0).has_ticked);
}

#[test]
fn sand_falls_through_water() {
    let mut u = empty(3, 2);
    u.paint(1, 0, Substance::Sand(false));
    u.paint(1, 1, Substance::Water);
    update_sand_with(&mut u, 1, 0, 0);
    assert_eq!(u.get(1, 1).substance, Substance::Sand(true));
    assert_eq!(u.get(1, 0).substance, Substance::Water);
}

#[test]
fn blocked_sand_comes_to_rest() {
    let mut u = empty(3, 2);
    u.paint(1, 0, Substance::Sand(true));
    u.paint(1, 1, Substance::Rock);
    update_sand_with(&mut u, 1, 0, 0);
    assert_eq!(u.get(1, 0).substance, Substance::Sand(false));
    assert!(u.get(1, 0).has_ticked);
}

#[test]
fn falling_sand_ignores_the_offset() {
    let mut u = empty(3, 2);
    u.paint(1, 0, Substance::Sand(true));
    update_sand_with(&mut u, 1, 0, 1);
    assert_eq!(u.get(1, 1).substance, Substance::Sand(true));
    assert_eq!(u.get(2, 1).substance, Substance::Void);
}

#[test]
fn rock_erodes_beside_water_on_a_high_roll() {
    let mut u = empty(3, 1);
    u.paint(1, 0, Substance::Rock);
    u.paint(2, 0, Substance::Water);
    update_rock_with(&mut u, 1, 0, 1, 0, 7);
    assert_eq!(u.get(1, 0).substance, Substance::Sand(false));
}

#[test]
fn rock_survives_a_low_roll() {
    let mut u = empty(3, 1);
    u.paint(1, 0, Substance::Rock);
    u.paint(2, 0, Substance::Water);
    update_rock_with(&mut u, 1, 0, 1, 0, 6);
    assert_eq!(u.get(1, 0).substance, Substance::Rock);
}

#[test]
fn water_falls_before_it_flows() {
    let mut u = empty(3, 2);
    u.paint(1, 0, Substance::Water);
    update_water_with(&mut u, 1, 0, 0, 1);
    assert_eq!(u.get(1, 1).substance, Substance::Water);
    assert_eq!(u.get(1, 0).substance, Substance::Void);
}

#[test]
fn blocked_water_flows_sideways() {
    let mut u = empty(3, 2);
    u.paint(0, 0, Substance::Water);
    u.paint(0, 1, Substance::Rock);
    u.paint(1, 1, Substance::Rock);
    update_water_with(&mut u, 0, 0, 0, 1);
    assert_eq!(u.get(1, 0).substance, Substance::Water);
    assert_eq!(u.get(0, 0).substance, Substance::Void);
}

#[test]
fn exposed_dirt_past_the_threshold_turns_to_grass() {
    let mut u = empty(3, 3);
    u.paint(1, 1, Substance::Dirt(false, 201));
    update_dirt_with(&mut u, 1, 1, 0, 0, 0);
    assert_eq!(u.get(1, 1).substance, Substance::Grass(0, 5));
}

#[test]
fn resting_dirt_under_open_air_gains_exposure() {
    let mut u = empty(3, 3);
    u.paint(1, 1, Substance::Dirt(false, 10));
    u.paint(1, 2, Substance::Rock);
    update_dirt_with(&mut u, 1, 1, 0, 0, 0);
    assert_eq!(u.get(1, 1).substance, Substance::Dirt(false, 11));
}

#[test]
fn dirt_soaks_into_mud_and_clears_the_water() {
    let mut u = empty(3, 2);
    u.paint(1, 0, Substance::Dirt(false, 5));
    u.paint(1, 1, Substance::Rock);
    u.paint(2, 0, Substance::Water);
    update_dirt_with(&mut u, 1, 0, 0, 1, 0);
    assert_eq!(u.get(1, 0).substance, Substance::Mud(false, 0));
    assert_eq!(u.get(2, 0).substance, Substance::Void);
}

#[test]
fn dirt_falls_only_through_void() {
    let mut u = empty(3, 2);
    u.paint(1, 0, Substance::Dirt(false, 3));
    u.paint(1, 1, Substance::Water);
    update_dirt_with(&mut u, 1, 0, 0, 0, 0);
    assert_eq!(u.get(1, 0).substance, Substance::Dirt(false, 3));
    assert_eq!(u.get(1, 1).substance, Substance::Water);
}

#[test]
fn mud_past_the_threshold_dries_to_dirt() {
    let mut u = empty(3, 2);
    u.paint(1, 0, Substance::Mud(false, 201));
    update_mud_with(&mut u, 1, 0, 0);
    assert_eq!(u.get(1, 0).substance, Substance::Dirt(false, 0));
}

#[test]
fn mud_falls_through_water() {
    let mut u = empty(3, 2);
    u.paint(1, 0, Substance::Mud(false, 4));
    u.paint(1, 1, Substance::Water);
    update_mud_with(&mut u, 1, 0, 0);
    assert_eq!(u.get(1, 1).substance, Substance::Mud(true, 4));
    assert_eq!(u.get(1, 0).substance, Substance::Water);
}

#[test]
fn grass_grows_a_blade_above() {
    let mut u = empty(3, 3);
    u.paint(1, 1, Substance::Grass(6, 5));
    u.paint(1, 2, Substance::Rock);
    update_grass_with(&mut u, 1, 1, 0);
    assert_eq!(u.get(1, 0).substance, Substance::Grass(0, 4));
    assert_eq!(u.get(1, 1).substance, Substance::Grass(6, 5));
}

#[test]
fn grass_gains_a_grow_tick_on_a_high_roll() {
    let mut u = empty(3, 3);
    u.paint(1, 1, Substance::Grass(2, 5));
    u.paint(1, 2, Substance::Rock);
    update_grass_with(&mut u, 1, 1, 9);
    assert_eq!(u.get(1, 1).substance, Substance::Grass(3, 5));
}

#[test]
fn grass_waits_on_a_low_roll() {
    let mut u = empty(3, 3);
    u.paint(1, 1, Substance::Grass(2, 5));
    u.paint(1, 2, Substance::Rock);
    update_grass_with(&mut u, 1, 1, 8);
    assert_eq!(u.get(1, 1).substance, Substance::Grass(2, 5));
}

#[test]
fn grass_propagates_a_smaller_budget_above() {
    let mut u = empty(3, 3);
    u.paint(1, 1, Substance::Grass(0, 5));
    u.paint(1, 0, Substance::Grass(0, 2));
    update_grass_with(&mut u, 1, 1, 0);
    assert_eq!(u.get(1, 1).substance, Substance::Grass(0, 4));
}

#[test]
fn grass_waits_under_fire() {
    let mut u = empty(3, 3);
    u.paint(1, 1, Substance::Grass(3, 5));
    u.paint(1, 0, Substance::Fire(10));
    update_grass_with(&mut u, 1, 1, 9);
    assert_eq!(u.get(1, 1).substance, Substance::Grass(3, 5));
}

#[test]
fn grass_buried_by_sand_reverts_to_dirt() {
    let mut u = empty(3, 3);
    u.paint(1, 1, Substance::Grass(3, 5));
    u.paint(1, 0, Substance::Sand(false));
    update_grass_with(&mut u, 1, 1, 0);
    assert_eq!(u.get(1, 1).substance, Substance::Dirt(false, 0));
}

#[test]
fn spent_fire_turns_to_smoke_with_the_drawn_lifetime() {
    let mut u = empty(3, 3);
    for x in 0..3 {
        for y in 0..3 {
            u.paint(x, y, Substance::Rock);
        }
    }
    u.paint(1, 1, Substance::Fire(0));
    update_fire_with(&mut u, 1, 1, 1, 0, 0, 100, 6, 123);
    assert_eq!(u.get(1, 1).substance, Substance::Smoke(123));
}

#[test]
fn burning_fire_consumes_one_fuel_unit() {
    let mut u = empty(3, 3);
    u.paint(1, 1, Substance::Fire(5));
    u.paint(1, 0, Substance::Rock);
    update_fire_with(&mut u, 1, 1, 0, -1, 0, 100, 9, 200);
    assert_eq!(u.get(1, 1).substance, Substance::Fire(4));
}

#[test]
fn fire_ignites_a_sampled_grass_neighbor() {
    let mut u = empty(3, 3);
    u.paint(1, 1, Substance::Fire(8));
    u.paint(2, 1, Substance::Grass(0, 5));
    update_fire_with(&mut u, 1, 1, 1, 0, 6, 100, 0, 200);
    assert_eq!(u.get(2, 1).substance, Substance::Fire(10));
}

#[test]
fn fire_seeds_smoke_in_a_sampled_void_neighbor() {
    let mut u = empty(3, 3);
    u.paint(1, 1, Substance::Fire(8));
    update_fire_with(&mut u, 1, 1, -1, 0, 8, 150, 0, 200);
    assert_eq!(u.get(0, 1).substance, Substance::Smoke(150));
}

#[test]
fn expired_smoke_clears_to_void() {
    let mut u = empty(3, 3);
    u.paint(1, 1, Substance::Smoke(0));
    update_smoke_with(&mut u, 1, 1, 0, 0);
    assert_eq!(u.get(1, 1).substance, Substance::Void);
}

#[test]
fn smoke_ages_and_drifts_upward() {
    let mut u = empty(3, 3);
    u.paint(1, 1, Substance::Smoke(10));
    update_smoke_with(&mut u, 1, 1, 0, 0);
    assert_eq!(u.get(1, 0).substance, Substance::Smoke(9));
    assert_eq!(u.get(1, 1).substance, Substance::Void);
}

#[test]
fn trapped_smoke_only_ages() {
    let mut u = empty(3, 3);
    for x in 0..3 {
        for y in 0..3 {
            u.paint(x, y, Substance::Rock);
        }
    }
    u.paint(1, 1, Substance::Smoke(10));
    update_smoke_with(&mut u, 1, 1, 0, 0);
    assert_eq!(u.get(1, 1).substance, Substance::Smoke(9));
}
