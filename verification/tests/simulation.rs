use falling_sand::grid::Universe;
use falling_sand::substance::Substance;
use falling_sand::tick::update_universe;

fn count_of(u: &Universe, pred: fn(Substance) -> bool) -> usize {
    let mut n = 0;
    for x in 0..u.width {
        for y in 0..u.height {
            if pred(u.get(x, y).substance) {
                n += 1;
            }
        }
    }
    n
}

fn is_sand(s: Substance) -> bool {
    matches!(s, Substance::Sand(_))
}

fn is_water(s: Substance) -> bool {
    matches!(s, Substance::Water)
}

#[test]
fn a_lone_resting_grain_settles_within_one_tick() {
    let mut u = Universe::with_dimensions(3, 2);
    u.paint(1, 0, Substance::Sand(false));
    update_universe(&mut u);
    assert_eq!(count_of(&u, is_sand), 1);
    assert_eq!(u.get(1, 0).substance, Substance::Void);
    let mut landed = false;
    for x in 0..3 {
        if u.get(x, 1).substance == Substance::Sand(true) {
            landed = true;
        }
    }
    assert!(landed);
}

#[test]
fn sand_falls_exactly_one_row_per_tick() {
    let mut u = Universe::with_dimensions(3, 4);
    u.paint(1, 0, Substance::Sand(false));
    for expected_row in [1, 2, 3, 3] {
        update_universe(&mut u);
        assert_eq!(count_of(&u, is_sand), 1);
        let mut row = None;
        for x in 0..3 {
            for y in 0..4 {
                if is_sand(u.get(x, y).substance) {
                    row = Some(y);
                }
            }
        }
        assert_eq!(row, Some(expected_row));
    }
}

#[test]
fn a_pool_of_water_levels_without_cell_loss() {
    // A basin: rock floor and walls, three waters on the floor row, void to
    // their right at the same level.
    let mut u = Universe::with_dimensions(7, 4);
    for x in 0..7 {
        u.paint(x, 3, Substance::Rock);
    }
    for y in 0..4 {
        u.paint(0, y, Substance::Rock);
        u.paint(6, y, Substance::Rock);
    }
    for x in 1..4 {
        u.paint(x, 2, Substance::Water);
    }
    // Rocks beside water may erode into sand over the run; water itself only
    // ever moves by swapping, so its cell count never changes.
    let mut spread = false;
    for _ in 0..100 {
        update_universe(&mut u);
        assert_eq!(count_of(&u, is_water), 3);
        if is_water(u.get(4, 2).substance) || is_water(u.get(5, 2).substance) {
            spread = true;
        }
    }
    assert!(spread);
}

#[test]
fn exposed_dirt_becomes_grass_exactly_once_and_stays_grass() {
    // Tall enough that the growing blades never touch the top edge: a full
    // stack is the base plus five blades.
    let mut u = Universe::with_dimensions(3, 8);
    for x in 0..3 {
        u.paint(x, 7, Substance::Rock);
    }
    u.paint(1, 6, Substance::Dirt(false, 0));
    let mut converted = false;
    for _ in 0..400 {
        update_universe(&mut u);
        match u.get(1, 6).substance {
            Substance::Dirt(_, _) => {
                assert!(!converted);
            }
            Substance::Grass(time, remheight) => {
                if !converted {
                    // The moment of conversion carries the full growth budget.
                    assert_eq!((time, remheight), (0, 5));
                    converted = true;
                }
            }
            other => panic!("unexpected substance {:?}", other),
        }
    }
    assert!(converted);
}

#[test]
fn spent_fire_decays_to_smoke_then_void() {
    // Fire sealed in rock: nothing to ignite, nowhere to seed smoke, and the
    // smoke it becomes cannot drift away.
    let mut u = Universe::with_dimensions(3, 3);
    for x in 0..3 {
        for y in 0..3 {
            u.paint(x, y, Substance::Rock);
        }
    }
    u.paint(1, 1, Substance::Fire(0));
    let mut lifetime = None;
    for _ in 0..200 {
        update_universe(&mut u);
        if let Substance::Smoke(t) = u.get(1, 1).substance {
            lifetime = Some(t);
            break;
        }
        assert_eq!(u.get(1, 1).substance, Substance::Fire(0));
    }
    let t = lifetime.expect("the fuel roll never succeeded in 200 ticks");
    assert!((100..250).contains(&t));
    for _ in 0..260 {
        update_universe(&mut u);
    }
    assert_eq!(u.get(1, 1).substance, Substance::Void);
}

#[test]
fn smoke_with_no_lifetime_left_clears_on_its_next_tick() {
    let mut u = Universe::with_dimensions(3, 3);
    for x in 0..3 {
        for y in 0..3 {
            u.paint(x, y, Substance::Rock);
        }
    }
    u.paint(1, 1, Substance::Smoke(0));
    update_universe(&mut u);
    assert_eq!(u.get(1, 1).substance, Substance::Void);
}

#[test]
fn a_void_grid_is_unchanged_by_ticks() {
    let mut u = Universe::with_dimensions(4, 4);
    for _ in 0..5 {
        update_universe(&mut u);
        for x in 0..4 {
            for y in 0..4 {
                let c = u.get(x, y);
                assert_eq!(c.substance, Substance::Void);
                assert!(!c.has_ticked);
            }
        }
    }
}

#[test]
fn rock_beside_trapped_water_eventually_erodes() {
    // Water against the left edge cannot move; the rock beside it erodes.
    let mut u = Universe::with_dimensions(2, 1);
    u.paint(0, 0, Substance::Water);
    u.paint(1, 0, Substance::Rock);
    for _ in 0..2000 {
        update_universe(&mut u);
        if u.get(1, 0).substance == Substance::Sand(false) {
            return;
        }
    }
    panic!("the rock never eroded in 2000 ticks");
}

#[test]
fn dirt_beside_trapped_water_becomes_mud() {
    // Water and dirt sit on the top row, so neither gains anything above it:
    // the water cannot flow, the dirt gains no exposure, and the only
    // possible change is the dirt soaking and clearing the water.
    let mut u = Universe::with_dimensions(4, 2);
    for x in 0..4 {
        u.paint(x, 1, Substance::Rock);
    }
    u.paint(0, 0, Substance::Rock);
    u.paint(1, 0, Substance::Water);
    u.paint(2, 0, Substance::Dirt(false, 0));
    u.paint(3, 0, Substance::Rock);
    for _ in 0..2000 {
        update_universe(&mut u);
        if u.get(2, 0).substance == Substance::Mud(false, 0) {
            assert_eq!(u.get(1, 0).substance, Substance::Void);
            return;
        }
    }
    panic!("the dirt never soaked in 2000 ticks");
}

#[test]
fn fire_eventually_ignites_adjacent_grass() {
    // Grass directly below fire waits, unburned and not growing, and the
    // chamber is sealed in rock so the fire has nowhere to seed smoke: the
    // only possible change to the grass is ignition.
    let mut u = Universe::with_dimensions(3, 3);
    for x in 0..3 {
        for y in 0..3 {
            u.paint(x, y, Substance::Rock);
        }
    }
    u.paint(1, 1, Substance::Fire(255));
    u.paint(1, 2, Substance::Grass(0, 5));
    for _ in 0..500 {
        update_universe(&mut u);
        if matches!(u.get(1, 2).substance, Substance::Fire(_)) {
            return;
        }
    }
    panic!("the grass never ignited in 500 ticks");
}

#[test]
fn grass_eventually_grows_a_second_blade() {
    let mut u = Universe::with_dimensions(3, 4);
    for x in 0..3 {
        u.paint(x, 3, Substance::Rock);
    }
    u.paint(1, 2, Substance::Grass(0, 5));
    for _ in 0..5000 {
        update_universe(&mut u);
        if matches!(u.get(1, 1).substance, Substance::Grass(_, _)) {
            return;
        }
    }
    panic!("the grass never grew in 5000 ticks");
}
