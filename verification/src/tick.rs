//! The update scheduler: one tick clears every processed mark, then visits
//! every cell in a fixed column-major scan (outer loop over x, inner over y,
//! top to bottom), dispatching each unprocessed cell to its substance's rule.

use vstd::prelude::*;
use vstd::arithmetic::div_mod::lemma_fundamental_div_mod_converse;
use crate::grid::{GridView, Universe, UniverseInterface};
use crate::rules::{
    dirt_step, fire_step, grass_step, mud_step, rock_step, sand_step, smoke_step, update_dirt,
    update_fire, update_grass, update_mud, update_rock, update_sand, update_smoke, update_void,
    update_water, void_step, water_step,
};
use crate::substance::Substance;

verus! {

/// One visitation of the cell at (x, y): the grids g0 before and g1 after are
/// related by the step function of the cell's substance, for some admissible
/// tie-break draws. The out-of-bounds sentinel is never stored, so its arm is
/// vacuous in a well-formed grid.
pub open spec fn cell_step(g0: GridView, g1: GridView, x: int, y: int) -> bool {
    match g0.get(x, y).substance {
        Substance::Void => g1 == void_step(g0),
        Substance::OutOfBounds => g1 == g0,
        Substance::Sand(_) => exists|o: int| -1 <= o <= 1 && g1 == sand_step(g0, x, y, o),
        Substance::Rock => exists|ox: int, oy: int, roll: u8|
            -1 <= ox <= 1 && -1 <= oy <= 1 && roll < 10 && g1 == rock_step(g0, x, y, ox, oy, roll),
        Substance::Water => exists|o1: int, o2: int|
            -1 <= o1 <= 1 && -1 <= o2 <= 1 && g1 == water_step(g0, x, y, o1, o2),
        Substance::Dirt(_, _) => exists|o: int, ox: int, oy: int|
            -1 <= o <= 1 && -1 <= ox <= 1 && -1 <= oy <= 1 && g1 == dirt_step(g0, x, y, o, ox, oy),
        Substance::Mud(_, _) => exists|o: int| -1 <= o <= 1 && g1 == mud_step(g0, x, y, o),
        Substance::Grass(_, _) => exists|roll: u8| roll < 10 && g1 == grass_step(g0, x, y, roll),
        Substance::Fire(_) => exists|ox: int, oy: int, ra: u8, la: u8, rb: u8, lb: u8|
            -1 <= ox <= 1 && -1 <= oy <= 1 && ra < 10 && 100 <= la < 250 && rb < 10 && 100 <= lb
                < 250 && g1 == fire_step(g0, x, y, ox, oy, ra, la, rb, lb),
        Substance::Smoke(_) => exists|o1: int, o2: int|
            -1 <= o1 <= 1 && -1 <= o2 <= 1 && g1 == smoke_step(g0, x, y, o1, o2),
    }
}

/// What the scheduler does at one scan position: a cell already marked
/// processed is skipped unchanged; otherwise its substance's rule runs.
pub open spec fn visit_step(g0: GridView, g1: GridView, x: int, y: int) -> bool {
    if g0.get(x, y).has_ticked {
        g1 == g0
    } else {
        cell_step(g0, g1, x, y)
    }
}

/// The chain of grids one tick passes through: the reset-phase result first,
/// then one visitation per cell in scan order. Visit number k handles the
/// cell at (k / height, k % height): x outer, y inner, top to bottom.
pub open spec fn tick_chain(g0: GridView, g1: GridView, gs: Seq<GridView>) -> bool {
    &&& gs.len() == g0.width * g0.height + 1
    &&& gs[0] == g0.cleared()
    &&& gs[gs.len() - 1] == g1
    &&& forall|k: int|
        0 <= k < g0.width * g0.height ==> #[trigger] visit_step(
            gs[k],
            gs[k + 1],
            k / g0.height,
            k % g0.height,
        )
}

/// One full tick relates the grid before to the grid after: marks cleared,
/// then every cell visited once in scan order.
pub open spec fn tick_rel(g0: GridView, g1: GridView) -> bool {
    exists|gs: Seq<GridView>| tick_chain(g0, g1, gs)
}

/// Visit one cell: dispatch to its substance's rule unless an earlier visit
/// already processed it (for instance by swapping a substance into it), in
/// which case the grid is left untouched.
pub fn update_cell(u: &mut Universe, x: isize, y: isize)
    requires
        old(u).wf(),
        old(u)@.in_bounds(x as int, y as int),
    ensures
        final(u).wf(),
        final(u).width == old(u).width,
        final(u).height == old(u).height,
        visit_step(old(u)@, final(u)@, x as int, y as int),
{
    let iface = UniverseInterface { x, y };
    let cell = iface.get(u, 0, 0);
    if !cell.has_ticked {
        match cell.substance {
            Substance::Void => update_void(u, x, y),
            Substance::OutOfBounds => {},
            Substance::Sand(_) => update_sand(u, x, y),
            Substance::Rock => update_rock(u, x, y),
            Substance::Water => update_water(u, x, y),
            Substance::Dirt(_, _) => update_dirt(u, x, y),
            Substance::Mud(_, _) => update_mud(u, x, y),
            Substance::Grass(_, _) => update_grass(u, x, y),
            Substance::Fire(_) => update_fire(u, x, y),
            Substance::Smoke(_) => update_smoke(u, x, y),
        }
    }
}

/// One full simulation tick: clear every processed mark, then visit every
/// cell in scan order, dispatching each unprocessed cell to its rule.
pub fn update_universe(u: &mut Universe)
    requires
        old(u).wf(),
    ensures
        final(u).wf(),
        final(u).width == old(u).width,
        final(u).height == old(u).height,
        tick_rel(old(u)@, final(u)@),
{
    u.clear_ticks();
    let ghost g0 = old(u)@;
    let ghost mut gs: Seq<GridView> = seq![u@];
    let w = u.width;
    let h = u.height;
    let mut x: isize = 0;
    while x < w
        invariant
            u.wf(),
            u.width == w,
            u.height == h,
            g0.width == w as int,
            g0.height == h as int,
            0 <= x <= w,
            gs.len() == x as int * h as int + 1,
            gs[0] == g0.cleared(),
            gs[gs.len() - 1] == u@,
            forall|k: int|
                0 <= k < gs.len() - 1 ==> #[trigger] visit_step(
                    gs[k],
                    gs[k + 1],
                    k / g0.height,
                    k % g0.height,
                ),
        decreases w - x,
    {
        let mut y: isize = 0;
        while y < h
            invariant
                u.wf(),
                u.width == w,
                u.height == h,
                g0.width == w as int,
                g0.height == h as int,
                0 <= x < w,
                0 <= y <= h,
                gs.len() == x as int * h as int + y as int + 1,
                gs[0] == g0.cleared(),
                gs[gs.len() - 1] == u@,
                forall|k: int|
                    0 <= k < gs.len() - 1 ==> #[trigger] visit_step(
                        gs[k],
                        gs[k + 1],
                        k / g0.height,
                        k % g0.height,
                    ),
            decreases h - y,
        {
            update_cell(u, x, y);
            proof {
                let k = x as int * h as int + y as int;
                lemma_fundamental_div_mod_converse(k, h as int, x as int, y as int);
                gs = gs.push(u@);
                assert(visit_step(gs[k], gs[k + 1], k / g0.height, k % g0.height));
            }
            y += 1;
        }
        proof {
            assert(x as int * h as int + h as int == (x as int + 1) * h as int) by (nonlinear_arith);
        }
        x += 1;
    }
    proof {
        assert(gs.len() == g0.width * g0.height + 1);
        assert(tick_chain(g0, u@, gs));
    }
}

} // verus!
