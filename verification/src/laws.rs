//! The laws the simulation obeys, proved over the step functions and the tick
//! relation: bounds safety of reads, no double-processing within a pass,
//! sand settling, conservation under swap-based movement, the dirt-to-grass
//! lifecycle, fire and smoke decay, and the idleness of void cells.

use vstd::prelude::*;
use vstd::arithmetic::div_mod::{lemma_fundamental_div_mod, lemma_mod_bound};
use crate::grid::{lemma_idx_bounds, lemma_idx_injective, Cell, GridView};
use crate::rules::{
    dirt_fall, dirt_step, fire_step, grass_step, mud_fall, mud_step, rock_step, sand_step,
    smoke_drift, smoke_step, water_step,
};
use crate::substance::Substance;
use crate::tick::{cell_step, tick_chain, visit_step};

verus! {

// ------------------------------------------------------------------
// How the two marking mutations reshape the grid, cell by cell.
// ------------------------------------------------------------------

/// Writing a substance through the scoped interface changes exactly the
/// target cell: new substance, kept color, processed mark raised.
pub proof fn lemma_set_marked_get(g: GridView, x: int, y: int, s: Substance)
    requires
        g.wf(),
        g.in_bounds(x, y),
        !(s is OutOfBounds),
    ensures
        g.set_marked(x, y, s).wf(),
        g.set_marked(x, y, s).width == g.width,
        g.set_marked(x, y, s).height == g.height,
        g.set_marked(x, y, s).get(x, y) == (Cell {
            substance: s,
            color: g.get(x, y).color,
            has_ticked: true,
        }),
        forall|cx: int, cy: int|
            !(cx == x && cy == y) ==> #[trigger] g.set_marked(x, y, s).get(cx, cy) == g.get(
                cx,
                cy,
            ),
{
    let gm = g.set_marked(x, y, s);
    lemma_idx_bounds(g, x, y);
    assert forall|cx: int, cy: int| !(cx == x && cy == y) implies #[trigger] gm.get(cx, cy)
        == g.get(cx, cy) by {
        if g.in_bounds(cx, cy) {
            lemma_idx_bounds(g, cx, cy);
            lemma_idx_injective(g, x, y, cx, cy);
        }
    }
    assert forall|i: int| 0 <= i < gm.cells.len() implies !((#[trigger] gm.cells[i]).substance
        is OutOfBounds) by {
        if i != g.idx(x, y) {
            assert(gm.cells[i] == g.cells[i]);
        }
    }
}

/// Swapping through the scoped interface exchanges exactly the two cells,
/// raising both processed marks and touching nothing else.
pub proof fn lemma_swapped_marked_get(g: GridView, x1: int, y1: int, x2: int, y2: int)
    requires
        g.wf(),
        g.in_bounds(x1, y1),
        g.in_bounds(x2, y2),
    ensures
        g.swapped_marked(x1, y1, x2, y2).wf(),
        g.swapped_marked(x1, y1, x2, y2).width == g.width,
        g.swapped_marked(x1, y1, x2, y2).height == g.height,
        g.swapped_marked(x1, y1, x2, y2).get(x2, y2) == (Cell {
            substance: g.get(x1, y1).substance,
            color: g.get(x1, y1).color,
            has_ticked: true,
        }),
        !(x1 == x2 && y1 == y2) ==> g.swapped_marked(x1, y1, x2, y2).get(x1, y1) == (Cell {
            substance: g.get(x2, y2).substance,
            color: g.get(x2, y2).color,
            has_ticked: true,
        }),
        forall|cx: int, cy: int|
            !(cx == x1 && cy == y1) && !(cx == x2 && cy == y2) ==> #[trigger] g.swapped_marked(
                x1,
                y1,
                x2,
                y2,
            ).get(cx, cy) == g.get(cx, cy),
{
    let gm = g.swapped_marked(x1, y1, x2, y2);
    lemma_idx_bounds(g, x1, y1);
    lemma_idx_bounds(g, x2, y2);
    if !(x1 == x2 && y1 == y2) {
        lemma_idx_injective(g, x1, y1, x2, y2);
    }
    assert forall|cx: int, cy: int|
        !(cx == x1 && cy == y1) && !(cx == x2 && cy == y2) implies #[trigger] gm.get(cx, cy)
        == g.get(cx, cy) by {
        if g.in_bounds(cx, cy) {
            lemma_idx_bounds(g, cx, cy);
            lemma_idx_injective(g, x1, y1, cx, cy);
            lemma_idx_injective(g, x2, y2, cx, cy);
        }
    }
    assert forall|i: int| 0 <= i < gm.cells.len() implies !((#[trigger] gm.cells[i]).substance
        is OutOfBounds) by {
        if i != g.idx(x1, y1) && i != g.idx(x2, y2) {
            assert(gm.cells[i] == g.cells[i]);
        }
    }
}

// ------------------------------------------------------------------
// Bounds: reads past the edge see the sentinel and nothing else.
// ------------------------------------------------------------------

/// Reading any coordinate outside the grid yields the out-of-bounds sentinel
/// cell; mutation at such coordinates is excluded by the contracts of the
/// grid's mutating operations.
pub proof fn lemma_out_of_bounds_read(g: GridView, x: int, y: int)
    requires
        !g.in_bounds(x, y),
    ensures
        g.get(x, y) == Cell::spec_out_of_bounds(),
{
}

// ------------------------------------------------------------------
// No double-processing within one visitation pass.
// ------------------------------------------------------------------

/// Marks only accumulate from one grid to another: every cell marked
/// processed before is still marked after.
pub open spec fn marks_kept(g0: GridView, g1: GridView) -> bool {
    forall|cx: int, cy: int|
        (#[trigger] g0.get(cx, cy)).has_ticked ==> (#[trigger] g1.get(cx, cy)).has_ticked
}

/// A visit of a cell already marked processed leaves the grid unchanged.
pub proof fn lemma_processed_cell_skipped(g0: GridView, g1: GridView, x: int, y: int)
    requires
        visit_step(g0, g1, x, y),
        g0.get(x, y).has_ticked,
    ensures
        g1 == g0,
{
}

/// Sand's step preserves well-formedness and accumulates marks.
pub proof fn lemma_sand_step_props(g: GridView, x: int, y: int, o: int)
    requires
        g.wf(),
        g.in_bounds(x, y),
    ensures
        sand_step(g, x, y, o).wf(),
        sand_step(g, x, y, o).width == g.width,
        sand_step(g, x, y, o).height == g.height,
        marks_kept(g, sand_step(g, x, y, o)),
{
    let off: int = if g.get(x, y).substance == Substance::Sand(false) {
        o
    } else {
        0
    };
    let below = g.get(x + off, y + 1).substance;
    if below is Void || below is Water {
        let g1 = g.set_marked(x, y, Substance::Sand(true));
        lemma_set_marked_get(g, x, y, Substance::Sand(true));
        lemma_swapped_marked_get(g1, x, y, x + off, y + 1);
    } else {
        lemma_set_marked_get(g, x, y, Substance::Sand(false));
    }
}

/// Rock's step preserves well-formedness and accumulates marks.
pub proof fn lemma_rock_step_props(g: GridView, x: int, y: int, ox: int, oy: int, roll: u8)
    requires
        g.wf(),
        g.in_bounds(x, y),
    ensures
        rock_step(g, x, y, ox, oy, roll).wf(),
        rock_step(g, x, y, ox, oy, roll).width == g.width,
        rock_step(g, x, y, ox, oy, roll).height == g.height,
        marks_kept(g, rock_step(g, x, y, ox, oy, roll)),
{
    if g.get(x + ox, y + oy).substance is Water && roll > 6 {
        lemma_set_marked_get(g, x, y, Substance::Sand(false));
    }
}

/// Water's step preserves well-formedness and accumulates marks.
pub proof fn lemma_water_step_props(g: GridView, x: int, y: int, o1: int, o2: int)
    requires
        g.wf(),
        g.in_bounds(x, y),
    ensures
        water_step(g, x, y, o1, o2).wf(),
        water_step(g, x, y, o1, o2).width == g.width,
        water_step(g, x, y, o1, o2).height == g.height,
        marks_kept(g, water_step(g, x, y, o1, o2)),
{
    if g.get(x + o1, y + 1).substance is Void {
        lemma_swapped_marked_get(g, x, y, x + o1, y + 1);
    } else if g.get(x + o2, y).substance is Void {
        lemma_swapped_marked_get(g, x, y, x + o2, y);
    }
}

/// The shared fall-or-rest part of dirt's step preserves well-formedness and
/// accumulates marks.
pub proof fn lemma_dirt_fall_props(g: GridView, x: int, y: int, off: int, expose: u8, ox: int, oy: int)
    requires
        g.wf(),
        g.in_bounds(x, y),
    ensures
        dirt_fall(g, x, y, off, expose, ox, oy).wf(),
        dirt_fall(g, x, y, off, expose, ox, oy).width == g.width,
        dirt_fall(g, x, y, off, expose, ox, oy).height == g.height,
        marks_kept(g, dirt_fall(g, x, y, off, expose, ox, oy)),
{
    if g.get(x + off, y + 1).substance is Void {
        let g1 = g.set_marked(x, y, Substance::Dirt(true, expose));
        lemma_set_marked_get(g, x, y, Substance::Dirt(true, expose));
        lemma_swapped_marked_get(g1, x, y, x + off, y + 1);
    } else {
        let e2: u8 = if g.get(x, y - 1).substance is Void {
            (expose + 1) as u8
        } else {
            expose
        };
        let g1 = g.set_marked(x, y, Substance::Dirt(false, e2));
        lemma_set_marked_get(g, x, y, Substance::Dirt(false, e2));
        if g1.get(x + ox, y + oy).substance is Water {
            let g2 = g1.set_marked(x, y, Substance::Mud(false, 0));
            lemma_set_marked_get(g1, x, y, Substance::Mud(false, 0));
            lemma_set_marked_get(g2, x + ox, y + oy, Substance::Void);
        }
    }
}

/// Dirt's step preserves well-formedness and accumulates marks.
pub proof fn lemma_dirt_step_props(g: GridView, x: int, y: int, o: int, ox: int, oy: int)
    requires
        g.wf(),
        g.in_bounds(x, y),
    ensures
        dirt_step(g, x, y, o, ox, oy).wf(),
        dirt_step(g, x, y, o, ox, oy).width == g.width,
        dirt_step(g, x, y, o, ox, oy).height == g.height,
        marks_kept(g, dirt_step(g, x, y, o, ox, oy)),
{
    match g.get(x, y).substance {
        Substance::Dirt(false, t) => if t > 200 {
            lemma_set_marked_get(g, x, y, Substance::Grass(0, 5));
        } else {
            lemma_dirt_fall_props(g, x, y, o, t, ox, oy);
        },
        _ => {
            lemma_dirt_fall_props(g, x, y, 0, 0, ox, oy);
        },
    }
}

/// The shared fall-or-rest part of mud's step preserves well-formedness and
/// accumulates marks.
pub proof fn lemma_mud_fall_props(g: GridView, x: int, y: int, off: int, expose: u8)
    requires
        g.wf(),
        g.in_bounds(x, y),
    ensures
        mud_fall(g, x, y, off, expose).wf(),
        mud_fall(g, x, y, off, expose).width == g.width,
        mud_fall(g, x, y, off, expose).height == g.height,
        marks_kept(g, mud_fall(g, x, y, off, expose)),
{
    let below = g.get(x + off, y + 1).substance;
    if below is Void || below is Water {
        let g1 = g.set_marked(x, y, Substance::Mud(true, expose));
        lemma_set_marked_get(g, x, y, Substance::Mud(true, expose));
        lemma_swapped_marked_get(g1, x, y, x + off, y + 1);
    } else {
        let e2: u8 = if g.get(x, y - 1).substance is Void {
            (expose + 1) as u8
        } else {
            expose
        };
        lemma_set_marked_get(g, x, y, Substance::Mud(false, e2));
    }
}

/// Mud's step preserves well-formedness and accumulates marks.
pub proof fn lemma_mud_step_props(g: GridView, x: int, y: int, o: int)
    requires
        g.wf(),
        g.in_bounds(x, y),
    ensures
        mud_step(g, x, y, o).wf(),
        mud_step(g, x, y, o).width == g.width,
        mud_step(g, x, y, o).height == g.height,
        marks_kept(g, mud_step(g, x, y, o)),
{
    match g.get(x, y).substance {
        Substance::Mud(false, t) => if t > 200 {
            lemma_set_marked_get(g, x, y, Substance::Dirt(false, 0));
        } else {
            lemma_mud_fall_props(g, x, y, o, t);
        },
        _ => {
            lemma_mud_fall_props(g, x, y, 0, 0);
        },
    }
}

/// Grass's step preserves well-formedness and accumulates marks.
pub proof fn lemma_grass_step_props(g: GridView, x: int, y: int, roll: u8)
    requires
        g.wf(),
        g.in_bounds(x, y),
    ensures
        grass_step(g, x, y, roll).wf(),
        grass_step(g, x, y, roll).width == g.width,
        grass_step(g, x, y, roll).height == g.height,
        marks_kept(g, grass_step(g, x, y, roll)),
{
    match g.get(x, y).substance {
        Substance::Grass(time, remheight) => match g.get(x, y - 1).substance {
            Substance::Void => if remheight > 0 && time > 5 {
                lemma_set_marked_get(g, x, y - 1, Substance::Grass(0, (remheight - 1) as u8));
            } else if roll > 8 {
                let grown: u8 = if time < 255 {
                    (time + 1) as u8
                } else {
                    time
                };
                lemma_set_marked_get(g, x, y, Substance::Grass(grown, remheight));
            } else {
            },
            Substance::Grass(_, rh) => if remheight > 0 && rh < remheight - 1 {
                lemma_set_marked_get(g, x, y, Substance::Grass(0, (remheight - 1) as u8));
            } else {
            },
            Substance::Fire(_) => {
            },
            _ => {
                lemma_set_marked_get(g, x, y, Substance::Dirt(false, 0));
            },
        },
        _ => {
        },
    }
}

/// Fire's step preserves well-formedness and accumulates marks.
pub proof fn lemma_fire_step_props(
    g: GridView,
    x: int,
    y: int,
    ox: int,
    oy: int,
    ra: u8,
    la: u8,
    rb: u8,
    lb: u8,
)
    requires
        g.wf(),
        g.in_bounds(x, y),
    ensures
        fire_step(g, x, y, ox, oy, ra, la, rb, lb).wf(),
        fire_step(g, x, y, ox, oy, ra, la, rb, lb).width == g.width,
        fire_step(g, x, y, ox, oy, ra, la, rb, lb).height == g.height,
        marks_kept(g, fire_step(g, x, y, ox, oy, ra, la, rb, lb)),
{
    let g1 = match g.get(x + ox, y + oy).substance {
        Substance::Grass(_, _) => if ra > 5 {
            g.set_marked(x + ox, y + oy, Substance::Fire(10))
        } else {
            g
        },
        Substance::Void => if ra > 7 {
            g.set_marked(x + ox, y + oy, Substance::Smoke(la))
        } else {
            g
        },
        _ => g,
    };
    match g.get(x + ox, y + oy).substance {
        Substance::Grass(_, _) => if ra > 5 {
            lemma_set_marked_get(g, x + ox, y + oy, Substance::Fire(10));
        } else {
        },
        Substance::Void => if ra > 7 {
            lemma_set_marked_get(g, x + ox, y + oy, Substance::Smoke(la));
        } else {
        },
        _ => {
        },
    }
    match g1.get(x, y).substance {
        Substance::Fire(fuel) => if rb > 5 {
            if fuel < 1 {
                lemma_set_marked_get(g1, x, y, Substance::Smoke(lb));
            } else {
                lemma_set_marked_get(g1, x, y, Substance::Fire((fuel - 1) as u8));
            }
        } else {
        },
        _ => {
        },
    }
}

/// The shared drift part of smoke's step preserves well-formedness and
/// accumulates marks.
pub proof fn lemma_smoke_drift_props(g: GridView, x: int, y: int, o1: int, o2: int)
    requires
        g.wf(),
        g.in_bounds(x, y),
    ensures
        smoke_drift(g, x, y, o1, o2).wf(),
        smoke_drift(g, x, y, o1, o2).width == g.width,
        smoke_drift(g, x, y, o1, o2).height == g.height,
        marks_kept(g, smoke_drift(g, x, y, o1, o2)),
{
    if g.get(x + o1, y - 1).substance is Void {
        lemma_swapped_marked_get(g, x, y, x + o1, y - 1);
    } else if g.get(x + o2, y).substance is Void {
        lemma_swapped_marked_get(g, x, y, x + o2, y);
    }
}

/// Smoke's step preserves well-formedness and accumulates marks.
pub proof fn lemma_smoke_step_props(g: GridView, x: int, y: int, o1: int, o2: int)
    requires
        g.wf(),
        g.in_bounds(x, y),
    ensures
        smoke_step(g, x, y, o1, o2).wf(),
        smoke_step(g, x, y, o1, o2).width == g.width,
        smoke_step(g, x, y, o1, o2).height == g.height,
        marks_kept(g, smoke_step(g, x, y, o1, o2)),
{
    match g.get(x, y).substance {
        Substance::Smoke(t) => if t > 0 {
            let g1 = g.set_marked(x, y, Substance::Smoke((t - 1) as u8));
            lemma_set_marked_get(g, x, y, Substance::Smoke((t - 1) as u8));
            lemma_smoke_drift_props(g1, x, y, o1, o2);
        } else {
            lemma_set_marked_get(g, x, y, Substance::Void);
        },
        _ => {
            lemma_smoke_drift_props(g, x, y, o1, o2);
        },
    }
}

/// One cell visitation preserves well-formedness, the dimensions, and every
/// processed mark already raised.
pub proof fn lemma_cell_step_props(g0: GridView, g1: GridView, x: int, y: int)
    requires
        g0.wf(),
        g0.in_bounds(x, y),
        cell_step(g0, g1, x, y),
    ensures
        g1.wf(),
        g1.width == g0.width,
        g1.height == g0.height,
        marks_kept(g0, g1),
{
    match g0.get(x, y).substance {
        Substance::Void => {
        },
        Substance::OutOfBounds => {
        },
        Substance::Sand(_) => {
            let o = choose|o: int| -1 <= o <= 1 && g1 == sand_step(g0, x, y, o);
            lemma_sand_step_props(g0, x, y, o);
        },
        Substance::Rock => {
            let (ox, oy, roll) = choose|ox: int, oy: int, roll: u8|
                -1 <= ox <= 1 && -1 <= oy <= 1 && roll < 10 && g1 == rock_step(
                    g0,
                    x,
                    y,
                    ox,
                    oy,
                    roll,
                );
            lemma_rock_step_props(g0, x, y, ox, oy, roll);
        },
        Substance::Water => {
            let (o1, o2) = choose|o1: int, o2: int|
                -1 <= o1 <= 1 && -1 <= o2 <= 1 && g1 == water_step(g0, x, y, o1, o2);
            lemma_water_step_props(g0, x, y, o1, o2);
        },
        Substance::Dirt(_, _) => {
            let (o, ox, oy) = choose|o: int, ox: int, oy: int|
                -1 <= o <= 1 && -1 <= ox <= 1 && -1 <= oy <= 1 && g1 == dirt_step(
                    g0,
                    x,
                    y,
                    o,
                    ox,
                    oy,
                );
            lemma_dirt_step_props(g0, x, y, o, ox, oy);
        },
        Substance::Mud(_, _) => {
            let o = choose|o: int| -1 <= o <= 1 && g1 == mud_step(g0, x, y, o);
            lemma_mud_step_props(g0, x, y, o);
        },
        Substance::Grass(_, _) => {
            let roll = choose|roll: u8| roll < 10 && g1 == grass_step(g0, x, y, roll);
            lemma_grass_step_props(g0, x, y, roll);
        },
        Substance::Fire(_) => {
            let (ox, oy, ra, la, rb, lb) = choose|
                ox: int,
                oy: int,
                ra: u8,
                la: u8,
                rb: u8,
                lb: u8,
            |
                -1 <= ox <= 1 && -1 <= oy <= 1 && ra < 10 && 100 <= la < 250 && rb < 10 && 100
                    <= lb < 250 && g1 == fire_step(g0, x, y, ox, oy, ra, la, rb, lb);
            lemma_fire_step_props(g0, x, y, ox, oy, ra, la, rb, lb);
        },
        Substance::Smoke(_) => {
            let (o1, o2) = choose|o1: int, o2: int|
                -1 <= o1 <= 1 && -1 <= o2 <= 1 && g1 == smoke_step(g0, x, y, o1, o2);
            lemma_smoke_step_props(g0, x, y, o1, o2);
        },
    }
}

/// One scheduler visit preserves well-formedness, the dimensions, and every
/// processed mark already raised.
pub proof fn lemma_visit_step_props(g0: GridView, g1: GridView, x: int, y: int)
    requires
        g0.wf(),
        g0.in_bounds(x, y),
        visit_step(g0, g1, x, y),
    ensures
        g1.wf(),
        g1.width == g0.width,
        g1.height == g0.height,
        marks_kept(g0, g1),
{
    if !g0.get(x, y).has_ticked {
        lemma_cell_step_props(g0, g1, x, y);
    }
}

/// Clearing the marks preserves well-formedness and the dimensions.
pub proof fn lemma_cleared_props(g: GridView)
    requires
        g.wf(),
    ensures
        g.cleared().wf(),
        g.cleared().width == g.width,
        g.cleared().height == g.height,
{
    assert forall|i: int|
        0 <= i < g.cleared().cells.len() implies !((#[trigger] g.cleared().cells[i]).substance
        is OutOfBounds) by {
        assert(g.cleared().cells[i].substance == g.cells[i].substance);
    }
}

/// The scan position of visit number k lies inside the grid.
pub proof fn lemma_scan_coords(w: int, h: int, k: int)
    requires
        0 <= w,
        0 <= h,
        0 <= k < w * h,
    ensures
        0 <= k / h < w,
        0 <= k % h < h,
{
    assert(h > 0) by (nonlinear_arith)
        requires
            0 <= k < w * h,
            0 <= h,
    ;
    lemma_fundamental_div_mod(k, h);
    lemma_mod_bound(k, h);
    assert(0 <= k / h < w) by (nonlinear_arith)
        requires
            h > 0,
            0 <= k < w * h,
            k == h * (k / h) + k % h,
            0 <= k % h < h,
    ;
}

/// Every grid along a tick's visitation chain is well-formed with the
/// original dimensions.
pub proof fn lemma_chain_wf(g0: GridView, g1: GridView, gs: Seq<GridView>, k: int)
    requires
        g0.wf(),
        tick_chain(g0, g1, gs),
        0 <= k <= g0.width * g0.height,
    ensures
        gs[k].wf(),
        gs[k].width == g0.width,
        gs[k].height == g0.height,
    decreases k,
{
    if k == 0 {
        lemma_cleared_props(g0);
    } else {
        let kk = k - 1;
        lemma_chain_wf(g0, g1, gs, kk);
        lemma_scan_coords(g0.width, g0.height, kk);
        assert(visit_step(gs[kk], gs[kk + 1], kk / g0.height, kk % g0.height));
        lemma_visit_step_props(gs[kk], gs[kk + 1], kk / g0.height, kk % g0.height);
    }
}

/// Along a tick's visitation chain, a processed mark once raised stays
/// raised.
pub proof fn lemma_marks_persist(g0: GridView, g1: GridView, gs: Seq<GridView>, j: int, k: int)
    requires
        g0.wf(),
        tick_chain(g0, g1, gs),
        0 <= j <= k <= g0.width * g0.height,
    ensures
        marks_kept(gs[j], gs[k]),
    decreases k - j,
{
    if j == k {
        assert forall|cx: int, cy: int| (#[trigger] gs[j].get(cx, cy)).has_ticked implies (
        #[trigger] gs[k].get(cx, cy)).has_ticked by {}
    } else {
        lemma_marks_persist(g0, g1, gs, j, k - 1);
        let kk = k - 1;
        lemma_chain_wf(g0, g1, gs, kk);
        lemma_scan_coords(g0.width, g0.height, kk);
        assert(visit_step(gs[kk], gs[kk + 1], kk / g0.height, kk % g0.height));
        lemma_visit_step_props(gs[kk], gs[kk + 1], kk / g0.height, kk % g0.height);
        assert forall|cx: int, cy: int| (#[trigger] gs[j].get(cx, cy)).has_ticked implies (
        #[trigger] gs[k].get(cx, cy)).has_ticked by {
            assert(gs[k - 1].get(cx, cy).has_ticked);
        }
    }
}

/// No double-processing: a cell marked processed at some point of a tick's
/// visitation pass — for instance because an earlier visit swapped a
/// substance into it — is skipped, not dispatched, by every later visit of
/// that position in the same pass.
pub proof fn lemma_no_double_processing(
    g0: GridView,
    g1: GridView,
    gs: Seq<GridView>,
    j: int,
    k: int,
)
    requires
        g0.wf(),
        tick_chain(g0, g1, gs),
        0 <= j <= k < g0.width * g0.height,
        gs[j].get(k / g0.height, k % g0.height).has_ticked,
    ensures
        gs[k + 1] == gs[k],
{
    lemma_marks_persist(g0, g1, gs, j, k);
    assert(gs[k].get(k / g0.height, k % g0.height).has_ticked);
    assert(visit_step(gs[k], gs[k + 1], k / g0.height, k % g0.height));
}

// ------------------------------------------------------------------
// Sand settling.
// ------------------------------------------------------------------

/// A resting grain of sand with void below at its drawn offset settles within
/// its step: it becomes a falling grain occupying that cell below, leaving
/// void (the swapped-up cell) in its original position, both marked.
pub proof fn lemma_sand_settles(g: GridView, x: int, y: int, o: int)
    requires
        g.wf(),
        g.in_bounds(x, y),
        g.get(x, y).substance == Substance::Sand(false),
        g.get(x + o, y + 1).substance is Void,
    ensures
        sand_step(g, x, y, o).get(x + o, y + 1) == (Cell {
            substance: Substance::Sand(true),
            color: g.get(x, y).color,
            has_ticked: true,
        }),
        sand_step(g, x, y, o).get(x, y).substance is Void,
        sand_step(g, x, y, o).get(x, y).has_ticked,
{
    let g1 = g.set_marked(x, y, Substance::Sand(true));
    lemma_set_marked_get(g, x, y, Substance::Sand(true));
    lemma_swapped_marked_get(g1, x, y, x + o, y + 1);
}

// ------------------------------------------------------------------
// Conservation under swap-based movement.
// ------------------------------------------------------------------

/// How many cells of a sequence hold something other than void.
pub open spec fn count_non_void(cells: Seq<Cell>) -> int
    decreases cells.len(),
{
    if cells.len() == 0 {
        0
    } else {
        count_non_void(cells.drop_last()) + (if cells.last().substance is Void {
            0int
        } else {
            1int
        })
    }
}

/// The non-void contribution of one cell.
pub open spec fn non_void_weight(c: Cell) -> int {
    if c.substance is Void {
        0
    } else {
        1
    }
}

/// Updating one cell shifts the non-void count by the difference of the two
/// cells' contributions.
pub proof fn lemma_count_update(cells: Seq<Cell>, i: int, c: Cell)
    requires
        0 <= i < cells.len(),
    ensures
        count_non_void(cells.update(i, c)) == count_non_void(cells) - non_void_weight(cells[i])
            + non_void_weight(c),
    decreases cells.len(),
{
    let s2 = cells.update(i, c);
    if i == cells.len() - 1 {
        assert(s2.drop_last() =~= cells.drop_last());
    } else {
        assert(s2.drop_last() =~= cells.drop_last().update(i, c));
        lemma_count_update(cells.drop_last(), i, c);
    }
}

/// A marked swap conserves the non-void cell count: substances only change
/// places.
pub proof fn lemma_swapped_marked_conserves(g: GridView, x1: int, y1: int, x2: int, y2: int)
    requires
        g.wf(),
        g.in_bounds(x1, y1),
        g.in_bounds(x2, y2),
    ensures
        count_non_void(g.swapped_marked(x1, y1, x2, y2).cells) == count_non_void(g.cells),
{
    lemma_idx_bounds(g, x1, y1);
    lemma_idx_bounds(g, x2, y2);
    let c1 = g.get(x1, y1);
    let c2 = g.get(x2, y2);
    let m1 = Cell { substance: c2.substance, color: c2.color, has_ticked: true };
    let m2 = Cell { substance: c1.substance, color: c1.color, has_ticked: true };
    let s1 = g.cells.update(g.idx(x1, y1), m1);
    lemma_count_update(g.cells, g.idx(x1, y1), m1);
    lemma_count_update(s1, g.idx(x2, y2), m2);
}

/// Water moves only by swapping, so its step conserves the non-void cell
/// count: a pool spreading sideways or falling loses no cells.
pub proof fn lemma_water_step_conserves(g: GridView, x: int, y: int, o1: int, o2: int)
    requires
        g.wf(),
        g.in_bounds(x, y),
    ensures
        count_non_void(water_step(g, x, y, o1, o2).cells) == count_non_void(g.cells),
{
    if g.get(x + o1, y + 1).substance is Void {
        lemma_swapped_marked_conserves(g, x, y, x + o1, y + 1);
    } else if g.get(x + o2, y).substance is Void {
        lemma_swapped_marked_conserves(g, x, y, x + o2, y);
    }
}

/// Writing one cell shifts the non-void count by the weight difference of the
/// old and new occupant.
pub proof fn lemma_set_marked_count(g: GridView, x: int, y: int, s: Substance)
    requires
        g.wf(),
        g.in_bounds(x, y),
    ensures
        count_non_void(g.set_marked(x, y, s).cells) == count_non_void(g.cells) - non_void_weight(
            g.get(x, y),
        ) + non_void_weight(
            Cell { substance: s, color: g.get(x, y).color, has_ticked: true },
        ),
{
    lemma_idx_bounds(g, x, y);
    lemma_count_update(
        g.cells,
        g.idx(x, y),
        Cell { substance: s, color: g.get(x, y).color, has_ticked: true },
    );
}

/// Sand moves only by swapping and rewrites itself as sand, so its step
/// conserves the non-void cell count.
pub proof fn lemma_sand_step_conserves(g: GridView, x: int, y: int, o: int)
    requires
        g.wf(),
        g.in_bounds(x, y),
        g.get(x, y).substance is Sand,
    ensures
        count_non_void(sand_step(g, x, y, o).cells) == count_non_void(g.cells),
{
    let off: int = if g.get(x, y).substance == Substance::Sand(false) {
        o
    } else {
        0
    };
    let below = g.get(x + off, y + 1).substance;
    if below is Void || below is Water {
        let g1 = g.set_marked(x, y, Substance::Sand(true));
        lemma_set_marked_count(g, x, y, Substance::Sand(true));
        lemma_set_marked_get(g, x, y, Substance::Sand(true));
        lemma_swapped_marked_conserves(g1, x, y, x + off, y + 1);
    } else {
        lemma_set_marked_count(g, x, y, Substance::Sand(false));
    }
}

/// Mud moves only by swapping and rewrites itself as mud or dirt, so its step
/// conserves the non-void cell count.
pub proof fn lemma_mud_step_conserves(g: GridView, x: int, y: int, o: int)
    requires
        g.wf(),
        g.in_bounds(x, y),
        g.get(x, y).substance is Mud,
    ensures
        count_non_void(mud_step(g, x, y, o).cells) == count_non_void(g.cells),
{
    match g.get(x, y).substance {
        Substance::Mud(false, t) => if t > 200 {
            lemma_set_marked_count(g, x, y, Substance::Dirt(false, 0));
        } else {
            lemma_mud_fall_conserves(g, x, y, o, t);
        },
        _ => {
            lemma_mud_fall_conserves(g, x, y, 0, 0);
        },
    }
}

/// The fall-or-rest part of mud's step conserves the non-void cell count when
/// the cell holds mud.
pub proof fn lemma_mud_fall_conserves(g: GridView, x: int, y: int, off: int, expose: u8)
    requires
        g.wf(),
        g.in_bounds(x, y),
        g.get(x, y).substance is Mud,
    ensures
        count_non_void(mud_fall(g, x, y, off, expose).cells) == count_non_void(g.cells),
{
    let below = g.get(x + off, y + 1).substance;
    if below is Void || below is Water {
        let g1 = g.set_marked(x, y, Substance::Mud(true, expose));
        lemma_set_marked_count(g, x, y, Substance::Mud(true, expose));
        lemma_set_marked_get(g, x, y, Substance::Mud(true, expose));
        lemma_swapped_marked_conserves(g1, x, y, x + off, y + 1);
    } else {
        let e2: u8 = if g.get(x, y - 1).substance is Void {
            (expose + 1) as u8
        } else {
            expose
        };
        lemma_set_marked_count(g, x, y, Substance::Mud(false, e2));
    }
}

/// Smoke's drift moves only by swapping, so it conserves the non-void cell
/// count.
pub proof fn lemma_smoke_drift_conserves(g: GridView, x: int, y: int, o1: int, o2: int)
    requires
        g.wf(),
        g.in_bounds(x, y),
    ensures
        count_non_void(smoke_drift(g, x, y, o1, o2).cells) == count_non_void(g.cells),
{
    if g.get(x + o1, y - 1).substance is Void {
        lemma_swapped_marked_conserves(g, x, y, x + o1, y - 1);
    } else if g.get(x + o2, y).substance is Void {
        lemma_swapped_marked_conserves(g, x, y, x + o2, y);
    }
}

// ------------------------------------------------------------------
// The dirt-to-grass lifecycle.
// ------------------------------------------------------------------

/// Resting dirt past the exposure threshold converts to grass with the full
/// growth budget, and its step does nothing else.
pub proof fn lemma_dirt_becomes_grass(g: GridView, x: int, y: int, o: int, ox: int, oy: int, t: u8)
    requires
        g.get(x, y).substance == Substance::Dirt(false, t),
        t > 200,
    ensures
        dirt_step(g, x, y, o, ox, oy) == g.set_marked(x, y, Substance::Grass(0, 5)),
{
}

/// Below the exposure threshold, dirt never turns to grass within one step.
pub proof fn lemma_dirt_no_early_grass(g: GridView, x: int, y: int, o: int, ox: int, oy: int, t: u8)
    requires
        g.wf(),
        g.in_bounds(x, y),
        g.get(x, y).substance == Substance::Dirt(false, t),
        t <= 200,
    ensures
        !(dirt_step(g, x, y, o, ox, oy).get(x, y).substance is Grass),
{
    if g.get(x + o, y + 1).substance is Void {
        let g1 = g.set_marked(x, y, Substance::Dirt(true, t));
        lemma_set_marked_get(g, x, y, Substance::Dirt(true, t));
        lemma_swapped_marked_get(g1, x, y, x + o, y + 1);
    } else {
        let e2: u8 = if g.get(x, y - 1).substance is Void {
            (t + 1) as u8
        } else {
            t
        };
        let g1 = g.set_marked(x, y, Substance::Dirt(false, e2));
        lemma_set_marked_get(g, x, y, Substance::Dirt(false, e2));
        if g1.get(x + ox, y + oy).substance is Water {
            let g2 = g1.set_marked(x, y, Substance::Mud(false, 0));
            lemma_set_marked_get(g1, x, y, Substance::Mud(false, 0));
            lemma_set_marked_get(g2, x + ox, y + oy, Substance::Void);
        }
    }
}

/// Grass with void, grass, or fire directly above stays grass through its
/// step: only another occupant above reverts it to dirt.
pub proof fn lemma_grass_persists(g: GridView, x: int, y: int, roll: u8, t: u8, rh: u8)
    requires
        g.wf(),
        g.in_bounds(x, y),
        g.get(x, y).substance == Substance::Grass(t, rh),
        g.get(x, y - 1).substance is Void || g.get(x, y - 1).substance is Grass || g.get(
            x,
            y - 1,
        ).substance is Fire,
    ensures
        grass_step(g, x, y, roll).get(x, y).substance is Grass,
{
    match g.get(x, y - 1).substance {
        Substance::Void => if rh > 0 && t > 5 {
            lemma_set_marked_get(g, x, y - 1, Substance::Grass(0, (rh - 1) as u8));
        } else if roll > 8 {
            let grown: u8 = if t < 255 {
                (t + 1) as u8
            } else {
                t
            };
            lemma_set_marked_get(g, x, y, Substance::Grass(grown, rh));
        } else {
        },
        Substance::Grass(_, orh) => if rh > 0 && orh < rh - 1 {
            lemma_set_marked_get(g, x, y, Substance::Grass(0, (rh - 1) as u8));
        } else {
        },
        _ => {
        },
    }
}

// ------------------------------------------------------------------
// Fire and smoke decay.
// ------------------------------------------------------------------

/// A fire with no fuel left turns to smoke with the drawn lifetime once its
/// fuel-consumption roll succeeds.
pub proof fn lemma_fire_burns_out(
    g: GridView,
    x: int,
    y: int,
    ox: int,
    oy: int,
    ra: u8,
    la: u8,
    rb: u8,
    lb: u8,
)
    requires
        g.wf(),
        g.in_bounds(x, y),
        g.get(x, y).substance == Substance::Fire(0),
        rb > 5,
    ensures
        fire_step(g, x, y, ox, oy, ra, la, rb, lb).get(x, y).substance == Substance::Smoke(lb),
{
    let g1 = match g.get(x + ox, y + oy).substance {
        Substance::Grass(_, _) => if ra > 5 {
            g.set_marked(x + ox, y + oy, Substance::Fire(10))
        } else {
            g
        },
        Substance::Void => if ra > 7 {
            g.set_marked(x + ox, y + oy, Substance::Smoke(la))
        } else {
            g
        },
        _ => g,
    };
    match g.get(x + ox, y + oy).substance {
        Substance::Grass(_, _) => if ra > 5 {
            lemma_set_marked_get(g, x + ox, y + oy, Substance::Fire(10));
        } else {
        },
        Substance::Void => if ra > 7 {
            lemma_set_marked_get(g, x + ox, y + oy, Substance::Smoke(la));
        } else {
        },
        _ => {
        },
    }
    assert(g1.get(x, y).substance == Substance::Fire(0));
    lemma_set_marked_get(g1, x, y, Substance::Smoke(lb));
}

/// Smoke whose lifetime has run out clears to void in its step.
pub proof fn lemma_smoke_expires(g: GridView, x: int, y: int, o1: int, o2: int)
    requires
        g.wf(),
        g.in_bounds(x, y),
        g.get(x, y).substance == Substance::Smoke(0),
    ensures
        smoke_step(g, x, y, o1, o2).get(x, y).substance is Void,
        smoke_step(g, x, y, o1, o2).get(x, y).has_ticked,
{
    lemma_set_marked_get(g, x, y, Substance::Void);
}

// ------------------------------------------------------------------
// Idle substances.
// ------------------------------------------------------------------

/// A visitation of a void cell leaves the grid entirely unchanged.
pub proof fn lemma_void_cell_unchanged(g0: GridView, g1: GridView, x: int, y: int)
    requires
        cell_step(g0, g1, x, y),
        g0.get(x, y).substance is Void,
    ensures
        g1 == g0,
{
}

/// A visitation of a position reading as out-of-bounds leaves the grid
/// entirely unchanged; the sentinel is never stored, so this also covers
/// every read past the edge.
pub proof fn lemma_out_of_bounds_cell_unchanged(g0: GridView, g1: GridView, x: int, y: int)
    requires
        cell_step(g0, g1, x, y),
        g0.get(x, y).substance is OutOfBounds,
    ensures
        g1 == g0,
{
}

} // verus!
