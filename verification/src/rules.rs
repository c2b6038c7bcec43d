//! The per-substance transition rules. Each substance has a mathematical step
//! function describing exactly what one visitation does to the grid given the
//! tie-break draws, a deterministic rule taking those draws as arguments and
//! proved equal to the step function, and an entry point that makes the draws.

use vstd::prelude::*;
use crate::grid::{GridView, Universe, UniverseInterface};
use crate::substance::Substance;
use crate::rng::{random_digit, random_lifetime, random_offset};

verus! {

/// Void does nothing.
pub open spec fn void_step(g: GridView) -> GridView {
    g
}

/// Sand: a resting grain draws a horizontal offset; if the cell below at that
/// offset is void or water, the grain marks itself falling and swaps into it,
/// otherwise it comes to rest. A falling grain checks straight down.
pub open spec fn sand_step(g: GridView, x: int, y: int, o: int) -> GridView {
    let off: int = if g.get(x, y).substance == Substance::Sand(false) {
        o
    } else {
        0
    };
    let below = g.get(x + off, y + 1).substance;
    if below is Void || below is Water {
        g.set_marked(x, y, Substance::Sand(true)).swapped_marked(x, y, x + off, y + 1)
    } else {
        g.set_marked(x, y, Substance::Sand(false))
    }
}

/// Rock: if the sampled neighbor is water and the erosion roll succeeds, the
/// rock erodes to resting sand; otherwise nothing happens.
pub open spec fn rock_step(g: GridView, x: int, y: int, ox: int, oy: int, roll: u8) -> GridView {
    if g.get(x + ox, y + oy).substance is Water && roll > 6 {
        g.set_marked(x, y, Substance::Sand(false))
    } else {
        g
    }
}

/// Water: fall into void below with horizontal jitter; if blocked, flow
/// sideways into void at the same row with a fresh offset.
pub open spec fn water_step(g: GridView, x: int, y: int, o1: int, o2: int) -> GridView {
    if g.get(x + o1, y + 1).substance is Void {
        g.swapped_marked(x, y, x + o1, y + 1)
    } else if g.get(x + o2, y).substance is Void {
        g.swapped_marked(x, y, x + o2, y)
    } else {
        g
    }
}

/// The fall-or-rest part of dirt's rule, shared by resting and falling dirt.
pub open spec fn dirt_fall(g: GridView, x: int, y: int, off: int, expose: u8, ox: int, oy: int) -> GridView {
    if g.get(x + off, y + 1).substance is Void {
        g.set_marked(x, y, Substance::Dirt(true, expose)).swapped_marked(x, y, x + off, y + 1)
    } else {
        let e2: u8 = if g.get(x, y - 1).substance is Void {
            (expose + 1) as u8
        } else {
            expose
        };
        let g1 = g.set_marked(x, y, Substance::Dirt(false, e2));
        if g1.get(x + ox, y + oy).substance is Water {
            g1.set_marked(x, y, Substance::Mud(false, 0)).set_marked(x + ox, y + oy, Substance::Void)
        } else {
            g1
        }
    }
}

/// Dirt: past the exposure threshold a resting cell converts to grass with the
/// full growth budget; otherwise it falls like sand (through void only),
/// tallies exposure while resting under open air, and soaks into mud when the
/// sampled neighbor is water, clearing that neighbor.
pub open spec fn dirt_step(g: GridView, x: int, y: int, o: int, ox: int, oy: int) -> GridView {
    match g.get(x, y).substance {
        Substance::Dirt(false, t) => if t > 200 {
            g.set_marked(x, y, Substance::Grass(0, 5))
        } else {
            dirt_fall(g, x, y, o, t, ox, oy)
        },
        _ => dirt_fall(g, x, y, 0, 0, ox, oy),
    }
}

/// The fall-or-rest part of mud's rule; mud falls through both void and water.
pub open spec fn mud_fall(g: GridView, x: int, y: int, off: int, expose: u8) -> GridView {
    let below = g.get(x + off, y + 1).substance;
    if below is Void || below is Water {
        g.set_marked(x, y, Substance::Mud(true, expose)).swapped_marked(x, y, x + off, y + 1)
    } else {
        let e2: u8 = if g.get(x, y - 1).substance is Void {
            (expose + 1) as u8
        } else {
            expose
        };
        g.set_marked(x, y, Substance::Mud(false, e2))
    }
}

/// Mud: mirrors dirt's fall/rest/exposure mechanics but dries back to fresh
/// dirt past the exposure threshold, and falls through void and water.
pub open spec fn mud_step(g: GridView, x: int, y: int, o: int) -> GridView {
    match g.get(x, y).substance {
        Substance::Mud(false, t) => if t > 200 {
            g.set_marked(x, y, Substance::Dirt(false, 0))
        } else {
            mud_fall(g, x, y, o, t)
        },
        _ => mud_fall(g, x, y, 0, 0),
    }
}

/// Grass: under open air it grows a new blade above once enough grow ticks
/// accumulated and budget remains, else it accumulates a grow tick on a
/// successful roll (saturating the counter). Under grass with a smaller
/// budget it propagates the decremented budget. Under fire it waits. Under
/// anything else it reverts to fresh dirt.
pub open spec fn grass_step(g: GridView, x: int, y: int, roll: u8) -> GridView {
    match g.get(x, y).substance {
        Substance::Grass(time, remheight) => match g.get(x, y - 1).substance {
            Substance::Void => if remheight > 0 && time > 5 {
                g.set_marked(x, y - 1, Substance::Grass(0, (remheight - 1) as u8))
            } else if roll > 8 {
                let grown: u8 = if time < 255 {
                    (time + 1) as u8
                } else {
                    time
                };
                g.set_marked(x, y, Substance::Grass(grown, remheight))
            } else {
                g
            },
            Substance::Grass(_, rh) => if remheight > 0 && rh < remheight - 1 {
                g.set_marked(x, y, Substance::Grass(0, (remheight - 1) as u8))
            } else {
                g
            },
            Substance::Fire(_) => g,
            _ => g.set_marked(x, y, Substance::Dirt(false, 0)),
        },
        _ => g,
    }
}

/// Fire: the sampled neighbor is ignited if it is grass and the spread roll
/// succeeds, or seeded with smoke if it is void and the roll succeeds; then,
/// on a successful burn roll, one fuel unit is consumed, the cell turning to
/// smoke once the fuel is gone.
pub open spec fn fire_step(
    g: GridView,
    x: int,
    y: int,
    ox: int,
    oy: int,
    spread_roll: u8,
    spawn_lifetime: u8,
    burn_roll: u8,
    burn_lifetime: u8,
) -> GridView {
    let g1 = match g.get(x + ox, y + oy).substance {
        Substance::Grass(_, _) => if spread_roll > 5 {
            g.set_marked(x + ox, y + oy, Substance::Fire(10))
        } else {
            g
        },
        Substance::Void => if spread_roll > 7 {
            g.set_marked(x + ox, y + oy, Substance::Smoke(spawn_lifetime))
        } else {
            g
        },
        _ => g,
    };
    match g1.get(x, y).substance {
        Substance::Fire(fuel) => if burn_roll > 5 {
            if fuel < 1 {
                g1.set_marked(x, y, Substance::Smoke(burn_lifetime))
            } else {
                g1.set_marked(x, y, Substance::Fire((fuel - 1) as u8))
            }
        } else {
            g1
        },
        _ => g1,
    }
}

/// The upward drift shared by smoke: up with jitter into void, else sideways.
pub open spec fn smoke_drift(g: GridView, x: int, y: int, o1: int, o2: int) -> GridView {
    if g.get(x + o1, y - 1).substance is Void {
        g.swapped_marked(x, y, x + o1, y - 1)
    } else if g.get(x + o2, y).substance is Void {
        g.swapped_marked(x, y, x + o2, y)
    } else {
        g
    }
}

/// Smoke: its lifetime counts down, reaching zero it clears to void;
/// otherwise it drifts upward like a mirror image of falling water.
pub open spec fn smoke_step(g: GridView, x: int, y: int, o1: int, o2: int) -> GridView {
    match g.get(x, y).substance {
        Substance::Smoke(t) => if t > 0 {
            smoke_drift(g.set_marked(x, y, Substance::Smoke((t - 1) as u8)), x, y, o1, o2)
        } else {
            g.set_marked(x, y, Substance::Void)
        },
        _ => smoke_drift(g, x, y, o1, o2),
    }
}

/// Void's rule: a no-op.
pub fn update_void(u: &mut Universe, _x: isize, _y: isize)
    requires
        old(u).wf(),
    ensures
        final(u).wf(),
        final(u)@ == void_step(old(u)@),
{
}

/// Sand's rule for a given tie-break offset.
pub fn update_sand_with(u: &mut Universe, x: isize, y: isize, offset: isize)
    requires
        old(u).wf(),
        old(u)@.in_bounds(x as int, y as int),
        -1 <= offset <= 1,
    ensures
        final(u).wf(),
        final(u)@ == sand_step(old(u)@, x as int, y as int, offset as int),
        final(u).width == old(u).width,
        final(u).height == old(u).height,
{
    let iface = UniverseInterface { x, y };
    let cur = iface.get(u, 0, 0);
    let off: isize = match cur.substance {
        Substance::Sand(false) => offset,
        _ => 0,
    };
    let below = iface.get(u, off, 1);
    match below.substance {
        Substance::Void | Substance::Water => {
            iface.set(u, 0, 0, Substance::Sand(true));
            iface.swap(u, off, 1);
        },
        _ => {
            iface.set(u, 0, 0, Substance::Sand(false));
        },
    }
}

/// One visitation of a sand cell: draw the tie-break, then run the rule.
pub fn update_sand(u: &mut Universe, x: isize, y: isize)
    requires
        old(u).wf(),
        old(u)@.in_bounds(x as int, y as int),
    ensures
        final(u).wf(),
        final(u).width == old(u).width,
        final(u).height == old(u).height,
        exists|o: int| -1 <= o <= 1 && final(u)@ == sand_step(old(u)@, x as int, y as int, o),
{
    let o = random_offset();
    update_sand_with(u, x, y, o);
    proof {
        assert(-1 <= o as int <= 1 && u@ == sand_step(old(u)@, x as int, y as int, o as int));
    }
}

/// Rock's rule for a given neighbor sample and erosion roll.
pub fn update_rock_with(u: &mut Universe, x: isize, y: isize, ox: isize, oy: isize, roll: u8)
    requires
        old(u).wf(),
        old(u)@.in_bounds(x as int, y as int),
        -1 <= ox <= 1,
        -1 <= oy <= 1,
    ensures
        final(u).wf(),
        final(u)@ == rock_step(old(u)@, x as int, y as int, ox as int, oy as int, roll),
        final(u).width == old(u).width,
        final(u).height == old(u).height,
{
    let iface = UniverseInterface { x, y };
    let nb = iface.get(u, ox, oy);
    if let Substance::Water = nb.substance {
        if roll > 6 {
            iface.set(u, 0, 0, Substance::Sand(false));
        }
    }
}

/// One visitation of a rock cell: sample a neighbor, roll, then run the rule.
pub fn update_rock(u: &mut Universe, x: isize, y: isize)
    requires
        old(u).wf(),
        old(u)@.in_bounds(x as int, y as int),
    ensures
        final(u).wf(),
        final(u).width == old(u).width,
        final(u).height == old(u).height,
        exists|ox: int, oy: int, roll: u8|
            -1 <= ox <= 1 && -1 <= oy <= 1 && roll < 10 && final(u)@ == rock_step(
                old(u)@,
                x as int,
                y as int,
                ox,
                oy,
                roll,
            ),
{
    let ox = random_offset();
    let oy = random_offset();
    let roll = random_digit();
    update_rock_with(u, x, y, ox, oy, roll);
    proof {
        assert(-1 <= ox as int <= 1 && -1 <= oy as int <= 1 && roll < 10 && u@ == rock_step(
            old(u)@,
            x as int,
            y as int,
            ox as int,
            oy as int,
            roll,
        ));
    }
}

/// Water's rule for a given fall offset and flow offset.
pub fn update_water_with(u: &mut Universe, x: isize, y: isize, o1: isize, o2: isize)
    requires
        old(u).wf(),
        old(u)@.in_bounds(x as int, y as int),
        -1 <= o1 <= 1,
        -1 <= o2 <= 1,
    ensures
        final(u).wf(),
        final(u)@ == water_step(old(u)@, x as int, y as int, o1 as int, o2 as int),
        final(u).width == old(u).width,
        final(u).height == old(u).height,
{
    let iface = UniverseInterface { x, y };
    let below = iface.get(u, o1, 1);
    if let Substance::Void = below.substance {
        iface.swap(u, o1, 1);
        return ;
    }
    let side = iface.get(u, o2, 0);
    if let Substance::Void = side.substance {
        iface.swap(u, o2, 0);
    }
}

/// One visitation of a water cell: draw both offsets, then run the rule.
pub fn update_water(u: &mut Universe, x: isize, y: isize)
    requires
        old(u).wf(),
        old(u)@.in_bounds(x as int, y as int),
    ensures
        final(u).wf(),
        final(u).width == old(u).width,
        final(u).height == old(u).height,
        exists|o1: int, o2: int|
            -1 <= o1 <= 1 && -1 <= o2 <= 1 && final(u)@ == water_step(
                old(u)@,
                x as int,
                y as int,
                o1,
                o2,
            ),
{
    let o1 = random_offset();
    let o2 = random_offset();
    update_water_with(u, x, y, o1, o2);
    proof {
        assert(-1 <= o1 as int <= 1 && -1 <= o2 as int <= 1 && u@ == water_step(
            old(u)@,
            x as int,
            y as int,
            o1 as int,
            o2 as int,
        ));
    }
}

/// Dirt's rule for a given fall offset and neighbor sample.
pub fn update_dirt_with(u: &mut Universe, x: isize, y: isize, offset: isize, ox: isize, oy: isize)
    requires
        old(u).wf(),
        old(u)@.in_bounds(x as int, y as int),
        -1 <= offset <= 1,
        -1 <= ox <= 1,
        -1 <= oy <= 1,
    ensures
        final(u).wf(),
        final(u)@ == dirt_step(old(u)@, x as int, y as int, offset as int, ox as int, oy as int),
        final(u).width == old(u).width,
        final(u).height == old(u).height,
{
    let iface = UniverseInterface { x, y };
    let cur = iface.get(u, 0, 0);
    let mut off: isize = 0;
    let mut expose: u8 = 0;
    if let Substance::Dirt(false, t) = cur.substance {
        if t > 200 {
            iface.set(u, 0, 0, Substance::Grass(0, 5));
            return ;
        }
        off = offset;
        expose = t;
    }
    let below = iface.get(u, off, 1);
    if let Substance::Void = below.substance {
        iface.set(u, 0, 0, Substance::Dirt(true, expose));
        iface.swap(u, off, 1);
        return ;
    }
    let above = iface.get(u, 0, -1);
    if let Substance::Void = above.substance {
        expose = expose + 1;
    }
    iface.set(u, 0, 0, Substance::Dirt(false, expose));
    let nb = iface.get(u, ox, oy);
    if let Substance::Water = nb.substance {
        iface.set(u, 0, 0, Substance::Mud(false, 0));
        iface.set(u, ox, oy, Substance::Void);
    }
}

/// One visitation of a dirt cell: draw the tie-breaks, then run the rule.
pub fn update_dirt(u: &mut Universe, x: isize, y: isize)
    requires
        old(u).wf(),
        old(u)@.in_bounds(x as int, y as int),
    ensures
        final(u).wf(),
        final(u).width == old(u).width,
        final(u).height == old(u).height,
        exists|o: int, ox: int, oy: int|
            -1 <= o <= 1 && -1 <= ox <= 1 && -1 <= oy <= 1 && final(u)@ == dirt_step(
                old(u)@,
                x as int,
                y as int,
                o,
                ox,
                oy,
            ),
{
    let o = random_offset();
    let ox = random_offset();
    let oy = random_offset();
    update_dirt_with(u, x, y, o, ox, oy);
    proof {
        assert(-1 <= o as int <= 1 && -1 <= ox as int <= 1 && -1 <= oy as int <= 1 && u@
            == dirt_step(old(u)@, x as int, y as int, o as int, ox as int, oy as int));
    }
}

/// Mud's rule for a given fall offset.
pub fn update_mud_with(u: &mut Universe, x: isize, y: isize, offset: isize)
    requires
        old(u).wf(),
        old(u)@.in_bounds(x as int, y as int),
        -1 <= offset <= 1,
    ensures
        final(u).wf(),
        final(u)@ == mud_step(old(u)@, x as int, y as int, offset as int),
        final(u).width == old(u).width,
        final(u).height == old(u).height,
{
    let iface = UniverseInterface { x, y };
    let cur = iface.get(u, 0, 0);
    let mut off: isize = 0;
    let mut expose: u8 = 0;
    if let Substance::Mud(false, t) = cur.substance {
        if t > 200 {
            iface.set(u, 0, 0, Substance::Dirt(false, 0));
            return ;
        }
        off = offset;
        expose = t;
    }
    let below = iface.get(u, off, 1);
    match below.substance {
        Substance::Void | Substance::Water => {
            iface.set(u, 0, 0, Substance::Mud(true, expose));
            iface.swap(u, off, 1);
        },
        _ => {
            let above = iface.get(u, 0, -1);
            if let Substance::Void = above.substance {
                expose = expose + 1;
            }
            iface.set(u, 0, 0, Substance::Mud(false, expose));
        },
    }
}

/// One visitation of a mud cell: draw the tie-break, then run the rule.
pub fn update_mud(u: &mut Universe, x: isize, y: isize)
    requires
        old(u).wf(),
        old(u)@.in_bounds(x as int, y as int),
    ensures
        final(u).wf(),
        final(u).width == old(u).width,
        final(u).height == old(u).height,
        exists|o: int| -1 <= o <= 1 && final(u)@ == mud_step(old(u)@, x as int, y as int, o),
{
    let o = random_offset();
    update_mud_with(u, x, y, o);
    proof {
        assert(-1 <= o as int <= 1 && u@ == mud_step(old(u)@, x as int, y as int, o as int));
    }
}

/// Grass's rule for a given growth roll.
pub fn update_grass_with(u: &mut Universe, x: isize, y: isize, roll: u8)
    requires
        old(u).wf(),
        old(u)@.in_bounds(x as int, y as int),
    ensures
        final(u).wf(),
        final(u)@ == grass_step(old(u)@, x as int, y as int, roll),
        final(u).width == old(u).width,
        final(u).height == old(u).height,
{
    let iface = UniverseInterface { x, y };
    let cur = iface.get(u, 0, 0);
    if let Substance::Grass(time, remheight) = cur.substance {
        let above = iface.get(u, 0, -1);
        match above.substance {
            Substance::Void => {
                if remheight > 0 && time > 5 {
                    iface.set(u, 0, -1, Substance::Grass(0, remheight - 1));
                } else if roll > 8 {
                    let grown: u8 = if time < 255 {
                        time + 1
                    } else {
                        time
                    };
                    iface.set(u, 0, 0, Substance::Grass(grown, remheight));
                }
            },
            Substance::Grass(_, rh) => {
                if remheight > 0 && rh < remheight - 1 {
                    iface.set(u, 0, 0, Substance::Grass(0, remheight - 1));
                }
            },
            Substance::Fire(_) => {},
            _ => {
                iface.set(u, 0, 0, Substance::Dirt(false, 0));
            },
        }
    }
}

/// One visitation of a grass cell: roll for growth, then run the rule.
pub fn update_grass(u: &mut Universe, x: isize, y: isize)
    requires
        old(u).wf(),
        old(u)@.in_bounds(x as int, y as int),
    ensures
        final(u).wf(),
        final(u).width == old(u).width,
        final(u).height == old(u).height,
        exists|roll: u8| roll < 10 && final(u)@ == grass_step(old(u)@, x as int, y as int, roll),
{
    let roll = random_digit();
    update_grass_with(u, x, y, roll);
    proof {
        assert(roll < 10 && u@ == grass_step(old(u)@, x as int, y as int, roll));
    }
}

/// Fire's rule for a given neighbor sample, spread roll, and burn roll.
pub fn update_fire_with(
    u: &mut Universe,
    x: isize,
    y: isize,
    ox: isize,
    oy: isize,
    spread_roll: u8,
    spawn_lifetime: u8,
    burn_roll: u8,
    burn_lifetime: u8,
)
    requires
        old(u).wf(),
        old(u)@.in_bounds(x as int, y as int),
        -1 <= ox <= 1,
        -1 <= oy <= 1,
    ensures
        final(u).wf(),
        final(u)@ == fire_step(
            old(u)@,
            x as int,
            y as int,
            ox as int,
            oy as int,
            spread_roll,
            spawn_lifetime,
            burn_roll,
            burn_lifetime,
        ),
        final(u).width == old(u).width,
        final(u).height == old(u).height,
{
    let iface = UniverseInterface { x, y };
    let nb = iface.get(u, ox, oy);
    match nb.substance {
        Substance::Grass(_, _) => {
            if spread_roll > 5 {
                iface.set(u, ox, oy, Substance::Fire(10));
            }
        },
        Substance::Void => {
            if spread_roll > 7 {
                iface.set(u, ox, oy, Substance::Smoke(spawn_lifetime));
            }
        },
        _ => {},
    }
    let cur = iface.get(u, 0, 0);
    if let Substance::Fire(fuel) = cur.substance {
        if burn_roll > 5 {
            if fuel < 1 {
                iface.set(u, 0, 0, Substance::Smoke(burn_lifetime));
            } else {
                iface.set(u, 0, 0, Substance::Fire(fuel - 1));
            }
        }
    }
}

/// One visitation of a fire cell: sample a neighbor and make all the rolls,
/// then run the rule.
pub fn update_fire(u: &mut Universe, x: isize, y: isize)
    requires
        old(u).wf(),
        old(u)@.in_bounds(x as int, y as int),
    ensures
        final(u).wf(),
        final(u).width == old(u).width,
        final(u).height == old(u).height,
        exists|ox: int, oy: int, ra: u8, la: u8, rb: u8, lb: u8|
            -1 <= ox <= 1 && -1 <= oy <= 1 && ra < 10 && 100 <= la < 250 && rb < 10 && 100 <= lb
                < 250 && final(u)@ == fire_step(old(u)@, x as int, y as int, ox, oy, ra, la, rb, lb),
{
    let ox = random_offset();
    let oy = random_offset();
    let spread_roll = random_digit();
    let spawn_lifetime = random_lifetime();
    let burn_roll = random_digit();
    let burn_lifetime = random_lifetime();
    update_fire_with(u, x, y, ox, oy, spread_roll, spawn_lifetime, burn_roll, burn_lifetime);
    proof {
        assert(-1 <= ox as int <= 1 && -1 <= oy as int <= 1 && spread_roll < 10 && 100
            <= spawn_lifetime < 250 && burn_roll < 10 && 100 <= burn_lifetime < 250 && u@
            == fire_step(
            old(u)@,
            x as int,
            y as int,
            ox as int,
            oy as int,
            spread_roll,
            spawn_lifetime,
            burn_roll,
            burn_lifetime,
        ));
    }
}

/// Smoke's rule for a given drift offset pair.
pub fn update_smoke_with(u: &mut Universe, x: isize, y: isize, o1: isize, o2: isize)
    requires
        old(u).wf(),
        old(u)@.in_bounds(x as int, y as int),
        -1 <= o1 <= 1,
        -1 <= o2 <= 1,
    ensures
        final(u).wf(),
        final(u)@ == smoke_step(old(u)@, x as int, y as int, o1 as int, o2 as int),
        final(u).width == old(u).width,
        final(u).height == old(u).height,
{
    let iface = UniverseInterface { x, y };
    let cur = iface.get(u, 0, 0);
    if let Substance::Smoke(t) = cur.substance {
        if t > 0 {
            iface.set(u, 0, 0, Substance::Smoke(t - 1));
        } else {
            iface.set(u, 0, 0, Substance::Void);
            return ;
        }
    }
    let up = iface.get(u, o1, -1);
    if let Substance::Void = up.substance {
        iface.swap(u, o1, -1);
        return ;
    }
    let side = iface.get(u, o2, 0);
    if let Substance::Void = side.substance {
        iface.swap(u, o2, 0);
    }
}

/// One visitation of a smoke cell: draw both offsets, then run the rule.
pub fn update_smoke(u: &mut Universe, x: isize, y: isize)
    requires
        old(u).wf(),
        old(u)@.in_bounds(x as int, y as int),
    ensures
        final(u).wf(),
        final(u).width == old(u).width,
        final(u).height == old(u).height,
        exists|o1: int, o2: int|
            -1 <= o1 <= 1 && -1 <= o2 <= 1 && final(u)@ == smoke_step(
                old(u)@,
                x as int,
                y as int,
                o1,
                o2,
            ),
{
    let o1 = random_offset();
    let o2 = random_offset();
    update_smoke_with(u, x, y, o1, o2);
    proof {
        assert(-1 <= o1 as int <= 1 && -1 <= o2 as int <= 1 && u@ == smoke_step(
            old(u)@,
            x as int,
            y as int,
            o1 as int,
            o2 as int,
        ));
    }
}

} // verus!
