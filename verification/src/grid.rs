//! The universe: a fixed-size row-major grid of cells with bounds-checked
//! reads, fatal-on-misuse mutable access, an atomic two-cell swap, and the
//! cell-local scoped interface that substance rules see.

use vstd::prelude::*;
use crate::substance::{Rgba, Substance};

verus! {

/// One grid position: its material, a cosmetic tint, and the mark that says
/// the cell was already processed during the current tick.
#[derive(Clone, Copy, Debug, PartialEq, Eq, Structural)]
pub struct Cell {
    pub substance: Substance,
    pub color: Rgba,
    pub has_ticked: bool,
}

impl Cell {
    /// The sentinel cell reported for coordinates outside the grid.
    pub open spec fn spec_out_of_bounds() -> Cell {
        Cell {
            substance: Substance::OutOfBounds,
            color: Rgba::spec_black(),
            has_ticked: false,
        }
    }

    pub fn out_of_bounds() -> (c: Cell)
        ensures
            c == Cell::spec_out_of_bounds(),
    {
        Cell { substance: Substance::OutOfBounds, color: Rgba::black(), has_ticked: false }
    }

    /// The cell every position starts as: void, black, unprocessed.
    pub open spec fn spec_void() -> Cell {
        Cell { substance: Substance::Void, color: Rgba::spec_black(), has_ticked: false }
    }
}

impl Default for Cell {
    fn default() -> (c: Self)
        ensures
            c == Cell::spec_void(),
    {
        Cell { substance: Substance::Void, color: Rgba::black(), has_ticked: false }
    }
}

/// The mathematical model of a universe: its cells as a row-major sequence
/// together with its dimensions. Position (x, y) lives at index y * width + x.
#[verifier::ext_equal]
pub struct GridView {
    pub cells: Seq<Cell>,
    pub width: int,
    pub height: int,
}

impl GridView {
    /// Well-formed: dimensions are non-negative and small enough for pointer
    /// arithmetic, the sequence covers exactly the rectangle, and the
    /// out-of-bounds sentinel is never stored.
    pub open spec fn wf(self) -> bool {
        &&& 0 <= self.width
        &&& 0 <= self.height
        &&& self.width * self.height <= isize::MAX as int
        &&& self.cells.len() == self.width * self.height
        &&& forall|i: int|
            0 <= i < self.cells.len() ==> !((#[trigger] self.cells[i]).substance
                is OutOfBounds)
    }

    pub open spec fn in_bounds(self, x: int, y: int) -> bool {
        0 <= x < self.width && 0 <= y < self.height
    }

    /// The backing index of a coordinate pair.
    pub open spec fn idx(self, x: int, y: int) -> int {
        y * self.width + x
    }

    /// The cell at (x, y), or the out-of-bounds sentinel past the edge.
    pub open spec fn get(self, x: int, y: int) -> Cell {
        if self.in_bounds(x, y) {
            self.cells[self.idx(x, y)]
        } else {
            Cell::spec_out_of_bounds()
        }
    }

    /// The grid with the cell at (x, y) replaced wholesale.
    pub open spec fn with_cell(self, x: int, y: int, c: Cell) -> GridView {
        GridView { cells: self.cells.update(self.idx(x, y), c), ..self }
    }

    /// What the scoped interface's set does: write the substance, keep the
    /// cosmetic color, and mark the cell processed.
    pub open spec fn set_marked(self, x: int, y: int, s: Substance) -> GridView {
        self.with_cell(
            x,
            y,
            Cell { substance: s, color: self.get(x, y).color, has_ticked: true },
        )
    }

    /// A raw two-cell exchange, as the grid's own swap performs it.
    pub open spec fn swapped(self, x1: int, y1: int, x2: int, y2: int) -> GridView {
        GridView {
            cells: self.cells.update(self.idx(x1, y1), self.get(x2, y2)).update(
                self.idx(x2, y2),
                self.get(x1, y1),
            ),
            ..self
        }
    }

    /// What the scoped interface's swap does: exchange the two cells and mark
    /// both of them processed.
    pub open spec fn swapped_marked(self, x1: int, y1: int, x2: int, y2: int) -> GridView {
        let c1 = self.get(x1, y1);
        let c2 = self.get(x2, y2);
        GridView {
            cells: self.cells.update(
                self.idx(x1, y1),
                Cell { substance: c2.substance, color: c2.color, has_ticked: true },
            ).update(
                self.idx(x2, y2),
                Cell { substance: c1.substance, color: c1.color, has_ticked: true },
            ),
            ..self
        }
    }

    /// The grid with the cell at (x, y) merely marked processed.
    pub open spec fn marked(self, x: int, y: int) -> GridView {
        self.with_cell(
            x,
            y,
            Cell {
                substance: self.get(x, y).substance,
                color: self.get(x, y).color,
                has_ticked: true,
            },
        )
    }

    /// What a paint write does: overwrite the substance at (x, y) if the
    /// coordinate is inside the grid, leaving tint and processed mark alone;
    /// out-of-range writes are rejected without effect.
    pub open spec fn painted(self, x: int, y: int, s: Substance) -> GridView {
        if self.in_bounds(x, y) {
            self.with_cell(
                x,
                y,
                Cell {
                    substance: s,
                    color: self.get(x, y).color,
                    has_ticked: self.get(x, y).has_ticked,
                },
            )
        } else {
            self
        }
    }

    /// The reset phase's result: every processed mark lowered.
    pub open spec fn cleared(self) -> GridView {
        GridView {
            cells: self.cells.map_values(
                |c: Cell| Cell { substance: c.substance, color: c.color, has_ticked: false },
            ),
            ..self
        }
    }
}

/// The backing index of an in-bounds coordinate lies inside the rectangle.
pub proof fn lemma_idx_bounds(g: GridView, x: int, y: int)
    requires
        g.wf(),
        g.in_bounds(x, y),
    ensures
        0 <= g.idx(x, y) < g.cells.len(),
{
    assert(0 <= y * g.width + x < g.width * g.height) by (nonlinear_arith)
        requires
            0 <= x < g.width,
            0 <= y < g.height,
    ;
}

/// Distinct in-bounds coordinates have distinct backing indices.
pub proof fn lemma_idx_injective(g: GridView, x1: int, y1: int, x2: int, y2: int)
    requires
        g.wf(),
        g.in_bounds(x1, y1),
        g.in_bounds(x2, y2),
        x1 != x2 || y1 != y2,
    ensures
        g.idx(x1, y1) != g.idx(x2, y2),
{
    assert(y1 * g.width + x1 != y2 * g.width + x2) by (nonlinear_arith)
        requires
            0 <= x1 < g.width,
            0 <= x2 < g.width,
            0 <= y1 < g.height,
            0 <= y2 < g.height,
            x1 != x2 || y1 != y2,
    ;
}

/// The universe: owns the cells and the fixed dimensions.
pub struct Universe {
    pub cells: Vec<Cell>,
    pub width: isize,
    pub height: isize,
}

impl View for Universe {
    type V = GridView;

    open spec fn view(&self) -> GridView {
        GridView { cells: self.cells@, width: self.width as int, height: self.height as int }
    }
}

impl Universe {
    pub open spec fn wf(self) -> bool {
        self@.wf()
    }

    /// Create a universe of the given dimensions, every cell void.
    pub fn with_dimensions(w: isize, h: isize) -> (u: Universe)
        requires
            0 <= w,
            0 <= h,
            w as int * h as int <= isize::MAX as int,
        ensures
            u.wf(),
            u.width == w,
            u.height == h,
            forall|x: int, y: int| u@.in_bounds(x, y) ==> u@.get(x, y) == Cell::spec_void(),
    {
        let n: usize = (w * h) as usize;
        let mut cells: Vec<Cell> = Vec::new();
        let mut i: usize = 0;
        while i < n
            invariant
                i <= n,
                cells@.len() == i,
                forall|j: int| 0 <= j < i ==> cells@[j] == Cell::spec_void(),
            decreases n - i,
        {
            cells.push(Cell::default());
            i += 1;
        }
        let u = Universe { cells, width: w, height: h };
        proof {
            assert forall|x: int, y: int| u@.in_bounds(x, y) implies u@.get(x, y)
                == Cell::spec_void() by {
                lemma_idx_bounds(u@, x, y);
            }
        }
        u
    }

    /// Read the cell at (x, y); past the edge this reports the out-of-bounds
    /// sentinel and never fails.
    pub fn get(&self, x: isize, y: isize) -> (c: Cell)
        requires
            self.wf(),
        ensures
            c == self@.get(x as int, y as int),
    {
        if x < 0 || x >= self.width || y < 0 || y >= self.height {
            return Cell::out_of_bounds();
        }
        proof {
            lemma_idx_bounds(self@, x as int, y as int);
        }
        let i: usize = (y * self.width + x) as usize;
        self.cells[i]
    }

    /// Mutable access to the cell at (x, y). An out-of-range coordinate is a
    /// programming error, excluded by contract rather than recovered from.
    pub fn get_mut(&mut self, x: isize, y: isize) -> (cell: &mut Cell)
        requires
            old(self).wf(),
            old(self)@.in_bounds(x as int, y as int),
        ensures
            *cell == old(self)@.get(x as int, y as int),
            final(self)@ == old(self)@.with_cell(x as int, y as int, *final(cell)),
            final(self).width == old(self).width,
            final(self).height == old(self).height,
    {
        proof {
            lemma_idx_bounds(self@, x as int, y as int);
        }
        let i: usize = (y * self.width + x) as usize;
        &mut self.cells[i]
    }

    /// Exchange the full contents of two cells in place. Out-of-range
    /// coordinates are a programming error, excluded by contract.
    pub fn swap(&mut self, x1: isize, y1: isize, x2: isize, y2: isize)
        requires
            old(self).wf(),
            old(self)@.in_bounds(x1 as int, y1 as int),
            old(self)@.in_bounds(x2 as int, y2 as int),
        ensures
            final(self).wf(),
            final(self)@ == old(self)@.swapped(x1 as int, y1 as int, x2 as int, y2 as int),
            final(self).width == old(self).width,
            final(self).height == old(self).height,
    {
        proof {
            lemma_idx_bounds(self@, x1 as int, y1 as int);
            lemma_idx_bounds(self@, x2 as int, y2 as int);
        }
        let i1: usize = (y1 * self.width + x1) as usize;
        let i2: usize = (y2 * self.width + x2) as usize;
        let c1 = self.cells[i1];
        let c2 = self.cells[i2];
        self.cells[i1] = c2;
        self.cells[i2] = c1;
    }

    /// Overwrite the substance of a single cell, bypassing the transition
    /// rules, as a paint operation does; out-of-range targets are rejected
    /// without effect.
    pub fn paint(&mut self, x: isize, y: isize, substance: Substance)
        requires
            old(self).wf(),
            !(substance is OutOfBounds),
        ensures
            final(self).wf(),
            final(self)@ == old(self)@.painted(x as int, y as int, substance),
            final(self).width == old(self).width,
            final(self).height == old(self).height,
    {
        if x < 0 || x >= self.width || y < 0 || y >= self.height {
            return;
        }
        proof {
            lemma_idx_bounds(self@, x as int, y as int);
        }
        let i: usize = (y * self.width + x) as usize;
        let c = self.cells[i];
        self.cells[i] = Cell { substance, color: c.color, has_ticked: c.has_ticked };
    }

    /// Raise the processed mark of the cell at (x, y), which must be inside
    /// the grid.
    pub fn mark_ticked(&mut self, x: isize, y: isize)
        requires
            old(self).wf(),
            old(self)@.in_bounds(x as int, y as int),
        ensures
            final(self).wf(),
            final(self)@ == old(self)@.marked(x as int, y as int),
            final(self).width == old(self).width,
            final(self).height == old(self).height,
    {
        proof {
            lemma_idx_bounds(self@, x as int, y as int);
        }
        let i: usize = (y * self.width + x) as usize;
        let c = self.cells[i];
        self.cells[i] = Cell { substance: c.substance, color: c.color, has_ticked: true };
    }

    /// The reset phase of a tick: lower every processed mark.
    pub fn clear_ticks(&mut self)
        requires
            old(self).wf(),
        ensures
            final(self).wf(),
            final(self)@ == old(self)@.cleared(),
            final(self).width == old(self).width,
            final(self).height == old(self).height,
    {
        let n: usize = self.cells.len();
        let mut i: usize = 0;
        while i < n
            invariant
                i <= n,
                n == self@.cells.len(),
                self.width == old(self).width,
                self.height == old(self).height,
                self@.cells.len() == old(self)@.cells.len(),
                forall|j: int|
                    0 <= j < i ==> self@.cells[j] == (Cell {
                        substance: old(self)@.cells[j].substance,
                        color: old(self)@.cells[j].color,
                        has_ticked: false,
                    }),
                forall|j: int| i <= j < n ==> self@.cells[j] == old(self)@.cells[j],
            decreases n - i,
        {
            let c = self.cells[i];
            self.cells[i] = Cell { substance: c.substance, color: c.color, has_ticked: false };
            i += 1;
        }
        proof {
            assert(self@.cells =~= old(self)@.cleared().cells);
            assert(self@ =~= old(self)@.cleared());
        }
    }
}

/// The cell-local scoped view a substance rule works through: an anchor
/// coordinate plus relative-offset reads, writes and swaps. Every mutating
/// call marks the touched cells processed, so the scheduler will not revisit
/// them later in the same tick.
pub struct UniverseInterface {
    pub x: isize,
    pub y: isize,
}

impl UniverseInterface {
    /// Read the cell at the given offset from the anchor; past the edge this
    /// reports the out-of-bounds sentinel.
    pub fn get(&self, u: &Universe, dx: isize, dy: isize) -> (c: Cell)
        requires
            u.wf(),
            isize::MIN <= self.x as int + dx as int <= isize::MAX,
            isize::MIN <= self.y as int + dy as int <= isize::MAX,
        ensures
            c == u@.get(self.x as int + dx as int, self.y as int + dy as int),
    {
        u.get(self.x + dx, self.y + dy)
    }

    /// Write a substance at the given offset and mark that cell processed.
    /// The target must be inside the grid: rules only write where they read
    /// something other than the out-of-bounds sentinel.
    pub fn set(&self, u: &mut Universe, dx: isize, dy: isize, substance: Substance)
        requires
            old(u).wf(),
            old(u)@.in_bounds(self.x as int + dx as int, self.y as int + dy as int),
            !(substance is OutOfBounds),
        ensures
            final(u).wf(),
            final(u)@ == old(u)@.set_marked(
                self.x as int + dx as int,
                self.y as int + dy as int,
                substance,
            ),
            final(u).width == old(u).width,
            final(u).height == old(u).height,
    {
        let tx = self.x + dx;
        let ty = self.y + dy;
        let target = u.get_mut(tx, ty);
        target.substance = substance;
        target.has_ticked = true;
        proof {
            lemma_idx_bounds(old(u)@, tx as int, ty as int);
            assert(final(u)@.wf());
        }
    }

    /// Exchange the anchor cell with the cell at the given offset, marking
    /// both processed. Both coordinates must be inside the grid.
    pub fn swap(&self, u: &mut Universe, dx: isize, dy: isize)
        requires
            old(u).wf(),
            old(u)@.in_bounds(self.x as int, self.y as int),
            old(u)@.in_bounds(self.x as int + dx as int, self.y as int + dy as int),
        ensures
            final(u).wf(),
            final(u)@ == old(u)@.swapped_marked(
                self.x as int,
                self.y as int,
                self.x as int + dx as int,
                self.y as int + dy as int,
            ),
            final(u).width == old(u).width,
            final(u).height == old(u).height,
    {
        let tx = self.x + dx;
        let ty = self.y + dy;
        u.swap(self.x, self.y, tx, ty);
        u.mark_ticked(self.x, self.y);
        u.mark_ticked(tx, ty);
        proof {
            lemma_idx_bounds(old(u)@, self.x as int, self.y as int);
            lemma_idx_bounds(old(u)@, tx as int, ty as int);
            assert(u@.cells =~= old(u)@.swapped_marked(
                self.x as int,
                self.y as int,
                tx as int,
                ty as int,
            ).cells);
            assert(u@ =~= old(u)@.swapped_marked(
                self.x as int,
                self.y as int,
                tx as int,
                ty as int,
            ));
        }
    }
}

} // verus!
