use vstd::prelude::*;
use vstd::arithmetic::div_mod::lemma_fundamental_div_mod_converse;
use crate::color::{Rgb, white, black};

verus! {

/// One character cell: a glyph code and a foreground/background color pair.
#[derive(Clone, Copy, PartialEq, Eq, Structural, Debug)]
pub struct Cell {
    pub glyph: u8,
    pub fg: Rgb,
    pub bg: Rgb,
}

/// One recorded cell write: the target coordinates and the value written.
/// Coordinates are unrestricted; a bounded surface may clip the write, but it
/// still records it.
pub ghost struct CellWrite {
    pub x: int,
    pub y: int,
    pub cell: Cell,
}

/// The write that `set_cell(x, y, fg, bg, glyph)` records.
pub open spec fn write_at(x: int, y: int, fg: Rgb, bg: Rgb, glyph: u8) -> CellWrite {
    CellWrite { x, y, cell: Cell { glyph, fg, bg } }
}

/// What every cell of a fresh surface holds: a space in white on black.
pub open spec fn blank_cell() -> Cell {
    Cell { glyph: 32, fg: white(), bg: black() }
}

/// The value a cell holds after a sequence of writes: the last write to hit
/// the cell wins, and a cell that no write hit is still blank.
pub open spec fn cell_after(ws: Seq<CellWrite>, x: int, y: int) -> Cell
    decreases ws.len(),
{
    if ws.len() == 0 {
        blank_cell()
    } else if ws.last().x == x && ws.last().y == y {
        ws.last().cell
    } else {
        cell_after(ws.drop_last(), x, y)
    }
}

/// Whether some write in `ws` hits the cell at `(x, y)`.
pub open spec fn touches(ws: Seq<CellWrite>, x: int, y: int) -> bool {
    exists|i: int| 0 <= i < ws.len() && ws[i].x == x && ws[i].y == y
}

/// Appending one write changes only the cell it hits.
pub proof fn lemma_cell_after_push(ws: Seq<CellWrite>, w: CellWrite, x: int, y: int)
    ensures
        cell_after(ws.push(w), x, y) == (if w.x == x && w.y == y {
            w.cell
        } else {
            cell_after(ws, x, y)
        }),
{
    assert(ws.push(w).last() == w);
    assert(ws.push(w).drop_last() =~= ws);
}

/// A batch appended to earlier writes decides every cell it touches; the
/// earlier writes still decide the rest.
pub proof fn lemma_cell_after_append(a: Seq<CellWrite>, b: Seq<CellWrite>, x: int, y: int)
    ensures
        cell_after(a + b, x, y) == (if touches(b, x, y) {
            cell_after(b, x, y)
        } else {
            cell_after(a, x, y)
        }),
    decreases b.len(),
{
    if b.len() == 0 {
        assert(a + b =~= a);
        assert(!touches(b, x, y));
    } else {
        let b0 = b.drop_last();
        let w = b.last();
        assert((a + b).last() == w);
        assert((a + b).drop_last() =~= a + b0);
        if w.x == x && w.y == y {
            assert(b[b.len() - 1].x == x && b[b.len() - 1].y == y);
            assert(touches(b, x, y));
        } else {
            lemma_cell_after_append(a, b0, x, y);
            if touches(b0, x, y) {
                let i = choose|i: int| 0 <= i < b0.len() && b0[i].x == x && b0[i].y == y;
                assert(b[i].x == x && b[i].y == y);
                assert(touches(b, x, y));
            }
            if touches(b, x, y) {
                let i = choose|i: int| 0 <= i < b.len() && b[i].x == x && b[i].y == y;
                assert(i < b.len() - 1);
                assert(b0[i].x == x && b0[i].y == y);
                assert(touches(b0, x, y));
            }
        }
    }
}

/// A batch whose writes all miss `(x, y)` leaves that cell unchanged.
pub proof fn lemma_cell_after_untouched(a: Seq<CellWrite>, b: Seq<CellWrite>, x: int, y: int)
    requires
        !touches(b, x, y),
    ensures
        cell_after(a + b, x, y) == cell_after(a, x, y),
{
    lemma_cell_after_append(a, b, x, y);
}

/// A batch touches a cell exactly when one of its two halves does.
pub proof fn lemma_touches_append(a: Seq<CellWrite>, b: Seq<CellWrite>, x: int, y: int)
    ensures
        touches(a + b, x, y) <==> (touches(a, x, y) || touches(b, x, y)),
{
    if touches(a + b, x, y) {
        let i = choose|i: int| 0 <= i < (a + b).len() && (a + b)[i].x == x && (a + b)[i].y == y;
        if i < a.len() {
            assert(a[i].x == x && a[i].y == y);
        } else {
            assert(b[i - a.len()].x == x && b[i - a.len()].y == y);
        }
    }
    if touches(a, x, y) {
        let i = choose|i: int| 0 <= i < a.len() && a[i].x == x && a[i].y == y;
        assert((a + b)[i].x == x && (a + b)[i].y == y);
    }
    if touches(b, x, y) {
        let i = choose|i: int| 0 <= i < b.len() && b[i].x == x && b[i].y == y;
        assert((a + b)[a.len() + i].x == x && (a + b)[a.len() + i].y == y);
    }
}

/// Replaying a batch of writes a second time leaves every cell exactly as it
/// stood after the first pass. With the drawing operations' postconditions
/// this says that a second call with identical arguments changes no cell: the
/// operations carry no hidden state between calls.
pub proof fn lemma_replay(base: Seq<CellWrite>, batch: Seq<CellWrite>, x: int, y: int)
    ensures
        cell_after(base + batch + batch, x, y) == cell_after(base + batch, x, y),
{
    lemma_cell_after_append(base + batch, batch, x, y);
    lemma_cell_after_append(base, batch, x, y);
}

/// A cell-addressable display surface. Its model is the sequence of writes
/// made to it: `writes()` grows by one entry per `set_cell` call, whatever the
/// surface then does with the value. Bounds policy is the surface's own
/// concern; a bounded surface clips writes it does not cover, and a write is
/// recorded whether or not it was clipped.
pub trait Console {
    spec fn writes(&self) -> Seq<CellWrite>;

    /// The surface's internal validity.
    spec fn wf(&self) -> bool;

    /// The surface's width and height, in cells; writes never change them.
    spec fn dims(&self) -> (int, int);

    /// Writes one cell. Coordinates may be arbitrary, negative included.
    fn set_cell(&mut self, x: i32, y: i32, fg: Rgb, bg: Rgb, glyph: u8)
        requires
            old(self).wf(),
        ensures
            final(self).wf(),
            final(self).dims() == old(self).dims(),
            final(self).writes() == old(self).writes().push(
                write_at(x as int, y as int, fg, bg, glyph),
            ),
    ;
}

/// A concrete bounded surface: a `width` by `height` grid of cells stored in
/// row-major order, initially all blank. Writes outside the grid are clipped.
pub struct GridConsole {
    width: usize,
    height: usize,
    cells: Vec<Cell>,
    log: Ghost<Seq<CellWrite>>,
}

impl GridConsole {
    pub fn new(width: usize, height: usize) -> (c: GridConsole)
        requires
            width * height <= usize::MAX,
        ensures
            c.wf(),
            c.writes() == Seq::<CellWrite>::empty(),
            c.dims() == (width as int, height as int),
    {
        let total: usize = width * height;
        let mut cells: Vec<Cell> = Vec::new();
        while cells.len() < total
            invariant
                cells@.len() <= total,
                forall|i: int| 0 <= i < cells@.len() ==> cells@[i] == blank_cell(),
            decreases total - cells@.len(),
        {
            cells.push(Cell { glyph: 32, fg: Rgb { r: 255, g: 255, b: 255 }, bg: Rgb { r: 0, g: 0, b: 0 } });
        }
        let c = GridConsole { width, height, cells, log: Ghost(Seq::empty()) };
        proof {
            assert forall|a: int, b: int|
                0 <= a < (c.width as int) && 0 <= b < (c.height as int) implies #[trigger] cell_after(
                c.log@,
                a,
                b,
            ) == c.cells@[b * (c.width as int) + a] by {
                assert(cell_after(Seq::<CellWrite>::empty(), a, b) == blank_cell());
                assert(0 <= b * (c.width as int) + a < (c.width as int) * (c.height as int))
                    by (nonlinear_arith)
                    requires
                        0 <= a < (c.width as int),
                        0 <= b < (c.height as int),
                ;
            }
        }
        c
    }

    /// The cell at `(x, y)`, or `None` outside the grid.
    pub fn cell_at(&self, x: usize, y: usize) -> (r: Option<Cell>)
        requires
            self.wf(),
        ensures
            (x as int) < self.dims().0 && (y as int) < self.dims().1 ==> r == Some(
                cell_after(self.writes(), x as int, y as int),
            ),
            !((x as int) < self.dims().0 && (y as int) < self.dims().1) ==> r == None::<Cell>,
    {
        if x < self.width && y < self.height {
            proof {
                assert(0 <= (y as int) * (self.width as int) + x < (self.width as int)
                    * (self.height as int)) by (nonlinear_arith)
                    requires
                        0 <= (x as int) < (self.width as int),
                        0 <= (y as int) < (self.height as int),
                ;
                assert(cell_after(self.log@, x as int, y as int) == self.cells@[(y as int)
                    * (self.width as int) + x]);
            }
            let i: usize = y * self.width + x;
            Some(self.cells[i])
        } else {
            None
        }
    }
}

impl Console for GridConsole {
    closed spec fn writes(&self) -> Seq<CellWrite> {
        self.log@
    }

    closed spec fn dims(&self) -> (int, int) {
        (self.width as int, self.height as int)
    }

    closed spec fn wf(&self) -> bool {
        &&& (self.width as int) * (self.height as int) <= usize::MAX
        &&& self.cells@.len() == (self.width as int) * (self.height as int)
        &&& forall|a: int, b: int|
            0 <= a < (self.width as int) && 0 <= b < (self.height as int) ==> #[trigger] cell_after(
                self.log@,
                a,
                b,
            ) == self.cells@[b * (self.width as int) + a]
    }

    fn set_cell(&mut self, x: i32, y: i32, fg: Rgb, bg: Rgb, glyph: u8) {
        proof {
            self.log@ = self.log@.push(write_at(x as int, y as int, fg, bg, glyph));
        }
        if 0 <= x && 0 <= y {
            let xu: usize = x as usize;
            let yu: usize = y as usize;
            if xu < self.width && yu < self.height {
                proof {
                    assert(0 <= (yu as int) * (self.width as int) + xu < (self.width as int)
                        * (self.height as int)) by (nonlinear_arith)
                        requires
                            0 <= (xu as int) < (self.width as int),
                            0 <= (yu as int) < (self.height as int),
                    ;
                }
                let i: usize = yu * self.width + xu;
                self.cells.set(i, Cell { glyph, fg, bg });
            }
        }
        proof {
            let w = (self.width as int);
            let h = (self.height as int);
            let wr = write_at(x as int, y as int, fg, bg, glyph);
            let prev = old(self).log@;
            assert forall|a: int, b: int|
                0 <= a < w && 0 <= b < h implies #[trigger] cell_after(self.log@, a, b)
                == self.cells@[b * w + a] by {
                assert(0 <= b * w + a < w * h) by (nonlinear_arith)
                    requires
                        0 <= a < w,
                        0 <= b < h,
                ;
                lemma_cell_after_push(prev, wr, a, b);
                assert(cell_after(prev, a, b) == old(self).cells@[b * w + a]);
                if 0 <= x as int && 0 <= y as int && (x as int) < w && (y as int) < h {
                    let i = (y as int) * w + (x as int);
                    assert(0 <= (y as int) * w + (x as int) < w * h) by (nonlinear_arith)
                        requires
                            0 <= (x as int) < w,
                            0 <= (y as int) < h,
                    ;
                    assert(self.cells@ == old(self).cells@.update(i, wr.cell));
                    if a == x as int && b == y as int {
                        assert(b * w + a == i);
                    } else {
                        lemma_fundamental_div_mod_converse(b * w + a, w, b, a);
                        lemma_fundamental_div_mod_converse(i, w, y as int, x as int);
                        assert(b * w + a != i);
                    }
                } else {
                    assert(self.cells@ == old(self).cells@);
                    assert(!(a == x as int && b == y as int));
                }
            }
        }
    }
}

} // verus!
