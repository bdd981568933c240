use vstd::prelude::*;
use crate::color::{Color, packed};

verus! {

/// The grid of `rows` rows of `cols` packed colors each, all zero.
pub open spec fn zero_grid(rows: nat, cols: nat) -> Seq<Seq<u32>> {
    Seq::new(rows, |i: int| Seq::new(cols, |j: int| 0u32))
}

/// A grid whose every row has `cols` cells.
pub open spec fn grid_shaped(g: Seq<Seq<u32>>, rows: nat, cols: nat) -> bool {
    g.len() == rows && forall|i: int| 0 <= i < g.len() ==> (#[trigger] g[i]).len() == cols
}

/// Whether `(x, y)` names a cell: `x` is the column, `y` the row.
pub open spec fn in_bounds(g: Seq<Seq<u32>>, x: int, y: int) -> bool {
    0 <= y < g.len() && 0 <= x < g[y].len()
}

/// `g` with the cell at column `x`, row `y` set to `v`.
pub open spec fn with_cell(g: Seq<Seq<u32>>, x: int, y: int, v: u32) -> Seq<Seq<u32>> {
    g.update(y, g[y].update(x, v))
}

/// The plain value of a snapshot: its rows as sequences.
pub open spec fn grid_view(g: Vec<Vec<u32>>) -> Seq<Seq<u32>> {
    g@.map_values(|r: Vec<u32>| r@)
}

proof fn lemma_grid_view(g: Vec<Vec<u32>>)
    ensures
        grid_view(g).len() == g@.len(),
        forall|i: int|
            #![trigger grid_view(g)[i]]
            #![trigger g@[i]]
            0 <= i < g@.len() ==> grid_view(g)[i] == g@[i]@,
{
}

/// Error of a board mutation.
#[derive(Clone, Copy, Debug, PartialEq, Eq, Structural)]
pub enum MutationError {
    /// A color text that is not `rgb(...)` or `rgba(...)` around three or
    /// four channels.
    MalformedColor,
    /// A coordinate outside the grid.
    OutOfBounds,
}

/// The canonical grid of packed colors, row-major: `cells[y][x]` is the
/// pixel in row `y`, column `x`. Its dimensions never change.
pub struct Board {
    rows: usize,
    cols: usize,
    cells: Vec<Vec<u32>>,
}

impl View for Board {
    type V = Seq<Seq<u32>>;

    closed spec fn view(&self) -> Seq<Seq<u32>> {
        grid_view(self.cells)
    }
}

impl Board {
    pub closed spec fn spec_rows(&self) -> nat {
        self.rows as nat
    }

    pub closed spec fn spec_cols(&self) -> nat {
        self.cols as nat
    }

    /// The grid has its fixed dimensions.
    pub open spec fn wf(&self) -> bool {
        grid_shaped(self@, self.spec_rows(), self.spec_cols())
    }

    /// A board of `rows` rows and `cols` columns, all zero.
    pub fn new(rows: usize, cols: usize) -> (r: Board)
        ensures
            r.wf(),
            r.spec_rows() == rows,
            r.spec_cols() == cols,
            r@ == zero_grid(rows as nat, cols as nat),
    {
        let mut cells: Vec<Vec<u32>> = Vec::new();
        let mut i: usize = 0;
        while i < rows
            invariant
                i <= rows,
                grid_view(cells) == zero_grid(i as nat, cols as nat),
            decreases rows - i,
        {
            let row = zero_row(cols);
            proof {
                lemma_grid_view(cells);
            }
            cells.push(row);
            i = i + 1;
            proof {
                lemma_grid_view(cells);
            }
            assert(grid_view(cells) =~~= zero_grid(i as nat, cols as nat));
        }
        Board { rows, cols, cells }
    }

    pub fn rows(&self) -> (r: usize)
        ensures
            r == self.spec_rows(),
    {
        self.rows
    }

    pub fn cols(&self) -> (r: usize)
        ensures
            r == self.spec_cols(),
    {
        self.cols
    }

    /// The packed color at column `x`, row `y`, or `None` outside the grid.
    pub fn get(&self, x: usize, y: usize) -> (r: Option<u32>)
        requires
            self.wf(),
        ensures
            r == (if in_bounds(self@, x as int, y as int) {
                Some(self@[y as int][x as int])
            } else {
                None
            }),
    {
        if y < self.rows && x < self.cols {
            proof {
                lemma_grid_view(self.cells);
            }
            Some(self.cells[y][x])
        } else {
            None
        }
    }

    /// A deep copy of the grid.
    pub fn snapshot(&self) -> (r: Vec<Vec<u32>>)
        ensures
            grid_view(r) == self@,
    {
        let mut out: Vec<Vec<u32>> = Vec::new();
        let mut i: usize = 0;
        while i < self.cells.len()
            invariant
                i <= self.cells@.len(),
                grid_view(out) == self@.take(i as int),
            decreases self.cells@.len() - i,
        {
            let row = copy_row(&self.cells[i]);
            proof {
                lemma_grid_view(out);
            }
            out.push(row);
            i = i + 1;
            proof {
                lemma_grid_view(out);
                lemma_grid_view(self.cells);
            }
            assert(grid_view(out) =~~= self@.take(i as int));
        }
        proof {
            lemma_grid_view(self.cells);
        }
        assert(self@.take(i as int) =~= self@);
        out
    }

    /// Writes `color` at column `x`, row `y`; out of the grid it changes
    /// nothing and fails with `OutOfBounds`.
    pub fn set(&mut self, x: usize, y: usize, color: Color) -> (r: Result<(), MutationError>)
        requires
            old(self).wf(),
        ensures
            final(self).wf(),
            final(self).spec_rows() == old(self).spec_rows(),
            final(self).spec_cols() == old(self).spec_cols(),
            in_bounds(old(self)@, x as int, y as int) ==> r is Ok && final(self)@ == with_cell(
                old(self)@,
                x as int,
                y as int,
                packed(color) as u32,
            ),
            !in_bounds(old(self)@, x as int, y as int) ==> r == Err::<(), MutationError>(
                MutationError::OutOfBounds,
            ) && final(self)@ == old(self)@,
    {
        if y < self.rows && x < self.cols {
            let v = color.pack();
            proof {
                lemma_grid_view(self.cells);
            }
            let mut row = copy_row(&self.cells[y]);
            row.set(x, v);
            self.cells.set(y, row);
            proof {
                lemma_grid_view(self.cells);
            }
            assert(self@ =~~= with_cell(old(self)@, x as int, y as int, v));
            Ok(())
        } else {
            Err(MutationError::OutOfBounds)
        }
    }

    /// Resets every cell to zero.
    pub fn clear(&mut self)
        requires
            old(self).wf(),
        ensures
            final(self).wf(),
            final(self).spec_rows() == old(self).spec_rows(),
            final(self).spec_cols() == old(self).spec_cols(),
            final(self)@ == zero_grid(old(self).spec_rows(), old(self).spec_cols()),
    {
        let rows = self.rows;
        let cols = self.cols;
        let mut i: usize = 0;
        while i < rows
            invariant
                i <= rows == self.rows == old(self).rows,
                cols == self.cols == old(self).cols,
                self.cells@.len() == rows,
                grid_shaped(self@, rows as nat, cols as nat),
                forall|a: int, b: int|
                    0 <= a < i && 0 <= b < cols ==> #[trigger] self@[a][b] == 0u32,
            decreases rows - i,
        {
            let row = zero_row(cols);
            proof {
                lemma_grid_view(self.cells);
            }
            self.cells.set(i, row);
            proof {
                lemma_grid_view(self.cells);
            }
            i = i + 1;
        }
        proof {
            lemma_grid_view(self.cells);
        }
        assert(self@ =~~= zero_grid(rows as nat, cols as nat));
    }
}

/// A row of `n` zero cells.
fn zero_row(n: usize) -> (r: Vec<u32>)
    ensures
        r@ == Seq::new(n as nat, |j: int| 0u32),
{
    let mut row: Vec<u32> = Vec::new();
    let mut j: usize = 0;
    while j < n
        invariant
            j <= n,
            row@ == Seq::new(j as nat, |k: int| 0u32),
        decreases n - j,
    {
        row.push(0);
        j = j + 1;
        assert(row@ =~= Seq::new(j as nat, |k: int| 0u32));
    }
    row
}

/// A copy of one row.
fn copy_row(src: &Vec<u32>) -> (r: Vec<u32>)
    ensures
        r@ == src@,
{
    let mut row: Vec<u32> = Vec::new();
    let mut j: usize = 0;
    while j < src.len()
        invariant
            j <= src@.len(),
            row@ == src@.take(j as int),
        decreases src@.len() - j,
    {
        row.push(src[j]);
        j = j + 1;
        assert(row@ =~= src@.take(j as int));
    }
    assert(src@.take(j as int) =~= src@);
    row
}

} // verus!
