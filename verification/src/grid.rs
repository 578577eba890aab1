//! The grid: its mathematical model and the executable type.

use crate::cell::CellState;
use vstd::arithmetic::div_mod::lemma_fundamental_div_mod_converse;
use vstd::prelude::*;
use vstd::string::StringExecFns;

verus! {

/// Why an operation on a grid was refused.
#[derive(Clone, Copy, PartialEq, Eq, Debug, Structural)]
pub enum GridError {
    /// A grid was asked for with no columns or no rows.
    EmptyDimension,
    /// A grid was asked for with more cells than can be addressed.
    TooLarge,
    /// A coordinate lies outside the grid.
    OutOfBounds,
}

/// A grid as a mathematical value: the cells in row-major order, so that the
/// cell at column `x` of row `y` stands at `y * width + x`.
pub struct GridView {
    pub width: nat,
    pub height: nat,
    pub generation: nat,
    pub cells: Seq<CellState>,
}

/// A neighbour as a mathematical value: its state, its column, its row.
pub type Neighbor = (CellState, int, int);

impl GridView {
    /// Both dimensions are positive and there is one cell per position.
    pub open spec fn wf(self) -> bool {
        &&& self.width >= 1
        &&& self.height >= 1
        &&& self.cells.len() == self.width * self.height
    }

    /// The grid of the given size in which nothing lives and nothing has
    /// happened yet.
    pub open spec fn blank(width: nat, height: nat) -> GridView {
        GridView {
            width,
            height,
            generation: 0,
            cells: Seq::new(width * height, |i: int| CellState::Dead),
        }
    }

    /// The grid has a position at column `x` of row `y`.
    pub open spec fn in_bounds(self, x: int, y: int) -> bool {
        0 <= x < self.width && 0 <= y < self.height
    }

    /// Where the cell at column `x` of row `y` stands among the cells.
    pub open spec fn index(self, x: int, y: int) -> int {
        y * self.width + x
    }

    /// The cell at `(x, y)`, or nothing where the grid has no such position.
    pub open spec fn get(self, x: int, y: int) -> Option<CellState> {
        if self.in_bounds(x, y) {
            Some(self.cells[self.index(x, y)])
        } else {
            None
        }
    }

    /// The grid with `state` at `(x, y)`; the grid itself where it has no
    /// such position.
    pub open spec fn set(self, x: int, y: int, state: CellState) -> GridView {
        if self.in_bounds(x, y) {
            GridView { cells: self.cells.update(self.index(x, y), state), ..self }
        } else {
            self
        }
    }

    /// The position `(x, y)` as a neighbour, if the grid has it.
    pub open spec fn candidate(self, x: int, y: int) -> Seq<Neighbor> {
        if self.in_bounds(x, y) {
            seq![(self.cells[self.index(x, y)], x, y)]
        } else {
            Seq::empty()
        }
    }

    /// The neighbours of `(x, y)`: of the eight positions round it those that
    /// the grid has, the row above first, each row from left to right.
    pub open spec fn neighbors(self, x: int, y: int) -> Seq<Neighbor> {
        self.candidate(x - 1, y - 1) + self.candidate(x, y - 1) + self.candidate(x + 1, y - 1)
            + self.candidate(x - 1, y) + self.candidate(x + 1, y) + self.candidate(x - 1, y + 1)
            + self.candidate(x, y + 1) + self.candidate(x + 1, y + 1)
    }

    /// The neighbours of `(x, y)` among the first `k` positions of the block
    /// of three by three round it, taken row by row.
    spec fn neighbors_among(self, x: int, y: int, k: nat) -> Seq<Neighbor>
        decreases k,
    {
        if k == 0 {
            Seq::empty()
        } else {
            let j: int = k - 1;
            let before = self.neighbors_among(x, y, j as nat);
            if j == 4 {
                before
            } else {
                before + self.candidate(x + j % 3 - 1, y + j / 3 - 1)
            }
        }
    }

    /// How many of the given neighbours live.
    pub open spec fn count_alive(s: Seq<Neighbor>) -> nat
        decreases s.len(),
    {
        if s.len() == 0 {
            0
        } else {
            let one: nat = if s.last().0 == CellState::Alive { 1 } else { 0 };
            Self::count_alive(s.drop_last()) + one
        }
    }

    /// How many neighbours of `(x, y)` live.
    pub open spec fn live_neighbors(self, x: int, y: int) -> nat {
        Self::count_alive(self.neighbors(x, y))
    }

    /// The next generation: every cell judged by its neighbours in this one.
    pub open spec fn step(self) -> GridView {
        GridView {
            width: self.width,
            height: self.height,
            generation: self.generation + 1,
            cells: Seq::new(
                self.cells.len(),
                |i: int|
                    self.cells[i].spec_next(
                        self.live_neighbors(i % (self.width as int), i / (self.width as int)),
                    ),
            ),
        }
    }

    /// The grid after `n` steps.
    pub open spec fn after(self, n: nat) -> GridView
        decreases n,
    {
        if n == 0 {
            self
        } else {
            self.after((n - 1) as nat).step()
        }
    }

    /// The text of the first `n` cells of row `y`: a glyph and a space each.
    pub open spec fn render_cells(self, y: int, n: nat) -> Seq<char>
        decreases n,
    {
        if n == 0 {
            Seq::empty()
        } else {
            self.render_cells(y, (n - 1) as nat).push(
                self.cells[self.index(n - 1, y)].glyph(),
            ).push(' ')
        }
    }

    /// The text of the first `n` rows, each closed by a newline.
    pub open spec fn render_rows(self, n: nat) -> Seq<char>
        decreases n,
    {
        if n == 0 {
            Seq::empty()
        } else {
            (self.render_rows((n - 1) as nat) + self.render_cells(n - 1, self.width)).push('\n')
        }
    }

    /// The grid as text, top row first.
    pub open spec fn render(self) -> Seq<char> {
        self.render_rows(self.height)
    }

    /// A position of the grid has a place among its cells, and the place
    /// gives the position back.
    pub proof fn lemma_index(self, x: int, y: int)
        requires
            self.wf(),
            self.in_bounds(x, y),
        ensures
            0 <= y * self.width <= self.index(x, y) < self.cells.len(),
            self.index(x, y) % (self.width as int) == x,
            self.index(x, y) / (self.width as int) == y,
    {
        let w: int = self.width as int;
        let h: int = self.height as int;
        assert(0 <= y * w) by (nonlinear_arith)
            requires
                0 <= y,
                0 <= w,
        ;
        assert(y * w + w <= h * w) by (nonlinear_arith)
            requires
                y + 1 <= h,
                0 <= w,
        ;
        lemma_fundamental_div_mod_converse(self.index(x, y), w, y, x);
    }

    /// The row-by-row scan of the whole block finds exactly the neighbours.
    proof fn lemma_neighbors_among_all(self, x: int, y: int)
        ensures
            self.neighbors_among(x, y, 9) == self.neighbors(x, y),
    {
        reveal_with_fuel(GridView::neighbors_among, 10);
        assert(self.neighbors_among(x, y, 9) =~= self.neighbors(x, y));
    }
}

/// The neighbours that a vector holds, as mathematical values.
pub open spec fn neighbor_view(s: Seq<(CellState, usize, usize)>) -> Seq<Neighbor> {
    Seq::new(s.len(), |i: int| (s[i].0, s[i].1 as int, s[i].2 as int))
}

/// A finite grid of cells, with the number of generations it has lived.
pub struct Grid {
    width: usize,
    height: usize,
    step: usize,
    data: Vec<CellState>,
}

impl View for Grid {
    type V = GridView;

    closed spec fn view(&self) -> GridView {
        GridView {
            width: self.width as nat,
            height: self.height as nat,
            generation: self.step as nat,
            cells: self.data@,
        }
    }
}

/// `x + d - 1`, where that is a `usize`.
fn shift(x: usize, d: usize) -> (r: Option<usize>)
    requires
        d < 3,
    ensures
        0 <= x + d - 1 <= usize::MAX ==> r == Some((x + d - 1) as usize),
        !(0 <= x + d - 1 <= usize::MAX) ==> r.is_none(),
{
    if d == 0 {
        x.checked_sub(1)
    } else {
        x.checked_add(d - 1)
    }
}

impl Grid {
    /// The invariant of every grid that this module hands out.
    pub open spec fn wf(&self) -> bool {
        self@.wf()
    }

    /// A grid of `width` columns and `height` rows in which nothing lives.
    ///
    /// A grid has at least one column and one row, and no more cells than a
    /// `usize` can count: anything else is refused.
    pub fn new(width: usize, height: usize) -> (r: Result<Grid, GridError>)
        ensures
            width == 0 || height == 0 ==> r == Err::<Grid, GridError>(GridError::EmptyDimension),
            width >= 1 && height >= 1 && width * height > usize::MAX ==> r == Err::<
                Grid,
                GridError,
            >(GridError::TooLarge),
            width >= 1 && height >= 1 && width * height <= usize::MAX ==> r.is_ok()
                && r.unwrap().wf() && r.unwrap()@ == GridView::blank(width as nat, height as nat),
    {
        if width == 0 || height == 0 {
            return Err(GridError::EmptyDimension);
        }
        let n: usize = match width.checked_mul(height) {
            Some(n) => n,
            None => {
                return Err(GridError::TooLarge);
            },
        };
        let mut data: Vec<CellState> = Vec::new();
        let mut i: usize = 0;
        while i < n
            invariant
                i <= n,
                data@ == Seq::new(i as nat, |k: int| CellState::Dead),
            decreases n - i,
        {
            data.push(CellState::Dead);
            i += 1;
            assert(data@ =~= Seq::new(i as nat, |k: int| CellState::Dead));
        }
        let g = Grid { width, height, step: 0, data };
        assert(g@ =~= GridView::blank(width as nat, height as nat));
        Ok(g)
    }

    /// Where the cell at `(x, y)` stands among the cells.
    fn offset(&self, x: usize, y: usize) -> (i: usize)
        requires
            self.wf(),
            self@.in_bounds(x as int, y as int),
        ensures
            i == self@.index(x as int, y as int),
            i < self.data.len(),
    {
        proof {
            self@.lemma_index(x as int, y as int);
            assert(self@.cells.len() == self.data.len());
            assert(0 <= y * self.width <= y * self.width + x < self.data.len());
        }
        y * self.width + x
    }

    /// The cell at a position that the grid has.
    fn cell(&self, x: usize, y: usize) -> (c: CellState)
        requires
            self.wf(),
            self@.in_bounds(x as int, y as int),
        ensures
            Some(c) == self@.get(x as int, y as int),
    {
        self.data[self.offset(x, y)]
    }

    /// Writes a cell at a position that the grid has.
    fn put(&mut self, x: usize, y: usize, state: CellState)
        requires
            old(self).wf(),
            old(self)@.in_bounds(x as int, y as int),
        ensures
            final(self).wf(),
            final(self)@ == old(self)@.set(x as int, y as int, state),
    {
        let i: usize = self.offset(x, y);
        self.data.set(i, state);
        assert(self@ =~= old(self)@.set(x as int, y as int, state));
    }

    /// The number of columns.
    pub fn width(&self) -> (w: usize)
        ensures
            w == self@.width,
    {
        self.width
    }

    /// The number of rows.
    pub fn height(&self) -> (h: usize)
        ensures
            h == self@.height,
    {
        self.height
    }

    /// The number of steps taken since the grid was made.
    pub fn generation(&self) -> (n: usize)
        ensures
            n == self@.generation,
    {
        self.step
    }

    /// The cell at column `x` of row `y`, or `None` where the grid has no
    /// such position.
    pub fn get(&self, x: usize, y: usize) -> (r: Option<CellState>)
        requires
            self.wf(),
        ensures
            r == self@.get(x as int, y as int),
            r.is_some() <==> x < self@.width && y < self@.height,
    {
        if x < self.width && y < self.height {
            Some(self.cell(x, y))
        } else {
            None
        }
    }

    /// Writes `state` at column `x` of row `y`. Where the grid has no such
    /// position it is left as it was and the call fails.
    pub fn set(&mut self, x: usize, y: usize, state: CellState) -> (r: Result<(), GridError>)
        requires
            old(self).wf(),
        ensures
            final(self).wf(),
            final(self)@ == old(self)@.set(x as int, y as int, state),
            old(self)@.in_bounds(x as int, y as int) ==> r == Ok::<(), GridError>(()),
            !old(self)@.in_bounds(x as int, y as int) ==> r == Err::<(), GridError>(
                GridError::OutOfBounds,
            ),
    {
        if x < self.width && y < self.height {
            self.put(x, y, state);
            Ok(())
        } else {
            Err(GridError::OutOfBounds)
        }
    }

    /// The neighbours of `(x, y)`, each with its state and its position: of
    /// the eight positions round `(x, y)` those that the grid has. The grid
    /// has no wrap-around: what lies beyond an edge is left out.
    pub fn neighbors(&self, x: usize, y: usize) -> (v: Vec<(CellState, usize, usize)>)
        requires
            self.wf(),
        ensures
            neighbor_view(v@) == self@.neighbors(x as int, y as int),
    {
        let mut v: Vec<(CellState, usize, usize)> = Vec::new();
        let mut i: usize = 0;
        assert(neighbor_view(v@) =~= self@.neighbors_among(x as int, y as int, 0));
        while i < 3
            invariant
                i <= 3,
                self.wf(),
                neighbor_view(v@) == self@.neighbors_among(x as int, y as int, (3 * i) as nat),
            decreases 3 - i,
        {
            let mut j: usize = 0;
            while j < 3
                invariant
                    i < 3,
                    j <= 3,
                    self.wf(),
                    neighbor_view(v@) == self@.neighbors_among(
                        x as int,
                        y as int,
                        (3 * i + j) as nat,
                    ),
                decreases 3 - j,
            {
                let ghost before = neighbor_view(v@);
                if i != 1 || j != 1 {
                    match (shift(x, j), shift(y, i)) {
                        (Some(nx), Some(ny)) => {
                            match self.get(nx, ny) {
                                Some(cs) => {
                                    v.push((cs, nx, ny));
                                },
                                None => {},
                            }
                        },
                        _ => {},
                    }
                }
                proof {
                    let k: int = 3 * i + j;
                    assert(k % 3 == j && k / 3 == i);
                    if k != 4 {
                        assert(neighbor_view(v@) =~= before + self@.candidate(
                            x + j - 1,
                            y + i - 1,
                        ));
                    }
                }
                j += 1;
            }
            i += 1;
        }
        proof {
            self@.lemma_neighbors_among_all(x as int, y as int);
        }
        v
    }

    /// How many neighbours of `(x, y)` live.
    pub fn live_neighbors(&self, x: usize, y: usize) -> (n: usize)
        requires
            self.wf(),
        ensures
            n == self@.live_neighbors(x as int, y as int),
    {
        let v = self.neighbors(x, y);
        let ghost s = neighbor_view(v@);
        let mut n: usize = 0;
        let mut i: usize = 0;
        while i < v.len()
            invariant
                i <= v.len(),
                s == neighbor_view(v@),
                n == GridView::count_alive(s.take(i as int)),
                n <= i,
            decreases v.len() - i,
        {
            assert(s.take(i + 1).drop_last() =~= s.take(i as int));
            if v[i].0.is_alive() {
                n += 1;
            }
            i += 1;
        }
        assert(s.take(i as int) =~= s);
        n
    }

    /// Moves the grid to its next generation. Every cell is judged by the
    /// generation that the call found, never by cells already rewritten.
    pub fn update(&mut self)
        requires
            old(self).wf(),
            old(self)@.generation < usize::MAX,
        ensures
            final(self).wf(),
            final(self)@ == old(self)@.step(),
            final(self)@.generation == old(self)@.generation + 1,
    {
        let g = self.clone();
        let ghost next = g@.step();
        let mut y: usize = 0;
        while y < self.height
            invariant
                g.wf(),
                g@ == old(self)@,
                next == g@.step(),
                self.wf(),
                self@.width == g@.width,
                self@.height == g@.height,
                self@.generation == g@.generation,
                y <= self.height,
                0 <= y * self.width <= self.data.len(),
                forall|i: int| 0 <= i < y * self.width ==> self@.cells[i] == next.cells[i],
            decreases self.height - y,
        {
            let mut x: usize = 0;
            while x < self.width
                invariant
                    g.wf(),
                    g@ == old(self)@,
                    next == g@.step(),
                    self.wf(),
                    self@.width == g@.width,
                    self@.height == g@.height,
                    self@.generation == g@.generation,
                    y < self.height,
                    x <= self.width,
                    0 <= y * self.width + x <= self.data.len(),
                    forall|i: int| 0 <= i < y * self.width + x ==> self@.cells[i] == next.cells[i],
                decreases self.width - x,
            {
                proof {
                    g@.lemma_index(x as int, y as int);
                }
                let now = g.cell(x, y);
                let alive_neighbors = g.live_neighbors(x, y);
                let ghost before = self@;
                self.put(x, y, now.next(alive_neighbors));
                assert forall|i: int| 0 <= i < y * self.width + x + 1 implies self@.cells[i]
                    == next.cells[i] by {
                    if i < y * self.width + x {
                        assert(self@.cells[i] == before.cells[i]);
                    }
                }
                x += 1;
            }
            assert((y + 1) * self.width == y * self.width + self.width) by (nonlinear_arith);
            y += 1;
        }
        assert(self.height * self.width == self.width * self.height) by (nonlinear_arith);
        assert(self@.cells =~= next.cells);
        self.step += 1;
    }

    /// The grid as text: one line per row, top row first; in a row one glyph
    /// per cell, each followed by a space.
    pub fn render(&self) -> (s: String)
        requires
            self.wf(),
        ensures
            s@ == self@.render(),
    {
        let mut out = String::new();
        let mut y: usize = 0;
        while y < self.height
            invariant
                self.wf(),
                y <= self.height,
                out@ == self@.render_rows(y as nat),
            decreases self.height - y,
        {
            let mut x: usize = 0;
            while x < self.width
                invariant
                    self.wf(),
                    y < self.height,
                    x <= self.width,
                    out@ == self@.render_rows(y as nat) + self@.render_cells(y as int, x as nat),
                decreases self.width - x,
            {
                let glyph = self.cell(x, y).render();
                out.append(glyph.as_str());
                out.append(" ");
                x += 1;
                proof {
                    reveal_strlit(" ");
                    assert(" "@ =~= seq![' ']);
                }
                assert(out@ =~= self@.render_rows(y as nat) + self@.render_cells(
                    y as int,
                    x as nat,
                ));
            }
            out.append("\n");
            y += 1;
            proof {
                reveal_strlit("\n");
                assert("\n"@ =~= seq!['\n']);
            }
            assert(out@ =~= self@.render_rows(y as nat));
        }
        out
    }
}

impl Clone for Grid {
    /// A copy that shares nothing with the grid it was taken from.
    fn clone(&self) -> (g: Grid)
        ensures
            g@ == self@,
    {
        let mut data: Vec<CellState> = Vec::new();
        let mut i: usize = 0;
        while i < self.data.len()
            invariant
                i <= self.data.len(),
                data@ == self.data@.take(i as int),
            decreases self.data.len() - i,
        {
            data.push(self.data[i]);
            i += 1;
            assert(data@ =~= self.data@.take(i as int));
        }
        assert(data@ =~= self.data@);
        Grid { width: self.width, height: self.height, step: self.step, data }
    }
}

} // verus!
