//! Facts about grids that follow from the contracts of [`crate::grid`].
//!
//! Each is stated over [`GridView`], the model that the contracts of
//! [`crate::grid::Grid`] speak of, and so holds of every grid that the
//! executable type can hold.

use crate::cell::CellState;
use crate::grid::{Grid, GridView, Neighbor};
use vstd::prelude::*;
use vstd::seq_lib::lemma_seq_concat_contains_all_elements;

verus! {

/// One if a live cell stands at `(x, y)`, zero if a dead one or none does.
pub open spec fn live_at(g: GridView, x: int, y: int) -> nat {
    if g.get(x, y) == Some(CellState::Alive) {
        1
    } else {
        0
    }
}

/// `(px, py)` is one of the eight positions round `(x, y)`.
pub open spec fn adjacent(x: int, y: int, px: int, py: int) -> bool {
    &&& x - 1 <= px <= x + 1
    &&& y - 1 <= py <= y + 1
    &&& !(px == x && py == y)
}

/// A new grid has one cell per position, every cell of it is dead, and its
/// generation is zero.
pub proof fn lemma_blank(width: nat, height: nat)
    requires
        width >= 1,
        height >= 1,
    ensures
        GridView::blank(width, height).wf(),
        GridView::blank(width, height).width == width,
        GridView::blank(width, height).height == height,
        GridView::blank(width, height).generation == 0,
        forall|x: int, y: int|
            GridView::blank(width, height).in_bounds(x, y) ==> #[trigger] GridView::blank(
                width,
                height,
            ).get(x, y) == Some(CellState::Dead),
{
    let g = GridView::blank(width, height);
    assert(width * height >= 0) by (nonlinear_arith)
        requires
            width >= 0,
            height >= 0,
    ;
    assert forall|x: int, y: int| g.in_bounds(x, y) implies #[trigger] g.get(x, y) == Some(
        CellState::Dead,
    ) by {
        g.lemma_index(x, y);
    }
}

/// Writing a cell keeps the grid's shape: it has one cell per position
/// before and after, and the same dimensions and generation.
pub proof fn lemma_set_keeps_shape(g: GridView, x: int, y: int, state: CellState)
    requires
        g.wf(),
    ensures
        g.set(x, y, state).wf(),
        g.set(x, y, state).width == g.width,
        g.set(x, y, state).height == g.height,
        g.set(x, y, state).generation == g.generation,
{
    if g.in_bounds(x, y) {
        g.lemma_index(x, y);
    }
}

/// What was written at a position of the grid is what is read there.
pub proof fn lemma_set_then_get(g: GridView, x: int, y: int, state: CellState)
    requires
        g.wf(),
        g.in_bounds(x, y),
    ensures
        g.set(x, y, state).get(x, y) == Some(state),
{
    g.lemma_index(x, y);
}

/// Writing at one position changes what is read at no other.
pub proof fn lemma_set_leaves_others(
    g: GridView,
    x: int,
    y: int,
    state: CellState,
    other_x: int,
    other_y: int,
)
    requires
        g.wf(),
        !(other_x == x && other_y == y),
    ensures
        g.set(x, y, state).get(other_x, other_y) == g.get(other_x, other_y),
{
    if g.in_bounds(x, y) && g.in_bounds(other_x, other_y) {
        g.lemma_index(x, y);
        g.lemma_index(other_x, other_y);
    }
}

/// Writing outside the grid changes nothing.
pub proof fn lemma_set_out_of_bounds(g: GridView, x: int, y: int, state: CellState)
    requires
        !g.in_bounds(x, y),
    ensures
        g.set(x, y, state) == g,
{
}

/// Reading at or beyond the width or the height finds nothing.
pub proof fn lemma_get_out_of_bounds(g: GridView, x: int, y: int)
    requires
        x >= g.width || y >= g.height,
    ensures
        g.get(x, y).is_none(),
{
}

/// Reading finds a cell exactly at the positions of the grid.
pub proof fn lemma_get_some_iff_in_bounds(g: GridView, x: int, y: int)
    ensures
        g.get(x, y).is_some() <==> 0 <= x < g.width && 0 <= y < g.height,
{
}

/// The neighbours of `(x, y)` are the positions of the grid round `(x, y)`,
/// each with the state of its cell, and nothing else: neither `(x, y)`
/// itself nor anything further away.
pub proof fn lemma_neighbors_member(g: GridView, x: int, y: int, n: Neighbor)
    ensures
        g.neighbors(x, y).contains(n) <==> {
            &&& g.in_bounds(n.1, n.2)
            &&& adjacent(x, y, n.1, n.2)
            &&& g.get(n.1, n.2) == Some(n.0)
        },
{
    broadcast use lemma_seq_concat_contains_all_elements;

    assert forall|px: int, py: int| #[trigger]
        g.candidate(px, py).contains(n) <==> (g.in_bounds(px, py) && n == (
            g.cells[g.index(px, py)],
            px,
            py,
        )) by {
        if g.in_bounds(px, py) {
            assert(g.candidate(px, py)[0] == (g.cells[g.index(px, py)], px, py));
        }
    }
}

/// A position has at most eight neighbours, and one that does not touch an
/// edge of the grid has exactly eight.
pub proof fn lemma_neighbors_len(g: GridView, x: int, y: int)
    ensures
        g.neighbors(x, y).len() <= 8,
        1 <= x < g.width - 1 && 1 <= y < g.height - 1 ==> g.neighbors(x, y).len() == 8,
{
}

/// The grid does not wrap round: unless its first and its last position
/// touch, as they do in a grid of two by two, neither is a neighbour of the
/// other.
pub proof fn lemma_no_wraparound(g: GridView, n: Neighbor)
    requires
        g.wf(),
        !adjacent(0, 0, g.width - 1, g.height - 1),
    ensures
        g.neighbors(g.width - 1, g.height - 1).contains(n) ==> !(n.1 == 0 && n.2 == 0),
        g.neighbors(0, 0).contains(n) ==> !(n.1 == g.width - 1 && n.2 == g.height - 1),
{
    lemma_neighbors_member(g, g.width - 1, g.height - 1, n);
    lemma_neighbors_member(g, 0, 0, n);
}

/// Counting the living among two runs of neighbours, one after the other,
/// adds the two counts.
pub proof fn lemma_count_alive_concat(a: Seq<Neighbor>, b: Seq<Neighbor>)
    ensures
        GridView::count_alive(a + b) == GridView::count_alive(a) + GridView::count_alive(b),
    decreases b.len(),
{
    if b.len() == 0 {
        assert(a + b =~= a);
    } else {
        assert((a + b).drop_last() =~= a + b.drop_last());
        lemma_count_alive_concat(a, b.drop_last());
    }
}

/// The number of live neighbours of `(x, y)` is the number of live cells on
/// the eight positions round it, and so at most eight.
pub proof fn lemma_live_neighbors(g: GridView, x: int, y: int)
    ensures
        g.live_neighbors(x, y) == live_at(g, x - 1, y - 1) + live_at(g, x, y - 1) + live_at(
            g,
            x + 1,
            y - 1,
        ) + live_at(g, x - 1, y) + live_at(g, x + 1, y) + live_at(g, x - 1, y + 1) + live_at(
            g,
            x,
            y + 1,
        ) + live_at(g, x + 1, y + 1),
        g.live_neighbors(x, y) <= 8,
{
    assert forall|px: int, py: int|
        GridView::count_alive(#[trigger] g.candidate(px, py)) == live_at(g, px, py) by {
        let c = g.candidate(px, py);
        if g.in_bounds(px, py) {
            assert(c.drop_last() =~= Seq::<Neighbor>::empty());
            assert(GridView::count_alive(c.drop_last()) == 0);
        }
    }
    let c0 = g.candidate(x - 1, y - 1);
    let c1 = g.candidate(x, y - 1);
    let c2 = g.candidate(x + 1, y - 1);
    let c3 = g.candidate(x - 1, y);
    let c4 = g.candidate(x + 1, y);
    let c5 = g.candidate(x - 1, y + 1);
    let c6 = g.candidate(x, y + 1);
    let c7 = g.candidate(x + 1, y + 1);
    lemma_count_alive_concat(c0, c1);
    lemma_count_alive_concat(c0 + c1, c2);
    lemma_count_alive_concat(c0 + c1 + c2, c3);
    lemma_count_alive_concat(c0 + c1 + c2 + c3, c4);
    lemma_count_alive_concat(c0 + c1 + c2 + c3 + c4, c5);
    lemma_count_alive_concat(c0 + c1 + c2 + c3 + c4 + c5, c6);
    lemma_count_alive_concat(c0 + c1 + c2 + c3 + c4 + c5 + c6, c7);
}

/// A step keeps the grid's shape, adds exactly one to its generation, and
/// gives every cell the state that the rule assigns to its state and its
/// live neighbours in the generation before.
pub proof fn lemma_step(g: GridView)
    requires
        g.wf(),
    ensures
        g.step().wf(),
        g.step().width == g.width,
        g.step().height == g.height,
        g.step().generation == g.generation + 1,
        forall|x: int, y: int|
            g.in_bounds(x, y) ==> #[trigger] g.step().get(x, y) == Some(
                g.cells[g.index(x, y)].spec_next(g.live_neighbors(x, y)),
            ),
{
    assert forall|x: int, y: int| g.in_bounds(x, y) implies #[trigger] g.step().get(x, y) == Some(
        g.cells[g.index(x, y)].spec_next(g.live_neighbors(x, y)),
    ) by {
        g.lemma_index(x, y);
    }
}

/// The generation counts the steps: after `n` of them it has grown by
/// exactly `n`, and the grid has kept its shape.
pub proof fn lemma_after(g: GridView, n: nat)
    requires
        g.wf(),
    ensures
        g.after(n).wf(),
        g.after(n).width == g.width,
        g.after(n).height == g.height,
        g.after(n).generation == g.generation + n,
    decreases n,
{
    if n > 0 {
        lemma_after(g, (n - 1) as nat);
        lemma_step(g.after((n - 1) as nat));
    }
}

/// Where nothing lives, nothing comes to life.
pub proof fn lemma_blank_is_still(width: nat, height: nat)
    requires
        width >= 1,
        height >= 1,
    ensures
        GridView::blank(width, height).step().cells == GridView::blank(width, height).cells,
{
    let g = GridView::blank(width, height);
    lemma_blank(width, height);
    assert forall|i: int| 0 <= i < g.cells.len() implies g.step().cells[i] == CellState::Dead by {
        let x = i % (width as int);
        let y = i / (width as int);
        lemma_live_neighbors(g, x, y);
        assert(live_at(g, x - 1, y - 1) == 0);
        assert(live_at(g, x, y - 1) == 0);
        assert(live_at(g, x + 1, y - 1) == 0);
        assert(live_at(g, x - 1, y) == 0);
        assert(live_at(g, x + 1, y) == 0);
        assert(live_at(g, x - 1, y + 1) == 0);
        assert(live_at(g, x, y + 1) == 0);
        assert(live_at(g, x + 1, y + 1) == 0);
    }
    assert(g.step().cells =~= g.cells);
}

/// Two texts rendered from the same grid, with no step between, are the
/// same text.
pub proof fn lemma_render_twice(g: Grid, first: String, second: String)
    requires
        first@ == g@.render(),
        second@ == g@.render(),
    ensures
        first@ == second@,
{
}

/// The text of a grid does not depend on its generation.
pub proof fn lemma_render_ignores_generation(a: GridView, b: GridView)
    requires
        a.width == b.width,
        a.height == b.height,
        a.cells == b.cells,
    ensures
        a.render() == b.render(),
{
    lemma_render_rows_same(a, b, a.height);
}

proof fn lemma_render_cells_same(a: GridView, b: GridView, y: int, n: nat)
    requires
        a.width == b.width,
        a.cells == b.cells,
    ensures
        a.render_cells(y, n) == b.render_cells(y, n),
    decreases n,
{
    if n > 0 {
        lemma_render_cells_same(a, b, y, (n - 1) as nat);
    }
}

proof fn lemma_render_rows_same(a: GridView, b: GridView, n: nat)
    requires
        a.width == b.width,
        a.cells == b.cells,
    ensures
        a.render_rows(n) == b.render_rows(n),
    decreases n,
{
    if n > 0 {
        lemma_render_rows_same(a, b, (n - 1) as nat);
        lemma_render_cells_same(a, b, n - 1, a.width);
    }
}

/// The text of a grid has, for each row, two characters per cell and one
/// newline.
pub proof fn lemma_render_len(g: GridView)
    ensures
        g.render().len() == g.height * (2 * g.width + 1),
{
    lemma_render_rows_len(g, g.height);
}

proof fn lemma_render_cells_len(g: GridView, y: int, n: nat)
    ensures
        g.render_cells(y, n).len() == 2 * n,
    decreases n,
{
    if n > 0 {
        lemma_render_cells_len(g, y, (n - 1) as nat);
    }
}

proof fn lemma_render_rows_len(g: GridView, n: nat)
    ensures
        g.render_rows(n).len() == n * (2 * g.width + 1),
    decreases n,
{
    let row: int = (2 * g.width + 1) as int;
    if n > 0 {
        lemma_render_rows_len(g, (n - 1) as nat);
        lemma_render_cells_len(g, n - 1, g.width);
        assert(n * row == (n - 1) * row + row) by (nonlinear_arith);
    } else {
        assert(n * row == 0) by (nonlinear_arith)
            requires
                n == 0,
        ;
    }
}

} // verus!
