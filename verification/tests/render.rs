use game_of_life::cell::CellState;
use game_of_life::grid::Grid;

fn glider() -> Grid {
    let mut g = match Grid::new(5, 5) {
        Ok(g) => g,
        Err(e) => panic!("no grid of 5 by 5: {:?}", e),
    };
    for (x, y) in [(0, 1), (1, 2), (2, 0), (2, 1), (2, 2)] {
        assert_eq!(g.set(x, y, CellState::Alive), Ok(()));
    }
    g
}

#[test]
fn a_cell_renders_as_its_glyph() {
    assert_eq!(CellState::Dead.render(), ".");
    assert_eq!(CellState::Alive.render(), "*");
}

#[test]
fn a_single_cell_renders_as_one_line() {
    let mut g = match Grid::new(1, 1) {
        Ok(g) => g,
        Err(e) => panic!("no grid of 1 by 1: {:?}", e),
    };
    assert_eq!(g.render(), ". \n");
    assert_eq!(g.set(0, 0, CellState::Alive), Ok(()));
    assert_eq!(g.render(), "* \n");
}

#[test]
fn rows_render_from_the_top_and_cells_from_the_left() {
    let mut g = match Grid::new(3, 2) {
        Ok(g) => g,
        Err(e) => panic!("no grid of 3 by 2: {:?}", e),
    };
    assert_eq!(g.set(0, 0, CellState::Alive), Ok(()));
    assert_eq!(g.set(2, 1, CellState::Alive), Ok(()));
    assert_eq!(g.render(), "* . . \n. . * \n");
}

#[test]
fn the_seeded_glider_renders_row_by_row() {
    assert_eq!(
        glider().render(),
        ". . * . . \n* . * . . \n. * * . . \n. . . . . \n. . . . . \n"
    );
}

#[test]
fn the_glider_renders_after_each_of_six_steps() {
    let mut g = glider();
    let frames = [
        ". * . . . \n. . * * . \n. * * . . \n. . . . . \n. . . . . \n",
        ". . * . . \n. . . * . \n. * * * . \n. . . . . \n. . . . . \n",
        ". . . . . \n. * . * . \n. . * * . \n. . * . . \n. . . . . \n",
        ". . . . . \n. . . * . \n. * . * . \n. . * * . \n. . . . . \n",
        ". . . . . \n. . * . . \n. . . * * \n. . * * . \n. . . . . \n",
        ". . . . . \n. . . * . \n. . . . * \n. . * * * \n. . . . . \n",
    ];
    for frame in frames {
        g.update();
        assert_eq!(g.render(), frame);
    }
}

#[test]
fn rendering_twice_gives_the_same_text() {
    let mut g = glider();
    let first = g.render();
    let second = g.render();
    assert_eq!(first, second);
    g.update();
    let third = g.render();
    assert_eq!(third, g.render());
    assert_ne!(first, third);
}

#[test]
fn the_text_has_two_characters_per_cell_and_a_newline_per_row() {
    let g = match Grid::new(7, 3) {
        Ok(g) => g,
        Err(e) => panic!("no grid of 7 by 3: {:?}", e),
    };
    let text = g.render();
    assert_eq!(text.len(), 3 * (2 * 7 + 1));
    assert_eq!(text.lines().count(), 3);
    assert!(text.lines().all(|line| line == ". . . . . . . "));
}
