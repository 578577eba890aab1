use game_of_life::cell::CellState;
use game_of_life::grid::Grid;

fn seeded_grid(width: usize, height: usize, live: &[(usize, usize)]) -> Grid {
    let mut g = match Grid::new(width, height) {
        Ok(g) => g,
        Err(e) => panic!("no grid of {} by {}: {:?}", width, height, e),
    };
    for &(x, y) in live {
        assert_eq!(g.set(x, y, CellState::Alive), Ok(()));
    }
    g
}

fn live_cells(g: &Grid) -> Vec<(usize, usize)> {
    let mut live = Vec::new();
    for x in 0..g.width() {
        for y in 0..g.height() {
            if g.get(x, y) == Some(CellState::Alive) {
                live.push((x, y));
            }
        }
    }
    live
}

const GLIDER: [(usize, usize); 5] = [(0, 1), (1, 2), (2, 0), (2, 1), (2, 2)];

#[test]
fn three_live_neighbors_give_life() {
    assert_eq!(CellState::Dead.next(3), CellState::Alive);
    assert_eq!(CellState::Alive.next(3), CellState::Alive);
}

#[test]
fn two_live_neighbors_keep_a_live_cell_alive() {
    assert_eq!(CellState::Alive.next(2), CellState::Alive);
    assert_eq!(CellState::Dead.next(2), CellState::Dead);
}

#[test]
fn any_other_count_is_death() {
    for n in [0usize, 1, 4, 5, 6, 7, 8] {
        assert_eq!(CellState::Alive.next(n), CellState::Dead);
        assert_eq!(CellState::Dead.next(n), CellState::Dead);
    }
    assert_eq!(CellState::Alive.next(usize::MAX), CellState::Dead);
}

#[test]
fn is_alive_tells_the_two_states_apart() {
    assert!(CellState::Alive.is_alive());
    assert!(!CellState::Dead.is_alive());
}

#[test]
fn glider_after_one_step() {
    let mut g = seeded_grid(5, 5, &GLIDER);
    g.update();
    assert_eq!(live_cells(&g), vec![(1, 0), (1, 2), (2, 1), (2, 2), (3, 1)]);
    assert_eq!(g.generation(), 1);
}

#[test]
fn glider_after_four_steps_has_moved_by_one_and_one() {
    let mut g = seeded_grid(5, 5, &GLIDER);
    for _ in 0..4 {
        g.update();
    }
    assert_eq!(live_cells(&g), vec![(1, 2), (2, 3), (3, 1), (3, 2), (3, 3)]);
    let mut moved: Vec<(usize, usize)> = GLIDER.iter().map(|&(x, y)| (x + 1, y + 1)).collect();
    moved.sort();
    assert_eq!(live_cells(&g), moved);
    assert_eq!(g.generation(), 4);
}

#[test]
fn glider_generation_by_generation() {
    let mut g = seeded_grid(5, 5, &GLIDER);
    let expected: [[(usize, usize); 5]; 8] = [
        [(1, 0), (1, 2), (2, 1), (2, 2), (3, 1)],
        [(1, 2), (2, 0), (2, 2), (3, 1), (3, 2)],
        [(1, 1), (2, 2), (2, 3), (3, 1), (3, 2)],
        [(1, 2), (2, 3), (3, 1), (3, 2), (3, 3)],
        [(2, 1), (2, 3), (3, 2), (3, 3), (4, 2)],
        [(2, 3), (3, 1), (3, 3), (4, 2), (4, 3)],
        [(2, 2), (3, 3), (3, 4), (4, 2), (4, 3)],
        [(2, 3), (3, 4), (4, 2), (4, 3), (4, 4)],
    ];
    for cells in expected.iter() {
        g.update();
        assert_eq!(live_cells(&g), cells.to_vec());
    }
}

#[test]
fn blinker_turns_and_turns_back() {
    let upright = [(1, 0), (1, 1), (1, 2)];
    let mut g = seeded_grid(3, 3, &upright);
    g.update();
    assert_eq!(live_cells(&g), vec![(0, 1), (1, 1), (2, 1)]);
    g.update();
    assert_eq!(live_cells(&g), upright.to_vec());
}

#[test]
fn block_stands_still() {
    let block = [(1, 1), (1, 2), (2, 1), (2, 2)];
    let mut g = seeded_grid(4, 4, &block);
    for _ in 0..3 {
        g.update();
        assert_eq!(live_cells(&g), block.to_vec());
    }
}

#[test]
fn a_lonely_cell_dies_and_an_empty_grid_stays_empty() {
    let mut g = seeded_grid(3, 3, &[(1, 1)]);
    g.update();
    assert_eq!(live_cells(&g), vec![]);
    g.update();
    assert_eq!(live_cells(&g), vec![]);
    assert_eq!(g.generation(), 2);
}

#[test]
fn a_crowded_cell_dies() {
    let mut g = seeded_grid(3, 3, &[(0, 0), (1, 0), (2, 0), (0, 1), (1, 1)]);
    assert_eq!(g.live_neighbors(1, 1), 4);
    g.update();
    assert_eq!(g.get(1, 1), Some(CellState::Dead));
    assert_eq!(live_cells(&g), vec![(0, 0), (0, 1), (2, 0), (2, 1)]);
}

#[test]
fn a_row_of_three_at_the_edge_lacks_the_cells_beyond_it() {
    let mut g = seeded_grid(3, 1, &[(0, 0), (1, 0), (2, 0)]);
    g.update();
    assert_eq!(live_cells(&g), vec![(1, 0)]);
    g.update();
    assert_eq!(live_cells(&g), vec![]);
}

#[test]
fn every_cell_is_judged_by_the_generation_before() {
    let mut g = seeded_grid(4, 1, &[(0, 0), (1, 0), (2, 0), (3, 0)]);
    g.update();
    assert_eq!(live_cells(&g), vec![(1, 0), (2, 0)]);
}

#[test]
fn each_step_adds_one_to_the_generation() {
    let mut g = seeded_grid(5, 5, &GLIDER);
    for n in 0..10 {
        assert_eq!(g.generation(), n);
        g.update();
        assert_eq!(g.generation(), n + 1);
    }
    assert_eq!(g.set(0, 0, CellState::Alive), Ok(()));
    assert_eq!(g.generation(), 10);
    let _ = g.render();
    let _ = g.neighbors(1, 1);
    assert_eq!(g.generation(), 10);
}

#[test]
fn a_step_keeps_the_dimensions() {
    let mut g = seeded_grid(6, 2, &[(0, 0), (5, 1)]);
    g.update();
    assert_eq!((g.width(), g.height()), (6, 2));
    assert_eq!(g.get(5, 1), Some(CellState::Dead));
    assert_eq!(g.get(6, 1), None);
    assert_eq!(g.get(5, 2), None);
}
