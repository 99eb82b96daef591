use game_of_life::{Cell, Universe};

fn universe_with(width: u32, height: u32, alive: &[(u32, u32)]) -> Universe {
    let mut universe = Universe::new();
    universe.set_width(width);
    universe.set_height(height);
    assert_eq!(universe.set_cells(alive), Ok(()));
    universe
}

fn alive_in(universe: &Universe) -> Vec<(u32, u32)> {
    let mut found = Vec::new();
    for row in 0..universe.height() {
        for column in 0..universe.width() {
            let index = (row * universe.width() + column) as usize;
            if universe.get_cells()[index] == Cell::Alive {
                found.push((row, column));
            }
        }
    }
    found
}

#[test]
fn isolated_cell_dies() {
    let mut universe = universe_with(5, 5, &[(2, 2)]);
    assert_eq!(universe.live_neighbors(2, 2), Ok(0));
    universe.tick();
    assert_eq!(alive_in(&universe), vec![]);
    assert_eq!(universe.get_cells()[12], Cell::Dead);
}

#[test]
fn block_is_stable() {
    let block = [(2, 2), (2, 3), (3, 2), (3, 3)];
    let mut universe = universe_with(6, 6, &block);
    for position in block {
        assert_eq!(universe.live_neighbors(position.0, position.1), Ok(3));
    }
    let before = universe.get_cells().to_vec();
    universe.tick();
    assert_eq!(universe.get_cells(), &before[..]);
    assert_eq!(alive_in(&universe), block.to_vec());
}

#[test]
fn blinker_oscillates() {
    let horizontal = vec![(2, 1), (2, 2), (2, 3)];
    let vertical = vec![(1, 2), (2, 2), (3, 2)];
    let mut universe = universe_with(5, 5, &horizontal);
    universe.tick();
    assert_eq!(alive_in(&universe), vertical);
    universe.tick();
    assert_eq!(alive_in(&universe), horizontal);
}

#[test]
fn glider_moves_one_step_diagonally_in_four_generations() {
    let glider = [(1, 2), (2, 3), (3, 1), (3, 2), (3, 3)];
    let mut universe = universe_with(8, 8, &glider);
    universe.tick();
    assert_eq!(alive_in(&universe), vec![(2, 1), (2, 3), (3, 2), (3, 3), (4, 2)]);
    universe.tick();
    universe.tick();
    universe.tick();
    assert_eq!(alive_in(&universe), vec![(2, 3), (3, 4), (4, 2), (4, 3), (4, 4)]);
}

#[test]
fn cell_with_one_neighbor_dies() {
    let mut universe = universe_with(6, 6, &[(2, 2), (2, 3)]);
    universe.tick();
    assert_eq!(alive_in(&universe), vec![]);
}

#[test]
fn cell_with_four_neighbors_dies() {
    let plus = [(2, 2), (1, 2), (3, 2), (2, 1), (2, 3)];
    let mut universe = universe_with(7, 7, &plus);
    assert_eq!(universe.live_neighbors(2, 2), Ok(4));
    universe.tick();
    assert_eq!(universe.get_cells()[2 * 7 + 2], Cell::Dead);
    assert_eq!(
        alive_in(&universe),
        vec![(1, 1), (1, 2), (1, 3), (2, 1), (2, 3), (3, 1), (3, 2), (3, 3)]
    );
}

#[test]
fn dead_cell_with_three_neighbors_comes_alive() {
    let mut universe = universe_with(6, 6, &[(1, 1), (1, 3), (3, 2)]);
    assert_eq!(universe.live_neighbors(2, 2), Ok(3));
    universe.tick();
    assert_eq!(alive_in(&universe), vec![(2, 2)]);
}

#[test]
fn dead_cell_with_two_neighbors_stays_dead() {
    let mut universe = universe_with(6, 6, &[(1, 1), (1, 3)]);
    assert_eq!(universe.live_neighbors(2, 2), Ok(2));
    universe.tick();
    assert_eq!(universe.get_cells()[2 * 6 + 2], Cell::Dead);
}

#[test]
fn birth_across_the_corner() {
    // Three corners alive: the fourth has them all as neighbors around the edges.
    let mut universe = universe_with(5, 5, &[(0, 4), (4, 0), (4, 4)]);
    assert_eq!(universe.live_neighbors(0, 0), Ok(3));
    universe.tick();
    assert_eq!(alive_in(&universe), vec![(0, 0), (0, 4), (4, 0), (4, 4)]);
}

#[test]
fn blinker_across_the_left_and_right_edge() {
    let mut universe = universe_with(5, 5, &[(2, 4), (2, 0), (2, 1)]);
    universe.tick();
    assert_eq!(alive_in(&universe), vec![(1, 0), (2, 0), (3, 0)]);
    universe.tick();
    assert_eq!(alive_in(&universe), vec![(2, 0), (2, 1), (2, 4)]);
}

#[test]
fn tick_keeps_the_dimensions() {
    let mut universe = universe_with(7, 3, &[(0, 0), (1, 1), (2, 2)]);
    universe.tick();
    assert_eq!(universe.width(), 7);
    assert_eq!(universe.height(), 3);
    assert_eq!(universe.get_cells().len(), 21);
}

#[test]
fn tick_gives_the_same_result_from_the_same_state() {
    let mut first = Universe::new();
    let mut second = Universe::new();
    for _ in 0..5 {
        first.tick();
        second.tick();
        assert_eq!(first.get_cells(), second.get_cells());
    }
    let mut third = Universe::new();
    third.tick();
    let mut fourth = Universe::new();
    fourth.tick();
    assert_eq!(third.get_cells(), fourth.get_cells());
}

#[test]
fn first_generation_of_the_starting_pattern() {
    let start = Universe::new();
    let mut universe = Universe::new();
    universe.tick();
    for row in 0..64u32 {
        for column in 0..64u32 {
            let index = (row * 64 + column) as usize;
            let count = start.live_neighbors(row, column).unwrap();
            let expected = start.get_cells()[index].next(count);
            assert_eq!(universe.get_cells()[index], expected, "at ({}, {})", row, column);
        }
    }
    // Around (0, 0) the cells at indices 4095, 4032, 63 and 64 are alive,
    // those at 4033, 1, 127 and 65 are dead.
    assert_eq!(start.live_neighbors(0, 0), Ok(4));
    assert_eq!(universe.get_cells()[0], Cell::Dead);
    // Around (1, 1), index 65: 0, 2, 64, 66, 128 and 130 are alive, 1 and 129 dead.
    assert_eq!(start.live_neighbors(1, 1), Ok(6));
    assert_eq!(universe.get_cells()[65], Cell::Dead);
}

#[test]
fn tick_on_a_universe_without_cells_does_nothing() {
    for (width, height) in [(0, 0), (0, 4), (4, 0)] {
        let mut universe = universe_with(width, height, &[]);
        universe.tick();
        assert_eq!(universe.width(), width);
        assert_eq!(universe.height(), height);
        assert_eq!(universe.get_cells().len(), 0);
    }
}

#[test]
fn single_live_cell_on_a_one_by_one_grid_dies_of_overpopulation() {
    let mut universe = universe_with(1, 1, &[(0, 0)]);
    universe.tick();
    assert_eq!(universe.get_cells(), &[Cell::Dead][..]);
}
