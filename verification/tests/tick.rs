use game_of_life::Cell;
use game_of_life::Universe;

fn grid(width: u32, height: u32, alive: &[(u32, u32)]) -> Universe {
    let mut universe = Universe::new(&vec![false; 64 * 64]);
    universe.set_width(width);
    universe.set_height(height);
    universe.set_cells(alive);
    universe
}

fn alive_cells(universe: &Universe) -> Vec<(u32, u32)> {
    let width = universe.width();
    let mut alive = Vec::new();
    for (i, cell) in universe.get_cells().iter().enumerate() {
        if *cell == Cell::Alive {
            alive.push((i as u32 / width, i as u32 % width));
        }
    }
    alive
}

#[test]
fn lone_cell_dies_of_underpopulation() {
    let mut universe = grid(3, 3, &[(1, 1)]);
    assert_eq!(universe.live_neighbor_count(1, 1), 0);
    universe.tick();
    assert_eq!(universe.get_cells(), vec![Cell::Dead; 9]);
}

#[test]
fn tick_moves_the_spaceship() {
    let mut universe = grid(6, 6, &[(1, 2), (2, 3), (3, 1), (3, 2), (3, 3)]);
    let expected = grid(6, 6, &[(2, 1), (2, 3), (3, 2), (3, 3), (4, 2)]);
    universe.tick();
    assert_eq!(universe.get_cells(), expected.get_cells());
}

#[test]
fn inserted_glider_after_four_ticks() {
    let mut universe = Universe::new(&vec![false; 64 * 64]);
    universe.insert_glider(5, 5);
    for _ in 0..4 {
        universe.tick();
    }
    assert_eq!(alive_cells(&universe), vec![(5, 6), (6, 7), (7, 5), (7, 6), (7, 7)]);
}

#[test]
fn glider_travels_one_cell_diagonally_in_four_ticks() {
    let mut universe = Universe::new(&vec![false; 64 * 64]);
    universe.insert_glider(5, 5);
    universe.tick();
    let start = alive_cells(&universe);
    assert_eq!(start, vec![(5, 4), (5, 6), (6, 5), (6, 6), (7, 5)]);
    for _ in 0..4 {
        universe.tick();
    }
    let shifted: Vec<(u32, u32)> = start.iter().map(|(r, c)| (r + 1, c + 1)).collect();
    assert_eq!(alive_cells(&universe), shifted);
    for _ in 0..4 {
        universe.tick();
    }
    let shifted: Vec<(u32, u32)> = start.iter().map(|(r, c)| (r + 2, c + 2)).collect();
    assert_eq!(alive_cells(&universe), shifted);
}

#[test]
fn tick_gives_the_same_result_on_equal_grids() {
    let flips: Vec<bool> = (0..64 * 64).map(|i| (i * i + 3 * i) % 5 < 2).collect();
    let mut first = Universe::new(&flips);
    let mut second = Universe::new(&flips);
    for _ in 0..3 {
        first.tick();
        second.tick();
        assert_eq!(first.get_cells(), second.get_cells());
        assert_eq!(first.cells(), second.cells());
    }
}

#[test]
fn tick_reads_only_the_old_generation() {
    // A blinker turns as a whole: no cell sees a neighbour's new state.
    let mut universe = grid(5, 5, &[(2, 1), (2, 2), (2, 3)]);
    universe.tick();
    assert_eq!(alive_cells(&universe), vec![(1, 2), (2, 2), (3, 2)]);
    universe.tick();
    assert_eq!(alive_cells(&universe), vec![(2, 1), (2, 2), (2, 3)]);
}

#[test]
fn live_cell_with_two_neighbors_survives() {
    let mut universe = grid(6, 6, &[(2, 1), (2, 2), (2, 3)]);
    assert_eq!(universe.live_neighbor_count(2, 2), 2);
    universe.tick();
    assert_eq!(universe.get_cells()[2 * 6 + 2], Cell::Alive);
}

#[test]
fn live_cell_with_three_neighbors_survives() {
    let mut universe = grid(6, 6, &[(2, 2), (2, 3), (3, 2), (3, 3)]);
    assert_eq!(universe.live_neighbor_count(2, 2), 3);
    universe.tick();
    assert_eq!(alive_cells(&universe), vec![(2, 2), (2, 3), (3, 2), (3, 3)]);
}

#[test]
fn live_cell_with_one_neighbor_dies() {
    let mut universe = grid(6, 6, &[(2, 2), (2, 3)]);
    assert_eq!(universe.live_neighbor_count(2, 2), 1);
    universe.tick();
    assert_eq!(universe.get_cells(), vec![Cell::Dead; 36]);
}

#[test]
fn live_cell_with_four_neighbors_dies() {
    let mut universe = grid(6, 6, &[(2, 2), (1, 2), (3, 2), (2, 1), (2, 3)]);
    assert_eq!(universe.live_neighbor_count(2, 2), 4);
    universe.tick();
    assert_eq!(universe.get_cells()[2 * 6 + 2], Cell::Dead);
}

#[test]
fn dead_cell_with_three_neighbors_comes_alive() {
    let mut universe = grid(6, 6, &[(1, 1), (1, 3), (3, 2)]);
    assert_eq!(universe.live_neighbor_count(2, 2), 3);
    universe.tick();
    assert_eq!(alive_cells(&universe), vec![(2, 2)]);
}

#[test]
fn dead_cell_with_two_or_four_neighbors_stays_dead() {
    let mut universe = grid(6, 6, &[(1, 1), (1, 3)]);
    assert_eq!(universe.live_neighbor_count(2, 2), 2);
    universe.tick();
    assert_eq!(universe.get_cells()[2 * 6 + 2], Cell::Dead);

    let mut universe = grid(6, 6, &[(1, 1), (1, 3), (3, 1), (3, 3)]);
    assert_eq!(universe.live_neighbor_count(2, 2), 4);
    universe.tick();
    assert_eq!(universe.get_cells()[2 * 6 + 2], Cell::Dead);
}

#[test]
fn neighbor_count_takes_all_eight_neighbors() {
    let universe = grid(
        5,
        5,
        &[(1, 1), (1, 2), (1, 3), (2, 1), (2, 2), (2, 3), (3, 1), (3, 2), (3, 3)],
    );
    assert_eq!(universe.live_neighbor_count(2, 2), 8);
    assert_eq!(universe.live_neighbor_count(1, 1), 3);
    assert_eq!(universe.live_neighbor_count(0, 0), 1);
    assert_eq!(universe.live_neighbor_count(0, 2), 3);
    assert_eq!(universe.live_neighbor_count(4, 4), 1);
}

#[test]
fn neighbor_count_wraps_around_the_rows() {
    let universe = grid(5, 4, &[(3, 2)]);
    assert_eq!(universe.live_neighbor_count(0, 2), 1);
    assert_eq!(universe.live_neighbor_count(0, 1), 1);
    assert_eq!(universe.live_neighbor_count(0, 3), 1);
    assert_eq!(universe.live_neighbor_count(0, 0), 0);
    let universe = grid(5, 4, &[(0, 2)]);
    assert_eq!(universe.live_neighbor_count(3, 2), 1);
}

#[test]
fn neighbor_count_wraps_around_the_columns() {
    let universe = grid(5, 4, &[(1, 4)]);
    assert_eq!(universe.live_neighbor_count(1, 0), 1);
    assert_eq!(universe.live_neighbor_count(0, 0), 1);
    assert_eq!(universe.live_neighbor_count(2, 0), 1);
    assert_eq!(universe.live_neighbor_count(3, 0), 0);
    let universe = grid(5, 4, &[(1, 0)]);
    assert_eq!(universe.live_neighbor_count(1, 4), 1);
}

#[test]
fn neighbor_count_wraps_around_the_corners() {
    let universe = grid(5, 4, &[(3, 4)]);
    assert_eq!(universe.live_neighbor_count(0, 0), 1);
    let universe = grid(5, 4, &[(0, 0)]);
    assert_eq!(universe.live_neighbor_count(3, 4), 1);
}

#[test]
fn tick_wraps_around_the_edges() {
    // A blinker lying in the bottom row turns into one standing across the
    // edge: its ends are in the row above and, wrapped around, in the top row.
    let mut universe = grid(5, 5, &[(4, 1), (4, 2), (4, 3)]);
    universe.tick();
    assert_eq!(alive_cells(&universe), vec![(0, 2), (3, 2), (4, 2)]);

    let mut universe = grid(5, 5, &[(1, 0), (2, 0), (3, 0)]);
    universe.tick();
    assert_eq!(alive_cells(&universe), vec![(2, 0), (2, 1), (2, 4)]);
}

#[test]
fn neighbor_count_on_a_grid_of_two_by_two_meets_each_neighbor_twice() {
    let universe = grid(2, 2, &[(0, 1)]);
    assert_eq!(universe.live_neighbor_count(0, 0), 2);
    assert_eq!(universe.live_neighbor_count(1, 0), 4);
    assert_eq!(universe.live_neighbor_count(0, 1), 0);
    let universe = grid(2, 2, &[(0, 0), (0, 1), (1, 0), (1, 1)]);
    assert_eq!(universe.live_neighbor_count(0, 0), 8);
}

#[test]
fn neighbor_count_on_a_grid_of_one_cell() {
    let mut universe = grid(1, 1, &[(0, 0)]);
    assert_eq!(universe.live_neighbor_count(0, 0), 5);
    universe.tick();
    assert_eq!(universe.get_cells(), vec![Cell::Dead]);
}
