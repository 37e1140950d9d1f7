use conways_game::control::{RunMode, Signal};
use conways_game::engine::step;
use conways_game::grid::{CellState, Grid};
use conways_game::simulation::Simulation;

fn cells(grid: &Grid) -> Vec<CellState> {
    (0..grid.len()).map(|i| grid.get(i)).collect()
}

fn alive_cells(grid: &Grid) -> Vec<(usize, usize)> {
    let w = grid.width();
    (0..grid.len())
        .filter(|&i| grid.get(i) == CellState::Alive)
        .map(|i| (i % w, i / w))
        .collect()
}

fn grid_with(width: usize, height: usize, alive: &[(usize, usize)]) -> Grid {
    let mut grid = Grid::empty(width, height);
    for &(x, y) in alive {
        grid.set(x + y * width, CellState::Alive);
    }
    grid
}

#[test]
fn checkerboard_alive_on_odd_parity() {
    let grid = Grid::checkerboard(4, 3);
    assert_eq!(grid.len(), 12);
    for y in 0..3 {
        for x in 0..4 {
            let expected = if (x + y) % 2 == 1 { CellState::Alive } else { CellState::Empty };
            assert_eq!(grid.get(x + y * 4), expected);
        }
    }
}

#[test]
fn set_writes_one_cell_only() {
    let mut grid = Grid::empty(3, 3);
    grid.set(4, CellState::Alive);
    assert_eq!(alive_cells(&grid), vec![(1, 1)]);
    grid.set(4, CellState::Empty);
    assert!(alive_cells(&grid).is_empty());
}

#[test]
fn neighbors_of_corner_edge_and_interior() {
    let grid = Grid::empty(4, 4);
    let mut corner = grid.neighbors(0);
    corner.sort();
    assert_eq!(corner, vec![1, 4, 5]);
    let mut far_corner = grid.neighbors(15);
    far_corner.sort();
    assert_eq!(far_corner, vec![10, 11, 14]);
    let mut edge = grid.neighbors(1);
    edge.sort();
    assert_eq!(edge, vec![0, 2, 4, 5, 6]);
    let mut inner = grid.neighbors(5);
    inner.sort();
    assert_eq!(inner, vec![0, 1, 2, 4, 6, 8, 9, 10]);
}

#[test]
fn neighbors_do_not_wrap_across_rows() {
    let grid = Grid::empty(4, 4);
    let mut right_edge = grid.neighbors(7);
    right_edge.sort();
    assert_eq!(right_edge, vec![2, 3, 6, 10, 11]);
}

#[test]
fn isolated_cell_dies() {
    let mut grid = grid_with(5, 5, &[(2, 2)]);
    step(&mut grid);
    assert!(alive_cells(&grid).is_empty());
}

#[test]
fn block_is_still_life() {
    let block = [(1, 1), (2, 1), (1, 2), (2, 2)];
    let mut grid = grid_with(4, 4, &block);
    let before = cells(&grid);
    step(&mut grid);
    assert_eq!(cells(&grid), before);
}

#[test]
fn blinker_flips_orientation() {
    let mut grid = grid_with(5, 5, &[(1, 2), (2, 2), (3, 2)]);
    step(&mut grid);
    assert_eq!(alive_cells(&grid), vec![(2, 1), (2, 2), (2, 3)]);
    step(&mut grid);
    assert_eq!(alive_cells(&grid), vec![(1, 2), (2, 2), (3, 2)]);
}

#[test]
fn corner_counts_no_wraparound_neighbors() {
    // With wrapping, (0, 0) would see three live neighbours and be born.
    let mut grid = grid_with(5, 5, &[(4, 0), (0, 4), (4, 4)]);
    step(&mut grid);
    assert_eq!(grid.get(0), CellState::Empty);
}

#[test]
fn corner_birth_from_in_bounds_neighbors() {
    let mut grid = grid_with(5, 5, &[(1, 0), (0, 1), (1, 1)]);
    step(&mut grid);
    assert_eq!(grid.get(0), CellState::Alive);
}

#[test]
fn snapshot_isolation_uses_previous_generation() {
    // Evaluated in place, row order would kill (1, 0) first and then (2, 0)
    // would see only one live neighbour; against the snapshot both (1, 0)
    // and (2, 0) have two and stay as they are.
    let mut grid = grid_with(4, 1, &[(0, 0), (1, 0), (2, 0), (3, 0)]);
    step(&mut grid);
    assert_eq!(alive_cells(&grid), vec![(1, 0), (2, 0)]);
}

#[test]
fn two_neighbors_keep_state() {
    let mut grid = grid_with(5, 5, &[(1, 1), (2, 2), (3, 3)]);
    step(&mut grid);
    assert_eq!(grid.get(2 + 2 * 5), CellState::Alive);
    let mut empty_center = grid_with(5, 5, &[(1, 1), (3, 3)]);
    step(&mut empty_center);
    assert_eq!(empty_center.get(2 + 2 * 5), CellState::Empty);
}

#[test]
fn overcrowded_cell_dies() {
    let mut grid = grid_with(3, 3, &[(1, 1), (0, 0), (2, 0), (0, 2), (2, 2)]);
    step(&mut grid);
    assert_eq!(grid.get(4), CellState::Empty);
}

#[test]
fn world_to_cell_round_trip_every_index() {
    let grid = Grid::empty(10, 7);
    for i in 0..grid.len() {
        let (px, py) = grid.cell_to_world(i, 32);
        assert_eq!(grid.world_to_cell(px, py, 32), Some(i));
    }
}

#[test]
fn cell_to_world_is_scaled_position() {
    let grid = Grid::empty(100, 100);
    assert_eq!(grid.cell_to_world(0, 32), (0, 0));
    assert_eq!(grid.cell_to_world(3 + 7 * 100, 32), (96, 224));
}

#[test]
fn world_to_cell_half_open_edges() {
    let grid = Grid::empty(10, 10);
    // Cell (3, 4) spans [80, 112) by [112, 144).
    assert_eq!(grid.world_to_cell(80, 112, 32), Some(3 + 4 * 10));
    assert_eq!(grid.world_to_cell(111, 143, 32), Some(3 + 4 * 10));
    assert_eq!(grid.world_to_cell(112, 128, 32), Some(4 + 4 * 10));
    assert_eq!(grid.world_to_cell(96, 144, 32), Some(3 + 5 * 10));
    assert_eq!(grid.world_to_cell(79, 128, 32), Some(2 + 4 * 10));
}

#[test]
fn world_to_cell_off_grid() {
    let grid = Grid::empty(10, 10);
    assert_eq!(grid.world_to_cell(-16, 0, 32), Some(0));
    assert_eq!(grid.world_to_cell(-17, 0, 32), None);
    assert_eq!(grid.world_to_cell(0, -17, 32), None);
    assert_eq!(grid.world_to_cell(9 * 32 + 15, 0, 32), Some(9));
    assert_eq!(grid.world_to_cell(9 * 32 + 16, 0, 32), None);
    assert_eq!(grid.world_to_cell(0, 9 * 32 + 16, 32), None);
    assert_eq!(grid.world_to_cell(i64::MIN, i64::MAX, 32), None);
}

#[test]
fn run_mode_transitions() {
    assert_eq!(RunMode::initial(), RunMode::Paused);
    assert_eq!(RunMode::Paused.after(Signal::Start), RunMode::Running);
    assert_eq!(RunMode::Running.after(Signal::Start), RunMode::Running);
    assert_eq!(RunMode::Running.after(Signal::Stop), RunMode::Paused);
    assert_eq!(RunMode::Paused.after(Signal::Stop), RunMode::Paused);
}

#[test]
fn start_twice_equals_start_once() {
    let mut once = Simulation::new(6, 6, 32);
    let mut twice = Simulation::new(6, 6, 32);
    once.signal(Signal::Start);
    twice.signal(Signal::Start);
    twice.signal(Signal::Start);
    assert_eq!(once.mode(), twice.mode());
    once.tick();
    twice.tick();
    assert_eq!(cells(once.grid()), cells(twice.grid()));
    once.signal(Signal::Stop);
    twice.signal(Signal::Stop);
    twice.signal(Signal::Stop);
    assert_eq!(twice.mode(), RunMode::Paused);
    assert_eq!(once.mode(), twice.mode());
}

#[test]
fn new_simulation_is_paused_checkerboard() {
    let sim = Simulation::new(100, 100, 32);
    assert_eq!(sim.mode(), RunMode::Paused);
    assert_eq!(sim.cell_size(), 32);
    assert_eq!(cells(sim.grid()), cells(&Grid::checkerboard(100, 100)));
}

#[test]
fn paused_tick_does_not_step() {
    let mut sim = Simulation::with_grid(grid_with(5, 5, &[(2, 2)]), 32);
    sim.tick();
    assert_eq!(alive_cells(sim.grid()), vec![(2, 2)]);
}

#[test]
fn draw_and_erase_while_paused() {
    let mut sim = Simulation::with_grid(Grid::empty(5, 5), 32);
    sim.submit_draw(64, 32);
    sim.tick();
    assert_eq!(alive_cells(sim.grid()), vec![(2, 1)]);
    sim.submit_erase(70, 40);
    sim.tick();
    assert!(alive_cells(sim.grid()).is_empty());
}

#[test]
fn draw_and_erase_in_one_frame() {
    let mut sim = Simulation::with_grid(grid_with(5, 5, &[(0, 0)]), 32);
    sim.submit_draw(32, 32);
    sim.submit_erase(0, 0);
    sim.tick();
    assert_eq!(alive_cells(sim.grid()), vec![(1, 1)]);
    sim.submit_draw(64, 64);
    sim.submit_erase(64, 64);
    sim.tick();
    assert_eq!(alive_cells(sim.grid()), vec![(1, 1)]);
}

#[test]
fn off_grid_edit_is_dropped() {
    let mut sim = Simulation::with_grid(Grid::empty(5, 5), 32);
    sim.submit_draw(-100, 0);
    sim.submit_draw(1000, 1000);
    sim.tick();
    assert!(alive_cells(sim.grid()).is_empty());
}

#[test]
fn edit_submitted_while_running_never_applies() {
    let mut with_edit = Simulation::with_grid(Grid::empty(5, 5), 32);
    with_edit.signal(Signal::Start);
    with_edit.submit_draw(64, 64);
    with_edit.tick();
    with_edit.signal(Signal::Stop);
    with_edit.tick();
    assert!(alive_cells(with_edit.grid()).is_empty());
}

#[test]
fn pending_edit_dropped_when_started_before_tick() {
    let mut sim = Simulation::with_grid(Grid::empty(5, 5), 32);
    sim.submit_draw(64, 64);
    sim.signal(Signal::Start);
    sim.tick();
    sim.signal(Signal::Stop);
    sim.tick();
    assert!(alive_cells(sim.grid()).is_empty());
}

#[test]
fn running_ticks_are_deterministic() {
    let mut a = Simulation::new(12, 12, 32);
    let mut b = Simulation::new(12, 12, 32);
    a.signal(Signal::Start);
    b.signal(Signal::Start);
    let mut expected = Grid::checkerboard(12, 12);
    for _ in 0..5 {
        a.tick();
        b.tick();
        step(&mut expected);
        assert_eq!(cells(a.grid()), cells(b.grid()));
        assert_eq!(cells(a.grid()), cells(&expected));
    }
}

#[test]
fn checkerboard_first_generation() {
    // In a checkerboard every interior cell has four live neighbours; edge
    // cells off the corners have two or three.
    let mut grid = Grid::checkerboard(4, 4);
    step(&mut grid);
    assert_eq!(alive_cells(&grid), vec![(1, 0), (2, 0), (0, 1), (3, 1), (0, 2), (3, 2), (1, 3), (2, 3)]);
}
