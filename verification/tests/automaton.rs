use conbhuide::life::{cells_from_draws, CellMatrix};

fn live_cells(m: &CellMatrix) -> Vec<(u16, u16)> {
    let mut alive = Vec::new();
    for y in 0..m.height {
        for x in 0..m.width {
            if m.cell_is_alive(x, y) {
                alive.push((x, y));
            }
        }
    }
    alive
}

#[test]
fn new_grid_is_dead() {
    let m = CellMatrix::new(4, 3, 10);
    assert_eq!(m.width, 4);
    assert_eq!(m.height, 3);
    assert!(live_cells(&m).is_empty());
}

#[test]
fn blinker_oscillates() {
    // one cell per pixel, so a click at (x, y) flips cell (x, y)
    let mut m = CellMatrix::new(3, 3, 1);
    assert!(m.flip_cell(0, 1));
    assert!(m.flip_cell(1, 1));
    assert!(m.flip_cell(2, 1));
    assert_eq!(live_cells(&m), vec![(0, 1), (1, 1), (2, 1)]);
    m.step();
    assert_eq!(live_cells(&m), vec![(1, 0), (1, 1), (1, 2)]);
    m.step();
    assert_eq!(live_cells(&m), vec![(0, 1), (1, 1), (2, 1)]);
}

#[test]
fn lone_cell_dies_and_block_survives() {
    let mut m = CellMatrix::new(5, 5, 1);
    m.flip_cell(0, 0);
    m.step();
    assert!(live_cells(&m).is_empty());

    let mut b = CellMatrix::new(4, 4, 1);
    b.flip_cell(1, 1);
    b.flip_cell(2, 1);
    b.flip_cell(1, 2);
    b.flip_cell(2, 2);
    b.step();
    assert_eq!(live_cells(&b), vec![(1, 1), (2, 1), (1, 2), (2, 2)]);
}

#[test]
fn overcrowded_cell_dies() {
    let mut m = CellMatrix::new(3, 3, 1);
    // centre cell with four neighbours dies of overcrowding
    m.flip_cell(1, 1);
    m.flip_cell(0, 0);
    m.flip_cell(2, 0);
    m.flip_cell(0, 2);
    m.flip_cell(2, 2);
    m.step();
    assert!(!m.cell_is_alive(1, 1));
}

#[test]
fn click_outside_grid_leaves_cells_alone() {
    let mut m = CellMatrix::new(3, 3, 10);
    assert!(!m.flip_cell(500, 500));
    assert!(!m.flip_cell(30, 0));
    assert!(live_cells(&m).is_empty());
    // and a click inside flips exactly one cell
    assert!(m.flip_cell(25, 14));
    assert_eq!(live_cells(&m), vec![(2, 1)]);
}

#[test]
fn cells_follow_their_draws() {
    let draws = vec![0, 3, 1, 0, 2, 0];
    let cells = cells_from_draws(&draws);
    assert_eq!(cells, vec![true, false, false, true, false, true]);
    assert!(cells_from_draws(&Vec::new()).is_empty());
}

#[test]
fn randomize_with_unit_odds_fills_the_grid() {
    // a draw from [0, 1) is always zero, so every cell comes up live
    let mut m = CellMatrix::new(6, 4, 10);
    m.randomize(1);
    assert_eq!(live_cells(&m).len(), 24);
    assert_eq!(m.width, 6);
    assert_eq!(m.height, 4);
}

#[test]
fn randomize_keeps_dimensions() {
    let mut m = CellMatrix::new(8, 8, 5);
    m.randomize(5);
    let alive = live_cells(&m).len();
    assert!(alive <= 64);
    // the grid still steps under the standard rule afterwards
    m.step();
    assert!(live_cells(&m).len() <= 64);
}
