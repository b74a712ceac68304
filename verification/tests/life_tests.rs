use dots_and_boxes::LifeGrid;

fn alive_cells(g: &LifeGrid) -> Vec<(usize, usize)> {
    let mut alive = Vec::new();
    for r in 0..g.height() {
        for c in 0..g.width() {
            if g.get_cell(r, c) {
                alive.push((r, c));
            }
        }
    }
    alive
}

/// A fresh grid is fully dead.
#[test]
fn new_grid_is_dead() {
    let g = LifeGrid::new(4, 3);
    assert_eq!(g.width(), 4);
    assert_eq!(g.height(), 3);
    assert_eq!(alive_cells(&g), Vec::new());
}

/// A fully dead grid stays fully dead after a step.
#[test]
fn dead_grid_stays_dead() {
    let mut g = LifeGrid::new(3, 3);
    g.step();
    assert_eq!(alive_cells(&g), Vec::new());
}

/// A single alive cell has zero alive neighbours, so it dies of isolation.
#[test]
fn lone_cell_dies() {
    let mut g = LifeGrid::new(3, 3);
    g.toggle(1, 1);
    assert!(g.get_cell(1, 1));
    g.step();
    assert_eq!(alive_cells(&g), Vec::new());
}

/// A row of three alive cells on a 3 x 3 torus wraps onto itself: every
/// dead cell sees exactly three alive neighbours and revives, every alive
/// cell sees two and survives; the full grid then dies of overpopulation.
#[test]
fn wrapped_row_fills_grid_then_dies() {
    let mut g = LifeGrid::new(3, 3);
    g.toggle(1, 0);
    g.toggle(1, 1);
    g.toggle(1, 2);
    g.step();
    let mut full = Vec::new();
    for r in 0..3 {
        for c in 0..3 {
            full.push((r, c));
        }
    }
    assert_eq!(alive_cells(&g), full);
    g.step();
    assert_eq!(alive_cells(&g), Vec::new());
}

/// The classic blinker on a 5 x 5 grid: a centred row of three becomes a
/// centred column of three and returns to the row one step later.
#[test]
fn blinker_oscillates() {
    let mut g = LifeGrid::new(5, 5);
    g.toggle(2, 1);
    g.toggle(2, 2);
    g.toggle(2, 3);
    g.step();
    assert_eq!(alive_cells(&g), vec![(1, 2), (2, 2), (3, 2)]);
    g.step();
    assert_eq!(alive_cells(&g), vec![(2, 1), (2, 2), (2, 3)]);
}

/// A 2 x 2 block is a still life: every alive cell has three alive
/// neighbours, every dead cell at most two.
#[test]
fn block_is_still() {
    let mut g = LifeGrid::new(4, 4);
    g.toggle(1, 1);
    g.toggle(1, 2);
    g.toggle(2, 1);
    g.toggle(2, 2);
    g.step();
    assert_eq!(alive_cells(&g), vec![(1, 1), (1, 2), (2, 1), (2, 2)]);
}

/// Toggling a cell twice restores it and disturbs no other cell.
#[test]
fn toggle_twice_restores() {
    let mut g = LifeGrid::new(3, 2);
    g.toggle(0, 2);
    g.toggle(1, 0);
    g.toggle(0, 2);
    assert_eq!(alive_cells(&g), vec![(1, 0)]);
}

/// After `reset`, `get_cell` is dead for every coordinate.
#[test]
fn reset_clears_every_cell() {
    let mut g = LifeGrid::new(4, 4);
    g.toggle(0, 0);
    g.toggle(3, 3);
    g.toggle(1, 2);
    g.reset();
    for r in 0..4 {
        for c in 0..4 {
            assert!(!g.get_cell(r, c));
        }
    }
}
