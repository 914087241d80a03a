use blotch::Color;
use blotch::Grid;
use blotch::Loc;
use blotch::Pixel;
use blotch::WalkOutcome;
use blotch::boundary_walk;

fn gray() -> Color {
    Color { r: 100, g: 100, b: 100 }
}

#[test]
fn zero_radius_aborts_on_the_first_step() {
    let grid = Grid::new(4);
    let p = Pixel { color: gray(), loc: Loc { x: 1, y: 1 }, center: Loc { x: 1, y: 1 } };
    let (outcome, steps) = boundary_walk(&grid, p);
    assert_eq!(outcome, WalkOutcome::Fallback);
    assert_eq!(steps, 1);
}

#[test]
fn walk_commits_to_the_tie_broken_neighbor() {
    let grid = Grid::new(4);
    let p = Pixel { color: gray(), loc: Loc { x: 1, y: 1 }, center: Loc { x: 0, y: 1 } };
    // radius 1; neighbors (0,2) and (0,0) both stay exactly on the circle,
    // and (0,2) comes first in the enumeration order.
    let (outcome, steps) = boundary_walk(&grid, p);
    assert_eq!(outcome, WalkOutcome::Open(Loc { x: 0, y: 2 }));
    assert_eq!(steps, 1);
}

#[test]
fn walk_leaves_the_grid_after_stepping_past_a_filled_cell() {
    let mut grid = Grid::new(4);
    let blocker = Pixel { color: gray(), loc: Loc { x: 0, y: 2 }, center: Loc { x: 0, y: 2 } };
    grid.put(blocker);
    let p = Pixel { color: gray(), loc: Loc { x: 1, y: 1 }, center: Loc { x: 0, y: 1 } };
    // The first step lands on the filled (0, 2); the next selection is
    // (-1, 1), which lies outside the grid, so the walk falls back.
    let (outcome, steps) = boundary_walk(&grid, p);
    assert_eq!(outcome, WalkOutcome::Fallback);
    assert_eq!(steps, 2);
}

#[test]
fn walk_step_count_respects_the_valve() {
    let grid = Grid::new(8);
    let p = Pixel { color: gray(), loc: Loc { x: 4, y: 4 }, center: Loc { x: 2, y: 2 } };
    let radius = (4 - 2) * (4 - 2) + (4 - 2) * (4 - 2);
    let (_, steps) = boundary_walk(&grid, p);
    assert!(steps >= 1);
    assert!(steps <= 8 * radius + 1);
}
