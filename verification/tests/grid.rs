use ped::color::Color;
use ped::grid::{Cell, Grid};
use ped::size::{Point, Size};

const GRID_ROWS: u32 = 3;
const GRID_COLS: u32 = 3;

const ZIG_CONTENT: [char; (GRID_ROWS * GRID_COLS) as usize] =
    ['z', 'i', 'g', 'Z', 'i', 'g', 'z', 'I', 'g'];

const ZAG_CONTENT: [char; (GRID_ROWS * GRID_COLS) as usize] =
    ['z', 'i', 'G', 'z', 'i', 'g', 'z', 'i', 'g'];

fn grid_size() -> Size {
    Size::new(GRID_ROWS, GRID_COLS)
}

fn zig_zag_diff() -> [(Point, char); 3] {
    [
        (Point::new(0, 2), 'G'),
        (Point::new(1, 0), 'z'),
        (Point::new(2, 1), 'i'),
    ]
}

#[test]
fn new_grid() {
    let grid = empty_grid();
    assert_eq!(grid.size(), grid_size());
    assert_eq!(
        grid.content(),
        &vec![Cell::empty(); (GRID_ROWS * GRID_COLS) as usize]
    )
}

#[test]
fn new_zero_grid() {
    let grid = Grid::zero();
    assert_eq!(grid.size(), Size::zero());
    assert_eq!(grid.content().len(), 0);
}

#[test]
fn reconcile_equivalent_grids() {
    let mut this_grid = zig_grid();
    let that_grid = zig_grid();

    // Should be no differences.
    let diff = this_grid.reconcile(&that_grid);
    assert_eq!(diff.len(), 0);
}

#[test]
fn reconcile_different_grids() {
    let mut this_grid = zig_grid();
    let that_grid = zag_grid();

    // Verify differences.
    let diff = this_grid.reconcile(&that_grid);
    let expected = zig_zag_diff();
    assert_eq!(diff.len(), expected.len());
    for ((p, cell), (diff_p, diff_c)) in diff.into_iter().zip(expected) {
        assert_eq!(p, diff_p);
        assert_eq!(cell.value, diff_c);
    }

    // Verify that both grids are now equivalent.
    assert_eq!(this_grid.content(), that_grid.content());
}

fn empty_grid() -> Grid {
    Grid::new(grid_size())
}

fn fill(content: &[char]) -> Grid {
    let mut grid = Grid::new(grid_size());
    for i in 0..content.len() {
        let row = i as u32 / GRID_COLS;
        let col = i as u32 % GRID_COLS;
        grid.set_cell(row, col, Cell::new(content[i], Color::zero()));
    }
    grid
}

fn zig_grid() -> Grid {
    fill(&ZIG_CONTENT)
}

fn zag_grid() -> Grid {
    fill(&ZAG_CONTENT)
}
