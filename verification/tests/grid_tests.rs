use tetris::backend::{Block, Coordinate, Grid, MAX_DIMENSION};

fn grid(width: u8, height: u8) -> Grid {
    Grid::new(width, height).unwrap()
}

fn fill_row(g: &mut Grid, y: i8, block: Block) {
    for x in 0..*g.width() {
        g.set_cell(Coordinate::new(x as i8, y), block);
    }
}

/// Marks row `y` so that it can be told from every other row: the columns 0
/// to 4 spell `y + 1` in binary, the column 5 stays empty.
fn mark_row(g: &mut Grid, y: i8) {
    for bit in 0..5 {
        if ((y + 1) >> bit) & 1 == 1 {
            g.set_cell(Coordinate::new(bit, y), Block::Blue);
        }
    }
}

fn marked_row(y: i8) -> Vec<Block> {
    let mut row = vec![Block::Empty; 6];
    for bit in 0..5 {
        if ((y + 1) >> bit) & 1 == 1 {
            row[bit as usize] = Block::Blue;
        }
    }
    row
}

#[test]
fn a_grid_needs_dimensions_between_one_and_the_maximum() {
    assert_eq!(MAX_DIMENSION, 126);
    assert!(Grid::new(0, 5).is_none());
    assert!(Grid::new(5, 0).is_none());
    assert!(Grid::new(0, 0).is_none());
    assert!(Grid::new(127, 5).is_none());
    assert!(Grid::new(5, 127).is_none());
    assert!(Grid::new(255, 255).is_none());
    assert!(Grid::new(1, 1).is_some());
    assert!(Grid::new(126, 126).is_some());
    assert!(Grid::new(10, 20).is_some());
}

#[test]
fn a_new_grid_is_empty_and_has_the_dimensions_asked_for() {
    let g = grid(10, 20);
    assert_eq!(*g.width(), 10);
    assert_eq!(*g.height(), 20);
    assert_eq!(g.rows().len(), 20);
    for row in g.rows() {
        assert_eq!(row, &vec![Block::Empty; 10]);
    }
    assert!(g.find_full_rows().is_empty());
}

#[test]
fn nothing_is_occupied_outside_the_grid() {
    let mut g = grid(3, 2);
    fill_row(&mut g, 0, Block::Red);
    fill_row(&mut g, 1, Block::Red);
    assert!(g.is_occupied(Coordinate::new(0, 0)));
    assert!(g.is_occupied(Coordinate::new(2, 1)));
    assert!(!g.is_occupied(Coordinate::new(-1, 0)));
    assert!(!g.is_occupied(Coordinate::new(0, -1)));
    assert!(!g.is_occupied(Coordinate::new(3, 0)));
    assert!(!g.is_occupied(Coordinate::new(0, 2)));
    assert!(!g.is_occupied(Coordinate::new(127, 127)));
    assert!(!g.is_occupied(Coordinate::new(-128, -128)));
}

#[test]
fn bounds_are_zero_up_to_width_and_height() {
    let g = grid(3, 2);
    assert!(g.in_bounds(Coordinate::new(0, 0)));
    assert!(g.in_bounds(Coordinate::new(2, 1)));
    assert!(!g.in_bounds(Coordinate::new(3, 1)));
    assert!(!g.in_bounds(Coordinate::new(2, 2)));
    assert!(!g.in_bounds(Coordinate::new(-1, 1)));
    assert!(!g.in_bounds(Coordinate::new(1, -1)));
    assert_eq!(g.block_at(Coordinate::new(1, 1)), Some(Block::Empty));
    assert_eq!(g.block_at(Coordinate::new(3, 1)), None);
}

#[test]
fn set_cell_writes_one_cell() {
    let mut g = grid(4, 3);
    g.set_cell(Coordinate::new(2, 1), Block::Green);
    assert_eq!(g.block_at(Coordinate::new(2, 1)), Some(Block::Green));
    assert_eq!(
        g.rows(),
        &vec![
            vec![Block::Empty; 4],
            vec![Block::Empty, Block::Empty, Block::Green, Block::Empty],
            vec![Block::Empty; 4],
        ]
    );
    g.set_cell(Coordinate::new(2, 1), Block::Empty);
    assert!(!g.is_occupied(Coordinate::new(2, 1)));
}

#[test]
fn set_cell_outside_the_grid_writes_nothing() {
    let mut g = grid(4, 3);
    g.set_cell(Coordinate::new(4, 1), Block::Green);
    g.set_cell(Coordinate::new(1, 3), Block::Green);
    g.set_cell(Coordinate::new(-1, 0), Block::Green);
    g.set_cell(Coordinate::new(0, -1), Block::Green);
    for row in g.rows() {
        assert_eq!(row, &vec![Block::Empty; 4]);
    }
}

#[test]
fn a_row_is_full_when_no_cell_is_empty() {
    let mut g = grid(3, 4);
    fill_row(&mut g, 2, Block::Teal);
    g.set_cell(Coordinate::new(0, 1), Block::Teal);
    g.set_cell(Coordinate::new(1, 1), Block::Teal);
    assert!(g.is_row_full(2));
    assert!(!g.is_row_full(1));
    assert!(!g.is_row_full(0));
    assert!(!g.is_row_full(4));
    assert!(!g.is_row_full(255));
}

#[test]
fn full_rows_are_found_in_ascending_order() {
    let mut g = grid(4, 20);
    fill_row(&mut g, 5, Block::Red);
    fill_row(&mut g, 19, Block::Red);
    fill_row(&mut g, 2, Block::Red);
    g.set_cell(Coordinate::new(0, 3), Block::Red);
    assert_eq!(g.find_full_rows(), vec![2, 5, 19]);
}

#[test]
fn clearing_a_row_moves_the_rows_above_it_down() {
    let mut g = grid(6, 5);
    for y in 0..5 {
        mark_row(&mut g, y);
    }
    g.clear_row(2);
    assert_eq!(
        g.rows(),
        &vec![vec![Block::Empty; 6], marked_row(0), marked_row(1), marked_row(3), marked_row(4)]
    );
    assert_eq!(*g.height(), 5);
}

#[test]
fn clearing_the_top_row_and_the_bottom_row() {
    let mut g = grid(6, 3);
    for y in 0..3 {
        mark_row(&mut g, y);
    }
    g.clear_row(0);
    assert_eq!(g.rows(), &vec![vec![Block::Empty; 6], marked_row(1), marked_row(2)]);
    g.clear_row(2);
    assert_eq!(g.rows(), &vec![vec![Block::Empty; 6], vec![Block::Empty; 6], marked_row(1)]);
}

#[test]
fn clearing_a_row_that_is_not_there_changes_nothing() {
    let mut g = grid(6, 3);
    for y in 0..3 {
        mark_row(&mut g, y);
    }
    g.clear_row(3);
    g.clear_row(200);
    assert_eq!(g.rows(), &vec![marked_row(0), marked_row(1), marked_row(2)]);
}

#[test]
fn clearing_rows_two_and_five_of_twenty() {
    let mut g = grid(6, 20);
    for y in 0..20 {
        mark_row(&mut g, y);
    }
    fill_row(&mut g, 2, Block::Red);
    fill_row(&mut g, 5, Block::Red);
    let rows = g.find_full_rows();
    assert_eq!(rows, vec![2, 5]);
    g.clear_rows(&rows);

    let mut expected = vec![vec![Block::Empty; 6], vec![Block::Empty; 6]];
    for y in 0..20 {
        if y != 2 && y != 5 {
            expected.push(marked_row(y));
        }
    }
    assert_eq!(expected.len(), 20);
    assert_eq!(g.rows(), &expected);
    assert_eq!(*g.height(), 20);
    // the row between the two cleared rows has moved down by one, the rows
    // above both by two, the rows below both not at all
    assert_eq!(g.rows()[4], marked_row(3));
    assert_eq!(g.rows()[5], marked_row(4));
    assert_eq!(g.rows()[2], marked_row(0));
    assert_eq!(g.rows()[3], marked_row(1));
    assert_eq!(g.rows()[6], marked_row(6));
    assert_eq!(g.rows()[19], marked_row(19));
    assert!(g.find_full_rows().is_empty());
}

#[test]
fn clearing_neighbouring_rows_and_the_last_row() {
    let mut g = grid(6, 6);
    for y in 0..6 {
        mark_row(&mut g, y);
    }
    g.clear_rows(&vec![3, 4, 5]);
    assert_eq!(
        g.rows(),
        &vec![
            vec![Block::Empty; 6],
            vec![Block::Empty; 6],
            vec![Block::Empty; 6],
            marked_row(0),
            marked_row(1),
            marked_row(2),
        ]
    );
}

#[test]
fn clearing_every_row_leaves_an_empty_grid() {
    let mut g = grid(2, 4);
    for y in 0..4 {
        fill_row(&mut g, y, Block::Purple);
    }
    let rows = g.find_full_rows();
    assert_eq!(rows, vec![0, 1, 2, 3]);
    g.clear_rows(&rows);
    assert_eq!(g.rows(), &vec![vec![Block::Empty; 2]; 4]);
}

#[test]
fn clearing_no_rows_changes_nothing() {
    let mut g = grid(6, 3);
    for y in 0..3 {
        mark_row(&mut g, y);
    }
    g.clear_rows(&Vec::new());
    assert_eq!(g.rows(), &vec![marked_row(0), marked_row(1), marked_row(2)]);
}

#[test]
fn stamping_writes_four_cells() {
    let mut g = grid(3, 3);
    let cells = [
        Coordinate::new(0, 0),
        Coordinate::new(1, 0),
        Coordinate::new(1, 1),
        Coordinate::new(2, 1),
    ];
    g.stamp(&cells, Block::Red);
    assert_eq!(
        g.rows(),
        &vec![
            vec![Block::Red, Block::Red, Block::Empty],
            vec![Block::Empty, Block::Red, Block::Red],
            vec![Block::Empty; 3],
        ]
    );
}

#[test]
fn the_largest_grid_can_be_written_in_its_last_cell() {
    let mut g = grid(126, 126);
    g.set_cell(Coordinate::new(125, 125), Block::Orange);
    assert!(g.is_occupied(Coordinate::new(125, 125)));
    assert!(!g.is_occupied(Coordinate::new(126, 125)));
    fill_row(&mut g, 125, Block::Orange);
    assert_eq!(g.find_full_rows(), vec![125]);
    g.clear_row(125);
    assert!(g.find_full_rows().is_empty());
    assert_eq!(g.rows().len(), 126);
}
