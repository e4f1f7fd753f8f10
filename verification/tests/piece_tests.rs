use tetris::backend::{Block, Coordinate, Direction, Grid, Piece, Rotation, Tetromino};

const KINDS: [Tetromino; 7] = [
    Tetromino::IBlock,
    Tetromino::JBlock,
    Tetromino::LBlock,
    Tetromino::OBlock,
    Tetromino::SBlock,
    Tetromino::TBlock,
    Tetromino::ZBlock,
];

const ROTATIONS: [Rotation; 4] = [
    Rotation::NotRotated,
    Rotation::OneClockwise,
    Rotation::TwoClockwise,
    Rotation::ThreeClockwise,
];

fn piece(kind: Tetromino, x: i8, y: i8) -> Piece {
    Piece::new(kind, Rotation::NotRotated, Coordinate::new(x, y))
}

fn at(p: &Piece) -> Vec<(i8, i8)> {
    p.cells().unwrap().iter().map(|c| (c.x, c.y)).collect()
}

#[test]
fn the_cells_are_the_shape_added_to_the_anchor() {
    assert_eq!(at(&piece(Tetromino::IBlock, 4, 0)), vec![(4, 0), (4, 1), (4, 2), (4, 3)]);
    assert_eq!(at(&piece(Tetromino::TBlock, 3, 5)), vec![(4, 5), (3, 6), (4, 6), (5, 6)]);
    let flat = Piece::new(Tetromino::IBlock, Rotation::OneClockwise, Coordinate::new(4, 0));
    assert_eq!(at(&flat), vec![(5, 2), (4, 2), (3, 2), (2, 2)]);
    assert_eq!(at(&piece(Tetromino::OBlock, -1, -1)), vec![(-1, -1), (-1, 0), (0, -1), (0, 0)]);
}

#[test]
fn cells_beyond_the_coordinate_range_are_not_given() {
    assert!(piece(Tetromino::OBlock, 127, 0).cells().is_none());
    assert!(piece(Tetromino::OBlock, 0, 127).cells().is_none());
    assert!(piece(Tetromino::OBlock, 126, 126).cells().is_some());
    let flat = Piece::new(Tetromino::IBlock, Rotation::OneClockwise, Coordinate::new(-127, 0));
    assert!(flat.cells().is_none());
    assert!(piece(Tetromino::IBlock, -128, -128).cells().is_some());
}

#[test]
fn a_piece_can_be_placed_on_empty_cells_inside_the_grid() {
    let g = Grid::new(10, 20).unwrap();
    for k in KINDS {
        assert!(piece(k, 4, 0).can_place(&g));
        assert!(piece(k, 0, 0).can_place(&g));
    }
    assert!(piece(Tetromino::OBlock, 8, 18).can_place(&g));
    assert!(piece(Tetromino::IBlock, 9, 16).can_place(&g));
}

#[test]
fn a_piece_cannot_be_placed_left_of_the_grid() {
    let g = Grid::new(10, 20).unwrap();
    assert!(!piece(Tetromino::OBlock, -1, 0).can_place(&g));
    assert!(!piece(Tetromino::IBlock, -1, 5).can_place(&g));
    assert!(!piece(Tetromino::IBlock, -128, 5).can_place(&g));
}

#[test]
fn a_piece_cannot_be_placed_right_of_the_grid() {
    let g = Grid::new(10, 20).unwrap();
    assert!(!piece(Tetromino::OBlock, 9, 0).can_place(&g));
    assert!(!piece(Tetromino::IBlock, 10, 0).can_place(&g));
    assert!(!piece(Tetromino::TBlock, 8, 0).can_place(&g));
    assert!(!piece(Tetromino::TBlock, 127, 0).can_place(&g));
}

#[test]
fn a_piece_cannot_be_placed_above_the_grid() {
    let g = Grid::new(10, 20).unwrap();
    assert!(!piece(Tetromino::OBlock, 4, -1).can_place(&g));
    assert!(!piece(Tetromino::IBlock, 4, -4).can_place(&g));
}

#[test]
fn a_piece_cannot_be_placed_below_the_grid() {
    let g = Grid::new(10, 20).unwrap();
    assert!(!piece(Tetromino::OBlock, 4, 19).can_place(&g));
    assert!(!piece(Tetromino::IBlock, 4, 17).can_place(&g));
    assert!(!piece(Tetromino::IBlock, 4, 127).can_place(&g));
}

#[test]
fn a_piece_cannot_be_placed_on_a_block() {
    let mut g = Grid::new(10, 20).unwrap();
    g.set_cell(Coordinate::new(5, 1), Block::Red);
    assert!(!piece(Tetromino::OBlock, 4, 0).can_place(&g));
    assert!(!piece(Tetromino::OBlock, 5, 1).can_place(&g));
    assert!(piece(Tetromino::OBlock, 3, 0).can_place(&g));
    assert!(piece(Tetromino::OBlock, 6, 0).can_place(&g));
    assert!(piece(Tetromino::OBlock, 4, 2).can_place(&g));
}

#[test]
fn a_move_gives_the_piece_at_its_new_anchor() {
    let g = Grid::new(10, 20).unwrap();
    let p = piece(Tetromino::TBlock, 3, 0);
    assert_eq!(p.try_move(&g, -1, 0), Some(piece(Tetromino::TBlock, 2, 0)));
    assert_eq!(p.try_move(&g, 1, 0), Some(piece(Tetromino::TBlock, 4, 0)));
    assert_eq!(p.try_move(&g, 0, 1), Some(piece(Tetromino::TBlock, 3, 1)));
    assert_eq!(p.try_move(&g, 4, 18), Some(piece(Tetromino::TBlock, 7, 18)));
    assert_eq!(p.try_move(&g, 0, 0), Some(p));
}

#[test]
fn a_move_into_a_wall_is_refused() {
    let g = Grid::new(10, 20).unwrap();
    assert_eq!(piece(Tetromino::IBlock, 0, 0).try_move(&g, -1, 0), None);
    assert_eq!(piece(Tetromino::IBlock, 9, 0).try_move(&g, 1, 0), None);
    assert_eq!(piece(Tetromino::IBlock, 4, 16).try_move(&g, 0, 1), None);
    assert_eq!(piece(Tetromino::IBlock, 4, 0).try_move(&g, 0, -1), None);
}

#[test]
fn a_move_onto_a_block_is_refused() {
    let mut g = Grid::new(10, 20).unwrap();
    g.set_cell(Coordinate::new(3, 2), Block::Teal);
    assert_eq!(piece(Tetromino::IBlock, 4, 0).try_move(&g, -1, 0), None);
    assert_eq!(piece(Tetromino::IBlock, 4, 0).try_move(&g, 1, 0), Some(piece(Tetromino::IBlock, 5, 0)));
}

#[test]
fn a_move_far_beyond_the_coordinate_range_is_refused() {
    let g = Grid::new(126, 126).unwrap();
    assert_eq!(piece(Tetromino::OBlock, 120, 0).try_move(&g, 127, 0), None);
    assert_eq!(piece(Tetromino::OBlock, 0, 120).try_move(&g, 0, 127), None);
    assert_eq!(piece(Tetromino::OBlock, -100, 0).try_move(&g, -128, 0), None);
    assert_eq!(piece(Tetromino::OBlock, 0, 0).try_move(&g, 124, 124), Some(piece(Tetromino::OBlock, 124, 124)));
    assert_eq!(piece(Tetromino::OBlock, 0, 0).try_move(&g, 125, 0), None);
}

#[test]
fn a_piece_outside_the_grid_can_move_into_it() {
    let g = Grid::new(10, 20).unwrap();
    let outside = piece(Tetromino::OBlock, -3, 0);
    assert!(!outside.can_place(&g));
    assert_eq!(outside.try_move(&g, 3, 0), Some(piece(Tetromino::OBlock, 0, 0)));
}

#[test]
fn the_largest_grid_takes_pieces_in_its_last_column_and_row() {
    let g = Grid::new(126, 126).unwrap();
    // offset -1 in x: the anchor stands one column right of the cells
    let upright = Piece::new(Tetromino::IBlock, Rotation::TwoClockwise, Coordinate::new(125, 0));
    assert_eq!(
        upright.try_move(&g, 1, 0),
        Some(Piece::new(Tetromino::IBlock, Rotation::TwoClockwise, Coordinate::new(126, 0)))
    );
    let flat = Piece::new(Tetromino::IBlock, Rotation::OneClockwise, Coordinate::new(124, 0));
    assert_eq!(flat.hard_drop(&g).anchor, Coordinate::new(124, 123));
    assert_eq!(flat.try_move(&g, 1, 0), None);
}

#[test]
fn a_turn_steps_the_rotation_and_keeps_the_anchor() {
    let g = Grid::new(10, 20).unwrap();
    let p = piece(Tetromino::TBlock, 3, 3);
    assert_eq!(
        p.try_rotate(&g, Direction::Clockwise),
        Some(Piece::new(Tetromino::TBlock, Rotation::OneClockwise, Coordinate::new(3, 3)))
    );
    assert_eq!(
        p.try_rotate(&g, Direction::AntiClockwise),
        Some(Piece::new(Tetromino::TBlock, Rotation::ThreeClockwise, Coordinate::new(3, 3)))
    );
}

#[test]
fn a_turn_into_a_wall_is_refused_and_no_other_place_is_tried() {
    let g = Grid::new(10, 20).unwrap();
    // the flat bar would reach two columns to the left of the upright one
    assert_eq!(piece(Tetromino::IBlock, 0, 0).try_rotate(&g, Direction::Clockwise), None);
    assert_eq!(piece(Tetromino::IBlock, 1, 0).try_rotate(&g, Direction::Clockwise), None);
    assert!(piece(Tetromino::IBlock, 2, 0).try_rotate(&g, Direction::Clockwise).is_some());
    assert_eq!(piece(Tetromino::IBlock, 9, 0).try_rotate(&g, Direction::Clockwise), None);
    assert!(piece(Tetromino::IBlock, 8, 0).try_rotate(&g, Direction::Clockwise).is_some());
}

#[test]
fn a_turn_onto_a_block_is_refused() {
    let mut g = Grid::new(10, 20).unwrap();
    g.set_cell(Coordinate::new(5, 2), Block::Teal);
    assert_eq!(piece(Tetromino::IBlock, 4, 0).try_rotate(&g, Direction::Clockwise), None);
    assert!(piece(Tetromino::IBlock, 4, 0).try_rotate(&g, Direction::AntiClockwise).is_some());
}

#[test]
fn four_turns_in_either_direction_give_the_piece_back() {
    let g = Grid::new(10, 20).unwrap();
    for k in KINDS {
        for r in ROTATIONS {
            for direction in [Direction::Clockwise, Direction::AntiClockwise] {
                let start = Piece::new(k, r, Coordinate::new(4, 8));
                let mut p = start;
                for _ in 0..4 {
                    p = p.try_rotate(&g, direction).unwrap();
                }
                assert_eq!(p, start);
                assert_eq!(p.cells(), start.cells());
            }
        }
    }
}

#[test]
fn a_turn_forth_and_a_turn_back_give_the_piece_back() {
    let g = Grid::new(10, 20).unwrap();
    for k in KINDS {
        for r in ROTATIONS {
            let start = Piece::new(k, r, Coordinate::new(4, 8));
            let forth = start.try_rotate(&g, Direction::Clockwise).unwrap();
            assert_eq!(forth.try_rotate(&g, Direction::AntiClockwise), Some(start));
            let back = start.try_rotate(&g, Direction::AntiClockwise).unwrap();
            assert_eq!(back.try_rotate(&g, Direction::Clockwise), Some(start));
        }
    }
}

#[test]
fn a_dropped_piece_rests_on_the_floor() {
    let g = Grid::new(10, 20).unwrap();
    assert_eq!(piece(Tetromino::IBlock, 4, 0).hard_drop(&g), piece(Tetromino::IBlock, 4, 16));
    assert_eq!(piece(Tetromino::OBlock, 0, 3).hard_drop(&g), piece(Tetromino::OBlock, 0, 18));
    assert_eq!(piece(Tetromino::OBlock, 0, 18).hard_drop(&g), piece(Tetromino::OBlock, 0, 18));
    let flat = Piece::new(Tetromino::IBlock, Rotation::OneClockwise, Coordinate::new(2, 0));
    assert_eq!(flat.hard_drop(&g).anchor, Coordinate::new(2, 17));
}

#[test]
fn a_dropped_piece_rests_on_the_first_block_below_it() {
    let mut g = Grid::new(10, 20).unwrap();
    g.set_cell(Coordinate::new(4, 10), Block::Teal);
    g.set_cell(Coordinate::new(4, 15), Block::Teal);
    assert_eq!(piece(Tetromino::IBlock, 4, 0).hard_drop(&g), piece(Tetromino::IBlock, 4, 6));
    assert_eq!(piece(Tetromino::IBlock, 4, 11).hard_drop(&g), piece(Tetromino::IBlock, 4, 11));
    assert_eq!(piece(Tetromino::IBlock, 5, 0).hard_drop(&g), piece(Tetromino::IBlock, 5, 16));
    assert_eq!(piece(Tetromino::OBlock, 3, 0).hard_drop(&g), piece(Tetromino::OBlock, 3, 8));
}

#[test]
fn a_piece_with_no_room_below_stays_where_it_is() {
    let g = Grid::new(10, 20).unwrap();
    assert_eq!(piece(Tetromino::IBlock, 4, 50).hard_drop(&g), piece(Tetromino::IBlock, 4, 50));
    assert_eq!(piece(Tetromino::IBlock, -5, 0).hard_drop(&g), piece(Tetromino::IBlock, -5, 0));
    assert_eq!(piece(Tetromino::IBlock, 4, 127).hard_drop(&g), piece(Tetromino::IBlock, 4, 127));
}

#[test]
fn a_piece_above_the_grid_falls_into_it() {
    let g = Grid::new(10, 20).unwrap();
    // one row above the top: the move down by one brings it in
    assert_eq!(piece(Tetromino::OBlock, 4, -1).hard_drop(&g), piece(Tetromino::OBlock, 4, 18));
    // two rows above: the move down by one still leaves it outside
    assert_eq!(piece(Tetromino::OBlock, 4, -2).hard_drop(&g), piece(Tetromino::OBlock, 4, -2));
}
