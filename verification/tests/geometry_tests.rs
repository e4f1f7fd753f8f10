use tetris::backend::{Block, Coordinate, Rotation, Tetromino};

const KINDS: [Tetromino; 7] = [
    Tetromino::IBlock,
    Tetromino::JBlock,
    Tetromino::LBlock,
    Tetromino::OBlock,
    Tetromino::SBlock,
    Tetromino::TBlock,
    Tetromino::ZBlock,
];

const ROTATIONS: [Rotation; 4] = [
    Rotation::NotRotated,
    Rotation::OneClockwise,
    Rotation::TwoClockwise,
    Rotation::ThreeClockwise,
];

fn at(cells: &[Coordinate; 4]) -> Vec<(i8, i8)> {
    cells.iter().map(|c| (c.x, c.y)).collect()
}

fn sorted(cells: &[Coordinate; 4]) -> Vec<(i8, i8)> {
    let mut v = at(cells);
    v.sort();
    v
}

#[test]
fn rotation_steps_clockwise_through_all_four_states() {
    assert_eq!(Rotation::NotRotated.clockwise(), Rotation::OneClockwise);
    assert_eq!(Rotation::OneClockwise.clockwise(), Rotation::TwoClockwise);
    assert_eq!(Rotation::TwoClockwise.clockwise(), Rotation::ThreeClockwise);
    assert_eq!(Rotation::ThreeClockwise.clockwise(), Rotation::NotRotated);
}

#[test]
fn rotation_steps_anti_clockwise_through_all_four_states() {
    assert_eq!(Rotation::NotRotated.anti_clockwise(), Rotation::ThreeClockwise);
    assert_eq!(Rotation::OneClockwise.anti_clockwise(), Rotation::NotRotated);
    assert_eq!(Rotation::TwoClockwise.anti_clockwise(), Rotation::OneClockwise);
    assert_eq!(Rotation::ThreeClockwise.anti_clockwise(), Rotation::TwoClockwise);
}

#[test]
fn four_steps_in_either_direction_return_to_the_start() {
    for r in ROTATIONS {
        assert_eq!(r.clockwise().clockwise().clockwise().clockwise(), r);
        assert_eq!(r.anti_clockwise().anti_clockwise().anti_clockwise().anti_clockwise(), r);
        assert_eq!(r.clockwise().anti_clockwise(), r);
        assert_eq!(r.anti_clockwise().clockwise(), r);
    }
}

#[test]
fn quarter_turns_count_from_zero_to_three() {
    assert_eq!(Rotation::NotRotated.quarter_turns(), 0);
    assert_eq!(Rotation::OneClockwise.quarter_turns(), 1);
    assert_eq!(Rotation::TwoClockwise.quarter_turns(), 2);
    assert_eq!(Rotation::ThreeClockwise.quarter_turns(), 3);
}

#[test]
fn each_kind_has_its_colour() {
    assert_eq!(Tetromino::IBlock.get_block_type(), Block::Teal);
    assert_eq!(Tetromino::JBlock.get_block_type(), Block::Blue);
    assert_eq!(Tetromino::LBlock.get_block_type(), Block::Orange);
    assert_eq!(Tetromino::OBlock.get_block_type(), Block::Yellow);
    assert_eq!(Tetromino::SBlock.get_block_type(), Block::Green);
    assert_eq!(Tetromino::TBlock.get_block_type(), Block::Purple);
    assert_eq!(Tetromino::ZBlock.get_block_type(), Block::Red);
}

#[test]
fn each_kind_has_its_bounding_box() {
    let boxes: Vec<(u8, u8)> = KINDS.iter().map(|k| (k.get_length(), k.get_height())).collect();
    assert_eq!(boxes, vec![(1, 4), (2, 3), (2, 3), (2, 2), (3, 2), (3, 2), (3, 2)]);
}

#[test]
fn each_kind_has_its_spawn_cells() {
    assert_eq!(at(&Tetromino::IBlock.get_coordinates()), vec![(0, 0), (0, 1), (0, 2), (0, 3)]);
    assert_eq!(at(&Tetromino::JBlock.get_coordinates()), vec![(1, 0), (1, 1), (0, 2), (1, 2)]);
    assert_eq!(at(&Tetromino::LBlock.get_coordinates()), vec![(0, 0), (0, 1), (0, 2), (1, 2)]);
    assert_eq!(at(&Tetromino::OBlock.get_coordinates()), vec![(0, 0), (0, 1), (1, 0), (1, 1)]);
    assert_eq!(at(&Tetromino::SBlock.get_coordinates()), vec![(1, 0), (2, 0), (0, 1), (1, 1)]);
    assert_eq!(at(&Tetromino::TBlock.get_coordinates()), vec![(1, 0), (0, 1), (1, 1), (2, 1)]);
    assert_eq!(at(&Tetromino::ZBlock.get_coordinates()), vec![(0, 0), (1, 0), (1, 1), (2, 1)]);
}

#[test]
fn each_kind_has_its_pivot() {
    assert_eq!(Tetromino::IBlock.get_rotation_point(), (true, Coordinate::new(0, 2)));
    assert_eq!(Tetromino::JBlock.get_rotation_point(), (false, Coordinate::new(1, 1)));
    assert_eq!(Tetromino::LBlock.get_rotation_point(), (false, Coordinate::new(0, 1)));
    assert_eq!(Tetromino::OBlock.get_rotation_point(), (true, Coordinate::new(1, 1)));
    assert_eq!(Tetromino::SBlock.get_rotation_point(), (true, Coordinate::new(1, 1)));
    assert_eq!(Tetromino::ZBlock.get_rotation_point(), (true, Coordinate::new(1, 1)));
    assert_eq!(Tetromino::TBlock.get_rotation_point(), (false, Coordinate::new(1, 1)));
}

#[test]
fn spawn_cells_lie_in_the_bounding_box() {
    for k in KINDS {
        for c in k.get_coordinates() {
            assert!(0 <= c.x && (c.x as u8) < k.get_length());
            assert!(0 <= c.y && (c.y as u8) < k.get_height());
        }
    }
}

#[test]
fn no_rotation_gives_the_spawn_cells() {
    for k in KINDS {
        assert_eq!(at(&k.get_rotated_coordinates(Rotation::NotRotated)), at(&k.get_coordinates()));
    }
}

#[test]
fn a_centre_pivot_turns_cells_about_the_centre_of_its_cell() {
    // (x, y) -> (px - (y - py), py + (x - px)) with the pivot (1, 1)
    assert_eq!(
        at(&Tetromino::TBlock.get_rotated_coordinates(Rotation::OneClockwise)),
        vec![(2, 1), (1, 0), (1, 1), (1, 2)]
    );
    assert_eq!(
        at(&Tetromino::JBlock.get_rotated_coordinates(Rotation::OneClockwise)),
        vec![(2, 1), (1, 1), (0, 0), (0, 1)]
    );
    // the pivot (0, 1)
    assert_eq!(
        at(&Tetromino::LBlock.get_rotated_coordinates(Rotation::OneClockwise)),
        vec![(1, 1), (0, 1), (-1, 1), (-1, 2)]
    );
}

#[test]
fn a_corner_pivot_turns_cells_about_the_corner_of_its_cell() {
    // about the corner (0, 2) the upright bar becomes a flat bar in row 2
    assert_eq!(
        at(&Tetromino::IBlock.get_rotated_coordinates(Rotation::OneClockwise)),
        vec![(1, 2), (0, 2), (-1, 2), (-2, 2)]
    );
    assert_eq!(
        at(&Tetromino::IBlock.get_rotated_coordinates(Rotation::TwoClockwise)),
        vec![(-1, 3), (-1, 2), (-1, 1), (-1, 0)]
    );
    assert_eq!(
        at(&Tetromino::IBlock.get_rotated_coordinates(Rotation::ThreeClockwise)),
        vec![(-2, 1), (-1, 1), (0, 1), (1, 1)]
    );
    assert_eq!(
        at(&Tetromino::SBlock.get_rotated_coordinates(Rotation::OneClockwise)),
        vec![(1, 1), (1, 2), (0, 0), (0, 1)]
    );
    assert_eq!(
        at(&Tetromino::ZBlock.get_rotated_coordinates(Rotation::ThreeClockwise)),
        vec![(0, 1), (0, 0), (1, 0), (1, -1)]
    );
}

#[test]
fn the_square_covers_the_same_cells_in_every_rotation() {
    let base = sorted(&Tetromino::OBlock.get_coordinates());
    for r in ROTATIONS {
        assert_eq!(sorted(&Tetromino::OBlock.get_rotated_coordinates(r)), base);
    }
}

#[test]
fn a_quarter_turn_swaps_the_sides_of_the_bounding_box() {
    for k in KINDS {
        for r in ROTATIONS {
            let cells = k.get_rotated_coordinates(r);
            let xs: Vec<i8> = cells.iter().map(|c| c.x).collect();
            let ys: Vec<i8> = cells.iter().map(|c| c.y).collect();
            let span_x = (xs.iter().max().unwrap() - xs.iter().min().unwrap() + 1) as u8;
            let span_y = (ys.iter().max().unwrap() - ys.iter().min().unwrap() + 1) as u8;
            if r.quarter_turns() % 2 == 0 {
                assert_eq!((span_x, span_y), (k.get_length(), k.get_height()));
            } else {
                assert_eq!((span_x, span_y), (k.get_height(), k.get_length()));
            }
        }
    }
}

#[test]
fn every_rotation_has_four_different_cells_near_the_anchor() {
    for k in KINDS {
        for r in ROTATIONS {
            let mut cells = at(&k.get_rotated_coordinates(r));
            for (x, y) in &cells {
                assert!(-2 <= *x && *x <= 2);
                assert!(-1 <= *y && *y <= 3);
            }
            cells.sort();
            cells.dedup();
            assert_eq!(cells.len(), 4);
        }
    }
}
