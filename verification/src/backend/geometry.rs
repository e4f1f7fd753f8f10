//! Shapes of the seven pieces and the arithmetic of quarter turns.
//!
//! A piece kind is a table of four cells in its spawn orientation and a pivot.
//! Every other orientation is obtained by turning each cell clockwise about
//! the pivot, a quarter turn at a time, in integer arithmetic.

use vstd::prelude::*;

verus! {

/// What one cell of the playfield holds: nothing, or a block of one of the
/// seven piece colours.
#[derive(Clone, Copy, Debug, PartialEq, Eq, Structural)]
pub enum Block {
    Empty,
    Teal,
    Blue,
    Orange,
    Yellow,
    Green,
    Purple,
    Red,
}

/// The seven piece kinds.
#[derive(Clone, Copy, Debug, PartialEq, Eq, Structural)]
pub enum Tetromino {
    IBlock,
    JBlock,
    LBlock,
    OBlock,
    SBlock,
    TBlock,
    ZBlock,
}

/// A signed cell position: a place on the playfield, or an offset of a piece's
/// cell from the piece's anchor. `x` grows to the right, `y` grows downwards.
#[derive(Clone, Copy, Debug, PartialEq, Eq, Structural)]
pub struct Coordinate {
    pub x: i8,
    pub y: i8,
}

/// A cell position over the unbounded integers: the model of a `Coordinate`.
pub struct Point {
    pub x: int,
    pub y: int,
}

impl View for Coordinate {
    type V = Point;

    open spec fn view(&self) -> Point {
        Point { x: self.x as int, y: self.y as int }
    }
}

impl Coordinate {
    pub fn new(x: i8, y: i8) -> (c: Coordinate)
        ensures
            c == (Coordinate { x, y }),
    {
        Coordinate { x, y }
    }
}

/// The points that a sequence of coordinates stands for.
pub open spec fn points(cells: Seq<Coordinate>) -> Seq<Point> {
    Seq::new(cells.len(), |i: int| cells[i]@)
}

/// How far a piece is turned clockwise from its spawn orientation.
#[derive(Clone, Copy, Debug, PartialEq, Eq, Structural)]
pub enum Rotation {
    NotRotated,
    OneClockwise,
    TwoClockwise,
    ThreeClockwise,
}

impl Rotation {
    /// The number of clockwise quarter turns, from 0 to 3.
    pub open spec fn turns(self) -> int {
        match self {
            Rotation::NotRotated => 0,
            Rotation::OneClockwise => 1,
            Rotation::TwoClockwise => 2,
            Rotation::ThreeClockwise => 3,
        }
    }

    /// The rotation state that stands for `n` quarter turns, counted modulo 4.
    pub open spec fn of_turns(n: int) -> Rotation {
        let k = n % 4;
        if k == 0 {
            Rotation::NotRotated
        } else if k == 1 {
            Rotation::OneClockwise
        } else if k == 2 {
            Rotation::TwoClockwise
        } else {
            Rotation::ThreeClockwise
        }
    }

    /// The state one quarter turn further clockwise.
    pub open spec fn stepped_cw(self) -> Rotation {
        Rotation::of_turns(self.turns() + 1)
    }

    /// The state one quarter turn back.
    pub open spec fn stepped_ccw(self) -> Rotation {
        Rotation::of_turns(self.turns() + 3)
    }

    /// One quarter turn further clockwise.
    pub fn clockwise(&self) -> (r: Rotation)
        ensures
            r.turns() == (self.turns() + 1) % 4,
            r == self.stepped_cw(),
    {
        match self {
            Rotation::NotRotated => Rotation::OneClockwise,
            Rotation::OneClockwise => Rotation::TwoClockwise,
            Rotation::TwoClockwise => Rotation::ThreeClockwise,
            Rotation::ThreeClockwise => Rotation::NotRotated,
        }
    }

    /// One quarter turn back, which is three quarter turns clockwise.
    pub fn anti_clockwise(&self) -> (r: Rotation)
        ensures
            r.turns() == (self.turns() + 3) % 4,
            r == self.stepped_ccw(),
    {
        match self {
            Rotation::NotRotated => Rotation::ThreeClockwise,
            Rotation::OneClockwise => Rotation::NotRotated,
            Rotation::TwoClockwise => Rotation::OneClockwise,
            Rotation::ThreeClockwise => Rotation::TwoClockwise,
        }
    }

    /// The number of clockwise quarter turns as a machine integer.
    pub fn quarter_turns(&self) -> (n: u8)
        ensures
            n == self.turns(),
    {
        match self {
            Rotation::NotRotated => 0,
            Rotation::OneClockwise => 1,
            Rotation::TwoClockwise => 2,
            Rotation::ThreeClockwise => 3,
        }
    }
}

/// Stepping four times in one direction, or once forth and once back, leads
/// to the rotation state one started from.
pub proof fn lemma_rotation_steps_cycle(r: Rotation)
    ensures
        Rotation::of_turns(r.turns()) == r,
        r.stepped_cw().stepped_ccw() == r,
        r.stepped_ccw().stepped_cw() == r,
        r.stepped_cw().stepped_cw().stepped_cw().stepped_cw() == r,
        r.stepped_ccw().stepped_ccw().stepped_ccw().stepped_ccw() == r,
{
}

/// The cell that `p` lands on after one clockwise quarter turn about a pivot.
///
/// A pivot is named by a cell `pivot` and a flag. With `corner` set it is the
/// top-left corner point of that cell, a point shared by four cells; without,
/// it is the centre of that cell. On the screen, where `y` grows downwards, a
/// clockwise quarter turn sends the offset `(dx, dy)` from the pivot to
/// `(-dy, dx)`. For a centre pivot that is the whole story. About a corner the
/// turned cell lies on the other side of the pivot, one column further left.
pub open spec fn turn_cw(p: Point, corner: bool, pivot: Point) -> Point {
    Point {
        x: pivot.x - (p.y - pivot.y) - if corner { 1int } else { 0int },
        y: pivot.y + (p.x - pivot.x),
    }
}

/// The cell that `p` lands on after one quarter turn against the clock.
pub open spec fn turn_ccw(p: Point, corner: bool, pivot: Point) -> Point {
    Point {
        x: pivot.x + (p.y - pivot.y),
        y: pivot.y - (p.x - pivot.x) - if corner { 1int } else { 0int },
    }
}

/// The cell that `p` lands on after `n` clockwise quarter turns.
pub open spec fn turned(p: Point, corner: bool, pivot: Point, n: nat) -> Point
    decreases n,
{
    if n == 0 {
        p
    } else {
        turn_cw(turned(p, corner, pivot, (n - 1) as nat), corner, pivot)
    }
}

/// Twice the coordinates of the centre of cell `p`: positions in half cells,
/// in which cell centres and cell corners are both integral.
pub open spec fn centre_in_halves(p: Point) -> Point {
    Point { x: 2 * p.x + 1, y: 2 * p.y + 1 }
}

/// The pivot as a position in half cells.
pub open spec fn pivot_in_halves(corner: bool, pivot: Point) -> Point {
    if corner {
        Point { x: 2 * pivot.x, y: 2 * pivot.y }
    } else {
        centre_in_halves(pivot)
    }
}

/// `turn_cw` is the quarter turn `(x, y) -> (pivot.x - (y - pivot.y), pivot.y +
/// (x - pivot.x))` of the cell's centre about the pivot point, for both kinds
/// of pivot; `turn_ccw` is the turn `(x, y) -> (pivot.x + (y - pivot.y),
/// pivot.y - (x - pivot.x))`.
pub proof fn lemma_turn_is_quarter_turn(p: Point, corner: bool, pivot: Point)
    ensures
        ({
            let c = centre_in_halves(p);
            let o = pivot_in_halves(corner, pivot);
            let t = centre_in_halves(turn_cw(p, corner, pivot));
            t.x == o.x - (c.y - o.y) && t.y == o.y + (c.x - o.x)
        }),
        ({
            let c = centre_in_halves(p);
            let o = pivot_in_halves(corner, pivot);
            let t = centre_in_halves(turn_ccw(p, corner, pivot));
            t.x == o.x + (c.y - o.y) && t.y == o.y - (c.x - o.x)
        }),
{
}

/// A quarter turn and the quarter turn the other way undo each other.
pub proof fn lemma_turn_inverse(p: Point, corner: bool, pivot: Point)
    ensures
        turn_ccw(turn_cw(p, corner, pivot), corner, pivot) == p,
        turn_cw(turn_ccw(p, corner, pivot), corner, pivot) == p,
{
}

/// Four quarter turns in either direction bring every cell back to where it
/// was, whatever the pivot and its kind.
pub proof fn lemma_four_turns(p: Point, corner: bool, pivot: Point)
    ensures
        turned(p, corner, pivot, 4) == p,
        turn_ccw(
            turn_ccw(turn_ccw(turn_ccw(p, corner, pivot), corner, pivot), corner, pivot),
            corner,
            pivot,
        ) == p,
        turned(p, corner, pivot, 3) == turn_ccw(p, corner, pivot),
{
    reveal_with_fuel(turned, 5);
}

/// Turning `n + 4` times is turning `n` times.
pub proof fn lemma_turns_wrap(p: Point, corner: bool, pivot: Point, n: nat)
    ensures
        turned(p, corner, pivot, n + 4) == turned(p, corner, pivot, n),
    decreases n,
{
    if n == 0 {
        lemma_four_turns(p, corner, pivot);
    } else {
        lemma_turns_wrap(p, corner, pivot, (n - 1) as nat);
        assert(turned(p, corner, pivot, n + 4) == turn_cw(
            turned(p, corner, pivot, (n + 3) as nat),
            corner,
            pivot,
        ));
    }
}

/// The point `(x, y)`.
pub open spec fn pt(x: int, y: int) -> Point {
    Point { x, y }
}

impl Tetromino {
    /// The colour of the blocks that this kind leaves on the playfield.
    pub open spec fn color(self) -> Block {
        match self {
            Tetromino::IBlock => Block::Teal,
            Tetromino::JBlock => Block::Blue,
            Tetromino::LBlock => Block::Orange,
            Tetromino::OBlock => Block::Yellow,
            Tetromino::SBlock => Block::Green,
            Tetromino::TBlock => Block::Purple,
            Tetromino::ZBlock => Block::Red,
        }
    }

    /// The width of the bounding box in the spawn orientation.
    pub open spec fn length(self) -> int {
        match self {
            Tetromino::IBlock => 1,
            Tetromino::JBlock | Tetromino::LBlock | Tetromino::OBlock => 2,
            Tetromino::SBlock | Tetromino::TBlock | Tetromino::ZBlock => 3,
        }
    }

    /// The height of the bounding box in the spawn orientation.
    pub open spec fn height(self) -> int {
        match self {
            Tetromino::IBlock => 4,
            Tetromino::JBlock | Tetromino::LBlock => 3,
            Tetromino::OBlock | Tetromino::SBlock | Tetromino::TBlock | Tetromino::ZBlock => 2,
        }
    }

    /// The four cells in the spawn orientation, as offsets from the top-left
    /// corner of the bounding box.
    pub open spec fn base_cells(self) -> Seq<Point> {
        match self {
            Tetromino::IBlock => seq![pt(0, 0), pt(0, 1), pt(0, 2), pt(0, 3)],
            Tetromino::JBlock => seq![pt(1, 0), pt(1, 1), pt(0, 2), pt(1, 2)],
            Tetromino::LBlock => seq![pt(0, 0), pt(0, 1), pt(0, 2), pt(1, 2)],
            Tetromino::OBlock => seq![pt(0, 0), pt(0, 1), pt(1, 0), pt(1, 1)],
            Tetromino::SBlock => seq![pt(1, 0), pt(2, 0), pt(0, 1), pt(1, 1)],
            Tetromino::TBlock => seq![pt(1, 0), pt(0, 1), pt(1, 1), pt(2, 1)],
            Tetromino::ZBlock => seq![pt(0, 0), pt(1, 0), pt(1, 1), pt(2, 1)],
        }
    }

    /// The cell that names the pivot.
    pub open spec fn pivot(self) -> Point {
        match self {
            Tetromino::IBlock => pt(0, 2),
            Tetromino::LBlock => pt(0, 1),
            Tetromino::JBlock | Tetromino::TBlock => pt(1, 1),
            Tetromino::OBlock | Tetromino::SBlock | Tetromino::ZBlock => pt(1, 1),
        }
    }

    /// Whether the pivot is the top-left corner of its cell (else its centre).
    pub open spec fn pivot_is_corner(self) -> bool {
        match self {
            Tetromino::IBlock | Tetromino::OBlock | Tetromino::SBlock | Tetromino::ZBlock => true,
            Tetromino::JBlock | Tetromino::LBlock | Tetromino::TBlock => false,
        }
    }

    /// The four cells in a given orientation, as offsets from the anchor: each
    /// cell of the spawn orientation, turned clockwise about the pivot as many
    /// quarter turns as the rotation state counts.
    pub open spec fn shape(self, rotation: Rotation) -> Seq<Point> {
        Seq::new(
            4,
            |i: int|
                turned(
                    self.base_cells()[i],
                    self.pivot_is_corner(),
                    self.pivot(),
                    rotation.turns() as nat,
                ),
        )
    }

    pub fn get_block_type(&self) -> (b: Block)
        ensures
            b == self.color(),
            b != Block::Empty,
    {
        match self {
            Tetromino::IBlock => Block::Teal,
            Tetromino::JBlock => Block::Blue,
            Tetromino::LBlock => Block::Orange,
            Tetromino::OBlock => Block::Yellow,
            Tetromino::SBlock => Block::Green,
            Tetromino::TBlock => Block::Purple,
            Tetromino::ZBlock => Block::Red,
        }
    }

    pub fn get_length(&self) -> (n: u8)
        ensures
            n == self.length(),
    {
        match self {
            Tetromino::IBlock => 1,
            Tetromino::JBlock => 2,
            Tetromino::LBlock => 2,
            Tetromino::OBlock => 2,
            Tetromino::SBlock => 3,
            Tetromino::TBlock => 3,
            Tetromino::ZBlock => 3,
        }
    }

    pub fn get_height(&self) -> (n: u8)
        ensures
            n == self.height(),
    {
        match self {
            Tetromino::IBlock => 4,
            Tetromino::JBlock => 3,
            Tetromino::LBlock => 3,
            Tetromino::OBlock => 2,
            Tetromino::SBlock => 2,
            Tetromino::TBlock => 2,
            Tetromino::ZBlock => 2,
        }
    }

    /// The cells of the spawn orientation, where `x = 0` and `y = 0` are the
    /// top-left corner of the bounding box.
    pub fn get_coordinates(&self) -> (cells: [Coordinate; 4])
        ensures
            points(cells@) == self.base_cells(),
    {
        let cells = match self {
            Tetromino::IBlock => [
                Coordinate { x: 0, y: 0 },
                Coordinate { x: 0, y: 1 },
                Coordinate { x: 0, y: 2 },
                Coordinate { x: 0, y: 3 },
            ],
            Tetromino::JBlock => [
                Coordinate { x: 1, y: 0 },
                Coordinate { x: 1, y: 1 },
                Coordinate { x: 0, y: 2 },
                Coordinate { x: 1, y: 2 },
            ],
            Tetromino::LBlock => [
                Coordinate { x: 0, y: 0 },
                Coordinate { x: 0, y: 1 },
                Coordinate { x: 0, y: 2 },
                Coordinate { x: 1, y: 2 },
            ],
            Tetromino::OBlock => [
                Coordinate { x: 0, y: 0 },
                Coordinate { x: 0, y: 1 },
                Coordinate { x: 1, y: 0 },
                Coordinate { x: 1, y: 1 },
            ],
            Tetromino::SBlock => [
                Coordinate { x: 1, y: 0 },
                Coordinate { x: 2, y: 0 },
                Coordinate { x: 0, y: 1 },
                Coordinate { x: 1, y: 1 },
            ],
            Tetromino::TBlock => [
                Coordinate { x: 1, y: 0 },
                Coordinate { x: 0, y: 1 },
                Coordinate { x: 1, y: 1 },
                Coordinate { x: 2, y: 1 },
            ],
            Tetromino::ZBlock => [
                Coordinate { x: 0, y: 0 },
                Coordinate { x: 1, y: 0 },
                Coordinate { x: 1, y: 1 },
                Coordinate { x: 2, y: 1 },
            ],
        };
        assert(points(cells@) =~= self.base_cells());
        cells
    }

    /// The pivot: the flag says whether it is the top-left corner of the cell
    /// that follows (`true`) or that cell's centre (`false`).
    pub fn get_rotation_point(&self) -> (r: (bool, Coordinate))
        ensures
            r.0 == self.pivot_is_corner(),
            r.1@ == self.pivot(),
    {
        match self {
            Tetromino::IBlock => (true, Coordinate { x: 0, y: 2 }),
            Tetromino::JBlock => (false, Coordinate { x: 1, y: 1 }),
            Tetromino::LBlock => (false, Coordinate { x: 0, y: 1 }),
            Tetromino::OBlock | Tetromino::SBlock | Tetromino::ZBlock => (
                true,
                Coordinate { x: 1, y: 1 },
            ),
            Tetromino::TBlock => (false, Coordinate { x: 1, y: 1 }),
        }
    }

    /// The four cells in the orientation `rotation`, as offsets from the
    /// anchor. They are computed from the spawn orientation by quarter turns
    /// about the pivot, so an offset may be negative.
    pub fn get_rotated_coordinates(&self, rotation: Rotation) -> (cells: [Coordinate; 4])
        ensures
            points(cells@) == self.shape(rotation),
    {
        let (corner, pivot) = self.get_rotation_point();
        let n: u8 = rotation.quarter_turns();
        let mut cells = self.get_coordinates();
        let mut done: u8 = 0;
        while done < n
            invariant
                done <= n <= 3,
                corner == self.pivot_is_corner(),
                pivot@ == self.pivot(),
                points(cells@) == self.shape(Rotation::of_turns(done as int)),
            decreases n - done,
        {
            proof {
                let from = Rotation::of_turns(done as int);
                lemma_shape_bounds(*self, from);
                lemma_shape_step(*self, from);
                assert(cells@[0]@ == points(cells@)[0] && cells@[0]@ == self.shape(from)[0]);
                assert(cells@[1]@ == points(cells@)[1] && cells@[1]@ == self.shape(from)[1]);
                assert(cells@[2]@ == points(cells@)[2] && cells@[2]@ == self.shape(from)[2]);
                assert(cells@[3]@ == points(cells@)[3] && cells@[3]@ == self.shape(from)[3]);
            }
            cells =
            [
                turn_clockwise(cells[0], corner, pivot),
                turn_clockwise(cells[1], corner, pivot),
                turn_clockwise(cells[2], corner, pivot),
                turn_clockwise(cells[3], corner, pivot),
            ];
            done = done + 1;
            assert(points(cells@) =~= self.shape(Rotation::of_turns(done as int)));
        }
        proof {
            lemma_rotation_steps_cycle(rotation);
        }
        cells
    }
}

/// One clockwise quarter turn of a cell near the pivot, in machine integers.
fn turn_clockwise(c: Coordinate, corner: bool, pivot: Coordinate) -> (t: Coordinate)
    requires
        -8 <= c.x <= 8,
        -8 <= c.y <= 8,
        0 <= pivot.x <= 8,
        0 <= pivot.y <= 8,
    ensures
        t@ == turn_cw(c@, corner, pivot@),
{
    let shift: i8 = if corner {
        1
    } else {
        0
    };
    Coordinate { x: pivot.x - (c.y - pivot.y) - shift, y: pivot.y + (c.x - pivot.x) }
}

/// The smallest of four integers.
pub open spec fn least(a: int, b: int, c: int, d: int) -> int {
    let ab = if a <= b { a } else { b };
    let cd = if c <= d { c } else { d };
    if ab <= cd { ab } else { cd }
}

/// The largest of four integers.
pub open spec fn greatest(a: int, b: int, c: int, d: int) -> int {
    let ab = if a >= b { a } else { b };
    let cd = if c >= d { c } else { d };
    if ab >= cd { ab } else { cd }
}

/// The number of columns that four cells span.
pub open spec fn span_x(cells: Seq<Point>) -> int {
    greatest(cells[0].x, cells[1].x, cells[2].x, cells[3].x) - least(
        cells[0].x,
        cells[1].x,
        cells[2].x,
        cells[3].x,
    ) + 1
}

/// The number of rows that four cells span.
pub open spec fn span_y(cells: Seq<Point>) -> int {
    greatest(cells[0].y, cells[1].y, cells[2].y, cells[3].y) - least(
        cells[0].y,
        cells[1].y,
        cells[2].y,
        cells[3].y,
    ) + 1
}

/// In the spawn orientation the cells fill the bounding box from its top-left
/// corner: no offset is negative, and the cells span `length` columns and
/// `height` rows.
pub proof fn lemma_base_in_box(kind: Tetromino)
    ensures
        kind.shape(Rotation::NotRotated) =~= kind.base_cells(),
        forall|i: int|
            0 <= i < 4 ==> 0 <= (#[trigger] kind.base_cells()[i]).x < kind.length() && 0
                <= kind.base_cells()[i].y < kind.height(),
        span_x(kind.base_cells()) == kind.length(),
        span_y(kind.base_cells()) == kind.height(),
{
    reveal_with_fuel(turned, 1);
}

/// Every offset of every orientation lies within two columns and three rows
/// of the anchor.
pub proof fn lemma_shape_bounds(kind: Tetromino, rotation: Rotation)
    ensures
        kind.shape(rotation).len() == 4,
        forall|i: int|
            0 <= i < 4 ==> -2 <= (#[trigger] kind.shape(rotation)[i]).x <= 2 && -1 <= kind.shape(
                rotation,
            )[i].y <= 3,
{
    reveal_with_fuel(turned, 4);
}

/// A quarter turn keeps the bounding box's dimensions after an even number of
/// turns and swaps them after an odd number.
pub proof fn lemma_shape_extent(kind: Tetromino, rotation: Rotation)
    ensures
        rotation.turns() % 2 == 0 ==> span_x(kind.shape(rotation)) == kind.length() && span_y(
            kind.shape(rotation),
        ) == kind.height(),
        rotation.turns() % 2 == 1 ==> span_x(kind.shape(rotation)) == kind.height() && span_y(
            kind.shape(rotation),
        ) == kind.length(),
{
    reveal_with_fuel(turned, 4);
}

/// The four cells of an orientation are four different cells.
pub proof fn lemma_shape_distinct(kind: Tetromino, rotation: Rotation)
    ensures
        forall|i: int, j: int|
            0 <= i < j < 4 ==> #[trigger] kind.shape(rotation)[i] != #[trigger] kind.shape(
                rotation,
            )[j],
{
    reveal_with_fuel(turned, 4);
}

/// Stepping the rotation state turns every cell of the shape by one quarter
/// turn about the pivot, clockwise or against the clock.
pub proof fn lemma_shape_step(kind: Tetromino, rotation: Rotation)
    ensures
        forall|i: int|
            0 <= i < 4 ==> #[trigger] kind.shape(rotation.stepped_cw())[i] == turn_cw(
                kind.shape(rotation)[i],
                kind.pivot_is_corner(),
                kind.pivot(),
            ),
        forall|i: int|
            0 <= i < 4 ==> #[trigger] kind.shape(rotation.stepped_ccw())[i] == turn_ccw(
                kind.shape(rotation)[i],
                kind.pivot_is_corner(),
                kind.pivot(),
            ),
{
    assert forall|i: int| 0 <= i < 4 implies #[trigger] kind.shape(rotation.stepped_cw())[i]
        == turn_cw(kind.shape(rotation)[i], kind.pivot_is_corner(), kind.pivot()) by {
        let p = kind.base_cells()[i];
        lemma_four_turns(p, kind.pivot_is_corner(), kind.pivot());
        reveal_with_fuel(turned, 5);
    }
    assert forall|i: int| 0 <= i < 4 implies #[trigger] kind.shape(rotation.stepped_ccw())[i]
        == turn_ccw(kind.shape(rotation)[i], kind.pivot_is_corner(), kind.pivot()) by {
        let p = kind.base_cells()[i];
        lemma_four_turns(p, kind.pivot_is_corner(), kind.pivot());
        reveal_with_fuel(turned, 5);
    }
}

} // verus!
