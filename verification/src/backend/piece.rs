//! The falling piece and the moves that the playfield allows it.
//!
//! A piece is a kind, a rotation state and an anchor. Its four cells are the
//! offsets of its shape added to the anchor. A piece can stand where all four
//! cells are cells of the playfield and empty; every move is tried against
//! that rule and refused without any change where it fails.

use super::geometry::{
    lemma_rotation_steps_cycle, lemma_shape_bounds, lemma_shape_step, points, turn_ccw,
    turn_cw, Block, Coordinate, Point, Rotation, Tetromino,
};
use super::grid::{field_width, in_field, occupied, valid_field, Grid};
use vstd::prelude::*;

verus! {

/// The sense of a quarter turn.
#[derive(Clone, Copy, Debug, PartialEq, Eq, Structural)]
pub enum Direction {
    Clockwise,
    AntiClockwise,
}

/// The rotation state after one quarter turn in the given sense.
pub open spec fn step_rotation(rotation: Rotation, direction: Direction) -> Rotation {
    match direction {
        Direction::Clockwise => rotation.stepped_cw(),
        Direction::AntiClockwise => rotation.stepped_ccw(),
    }
}

/// A piece: its kind, how far it is turned, and the place of the top-left
/// corner of its spawn-orientation bounding box on the playfield.
#[derive(Clone, Copy, Debug, PartialEq, Eq, Structural)]
pub struct Piece {
    pub kind: Tetromino,
    pub rotation: Rotation,
    pub anchor: Coordinate,
}

/// The four cells of a piece of the given kind and rotation whose anchor is
/// at `(x, y)`.
pub open spec fn cells_at(kind: Tetromino, rotation: Rotation, x: int, y: int) -> Seq<Point> {
    Seq::new(
        4,
        |i: int| Point { x: x + kind.shape(rotation)[i].x, y: y + kind.shape(rotation)[i].y },
    )
}

/// Whether a piece can occupy `cells`: each is a cell of the field, and
/// empty.
pub open spec fn fits(f: Seq<Seq<Block>>, cells: Seq<Point>) -> bool {
    forall|i: int|
        0 <= i < cells.len() ==> in_field(f, #[trigger] cells[i]) && !occupied(f, cells[i])
}

/// Where a piece comes to rest that falls from `(x, y)`: it moves down one
/// row at a time for as long as the row below takes it.
pub open spec fn landing_y(
    f: Seq<Seq<Block>>,
    kind: Tetromino,
    rotation: Rotation,
    x: int,
    y: int,
) -> int
    decreases f.len() - y,
{
    if fits(f, cells_at(kind, rotation, x, y + 1)) {
        proof {
            lemma_shape_bounds(kind, rotation);
            assert(in_field(f, cells_at(kind, rotation, x, y + 1)[0]));
        }
        landing_y(f, kind, rotation, x, y + 1)
    } else {
        y
    }
}

impl Piece {
    /// The four cells that the piece occupies.
    pub open spec fn cells_spec(self) -> Seq<Point> {
        cells_at(self.kind, self.rotation, self.anchor.x as int, self.anchor.y as int)
    }

    /// Whether each of the four cells can be written as a `Coordinate`.
    pub open spec fn representable(self) -> bool {
        forall|i: int|
            0 <= i < 4 ==> i8::MIN <= (#[trigger] self.cells_spec()[i]).x <= i8::MAX && i8::MIN
                <= self.cells_spec()[i].y <= i8::MAX
    }

    /// The piece turned by one quarter turn, its anchor where it was.
    pub open spec fn rotated(self, direction: Direction) -> Piece {
        Piece { rotation: step_rotation(self.rotation, direction), ..self }
    }

    /// Whether the piece can stand `(dx, dy)` away from where it is.
    pub open spec fn fits_moved(self, f: Seq<Seq<Block>>, dx: int, dy: int) -> bool {
        fits(f, cells_at(self.kind, self.rotation, self.anchor.x + dx, self.anchor.y + dy))
    }

    /// The piece with its anchor moved by `(dx, dy)`, for a move that leaves
    /// the anchor a `Coordinate`; every move to a place where the piece fits
    /// does.
    pub open spec fn moved(self, dx: int, dy: int) -> Piece {
        Piece {
            anchor: Coordinate { x: (self.anchor.x + dx) as i8, y: (self.anchor.y + dy) as i8 },
            ..self
        }
    }

    /// The piece where it comes to rest when it falls.
    pub open spec fn landed(self, f: Seq<Seq<Block>>) -> Piece {
        Piece {
            anchor: Coordinate {
                x: self.anchor.x,
                y: landing_y(
                    f,
                    self.kind,
                    self.rotation,
                    self.anchor.x as int,
                    self.anchor.y as int,
                ) as i8,
            },
            ..self
        }
    }

    pub fn new(kind: Tetromino, rotation: Rotation, anchor: Coordinate) -> (p: Piece)
        ensures
            p == (Piece { kind, rotation, anchor }),
    {
        Piece { kind, rotation, anchor }
    }

    /// The four cells that the piece occupies, if each can be written as a
    /// `Coordinate`.
    pub fn cells(&self) -> (r: Option<[Coordinate; 4]>)
        ensures
            r is Some <==> self.representable(),
            r matches Some(cells) ==> points(cells@) == self.cells_spec(),
    {
        let offsets = self.kind.get_rotated_coordinates(self.rotation);
        proof {
            lemma_shape_bounds(self.kind, self.rotation);
            assert forall|i: int| 0 <= i < 4 implies offsets@[i]@ == #[trigger] self.kind.shape(
                self.rotation,
            )[i] by {
                assert(points(offsets@)[i] == offsets@[i]@);
            }
            assert(self.cells_spec()[0].x == self.anchor.x + offsets@[0].x);
            assert(self.cells_spec()[1].x == self.anchor.x + offsets@[1].x);
            assert(self.cells_spec()[2].x == self.anchor.x + offsets@[2].x);
            assert(self.cells_spec()[3].x == self.anchor.x + offsets@[3].x);
        }
        match (
            offset_by(self.anchor, offsets[0]),
            offset_by(self.anchor, offsets[1]),
            offset_by(self.anchor, offsets[2]),
            offset_by(self.anchor, offsets[3]),
        ) {
            (Some(a), Some(b), Some(c), Some(d)) => {
                let cells = [a, b, c, d];
                assert(points(cells@) =~= self.cells_spec());
                Some(cells)
            },
            _ => None,
        }
    }

    /// Whether the piece can stand where it is: true if and only if all four
    /// cells are cells of the playfield and empty.
    pub fn can_place(&self, grid: &Grid) -> (b: bool)
        requires
            grid.wf(),
        ensures
            b == fits(grid@, self.cells_spec()),
    {
        can_place_at(grid, self.kind, self.rotation, self.anchor.x as i16, self.anchor.y as i16)
    }

    /// The piece moved by `(dx, dy)`, if it can stand there; `None`
    /// otherwise.
    pub fn try_move(&self, grid: &Grid, dx: i8, dy: i8) -> (r: Option<Piece>)
        requires
            grid.wf(),
        ensures
            r is Some <==> fits(
                grid@,
                cells_at(self.kind, self.rotation, self.anchor.x + dx, self.anchor.y + dy),
            ),
            r matches Some(p) ==> p.kind == self.kind && p.rotation == self.rotation && p.anchor.x
                == self.anchor.x + dx && p.anchor.y == self.anchor.y + dy,
            r == if self.fits_moved(grid@, dx as int, dy as int) {
                Some(self.moved(dx as int, dy as int))
            } else {
                None
            },
    {
        let x: i16 = self.anchor.x as i16 + dx as i16;
        let y: i16 = self.anchor.y as i16 + dy as i16;
        if can_place_at(grid, self.kind, self.rotation, x, y) {
            proof {
                lemma_fitting_anchor(grid@, self.kind, self.rotation, x as int, y as int);
            }
            Some(
                Piece {
                    kind: self.kind,
                    rotation: self.rotation,
                    anchor: Coordinate { x: x as i8, y: y as i8 },
                },
            )
        } else {
            None
        }
    }

    /// The piece turned by one quarter turn about its pivot, if it can stand
    /// so; `None` otherwise. No other place is tried.
    pub fn try_rotate(&self, grid: &Grid, direction: Direction) -> (r: Option<Piece>)
        requires
            grid.wf(),
        ensures
            r is Some <==> fits(grid@, self.rotated(direction).cells_spec()),
            r matches Some(p) ==> p == self.rotated(direction),
    {
        let rotation = match direction {
            Direction::Clockwise => self.rotation.clockwise(),
            Direction::AntiClockwise => self.rotation.anti_clockwise(),
        };
        let turned = Piece { kind: self.kind, rotation, anchor: self.anchor };
        if turned.can_place(grid) {
            Some(turned)
        } else {
            None
        }
    }

    /// The piece where it comes to rest when it falls: moved down one row at
    /// a time until the next row refuses it.
    pub fn hard_drop(&self, grid: &Grid) -> (r: Piece)
        requires
            grid.wf(),
        ensures
            r.kind == self.kind,
            r.rotation == self.rotation,
            r.anchor.x == self.anchor.x,
            r.anchor.y == landing_y(
                grid@,
                self.kind,
                self.rotation,
                self.anchor.x as int,
                self.anchor.y as int,
            ),
            r == self.landed(grid@),
    {
        let mut current = *self;
        let mut below = current.try_move(grid, 0, 1);
        while below.is_some()
            invariant
                grid.wf(),
                current.kind == self.kind,
                current.rotation == self.rotation,
                current.anchor.x == self.anchor.x,
                landing_y(
                    grid@,
                    self.kind,
                    self.rotation,
                    self.anchor.x as int,
                    current.anchor.y as int,
                ) == landing_y(
                    grid@,
                    self.kind,
                    self.rotation,
                    self.anchor.x as int,
                    self.anchor.y as int,
                ),
                below is Some <==> fits(
                    grid@,
                    cells_at(self.kind, self.rotation, self.anchor.x as int, current.anchor.y + 1),
                ),
                below matches Some(p) ==> p.kind == self.kind && p.rotation == self.rotation
                    && p.anchor.x == self.anchor.x && p.anchor.y == current.anchor.y + 1,
            decreases grid@.len() - current.anchor.y,
        {
            proof {
                lemma_fitting_anchor(
                    grid@,
                    self.kind,
                    self.rotation,
                    self.anchor.x as int,
                    current.anchor.y + 1,
                );
            }
            current = below.unwrap();
            below = current.try_move(grid, 0, 1);
        }
        current
    }
}

/// The cell at `offset` from `anchor`, if it can be written as a
/// `Coordinate`.
fn offset_by(anchor: Coordinate, offset: Coordinate) -> (r: Option<Coordinate>)
    ensures
        r is Some <==> i8::MIN <= anchor.x + offset.x <= i8::MAX && i8::MIN <= anchor.y + offset.y
            <= i8::MAX,
        r matches Some(c) ==> c.x == anchor.x + offset.x && c.y == anchor.y + offset.y,
{
    let x: i16 = anchor.x as i16 + offset.x as i16;
    let y: i16 = anchor.y as i16 + offset.y as i16;
    if -128 <= x && x <= 127 && -128 <= y && y <= 127 {
        Some(Coordinate { x: x as i8, y: y as i8 })
    } else {
        None
    }
}

/// Whether a piece of the given kind and rotation can stand with its anchor
/// at `(x, y)`.
fn can_place_at(grid: &Grid, kind: Tetromino, rotation: Rotation, x: i16, y: i16) -> (b: bool)
    requires
        grid.wf(),
        -1000 <= x <= 1000,
        -1000 <= y <= 1000,
    ensures
        b == fits(grid@, cells_at(kind, rotation, x as int, y as int)),
{
    let offsets = kind.get_rotated_coordinates(rotation);
    let ghost cells = cells_at(kind, rotation, x as int, y as int);
    proof {
        lemma_shape_bounds(kind, rotation);
        assert forall|i: int| 0 <= i < 4 implies offsets@[i]@ == #[trigger] kind.shape(
            rotation,
        )[i] by {
            assert(points(offsets@)[i] == offsets@[i]@);
        }
    }
    let mut i: usize = 0;
    while i < 4
        invariant
            grid.wf(),
            i <= 4,
            -1000 <= x <= 1000,
            -1000 <= y <= 1000,
            cells == cells_at(kind, rotation, x as int, y as int),
            forall|j: int| 0 <= j < 4 ==> offsets@[j]@ == #[trigger] kind.shape(rotation)[j],
            forall|j: int|
                0 <= j < 4 ==> -2 <= (#[trigger] kind.shape(rotation)[j]).x <= 2 && -1
                    <= kind.shape(rotation)[j].y <= 3,
            forall|j: int|
                0 <= j < i ==> in_field(grid@, #[trigger] cells[j]) && !occupied(grid@, cells[j]),
        decreases 4 - i,
    {
        assert(offsets@[i as int]@ == kind.shape(rotation)[i as int]);
        let cx: i16 = x + offsets[i].x as i16;
        let cy: i16 = y + offsets[i].y as i16;
        assert(cells[i as int] == Point { x: cx as int, y: cy as int });
        if cx < -128 || cx > 127 || cy < -128 || cy > 127 {
            return false;
        }
        let cell = Coordinate { x: cx as i8, y: cy as i8 };
        if !grid.in_bounds(cell) || grid.is_occupied(cell) {
            return false;
        }
        i = i + 1;
    }
    true
}

/// A piece that fits stands with its anchor near the field: at most two
/// columns to the left or right of it and three rows above.
pub proof fn lemma_fitting_anchor(
    f: Seq<Seq<Block>>,
    kind: Tetromino,
    rotation: Rotation,
    x: int,
    y: int,
)
    requires
        valid_field(f),
        fits(f, cells_at(kind, rotation, x, y)),
    ensures
        -2 <= x <= field_width(f) + 1,
        -3 <= y <= f.len(),
        i8::MIN <= x <= i8::MAX,
        i8::MIN <= y <= i8::MAX,
{
    lemma_shape_bounds(kind, rotation);
    let c = cells_at(kind, rotation, x, y)[0];
    assert(in_field(f, c));
    assert(c.x == x + kind.shape(rotation)[0].x);
}

/// A move to a place where the piece fits leaves the anchor a `Coordinate`,
/// and the moved piece stands on the cells that were tried.
pub proof fn lemma_moved_cells(f: Seq<Seq<Block>>, p: Piece, dx: int, dy: int)
    requires
        valid_field(f),
        p.fits_moved(f, dx, dy),
    ensures
        p.moved(dx, dy).anchor.x == p.anchor.x + dx,
        p.moved(dx, dy).anchor.y == p.anchor.y + dy,
        p.moved(dx, dy).cells_spec() == cells_at(
            p.kind,
            p.rotation,
            p.anchor.x + dx,
            p.anchor.y + dy,
        ),
        fits(f, p.moved(dx, dy).cells_spec()),
        p.moved(dx, dy).representable(),
{
    lemma_fitting_anchor(f, p.kind, p.rotation, p.anchor.x + dx, p.anchor.y + dy);
    lemma_fitting_cells(f, p.moved(dx, dy));
}

/// A piece that fits has cells that are `Coordinate`s.
pub proof fn lemma_fitting_cells(f: Seq<Seq<Block>>, p: Piece)
    requires
        valid_field(f),
        fits(f, p.cells_spec()),
    ensures
        p.representable(),
{
    assert forall|i: int| 0 <= i < 4 implies i8::MIN <= (#[trigger] p.cells_spec()[i]).x
        <= i8::MAX && i8::MIN <= p.cells_spec()[i].y <= i8::MAX by {
        assert(in_field(f, p.cells_spec()[i]));
    }
}

/// A piece that fits comes to rest where it fits, in its own column, not
/// above where it was.
pub proof fn lemma_landed_fits(f: Seq<Seq<Block>>, p: Piece)
    requires
        valid_field(f),
        fits(f, p.cells_spec()),
    ensures
        fits(f, p.landed(f).cells_spec()),
        p.landed(f).representable(),
        p.landed(f).anchor.x == p.anchor.x,
        p.landed(f).anchor.y == landing_y(
            f,
            p.kind,
            p.rotation,
            p.anchor.x as int,
            p.anchor.y as int,
        ),
        p.landed(f).anchor.y >= p.anchor.y,
        !p.landed(f).fits_moved(f, 0, 1),
{
    let x = p.anchor.x as int;
    let y = p.anchor.y as int;
    let l = landing_y(f, p.kind, p.rotation, x, y);
    lemma_landing(f, p.kind, p.rotation, x, y);
    if l > y {
        assert(fits(f, cells_at(p.kind, p.rotation, x, l)));
        lemma_fitting_anchor(f, p.kind, p.rotation, x, l);
    }
    assert(p.landed(f).cells_spec() == cells_at(p.kind, p.rotation, x, l));
    lemma_fitting_cells(f, p.landed(f));
}

/// A piece cannot be placed over any set of cells of which one lies left of,
/// right of, above or below the field, or holds a block.
pub proof fn lemma_blocked_cell_prevents_placing(f: Seq<Seq<Block>>, cells: Seq<Point>, i: int)
    requires
        valid_field(f),
        0 <= i < cells.len(),
        cells[i].x < 0 || cells[i].x >= field_width(f) || cells[i].y < 0 || cells[i].y >= f.len()
            || f[cells[i].y][cells[i].x] != Block::Empty,
    ensures
        !fits(f, cells),
{
    if fits(f, cells) {
        assert(in_field(f, cells[i]) && !occupied(f, cells[i]));
    }
}

/// What `hard_drop` finds: the resting row is not above the starting row,
/// every row passed on the way down takes the piece, and the row below the
/// resting row does not.
pub proof fn lemma_landing(f: Seq<Seq<Block>>, kind: Tetromino, rotation: Rotation, x: int, y: int)
    ensures
        landing_y(f, kind, rotation, x, y) >= y,
        forall|j: int|
            y < j <= landing_y(f, kind, rotation, x, y) ==> fits(
                f,
                #[trigger] cells_at(kind, rotation, x, j),
            ),
        !fits(f, cells_at(kind, rotation, x, landing_y(f, kind, rotation, x, y) + 1)),
    decreases f.len() - y,
{
    if fits(f, cells_at(kind, rotation, x, y + 1)) {
        lemma_shape_bounds(kind, rotation);
        assert(in_field(f, cells_at(kind, rotation, x, y + 1)[0]));
        lemma_landing(f, kind, rotation, x, y + 1);
    }
}

/// The resting row is the only row with the three properties of
/// `lemma_landing`.
pub proof fn lemma_landing_unique(
    f: Seq<Seq<Block>>,
    kind: Tetromino,
    rotation: Rotation,
    x: int,
    y: int,
    l: int,
)
    requires
        l >= y,
        forall|j: int| y < j <= l ==> fits(f, #[trigger] cells_at(kind, rotation, x, j)),
        !fits(f, cells_at(kind, rotation, x, l + 1)),
    ensures
        l == landing_y(f, kind, rotation, x, y),
    decreases l - y,
{
    if l > y {
        assert(fits(f, cells_at(kind, rotation, x, y + 1)));
        lemma_landing_unique(f, kind, rotation, x, y + 1, l);
    }
}

/// Four quarter turns in one direction give the piece back as it was, on the
/// same four cells; a quarter turn forth and one back do so too. Each turn
/// moves every cell by a quarter turn about the pivot, which stays where the
/// anchor puts it.
pub proof fn lemma_four_rotations(p: Piece, direction: Direction)
    ensures
        p.rotated(direction).rotated(direction).rotated(direction).rotated(direction) == p,
        p.rotated(direction).rotated(direction).rotated(direction).rotated(direction).cells_spec()
            == p.cells_spec(),
        p.rotated(Direction::Clockwise).rotated(Direction::AntiClockwise) == p,
        p.rotated(Direction::AntiClockwise).rotated(Direction::Clockwise) == p,
        forall|i: int|
            0 <= i < 4 ==> (#[trigger] p.rotated(Direction::Clockwise).cells_spec()[i]) == (Point {
                x: p.anchor.x + turn_cw(
                    p.kind.shape(p.rotation)[i],
                    p.kind.pivot_is_corner(),
                    p.kind.pivot(),
                ).x,
                y: p.anchor.y + turn_cw(
                    p.kind.shape(p.rotation)[i],
                    p.kind.pivot_is_corner(),
                    p.kind.pivot(),
                ).y,
            }),
        forall|i: int|
            0 <= i < 4 ==> (#[trigger] p.rotated(Direction::AntiClockwise).cells_spec()[i])
                == (Point {
                x: p.anchor.x + turn_ccw(
                    p.kind.shape(p.rotation)[i],
                    p.kind.pivot_is_corner(),
                    p.kind.pivot(),
                ).x,
                y: p.anchor.y + turn_ccw(
                    p.kind.shape(p.rotation)[i],
                    p.kind.pivot_is_corner(),
                    p.kind.pivot(),
                ).y,
            }),
{
    lemma_rotation_steps_cycle(p.rotation);
    lemma_shape_step(p.kind, p.rotation);
}

} // verus!
