//! The playfield: a matrix of blocks, row 0 on top.
//!
//! The model of a playfield is a sequence of rows, each a sequence of blocks.
//! Everything the game does to the playfield is stated over that model.

use super::geometry::{points, Block, Coordinate, Point};
use vstd::prelude::*;

verus! {

/// The largest width and the largest height of a playfield. Within it every
/// cell, and the anchor of every piece that touches the field, is a
/// `Coordinate`.
pub const MAX_DIMENSION: u8 = 126;

/// The number of columns of a field.
pub open spec fn field_width(f: Seq<Seq<Block>>) -> int {
    if f.len() > 0 {
        f[0].len() as int
    } else {
        0
    }
}

/// A field has between 1 and `MAX_DIMENSION` rows, all of one length between
/// 1 and `MAX_DIMENSION`.
pub open spec fn valid_field(f: Seq<Seq<Block>>) -> bool {
    &&& 1 <= f.len() <= MAX_DIMENSION
    &&& 1 <= field_width(f) <= MAX_DIMENSION
    &&& forall|y: int| 0 <= y < f.len() ==> (#[trigger] f[y]).len() == field_width(f)
}

/// Whether `p` is a cell of the field.
pub open spec fn in_field(f: Seq<Seq<Block>>, p: Point) -> bool {
    0 <= p.y < f.len() && 0 <= p.x < f[p.y].len()
}

/// Whether `p` is a cell of the field that holds a block. Outside the field
/// nothing is occupied.
pub open spec fn occupied(f: Seq<Seq<Block>>, p: Point) -> bool {
    in_field(f, p) && f[p.y][p.x] != Block::Empty
}

/// A row of `w` empty cells.
pub open spec fn blank_row(w: int) -> Seq<Block> {
    Seq::new(w as nat, |x: int| Block::Empty)
}

/// `n` rows of `w` empty cells.
pub open spec fn blank_rows(n: int, w: int) -> Seq<Seq<Block>> {
    Seq::new(n as nat, |y: int| blank_row(w))
}

/// A row is full if and only if none of its cells is empty.
pub open spec fn row_full(row: Seq<Block>) -> bool {
    forall|x: int| 0 <= x < row.len() ==> row[x] != Block::Empty
}

/// The indices below `n` of the full rows, in ascending order.
pub open spec fn full_rows_below(f: Seq<Seq<Block>>, n: int) -> Seq<int>
    decreases n,
{
    if n <= 0 {
        Seq::empty()
    } else if row_full(f[n - 1]) {
        full_rows_below(f, n - 1).push(n - 1)
    } else {
        full_rows_below(f, n - 1)
    }
}

/// The indices of the full rows of the field, in ascending order.
pub open spec fn full_rows(f: Seq<Seq<Block>>) -> Seq<int> {
    full_rows_below(f, f.len() as int)
}

/// The field with the block `b` written to cell `p`. Writing outside the
/// field changes nothing.
pub open spec fn with_cell(f: Seq<Seq<Block>>, p: Point, b: Block) -> Seq<Seq<Block>> {
    if in_field(f, p) {
        f.update(p.y, f[p.y].update(p.x, b))
    } else {
        f
    }
}

/// The field with the block `b` in each of the cells `cells`. Cells outside
/// the field are passed over.
pub open spec fn stamped(f: Seq<Seq<Block>>, cells: Seq<Point>, b: Block) -> Seq<Seq<Block>> {
    Seq::new(
        f.len(),
        |y: int|
            Seq::new(
                f[y].len(),
                |x: int|
                    if cells.contains(Point { x, y }) {
                        b
                    } else {
                        f[y][x]
                    },
            ),
    )
}

/// The field after row `y` is cleared: the row is gone, the rows above it
/// have moved down by one, and a new empty row is on top. An index that names
/// no row changes nothing.
pub open spec fn without_row(f: Seq<Seq<Block>>, y: int) -> Seq<Seq<Block>> {
    if 0 <= y < f.len() {
        seq![blank_row(field_width(f))] + f.remove(y)
    } else {
        f
    }
}

/// The field after the rows named in `rows` are cleared one after the other,
/// first to last.
pub open spec fn without_rows_in_turn(f: Seq<Seq<Block>>, rows: Seq<int>) -> Seq<Seq<Block>>
    decreases rows.len(),
{
    if rows.len() == 0 {
        f
    } else {
        without_row(without_rows_in_turn(f, rows.drop_last()), rows.last())
    }
}

/// Row indices as mathematical integers.
pub open spec fn indices(rows: Seq<u8>) -> Seq<int> {
    Seq::new(rows.len(), |i: int| rows[i] as int)
}

/// The rows of a matrix of vectors, as a field.
pub open spec fn field_of(rows: Seq<Vec<Block>>) -> Seq<Seq<Block>> {
    Seq::new(rows.len(), |y: int| rows[y]@)
}

/// The playfield.
pub struct Grid {
    width: u8,
    height: u8,
    rows: Vec<Vec<Block>>,
}

impl View for Grid {
    type V = Seq<Seq<Block>>;

    closed spec fn view(&self) -> Seq<Seq<Block>> {
        field_of(self.rows@)
    }
}

impl Grid {
    /// The stored dimensions are those of the rows.
    pub closed spec fn dimensions_agree(&self) -> bool {
        self.height == self@.len() && self.width == field_width(self@)
    }

    /// The invariant of a playfield.
    pub open spec fn wf(&self) -> bool {
        valid_field(self@) && self.dimensions_agree()
    }

    /// An empty playfield of the given dimensions, if each is between 1 and
    /// `MAX_DIMENSION`.
    pub fn new(width: u8, height: u8) -> (g: Option<Grid>)
        ensures
            g is Some <==> 1 <= width <= MAX_DIMENSION && 1 <= height <= MAX_DIMENSION,
            g matches Some(grid) ==> grid.wf() && grid@ == blank_rows(height as int, width as int),
    {
        if width == 0 || width > MAX_DIMENSION || height == 0 || height > MAX_DIMENSION {
            return None;
        }
        let mut rows: Vec<Vec<Block>> = Vec::new();
        let mut y: u8 = 0;
        while y < height
            invariant
                y <= height,
                rows@.len() == y,
                forall|i: int| 0 <= i < y ==> (#[trigger] rows@[i])@ == blank_row(width as int),
            decreases height - y,
        {
            rows.push(empty_row(width));
            y = y + 1;
        }
        let grid = Grid { width, height, rows };
        assert(grid@ =~= blank_rows(height as int, width as int));
        Some(grid)
    }

    /// The number of columns.
    pub fn width(&self) -> (w: &u8)
        requires
            self.wf(),
        ensures
            *w == field_width(self@),
    {
        &self.width
    }

    /// The number of rows.
    pub fn height(&self) -> (h: &u8)
        requires
            self.wf(),
        ensures
            *h == self@.len(),
    {
        &self.height
    }

    /// The rows, top to bottom.
    pub fn rows(&self) -> (rows: &Vec<Vec<Block>>)
        ensures
            field_of(rows@) == self@,
    {
        &self.rows
    }

    /// Whether `c` is a cell of the playfield.
    pub fn in_bounds(&self, c: Coordinate) -> (b: bool)
        requires
            self.wf(),
        ensures
            b == in_field(self@, c@),
    {
        c.x >= 0 && c.y >= 0 && (c.x as u8) < self.width && (c.y as u8) < self.height
    }

    /// What the cell `c` holds, if it is a cell of the playfield.
    pub fn block_at(&self, c: Coordinate) -> (b: Option<Block>)
        requires
            self.wf(),
        ensures
            b is Some <==> in_field(self@, c@),
            b matches Some(block) ==> block == self@[c.y as int][c.x as int],
    {
        if self.in_bounds(c) {
            Some(self.rows[c.y as usize][c.x as usize])
        } else {
            None
        }
    }

    /// Whether the cell `c` holds a block. Outside the playfield the answer
    /// is `false`: a caller that cares checks the bounds first.
    pub fn is_occupied(&self, c: Coordinate) -> (b: bool)
        requires
            self.wf(),
        ensures
            b == occupied(self@, c@),
    {
        match self.block_at(c) {
            Some(block) => block != Block::Empty,
            None => false,
        }
    }

    /// Writes `block` to the cell `c`. Outside the playfield nothing is
    /// written.
    pub fn set_cell(&mut self, c: Coordinate, block: Block)
        requires
            old(self).wf(),
        ensures
            final(self).wf(),
            final(self)@ == with_cell(old(self)@, c@, block),
    {
        if self.in_bounds(c) {
            self.rows[c.y as usize][c.x as usize] = block;
            assert(self@ =~~= with_cell(old(self)@, c@, block));
        }
    }

    /// Writes `block` to each of the four cells.
    pub fn stamp(&mut self, cells: &[Coordinate; 4], block: Block)
        requires
            old(self).wf(),
        ensures
            final(self).wf(),
            final(self)@ == stamped(old(self)@, points(cells@), block),
    {
        let ghost all = points(cells@);
        let mut i: usize = 0;
        assert(self@ =~~= stamped(old(self)@, all.take(0), block));
        while i < 4
            invariant
                self.wf(),
                i <= 4,
                all == points(cells@),
                valid_field(old(self)@),
                self@ == stamped(old(self)@, all.take(i as int), block),
            decreases 4 - i,
        {
            self.set_cell(cells[i], block);
            proof {
                lemma_stamp_one_more(old(self)@, all, i as int, block);
                assert(all[i as int] == cells@[i as int]@);
            }
            i = i + 1;
        }
        assert(all.take(4) =~= all);
    }

    /// Whether row `y` exists and is full.
    pub fn is_row_full(&self, y: u8) -> (b: bool)
        requires
            self.wf(),
        ensures
            b == (y < self@.len() && row_full(self@[y as int])),
    {
        if y >= self.height {
            return false;
        }
        let row = &self.rows[y as usize];
        let mut x: u8 = 0;
        while x < self.width
            invariant
                self.wf(),
                y < self.height,
                x <= self.width,
                row@ == self@[y as int],
                forall|i: int| 0 <= i < x ==> row@[i] != Block::Empty,
            decreases self.width - x,
        {
            if row[x as usize] == Block::Empty {
                return false;
            }
            x = x + 1;
        }
        true
    }

    /// The indices of all full rows, in ascending order.
    pub fn find_full_rows(&self) -> (rows: Vec<u8>)
        requires
            self.wf(),
        ensures
            indices(rows@) == full_rows(self@),
    {
        let mut rows: Vec<u8> = Vec::new();
        let mut y: u8 = 0;
        while y < self.height
            invariant
                self.wf(),
                y <= self.height,
                indices(rows@) == full_rows_below(self@, y as int),
            decreases self.height - y,
        {
            let ghost before = rows@;
            if self.is_row_full(y) {
                rows.push(y);
                assert(indices(rows@) =~= indices(before).push(y as int));
            }
            y = y + 1;
        }
        rows
    }

    /// Clears row `y`: removes it, lets the rows above it move down by one and
    /// puts a new empty row on top. An index that names no row changes
    /// nothing.
    pub fn clear_row(&mut self, y: u8)
        requires
            old(self).wf(),
        ensures
            final(self).wf(),
            final(self)@ == without_row(old(self)@, y as int),
    {
        if y < self.height {
            self.rows.remove(y as usize);
            self.rows.insert(0, empty_row(self.width));
            assert(self@ =~~= without_row(old(self)@, y as int));
        }
    }

    /// Clears the rows named in `rows` one after the other, first to last.
    ///
    /// For a list in ascending order, such as `find_full_rows` returns, no
    /// index needs adjusting on the way, and the outcome is that of removing
    /// all the rows at once: `lemma_clearing_compacts` says so.
    pub fn clear_rows(&mut self, rows: &Vec<u8>)
        requires
            old(self).wf(),
        ensures
            final(self).wf(),
            final(self)@ == without_rows_in_turn(old(self)@, indices(rows@)),
    {
        let mut i: usize = 0;
        while i < rows.len()
            invariant
                self.wf(),
                i <= rows.len(),
                self@ == without_rows_in_turn(old(self)@, indices(rows@).take(i as int)),
            decreases rows.len() - i,
        {
            assert(indices(rows@).take(i + 1).drop_last() =~= indices(rows@).take(i as int));
            self.clear_row(rows[i]);
            i = i + 1;
        }
        assert(indices(rows@).take(i as int) =~= indices(rows@));
    }
}

/// A new row of `width` empty cells.
fn empty_row(width: u8) -> (row: Vec<Block>)
    ensures
        row@ == blank_row(width as int),
{
    let mut row: Vec<Block> = Vec::new();
    let mut x: u8 = 0;
    while x < width
        invariant
            x <= width,
            row@.len() == x,
            forall|i: int| 0 <= i < x ==> row@[i] == Block::Empty,
        decreases width - x,
    {
        row.push(Block::Empty);
        x = x + 1;
    }
    assert(row@ =~= blank_row(width as int));
    row
}

/// Writing a block to one more cell is stamping one more cell.
proof fn lemma_stamp_one_more(f: Seq<Seq<Block>>, cells: Seq<Point>, i: int, b: Block)
    requires
        0 <= i < cells.len(),
    ensures
        with_cell(stamped(f, cells.take(i), b), cells[i], b) == stamped(f, cells.take(i + 1), b),
{
    let fewer = cells.take(i);
    let more = cells.take(i + 1);
    let c = cells[i];
    assert(more[i] == c);
    assert forall|p: Point| more.contains(p) <==> (fewer.contains(p) || p == c) by {
        if more.contains(p) {
            let j = choose|j: int| 0 <= j < more.len() && more[j] == p;
            if j < i {
                assert(fewer[j] == p);
            }
        }
        if fewer.contains(p) {
            let j = choose|j: int| 0 <= j < fewer.len() && fewer[j] == p;
            assert(more[j] == p);
        }
    }
    let written = with_cell(stamped(f, fewer, b), c, b);
    let target = stamped(f, more, b);
    assert(written.len() == target.len());
    assert forall|y: int| 0 <= y < target.len() implies #[trigger] written[y] =~= target[y] by {
        assert forall|x: int| 0 <= x < target[y].len() implies written[y][x] == target[y][x] by {
            let p = Point { x, y };
            assert(more.contains(p) <==> (fewer.contains(p) || p == c));
        }
    }
    assert(written =~= target);
}

/// Stamping changes neither the number of rows nor their length, and only
/// the stamped cells.
pub proof fn lemma_stamped(f: Seq<Seq<Block>>, cells: Seq<Point>, b: Block)
    ensures
        stamped(f, cells, b).len() == f.len(),
        field_width(stamped(f, cells, b)) == field_width(f),
        valid_field(f) ==> valid_field(stamped(f, cells, b)),
        forall|p: Point|
            in_field(f, p) ==> #[trigger] stamped(f, cells, b)[p.y][p.x] == if cells.contains(p) {
                b
            } else {
                f[p.y][p.x]
            },
{
    assert forall|p: Point| in_field(f, p) implies #[trigger] stamped(f, cells, b)[p.y][p.x]
        == if cells.contains(p) {
        b
    } else {
        f[p.y][p.x]
    } by {
        assert(p == Point { x: p.x, y: p.y });
    }
}

/// Each index is smaller than the next.
pub open spec fn ascending(rows: Seq<int>) -> bool {
    forall|i: int, j: int| 0 <= i < j < rows.len() ==> rows[i] < rows[j]
}

/// Each index names a row of the field.
pub open spec fn names_rows(f: Seq<Seq<Block>>, rows: Seq<int>) -> bool {
    forall|i: int| 0 <= i < rows.len() ==> 0 <= #[trigger] rows[i] < f.len()
}

/// The rows of the field with an index below `n` that `rows` does not name,
/// in the order in which they stand in the field.
pub open spec fn kept_rows_below(f: Seq<Seq<Block>>, rows: Seq<int>, n: int) -> Seq<Seq<Block>>
    decreases n,
{
    if n <= 0 {
        Seq::empty()
    } else if rows.contains(n - 1) {
        kept_rows_below(f, rows, n - 1)
    } else {
        kept_rows_below(f, rows, n - 1).push(f[n - 1])
    }
}

/// The rows of the field that `rows` does not name, in order.
pub open spec fn kept_rows(f: Seq<Seq<Block>>, rows: Seq<int>) -> Seq<Seq<Block>> {
    kept_rows_below(f, rows, f.len() as int)
}

/// The field after all rows named in `rows` are removed at once: the rows
/// that stay keep their order and sink to the bottom, and empty rows on top
/// make up the height.
pub open spec fn compacted(f: Seq<Seq<Block>>, rows: Seq<int>) -> Seq<Seq<Block>> {
    blank_rows(f.len() - kept_rows(f, rows).len(), field_width(f)) + kept_rows(f, rows)
}

/// How many of the indices from `a` up to, not including, `b` are named in
/// `rows`.
pub open spec fn named_from(rows: Seq<int>, a: int, b: int) -> int
    decreases b - a,
{
    if b <= a {
        0
    } else {
        named_from(rows, a, b - 1) + if rows.contains(b - 1) {
            1int
        } else {
            0int
        }
    }
}

/// The place of row `i` of a field of `h` rows after the rows named in `rows`
/// are removed: as many places further down as rows are removed below it.
pub open spec fn place_after(rows: Seq<int>, i: int, h: int) -> int {
    i + named_from(rows, i, h)
}

/// What `find_full_rows` returns: the indices are in ascending order, each
/// names a row, and a row's index is among them if and only if the row is
/// full.
pub proof fn lemma_full_rows(f: Seq<Seq<Block>>)
    ensures
        ascending(full_rows(f)),
        names_rows(f, full_rows(f)),
        full_rows(f).len() <= f.len(),
        forall|y: int|
            0 <= y < f.len() ==> (full_rows(f).contains(y) <==> row_full(#[trigger] f[y])),
{
    lemma_full_rows_below(f, f.len() as int);
}

proof fn lemma_full_rows_below(f: Seq<Seq<Block>>, n: int)
    requires
        0 <= n <= f.len(),
    ensures
        ascending(full_rows_below(f, n)),
        full_rows_below(f, n).len() <= n,
        forall|i: int|
            0 <= i < full_rows_below(f, n).len() ==> 0 <= #[trigger] full_rows_below(f, n)[i] < n,
        forall|y: int|
            0 <= y < n ==> (full_rows_below(f, n).contains(y) <==> row_full(#[trigger] f[y])),
        forall|y: int| y >= n ==> !full_rows_below(f, n).contains(y),
    decreases n,
{
    if n > 0 {
        lemma_full_rows_below(f, n - 1);
        let before = full_rows_below(f, n - 1);
        let now = full_rows_below(f, n);
        if row_full(f[n - 1]) {
            assert(now[before.len() as int] == n - 1);
            assert forall|y: int| 0 <= y < n implies (now.contains(y) <==> row_full(
                #[trigger] f[y],
            )) by {
                if y < n - 1 {
                    if before.contains(y) {
                        let j = choose|j: int| 0 <= j < before.len() && before[j] == y;
                        assert(now[j] == y);
                    }
                    if now.contains(y) {
                        let j = choose|j: int| 0 <= j < now.len() && now[j] == y;
                        assert(before[j] == y);
                    }
                }
            }
        } else {
            assert forall|y: int| 0 <= y < n implies (now.contains(y) <==> row_full(
                #[trigger] f[y],
            )) by {
                if y == n - 1 && now.contains(y) {
                    let j = choose|j: int| 0 <= j < now.len() && now[j] == y;
                    assert(now[j] < n - 1);
                }
            }
        }
    }
}

/// No more rows are kept than there are.
proof fn lemma_kept_rows_len(f: Seq<Seq<Block>>, rows: Seq<int>, n: int)
    requires
        0 <= n,
    ensures
        kept_rows_below(f, rows, n).len() <= n,
    decreases n,
{
    if n > 0 {
        lemma_kept_rows_len(f, rows, n - 1);
    }
}

/// Which rows are kept below `n` depends only on which indices below `n` are
/// named.
proof fn lemma_kept_rows_same(f: Seq<Seq<Block>>, rows: Seq<int>, others: Seq<int>, n: int)
    requires
        forall|i: int| 0 <= i < n ==> rows.contains(i) == others.contains(i),
    ensures
        kept_rows_below(f, rows, n) == kept_rows_below(f, others, n),
    decreases n,
{
    if n > 0 {
        lemma_kept_rows_same(f, rows, others, n - 1);
    }
}

/// Where no index from `a` up to `b` is named, all those rows are kept.
proof fn lemma_kept_rows_gap(f: Seq<Seq<Block>>, rows: Seq<int>, a: int, b: int)
    requires
        0 <= a <= b <= f.len(),
        forall|i: int| a <= i < b ==> !rows.contains(i),
    ensures
        kept_rows_below(f, rows, b) == kept_rows_below(f, rows, a) + f.subrange(a, b),
    decreases b - a,
{
    if a == b {
        assert(kept_rows_below(f, rows, a) + f.subrange(a, b) =~= kept_rows_below(f, rows, a));
    } else {
        lemma_kept_rows_gap(f, rows, a, b - 1);
        assert(kept_rows_below(f, rows, a) + f.subrange(a, b) =~= (kept_rows_below(f, rows, a)
            + f.subrange(a, b - 1)).push(f[b - 1]));
    }
}

/// Counting named indices from `a` to `c` is counting from `a` to `b` and
/// from `b` to `c`.
proof fn lemma_named_split(rows: Seq<int>, a: int, b: int, c: int)
    requires
        a <= b <= c,
    ensures
        named_from(rows, a, c) == named_from(rows, a, b) + named_from(rows, b, c),
        0 <= named_from(rows, a, b) <= b - a,
    decreases c - a,
{
    if c > b {
        lemma_named_split(rows, a, b, c - 1);
    } else if b > a {
        lemma_named_split(rows, a, b - 1, b - 1);
        assert(named_from(rows, b, c) == 0);
    }
}

/// Among the rows kept below `n`, a row that is not named stands as many
/// places from the start as there are rows above it that are not named.
proof fn lemma_kept_row_place(f: Seq<Seq<Block>>, rows: Seq<int>, n: int, i: int)
    requires
        0 <= i < n,
        !rows.contains(i),
    ensures
        kept_rows_below(f, rows, n).len() == n - named_from(rows, 0, n),
        0 <= i - named_from(rows, 0, i) < kept_rows_below(f, rows, n).len(),
        kept_rows_below(f, rows, n)[i - named_from(rows, 0, i)] == f[i],
    decreases n,
{
    lemma_kept_rows_count(f, rows, n - 1);
    lemma_named_split(rows, 0, i, n - 1);
    if i < n - 1 {
        lemma_kept_row_place(f, rows, n - 1, i);
    }
}

/// As many rows are kept below `n` as there are indices below `n` that are
/// not named.
proof fn lemma_kept_rows_count(f: Seq<Seq<Block>>, rows: Seq<int>, n: int)
    requires
        0 <= n,
    ensures
        kept_rows_below(f, rows, n).len() == n - named_from(rows, 0, n),
    decreases n,
{
    if n > 0 {
        lemma_kept_rows_count(f, rows, n - 1);
    }
}

/// Where rows are removed all at once, every row that stays moves down by as
/// many places as rows are removed below it, no more and no less, and every
/// place above the rows that stay holds an empty row.
pub proof fn lemma_compacted_rows(f: Seq<Seq<Block>>, rows: Seq<int>)
    ensures
        compacted(f, rows).len() == f.len(),
        forall|i: int|
            0 <= i < f.len() && !rows.contains(i) ==> 0 <= #[trigger] place_after(
                rows,
                i,
                f.len() as int,
            ) < f.len(),
        forall|i: int|
            0 <= i < f.len() && !rows.contains(i) ==> compacted(f, rows)[#[trigger] place_after(
                rows,
                i,
                f.len() as int,
            )] == f[i],
        forall|j: int|
            0 <= j < named_from(rows, 0, f.len() as int) ==> #[trigger] compacted(f, rows)[j]
                == blank_row(field_width(f)),
        ascending(rows) && names_rows(f, rows) ==> named_from(rows, 0, f.len() as int)
            == rows.len(),
{
    let h = f.len() as int;
    lemma_kept_rows_count(f, rows, h);
    lemma_named_split(rows, 0, h, h);
    assert forall|i: int| 0 <= i < h && !rows.contains(i) implies 0 <= #[trigger] place_after(
        rows,
        i,
        h,
    ) < h && compacted(f, rows)[place_after(rows, i, h)] == f[i] by {
        lemma_kept_row_place(f, rows, h, i);
        lemma_named_split(rows, 0, i, h);
        lemma_named_split(rows, i, i + 1, h);
        lemma_named_split(rows, i + 1, h, h);
        assert(named_from(rows, i, i + 1) == 0) by {
            assert(named_from(rows, i, i) == 0);
        }
    }
    if ascending(rows) && names_rows(f, rows) {
        lemma_clearing_compacts(f, rows);
    }
}

/// Every kept row is a row of the field that is not named.
pub proof fn lemma_kept_row_origin(f: Seq<Seq<Block>>, rows: Seq<int>, n: int, j: int) -> (y: int)
    requires
        0 <= n <= f.len(),
        0 <= j < kept_rows_below(f, rows, n).len(),
    ensures
        0 <= y < n,
        !rows.contains(y),
        kept_rows_below(f, rows, n)[j] == f[y],
    decreases n,
{
    if rows.contains(n - 1) {
        lemma_kept_row_origin(f, rows, n - 1, j)
    } else if j < kept_rows_below(f, rows, n - 1).len() {
        lemma_kept_row_origin(f, rows, n - 1, j)
    } else {
        n - 1
    }
}

/// One past the last of the indices, or 0 where there is none.
spec fn cleared_up_to(rows: Seq<int>) -> int {
    if rows.len() == 0 {
        0
    } else {
        rows.last() + 1
    }
}

/// After clearing ascending rows one after the other, the field consists of
/// one empty row for each, then the rows kept from above the last cleared
/// row, then the rows below it, which have not moved.
proof fn lemma_clearing_in_turn(f: Seq<Seq<Block>>, rows: Seq<int>)
    requires
        ascending(rows),
        names_rows(f, rows),
    ensures
        kept_rows_below(f, rows, cleared_up_to(rows)).len() == cleared_up_to(rows) - rows.len(),
        without_rows_in_turn(f, rows) == blank_rows(rows.len() as int, field_width(f))
            + kept_rows_below(f, rows, cleared_up_to(rows)) + f.skip(cleared_up_to(rows)),
    decreases rows.len(),
{
    let w = field_width(f);
    if rows.len() == 0 {
        assert(f =~= blank_rows(0, w) + kept_rows_below(f, rows, 0) + f.skip(0));
    } else {
        let k = rows.len() as int;
        let y = rows.last();
        let earlier = rows.drop_last();
        let m = cleared_up_to(earlier);
        assert(rows[k - 1] == y);
        assert(0 <= y < f.len());
        assert(ascending(earlier));
        assert(names_rows(f, earlier)) by {
            assert forall|i: int| 0 <= i < earlier.len() implies 0 <= #[trigger] earlier[i]
                < f.len() by {
                assert(earlier[i] == rows[i]);
            }
        }
        lemma_clearing_in_turn(f, earlier);
        assert(0 <= m <= y) by {
            if earlier.len() > 0 {
                assert(earlier.last() == rows[k - 2]);
                assert(0 <= rows[k - 2]);
            }
        }
        let kept_before = kept_rows_below(f, earlier, m);
        let blanks = blank_rows(k - 1, w);
        let before = without_rows_in_turn(f, earlier);
        assert(before == blanks + kept_before + f.skip(m));
        assert(before.len() == f.len());
        assert(field_width(before) == w) by {
            if k - 1 > 0 {
                assert(before[0] == blank_row(w));
            } else {
                assert(before[0] == f[0]);
            }
        }
        // which indices the longer list names
        assert(rows.contains(y));
        assert forall|i: int| 0 <= i < m implies rows.contains(i) == earlier.contains(i) by {
            if rows.contains(i) {
                let j = choose|j: int| 0 <= j < rows.len() && rows[j] == i;
                assert(earlier[j] == i);
            }
            if earlier.contains(i) {
                let j = choose|j: int| 0 <= j < earlier.len() && earlier[j] == i;
                assert(rows[j] == i);
            }
        }
        assert forall|i: int| m <= i < y implies !rows.contains(i) by {
            if rows.contains(i) {
                let j = choose|j: int| 0 <= j < rows.len() && rows[j] == i;
                if j < k - 1 {
                    assert(rows[j] <= rows[k - 2]);
                }
            }
        }
        lemma_kept_rows_same(f, rows, earlier, m);
        lemma_kept_rows_gap(f, rows, m, y);
        let kept_now = kept_rows_below(f, rows, y + 1);
        assert(kept_now == kept_before + f.subrange(m, y));
        assert(without_rows_in_turn(f, rows) == seq![blank_row(w)] + before.remove(y));
        assert(seq![blank_row(w)] + before.remove(y) =~= blank_rows(k, w) + kept_now + f.skip(
            y + 1,
        ));
    }
}

/// Clearing rows in ascending order, one after the other, is removing them
/// all at once: the rows that stay keep their order and sink to the bottom,
/// one empty row comes on top for each cleared row, and the height stays what
/// it was.
pub proof fn lemma_clearing_compacts(f: Seq<Seq<Block>>, rows: Seq<int>)
    requires
        ascending(rows),
        names_rows(f, rows),
    ensures
        without_rows_in_turn(f, rows) == compacted(f, rows),
        compacted(f, rows).len() == f.len(),
        kept_rows(f, rows).len() == f.len() - rows.len(),
        compacted(f, rows) == blank_rows(rows.len() as int, field_width(f)) + kept_rows(f, rows),
{
    let m = cleared_up_to(rows);
    lemma_clearing_in_turn(f, rows);
    assert(0 <= m <= f.len()) by {
        if rows.len() > 0 {
            assert(rows[rows.len() - 1] == rows.last());
        }
    }
    assert forall|i: int| m <= i < f.len() implies !rows.contains(i) by {
        if rows.contains(i) {
            let j = choose|j: int| 0 <= j < rows.len() && rows[j] == i;
            assert(rows[j] <= rows[rows.len() - 1]);
        }
    }
    lemma_kept_rows_gap(f, rows, m, f.len() as int);
    assert(f.subrange(m, f.len() as int) =~= f.skip(m));
    assert(blank_rows(rows.len() as int, field_width(f)) + kept_rows_below(f, rows, m) + f.skip(m)
        =~= blank_rows(rows.len() as int, field_width(f)) + kept_rows(f, rows));
}

/// Clearing the full rows keeps the field a field, and leaves no full row
/// behind: every row is then either new and empty or a row that was not
/// full.
pub proof fn lemma_clearing_full_rows(f: Seq<Seq<Block>>)
    requires
        valid_field(f),
    ensures
        without_rows_in_turn(f, full_rows(f)) == compacted(f, full_rows(f)),
        valid_field(compacted(f, full_rows(f))),
        compacted(f, full_rows(f)).len() == f.len(),
        field_width(compacted(f, full_rows(f))) == field_width(f),
        full_rows(compacted(f, full_rows(f))).len() == 0,
{
    let rows = full_rows(f);
    let after = compacted(f, rows);
    let w = field_width(f);
    let k = rows.len() as int;
    lemma_full_rows(f);
    lemma_clearing_compacts(f, rows);
    assert forall|y: int| 0 <= y < after.len() implies (#[trigger] after[y]).len() == w
        && !row_full(after[y]) by {
        if y < k {
            assert(after[y] == blank_row(w));
            assert(blank_row(w)[0] == Block::Empty);
        } else {
            let src = lemma_kept_row_origin(f, rows, f.len() as int, y - k);
            assert(after[y] == f[src]);
        }
    }
    assert(field_width(after) == w) by {
        assert(after[0].len() == w);
    }
    lemma_full_rows(after);
    if full_rows(after).len() > 0 {
        let y = full_rows(after)[0];
        assert(full_rows(after).contains(y));
        assert(row_full(after[y]));
    }
}

} // verus!
