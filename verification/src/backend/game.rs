//! The game state machine.
//!
//! A game is always in one of five phases. `update` takes it along exactly
//! one arrow of the following diagram per call, so that whoever draws the
//! game sees every step:
//!
//! ```text
//! Spawning --update--> Active            the next piece appears and fits
//! Spawning --update--> GameOver          the next piece appears and does not fit
//! Active   --update--> Active            the piece falls by one row
//! Active   --update--> Locking           the row below refuses the piece
//! Active   --place---> Locking           the piece is dropped as far as it goes
//! Locking  --update--> RowClearPending   the piece becomes blocks; some rows are full
//! Locking  --update--> Spawning          the piece becomes blocks; no row is full
//! RowClearPending --update--> Spawning   the full rows go, the score grows
//! ```
//!
//! The player's commands act on the piece while the phase is `Active`, and
//! are refused without any change otherwise. All of this is stated over
//! `GameModel`, the mathematical state of a game.

use super::geometry::{lemma_shape_bounds, points, Block, Coordinate, Rotation, Tetromino};
use super::grid::{
    blank_row, blank_rows, compacted, field_of, field_width, full_rows, indices, kept_rows,
    lemma_clearing_compacts, lemma_clearing_full_rows, lemma_compacted_rows, lemma_full_rows,
    lemma_stamped, place_after, row_full, stamped, valid_field, without_rows_in_turn, Grid,
    MAX_DIMENSION,
};
use super::piece::{
    fits, lemma_fitting_cells, lemma_four_rotations, lemma_landed_fits, lemma_moved_cells,
    Direction, Piece,
};
use super::scoring::{add_lines, add_points, level_for, level_of, lines_after, score_after};
use super::sequence::{next_cursor, PieceSequence};
use vstd::prelude::*;

verus! {

/// The phases of a game.
#[derive(Clone, Copy, Debug, PartialEq, Eq, Structural)]
pub enum Phase {
    /// No piece is in play; the next update brings one.
    Spawning,
    /// A piece is in play and obeys the player.
    Active,
    /// The piece has come to rest; the next update turns it into blocks.
    Locking,
    /// Full rows have been reported and still stand; the next update removes
    /// them.
    RowClearPending,
    /// The game has ended; nothing changes any more.
    GameOver,
}

/// What a call has done to the game.
#[derive(Clone, Copy, Debug, PartialEq, Eq)]
pub enum GameUpdate<'a> {
    /// The call was carried out and there is nothing else to report.
    NoUpdate,
    /// The game is over.
    GameOver,
    /// The piece has been turned into blocks. The slice holds the indices of
    /// the rows that the next call to `update` will clear, in ascending
    /// order; it is empty where no row is full. A new piece appears only
    /// after these rows are gone.
    TetrominoPlaced(&'a [u8]),
    /// The command could not be carried out and has changed nothing.
    UserActionFailed,
}

/// The model of a `GameUpdate`.
pub enum Event {
    NoUpdate,
    GameOver,
    TetrominoPlaced(Seq<int>),
    UserActionFailed,
}

impl<'a> View for GameUpdate<'a> {
    type V = Event;

    open spec fn view(&self) -> Event {
        match self {
            GameUpdate::NoUpdate => Event::NoUpdate,
            GameUpdate::GameOver => Event::GameOver,
            GameUpdate::TetrominoPlaced(rows) => Event::TetrominoPlaced(indices(rows@)),
            GameUpdate::UserActionFailed => Event::UserActionFailed,
        }
    }
}

/// The mathematical state of a game.
#[verifier::ext_equal]
pub struct GameModel {
    /// The playfield, row 0 on top.
    pub field: Seq<Seq<Block>>,
    pub phase: Phase,
    /// The piece that appeared last; in a new game, the piece that will
    /// appear first. It is in play in the phases `Active` and `Locking`.
    pub piece: Piece,
    /// The kind that the player has set aside.
    pub held: Option<Tetromino>,
    /// Whether the player has set a kind aside since the last piece was
    /// turned into blocks.
    pub hold_used: bool,
    /// The three kinds that come next, the very next one first.
    pub queue: Seq<Tetromino>,
    /// The script that refills the queue, and the place in it of the kind
    /// that goes into the queue next.
    pub script: Seq<Tetromino>,
    pub cursor: int,
    /// The rows that have been reported as full and not been removed yet.
    pub pending: Seq<int>,
    pub score: int,
    pub level: int,
    /// The number of rows cleared so far.
    pub lines: int,
}

/// The column of the spawn anchor: the piece appears in the middle of the top
/// row, half a cell to the left where the middle falls between two columns.
pub open spec fn spawn_x(width: int, kind: Tetromino) -> int {
    if width >= kind.length() {
        (width - kind.length()) / 2
    } else {
        0
    }
}

/// A piece of the given kind as it appears: not rotated, with its anchor in
/// the top row.
pub open spec fn spawn_piece(width: int, kind: Tetromino) -> Piece {
    Piece {
        kind,
        rotation: Rotation::NotRotated,
        anchor: Coordinate { x: spawn_x(width, kind) as i8, y: 0i8 },
    }
}

/// The queue after its first kind has gone into play and the script has
/// refilled it.
pub open spec fn refilled(m: GameModel) -> Seq<Tetromino> {
    seq![m.queue[1], m.queue[2], m.script[m.cursor]]
}

/// The invariant of a game.
pub open spec fn valid_game(m: GameModel) -> bool {
    &&& valid_field(m.field)
    &&& m.queue.len() == 3
    &&& 0 <= m.cursor < m.script.len()
    &&& m.piece.representable()
    &&& (m.phase is Active || m.phase is Locking) ==> fits(m.field, m.piece.cells_spec())
    &&& m.phase is RowClearPending ==> m.pending == full_rows(m.field) && m.pending.len() > 0
    &&& !(m.phase is RowClearPending) ==> m.pending.len() == 0
    &&& 0 <= m.score <= u64::MAX
    &&& 0 <= m.lines <= u64::MAX
    &&& m.level == level_for(m.lines)
}

/// A new game on the given field: no piece is in play yet, the queue holds
/// the first three kinds of the script from `cursor` on, nothing is set
/// aside, and score, level and rows are 0.
pub open spec fn initial_game(
    field: Seq<Seq<Block>>,
    script: Seq<Tetromino>,
    cursor: int,
) -> GameModel {
    let second = next_cursor(script, cursor);
    let third = next_cursor(script, second);
    GameModel {
        field,
        phase: Phase::Spawning,
        piece: spawn_piece(field_width(field), script[cursor]),
        held: None,
        hold_used: false,
        queue: seq![script[cursor], script[second], script[third]],
        script,
        cursor: next_cursor(script, third),
        pending: Seq::empty(),
        score: 0,
        level: 0,
        lines: 0,
    }
}

/// The next piece appears: the first kind of the queue, at the spawn anchor.
/// The queue moves up and is refilled. Where the piece does not fit, the game
/// is over.
pub open spec fn after_spawn(m: GameModel) -> (GameModel, Event) {
    let piece = spawn_piece(field_width(m.field), m.queue[0]);
    let next = GameModel {
        piece,
        queue: refilled(m),
        cursor: next_cursor(m.script, m.cursor),
        ..m
    };
    if fits(m.field, piece.cells_spec()) {
        (GameModel { phase: Phase::Active, ..next }, Event::NoUpdate)
    } else {
        (GameModel { phase: Phase::GameOver, ..next }, Event::GameOver)
    }
}

/// Gravity: the piece falls by one row, or comes to rest where the row below
/// refuses it.
pub open spec fn after_fall(m: GameModel) -> (GameModel, Event) {
    if m.piece.fits_moved(m.field, 0, 1) {
        (GameModel { piece: m.piece.moved(0, 1), ..m }, Event::NoUpdate)
    } else {
        (GameModel { phase: Phase::Locking, ..m }, Event::NoUpdate)
    }
}

/// The piece is turned into blocks of its colour. The full rows are found
/// and reported; they stay in the field until the next update. The player
/// may set a kind aside again.
pub open spec fn after_lock(m: GameModel) -> (GameModel, Event) {
    let field = stamped(m.field, m.piece.cells_spec(), m.piece.kind.color());
    let rows = full_rows(field);
    (
        GameModel {
            field,
            pending: rows,
            hold_used: false,
            phase: if rows.len() > 0 {
                Phase::RowClearPending
            } else {
                Phase::Spawning
            },
            ..m
        },
        Event::TetrominoPlaced(rows),
    )
}

/// The rows reported as full are removed, all at once: what stays sinks to
/// the bottom, in order, and empty rows come on top. Score, rows and level
/// grow.
pub open spec fn after_clear(m: GameModel) -> (GameModel, Event) {
    let lines = lines_after(m.lines, m.pending.len() as int);
    (
        GameModel {
            field: compacted(m.field, m.pending),
            pending: Seq::empty(),
            score: score_after(m.score, m.pending.len() as int, m.level),
            lines,
            level: level_for(lines),
            phase: Phase::Spawning,
            ..m
        },
        Event::NoUpdate,
    )
}

/// What `update` does: one step, chosen by the phase.
pub open spec fn after_update(m: GameModel) -> (GameModel, Event) {
    match m.phase {
        Phase::Spawning => after_spawn(m),
        Phase::Active => after_fall(m),
        Phase::Locking => after_lock(m),
        Phase::RowClearPending => after_clear(m),
        Phase::GameOver => (m, Event::GameOver),
    }
}

/// What is reported where a command is refused.
pub open spec fn refusal(m: GameModel) -> Event {
    if m.phase is GameOver {
        Event::GameOver
    } else {
        Event::UserActionFailed
    }
}

/// The player moves the piece by `(dx, dy)`.
pub open spec fn after_move(m: GameModel, dx: int, dy: int) -> (GameModel, Event) {
    if m.phase is Active && m.piece.fits_moved(m.field, dx, dy) {
        (GameModel { piece: m.piece.moved(dx, dy), ..m }, Event::NoUpdate)
    } else {
        (m, refusal(m))
    }
}

/// The player turns the piece by a quarter turn.
pub open spec fn after_turn(m: GameModel, direction: Direction) -> (GameModel, Event) {
    if m.phase is Active && fits(m.field, m.piece.rotated(direction).cells_spec()) {
        (GameModel { piece: m.piece.rotated(direction), ..m }, Event::NoUpdate)
    } else {
        (m, refusal(m))
    }
}

/// The player drops the piece: it comes to rest as far down as it goes, and
/// the next update turns it into blocks.
pub open spec fn after_place(m: GameModel) -> (GameModel, Event) {
    if m.phase is Active {
        (GameModel { piece: m.piece.landed(m.field), phase: Phase::Locking, ..m }, Event::NoUpdate)
    } else {
        (m, refusal(m))
    }
}

/// The piece that comes into play where the player sets the piece in play
/// aside: the kind set aside before, where the piece stands, or else the
/// first kind of the queue at the spawn anchor; not rotated in either case.
pub open spec fn swapped_in(m: GameModel) -> Piece {
    match m.held {
        Some(kind) => Piece { kind, rotation: Rotation::NotRotated, anchor: m.piece.anchor },
        None => spawn_piece(field_width(m.field), m.queue[0]),
    }
}

/// The player sets the kind of the piece aside. This is refused where it has
/// been done since the last piece was turned into blocks, and where the
/// piece that comes into play instead does not fit.
pub open spec fn after_save(m: GameModel) -> (GameModel, Event) {
    if m.phase is Active && !m.hold_used && fits(m.field, swapped_in(m).cells_spec()) {
        let kept = GameModel {
            piece: swapped_in(m),
            held: Some(m.piece.kind),
            hold_used: true,
            ..m
        };
        match m.held {
            Some(_) => (kept, Event::NoUpdate),
            None => (
                GameModel { queue: refilled(m), cursor: next_cursor(m.script, m.cursor), ..kept },
                Event::NoUpdate,
            ),
        }
    } else {
        (m, refusal(m))
    }
}

/// A piece as it appears has its anchor in the top row, between the left
/// edge and the middle of the field, and cells that are `Coordinate`s.
pub proof fn lemma_spawn_piece(width: int, kind: Tetromino)
    requires
        1 <= width <= MAX_DIMENSION,
    ensures
        spawn_piece(width, kind).anchor.x == spawn_x(width, kind),
        0 <= spawn_x(width, kind) <= width / 2,
        spawn_piece(width, kind).anchor.y == 0,
        spawn_piece(width, kind).representable(),
{
    lemma_shape_bounds(kind, Rotation::NotRotated);
}

/// Every step keeps the invariant of a game: whatever is called, in whatever
/// order, the queue holds three kinds, a piece in play stands on empty cells
/// of the field, and rows reported as full are the full rows of the field.
pub proof fn lemma_steps_keep_valid(m: GameModel, dx: int, dy: int, direction: Direction)
    requires
        valid_game(m),
    ensures
        valid_game(after_update(m).0),
        valid_game(after_move(m, dx, dy).0),
        valid_game(after_turn(m, direction).0),
        valid_game(after_place(m).0),
        valid_game(after_save(m).0),
{
    lemma_update_keeps_valid(m);
    if m.phase is Active {
        if m.piece.fits_moved(m.field, dx, dy) {
            lemma_moved_cells(m.field, m.piece, dx, dy);
        }
        if fits(m.field, m.piece.rotated(direction).cells_spec()) {
            lemma_fitting_cells(m.field, m.piece.rotated(direction));
        }
        lemma_landed_fits(m.field, m.piece);
        if fits(m.field, swapped_in(m).cells_spec()) {
            lemma_fitting_cells(m.field, swapped_in(m));
        }
    }
}

proof fn lemma_update_keeps_valid(m: GameModel)
    requires
        valid_game(m),
    ensures
        valid_game(after_update(m).0),
{
    match m.phase {
        Phase::Spawning => {
            lemma_spawn_piece(field_width(m.field), m.queue[0]);
        },
        Phase::Active => {
            if m.piece.fits_moved(m.field, 0, 1) {
                lemma_moved_cells(m.field, m.piece, 0, 1);
            }
        },
        Phase::Locking => {
            lemma_stamped(m.field, m.piece.cells_spec(), m.piece.kind.color());
        },
        Phase::RowClearPending => {
            lemma_clearing_full_rows(m.field);
            lemma_full_rows(m.field);
        },
        Phase::GameOver => {},
    }
}

/// What `update` reports: in the phase `Locking` that the piece has been
/// placed, with the full rows; in the phase `Spawning` that the game is over
/// where the new piece finds no room; nothing otherwise. It never reports a
/// refused command.
pub proof fn lemma_update_reports(m: GameModel)
    ensures
        !(after_update(m).1 is UserActionFailed),
        after_update(m).1 is TetrominoPlaced <==> m.phase is Locking,
        after_update(m).1 is GameOver <==> after_update(m).0.phase is GameOver,
        m.phase is Active || m.phase is RowClearPending ==> after_update(m).1 is NoUpdate,
{
}

/// The end of a game is final: once the game is over, every call reports so
/// and changes nothing.
pub proof fn lemma_game_over_is_final(m: GameModel, dx: int, dy: int, direction: Direction)
    requires
        m.phase is GameOver,
    ensures
        after_update(m) == (m, Event::GameOver),
        after_move(m, dx, dy) == (m, Event::GameOver),
        after_turn(m, direction) == (m, Event::GameOver),
        after_place(m) == (m, Event::GameOver),
        after_save(m) == (m, Event::GameOver),
{
}

/// Score and level never fall, and only the removal of full rows changes
/// them.
pub proof fn lemma_score_and_level_never_fall(m: GameModel, dx: int, dy: int, direction: Direction)
    requires
        valid_game(m),
    ensures
        after_update(m).0.score >= m.score,
        after_update(m).0.level >= m.level,
        !(m.phase is RowClearPending) ==> after_update(m).0.score == m.score && after_update(
            m,
        ).0.level == m.level,
        after_move(m, dx, dy).0.score == m.score && after_move(m, dx, dy).0.level == m.level,
        after_turn(m, direction).0.score == m.score && after_turn(m, direction).0.level == m.level,
        after_place(m).0.score == m.score && after_place(m).0.level == m.level,
        after_save(m).0.score == m.score && after_save(m).0.level == m.level,
{
}

/// A command that is refused changes nothing, and a command never touches
/// the field, the score or the rows awaiting removal: only `update` does.
pub proof fn lemma_commands_leave_field(m: GameModel, dx: int, dy: int, direction: Direction)
    ensures
        !(after_move(m, dx, dy).1 is NoUpdate) ==> after_move(m, dx, dy).0 == m,
        !(after_turn(m, direction).1 is NoUpdate) ==> after_turn(m, direction).0 == m,
        !(after_place(m).1 is NoUpdate) ==> after_place(m).0 == m,
        !(after_save(m).1 is NoUpdate) ==> after_save(m).0 == m,
        after_move(m, dx, dy).0.field == m.field && after_move(m, dx, dy).0.pending == m.pending,
        after_turn(m, direction).0.field == m.field && after_turn(m, direction).0.pending
            == m.pending,
        after_place(m).0.field == m.field && after_place(m).0.pending == m.pending,
        after_save(m).0.field == m.field && after_save(m).0.pending == m.pending,
{
}

/// When a piece is turned into blocks, the rows reported are exactly the
/// full rows of the field, and they still stand in the field: nothing is
/// removed in the same step.
pub proof fn lemma_reported_rows_still_stand(m: GameModel)
    requires
        valid_game(m),
        m.phase is Locking,
    ensures
        after_update(m).1 == Event::TetrominoPlaced(after_update(m).0.pending),
        after_update(m).0.pending == full_rows(after_update(m).0.field),
        after_update(m).0.field.len() == m.field.len(),
        forall|i: int|
            0 <= i < after_update(m).0.pending.len() ==> row_full(
                after_update(m).0.field[#[trigger] after_update(m).0.pending[i]],
            ),
        after_update(m).0.phase is RowClearPending <==> after_update(m).0.pending.len() > 0,
        after_update(m).0.phase is Spawning <==> after_update(m).0.pending.len() == 0,
{
    let n = after_update(m).0;
    lemma_stamped(m.field, m.piece.cells_spec(), m.piece.kind.color());
    lemma_full_rows(n.field);
    assert forall|i: int| 0 <= i < n.pending.len() implies row_full(
        n.field[#[trigger] n.pending[i]],
    ) by {
        assert(n.pending.contains(n.pending[i]));
    }
}

/// The update that follows a report of full rows removes every reported row
/// and nothing else. The field keeps its height and width. The rows that
/// were not reported keep their order and stand at the bottom, below one new
/// empty row for each reported row. No full row is left, and this is also
/// what clearing the reported rows one after the other, top to bottom, gives.
pub proof fn lemma_update_removes_reported_rows(m: GameModel)
    requires
        valid_game(m),
        m.phase is RowClearPending,
    ensures
        after_update(m).1 == Event::NoUpdate,
        after_update(m).0.phase is Spawning,
        after_update(m).0.field == blank_rows(m.pending.len() as int, field_width(m.field))
            + kept_rows(m.field, m.pending),
        after_update(m).0.field == without_rows_in_turn(m.field, m.pending),
        after_update(m).0.field.len() == m.field.len(),
        field_width(after_update(m).0.field) == field_width(m.field),
        kept_rows(m.field, m.pending).len() == m.field.len() - m.pending.len(),
        full_rows(after_update(m).0.field).len() == 0,
        forall|i: int|
            0 <= i < m.field.len() && !m.pending.contains(i) ==> after_update(
                m,
            ).0.field[#[trigger] place_after(m.pending, i, m.field.len() as int)] == m.field[i],
        forall|j: int|
            0 <= j < m.pending.len() ==> #[trigger] after_update(m).0.field[j] == blank_row(
                field_width(m.field),
            ),
        after_update(m).0.pending.len() == 0,
        after_update(m).0.score == score_after(m.score, m.pending.len() as int, m.level),
        after_update(m).0.score >= m.score,
{
    lemma_clearing_full_rows(m.field);
    lemma_full_rows(m.field);
    lemma_clearing_compacts(m.field, m.pending);
    lemma_compacted_rows(m.field, m.pending);
}

/// Four quarter turns in one direction, each of them carried out, leave the
/// game as it was: the piece is back on the cells it stood on.
pub proof fn lemma_four_turns_restore(m: GameModel, direction: Direction)
    ensures
        ({
            let first = after_turn(m, direction);
            let second = after_turn(first.0, direction);
            let third = after_turn(second.0, direction);
            let fourth = after_turn(third.0, direction);
            first.1 is NoUpdate && second.1 is NoUpdate && third.1 is NoUpdate
                && fourth.1 is NoUpdate ==> fourth.0 == m && fourth.0.piece.cells_spec()
                == m.piece.cells_spec()
        }),
{
    lemma_four_rotations(m.piece, direction);
}

/// Setting a kind aside twice in a row fails the second time: the second
/// call changes nothing and is reported as refused.
pub proof fn lemma_save_twice(m: GameModel)
    ensures
        after_save(after_save(m).0).0 == after_save(m).0,
        after_save(after_save(m).0).1 == refusal(after_save(m).0),
        !(after_save(after_save(m).0).1 is NoUpdate),
{
}

/// Once a kind has been set aside, no command and no update makes `save`
/// possible again but the update that turns the piece into blocks.
pub proof fn lemma_save_needs_lock(m: GameModel, dx: int, dy: int, direction: Direction)
    requires
        m.hold_used,
    ensures
        after_save(m) == (m, refusal(m)),
        after_move(m, dx, dy).0.hold_used,
        after_turn(m, direction).0.hold_used,
        after_place(m).0.hold_used,
        !(m.phase is Locking) ==> after_update(m).0.hold_used,
        m.phase is Locking ==> !after_update(m).0.hold_used,
{
}

/// A piece that finds its spawn cells taken ends the game at once: the
/// update reports the end, and the piece is never reported as placed.
pub proof fn lemma_blocked_spawn_ends_game(m: GameModel)
    requires
        m.phase is Spawning,
        !fits(m.field, spawn_piece(field_width(m.field), m.queue[0]).cells_spec()),
    ensures
        after_update(m).1 == Event::GameOver,
        after_update(m).0.phase is GameOver,
        after_update(m).0.field == m.field,
        after_update(after_update(m).0) == (after_update(m).0, Event::GameOver),
{
}

/// What a game offers to whoever drives and draws it: the state to read, the
/// player's commands, and `update`, which advances the game by one step.
///
/// Every command and `update` report what they did. A command that cannot be
/// carried out reports `UserActionFailed` and changes nothing; once the game
/// is over every call reports `GameOver` and changes nothing.
pub trait TetrisGame {
    /// The mathematical state of the game.
    spec fn model(&self) -> GameModel;

    /// The invariant of the game.
    spec fn valid(&self) -> bool;

    /// The rows of the playfield, row 0 on top.
    fn get_play_field(&self) -> (r: &Vec<Vec<Block>>)
        requires
            self.valid(),
        ensures
            field_of(r@) == self.model().field,
    ;

    /// The number of columns of the playfield.
    fn get_length(&self) -> (r: &u8)
        requires
            self.valid(),
        ensures
            *r == field_width(self.model().field),
    ;

    /// The number of rows of the playfield.
    fn get_height(&self) -> (r: &u8)
        requires
            self.valid(),
        ensures
            *r == self.model().field.len(),
    ;

    fn get_score(&self) -> (r: &u64)
        requires
            self.valid(),
        ensures
            *r == self.model().score,
    ;

    fn get_level(&self) -> (r: &u16)
        requires
            self.valid(),
        ensures
            *r == self.model().level,
    ;

    fn is_game_over(&self) -> (r: &bool)
        requires
            self.valid(),
        ensures
            *r == (self.model().phase is GameOver),
    ;

    /// The four cells of the piece that appeared last. It is in play in the
    /// phases `Active` and `Locking`.
    fn get_active_tetromino(&self) -> (r: &[Coordinate; 4])
        requires
            self.valid(),
        ensures
            points(r@) == self.model().piece.cells_spec(),
    ;

    /// The kind that the player has set aside.
    fn get_saved_tetromino(&self) -> (r: &Option<Tetromino>)
        requires
            self.valid(),
        ensures
            *r == self.model().held,
    ;

    /// The three kinds that come next, the very next one first.
    fn get_next_tetrominoes(&self) -> (r: &[Tetromino; 3])
        requires
            self.valid(),
        ensures
            r@ == self.model().queue,
    ;

    /// Advances the game by one step.
    fn update(&mut self) -> (r: GameUpdate<'_>)
        requires
            old(self).valid(),
        ensures
            final(self).valid(),
            final(self).model() == after_update(old(self).model()).0,
            r@ == after_update(old(self).model()).1,
    ;

    /// Moves the piece one column to the left.
    fn move_left(&mut self) -> (r: GameUpdate<'static>)
        requires
            old(self).valid(),
        ensures
            final(self).valid(),
            final(self).model() == after_move(old(self).model(), -1, 0).0,
            r@ == after_move(old(self).model(), -1, 0).1,
    ;

    /// Moves the piece one column to the right.
    fn move_right(&mut self) -> (r: GameUpdate<'static>)
        requires
            old(self).valid(),
        ensures
            final(self).valid(),
            final(self).model() == after_move(old(self).model(), 1, 0).0,
            r@ == after_move(old(self).model(), 1, 0).1,
    ;

    /// Moves the piece one row down.
    fn move_down(&mut self) -> (r: GameUpdate<'static>)
        requires
            old(self).valid(),
        ensures
            final(self).valid(),
            final(self).model() == after_move(old(self).model(), 0, 1).0,
            r@ == after_move(old(self).model(), 0, 1).1,
    ;

    /// Turns the piece by a quarter turn against the clock.
    fn rotate_left(&mut self) -> (r: GameUpdate<'static>)
        requires
            old(self).valid(),
        ensures
            final(self).valid(),
            final(self).model() == after_turn(old(self).model(), Direction::AntiClockwise).0,
            r@ == after_turn(old(self).model(), Direction::AntiClockwise).1,
    ;

    /// Turns the piece by a quarter turn clockwise.
    fn rotate_right(&mut self) -> (r: GameUpdate<'static>)
        requires
            old(self).valid(),
        ensures
            final(self).valid(),
            final(self).model() == after_turn(old(self).model(), Direction::Clockwise).0,
            r@ == after_turn(old(self).model(), Direction::Clockwise).1,
    ;

    /// Drops the piece as far as it goes. The next update turns it into
    /// blocks.
    fn place(&mut self) -> (r: GameUpdate<'static>)
        requires
            old(self).valid(),
        ensures
            final(self).valid(),
            final(self).model() == after_place(old(self).model()).0,
            r@ == after_place(old(self).model()).1,
    ;

    /// Sets the kind of the piece aside and brings the kind set aside before
    /// into play, or the next kind of the queue where none was.
    fn save(&mut self) -> (r: GameUpdate<'static>)
        requires
            old(self).valid(),
        ensures
            final(self).valid(),
            final(self).model() == after_save(old(self).model()).0,
            r@ == after_save(old(self).model()).1,
    ;
}

/// What draws a game. It is handed the game to read and the report of the
/// latest call.
pub trait Renderer {
    fn render_game<T: TetrisGame>(&self, game: &T, update: GameUpdate<'_>)
        requires
            game.valid(),
    ;
}

/// A game.
pub struct Game {
    grid: Grid,
    phase: Phase,
    piece: Piece,
    cells: [Coordinate; 4],
    held: Option<Tetromino>,
    hold_used: bool,
    next: [Tetromino; 3],
    sequence: PieceSequence,
    pending: Vec<u8>,
    score: u64,
    level: u16,
    lines: u64,
    game_over: bool,
}

/// The anchor at which a piece of the given kind appears on a field of the
/// given width.
fn spawn_anchor(width: u8, kind: Tetromino) -> (anchor: Coordinate)
    requires
        1 <= width <= MAX_DIMENSION,
    ensures
        anchor == spawn_piece(width as int, kind).anchor,
{
    let length: u8 = kind.get_length();
    let x: u8 = if width >= length {
        (width - length) / 2
    } else {
        0
    };
    Coordinate { x: x as i8, y: 0 }
}

impl Game {
    /// What the stored data has to satisfy beyond the invariant of the
    /// model.
    pub closed spec fn consistent(&self) -> bool {
        &&& self.grid.wf()
        &&& self.sequence.wf()
        &&& points(self.cells@) == self.piece.cells_spec()
        &&& self.game_over == (self.phase is GameOver)
    }

    /// A new game on an empty field of the given dimensions, if each is
    /// between 1 and `MAX_DIMENSION`. The pieces come in the order of
    /// `sequence`.
    pub fn new(width: u8, height: u8, sequence: PieceSequence) -> (g: Option<Game>)
        requires
            sequence.wf(),
        ensures
            g is Some <==> 1 <= width <= MAX_DIMENSION && 1 <= height <= MAX_DIMENSION,
            g matches Some(game) ==> game.valid() && game.model() == initial_game(
                blank_rows(height as int, width as int),
                sequence.script(),
                sequence.cursor(),
            ),
    {
        match Grid::new(width, height) {
            Some(grid) => Some(Game::with_grid(grid, sequence)),
            None => None,
        }
    }

    /// A new game on a field that may hold blocks already. The pieces come
    /// in the order of `sequence`.
    pub fn with_grid(grid: Grid, sequence: PieceSequence) -> (game: Game)
        requires
            grid.wf(),
            sequence.wf(),
        ensures
            game.valid(),
            game.model() == initial_game(grid@, sequence.script(), sequence.cursor()),
    {
        let mut source = sequence;
        let first = source.next_piece();
        let second = source.next_piece();
        let third = source.next_piece();
        let width: u8 = *grid.width();
        let piece = Piece {
            kind: first,
            rotation: Rotation::NotRotated,
            anchor: spawn_anchor(width, first),
        };
        proof {
            lemma_spawn_piece(width as int, first);
        }
        let cells = piece.cells().unwrap();
        let game = Game {
            grid,
            phase: Phase::Spawning,
            piece,
            cells,
            held: None,
            hold_used: false,
            next: [first, second, third],
            sequence: source,
            pending: Vec::new(),
            score: 0,
            level: 0,
            lines: 0,
            game_over: false,
        };
        assert(game.model() =~~= initial_game(grid@, sequence.script(), sequence.cursor()));
        game
    }

    /// The phase that the game is in.
    pub fn phase(&self) -> (p: Phase)
        ensures
            p == self.model().phase,
    {
        self.phase
    }

    /// The piece that appeared last.
    pub fn piece(&self) -> (p: Piece)
        ensures
            p == self.model().piece,
    {
        self.piece
    }

    /// The rows that have been reported as full and not been removed yet.
    pub fn pending_rows(&self) -> (rows: &Vec<u8>)
        ensures
            indices(rows@) == self.model().pending,
    {
        &self.pending
    }

    /// The number of rows cleared so far.
    pub fn lines_cleared(&self) -> (n: u64)
        ensures
            n == self.model().lines,
    {
        self.lines
    }

    /// Brings `piece` into play in place of the piece that was.
    fn put(&mut self, piece: Piece)
        requires
            old(self).valid(),
            old(self).phase is Active,
            fits(old(self).grid@, piece.cells_spec()),
        ensures
            final(self).valid(),
            final(self).model() == (GameModel { piece, ..old(self).model() }),
    {
        proof {
            lemma_fitting_cells(self.grid@, piece);
        }
        self.piece = piece;
        self.cells = piece.cells().unwrap();
    }

    /// Moves the first kind of the queue out and refills the queue.
    fn draw(&mut self) -> (kind: Tetromino)
        requires
            old(self).sequence.wf(),
            old(self).valid(),
        ensures
            kind == old(self).model().queue[0],
            final(self).model() == (GameModel {
                queue: refilled(old(self).model()),
                cursor: next_cursor(old(self).model().script, old(self).model().cursor),
                ..old(self).model()
            }),
            final(self).sequence.wf(),
            final(self).grid == old(self).grid,
            final(self).cells == old(self).cells,
            final(self).game_over == old(self).game_over,
    {
        let kind = self.next[0];
        let refill = self.sequence.next_piece();
        self.next = [self.next[1], self.next[2], refill];
        assert(self.model() =~~= (GameModel {
            queue: refilled(old(self).model()),
            cursor: next_cursor(old(self).model().script, old(self).model().cursor),
            ..old(self).model()
        }));
        kind
    }

    fn spawn(&mut self) -> (r: GameUpdate<'static>)
        requires
            old(self).valid(),
            old(self).phase is Spawning,
        ensures
            final(self).valid(),
            final(self).model() == after_spawn(old(self).model()).0,
            r@ == after_spawn(old(self).model()).1,
    {
        proof {
            lemma_steps_keep_valid(self.model(), 0, 0, Direction::Clockwise);
        }
        let width: u8 = *self.grid.width();
        let kind = self.draw();
        let piece = Piece::new(kind, Rotation::NotRotated, spawn_anchor(width, kind));
        proof {
            lemma_spawn_piece(width as int, kind);
        }
        self.piece = piece;
        self.cells = piece.cells().unwrap();
        if piece.can_place(&self.grid) {
            self.phase = Phase::Active;
            assert(self.model() =~~= after_spawn(old(self).model()).0);
            GameUpdate::NoUpdate
        } else {
            self.phase = Phase::GameOver;
            self.game_over = true;
            assert(self.model() =~~= after_spawn(old(self).model()).0);
            GameUpdate::GameOver
        }
    }

    fn fall(&mut self) -> (r: GameUpdate<'static>)
        requires
            old(self).valid(),
            old(self).phase is Active,
        ensures
            final(self).valid(),
            final(self).model() == after_fall(old(self).model()).0,
            r@ == after_fall(old(self).model()).1,
    {
        proof {
            lemma_steps_keep_valid(self.model(), 0, 0, Direction::Clockwise);
        }
        match self.piece.try_move(&self.grid, 0, 1) {
            Some(piece) => {
                proof {
                    lemma_moved_cells(self.grid@, self.piece, 0, 1);
                }
                self.put(piece);
            },
            None => {
                self.phase = Phase::Locking;
            },
        }
        assert(self.model() =~~= after_fall(old(self).model()).0);
        GameUpdate::NoUpdate
    }

    fn lock(&mut self) -> (r: GameUpdate<'_>)
        requires
            old(self).valid(),
            old(self).phase is Locking,
        ensures
            final(self).valid(),
            final(self).model() == after_lock(old(self).model()).0,
            r@ == after_lock(old(self).model()).1,
    {
        proof {
            lemma_steps_keep_valid(self.model(), 0, 0, Direction::Clockwise);
        }
        self.grid.stamp(&self.cells, self.piece.kind.get_block_type());
        self.pending = self.grid.find_full_rows();
        self.hold_used = false;
        if self.pending.len() > 0 {
            self.phase = Phase::RowClearPending;
        } else {
            self.phase = Phase::Spawning;
        }
        assert(self.model() =~~= after_lock(old(self).model()).0);
        GameUpdate::TetrominoPlaced(self.pending.as_slice())
    }

    fn clear(&mut self) -> (r: GameUpdate<'static>)
        requires
            old(self).valid(),
            old(self).phase is RowClearPending,
        ensures
            final(self).valid(),
            final(self).model() == after_clear(old(self).model()).0,
            r@ == after_clear(old(self).model()).1,
    {
        proof {
            lemma_steps_keep_valid(self.model(), 0, 0, Direction::Clockwise);
            lemma_clearing_full_rows(self.grid@);
        }
        self.grid.clear_rows(&self.pending);
        self.score = add_points(self.score, self.pending.len(), self.level);
        self.lines = add_lines(self.lines, self.pending.len());
        self.level = level_of(self.lines);
        self.pending = Vec::new();
        self.phase = Phase::Spawning;
        assert(self.model() =~~= after_clear(old(self).model()).0);
        GameUpdate::NoUpdate
    }

    /// What a refused command reports.
    fn refuse(&self) -> (r: GameUpdate<'static>)
        requires
            self.valid(),
        ensures
            r@ == refusal(self.model()),
    {
        if self.game_over {
            GameUpdate::GameOver
        } else {
            GameUpdate::UserActionFailed
        }
    }

    fn shift(&mut self, dx: i8, dy: i8) -> (r: GameUpdate<'static>)
        requires
            old(self).valid(),
        ensures
            final(self).valid(),
            final(self).model() == after_move(old(self).model(), dx as int, dy as int).0,
            r@ == after_move(old(self).model(), dx as int, dy as int).1,
    {
        if self.phase == Phase::Active {
            match self.piece.try_move(&self.grid, dx, dy) {
                Some(piece) => {
                    proof {
                        lemma_moved_cells(self.grid@, self.piece, dx as int, dy as int);
                    }
                    self.put(piece);
                    return GameUpdate::NoUpdate;
                },
                None => {},
            }
        }
        self.refuse()
    }

    fn turn(&mut self, direction: Direction) -> (r: GameUpdate<'static>)
        requires
            old(self).valid(),
        ensures
            final(self).valid(),
            final(self).model() == after_turn(old(self).model(), direction).0,
            r@ == after_turn(old(self).model(), direction).1,
    {
        if self.phase == Phase::Active {
            match self.piece.try_rotate(&self.grid, direction) {
                Some(piece) => {
                    self.put(piece);
                    return GameUpdate::NoUpdate;
                },
                None => {},
            }
        }
        self.refuse()
    }
}

impl TetrisGame for Game {
    closed spec fn model(&self) -> GameModel {
        GameModel {
            field: self.grid@,
            phase: self.phase,
            piece: self.piece,
            held: self.held,
            hold_used: self.hold_used,
            queue: self.next@,
            script: self.sequence.script(),
            cursor: self.sequence.cursor(),
            pending: indices(self.pending@),
            score: self.score as int,
            level: self.level as int,
            lines: self.lines as int,
        }
    }

    open spec fn valid(&self) -> bool {
        valid_game(self.model()) && self.consistent()
    }

    fn get_play_field(&self) -> (r: &Vec<Vec<Block>>) {
        self.grid.rows()
    }

    fn get_length(&self) -> (r: &u8) {
        self.grid.width()
    }

    fn get_height(&self) -> (r: &u8) {
        self.grid.height()
    }

    fn get_score(&self) -> (r: &u64) {
        &self.score
    }

    fn get_level(&self) -> (r: &u16) {
        &self.level
    }

    fn is_game_over(&self) -> (r: &bool) {
        &self.game_over
    }

    fn get_active_tetromino(&self) -> (r: &[Coordinate; 4]) {
        &self.cells
    }

    fn get_saved_tetromino(&self) -> (r: &Option<Tetromino>) {
        &self.held
    }

    fn get_next_tetrominoes(&self) -> (r: &[Tetromino; 3]) {
        &self.next
    }

    fn update(&mut self) -> (r: GameUpdate<'_>) {
        match self.phase {
            Phase::Spawning => self.spawn(),
            Phase::Active => self.fall(),
            Phase::Locking => self.lock(),
            Phase::RowClearPending => self.clear(),
            Phase::GameOver => GameUpdate::GameOver,
        }
    }

    fn move_left(&mut self) -> (r: GameUpdate<'static>) {
        self.shift(-1, 0)
    }

    fn move_right(&mut self) -> (r: GameUpdate<'static>) {
        self.shift(1, 0)
    }

    fn move_down(&mut self) -> (r: GameUpdate<'static>) {
        self.shift(0, 1)
    }

    fn rotate_left(&mut self) -> (r: GameUpdate<'static>) {
        self.turn(Direction::AntiClockwise)
    }

    fn rotate_right(&mut self) -> (r: GameUpdate<'static>) {
        self.turn(Direction::Clockwise)
    }

    fn place(&mut self) -> (r: GameUpdate<'static>) {
        if self.phase == Phase::Active {
            proof {
                lemma_landed_fits(self.grid@, self.piece);
            }
            let piece = self.piece.hard_drop(&self.grid);
            self.put(piece);
            self.phase = Phase::Locking;
            assert(self.model() =~~= after_place(old(self).model()).0);
            GameUpdate::NoUpdate
        } else {
            self.refuse()
        }
    }

    fn save(&mut self) -> (r: GameUpdate<'static>) {
        if self.phase != Phase::Active || self.hold_used {
            return self.refuse();
        }
        proof {
            lemma_steps_keep_valid(self.model(), 0, 0, Direction::Clockwise);
        }
        let kind = self.piece.kind;
        match self.held {
            Some(held) => {
                let piece = Piece::new(held, Rotation::NotRotated, self.piece.anchor);
                if !piece.can_place(&self.grid) {
                    return self.refuse();
                }
                self.put(piece);
            },
            None => {
                let width: u8 = *self.grid.width();
                let next = self.next[0];
                let piece = Piece::new(next, Rotation::NotRotated, spawn_anchor(width, next));
                if !piece.can_place(&self.grid) {
                    return self.refuse();
                }
                self.draw();
                self.put(piece);
            },
        }
        self.held = Some(kind);
        self.hold_used = true;
        assert(self.model() =~~= after_save(old(self).model()).0);
        GameUpdate::NoUpdate
    }
}

} // verus!
