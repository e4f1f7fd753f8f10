//! The order in which piece kinds come into play.
//!
//! The order is a script, a list of kinds that whoever sets the game up
//! chooses, played over and over. The same script gives the same game.

use super::geometry::Tetromino;
use vstd::prelude::*;

verus! {

/// The place in a script after the place `cursor`: one further, and from the
/// end back to the start.
pub open spec fn next_cursor(script: Seq<Tetromino>, cursor: int) -> int {
    if cursor + 1 >= script.len() {
        0
    } else {
        cursor + 1
    }
}

/// A script of piece kinds and the place of the kind that is drawn next.
pub struct PieceSequence {
    script: Vec<Tetromino>,
    cursor: usize,
}

impl PieceSequence {
    /// The kinds of the script, in order.
    pub closed spec fn script(&self) -> Seq<Tetromino> {
        self.script@
    }

    /// The place in the script of the kind that is drawn next.
    pub closed spec fn cursor(&self) -> int {
        self.cursor as int
    }

    /// The invariant: the cursor names a place in the script.
    pub open spec fn wf(&self) -> bool {
        0 <= self.cursor() < self.script().len()
    }

    /// The sequence that plays `script` from its start, if the script names
    /// any kind at all.
    pub fn new(script: Vec<Tetromino>) -> (r: Option<PieceSequence>)
        ensures
            r is Some <==> script@.len() > 0,
            r matches Some(s) ==> s.wf() && s.script() == script@ && s.cursor() == 0,
    {
        if script.len() == 0 {
            None
        } else {
            Some(PieceSequence { script, cursor: 0 })
        }
    }

    /// The sequence that plays the seven kinds in the order I, J, L, O, S, T,
    /// Z.
    pub fn standard() -> (s: PieceSequence)
        ensures
            s.wf(),
            s.cursor() == 0,
            s.script() == seq![
                Tetromino::IBlock,
                Tetromino::JBlock,
                Tetromino::LBlock,
                Tetromino::OBlock,
                Tetromino::SBlock,
                Tetromino::TBlock,
                Tetromino::ZBlock,
            ],
    {
        let mut script: Vec<Tetromino> = Vec::new();
        script.push(Tetromino::IBlock);
        script.push(Tetromino::JBlock);
        script.push(Tetromino::LBlock);
        script.push(Tetromino::OBlock);
        script.push(Tetromino::SBlock);
        script.push(Tetromino::TBlock);
        script.push(Tetromino::ZBlock);
        let s = PieceSequence { script, cursor: 0 };
        assert(s.script() =~= seq![
            Tetromino::IBlock,
            Tetromino::JBlock,
            Tetromino::LBlock,
            Tetromino::OBlock,
            Tetromino::SBlock,
            Tetromino::TBlock,
            Tetromino::ZBlock,
        ]);
        s
    }

    /// The kind that the next draw gives.
    pub fn peek(&self) -> (kind: Tetromino)
        requires
            self.wf(),
        ensures
            kind == self.script()[self.cursor()],
    {
        self.script[self.cursor]
    }

    /// Draws the next kind and moves on by one place.
    pub fn next_piece(&mut self) -> (kind: Tetromino)
        requires
            old(self).wf(),
        ensures
            final(self).wf(),
            kind == old(self).script()[old(self).cursor()],
            final(self).script() == old(self).script(),
            final(self).cursor() == next_cursor(old(self).script(), old(self).cursor()),
    {
        let kind = self.script[self.cursor];
        let length: usize = self.script.len();
        if self.cursor >= length - 1 {
            self.cursor = 0;
        } else {
            self.cursor = self.cursor + 1;
        }
        kind
    }
}

} // verus!
