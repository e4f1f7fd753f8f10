//! Points and levels.
//!
//! Clearing one, two, three or four rows at once is worth 100, 300, 500 or
//! 800 points, times one more than the level at which they are cleared. The
//! level is the number of rows cleared so far, divided by ten. Score, rows
//! and level stop at the largest number their type holds.

use vstd::prelude::*;

verus! {

/// The number of cleared rows that raises the level by one.
pub const ROWS_PER_LEVEL: u64 = 10;

/// The points for clearing `rows` rows at once on level 0.
pub open spec fn row_points(rows: int) -> int {
    if rows <= 0 {
        0
    } else if rows == 1 {
        100
    } else if rows == 2 {
        300
    } else if rows == 3 {
        500
    } else {
        800
    }
}

/// `v`, or the largest `u64` where `v` is larger.
pub open spec fn capped(v: int) -> int {
    if v > u64::MAX {
        u64::MAX as int
    } else {
        v
    }
}

/// The score after `rows` rows are cleared at once on level `level`.
pub open spec fn score_after(score: int, rows: int, level: int) -> int {
    capped(score + row_points(rows) * (level + 1))
}

/// The number of rows cleared so far, after `rows` more.
pub open spec fn lines_after(lines: int, rows: int) -> int {
    capped(lines + rows)
}

/// The level that goes with a number of cleared rows.
pub open spec fn level_for(lines: int) -> int {
    if lines / (ROWS_PER_LEVEL as int) > u16::MAX {
        u16::MAX as int
    } else {
        lines / (ROWS_PER_LEVEL as int)
    }
}

/// The score after `rows` rows are cleared at once on level `level`.
pub fn add_points(score: u64, rows: usize, level: u16) -> (r: u64)
    ensures
        r == score_after(score as int, rows as int, level as int),
        r >= score,
{
    let base: u64 = if rows == 0 {
        0
    } else if rows == 1 {
        100
    } else if rows == 2 {
        300
    } else if rows == 3 {
        500
    } else {
        800
    };
    let factor: u64 = level as u64 + 1;
    assert(base * factor <= 800 * 65536) by (nonlinear_arith)
        requires
            base <= 800,
            factor <= 65536,
    ;
    score.saturating_add(base * factor)
}

/// The number of rows cleared so far, after `rows` more.
pub fn add_lines(lines: u64, rows: usize) -> (r: u64)
    ensures
        r == lines_after(lines as int, rows as int),
        r >= lines,
{
    lines.saturating_add(rows as u64)
}

/// The level that goes with a number of cleared rows.
pub fn level_of(lines: u64) -> (r: u16)
    ensures
        r == level_for(lines as int),
{
    let steps: u64 = lines / ROWS_PER_LEVEL;
    if steps > 65535 {
        65535
    } else {
        steps as u16
    }
}

/// More cleared rows never mean a lower level.
pub proof fn lemma_level_monotone(fewer: int, more: int)
    requires
        0 <= fewer <= more,
    ensures
        level_for(fewer) <= level_for(more),
{
}

} // verus!
