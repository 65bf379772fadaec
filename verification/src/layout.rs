//! The meaning of a textual layout: which board, hunter spawn and chaser
//! spawns a sequence of text rows denotes, and when a layout is malformed.
//!
//! `'#'` is a wall, `'.'` a pellet, `'P'` the hunter spawn, `'G'` a chaser
//! spawn; every other character is empty floor. A valid layout is a
//! non-empty rectangle with exactly one hunter spawn.

use vstd::prelude::*;

use crate::chase::Chaser;
use crate::grid::{zero_dir, Position, Thing};

verus! {

/// A malformed layout, reported at construction time.
#[derive(Clone, Copy, PartialEq, Eq, Structural, Debug)]
pub enum LayoutError {
    /// No rows, or a first row without any cell.
    Empty,
    /// Some row differs in width from the first row.
    NonRectangular,
    /// No hunter spawn marker anywhere.
    NoHunter,
    /// More than one hunter spawn marker.
    MultipleHunters,
}

/// The rows of a layout as sequences of characters.
pub open spec fn rows_view(ascii: Seq<&str>) -> Seq<Seq<char>> {
    ascii.map_values(|s: &str| s@)
}

/// The cell kind a layout character denotes.
pub open spec fn thing_of_char(c: char) -> Thing {
    if c == '#' {
        Thing::Wall
    } else if c == '.' {
        Thing::Pellet
    } else {
        Thing::Empty
    }
}

pub open spec fn parsed_row(row: Seq<char>) -> Seq<Thing> {
    row.map_values(|c: char| thing_of_char(c))
}

pub open spec fn parsed_map(rows: Seq<Seq<char>>) -> Seq<Seq<Thing>> {
    rows.map_values(|r: Seq<char>| parsed_row(r))
}

/// How many hunter spawn markers a row holds.
pub open spec fn row_hunters(row: Seq<char>) -> nat
    decreases row.len(),
{
    if row.len() == 0 {
        0
    } else {
        row_hunters(row.drop_last()) + (if row.last() == 'P' {
            1nat
        } else {
            0nat
        })
    }
}

/// How many hunter spawn markers the whole layout holds.
pub open spec fn hunter_count(rows: Seq<Seq<char>>) -> nat
    decreases rows.len(),
{
    if rows.len() == 0 {
        0
    } else {
        hunter_count(rows.drop_last()) + row_hunters(rows.last())
    }
}

/// The position of the last hunter spawn marker in a row (scanning left to
/// right), or `dflt` if the row has none.
pub open spec fn row_last_hunter(row: Seq<char>, y: int, dflt: Position) -> Position
    decreases row.len(),
{
    if row.len() == 0 {
        dflt
    } else if row.last() == 'P' {
        Position { x: (row.len() - 1) as i32, y: y as i32 }
    } else {
        row_last_hunter(row.drop_last(), y, dflt)
    }
}

/// The position of the last hunter spawn marker in the layout (row-major
/// scan order), or `dflt` if the layout has none. With exactly one marker
/// this is simply that marker's position.
pub open spec fn last_hunter(rows: Seq<Seq<char>>, dflt: Position) -> Position
    decreases rows.len(),
{
    if rows.len() == 0 {
        dflt
    } else {
        row_last_hunter(rows.last(), rows.len() - 1, last_hunter(rows.drop_last(), dflt))
    }
}

/// A row without hunter markers leaves the default untouched.
proof fn lemma_row_last_hunter_default(row: Seq<char>, y: int, dflt: Position)
    requires
        row_hunters(row) == 0,
    ensures
        row_last_hunter(row, y, dflt) == dflt,
    decreases row.len(),
{
    if row.len() > 0 {
        lemma_row_last_hunter_default(row.drop_last(), y, dflt);
    }
}

/// A row with a hunter marker yields one of its markers' positions.
proof fn lemma_row_last_hunter_marks(row: Seq<char>, y: int, dflt: Position)
    requires
        row_hunters(row) >= 1,
        0 <= y <= 0x7fff_ffff,
        row.len() <= 0x8000_0000,
    ensures
        ({
            let p = row_last_hunter(row, y, dflt);
            &&& p.y == y
            &&& 0 <= p.x < row.len()
            &&& row[p.x as int] == 'P'
        }),
    decreases row.len(),
{
    if row.last() != 'P' {
        lemma_row_last_hunter_marks(row.drop_last(), y, dflt);
        let p = row_last_hunter(row.drop_last(), y, dflt);
        assert(row.drop_last()[p.x as int] == row[p.x as int]);
    }
}

/// With at least one hunter marker in the layout, `last_hunter` names a
/// marker: an in-range position whose character is `'P'`.
pub proof fn lemma_last_hunter_marks(rows: Seq<Seq<char>>, dflt: Position)
    requires
        hunter_count(rows) >= 1,
        rows.len() <= 0x8000_0000,
        forall|i: int| 0 <= i < rows.len() ==> (#[trigger] rows[i]).len() <= 0x8000_0000,
    ensures
        ({
            let p = last_hunter(rows, dflt);
            &&& 0 <= p.y < rows.len()
            &&& 0 <= p.x < rows[p.y as int].len()
            &&& rows[p.y as int][p.x as int] == 'P'
        }),
    decreases rows.len(),
{
    let lastrow = rows.last();
    let y = rows.len() - 1;
    let inner = last_hunter(rows.drop_last(), dflt);
    if row_hunters(lastrow) >= 1 {
        lemma_row_last_hunter_marks(lastrow, y, inner);
    } else {
        lemma_row_last_hunter_default(lastrow, y, inner);
        lemma_last_hunter_marks(rows.drop_last(), dflt);
        let p = inner;
        assert(rows.drop_last()[p.y as int] == rows[p.y as int]);
    }
}

/// The chasers a row spawns, left to right, each with the zero direction.
pub open spec fn row_spawns(row: Seq<char>, y: int) -> Seq<Chaser>
    decreases row.len(),
{
    if row.len() == 0 {
        Seq::empty()
    } else {
        row_spawns(row.drop_last(), y) + (if row.last() == 'G' {
            seq![
                Chaser {
                    pos: Position { x: (row.len() - 1) as i32, y: y as i32 },
                    dir: zero_dir(),
                },
            ]
        } else {
            Seq::empty()
        })
    }
}

/// The chasers the whole layout spawns, in row-major scan order.
pub open spec fn spawns(rows: Seq<Seq<char>>) -> Seq<Chaser>
    decreases rows.len(),
{
    if rows.len() == 0 {
        Seq::empty()
    } else {
        spawns(rows.drop_last()) + row_spawns(rows.last(), rows.len() - 1)
    }
}

/// Every row is as wide as the first.
pub open spec fn rectangular(rows: Seq<Seq<char>>) -> bool {
    forall|i: int| 0 <= i < rows.len() ==> (#[trigger] rows[i]).len() == rows[0].len()
}

/// A layout a session can be built from.
pub open spec fn layout_ok(rows: Seq<Seq<char>>) -> bool {
    &&& rows.len() > 0
    &&& rows[0].len() > 0
    &&& rectangular(rows)
    &&& hunter_count(rows) == 1
}

/// Which configuration error a malformed layout is reported with.
pub open spec fn layout_error(rows: Seq<Seq<char>>) -> LayoutError {
    if rows.len() == 0 || rows[0].len() == 0 {
        LayoutError::Empty
    } else if !rectangular(rows) {
        LayoutError::NonRectangular
    } else if hunter_count(rows) == 0 {
        LayoutError::NoHunter
    } else {
        LayoutError::MultipleHunters
    }
}

} // verus!
