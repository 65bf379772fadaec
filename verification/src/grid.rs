//! Board geometry: positions, direction deltas, cell kinds, and the
//! pellet-counting functions that back the score/pellet invariants.

use vstd::prelude::*;

verus! {

/// An integer pair, used both for cell coordinates and for direction deltas.
#[derive(Clone, Copy, PartialEq, Eq, Structural, Debug)]
pub struct Position {
    pub x: i32,
    pub y: i32,
}

/// The kind of a single board cell. A cell may go from `Pellet` to `Empty`
/// when the pellet is eaten, and never changes otherwise.
#[derive(Clone, Copy, PartialEq, Eq, Structural, Debug)]
pub enum Thing {
    Wall,
    Pellet,
    Empty,
}

/// The delta of an entity that is not moving.
pub open spec fn zero_dir() -> Position {
    Position { x: 0, y: 0 }
}

/// An orthogonal unit vector: exactly one component is `1` or `-1`.
pub open spec fn is_unit_dir(d: Position) -> bool {
    ||| d.x == 0 && (d.y == 1 || d.y == -1)
    ||| d.y == 0 && (d.x == 1 || d.x == -1)
}

/// A well-formed direction delta: the zero vector or an orthogonal unit vector.
pub open spec fn is_dir(d: Position) -> bool {
    d == zero_dir() || is_unit_dir(d)
}

/// The exact opposite of a direction delta.
pub open spec fn opposite_dir(d: Position) -> Position {
    Position { x: (-d.x) as i32, y: (-d.y) as i32 }
}

/// Componentwise vector addition (truncating; callers establish bounds).
pub open spec fn pos_add(p: Position, d: Position) -> Position {
    Position { x: (p.x + d.x) as i32, y: (p.y + d.y) as i32 }
}

/// Manhattan distance `|dx| + |dy|` between two coordinates.
pub open spec fn manhattan(a: Position, b: Position) -> int {
    vstd::math::abs(a.x - b.x) as int + vstd::math::abs(a.y - b.y) as int
}

/// Whether the (mathematical) coordinate `(x, y)` lies on a `width` by
/// `length` board.
pub open spec fn in_bounds_at(width: int, length: int, x: int, y: int) -> bool {
    0 <= x < width && 0 <= y < length
}

/// Shape of a valid board: rectangular, at least one cell, and small enough
/// that a Manhattan distance between two cells fits in `i32`.
pub open spec fn grid_shape(map: Seq<Seq<Thing>>, width: int, length: int) -> bool {
    &&& 1 <= width
    &&& 1 <= length
    &&& width + length <= 0x7fff_ffff
    &&& map.len() == length
    &&& forall|y: int| 0 <= y < length ==> (#[trigger] map[y]).len() == width
}

/// The kind of the cell at an in-bounds position.
pub open spec fn cell_at(map: Seq<Seq<Thing>>, p: Position) -> Thing {
    map[p.y as int][p.x as int]
}

/// Legality of one step: never legal for the zero vector; otherwise the
/// target cell must be in bounds and must not be a wall. This predicate is
/// the single source of truth for movement, for the hunter and every chaser.
pub open spec fn board_can_move(
    map: Seq<Seq<Thing>>,
    width: int,
    length: int,
    from: Position,
    dir: Position,
) -> bool {
    &&& !(dir.x == 0 && dir.y == 0)
    &&& in_bounds_at(width, length, from.x + dir.x, from.y + dir.y)
    &&& map[from.y + dir.y][from.x + dir.x] != Thing::Wall
}

/// The view of an executable board as a sequence of rows of cells.
pub open spec fn rows_of(map: Seq<Vec<Thing>>) -> Seq<Seq<Thing>> {
    map.map_values(|r: Vec<Thing>| r@)
}

/// How many pellets a single row holds.
pub open spec fn row_pellets(row: Seq<Thing>) -> nat
    decreases row.len(),
{
    if row.len() == 0 {
        0
    } else {
        row_pellets(row.drop_last()) + (if row.last() == Thing::Pellet {
            1nat
        } else {
            0nat
        })
    }
}

/// How many pellets the whole board holds.
pub open spec fn map_pellets(map: Seq<Seq<Thing>>) -> nat
    decreases map.len(),
{
    if map.len() == 0 {
        0
    } else {
        map_pellets(map.drop_last()) + row_pellets(map.last())
    }
}

pub proof fn lemma_row_pellets_push(row: Seq<Thing>, t: Thing)
    ensures
        row_pellets(row.push(t)) == row_pellets(row) + (if t == Thing::Pellet {
            1nat
        } else {
            0nat
        }),
{
    assert(row.push(t).drop_last() =~= row);
    assert(row.push(t).last() == t);
}

pub proof fn lemma_map_pellets_push(map: Seq<Seq<Thing>>, row: Seq<Thing>)
    ensures
        map_pellets(map.push(row)) == map_pellets(map) + row_pellets(row),
{
    assert(map.push(row).drop_last() =~= map);
    assert(map.push(row).last() == row);
}

/// Replacing one cell changes the row's pellet count by the difference
/// between the old and the new kind.
pub proof fn lemma_row_pellets_update(row: Seq<Thing>, i: int, t: Thing)
    requires
        0 <= i < row.len(),
    ensures
        row_pellets(row.update(i, t)) + (if row[i] == Thing::Pellet {
            1nat
        } else {
            0nat
        }) == row_pellets(row) + (if t == Thing::Pellet {
            1nat
        } else {
            0nat
        }),
    decreases row.len(),
{
    let r2 = row.update(i, t);
    if i == row.len() - 1 {
        assert(r2.drop_last() =~= row.drop_last());
        assert(r2.last() == t);
    } else {
        assert(r2.drop_last() =~= row.drop_last().update(i, t));
        assert(r2.last() == row.last());
        lemma_row_pellets_update(row.drop_last(), i, t);
        assert(row.drop_last()[i] == row[i]);
    }
}

/// Replacing one cell changes the board's pellet count by the difference
/// between the old and the new kind.
pub proof fn lemma_map_pellets_update(map: Seq<Seq<Thing>>, y: int, x: int, t: Thing)
    requires
        0 <= y < map.len(),
        0 <= x < map[y].len(),
    ensures
        map_pellets(map.update(y, map[y].update(x, t))) + (if map[y][x] == Thing::Pellet {
            1nat
        } else {
            0nat
        }) == map_pellets(map) + (if t == Thing::Pellet {
            1nat
        } else {
            0nat
        }),
    decreases map.len(),
{
    let m2 = map.update(y, map[y].update(x, t));
    if y == map.len() - 1 {
        assert(m2.drop_last() =~= map.drop_last());
        assert(m2.last() == map[y].update(x, t));
        lemma_row_pellets_update(map[y], x, t);
    } else {
        assert(m2.drop_last() =~= map.drop_last().update(y, map[y].update(x, t)));
        assert(m2.last() == map.last());
        assert(map.drop_last()[y] == map[y]);
        lemma_map_pellets_update(map.drop_last(), y, x, t);
    }
}

/// A row that holds a pellet cell counts at least one pellet.
pub proof fn lemma_row_pellets_pos(row: Seq<Thing>, i: int)
    requires
        0 <= i < row.len(),
        row[i] == Thing::Pellet,
    ensures
        row_pellets(row) >= 1,
    decreases row.len(),
{
    if i < row.len() - 1 {
        assert(row.drop_last()[i] == row[i]);
        lemma_row_pellets_pos(row.drop_last(), i);
    }
}

/// A board that holds a pellet cell counts at least one pellet.
pub proof fn lemma_map_pellets_pos(map: Seq<Seq<Thing>>, y: int, x: int)
    requires
        0 <= y < map.len(),
        0 <= x < map[y].len(),
        map[y][x] == Thing::Pellet,
    ensures
        map_pellets(map) >= 1,
    decreases map.len(),
{
    if y == map.len() - 1 {
        lemma_row_pellets_pos(map[y], x);
    } else {
        assert(map.drop_last()[y] == map[y]);
        lemma_map_pellets_pos(map.drop_last(), y, x);
    }
}

} // verus!
