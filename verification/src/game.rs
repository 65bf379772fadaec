//! The game session: board, entities and counters, and the tick-based
//! simulation step that drives them. `GameView` is the mathematical model
//! of a session; every executable method is specified against it.

use vstd::prelude::*;

use crate::chase::{
    best_dir, chase_options, chase_step, legal_dirs, lemma_best_dir_mem, lemma_chase_options_ok,
    lemma_chase_step_wf, lemma_legal_dirs_ok, without_reversal, Chaser,
};
use crate::grid::{
    board_can_move, cell_at, grid_shape, in_bounds_at, is_dir, is_unit_dir,
    lemma_map_pellets_pos, lemma_map_pellets_push, lemma_map_pellets_update,
    lemma_row_pellets_push, manhattan, map_pellets, opposite_dir, pos_add, row_pellets, rows_of,
    zero_dir, Position, Thing,
};
use crate::layout::{
    hunter_count, last_hunter, lemma_last_hunter_marks, layout_error, layout_ok, parsed_map, parsed_row, rectangular,
    row_hunters, row_last_hunter, row_spawns, rows_view, spawns, thing_of_char, LayoutError,
};
use vstd::string::StrSliceExecFns;

verus! {

/// One game session: the sole unit of mutation per tick.
pub struct Game {
    pacman_pos: Position,
    width: i32,
    length: i32,
    pacman_dir: Position,
    map: Vec<Vec<Thing>>,
    score: u32,
    pellets_left: u32,
    wanted_dir: Position,
    game_over: bool,
    tick_count: u64,
    ghosts: Vec<Chaser>,
}

/// The mathematical model of a session.
#[verifier::ext_equal]
pub struct GameView {
    pub map: Seq<Seq<Thing>>,
    pub width: i32,
    pub length: i32,
    pub pacman_pos: Position,
    pub pacman_dir: Position,
    pub wanted_dir: Position,
    pub score: u32,
    pub pellets_left: u32,
    pub game_over: bool,
    pub tick_count: u64,
    pub chasers: Seq<Chaser>,
}

impl View for Game {
    type V = GameView;

    closed spec fn view(&self) -> GameView {
        GameView {
            map: rows_of(self.map@),
            width: self.width,
            length: self.length,
            pacman_pos: self.pacman_pos,
            pacman_dir: self.pacman_dir,
            wanted_dir: self.wanted_dir,
            score: self.score,
            pellets_left: self.pellets_left,
            game_over: self.game_over,
            tick_count: self.tick_count,
            chasers: self.ghosts@,
        }
    }
}

impl GameView {
    /// The board is rectangular and of a workable size.
    pub open spec fn grid_ok(self) -> bool {
        grid_shape(self.map, self.width as int, self.length as int)
    }

    pub open spec fn in_bounds(self, p: Position) -> bool {
        in_bounds_at(self.width as int, self.length as int, p.x as int, p.y as int)
    }

    pub open spec fn cell(self, p: Position) -> Thing {
        cell_at(self.map, p)
    }

    pub open spec fn can_move(self, from: Position, dir: Position) -> bool {
        board_can_move(self.map, self.width as int, self.length as int, from, dir)
    }

    /// Hunter and chasers stand on the board; every remembered direction is
    /// the zero vector or an orthogonal unit vector.
    pub open spec fn entities_ok(self) -> bool {
        &&& self.in_bounds(self.pacman_pos)
        &&& is_dir(self.pacman_dir)
        &&& is_dir(self.wanted_dir)
        &&& forall|i: int|
            0 <= i < self.chasers.len() ==> self.in_bounds((#[trigger] self.chasers[i]).pos)
                && is_dir(self.chasers[i].dir)
    }

    /// The cached counters are faithful: the pellet counter equals the number
    /// of pellet cells on the board, and score plus pellets never outgrows
    /// `u32` (their sum only ever falls).
    pub open spec fn counts_ok(self) -> bool {
        &&& self.pellets_left == map_pellets(self.map)
        &&& self.score + self.pellets_left <= 0xffff_ffff
    }

    /// Well-formedness of a session; established at construction and
    /// preserved by every tick.
    pub open spec fn wf(self) -> bool {
        self.grid_ok() && self.entities_ok() && self.counts_ok()
    }

    /// The session is finished: a collision happened, or no pellet is left
    /// (the win; callers tell the two apart by the pellet counter).
    pub open spec fn is_over(self) -> bool {
        self.game_over || self.pellets_left == 0
    }

    /// Every chaser advanced one heuristic step toward the hunter's current
    /// position, each independently of the others.
    pub open spec fn chasers_after(self) -> Seq<Chaser> {
        self.chasers.map_values(
            |c: Chaser|
                chase_step(self.map, self.width as int, self.length as int, c, self.pacman_pos),
        )
    }

    /// The direction the hunter commits to this tick: the buffered wanted
    /// direction once it is legal, else the previously committed one.
    pub open spec fn hunter_dir(self) -> Position {
        if self.can_move(self.pacman_pos, self.wanted_dir) {
            self.wanted_dir
        } else {
            self.pacman_dir
        }
    }

    /// Whether the hunter actually moves this tick; with an illegal
    /// committed direction it simply stalls.
    pub open spec fn hunter_moves(self) -> bool {
        self.can_move(self.pacman_pos, self.hunter_dir())
    }

    /// Where the hunter stands after its move this tick.
    pub open spec fn hunter_dest(self) -> Position {
        if self.hunter_moves() {
            pos_add(self.pacman_pos, self.hunter_dir())
        } else {
            self.pacman_pos
        }
    }

    /// Some chaser of `cs` stands on `p`.
    pub open spec fn chaser_hits(cs: Seq<Chaser>, p: Position) -> bool {
        exists|i: int| 0 <= i < cs.len() && cs[i].pos == p
    }

    /// The tick counter after this tick (wrapping).
    pub open spec fn next_tick(self) -> u64 {
        if self.tick_count == u64::MAX {
            0u64
        } else {
            (self.tick_count + 1) as u64
        }
    }

    /// Chasers advance only on every other tick, at half the hunter's pace.
    pub open spec fn chasers_move(self) -> bool {
        self.next_tick() % 2 == 0
    }

    /// A chaser stands on the hunter's cell right after the hunter's move.
    pub open spec fn first_collision(self) -> bool {
        Self::chaser_hits(self.chasers, self.hunter_dest())
    }

    /// The chasers after their move this tick: each takes one heuristic
    /// step toward the hunter's post-move position.
    pub open spec fn stepped_chasers(self) -> Seq<Chaser> {
        self.chasers.map_values(
            |c: Chaser|
                chase_step(self.map, self.width as int, self.length as int, c, self.hunter_dest()),
        )
    }

    /// After the chasers' move: some chaser stands on the hunter, or hunter
    /// and chaser exchanged cells within this very tick (a swap collision,
    /// detected although no simultaneous overlap is ever observable).
    pub open spec fn crossing(self) -> bool {
        exists|i: int|
            0 <= i < self.chasers.len() && (self.stepped_chasers()[i].pos == self.hunter_dest() || (
            self.chasers[i].pos == self.hunter_dest() && self.stepped_chasers()[i].pos
                == self.pacman_pos))
    }

    /// The hunter eats a pellet this tick: it survives every collision
    /// check, actually moved, and its destination held a pellet.
    pub open spec fn scores(self) -> bool {
        &&& !self.is_over()
        &&& !self.first_collision()
        &&& (self.chasers_move() ==> !self.crossing())
        &&& self.hunter_moves()
        &&& self.cell(self.hunter_dest()) == Thing::Pellet
    }

    /// The glyph a cell is drawn with: the hunter on top, then any chaser,
    /// then the cell kind.
    pub open spec fn glyph_at(self, x: int, y: int) -> char {
        let p = Position { x: x as i32, y: y as i32 };
        if self.pacman_pos == p {
            'C'
        } else if Self::chaser_hits(self.chasers, p) {
            'G'
        } else if self.map[y][x] == Thing::Wall {
            '#'
        } else if self.map[y][x] == Thing::Pellet {
            '.'
        } else {
            ' '
        }
    }

    /// Pickup resolution: if the hunter moved onto a pellet, score one,
    /// count the pellet down (saturating) and empty the cell.
    pub open spec fn resolve_pickup(self, moved: bool, dest: Position) -> GameView {
        if moved && self.cell(dest) == Thing::Pellet {
            GameView {
                score: (self.score + 1) as u32,
                pellets_left: if self.pellets_left > 0 {
                    (self.pellets_left - 1) as u32
                } else {
                    0u32
                },
                map: self.map.update(
                    dest.y as int,
                    self.map[dest.y as int].update(dest.x as int, Thing::Empty),
                ),
                ..self
            }
        } else {
            self
        }
    }

    /// One simulation tick: the authoritative transition of a session.
    /// A finished session is left untouched. Otherwise the hunter resolves
    /// its buffered direction and moves if it can; a collision freezes the
    /// game at once (the tick is not even counted); chasers advance on every
    /// other tick, swap collisions included; and only a surviving hunter
    /// eats the pellet it stepped on.
    pub open spec fn step(self) -> GameView {
        if self.is_over() {
            self
        } else {
            let v1 = GameView {
                pacman_dir: self.hunter_dir(),
                pacman_pos: self.hunter_dest(),
                ..self
            };
            if self.first_collision() {
                GameView { game_over: true, ..v1 }
            } else {
                let v2 = GameView { tick_count: self.next_tick(), ..v1 };
                if self.chasers_move() {
                    let v3 = GameView { chasers: self.stepped_chasers(), ..v2 };
                    if self.crossing() {
                        GameView { game_over: true, ..v3 }
                    } else {
                        v3.resolve_pickup(self.hunter_moves(), self.hunter_dest())
                    }
                } else {
                    v2.resolve_pickup(self.hunter_moves(), self.hunter_dest())
                }
            }
        }
    }
}

/// Whether a step from `from` in direction `dir` is legal on the given board.
fn step_legal(map: &Vec<Vec<Thing>>, width: i32, length: i32, from: Position, dir: Position) -> (r:
    bool)
    requires
        grid_shape(rows_of(map@), width as int, length as int),
    ensures
        r == board_can_move(rows_of(map@), width as int, length as int, from, dir),
{
    if dir.x == 0 && dir.y == 0 {
        return false;
    }
    let nx: i64 = from.x as i64 + dir.x as i64;
    let ny: i64 = from.y as i64 + dir.y as i64;
    if nx >= 0 && nx < width as i64 && ny >= 0 && ny < length as i64 {
        proof {
            assert(rows_of(map@)[ny as int] == map@[ny as int]@);
            assert(rows_of(map@)[ny as int].len() == width);
        }
        map[ny as usize][nx as usize] != Thing::Wall
    } else {
        false
    }
}

/// Collects the legal steps out of `from`, in the fixed enumeration order
/// up, down, left, right.
fn collect_legal_dirs(map: &Vec<Vec<Thing>>, width: i32, length: i32, from: Position) -> (r: Vec<
    Position,
>)
    requires
        grid_shape(rows_of(map@), width as int, length as int),
    ensures
        r@ == legal_dirs(rows_of(map@), width as int, length as int, from),
{
    let d_up = Position { x: 0, y: -1 };
    let d_down = Position { x: 0, y: 1 };
    let d_left = Position { x: -1, y: 0 };
    let d_right = Position { x: 1, y: 0 };
    let mut candidates: Vec<Position> = Vec::new();
    if step_legal(map, width, length, from, d_up) {
        candidates.push(d_up);
    }
    if step_legal(map, width, length, from, d_down) {
        candidates.push(d_down);
    }
    if step_legal(map, width, length, from, d_left) {
        candidates.push(d_left);
    }
    if step_legal(map, width, length, from, d_right) {
        candidates.push(d_right);
    }
    proof {
        assert(candidates@ =~= legal_dirs(rows_of(map@), width as int, length as int, from));
    }
    candidates
}

impl Game {
    /// Exposes the model's well-formedness on the session itself.
    pub open spec fn wf(self) -> bool {
        self@.wf()
    }

    /// Builds a session from a textual layout: `'#'` a wall, `'.'` a pellet,
    /// `'P'` the hunter spawn, `'G'` a chaser spawn, anything else empty
    /// floor. An empty or non-rectangular layout, or one without exactly one
    /// hunter spawn, is rejected as a configuration error.
    pub fn from_ascii(ascii: &[&str]) -> (r: Result<Game, LayoutError>)
        requires
            ascii@.len() > 0 && ascii@[0]@.len() > 0 ==> {
                &&& ascii@.len() + ascii@[0]@.len() <= 0x7fff_ffff
                &&& ascii@.len() * ascii@[0]@.len() <= 0xffff_ffff
            },
        ensures
            match r {
                Ok(g) => {
                    let rows = rows_view(ascii@);
                    &&& layout_ok(rows)
                    &&& g.wf()
                    &&& g@.map == parsed_map(rows)
                    &&& g@.width as int == rows[0].len()
                    &&& g@.length as int == rows.len()
                    &&& g@.pacman_pos == last_hunter(rows, Position { x: 0, y: 0 })
                    &&& rows[g@.pacman_pos.y as int][g@.pacman_pos.x as int] == 'P'
                    &&& g@.pacman_dir == zero_dir()
                    &&& g@.wanted_dir == zero_dir()
                    &&& g@.score == 0
                    &&& g@.pellets_left == map_pellets(parsed_map(rows))
                    &&& g@.game_over == false
                    &&& g@.tick_count == 0
                    &&& g@.chasers == spawns(rows)
                },
                Err(e) => {
                    let rows = rows_view(ascii@);
                    &&& !layout_ok(rows)
                    &&& e == layout_error(rows)
                },
            },
    {
        let ghost rows = rows_view(ascii@);
        if ascii.len() == 0 {
            return Err(LayoutError::Empty);
        }
        let width_us = ascii[0].unicode_len();
        if width_us == 0 {
            proof {
                assert(rows[0] == ascii@[0]@);
            }
            return Err(LayoutError::Empty);
        }
        proof {
            assert(rows[0] == ascii@[0]@);
        }
        let n = ascii.len();
        let mut i: usize = 1;
        while i < n
            invariant
                1 <= i <= n,
                n == ascii@.len(),
                rows == rows_view(ascii@),
                1 <= width_us == rows[0].len(),
                forall|j: int| 0 <= j < i ==> (#[trigger] rows[j]).len() == rows[0].len(),
            decreases n - i,
        {
            if ascii[i].unicode_len() != width_us {
                proof {
                    assert(rows[i as int] == ascii@[i as int]@);
                    assert(!rectangular(rows));
                }
                return Err(LayoutError::NonRectangular);
            }
            proof {
                assert(rows[i as int] == ascii@[i as int]@);
            }
            i += 1;
        }
        let ghost dflt = Position { x: 0, y: 0 };
        let mut map: Vec<Vec<Thing>> = Vec::new();
        let mut ghosts: Vec<Chaser> = Vec::new();
        let mut pellets_left: u32 = 0;
        let mut hunters: u32 = 0;
        let mut pacman_pos = Position { x: 0, y: 0 };
        let mut y: usize = 0;
        while y < n
            invariant
                0 <= y <= n,
                n == ascii@.len(),
                rows == rows_view(ascii@),
                1 <= width_us == rows[0].len(),
                rectangular(rows),
                n + width_us <= 0x7fff_ffff,
                n * width_us <= 0xffff_ffff,
                map@.len() == y,
                rows_of(map@) == parsed_map(rows.take(y as int)),
                pellets_left as nat == map_pellets(parsed_map(rows.take(y as int))),
                hunters as nat == hunter_count(rows.take(y as int)),
                pellets_left + hunters <= y * width_us,
                pacman_pos == last_hunter(rows.take(y as int), dflt),
                hunters >= 1 ==> in_bounds_at(
                    width_us as int,
                    n as int,
                    pacman_pos.x as int,
                    pacman_pos.y as int,
                ),
                ghosts@ == spawns(rows.take(y as int)),
                forall|k: int|
                    0 <= k < ghosts@.len() ==> in_bounds_at(
                        width_us as int,
                        n as int,
                        (#[trigger] ghosts@[k]).pos.x as int,
                        ghosts@[k].pos.y as int,
                    ) && ghosts@[k].dir == zero_dir(),
                dflt == (Position { x: 0, y: 0 }),
            decreases n - y,
        {
            let row_str = ascii[y];
            proof {
                assert(rows[y as int] == ascii@[y as int]@);
            }
            let mut row: Vec<Thing> = Vec::new();
            let mut x: usize = 0;
            while x < width_us
                invariant
                    0 <= x <= width_us,
                    0 <= y < n,
                    n == ascii@.len(),
                    rows == rows_view(ascii@),
                    1 <= width_us == rows[0].len(),
                    rectangular(rows),
                    n + width_us <= 0x7fff_ffff,
                    n * width_us <= 0xffff_ffff,
                    row_str@ == rows[y as int],
                    map@.len() == y,
                    rows_of(map@) == parsed_map(rows.take(y as int)),
                    row@ == parsed_row(rows[y as int].take(x as int)),
                    pellets_left as nat == map_pellets(parsed_map(rows.take(y as int)))
                        + row_pellets(parsed_row(rows[y as int].take(x as int))),
                    hunters as nat == hunter_count(rows.take(y as int)) + row_hunters(
                        rows[y as int].take(x as int),
                    ),
                    pellets_left + hunters <= y * width_us + x,
                    pacman_pos == row_last_hunter(
                        rows[y as int].take(x as int),
                        y as int,
                        last_hunter(rows.take(y as int), dflt),
                    ),
                    hunters >= 1 ==> in_bounds_at(
                        width_us as int,
                        n as int,
                        pacman_pos.x as int,
                        pacman_pos.y as int,
                    ),
                    ghosts@ == spawns(rows.take(y as int)) + row_spawns(
                        rows[y as int].take(x as int),
                        y as int,
                    ),
                    forall|k: int|
                        0 <= k < ghosts@.len() ==> in_bounds_at(
                            width_us as int,
                            n as int,
                            (#[trigger] ghosts@[k]).pos.x as int,
                            ghosts@[k].pos.y as int,
                        ) && ghosts@[k].dir == zero_dir(),
                    dflt == (Position { x: 0, y: 0 }),
                decreases width_us - x,
            {
                proof {
                    assert(rows[y as int].len() == rows[0].len());
                }
                let ch = row_str.get_char(x);
                let ghost rtx = rows[y as int].take(x as int);
                let ghost rtx1 = rows[y as int].take(x as int + 1);
                proof {
                    assert(rtx1.drop_last() =~= rtx);
                    assert(rtx1.last() == rows[y as int][x as int]);
                    assert(ch == rows[y as int][x as int]);
                    assert(parsed_row(rtx1) =~= parsed_row(rtx).push(thing_of_char(ch)));
                    lemma_row_pellets_push(parsed_row(rtx), thing_of_char(ch));
                    assert(y * width_us + x < n * width_us) by (nonlinear_arith)
                        requires
                            0 <= x < width_us,
                            0 <= y < n,
                    ;
                }
                if ch == '#' {
                    row.push(Thing::Wall);
                } else if ch == '.' {
                    pellets_left = pellets_left + 1;
                    row.push(Thing::Pellet);
                } else if ch == 'P' {
                    hunters = hunters + 1;
                    pacman_pos = Position { x: x as i32, y: y as i32 };
                    row.push(Thing::Empty);
                } else if ch == 'G' {
                    ghosts.push(
                        Chaser {
                            pos: Position { x: x as i32, y: y as i32 },
                            dir: Position { x: 0, y: 0 },
                        },
                    );
                    row.push(Thing::Empty);
                } else {
                    row.push(Thing::Empty);
                }
                proof {
                    assert(row_spawns(rtx1, y as int) =~= row_spawns(rtx, y as int) + (if ch
                        == 'G' {
                        seq![
                            Chaser {
                                pos: Position { x: x as i32, y: y as i32 },
                                dir: zero_dir(),
                            },
                        ]
                    } else {
                        Seq::empty()
                    }));
                    assert(ghosts@ == spawns(rows.take(y as int)) + row_spawns(
                        rtx1,
                        y as int,
                    ));
                }
                x += 1;
            }
            map.push(row);
            proof {
                let t0 = rows.take(y as int);
                let t1 = rows.take(y as int + 1);
                assert(rows[y as int].take(width_us as int) =~= rows[y as int]);
                assert(t1.drop_last() =~= t0);
                assert(t1.last() == rows[y as int]);
                assert(parsed_map(t1) =~= parsed_map(t0).push(parsed_row(rows[y as int])));
                assert(rows_of(map@) =~= parsed_map(t1));
                lemma_map_pellets_push(parsed_map(t0), parsed_row(rows[y as int]));
                assert(hunter_count(t1) == hunter_count(t0) + row_hunters(rows[y as int]));
                assert(spawns(t1) =~= spawns(t0) + row_spawns(rows[y as int], y as int));
                assert(last_hunter(t1, dflt) == row_last_hunter(
                    rows[y as int],
                    y as int,
                    last_hunter(t0, dflt),
                ));
                assert(y * width_us + width_us == (y + 1) * width_us) by (nonlinear_arith);
                assert((y + 1) * width_us <= n * width_us) by (nonlinear_arith)
                    requires
                        y + 1 <= n,
                        0 <= width_us,
                ;
            }
            y += 1;
        }
        proof {
            assert(rows.take(n as int) =~= rows);
        }
        if hunters == 0 {
            return Err(LayoutError::NoHunter);
        }
        if hunters > 1 {
            return Err(LayoutError::MultipleHunters);
        }
        let game = Game {
            pacman_pos,
            width: width_us as i32,
            length: n as i32,
            pacman_dir: Position { x: 0, y: 0 },
            map,
            score: 0,
            pellets_left,
            wanted_dir: Position { x: 0, y: 0 },
            game_over: false,
            tick_count: 0,
            ghosts,
        };
        proof {
            assert(game@.map == parsed_map(rows));
            assert forall|j: int| 0 <= j < n implies (#[trigger] game@.map[j]).len()
                == width_us as int by {
                assert(forall|j: int|
                    0 <= j < n ==> (#[trigger] rows[j]).len() == rows[0].len());
            }
            assert(game@.grid_ok());
            assert(game@.entities_ok());
            assert(game@.counts_ok());
            lemma_last_hunter_marks(rows, dflt);
        }
        Ok(game)
    }

    pub fn in_bounds(&self, pos: Position) -> (r: bool)
        ensures
            r == self@.in_bounds(pos),
    {
        pos.x >= 0 && pos.x < self.width && pos.y >= 0 && pos.y < self.length
    }

    /// The kind of the cell at an in-bounds position.
    pub fn thing(&self, pos: Position) -> (r: Thing)
        requires
            self@.grid_ok(),
            self@.in_bounds(pos),
        ensures
            r == self@.cell(pos),
    {
        self.map[pos.y as usize][pos.x as usize]
    }

    /// Replaces the kind of the cell at an in-bounds position, and changes
    /// nothing else.
    pub fn set_thing(&mut self, pos: Position, thing: Thing)
        requires
            old(self)@.grid_ok(),
            old(self)@.in_bounds(pos),
        ensures
            final(self)@ =~= (GameView {
                map: old(self)@.map.update(
                    pos.y as int,
                    old(self)@.map[pos.y as int].update(pos.x as int, thing),
                ),
                ..old(self)@
            }),
    {
        self.map[pos.y as usize][pos.x as usize] = thing;
    }

    /// Pure vector addition; callers have already validated the step.
    pub fn next_position(&self, from: Position, dir: Position) -> (r: Position)
        requires
            -0x8000_0000 <= from.x + dir.x <= 0x7fff_ffff,
            -0x8000_0000 <= from.y + dir.y <= 0x7fff_ffff,
        ensures
            r == pos_add(from, dir),
    {
        Position { x: from.x + dir.x, y: from.y + dir.y }
    }

    /// Whether a step from `from` in direction `dir` is legal.
    pub fn can_move(&self, from: Position, dir: Position) -> (r: bool)
        requires
            self@.grid_ok(),
        ensures
            r == self@.can_move(from, dir),
    {
        step_legal(&self.map, self.width, self.length, from, dir)
    }

    /// Manhattan distance `|dx| + |dy|` between two coordinates.
    pub fn manhattan_distance(a: Position, b: Position) -> (r: i32)
        requires
            manhattan(a, b) <= 0x7fff_ffff,
        ensures
            r == manhattan(a, b),
    {
        let dx = if a.x >= b.x {
            a.x - b.x
        } else {
            b.x - a.x
        };
        let dy = if a.y >= b.y {
            a.y - b.y
        } else {
            b.y - a.y
        };
        dx + dy
    }

    /// The exact opposite of a direction delta.
    pub fn opposite(dir: Position) -> (r: Position)
        requires
            dir.x > -0x8000_0000,
            dir.y > -0x8000_0000,
        ensures
            r == opposite_dir(dir),
    {
        Position { x: -dir.x, y: -dir.y }
    }

    /// Records the player's most recent directional input. It is kept even
    /// while it cannot be acted on, and replaces the committed direction on
    /// the first tick where it becomes legal.
    pub fn set_wanted_dir(&mut self, dir: Position)
        requires
            is_unit_dir(dir),
        ensures
            final(self)@ =~= (GameView { wanted_dir: dir, ..old(self)@ }),
            old(self).wf() ==> final(self).wf(),
    {
        self.wanted_dir = dir;
    }

    /// Advances one chaser by the pursuit heuristic: among the legal steps,
    /// minus the reversal of its last step unless nothing else is left, it
    /// takes the one landing closest (Manhattan) to `pacman_pos`, ties going
    /// to the earliest of up, down, left, right; boxed in, it stands still.
    pub fn move_one_ghost(
        chaser: &mut Chaser,
        pacman_pos: Position,
        width: i32,
        length: i32,
        map: &Vec<Vec<Thing>>,
    )
        requires
            grid_shape(rows_of(map@), width as int, length as int),
            in_bounds_at(
                width as int,
                length as int,
                old(chaser).pos.x as int,
                old(chaser).pos.y as int,
            ),
            is_dir(old(chaser).dir),
            in_bounds_at(width as int, length as int, pacman_pos.x as int, pacman_pos.y as int),
        ensures
            *final(chaser) == chase_step(
                rows_of(map@),
                width as int,
                length as int,
                *old(chaser),
                pacman_pos,
            ),
    {
        let ghost m = rows_of(map@);
        let ghost w = width as int;
        let ghost l = length as int;
        let from = chaser.pos;
        let candidates = collect_legal_dirs(map, width, length, from);
        if candidates.len() == 0 {
            return ;
        }
        let ghost cands_v = candidates@;
        let mut filtered: Vec<Position>;
        if chaser.dir.x == 0 && chaser.dir.y == 0 {
            filtered = candidates;
        } else {
            let opp = Game::opposite(chaser.dir);
            let mut picked: Vec<Position> = Vec::new();
            let mut k: usize = 0;
            while k < candidates.len()
                invariant
                    0 <= k <= candidates@.len(),
                    candidates@ == cands_v,
                    opp == opposite_dir(old(chaser).dir),
                    picked@ == without_reversal(cands_v.take(k as int), opp),
                decreases candidates@.len() - k,
            {
                let d = candidates[k];
                proof {
                    assert(cands_v.take(k as int + 1).drop_last() =~= cands_v.take(k as int));
                    assert(cands_v.take(k as int + 1).last() == cands_v[k as int]);
                }
                if !(d.x == opp.x && d.y == opp.y) {
                    picked.push(d);
                }
                k += 1;
            }
            proof {
                assert(cands_v.take(cands_v.len() as int) =~= cands_v);
            }
            if picked.len() == 0 {
                filtered = candidates;
            } else {
                filtered = picked;
            }
        }
        let ghost opts = chase_options(m, w, l, *old(chaser));
        proof {
            assert(filtered@ == opts);
            lemma_chase_options_ok(m, w, l, *old(chaser));
            lemma_legal_dirs_ok(m, w, l, from);
            assert forall|j: int| 0 <= j < opts.len() implies is_unit_dir(#[trigger] opts[j])
                && board_can_move(m, w, l, from, opts[j]) by {
                let cands = legal_dirs(m, w, l, from);
                assert(cands.contains(opts[j]));
                let i = choose|i: int| 0 <= i < cands.len() && cands[i] == opts[j];
            }
        }
        let mut best = filtered[0];
        let mut best_dist = Game::manhattan_distance(
            Position { x: from.x + best.x, y: from.y + best.y },
            pacman_pos,
        );
        let mut k: usize = 1;
        while k < filtered.len()
            invariant
                1 <= k <= filtered@.len(),
                filtered@ == opts,
                opts == chase_options(m, w, l, *old(chaser)),
                *chaser == *old(chaser),
                from == old(chaser).pos,
                grid_shape(m, w, l),
                in_bounds_at(w, l, from.x as int, from.y as int),
                in_bounds_at(w, l, pacman_pos.x as int, pacman_pos.y as int),
                forall|j: int|
                    0 <= j < opts.len() ==> is_unit_dir(#[trigger] opts[j]) && board_can_move(
                        m,
                        w,
                        l,
                        from,
                        opts[j],
                    ),
                best == best_dir(from, pacman_pos, opts.take(k as int)),
                best_dist == manhattan(pos_add(from, best), pacman_pos),
            decreases filtered@.len() - k,
        {
            let d = filtered[k];
            let dist = Game::manhattan_distance(
                Position { x: from.x + d.x, y: from.y + d.y },
                pacman_pos,
            );
            proof {
                assert(opts.take(k as int + 1).drop_last() =~= opts.take(k as int));
                assert(opts.take(k as int + 1).last() == opts[k as int]);
            }
            if dist < best_dist {
                best = d;
                best_dist = dist;
            }
            k += 1;
        }
        proof {
            assert(opts.take(opts.len() as int) =~= opts);
            lemma_best_dir_mem(from, pacman_pos, opts);
        }
        chaser.pos = Position { x: from.x + best.x, y: from.y + best.y };
        chaser.dir = best;
    }

    /// Whether any chaser currently stands on `p`.
    fn chaser_at(&self, p: Position) -> (r: bool)
        ensures
            r == GameView::chaser_hits(self@.chasers, p),
    {
        let mut i: usize = 0;
        while i < self.ghosts.len()
            invariant
                0 <= i <= self.ghosts@.len(),
                forall|j: int| 0 <= j < i ==> (#[trigger] self.ghosts@[j]).pos != p,
            decreases self.ghosts@.len() - i,
        {
            if self.ghosts[i].pos == p {
                return true;
            }
            i += 1;
        }
        false
    }

    /// Advances every chaser by the pursuit heuristic, each using the
    /// hunter's current position; chasers do not react to one another
    /// within the same tick.
    pub fn move_ghost(&mut self)
        requires
            old(self)@.grid_ok(),
            old(self)@.entities_ok(),
        ensures
            final(self)@ =~= (GameView { chasers: old(self)@.chasers_after(), ..old(self)@ }),
            final(self)@.entities_ok(),
    {
        let ghost v0 = self@;
        let mut gi: usize = 0;
        while gi < self.ghosts.len()
            invariant
                0 <= gi <= self.ghosts@.len(),
                self@.map == v0.map,
                self@.width == v0.width,
                self@.length == v0.length,
                self@.pacman_pos == v0.pacman_pos,
                self@.pacman_dir == v0.pacman_dir,
                self@.wanted_dir == v0.wanted_dir,
                self@.score == v0.score,
                self@.pellets_left == v0.pellets_left,
                self@.game_over == v0.game_over,
                self@.tick_count == v0.tick_count,
                self@.chasers.len() == v0.chasers.len(),
                v0.grid_ok(),
                v0.entities_ok(),
                forall|j: int|
                    gi <= j < v0.chasers.len() ==> self@.chasers[j] == v0.chasers[j],
                forall|j: int|
                    0 <= j < gi ==> self@.chasers[j] == chase_step(
                        v0.map,
                        v0.width as int,
                        v0.length as int,
                        v0.chasers[j],
                        v0.pacman_pos,
                    ),
            decreases self.ghosts@.len() - gi,
        {
            let mut c = self.ghosts[gi];
            proof {
                assert(c == v0.chasers[gi as int]);
            }
            Game::move_one_ghost(&mut c, self.pacman_pos, self.width, self.length, &self.map);
            self.ghosts[gi] = c;
            gi += 1;
        }
        proof {
            assert(self@.chasers =~= v0.chasers_after());
            assert forall|j: int| 0 <= j < self@.chasers.len() implies self@.in_bounds(
                (#[trigger] self@.chasers[j]).pos,
            ) && is_dir(self@.chasers[j].dir) by {
                lemma_chase_step_wf(
                    v0.map,
                    v0.width as int,
                    v0.length as int,
                    v0.chasers[j],
                    v0.pacman_pos,
                );
            }
        }
    }

    /// One simulation tick, exactly as `GameView::step` describes it.
    pub fn update(&mut self)
        requires
            old(self).wf(),
        ensures
            final(self)@ == old(self)@.step(),
            final(self).wf(),
    {
        let ghost v0 = old(self)@;
        if self.game_over || self.pellets_left == 0 {
            return ;
        }
        let prev_pos = self.pacman_pos;
        if self.can_move(self.pacman_pos, self.wanted_dir) {
            self.pacman_dir = self.wanted_dir;
        }
        proof {
            assert(self@.pacman_dir == v0.hunter_dir());
        }
        let mut moved = false;
        let mut next = self.pacman_pos;
        if self.can_move(self.pacman_pos, self.pacman_dir) {
            next = self.next_position(self.pacman_pos, self.pacman_dir);
            self.pacman_pos = next;
            moved = true;
        }
        proof {
            assert(moved == v0.hunter_moves());
            assert(next == v0.hunter_dest());
            assert(self@ =~= (GameView {
                pacman_dir: v0.hunter_dir(),
                pacman_pos: v0.hunter_dest(),
                ..v0
            }));
        }
        if self.chaser_at(self.pacman_pos) {
            self.game_over = true;
            proof {
                assert(v0.first_collision());
                assert(self@ =~= v0.step());
            }
            return ;
        }
        self.tick_count = self.tick_count.wrapping_add(1);
        proof {
            assert(self@ =~= (GameView {
                pacman_dir: v0.hunter_dir(),
                pacman_pos: v0.hunter_dest(),
                tick_count: v0.next_tick(),
                ..v0
            }));
        }
        let ghost v2 = self@;
        if self.tick_count % 2 == 0 {
            let mut prev_ghost: Vec<Position> = Vec::new();
            let mut i: usize = 0;
            while i < self.ghosts.len()
                invariant
                    0 <= i <= self.ghosts@.len(),
                    prev_ghost@.len() == i,
                    forall|j: int|
                        0 <= j < i ==> prev_ghost@[j] == (#[trigger] self.ghosts@[j]).pos,
                decreases self.ghosts@.len() - i,
            {
                prev_ghost.push(self.ghosts[i].pos);
                i += 1;
            }
            self.move_ghost();
            proof {
                assert(self@.chasers =~= v0.stepped_chasers());
                assert(self@ =~= (GameView { chasers: v0.stepped_chasers(), ..v2 }));
            }
            let ghost v3 = self@;
            let mut j: usize = 0;
            while j < self.ghosts.len()
                invariant
                    0 <= j <= self.ghosts@.len(),
                    self@ == v3,
                    v0 == old(self)@,
                    !v0.is_over(),
                    !v0.first_collision(),
                    v0.chasers_move(),
                    moved == v0.hunter_moves(),
                    next == v0.hunter_dest(),
                    v2 == (GameView {
                        pacman_dir: v0.hunter_dir(),
                        pacman_pos: v0.hunter_dest(),
                        tick_count: v0.next_tick(),
                        ..v0
                    }),
                    v3 == (GameView { chasers: v0.stepped_chasers(), ..v2 }),
                    v3.wf(),
                    v3.chasers == v0.stepped_chasers(),
                    v3.pacman_pos == v0.hunter_dest(),
                    v0.chasers.len() == v3.chasers.len(),
                    prev_ghost@.len() == v0.chasers.len(),
                    forall|k: int|
                        0 <= k < v0.chasers.len() ==> prev_ghost@[k] == (
                        #[trigger] v0.chasers[k]).pos,
                    prev_pos == v0.pacman_pos,
                    forall|k: int|
                        0 <= k < j ==> !((#[trigger] v0.stepped_chasers()[k]).pos
                            == v0.hunter_dest() || (v0.chasers[k].pos == v0.hunter_dest()
                            && v0.stepped_chasers()[k].pos == v0.pacman_pos)),
                decreases self.ghosts@.len() - j,
            {
                let g_pos = self.ghosts[j].pos;
                if g_pos == self.pacman_pos || (prev_ghost[j] == self.pacman_pos && g_pos
                    == prev_pos) {
                    self.game_over = true;
                    proof {
                        assert(v0.crossing());
                        assert(self@ =~= v0.step());
                        assert(self@ == v0.step());
                        assert(self@ == (GameView { game_over: true, ..v3 }));
                        assert(self@.wf());
                    }
                    return ;
                }
                j += 1;
            }
            proof {
                assert(!v0.crossing());
            }
        }
        proof {
            assert(self@.map == v0.map);
            assert(self@.pellets_left == v0.pellets_left);
        }
        if moved {
            let t = self.thing(next);
            if t == Thing::Pellet {
                proof {
                    assert(v0.cell(next) == Thing::Pellet);
                    lemma_map_pellets_pos(v0.map, next.y as int, next.x as int);
                }
                self.score = self.score + 1;
                self.pellets_left = self.pellets_left.saturating_sub(1);
                self.set_thing(next, Thing::Empty);
                proof {
                    lemma_map_pellets_update(v0.map, next.y as int, next.x as int, Thing::Empty);
                }
            }
        }
        proof {
            assert(self@ =~= v0.step());
            assert forall|yy: int|
                0 <= yy < self@.length implies (#[trigger] self@.map[yy]).len()
                    == self@.width by {
                assert(forall|yy: int|
                    0 <= yy < v0.length ==> (#[trigger] v0.map[yy]).len() == v0.width);
            }
            assert(self@.wf());
        }
    }

    /// The character buffer of the current state: one row of glyphs per
    /// board row, the hunter drawn `'C'`, a chaser `'G'`, a wall `'#'`, a
    /// pellet `'.'` and empty floor `' '`. Pure: rendering reads the state
    /// and owns no terminal concern.
    pub fn render(&self) -> (r: Vec<Vec<char>>)
        requires
            self@.grid_ok(),
        ensures
            r@.len() == self@.length as int,
            forall|y: int| 0 <= y < r@.len() ==> (#[trigger] r@[y])@.len() == self@.width as int,
            forall|y: int, x: int|
                0 <= y < self@.length && 0 <= x < self@.width ==> r@[y as int]@[x as int]
                    == self@.glyph_at(x, y),
    {
        let mut out: Vec<Vec<char>> = Vec::new();
        let mut y: i32 = 0;
        while y < self.length
            invariant
                self@.grid_ok(),
                0 <= y <= self@.length,
                out@.len() == y as int,
                forall|j: int|
                    0 <= j < y as int ==> (#[trigger] out@[j])@.len() == self@.width as int,
                forall|j: int, k: int|
                    0 <= j < y as int && 0 <= k < self@.width ==> out@[j]@[k] == self@.glyph_at(
                        k,
                        j,
                    ),
            decreases self@.length - y,
        {
            let mut line: Vec<char> = Vec::new();
            let mut x: i32 = 0;
            while x < self.width
                invariant
                    self@.grid_ok(),
                    0 <= x <= self@.width,
                    0 <= y < self@.length,
                    line@.len() == x as int,
                    forall|k: int| 0 <= k < x as int ==> line@[k] == self@.glyph_at(k, y as int),
                decreases self@.width - x,
            {
                let pos = Position { x, y };
                let c: char = if pos == self.pacman_pos {
                    'C'
                } else if self.chaser_at(pos) {
                    'G'
                } else {
                    match self.thing(pos) {
                        Thing::Wall => '#',
                        Thing::Pellet => '.',
                        Thing::Empty => ' ',
                    }
                };
                line.push(c);
                x += 1;
            }
            out.push(line);
            y += 1;
        }
        out
    }

    pub fn score(&self) -> (r: u32)
        ensures
            r == self@.score,
    {
        self.score
    }

    pub fn pellets_left(&self) -> (r: u32)
        ensures
            r == self@.pellets_left,
    {
        self.pellets_left
    }

    pub fn is_game_over(&self) -> (r: bool)
        ensures
            r == self@.game_over,
    {
        self.game_over
    }

    /// Whether the session is finished, by collision or by collecting the
    /// last pellet.
    pub fn is_over(&self) -> (r: bool)
        ensures
            r == self@.is_over(),
    {
        self.game_over || self.pellets_left == 0
    }

    pub fn tick_count(&self) -> (r: u64)
        ensures
            r == self@.tick_count,
    {
        self.tick_count
    }

    pub fn pacman_pos(&self) -> (r: Position)
        ensures
            r == self@.pacman_pos,
    {
        self.pacman_pos
    }

    pub fn pacman_dir(&self) -> (r: Position)
        ensures
            r == self@.pacman_dir,
    {
        self.pacman_dir
    }

    pub fn wanted_dir(&self) -> (r: Position)
        ensures
            r == self@.wanted_dir,
    {
        self.wanted_dir
    }

    pub fn chaser_count(&self) -> (r: usize)
        ensures
            r == self@.chasers.len(),
    {
        self.ghosts.len()
    }

    pub fn chaser(&self, i: usize) -> (r: Chaser)
        requires
            i < self@.chasers.len(),
        ensures
            r == self@.chasers[i as int],
    {
        self.ghosts[i]
    }
}

} // verus!
