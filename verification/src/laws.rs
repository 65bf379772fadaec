//! The engine's global guarantees, each proved once and for all states:
//! movement legality, preservation of the session invariants, score
//! behaviour, terminality of game-over, and reversal avoidance.

use vstd::prelude::*;

use crate::chase::{
    best_dir, chase_options, chase_step, legal_dirs, lemma_best_dir_mem, lemma_chase_step_wf,
    lemma_without_reversal_sub, without_reversal, Chaser,
};
use crate::game::GameView;
use crate::grid::{
    board_can_move, cell_at, grid_shape, in_bounds_at, is_dir, lemma_map_pellets_pos,
    lemma_map_pellets_update, map_pellets, opposite_dir, pos_add, zero_dir, Position, Thing,
};

verus! {

/// A step in the zero direction is never legal, whatever the board holds.
pub proof fn lemma_zero_dir_never_moves(
    map: Seq<Seq<Thing>>,
    width: int,
    length: int,
    from: Position,
)
    ensures
        !board_can_move(map, width, length, from, zero_dir()),
{
}

/// A legal step lands in bounds and never on a wall cell.
pub proof fn lemma_can_move_target_ok(
    map: Seq<Seq<Thing>>,
    width: int,
    length: int,
    from: Position,
    dir: Position,
)
    requires
        grid_shape(map, width, length),
        board_can_move(map, width, length, from, dir),
    ensures
        in_bounds_at(width, length, pos_add(from, dir).x as int, pos_add(from, dir).y as int),
        cell_at(map, pos_add(from, dir)) != Thing::Wall,
{
    assert(pos_add(from, dir).x as int == from.x + dir.x);
    assert(pos_add(from, dir).y as int == from.y + dir.y);
}

/// Pickup resolution keeps a session well-formed: the cell emptied was a
/// pellet, so the saturating decrement is exact and the pellet counter
/// still equals the number of pellet cells.
proof fn lemma_resolve_pickup_wf(u: GameView, moved: bool, dest: Position)
    requires
        u.wf(),
        u.in_bounds(dest),
    ensures
        u.resolve_pickup(moved, dest).wf(),
{
    if moved && u.cell(dest) == Thing::Pellet {
        lemma_map_pellets_pos(u.map, dest.y as int, dest.x as int);
        lemma_map_pellets_update(u.map, dest.y as int, dest.x as int, Thing::Empty);
        let w = u.resolve_pickup(moved, dest);
        assert forall|y: int| 0 <= y < w.map.len() implies (#[trigger] w.map[y]).len()
            == u.width as int by {
            assert(u.map[y].len() == u.width as int);
        }
    }
}

/// One tick preserves every session invariant. In particular the pickup
/// count invariant: after any tick of a well-formed session, the cached
/// pellet counter still equals the number of pellet cells on the board.
pub proof fn lemma_step_preserves_wf(v: GameView)
    requires
        v.wf(),
    ensures
        v.step().wf(),
        v.step().pellets_left == map_pellets(v.step().map),
{
    if !v.is_over() {
        let dest = v.hunter_dest();
        assert(is_dir(v.hunter_dir()));
        assert(v.in_bounds(dest));
        let v1 = GameView { pacman_dir: v.hunter_dir(), pacman_pos: dest, ..v };
        if !v.first_collision() {
            let v2 = GameView { tick_count: v.next_tick(), ..v1 };
            assert(v2.wf());
            if v.chasers_move() {
                let v3 = GameView { chasers: v.stepped_chasers(), ..v2 };
                assert forall|j: int| 0 <= j < v3.chasers.len() implies v3.in_bounds(
                    (#[trigger] v3.chasers[j]).pos,
                ) && is_dir(v3.chasers[j].dir) by {
                    lemma_chase_step_wf(v.map, v.width as int, v.length as int, v.chasers[j], dest);
                }
                assert(v3.wf());
                if !v.crossing() {
                    lemma_resolve_pickup_wf(v3, v.hunter_moves(), dest);
                }
            } else {
                lemma_resolve_pickup_wf(v2, v.hunter_moves(), dest);
            }
        }
    }
}

/// Score monotonicity: a tick never lowers the score, and raises it by
/// exactly one precisely when the hunter survives the tick and enters a
/// pellet cell.
pub proof fn lemma_score_monotone(v: GameView)
    requires
        v.wf(),
    ensures
        v.step().score >= v.score,
        v.step().score == v.score + (if v.scores() {
            1int
        } else {
            0int
        }),
{
    if !v.is_over() && v.scores() {
        let dest = v.hunter_dest();
        lemma_map_pellets_pos(v.map, dest.y as int, dest.x as int);
    }
}

/// Game-over is terminal: stepping a finished session changes nothing at
/// all, neither score nor positions nor pellet counter.
pub proof fn lemma_over_is_terminal(v: GameView)
    requires
        v.is_over(),
    ensures
        v.step() == v,
{
}

/// Reversal avoidance: a chaser with a nonzero last direction and legal
/// candidates besides the exact reversal never chooses that reversal.
pub proof fn lemma_no_reversal(
    map: Seq<Seq<Thing>>,
    width: int,
    length: int,
    c: Chaser,
    target: Position,
)
    requires
        c.dir != zero_dir(),
        without_reversal(legal_dirs(map, width, length, c.pos), opposite_dir(c.dir)).len() >= 2,
    ensures
        chase_step(map, width, length, c, target).dir != opposite_dir(c.dir),
{
    let cands = legal_dirs(map, width, length, c.pos);
    let opp = opposite_dir(c.dir);
    let nr = without_reversal(cands, opp);
    let opts = chase_options(map, width, length, c);
    assert(opts == nr);
    lemma_best_dir_mem(c.pos, target, opts);
    lemma_without_reversal_sub(cands, opp);
    let d = best_dir(c.pos, target, opts);
    let j = choose|j: int| 0 <= j < nr.len() && nr[j] == d;
    assert(nr[j] != opp);
}

} // verus!
