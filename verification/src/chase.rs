//! The pursuit heuristic: a chaser greedily picks, among the legal
//! orthogonal steps, the one that minimises the Manhattan distance to the
//! hunter, avoiding an immediate reversal of its previous step unless the
//! reversal is the only option. Ties go to the earliest direction in the
//! fixed enumeration order up, down, left, right.

use vstd::prelude::*;

use crate::grid::{
    board_can_move, grid_shape, in_bounds_at, is_dir, is_unit_dir, manhattan, opposite_dir,
    pos_add, zero_dir, Position, Thing,
};

verus! {

/// A pursuing entity: its position and the direction of its last step
/// (the zero vector before its first step).
#[derive(Clone, Copy, PartialEq, Eq, Structural, Debug)]
pub struct Chaser {
    pub pos: Position,
    pub dir: Position,
}

pub open spec fn dir_up() -> Position {
    Position { x: 0, y: -1i32 }
}

pub open spec fn dir_down() -> Position {
    Position { x: 0, y: 1 }
}

pub open spec fn dir_left() -> Position {
    Position { x: -1i32, y: 0 }
}

pub open spec fn dir_right() -> Position {
    Position { x: 1, y: 0 }
}

/// The legal steps out of `from`, in the fixed enumeration order
/// up, down, left, right. The order decides ties further down.
pub open spec fn legal_dirs(
    map: Seq<Seq<Thing>>,
    width: int,
    length: int,
    from: Position,
) -> Seq<Position> {
    (if board_can_move(map, width, length, from, dir_up()) {
        seq![dir_up()]
    } else {
        Seq::empty()
    }) + (if board_can_move(map, width, length, from, dir_down()) {
        seq![dir_down()]
    } else {
        Seq::empty()
    }) + (if board_can_move(map, width, length, from, dir_left()) {
        seq![dir_left()]
    } else {
        Seq::empty()
    }) + (if board_can_move(map, width, length, from, dir_right()) {
        seq![dir_right()]
    } else {
        Seq::empty()
    })
}

/// `ds` with every occurrence of `opp` removed, order kept.
pub open spec fn without_reversal(ds: Seq<Position>, opp: Position) -> Seq<Position>
    decreases ds.len(),
{
    if ds.len() == 0 {
        Seq::empty()
    } else {
        without_reversal(ds.drop_last(), opp) + (if ds.last() == opp {
            Seq::empty()
        } else {
            seq![ds.last()]
        })
    }
}

/// The candidate set a chaser actually chooses from: the legal steps,
/// with the reversal of its last step removed unless that removal would
/// leave nothing.
pub open spec fn chase_options(
    map: Seq<Seq<Thing>>,
    width: int,
    length: int,
    c: Chaser,
) -> Seq<Position> {
    let cands = legal_dirs(map, width, length, c.pos);
    if c.dir == zero_dir() {
        cands
    } else {
        let nr = without_reversal(cands, opposite_dir(c.dir));
        if nr.len() == 0 {
            cands
        } else {
            nr
        }
    }
}

/// The element of `ds` whose step from `from` lands closest (in Manhattan
/// distance) to `target`; on ties, the earliest such element.
pub open spec fn best_dir(from: Position, target: Position, ds: Seq<Position>) -> Position
    recommends
        ds.len() > 0,
    decreases ds.len(),
{
    if ds.len() <= 1 {
        ds[0]
    } else {
        let prev = best_dir(from, target, ds.drop_last());
        if manhattan(pos_add(from, ds.last()), target) < manhattan(pos_add(from, prev), target) {
            ds.last()
        } else {
            prev
        }
    }
}

/// One tick of a single chaser: stand still if no step is legal, else take
/// the chosen step and remember its direction.
pub open spec fn chase_step(
    map: Seq<Seq<Thing>>,
    width: int,
    length: int,
    c: Chaser,
    target: Position,
) -> Chaser {
    let cands = legal_dirs(map, width, length, c.pos);
    if cands.len() == 0 {
        c
    } else {
        let d = best_dir(c.pos, target, chase_options(map, width, length, c));
        Chaser { pos: pos_add(c.pos, d), dir: d }
    }
}

/// Every legal direction is a unit vector whose step stays on the board.
pub proof fn lemma_legal_dirs_ok(map: Seq<Seq<Thing>>, width: int, length: int, from: Position)
    ensures
        forall|k: int|
            0 <= k < legal_dirs(map, width, length, from).len() ==> {
                let d = #[trigger] legal_dirs(map, width, length, from)[k];
                is_unit_dir(d) && board_can_move(map, width, length, from, d)
            },
{
}

/// `without_reversal` keeps only elements of `ds`, and never keeps `opp`.
pub proof fn lemma_without_reversal_sub(ds: Seq<Position>, opp: Position)
    ensures
        forall|k: int|
            0 <= k < without_reversal(ds, opp).len() ==> ds.contains(
                #[trigger] without_reversal(ds, opp)[k],
            ) && without_reversal(ds, opp)[k] != opp,
    decreases ds.len(),
{
    if ds.len() > 0 {
        lemma_without_reversal_sub(ds.drop_last(), opp);
        assert forall|k: int|
            0 <= k < without_reversal(ds, opp).len() implies ds.contains(
            #[trigger] without_reversal(ds, opp)[k],
        ) && without_reversal(ds, opp)[k] != opp by {
            let w = without_reversal(ds, opp);
            let wp = without_reversal(ds.drop_last(), opp);
            if k < wp.len() {
                assert(w[k] == wp[k]);
                assert(ds.drop_last().contains(wp[k]));
                let j = choose|j: int| 0 <= j < ds.drop_last().len() && ds.drop_last()[j] == wp[k];
                assert(ds[j] == wp[k]);
            } else {
                assert(w[k] == ds.last());
                assert(ds[ds.len() - 1] == ds.last());
            }
        }
    }
}

/// The chosen direction is always one of the candidates handed in.
pub proof fn lemma_best_dir_mem(from: Position, target: Position, ds: Seq<Position>)
    requires
        ds.len() > 0,
    ensures
        ds.contains(best_dir(from, target, ds)),
    decreases ds.len(),
{
    if ds.len() <= 1 {
        assert(ds[0] == best_dir(from, target, ds));
    } else {
        lemma_best_dir_mem(from, target, ds.drop_last());
        let b = best_dir(from, target, ds);
        let prev = best_dir(from, target, ds.drop_last());
        if b == prev {
            let j = choose|j: int| 0 <= j < ds.drop_last().len() && ds.drop_last()[j] == prev;
            assert(ds[j] == prev);
        } else {
            assert(ds[ds.len() - 1] == ds.last());
        }
    }
}

/// The chosen direction achieves the minimal landing distance, and every
/// earlier candidate lands strictly farther: ties go to the earliest.
pub proof fn lemma_best_dir_minimal(from: Position, target: Position, ds: Seq<Position>)
    requires
        ds.len() > 0,
    ensures
        forall|k: int|
            0 <= k < ds.len() ==> manhattan(pos_add(from, best_dir(from, target, ds)), target)
                <= manhattan(pos_add(from, #[trigger] ds[k]), target),
        exists|k: int|
            0 <= k < ds.len() && ds[k] == best_dir(from, target, ds) && (forall|j: int|
                0 <= j < k ==> manhattan(pos_add(from, #[trigger] ds[j]), target) > manhattan(
                    pos_add(from, ds[k]),
                    target,
                )),
    decreases ds.len(),
{
    if ds.len() == 1 {
        assert(ds[0] == best_dir(from, target, ds));
    } else {
        let prefix = ds.drop_last();
        lemma_best_dir_minimal(from, target, prefix);
        let prev = best_dir(from, target, prefix);
        let b = best_dir(from, target, ds);
        assert(forall|k: int| 0 <= k < prefix.len() ==> prefix[k] == ds[k]);
        if manhattan(pos_add(from, ds.last()), target) < manhattan(pos_add(from, prev), target) {
            let k = ds.len() - 1;
            assert(ds[k] == b);
            assert forall|j: int| 0 <= j < k implies manhattan(
                pos_add(from, #[trigger] ds[j]),
                target,
            ) > manhattan(pos_add(from, ds[k]), target) by {
                assert(manhattan(pos_add(from, prev), target) <= manhattan(
                    pos_add(from, ds[j]),
                    target,
                ));
            }
        } else {
            let k0 = choose|k: int|
                0 <= k < prefix.len() && prefix[k] == prev && (forall|j: int|
                    0 <= j < k ==> manhattan(pos_add(from, #[trigger] prefix[j]), target)
                        > manhattan(pos_add(from, prefix[k]), target));
            assert(ds[k0] == prev);
        }
    }
}

/// The options set is drawn from the legal steps, and is nonempty whenever
/// some step is legal.
pub proof fn lemma_chase_options_ok(map: Seq<Seq<Thing>>, width: int, length: int, c: Chaser)
    requires
        legal_dirs(map, width, length, c.pos).len() > 0,
    ensures
        chase_options(map, width, length, c).len() > 0,
        forall|k: int|
            0 <= k < chase_options(map, width, length, c).len() ==> legal_dirs(
                map,
                width,
                length,
                c.pos,
            ).contains(#[trigger] chase_options(map, width, length, c)[k]),
{
    let cands = legal_dirs(map, width, length, c.pos);
    let opts = chase_options(map, width, length, c);
    lemma_without_reversal_sub(cands, opposite_dir(c.dir));
    assert forall|k: int| 0 <= k < opts.len() implies cands.contains(#[trigger] opts[k]) by {
        if c.dir == zero_dir() {
            assert(opts[k] == cands[k]);
        } else {
            let nr = without_reversal(cands, opposite_dir(c.dir));
            if nr.len() == 0 {
                assert(opts[k] == cands[k]);
            }
        }
    }
}

/// After a tick the chaser is still on the board and its remembered
/// direction is still a well-formed delta; if it had no legal step it is
/// unchanged, else its position took exactly the chosen step.
pub proof fn lemma_chase_step_wf(
    map: Seq<Seq<Thing>>,
    width: int,
    length: int,
    c: Chaser,
    target: Position,
)
    requires
        grid_shape(map, width, length),
        in_bounds_at(width, length, c.pos.x as int, c.pos.y as int),
        is_dir(c.dir),
    ensures
        in_bounds_at(
            width,
            length,
            chase_step(map, width, length, c, target).pos.x as int,
            chase_step(map, width, length, c, target).pos.y as int,
        ),
        is_dir(chase_step(map, width, length, c, target).dir),
{
    let cands = legal_dirs(map, width, length, c.pos);
    if cands.len() > 0 {
        let opts = chase_options(map, width, length, c);
        lemma_chase_options_ok(map, width, length, c);
        lemma_best_dir_mem(c.pos, target, opts);
        let d = best_dir(c.pos, target, opts);
        let j = choose|j: int| 0 <= j < opts.len() && opts[j] == d;
        lemma_legal_dirs_ok(map, width, length, c.pos);
        let i = choose|i: int| 0 <= i < cands.len() && cands[i] == d;
        assert(board_can_move(map, width, length, c.pos, d));
    }
}

} // verus!
