use pacman_project::chase::Chaser;
use pacman_project::game::Game;
use pacman_project::grid::{Position, Thing};

const UP: Position = Position { x: 0, y: -1 };
const DOWN: Position = Position { x: 0, y: 1 };
const LEFT: Position = Position { x: -1, y: 0 };
const ZERO: Position = Position { x: 0, y: 0 };

fn open_room(width: usize, length: usize) -> Vec<Vec<Thing>> {
    vec![vec![Thing::Empty; width]; length]
}

#[test]
fn tie_break_prefers_earliest_direction() {
    // Diagonal from the hunter: up and left leave the chaser equally close;
    // up is earliest in the enumeration order {up, down, left, right}.
    let map = open_room(3, 3);
    let mut c = Chaser {
        pos: Position { x: 2, y: 2 },
        dir: ZERO,
    };
    Game::move_one_ghost(&mut c, Position { x: 0, y: 0 }, 3, 3, &map);
    assert_eq!(c.dir, UP);
    assert_eq!(c.pos, Position { x: 2, y: 1 });
}

#[test]
fn reversal_avoided_even_when_it_is_best() {
    // The chaser last moved right; going back left would land it on the
    // hunter, but the reversal is suppressed while other steps exist.
    let map = open_room(3, 3);
    let mut c = Chaser {
        pos: Position { x: 1, y: 1 },
        dir: Position { x: 1, y: 0 },
    };
    Game::move_one_ghost(&mut c, Position { x: 0, y: 1 }, 3, 3, &map);
    assert_ne!(c.dir, LEFT);
    // up, down and right tie at distance two; up is earliest
    assert_eq!(c.dir, UP);
    assert_eq!(c.pos, Position { x: 1, y: 0 });
}

#[test]
fn reversal_allowed_in_dead_end() {
    // Only the reversal is legal: it is then taken.
    let map = vec![vec![Thing::Empty, Thing::Empty, Thing::Wall]];
    let mut c = Chaser {
        pos: Position { x: 1, y: 0 },
        dir: Position { x: 1, y: 0 },
    };
    Game::move_one_ghost(&mut c, Position { x: 0, y: 0 }, 3, 1, &map);
    assert_eq!(c.dir, LEFT);
    assert_eq!(c.pos, Position { x: 0, y: 0 });
}

#[test]
fn boxed_in_chaser_stalls() {
    let mut map = open_room(3, 3);
    for x in 0..3 {
        map[0][x] = Thing::Wall;
        map[2][x] = Thing::Wall;
    }
    map[1][0] = Thing::Wall;
    map[1][2] = Thing::Wall;
    let mut c = Chaser {
        pos: Position { x: 1, y: 1 },
        dir: DOWN,
    };
    Game::move_one_ghost(&mut c, Position { x: 1, y: 1 }, 3, 3, &map);
    assert_eq!(c.pos, Position { x: 1, y: 1 });
    assert_eq!(c.dir, DOWN);
}

#[test]
fn greedy_step_toward_hunter() {
    // From a corner, both legal steps tie; down precedes right in the
    // enumeration order.
    let map = open_room(3, 3);
    let mut c = Chaser {
        pos: Position { x: 0, y: 0 },
        dir: ZERO,
    };
    Game::move_one_ghost(&mut c, Position { x: 2, y: 2 }, 3, 3, &map);
    assert_eq!(c.dir, DOWN);
    assert_eq!(c.pos, Position { x: 0, y: 1 });
    // with a single legal step, that step is taken
    let corridor = vec![vec![Thing::Empty, Thing::Empty, Thing::Empty]];
    let mut c2 = Chaser {
        pos: Position { x: 0, y: 0 },
        dir: ZERO,
    };
    Game::move_one_ghost(&mut c2, Position { x: 2, y: 0 }, 3, 1, &corridor);
    assert_eq!(c2.pos, Position { x: 1, y: 0 });
    assert_eq!(c2.dir, Position { x: 1, y: 0 });
}

#[test]
fn pellets_do_not_block_chasers() {
    let map = vec![vec![Thing::Empty, Thing::Pellet, Thing::Empty]];
    let mut c = Chaser {
        pos: Position { x: 0, y: 0 },
        dir: ZERO,
    };
    Game::move_one_ghost(&mut c, Position { x: 2, y: 0 }, 3, 1, &map);
    assert_eq!(c.pos, Position { x: 1, y: 0 });
}
