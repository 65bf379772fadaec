use pacman_project::game::Game;
use pacman_project::grid::{Position, Thing};

const UP: Position = Position { x: 0, y: -1 };
const DOWN: Position = Position { x: 0, y: 1 };
const RIGHT: Position = Position { x: 1, y: 0 };

#[test]
fn zero_direction_is_never_a_move() {
    let g = Game::from_ascii(&["P.", ".."]).unwrap();
    let zero = Position { x: 0, y: 0 };
    assert!(!g.can_move(Position { x: 0, y: 0 }, zero));
    assert!(!g.can_move(Position { x: 1, y: 1 }, zero));
}

#[test]
fn legal_move_lands_in_bounds_off_walls() {
    let g = Game::from_ascii(&["P.#"]).unwrap();
    let origin = Position { x: 0, y: 0 };
    assert!(g.can_move(origin, RIGHT));
    let next = g.next_position(origin, RIGHT);
    assert!(g.in_bounds(next));
    assert_ne!(g.thing(next), Thing::Wall);
    // a wall blocks
    assert!(!g.can_move(Position { x: 1, y: 0 }, RIGHT));
    // the board edge blocks
    assert!(!g.can_move(origin, Position { x: -1, y: 0 }));
    assert!(!g.can_move(origin, UP));
    assert!(!g.can_move(origin, DOWN));
}

#[test]
fn manhattan_distance_values() {
    assert_eq!(
        Game::manhattan_distance(Position { x: 0, y: 0 }, Position { x: 3, y: 4 }),
        7
    );
    assert_eq!(
        Game::manhattan_distance(Position { x: 2, y: 1 }, Position { x: 2, y: 1 }),
        0
    );
    assert_eq!(
        Game::manhattan_distance(Position { x: -2, y: 3 }, Position { x: 1, y: 1 }),
        5
    );
}

#[test]
fn opposite_direction_values() {
    assert_eq!(Game::opposite(RIGHT), Position { x: -1, y: 0 });
    assert_eq!(Game::opposite(UP), DOWN);
    assert_eq!(
        Game::opposite(Position { x: 0, y: 0 }),
        Position { x: 0, y: 0 }
    );
}

#[test]
fn illegal_wanted_direction_stalls() {
    let mut g = Game::from_ascii(&["P."]).unwrap();
    g.set_wanted_dir(UP); // off the board: never legal here
    g.update();
    assert_eq!(g.pacman_pos(), Position { x: 0, y: 0 });
    assert_eq!(g.score(), 0);
    // the wanted direction is retained, not reset
    assert_eq!(g.wanted_dir(), UP);
    // a legal input then takes over
    g.set_wanted_dir(RIGHT);
    g.update();
    assert_eq!(g.pacman_pos(), Position { x: 1, y: 0 });
    assert_eq!(g.score(), 1);
}

#[test]
fn buffered_turn_taken_when_it_becomes_legal() {
    // The hunter runs right along the top corridor; `down` is pressed while
    // still blocked and takes effect exactly at the first opening.
    let mut g = Game::from_ascii(&["P...", "##.#"]).unwrap();
    g.set_wanted_dir(RIGHT);
    g.update();
    assert_eq!(g.pacman_pos(), Position { x: 1, y: 0 });
    g.set_wanted_dir(DOWN);
    g.update(); // down still walled: keeps going right
    assert_eq!(g.pacman_pos(), Position { x: 2, y: 0 });
    assert_eq!(g.pacman_dir(), RIGHT);
    assert_eq!(g.wanted_dir(), DOWN);
    g.update(); // the opening at (2,1): the buffered turn happens
    assert_eq!(g.pacman_pos(), Position { x: 2, y: 1 });
    assert_eq!(g.pacman_dir(), DOWN);
}

#[test]
fn set_thing_changes_one_cell() {
    let mut g = Game::from_ascii(&["P.", ".."]).unwrap();
    g.set_thing(Position { x: 1, y: 1 }, Thing::Wall);
    assert_eq!(g.thing(Position { x: 1, y: 1 }), Thing::Wall);
    assert_eq!(g.thing(Position { x: 0, y: 1 }), Thing::Pellet);
    assert_eq!(g.thing(Position { x: 1, y: 0 }), Thing::Pellet);
}
