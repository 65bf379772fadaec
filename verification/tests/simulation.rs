use pacman_project::game::Game;
use pacman_project::grid::{Position, Thing};

const RIGHT: Position = Position { x: 1, y: 0 };

#[test]
fn hunter_pellet_chaser_scenario() {
    // Layout "P.G": hunter, one pellet, chaser two cells to the right.
    let mut g = Game::from_ascii(&["P.G"]).unwrap();
    g.set_wanted_dir(RIGHT);
    g.update();
    assert_eq!(g.pacman_pos(), Position { x: 1, y: 0 });
    assert_eq!(g.score(), 1);
    assert_eq!(g.pellets_left(), 0);
    assert!(!g.is_game_over());
    assert_eq!(g.tick_count(), 1);
    assert_eq!(g.chaser(0).pos, Position { x: 2, y: 0 });
    // The last pellet is gone, so the session is already over (won) and
    // further ticks are frozen: the chaser never advances.
    assert!(g.is_over());
    g.update();
    assert_eq!(g.pacman_pos(), Position { x: 1, y: 0 });
    assert_eq!(g.chaser(0).pos, Position { x: 2, y: 0 });
    assert_eq!(g.score(), 1);
    assert_eq!(g.tick_count(), 1);
    assert!(!g.is_game_over());
}

#[test]
fn pellet_counter_tracks_the_board() {
    let mut g = Game::from_ascii(&["P...."]).unwrap();
    g.set_wanted_dir(RIGHT);
    assert_eq!(g.pellets_left(), 4);
    for step in 1..=4u32 {
        g.update();
        assert_eq!(g.score(), step);
        assert_eq!(g.pellets_left(), 4 - step);
        assert_eq!(g.score() + g.pellets_left(), 4);
        // the cell just left behind is empty now
        assert_eq!(g.thing(Position { x: step as i32, y: 0 }), Thing::Empty);
    }
    assert!(g.is_over());
    assert!(!g.is_game_over());
}

#[test]
fn score_rises_by_one_only_on_pellets() {
    // Pellet, floor, pellet: the middle tick leaves the score alone.
    let mut g = Game::from_ascii(&["P. ."]).unwrap();
    g.set_wanted_dir(RIGHT);
    g.update();
    assert_eq!(g.score(), 1);
    g.update();
    assert_eq!(g.score(), 1);
    g.update();
    assert_eq!(g.score(), 2);
    assert_eq!(g.pellets_left(), 0);
}

#[test]
fn corridor_crossing_ends_the_game() {
    // One-wide corridor; by the second tick hunter and chaser are adjacent
    // and heading toward each other. The exchange of cells is fatal: the
    // engine catches it at the hunter's half of the swap, before the
    // chaser's own move is even attempted.
    let mut g = Game::from_ascii(&["P G."]).unwrap();
    g.set_wanted_dir(RIGHT);
    g.update();
    assert!(!g.is_game_over());
    assert_eq!(g.pacman_pos(), Position { x: 1, y: 0 });
    assert_eq!(g.chaser(0).pos, Position { x: 2, y: 0 });
    g.update();
    assert!(g.is_game_over());
    assert_eq!(g.pacman_pos(), Position { x: 2, y: 0 });
    assert_eq!(g.chaser(0).pos, Position { x: 2, y: 0 });
    // the fatal tick is cut short: the counter was never advanced
    assert_eq!(g.tick_count(), 1);
    assert_eq!(g.score(), 0);
    assert_eq!(g.pellets_left(), 1);
}

#[test]
fn game_over_is_frozen() {
    let mut g = Game::from_ascii(&["P G."]).unwrap();
    g.set_wanted_dir(RIGHT);
    g.update();
    g.update();
    assert!(g.is_game_over());
    let pos = g.pacman_pos();
    let chaser = g.chaser(0);
    let (score, pellets, ticks) = (g.score(), g.pellets_left(), g.tick_count());
    for _ in 0..3 {
        g.update();
        assert!(g.is_game_over());
        assert_eq!(g.pacman_pos(), pos);
        assert_eq!(g.chaser(0), chaser);
        assert_eq!(g.score(), score);
        assert_eq!(g.pellets_left(), pellets);
        assert_eq!(g.tick_count(), ticks);
    }
}

#[test]
fn chaser_advances_every_other_tick_and_catches() {
    // The hunter never moves; the chaser closes in at half speed and the
    // catch (chaser stepping onto the hunter) ends the game.
    let mut g = Game::from_ascii(&["P  G."]).unwrap();
    g.update(); // tick 1: chasers hold
    assert_eq!(g.chaser(0).pos, Position { x: 3, y: 0 });
    g.update(); // tick 2: chaser steps left
    assert_eq!(g.chaser(0).pos, Position { x: 2, y: 0 });
    assert!(!g.is_game_over());
    g.update(); // tick 3: chasers hold
    assert_eq!(g.chaser(0).pos, Position { x: 2, y: 0 });
    g.update(); // tick 4: chaser steps left again
    assert_eq!(g.chaser(0).pos, Position { x: 1, y: 0 });
    assert!(!g.is_game_over());
    g.update(); // tick 5: chasers hold
    g.update(); // tick 6: the chaser steps onto the hunter
    assert_eq!(g.chaser(0).pos, Position { x: 0, y: 0 });
    assert!(g.is_game_over());
    assert_eq!(g.pellets_left(), 1); // lost, not won
}

#[test]
fn dying_tick_grants_no_pickup() {
    // The hunter steps onto a pellet in the very tick the chaser reaches
    // that cell: the collision is checked first, so the pellet is never
    // scored and stays on the board.
    let mut g = Game::from_ascii(&["P..G"]).unwrap();
    g.set_wanted_dir(RIGHT);
    g.update(); // hunter eats the first pellet, chaser holds (tick 1)
    assert_eq!(g.score(), 1);
    assert_eq!(g.pellets_left(), 1);
    g.update(); // tick 2: both reach the second pellet's cell
    assert!(g.is_game_over());
    assert_eq!(g.pacman_pos(), Position { x: 2, y: 0 });
    assert_eq!(g.chaser(0).pos, Position { x: 2, y: 0 });
    assert_eq!(g.score(), 1);
    assert_eq!(g.pellets_left(), 1);
    assert_eq!(g.thing(Position { x: 2, y: 0 }), Thing::Pellet);
}

#[test]
fn layout_without_chasers_plays_out() {
    let mut g = Game::from_ascii(&["P.."]).unwrap();
    assert_eq!(g.chaser_count(), 0);
    g.set_wanted_dir(RIGHT);
    g.update();
    g.update();
    assert_eq!(g.score(), 2);
    assert_eq!(g.pellets_left(), 0);
    assert!(g.is_over());
    assert!(!g.is_game_over());
}

#[test]
fn chasers_move_independently() {
    // Two chasers close in from both sides; neither eats the pellets it
    // passes over, and the game ends when the first one reaches the hunter.
    let mut g = Game::from_ascii(&["G.P.G"]).unwrap();
    g.update(); // tick 1: hold
    assert_eq!(g.chaser(0).pos, Position { x: 0, y: 0 });
    assert_eq!(g.chaser(1).pos, Position { x: 4, y: 0 });
    g.update(); // tick 2: both advance one step
    assert_eq!(g.chaser(0).pos, Position { x: 1, y: 0 });
    assert_eq!(g.chaser(1).pos, Position { x: 3, y: 0 });
    assert_eq!(g.pellets_left(), 2);
    assert!(!g.is_game_over());
    g.update(); // tick 3: hold
    g.update(); // tick 4: both step onto the hunter
    assert!(g.is_game_over());
    assert_eq!(g.chaser(0).pos, Position { x: 2, y: 0 });
    assert_eq!(g.pellets_left(), 2);
}

#[test]
fn render_follows_the_state() {
    let mut g = Game::from_ascii(&["P.G"]).unwrap();
    g.set_wanted_dir(RIGHT);
    g.update();
    let frame = g.render();
    assert_eq!(frame, vec![vec![' ', 'C', 'G']]);
}
