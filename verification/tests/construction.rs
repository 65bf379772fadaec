use pacman_project::game::Game;
use pacman_project::grid::{Position, Thing};
use pacman_project::layout::LayoutError;

#[test]
fn empty_layout_rejected() {
    assert_eq!(Game::from_ascii(&[]).err(), Some(LayoutError::Empty));
    assert_eq!(Game::from_ascii(&[""]).err(), Some(LayoutError::Empty));
    assert_eq!(Game::from_ascii(&["", "P."]).err(), Some(LayoutError::Empty));
}

#[test]
fn non_rectangular_layout_rejected() {
    assert_eq!(
        Game::from_ascii(&["P.", "..."]).err(),
        Some(LayoutError::NonRectangular)
    );
    assert_eq!(
        Game::from_ascii(&["##", "#", "##"]).err(),
        Some(LayoutError::NonRectangular)
    );
}

#[test]
fn missing_hunter_rejected() {
    assert_eq!(Game::from_ascii(&["..."]).err(), Some(LayoutError::NoHunter));
    assert_eq!(
        Game::from_ascii(&["#G.", "..."]).err(),
        Some(LayoutError::NoHunter)
    );
}

#[test]
fn multiple_hunters_rejected() {
    assert_eq!(
        Game::from_ascii(&["P.P"]).err(),
        Some(LayoutError::MultipleHunters)
    );
    assert_eq!(
        Game::from_ascii(&["P.", ".P"]).err(),
        Some(LayoutError::MultipleHunters)
    );
}

#[test]
fn initial_state_from_layout() {
    let g = Game::from_ascii(&["#P.", "..G"]).unwrap();
    assert_eq!(g.score(), 0);
    assert_eq!(g.pellets_left(), 3);
    assert_eq!(g.tick_count(), 0);
    assert!(!g.is_game_over());
    assert!(!g.is_over());
    assert_eq!(g.pacman_pos(), Position { x: 1, y: 0 });
    assert_eq!(g.pacman_dir(), Position { x: 0, y: 0 });
    assert_eq!(g.wanted_dir(), Position { x: 0, y: 0 });
    assert_eq!(g.chaser_count(), 1);
    assert_eq!(g.chaser(0).pos, Position { x: 2, y: 1 });
    assert_eq!(g.chaser(0).dir, Position { x: 0, y: 0 });
    assert_eq!(g.thing(Position { x: 0, y: 0 }), Thing::Wall);
    assert_eq!(g.thing(Position { x: 2, y: 0 }), Thing::Pellet);
    // spawn markers leave empty floor behind
    assert_eq!(g.thing(Position { x: 1, y: 0 }), Thing::Empty);
    assert_eq!(g.thing(Position { x: 2, y: 1 }), Thing::Empty);
}

#[test]
fn other_characters_are_floor() {
    let g = Game::from_ascii(&["Pz9 ?"]).unwrap();
    assert_eq!(g.pellets_left(), 0);
    for x in 1..5 {
        assert_eq!(g.thing(Position { x, y: 0 }), Thing::Empty);
    }
}

#[test]
fn render_initial_frame() {
    let g = Game::from_ascii(&["#P.", "..G"]).unwrap();
    let frame = g.render();
    assert_eq!(frame.len(), 2);
    assert_eq!(frame[0], vec!['#', 'C', '.']);
    assert_eq!(frame[1], vec!['.', '.', 'G']);
}
