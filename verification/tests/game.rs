use wasm_goban::game::{color_name, GoGame, MAX_PLAYS, MAX_SIDE};

#[test]
fn new_game_has_the_requested_size() {
    let g = GoGame::new((9, 9));
    assert_eq!(g.height(), 9);
    assert_eq!(g.width(), 9);
    assert_eq!(g.game().size(), (9, 9));
    let g = GoGame::new((13, 19));
    assert_eq!((g.height(), g.width()), (13, 19));
    assert_eq!(g.game().size(), (13, 19));
    assert_eq!(MAX_SIDE, 19);
}

#[test]
fn black_moves_first_and_turns_alternate() {
    let mut g = GoGame::new((9, 9));
    assert_eq!(g.turn_color(), "black");
    g.put_stone(2, 3);
    assert_eq!(g.turn_color(), "white");
    g.put_stone(4, 4);
    assert_eq!(g.turn_color(), "black");
    assert_eq!((g.height(), g.width()), (9, 9));
}

#[test]
fn put_stone_places_a_stone_at_the_index() {
    let mut g = GoGame::new((9, 9));
    g.put_stone(2, 3);
    assert_eq!(
        g.game().goban().get_color((2u8, 3u8)),
        Some(goban::pieces::stones::Color::Black)
    );
    assert_eq!(g.game().goban().get_color((3u8, 2u8)), None);
    g.put_stone(8, 8);
    assert_eq!(
        g.game().goban().get_color((8u8, 8u8)),
        Some(goban::pieces::stones::Color::White)
    );
}

#[test]
fn color_names() {
    assert_eq!(color_name(true), "black");
    assert_eq!(color_name(false), "white");
}

#[test]
fn new_board_is_empty_and_stones_fill_points() {
    let mut g = GoGame::new((9, 9));
    for x in 0..9 {
        for y in 0..9 {
            assert!(g.is_vacant(x, y));
        }
    }
    g.put_stone(2, 3);
    assert!(!g.is_vacant(2, 3));
    assert!(g.is_vacant(3, 2));
}

#[test]
fn try_put_stone_refuses_occupied_off_board_and_non_square() {
    let mut g = GoGame::new((9, 9));
    assert!(g.try_put_stone(2, 3));
    assert_eq!(g.turn_color(), "white");
    assert!(!g.try_put_stone(2, 3));
    assert_eq!(g.turn_color(), "white");
    assert!(!g.try_put_stone(9, 0));
    assert!(!g.try_put_stone(0, 9));
    assert!(g.try_put_stone(2, 4));
    assert_eq!(g.turn_color(), "black");

    let mut h = GoGame::new((13, 19));
    assert!(!h.try_put_stone(0, 0));
    assert_eq!(h.turn_color(), "black");
}

#[test]
fn capture_empties_the_captured_point() {
    let mut g = GoGame::new((9, 9));
    g.put_stone(0, 1); // black
    g.put_stone(0, 0); // white, in the corner
    g.put_stone(1, 0); // black captures it
    assert!(g.is_vacant(0, 0));
    assert!(!g.is_vacant(0, 1));
    assert!(!g.is_vacant(1, 0));
    assert_eq!(g.turn_color(), "white");
}

#[test]
fn move_count_follows_the_stones_played() {
    let mut g = GoGame::new((9, 9));
    assert_eq!(g.move_count(), 0);
    g.put_stone(0, 0);
    assert!(!g.try_put_stone(0, 0));
    assert_eq!(g.move_count(), 1);
    assert!(g.try_put_stone(1, 1));
    assert_eq!(g.move_count(), 2);
    assert_eq!(MAX_PLAYS, 65535);
}
