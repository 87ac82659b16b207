use foam_game::editing::EditingBoard;
use foam_game::playing::PlayingBoard;
use foam_game::tile::Tile;

fn sized(width: usize, height: usize) -> EditingBoard {
    let mut b = EditingBoard::default();
    b.set_size(width, height);
    b
}

#[test]
fn set_size_builds_empty_rows() {
    let b = sized(3, 2);
    assert_eq!(b.get_board().len(), 2);
    assert!(b.get_board().iter().all(|row| row.len() == 3 && row.iter().all(|t| *t == Tile::Empty)));
    assert_eq!(b.get_start_pos(), None);
    assert_eq!(b.get_end_pos(), None);
}

#[test]
fn playable_needs_start_and_end_tiles() {
    let mut b = sized(3, 1);
    assert!(!b.is_playable_board());
    *b.get_tile_mut(0, 0).unwrap() = Tile::StartSpace;
    assert!(!b.is_playable_board());
    *b.get_tile_mut(0, 2).unwrap() = Tile::EndSpace;
    assert!(b.is_playable_board());
    assert!(b.get_tile_mut(1, 0).is_none());
}

#[test]
fn selection_follows_the_board() {
    let mut b = sized(2, 2);
    assert!(!b.has_selected_tile());
    assert_eq!(b.get_selected_tile(), None);
    b.select_tile_position(1, 1);
    assert!(b.has_selected_tile());
    *b.get_selected_tile_mut().unwrap() = Tile::Ice;
    assert_eq!(b.get_selected_tile(), Some(&Tile::Ice));
    assert_eq!(b.get_tile(1, 1), Some(&Tile::Ice));
    b.select_tile_position(2, 0);
    assert!(!b.has_selected_tile());
    assert!(b.get_selected_tile_mut().is_none());
    b.select_type(Tile::Wall);
    assert_eq!(b.get_selected_type(), &Tile::Wall);
}

#[test]
fn play_board_starts_on_the_start() {
    let mut b = sized(3, 2);
    *b.get_tile_mut(0, 0).unwrap() = Tile::StartSpace;
    *b.get_tile_mut(1, 2).unwrap() = Tile::Cloud(foam_game::tile::CardinalDirectionsAllowed {
        up: true,
        right: false,
        down: false,
        left: false,
    });
    b.set_start_pos(0, 0);
    assert!(PlayingBoard::new(&b).is_none());
    b.set_end_pos(1, 2);
    let mut p = PlayingBoard::new(&b).unwrap();
    assert_eq!(p.get_player_position(), (0, 0));
    assert_eq!(p.get_player_position_isize(), (0, 0));
    assert_eq!(p.current_tile(), &Tile::StartSpace);
    assert!(!p.position_is_new());
    assert_eq!(p.get_tile(1, 2), b.get_tile(1, 2));
    assert_eq!(p.get_tile(2, 0), None);
    assert!(p.pos_is_valid(1, 2));
    assert!(!p.pos_is_valid(2, 0));
    assert!(p.pos_is_end_square(1, 2));
    assert!(!p.pos_is_end_square(0, 0));

    p.advance_player_position((1, 2));
    assert!(p.position_is_new());
    assert_eq!(p.previous_tile(), &Tile::StartSpace);
    p.advance_player_position((1, 1));
    assert!(matches!(p.previous_tile(), Tile::Cloud(_)));
    p.set_previous_tile(Tile::Empty);
    assert_eq!(p.get_tile(1, 2), Some(&Tile::Empty));
}

#[test]
fn play_board_accepts_a_start_off_the_board() {
    let mut b = sized(2, 1);
    b.set_start_pos(3, 3);
    b.set_end_pos(0, 1);
    let p = PlayingBoard::new(&b).unwrap();
    assert_eq!(p.get_player_position(), (3, 3));
    assert!(!p.position_is_new());
    assert_eq!(p.get_tile(0, 1), b.get_tile(0, 1));
    assert_eq!(p.get_tile(3, 3), None);
}

#[test]
fn play_board_needs_a_non_empty_rectangle() {
    let mut empty = EditingBoard::default();
    empty.set_start_pos(0, 0);
    empty.set_end_pos(0, 0);
    assert!(PlayingBoard::new(&empty).is_none());
    let mut b = sized(2, 2);
    b.set_start_pos(0, 0);
    assert!(PlayingBoard::new(&b).is_none());
}

#[test]
fn advancing_stores_any_position() {
    let mut b = sized(2, 2);
    b.set_start_pos(0, 0);
    b.set_end_pos(1, 1);
    let mut p = PlayingBoard::new(&b).unwrap();
    p.advance_player_position((5, 7));
    assert_eq!(p.get_player_position(), (5, 7));
    assert!(p.position_is_new());
    assert!(!p.pos_is_valid(5, 7));
    assert_eq!(p.previous_tile(), &Tile::Empty);
}
