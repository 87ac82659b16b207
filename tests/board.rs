use foam_game::direction::{DirectionKey, PlayerMovementData};
use foam_game::editing_model::EditingModel;
use foam_game::item::{KeyItem, KeyOnGet};
use foam_game::tile::{CardinalDirectionsAllowed, DiagonalDirectionsAllowed, Tile, TileData};

fn keypress(direction: DirectionKey) -> PlayerMovementData {
    PlayerMovementData { direction, move_speed: 1, use_tile: false }
}

fn tile(m: &EditingModel, r: usize, c: usize) -> Tile {
    m.get_board()[r][c].tile
}

fn board_with_start_and_end(rows: usize, cols: usize) -> EditingModel {
    let mut m = EditingModel::new((rows, cols));
    m.set_tile((0, 0), Tile::StartSpace);
    m.set_tile((rows - 1, cols - 1), Tile::EndSpace);
    m
}

#[test]
fn new_board_is_empty() {
    let m = EditingModel::new((2, 3));
    assert_eq!(m.get_board_size(), (2, 3));
    assert_eq!(m.get_board().len(), 2);
    assert!(m.get_board().iter().all(|row| row.len() == 3 && row.iter().all(|c| *c == TileData::empty())));
    assert_eq!(m.get_start_pos(), None);
    assert_eq!(m.get_end_pos(), None);
}

#[test]
fn setting_a_new_start_clears_the_old_one() {
    let mut m = EditingModel::new((2, 2));
    m.set_tile((0, 0), Tile::StartSpace);
    m.set_tile((1, 1), Tile::StartSpace);
    assert_eq!(tile(&m, 0, 0), Tile::Empty);
    assert_eq!(tile(&m, 1, 1), Tile::StartSpace);
    assert_eq!(m.get_start_pos(), Some((1, 1)));
}

#[test]
fn setting_a_new_end_clears_the_old_one() {
    let mut m = EditingModel::new((1, 3));
    m.set_tile((0, 2), Tile::EndSpace);
    m.set_tile((0, 1), Tile::EndSpace);
    assert_eq!(tile(&m, 0, 2), Tile::Empty);
    assert_eq!(m.get_end_pos(), Some((0, 1)));
}

#[test]
fn overwriting_the_start_forgets_it() {
    let mut m = EditingModel::new((1, 2));
    m.set_tile((0, 0), Tile::StartSpace);
    m.set_tile((0, 0), Tile::Wall);
    assert_eq!(m.get_start_pos(), None);
    assert_eq!(tile(&m, 0, 0), Tile::Wall);
}

#[test]
fn set_tile_off_the_board_is_ignored() {
    let mut m = EditingModel::new((1, 2));
    m.set_tile((0, 0), Tile::StartSpace);
    m.set_tile((5, 0), Tile::StartSpace);
    assert_eq!(m.get_start_pos(), Some((0, 0)));
    assert_eq!(tile(&m, 0, 0), Tile::StartSpace);
}

#[test]
fn set_tile_refuses_invalid_tiles() {
    let mut m = EditingModel::new((1, 2));
    m.set_tile((0, 1), Tile::Bounce(3));
    assert_eq!(tile(&m, 0, 1), Tile::Empty);
}

#[test]
fn keys_go_only_on_non_empty_tiles() {
    let mut m = EditingModel::new((1, 2));
    m.set_tile((0, 1), Tile::Ice);
    m.set_key((0, 0), KeyItem::OnGet(KeyOnGet::FinishKey));
    m.set_key((0, 1), KeyItem::OnGet(KeyOnGet::FinishKey));
    m.set_key((3, 3), KeyItem::OnGet(KeyOnGet::FinishKey));
    assert_eq!(m.get_board()[0][0].key, KeyItem::NoKey);
    assert_eq!(m.get_board()[0][1].key, KeyItem::OnGet(KeyOnGet::FinishKey));
    assert_eq!(m.get_board()[0][1].tile, Tile::Ice);
}

#[test]
fn editing_toggles_cardinal_directions() {
    let mut m = EditingModel::new((1, 1));
    let all = CardinalDirectionsAllowed { up: true, right: true, down: true, left: true };
    m.set_tile((0, 0), Tile::MoveCardinal(all));
    m.edit_tile((0, 0), &keypress(DirectionKey::Up));
    assert_eq!(
        tile(&m, 0, 0),
        Tile::MoveCardinal(CardinalDirectionsAllowed { up: false, right: true, down: true, left: true })
    );
    m.edit_tile((0, 0), &keypress(DirectionKey::DownRight));
    assert_eq!(
        tile(&m, 0, 0),
        Tile::MoveCardinal(CardinalDirectionsAllowed { up: false, right: false, down: false, left: true })
    );
}

#[test]
fn editing_never_clears_the_last_direction() {
    let mut m = EditingModel::new((1, 1));
    let only_left = CardinalDirectionsAllowed { up: false, right: false, down: false, left: true };
    m.set_tile((0, 0), Tile::Cloud(only_left));
    m.edit_tile((0, 0), &keypress(DirectionKey::Left));
    assert_eq!(tile(&m, 0, 0), Tile::Cloud(only_left));
    let only_up_right = DiagonalDirectionsAllowed { up_right: true, down_right: false, down_left: false, up_left: false };
    m.set_tile((0, 0), Tile::MoveDiagonal(only_up_right));
    m.edit_tile((0, 0), &keypress(DirectionKey::UpRight));
    assert_eq!(tile(&m, 0, 0), Tile::MoveDiagonal(only_up_right));
    m.edit_tile((0, 0), &keypress(DirectionKey::DownLeft));
    assert_eq!(
        tile(&m, 0, 0),
        Tile::MoveDiagonal(DiagonalDirectionsAllowed { up_right: true, down_right: false, down_left: true, up_left: false })
    );
    m.edit_tile((0, 0), &keypress(DirectionKey::Up));
    assert_eq!(
        tile(&m, 0, 0),
        Tile::MoveDiagonal(DiagonalDirectionsAllowed { up_right: true, down_right: false, down_left: true, up_left: false })
    );
}

#[test]
fn bounce_edits_stay_in_range() {
    let mut m = EditingModel::new((1, 1));
    m.set_tile((0, 0), Tile::Bounce(0));
    m.edit_tile((0, 0), &keypress(DirectionKey::Up));
    assert_eq!(tile(&m, 0, 0), Tile::Bounce(1));
    m.edit_tile((0, 0), &keypress(DirectionKey::Up));
    assert_eq!(tile(&m, 0, 0), Tile::Bounce(1));
    m.edit_tile((0, 0), &keypress(DirectionKey::Down));
    m.edit_tile((0, 0), &keypress(DirectionKey::Down));
    assert_eq!(tile(&m, 0, 0), Tile::Bounce(-1));
    m.edit_tile((0, 0), &keypress(DirectionKey::Down));
    assert_eq!(tile(&m, 0, 0), Tile::Bounce(-1));
}

#[test]
fn portal_letters_cycle_and_wrap() {
    let mut m = EditingModel::new((1, 1));
    m.set_tile((0, 0), Tile::Portal('A', (0, 0)));
    m.edit_tile((0, 0), &keypress(DirectionKey::Up));
    assert_eq!(tile(&m, 0, 0), Tile::Portal('B', (0, 0)));
    m.edit_tile((0, 0), &keypress(DirectionKey::Down));
    m.edit_tile((0, 0), &keypress(DirectionKey::Down));
    assert_eq!(tile(&m, 0, 0), Tile::Portal('Z', (0, 0)));
    m.edit_tile((0, 0), &keypress(DirectionKey::Up));
    assert_eq!(tile(&m, 0, 0), Tile::Portal('A', (0, 0)));
    m.edit_tile((0, 0), &keypress(DirectionKey::Left));
    assert_eq!(tile(&m, 0, 0), Tile::Portal('A', (0, 0)));
}

#[test]
fn edit_off_the_board_is_ignored() {
    let mut m = EditingModel::new((1, 1));
    m.edit_tile((4, 4), &keypress(DirectionKey::Up));
    assert_eq!(tile(&m, 0, 0), Tile::Empty);
}

#[test]
fn board_without_start_or_end_is_not_playable() {
    let mut m = EditingModel::new((1, 3));
    assert!(!m.board_is_playable());
    m.set_tile((0, 0), Tile::StartSpace);
    assert!(!m.board_is_playable());
    m.set_tile((0, 2), Tile::EndSpace);
    assert!(m.board_is_playable());
}

#[test]
fn two_portals_are_linked_to_each_other() {
    let mut m = board_with_start_and_end(2, 3);
    m.set_tile((0, 1), Tile::Portal('A', (0, 0)));
    m.set_tile((1, 0), Tile::Portal('A', (0, 0)));
    assert!(m.board_is_playable());
    assert_eq!(tile(&m, 0, 1), Tile::Portal('A', (1, 0)));
    assert_eq!(tile(&m, 1, 0), Tile::Portal('A', (0, 1)));
}

#[test]
fn linking_is_symmetric_for_every_letter() {
    let mut m = board_with_start_and_end(3, 4);
    m.set_tile((0, 1), Tile::Portal('A', (0, 0)));
    m.set_tile((2, 0), Tile::Portal('B', (0, 0)));
    m.set_tile((1, 3), Tile::Portal('A', (0, 0)));
    m.set_tile((1, 1), Tile::Portal('B', (0, 0)));
    assert!(m.board_is_playable());
    let board = m.get_board();
    for (r, row) in board.iter().enumerate() {
        for (c, cell) in row.iter().enumerate() {
            if let Tile::Portal(letter, (lr, lc)) = cell.tile {
                assert_ne!((lr, lc), (r, c));
                assert_eq!(board[lr][lc].tile, Tile::Portal(letter, (r, c)));
            }
        }
    }
}

#[test]
fn linking_again_changes_nothing() {
    let mut m = board_with_start_and_end(2, 2);
    m.set_tile((0, 1), Tile::Portal('C', (0, 0)));
    m.set_tile((1, 0), Tile::Portal('C', (0, 0)));
    assert!(m.board_is_playable());
    let first = m.get_board().clone();
    assert!(m.board_is_playable());
    assert_eq!(*m.get_board(), first);
}

#[test]
fn unpaired_portal_letters_make_a_board_unplayable() {
    let mut m = board_with_start_and_end(2, 3);
    m.set_tile((0, 1), Tile::Portal('A', (0, 0)));
    assert!(!m.board_is_playable());
    m.set_tile((0, 2), Tile::Portal('A', (0, 0)));
    m.set_tile((1, 0), Tile::Portal('A', (0, 0)));
    assert!(!m.board_is_playable());
    assert_eq!(tile(&m, 0, 1), Tile::Portal('A', (0, 0)));
    m.set_tile((1, 0), Tile::Portal('B', (0, 0)));
    assert!(!m.board_is_playable());
    m.set_tile((1, 1), Tile::Portal('B', (0, 0)));
    assert!(m.board_is_playable());
}

#[test]
fn invalid_tile_makes_a_board_unplayable() {
    let board = vec![
        vec![TileData { tile: Tile::StartSpace, key: KeyItem::NoKey }, TileData { tile: Tile::Bounce(2), key: KeyItem::NoKey }],
        vec![TileData::empty(), TileData { tile: Tile::EndSpace, key: KeyItem::NoKey }],
    ];
    let mut m = EditingModel::from_parts(board, (2, 2), Some((0, 0)), Some((1, 1))).unwrap();
    assert!(!m.board_is_playable());
}

#[test]
fn stored_parts_must_be_consistent() {
    let start = TileData { tile: Tile::StartSpace, key: KeyItem::NoKey };
    let ok = vec![vec![start, TileData::empty()]];
    assert!(EditingModel::from_parts(ok.clone(), (1, 2), Some((0, 0)), None).is_some());
    assert!(EditingModel::from_parts(ok.clone(), (1, 2), None, None).is_none());
    assert!(EditingModel::from_parts(ok.clone(), (1, 2), Some((0, 1)), None).is_none());
    assert!(EditingModel::from_parts(ok.clone(), (2, 1), Some((0, 0)), None).is_none());
    let ragged = vec![vec![start], vec![TileData::empty(), TileData::empty()]];
    assert!(EditingModel::from_parts(ragged, (2, 1), Some((0, 0)), None).is_none());
}
