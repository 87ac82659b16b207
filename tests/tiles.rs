use foam_game::direction::{
    direction_key_into_bools, movement_data_from_bools, movement_data_from_keys, DirectionKey, PlayerMovementData,
};
use foam_game::item::{KeyItem, KeyOnUse, KeyOnWall, KeyOnEquip, KeyOnGet};
use foam_game::tile::{all_tiles, CardinalDirectionsAllowed, DiagonalDirectionsAllowed, Tile, TileData};

fn cardinal(up: bool, right: bool, down: bool, left: bool) -> CardinalDirectionsAllowed {
    CardinalDirectionsAllowed { up, right, down, left }
}

fn diagonal(up_right: bool, down_right: bool, down_left: bool, up_left: bool) -> DiagonalDirectionsAllowed {
    DiagonalDirectionsAllowed { up_right, down_right, down_left, up_left }
}

#[test]
fn movement_tiles_without_directions_are_invalid() {
    assert!(!Tile::MoveCardinal(cardinal(false, false, false, false)).is_valid());
    assert!(!Tile::Cloud(cardinal(false, false, false, false)).is_valid());
    assert!(!Tile::MoveDiagonal(diagonal(false, false, false, false)).is_valid());
    assert!(Tile::MoveCardinal(cardinal(false, false, true, false)).is_valid());
    assert!(Tile::Cloud(cardinal(true, false, false, false)).is_valid());
    assert!(Tile::MoveDiagonal(diagonal(false, false, false, true)).is_valid());
}

#[test]
fn bounce_validity_is_the_range_minus_one_to_one() {
    assert!(Tile::Bounce(-1).is_valid());
    assert!(Tile::Bounce(0).is_valid());
    assert!(Tile::Bounce(1).is_valid());
    assert!(!Tile::Bounce(2).is_valid());
    assert!(!Tile::Bounce(-2).is_valid());
    assert!(!Tile::Bounce(isize::MAX).is_valid());
}

#[test]
fn plain_tiles_are_valid() {
    for t in [
        Tile::Empty,
        Tile::Portal('Q', (3, 4)),
        Tile::Ice,
        Tile::Door,
        Tile::Wall,
        Tile::StartSpace,
        Tile::EndSpace,
    ] {
        assert!(t.is_valid());
    }
}

#[test]
fn palette_tiles_are_valid() {
    let tiles = all_tiles();
    assert_eq!(tiles.len(), 11);
    assert!(tiles.iter().all(|t| t.is_valid()));
    assert_eq!(tiles[0], Tile::MoveCardinal(cardinal(true, true, true, true)));
    assert_eq!(tiles[1], Tile::MoveDiagonal(diagonal(true, true, true, true)));
    assert_eq!(tiles[3], Tile::Bounce(0));
    assert_eq!(tiles[4], Tile::Portal('A', (0, 0)));
    assert_eq!(tiles[10], Tile::Empty);
    let keys = foam_game::item::all_keys();
    assert_eq!(keys.len(), 10);
    assert_eq!(keys[0], KeyItem::OnGet(KeyOnGet::FinishKey));
    assert_eq!(keys[1], KeyItem::OnUse(KeyOnUse::TeleportKey('A')));
    assert!(keys.iter().all(|k| *k != KeyItem::NoKey));
}

#[test]
fn cardinal_tile_allows_only_enabled_cardinals() {
    let t = Tile::MoveCardinal(cardinal(true, false, false, true));
    assert!(t.can_move_in_direction(&DirectionKey::Up));
    assert!(t.can_move_in_direction(&DirectionKey::Left));
    assert!(!t.can_move_in_direction(&DirectionKey::Right));
    assert!(!t.can_move_in_direction(&DirectionKey::Down));
    assert!(!t.can_move_in_direction(&DirectionKey::UpLeft));
    assert!(!t.can_move_in_direction(&DirectionKey::NoDirection));
}

#[test]
fn diagonal_tile_allows_only_enabled_diagonals() {
    let t = Tile::MoveDiagonal(diagonal(true, false, false, false));
    assert!(t.can_move_in_direction(&DirectionKey::UpRight));
    assert!(!t.can_move_in_direction(&DirectionKey::DownLeft));
    assert!(!t.can_move_in_direction(&DirectionKey::Up));
    assert!(!t.can_move_in_direction(&DirectionKey::Right));
}

#[test]
fn portal_allows_cardinals_and_no_direction() {
    let t = Tile::Portal('A', (0, 0));
    assert!(t.can_move_in_direction(&DirectionKey::Down));
    assert!(t.can_move_in_direction(&DirectionKey::NoDirection));
    assert!(!t.can_move_in_direction(&DirectionKey::DownRight));
}

#[test]
fn other_tiles_allow_only_cardinals() {
    for t in [Tile::Empty, Tile::Bounce(1), Tile::Ice, Tile::Door, Tile::Wall, Tile::StartSpace, Tile::EndSpace] {
        assert!(t.can_move_in_direction(&DirectionKey::Left));
        assert!(!t.can_move_in_direction(&DirectionKey::UpLeft));
        assert!(!t.can_move_in_direction(&DirectionKey::NoDirection));
    }
}

#[test]
fn tile_file_names_and_explanations() {
    assert_eq!(Tile::Wall.file_name(), "assets/wall.png");
    assert_eq!(Tile::Portal('B', (1, 1)).file_name(), "assets/portal.png");
    assert_eq!(Tile::Ice.explanation(), "An ice tile, which causes the player to slide.");
    assert_eq!(TileData::empty(), TileData { tile: Tile::Empty, key: KeyItem::NoKey });
    assert_eq!(TileData::default(), TileData::empty());
}

#[test]
fn key_items_describe_themselves() {
    assert_eq!(KeyItem::NoKey.file_name(), "assets/keys/none.png");
    assert_eq!(KeyItem::OnGet(KeyOnGet::FinishKey).file_name(), "assets/keys/finish.png");
    assert_eq!(KeyItem::OnUse(KeyOnUse::TeleportKey('C')).overlay(), Some('C'));
    assert_eq!(KeyItem::OnEquip(KeyOnEquip::OnWall(KeyOnWall::DoorKey('D'))).overlay(), Some('D'));
    assert_eq!(KeyItem::OnEquip(KeyOnEquip::OnWall(KeyOnWall::Wall)).overlay(), None);
    assert_eq!(
        KeyItem::OnEquip(KeyOnEquip::OnWall(KeyOnWall::Wall)).explanation(),
        "A key that allows you to jump over walls."
    );
}

#[test]
fn keys_name_directions() {
    let m = movement_data_from_bools(true, false, false, false, 1, false).unwrap();
    assert_eq!(m, PlayerMovementData { direction: DirectionKey::Up, move_speed: 1, use_tile: false });
    let m = movement_data_from_bools(false, true, true, false, 2, false).unwrap();
    assert_eq!(m.direction, DirectionKey::DownRight);
    assert_eq!(m.move_speed, 2);
    let m = movement_data_from_bools(true, false, false, true, 1, false).unwrap();
    assert_eq!(m.direction, DirectionKey::UpLeft);
}

#[test]
fn opposite_keys_name_no_direction() {
    assert_eq!(movement_data_from_bools(true, false, true, false, 1, false), None);
    assert_eq!(movement_data_from_bools(false, true, false, true, 1, false), None);
    assert_eq!(movement_data_from_bools(false, false, false, false, 1, false), None);
    let m = movement_data_from_bools(true, false, true, false, 1, true).unwrap();
    assert_eq!(m.direction, DirectionKey::NoDirection);
    assert!(m.use_tile);
}

#[test]
fn directions_split_into_keys() {
    assert_eq!(direction_key_into_bools(&DirectionKey::Up), (true, false, false, false));
    assert_eq!(direction_key_into_bools(&DirectionKey::DownLeft), (false, false, true, true));
    assert_eq!(direction_key_into_bools(&DirectionKey::NoDirection), (false, false, false, false));
    for d in [
        DirectionKey::Up,
        DirectionKey::Right,
        DirectionKey::Down,
        DirectionKey::Left,
        DirectionKey::UpRight,
        DirectionKey::DownRight,
        DirectionKey::DownLeft,
        DirectionKey::UpLeft,
    ] {
        let (u, r, dn, l) = direction_key_into_bools(&d);
        assert_eq!(movement_data_from_bools(u, r, dn, l, 1, false).unwrap().direction, d);
    }
    assert!(DirectionKey::Left.is_cardinal());
    assert!(!DirectionKey::UpRight.is_cardinal());
    assert!(DirectionKey::NoDirection.is_none());
}

#[test]
fn fast_modifier_doubles_speed() {
    let m = movement_data_from_keys(false, true, false, false, true, false).unwrap();
    assert_eq!(m.move_speed, 2);
    assert_eq!(m.direction, DirectionKey::Right);
    let m = movement_data_from_keys(false, true, false, false, false, false).unwrap();
    assert_eq!(m.move_speed, 1);
    assert_eq!(movement_data_from_keys(false, false, false, false, true, false), None);
}
