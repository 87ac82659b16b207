use foam_game::direction::{DirectionKey, PlayerMovementData};
use foam_game::editing_model::EditingModel;
use foam_game::item::KeyItem;
use foam_game::movement::{resolve_step, step_once, StepOutcome};
use foam_game::playing_model::PlayingModel;
use foam_game::tile::{CardinalDirectionsAllowed, DiagonalDirectionsAllowed, Tile, TileData};

fn cell(tile: Tile) -> TileData {
    TileData { tile, key: KeyItem::NoKey }
}

fn input(direction: DirectionKey, move_speed: usize) -> PlayerMovementData {
    PlayerMovementData { direction, move_speed, use_tile: false }
}

fn right_only() -> Tile {
    Tile::MoveCardinal(CardinalDirectionsAllowed { up: false, right: true, down: false, left: false })
}

/// A one-row board with the start at column 0, played on its padded copy.
fn row_session(tiles: &[Tile]) -> PlayingModel {
    let mut m = EditingModel::new((1, tiles.len()));
    for (c, t) in tiles.iter().enumerate() {
        m.set_tile((0, c), *t);
    }
    PlayingModel::new(&m)
}

/// Column of the player on the edited board (the runtime board is padded).
fn column(p: &PlayingModel) -> usize {
    assert_eq!(p.get_player_pos().0, 1);
    p.get_player_pos().1 - 1
}

#[test]
fn runtime_board_is_padded() {
    let p = row_session(&[Tile::StartSpace, Tile::Ice, Tile::EndSpace]);
    assert_eq!(p.get_board_size(), (3, 5));
    assert_eq!(p.get_player_pos(), (1, 1));
    let b = p.get_board();
    assert_eq!(b.len(), 3);
    assert!(b[0].iter().all(|c| c.tile == Tile::Empty));
    assert!(b[2].iter().all(|c| c.tile == Tile::Empty));
    assert_eq!(b[1][0].tile, Tile::Empty);
    assert_eq!(b[1][2].tile, Tile::Ice);
    assert_eq!(b[1][4].tile, Tile::Empty);
    assert_eq!(p.current_tile(), Tile::StartSpace);
}

#[test]
fn portal_links_move_with_the_padding() {
    let mut m = EditingModel::new((1, 4));
    m.set_tile((0, 0), Tile::StartSpace);
    m.set_tile((0, 3), Tile::EndSpace);
    m.set_tile((0, 1), Tile::Portal('A', (0, 0)));
    m.set_tile((0, 2), Tile::Portal('A', (0, 0)));
    assert!(m.board_is_playable());
    let p = PlayingModel::new(&m);
    assert_eq!(p.get_board()[1][2].tile, Tile::Portal('A', (1, 3)));
    assert_eq!(p.get_board()[1][3].tile, Tile::Portal('A', (1, 2)));
}

#[test]
fn moving_onto_a_directional_tile_then_the_end() {
    let mut p = row_session(&[Tile::StartSpace, right_only(), Tile::EndSpace]);
    let mut m = input(DirectionKey::Right, 1);
    assert!(!p.handle_player_movement(&mut m));
    assert_eq!(column(&p), 1);
    assert_eq!(m.move_speed, 0);
    let mut m = input(DirectionKey::Right, 1);
    assert!(p.handle_player_movement(&mut m));
    assert_eq!(column(&p), 2);
}

#[test]
fn end_to_end_success_outcome() {
    let mut board = vec![vec![cell(Tile::StartSpace), cell(right_only()), cell(Tile::EndSpace)]];
    let (pos, _, outcome) = resolve_step(&mut board, (0, 0), input(DirectionKey::Right, 1));
    assert_eq!((pos, outcome), ((0, 1), StepOutcome::Completed));
    let (pos, _, outcome) = resolve_step(&mut board, pos, input(DirectionKey::Right, 1));
    assert_eq!((pos, outcome), ((0, 2), StepOutcome::Success));
    let (pos, _, outcome) = resolve_step(&mut board, (0, 0), input(DirectionKey::Right, 2));
    assert_eq!((pos, outcome), ((0, 2), StepOutcome::Success));
}

#[test]
fn adjacent_wall_keeps_the_player_in_place() {
    let mut board = vec![vec![cell(Tile::StartSpace), cell(Tile::Wall), cell(Tile::EndSpace)]];
    let (pos, _, outcome) = resolve_step(&mut board, (0, 0), input(DirectionKey::Right, 2));
    assert_eq!(outcome, StepOutcome::Blocked);
    assert_eq!(pos, (0, 0));
    let mut p = row_session(&[Tile::StartSpace, Tile::Wall, Tile::EndSpace]);
    let mut m = input(DirectionKey::Right, 2);
    assert!(!p.handle_player_movement(&mut m));
    assert_eq!(column(&p), 0);
}

#[test]
fn wall_stops_the_player_one_cell_short() {
    for beyond in [Tile::EndSpace, Tile::Empty, Tile::Wall, Tile::Ice] {
        let mut board = vec![vec![
            cell(Tile::StartSpace),
            cell(Tile::Empty),
            cell(Tile::Wall),
            cell(beyond),
            cell(Tile::Empty),
        ]];
        let (pos, _, outcome) = resolve_step(&mut board, (0, 0), input(DirectionKey::Right, 3));
        assert_eq!(outcome, StepOutcome::Blocked);
        assert_eq!(pos, (0, 1));
    }
}

#[test]
fn wall_moving_left_stops_at_the_nearest_wall() {
    let mut board = vec![vec![
        cell(Tile::Empty),
        cell(Tile::Wall),
        cell(Tile::Empty),
        cell(Tile::Wall),
        cell(Tile::Empty),
        cell(Tile::StartSpace),
    ]];
    let (pos, _, outcome) = resolve_step(&mut board, (0, 5), input(DirectionKey::Left, 4));
    assert_eq!(outcome, StepOutcome::Blocked);
    assert_eq!(pos, (0, 4));
}

#[test]
fn bounces_chain_until_a_plain_tile() {
    // start, bounce, -, bounce, -, -, door
    let mut p = row_session(&[
        Tile::StartSpace,
        Tile::Bounce(1),
        Tile::Empty,
        Tile::Bounce(1),
        Tile::Empty,
        Tile::Empty,
        Tile::Door,
        Tile::EndSpace,
    ]);
    let mut m = input(DirectionKey::Right, 1);
    assert!(!p.handle_player_movement(&mut m));
    assert_eq!(column(&p), 6);
    assert_eq!(m.move_speed, 0);
}

#[test]
fn bounce_chain_step_by_step() {
    let mut board = vec![vec![
        cell(Tile::StartSpace),
        cell(Tile::Bounce(1)),
        cell(Tile::Empty),
        cell(Tile::Bounce(1)),
        cell(Tile::Empty),
        cell(Tile::Empty),
        cell(Tile::Door),
        cell(Tile::Empty),
    ]];
    let r = step_once(&mut board, (0, 0), DirectionKey::Right, 1, false);
    assert_eq!(r, ((0, 1), 2, StepOutcome::Continue));
    let r = step_once(&mut board, (0, 1), DirectionKey::Right, 2, false);
    assert_eq!(r, ((0, 3), 3, StepOutcome::Continue));
    let r = step_once(&mut board, (0, 3), DirectionKey::Right, 3, false);
    assert_eq!(r, ((0, 6), 0, StepOutcome::Completed));
}

#[test]
fn negative_bounce_can_stop_the_chain() {
    let mut board = vec![vec![cell(Tile::StartSpace), cell(Tile::Bounce(-1)), cell(Tile::EndSpace)]];
    let r = step_once(&mut board, (0, 0), DirectionKey::Right, 1, false);
    assert_eq!(r, ((0, 1), 0, StepOutcome::Completed));
}

#[test]
fn ice_resets_speed_to_one() {
    let mut board = vec![vec![
        cell(Tile::StartSpace),
        cell(Tile::Empty),
        cell(Tile::Ice),
        cell(Tile::Ice),
        cell(Tile::EndSpace),
    ]];
    let r = step_once(&mut board, (0, 0), DirectionKey::Right, 2, false);
    assert_eq!(r, ((0, 2), 1, StepOutcome::Continue));
    let (pos, _, outcome) = resolve_step(&mut board, (0, 0), input(DirectionKey::Right, 2));
    assert_eq!((pos, outcome), ((0, 4), StepOutcome::Success));
}

#[test]
fn landing_on_empty_completes() {
    let mut board = vec![vec![cell(Tile::StartSpace), cell(Tile::Empty), cell(Tile::Ice)]];
    let (pos, _, outcome) = resolve_step(&mut board, (0, 0), input(DirectionKey::Right, 1));
    assert_eq!((pos, outcome), ((0, 1), StepOutcome::Completed));
}

#[test]
fn cloud_is_used_up_when_left() {
    let up_only = CardinalDirectionsAllowed { up: true, right: false, down: false, left: false };
    let mut board = vec![vec![cell(Tile::Empty)], vec![cell(Tile::Cloud(up_only))]];
    let (pos, _, outcome) = resolve_step(&mut board, (1, 0), input(DirectionKey::Up, 1));
    assert_eq!((pos, outcome), ((0, 0), StepOutcome::Completed));
    assert_eq!(board[1][0].tile, Tile::Empty);
}

#[test]
fn cloud_stays_when_the_player_stays() {
    let up_only = CardinalDirectionsAllowed { up: true, right: false, down: false, left: false };
    let mut board = vec![vec![cell(Tile::Wall), cell(Tile::Empty)], vec![cell(Tile::Cloud(up_only)), cell(Tile::Empty)]];
    let (pos, _, outcome) = resolve_step(&mut board, (1, 0), input(DirectionKey::Up, 1));
    assert_eq!((pos, outcome), ((1, 0), StepOutcome::Blocked));
    assert_eq!(board[1][0].tile, Tile::Cloud(up_only));
    let (pos, _, outcome) = resolve_step(&mut board, (1, 0), input(DirectionKey::Right, 1));
    assert_eq!((pos, outcome), ((1, 0), StepOutcome::NoMovement));
    assert_eq!(board[1][0].tile, Tile::Cloud(up_only));
}

#[test]
fn disallowed_direction_does_not_move() {
    let mut board = vec![vec![cell(right_only()), cell(Tile::Empty)], vec![cell(Tile::Empty), cell(Tile::Empty)]];
    let (pos, _, outcome) = resolve_step(&mut board, (0, 0), input(DirectionKey::Down, 1));
    assert_eq!((pos, outcome), ((0, 0), StepOutcome::NoMovement));
    let (pos, _, outcome) = resolve_step(&mut board, (0, 0), input(DirectionKey::DownRight, 1));
    assert_eq!((pos, outcome), ((0, 0), StepOutcome::NoMovement));
}

#[test]
fn movement_is_clamped_to_the_board() {
    let mut board = vec![vec![cell(Tile::StartSpace), cell(Tile::Door)]];
    let (pos, _, outcome) = resolve_step(&mut board, (0, 0), input(DirectionKey::Left, 1));
    assert_eq!((pos, outcome), ((0, 0), StepOutcome::NoMovement));
    let (pos, _, outcome) = resolve_step(&mut board, (0, 0), input(DirectionKey::Right, 5));
    assert_eq!((pos, outcome), ((0, 1), StepOutcome::Completed));
}

#[test]
fn diagonal_moves_from_a_diagonal_tile() {
    let d = DiagonalDirectionsAllowed { up_right: false, down_right: true, down_left: false, up_left: false };
    let mut board = vec![
        vec![cell(Tile::MoveDiagonal(d)), cell(Tile::Empty), cell(Tile::Empty)],
        vec![cell(Tile::Empty), cell(Tile::Empty), cell(Tile::Empty)],
        vec![cell(Tile::Empty), cell(Tile::Empty), cell(Tile::EndSpace)],
    ];
    let (pos, _, outcome) = resolve_step(&mut board, (0, 0), input(DirectionKey::DownRight, 2));
    assert_eq!((pos, outcome), ((2, 2), StepOutcome::Success));
}

#[test]
fn using_a_portal_teleports() {
    let mut board = vec![vec![cell(Tile::Portal('A', (0, 2))), cell(Tile::Empty), cell(Tile::Portal('A', (0, 0)))]];
    let used = PlayerMovementData { direction: DirectionKey::NoDirection, move_speed: 1, use_tile: true };
    let (pos, _, outcome) = resolve_step(&mut board, (0, 0), used);
    assert_eq!((pos, outcome), ((0, 2), StepOutcome::NoMovement));
    let unused = PlayerMovementData { direction: DirectionKey::NoDirection, move_speed: 1, use_tile: false };
    let (pos, _, outcome) = resolve_step(&mut board, (0, 0), unused);
    assert_eq!((pos, outcome), ((0, 0), StepOutcome::NoMovement));
}

#[test]
fn resolution_is_repeatable() {
    let make = || {
        vec![
            vec![cell(Tile::StartSpace), cell(Tile::Bounce(1)), cell(Tile::Ice), cell(Tile::Empty), cell(Tile::Wall)],
            vec![cell(Tile::Empty), cell(Tile::Empty), cell(Tile::Empty), cell(Tile::Empty), cell(Tile::Empty)],
        ]
    };
    let mut a = make();
    let mut b = make();
    let ra = resolve_step(&mut a, (0, 0), input(DirectionKey::Right, 1));
    let rb = resolve_step(&mut b, (0, 0), input(DirectionKey::Right, 1));
    assert_eq!(ra, rb);
    assert_eq!(a, b);
}

#[test]
fn animation_plays_an_input_back_tile_by_tile() {
    let mut p = row_session(&[
        Tile::StartSpace,
        Tile::Ice,
        Tile::Ice,
        Tile::EndSpace,
    ]);
    assert!(!p.is_animating());
    assert_eq!(p.step_animation(), StepOutcome::NoMovement);
    p.start_movement_animation(input(DirectionKey::Right, 1));
    assert!(p.is_animating());
    assert_eq!(p.step_animation(), StepOutcome::Continue);
    assert_eq!(column(&p), 1);
    assert_eq!(p.step_animation(), StepOutcome::Continue);
    assert_eq!(column(&p), 2);
    assert_eq!(p.step_animation(), StepOutcome::Success);
    assert_eq!(column(&p), 3);
    assert!(!p.is_animating());
}

#[test]
fn animation_ends_at_once_without_movement() {
    let mut p = row_session(&[Tile::StartSpace, Tile::EndSpace]);
    p.start_movement_animation(input(DirectionKey::UpRight, 1));
    assert_eq!(p.step_animation(), StepOutcome::NoMovement);
    assert!(!p.is_animating());
    assert_eq!(column(&p), 0);
}

#[test]
fn cloud_is_used_up_after_a_longer_chain() {
    let up_only = CardinalDirectionsAllowed { up: true, right: false, down: false, left: false };
    let p = {
        let mut m = EditingModel::new((4, 1));
        m.set_tile((3, 0), Tile::StartSpace);
        m.set_tile((0, 0), Tile::EndSpace);
        PlayingModel::new(&m)
    };
    let mut board = p.get_board().clone();
    board[4][1].tile = Tile::Cloud(up_only);
    board[3][1].tile = Tile::Ice;
    board[2][1].tile = Tile::Ice;
    let (pos, _, outcome) = resolve_step(&mut board, (4, 1), input(DirectionKey::Up, 1));
    assert_eq!((pos, outcome), ((1, 1), StepOutcome::Success));
    assert_eq!(board[4][1].tile, Tile::Empty);
}
