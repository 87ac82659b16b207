//! Directions read from the arrow keys, and the input value handed to the
//! movement engine.

use vstd::prelude::*;

verus! {

/// A compass direction, or no direction at all (used to activate the
/// occupied tile without moving).
#[derive(Debug, Clone, Copy, PartialEq, Eq, Hash, Structural)]
pub enum DirectionKey {
    Up,
    Right,
    Down,
    Left,
    UpRight,
    DownRight,
    DownLeft,
    UpLeft,
    NoDirection,
}

impl DirectionKey {
    pub open spec fn is_cardinal_spec(self) -> bool {
        self is Up || self is Right || self is Down || self is Left
    }

    pub open spec fn is_diagonal_spec(self) -> bool {
        self is UpRight || self is DownRight || self is DownLeft || self is UpLeft
    }

    /// Unit step of the direction as (row change, column change); rows grow
    /// downwards and columns grow to the right.
    pub open spec fn delta(self) -> (int, int) {
        match self {
            DirectionKey::Up => (-1, 0),
            DirectionKey::Right => (0, 1),
            DirectionKey::Down => (1, 0),
            DirectionKey::Left => (0, -1),
            DirectionKey::UpRight => (-1, 1),
            DirectionKey::DownRight => (1, 1),
            DirectionKey::DownLeft => (1, -1),
            DirectionKey::UpLeft => (-1, -1),
            DirectionKey::NoDirection => (0, 0),
        }
    }

    pub fn is_cardinal(&self) -> (r: bool)
        ensures
            r == self.is_cardinal_spec(),
    {
        match self {
            DirectionKey::Up | DirectionKey::Right | DirectionKey::Down | DirectionKey::Left => true,
            _ => false,
        }
    }

    pub fn is_none(&self) -> (r: bool)
        ensures
            r == (*self is NoDirection),
    {
        match self {
            DirectionKey::NoDirection => true,
            _ => false,
        }
    }
}

/// One logical input event: a direction, how many cells to travel, and
/// whether the occupied tile should be used (for example a portal).
#[derive(Debug, Clone, Copy, PartialEq, Eq, Hash, Structural)]
pub struct PlayerMovementData {
    pub direction: DirectionKey,
    /// Number of tiles to move in the given direction.
    pub move_speed: usize,
    /// Whether the current tile should be used (e.g. a portal).
    pub use_tile: bool,
}

/// The direction that a combination of pressed arrow keys names: one key
/// gives a cardinal direction, two adjacent keys a diagonal, anything else
/// (nothing, opposite keys, three or four keys) no direction.
pub open spec fn direction_of_keys(up: bool, right: bool, down: bool, left: bool) -> DirectionKey {
    if up && !right && !down && !left {
        DirectionKey::Up
    } else if !up && right && !down && !left {
        DirectionKey::Right
    } else if !up && !right && down && !left {
        DirectionKey::Down
    } else if !up && !right && !down && left {
        DirectionKey::Left
    } else if up && right && !down && !left {
        DirectionKey::UpRight
    } else if !up && right && down && !left {
        DirectionKey::DownRight
    } else if !up && !right && down && left {
        DirectionKey::DownLeft
    } else if up && !right && !down && left {
        DirectionKey::UpLeft
    } else {
        DirectionKey::NoDirection
    }
}

/// The arrow keys (up, right, down, left) that make up a direction.
pub open spec fn keys_of_direction(direction: DirectionKey) -> (bool, bool, bool, bool) {
    match direction {
        DirectionKey::Up => (true, false, false, false),
        DirectionKey::Right => (false, true, false, false),
        DirectionKey::Down => (false, false, true, false),
        DirectionKey::Left => (false, false, false, true),
        DirectionKey::UpRight => (true, true, false, false),
        DirectionKey::DownRight => (false, true, true, false),
        DirectionKey::DownLeft => (false, false, true, true),
        DirectionKey::UpLeft => (true, false, false, true),
        DirectionKey::NoDirection => (false, false, false, false),
    }
}

/// Builds the input value from the pressed keys. There is no input when the
/// keys name no direction and the tile is not to be used.
pub fn movement_data_from_bools(
    up: bool,
    right: bool,
    down: bool,
    left: bool,
    move_speed: usize,
    use_tile: bool,
) -> (r: Option<PlayerMovementData>)
    ensures
        r == (if direction_of_keys(up, right, down, left) is NoDirection && !use_tile {
            None::<PlayerMovementData>
        } else {
            Some(
                PlayerMovementData {
                    direction: direction_of_keys(up, right, down, left),
                    move_speed,
                    use_tile,
                },
            )
        }),
{
    let direction = match (up, right, down, left) {
        (true, false, false, false) => DirectionKey::Up,
        (false, true, false, false) => DirectionKey::Right,
        (false, false, true, false) => DirectionKey::Down,
        (false, false, false, true) => DirectionKey::Left,
        (true, true, false, false) => DirectionKey::UpRight,
        (false, true, true, false) => DirectionKey::DownRight,
        (false, false, true, true) => DirectionKey::DownLeft,
        (true, false, false, true) => DirectionKey::UpLeft,
        _ => DirectionKey::NoDirection,
    };
    if direction == DirectionKey::NoDirection && !use_tile {
        return None;
    }
    Some(PlayerMovementData { direction, move_speed, use_tile })
}

/// The input for one frame of key presses: the arrow keys give the
/// direction, the fast modifier doubles the travel speed from one cell to
/// two, and the use key asks to use the occupied tile.
pub fn movement_data_from_keys(
    up: bool,
    right: bool,
    down: bool,
    left: bool,
    fast: bool,
    use_tile: bool,
) -> (r: Option<PlayerMovementData>)
    ensures
        r == (if direction_of_keys(up, right, down, left) is NoDirection && !use_tile {
            None::<PlayerMovementData>
        } else {
            Some(
                PlayerMovementData {
                    direction: direction_of_keys(up, right, down, left),
                    move_speed: if fast {
                        2
                    } else {
                        1
                    },
                    use_tile,
                },
            )
        }),
{
    let move_speed: usize = if fast {
        2
    } else {
        1
    };
    movement_data_from_bools(up, right, down, left, move_speed, use_tile)
}

/// The arrow keys (up, right, down, left) that make up `direction`.
pub fn direction_key_into_bools(direction: &DirectionKey) -> (r: (bool, bool, bool, bool))
    ensures
        r == keys_of_direction(*direction),
{
    let mut up = false;
    let mut right = false;
    let mut down = false;
    let mut left = false;
    match direction {
        DirectionKey::Up => up = true,
        DirectionKey::Right => right = true,
        DirectionKey::Down => down = true,
        DirectionKey::Left => left = true,
        DirectionKey::UpRight => {
            up = true;
            right = true;
        },
        DirectionKey::DownRight => {
            down = true;
            right = true;
        },
        DirectionKey::DownLeft => {
            down = true;
            left = true;
        },
        DirectionKey::UpLeft => {
            up = true;
            left = true;
        },
        DirectionKey::NoDirection => {},
    }
    (up, right, down, left)
}

/// Pressing the keys of a direction names that direction again.
pub proof fn lemma_keys_round_trip(direction: DirectionKey)
    ensures
        ({
            let (u, r, d, l) = keys_of_direction(direction);
            direction_of_keys(u, r, d, l) == direction
        }),
{
}

} // verus!
