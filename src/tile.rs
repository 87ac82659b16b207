//! Board tiles: the closed set of movement rules a cell can hold.

use vstd::prelude::*;

use crate::direction::DirectionKey;
use crate::item::KeyItem;

verus! {

/// Which cardinal directions a player may leave a tile in.
#[derive(Debug, Clone, Copy, PartialEq, Eq, Hash, Structural)]
pub struct CardinalDirectionsAllowed {
    pub up: bool,
    pub right: bool,
    pub down: bool,
    pub left: bool,
}

impl CardinalDirectionsAllowed {
    pub open spec fn allows_spec(self, direction: DirectionKey) -> bool {
        match direction {
            DirectionKey::Up => self.up,
            DirectionKey::Right => self.right,
            DirectionKey::Down => self.down,
            DirectionKey::Left => self.left,
            _ => false,
        }
    }

    pub open spec fn any(self) -> bool {
        self.up || self.right || self.down || self.left
    }

    pub fn allows(&self, direction: &DirectionKey) -> (r: bool)
        ensures
            r == self.allows_spec(*direction),
    {
        match direction {
            DirectionKey::Up => self.up,
            DirectionKey::Right => self.right,
            DirectionKey::Down => self.down,
            DirectionKey::Left => self.left,
            _ => false,
        }
    }
}

/// Which diagonal directions a player may leave a tile in.
#[derive(Debug, Clone, Copy, PartialEq, Eq, Hash, Structural)]
pub struct DiagonalDirectionsAllowed {
    pub up_right: bool,
    pub down_right: bool,
    pub down_left: bool,
    pub up_left: bool,
}

impl DiagonalDirectionsAllowed {
    pub open spec fn allows_spec(self, direction: DirectionKey) -> bool {
        match direction {
            DirectionKey::UpRight => self.up_right,
            DirectionKey::DownRight => self.down_right,
            DirectionKey::DownLeft => self.down_left,
            DirectionKey::UpLeft => self.up_left,
            _ => false,
        }
    }

    pub open spec fn any(self) -> bool {
        self.up_right || self.down_right || self.down_left || self.up_left
    }

    pub fn allows(&self, direction: &DirectionKey) -> (r: bool)
        ensures
            r == self.allows_spec(*direction),
    {
        match direction {
            DirectionKey::UpRight => self.up_right,
            DirectionKey::DownRight => self.down_right,
            DirectionKey::DownLeft => self.down_left,
            DirectionKey::UpLeft => self.up_left,
            _ => false,
        }
    }
}

/// Each tile occupies one cell of the board and has its own movement rule.
#[derive(Debug, Clone, Copy, Eq, Hash)]
pub enum Tile {
    /// Inert; a traversal that lands here ends.
    Empty,
    /// May be left only in the enabled cardinal directions.
    MoveCardinal(CardinalDirectionsAllowed),
    /// May be left only in the enabled diagonal directions.
    MoveDiagonal(DiagonalDirectionsAllowed),
    /// Like `MoveCardinal`, but disappears once the player leaves it.
    Cloud(CardinalDirectionsAllowed),
    /// Adds its amount to the travel speed of a player landing on it.
    Bounce(isize),
    /// Teleports to the linked cell (row, column) when used; the letter
    /// pairs two portals.
    Portal(char, (usize, usize)),
    /// Resets the travel speed to one cell.
    Ice,
    Door,
    /// Blocks movement.
    Wall,
    /// Where the player starts.
    StartSpace,
    /// Reaching it solves the puzzle.
    EndSpace,
}

impl PartialEq for Tile {
    fn eq(&self, other: &Tile) -> (r: bool) {
        match (self, other) {
            (Tile::Empty, Tile::Empty) => true,
            (Tile::MoveCardinal(a), Tile::MoveCardinal(b)) => a == b,
            (Tile::MoveDiagonal(a), Tile::MoveDiagonal(b)) => a == b,
            (Tile::Cloud(a), Tile::Cloud(b)) => a == b,
            (Tile::Bounce(a), Tile::Bounce(b)) => a == b,
            (Tile::Portal(c, p), Tile::Portal(d, q)) => c == d && p.0 == q.0 && p.1 == q.1,
            (Tile::Ice, Tile::Ice) => true,
            (Tile::Door, Tile::Door) => true,
            (Tile::Wall, Tile::Wall) => true,
            (Tile::StartSpace, Tile::StartSpace) => true,
            (Tile::EndSpace, Tile::EndSpace) => true,
            _ => false,
        }
    }
}

impl vstd::std_specs::cmp::PartialEqSpecImpl for Tile {
    open spec fn obeys_eq_spec() -> bool {
        true
    }

    open spec fn eq_spec(&self, other: &Tile) -> bool {
        *self == *other
    }
}

/// Structural validity of a tile: a movement tile allows at least one
/// direction and a bounce amount lies in [-1, 1].
pub open spec fn tile_valid(tile: Tile) -> bool {
    match tile {
        Tile::MoveCardinal(d) => d.any(),
        Tile::Cloud(d) => d.any(),
        Tile::MoveDiagonal(d) => d.any(),
        Tile::Bounce(u) => -1 <= u <= 1,
        _ => true,
    }
}

/// Whether a player may leave `tile` in `direction`.
pub open spec fn tile_allows(tile: Tile, direction: DirectionKey) -> bool {
    match tile {
        Tile::MoveCardinal(d) => d.allows_spec(direction),
        Tile::Cloud(d) => d.allows_spec(direction),
        Tile::MoveDiagonal(d) => d.allows_spec(direction),
        Tile::Portal(..) => direction.is_cardinal_spec() || direction is NoDirection,
        _ => direction.is_cardinal_spec(),
    }
}

/// Path of the image drawn for a tile.
pub open spec fn tile_file_name(tile: Tile) -> Seq<char> {
    match tile {
        Tile::Empty => "assets/empty.png"@,
        Tile::MoveCardinal(_) => "assets/move_cardinal.png"@,
        Tile::MoveDiagonal(_) => "assets/move_diagonal.png"@,
        Tile::Cloud(_) => "assets/cloud.png"@,
        Tile::Bounce(_) => "assets/bounce.png"@,
        Tile::Portal(..) => "assets/portal.png"@,
        Tile::Ice => "assets/ice.png"@,
        Tile::Door => "assets/door.png"@,
        Tile::Wall => "assets/wall.png"@,
        Tile::StartSpace => "assets/start_space.png"@,
        Tile::EndSpace => "assets/end_space.png"@,
    }
}

/// One-line description of a tile shown to the user.
pub open spec fn tile_explanation(tile: Tile) -> Seq<char> {
    match tile {
        Tile::Empty => "An empty tile, no special properties."@,
        Tile::MoveCardinal(_) => "A tile that allows moving up, down, left, right. Use arrow keys to toggle directions."@,
        Tile::MoveDiagonal(_) => "A tile that allows moving up-right, down-right, down-left, up-left. Use arrow keys to toggle directions."@,
        Tile::Cloud(_) => "A cloud tile that disappears after one use. Use arrow keys to toggle directions."@,
        Tile::Bounce(_) => "A tile that bounces the player a certain distance. Use up and down to set the bounce modifier."@,
        Tile::Portal(..) => "A portal tile that teleports the player to another location. Type a letter to identify the portal."@,
        Tile::Door => "A door tile, which requires a key to pass. Type a letter to identify the door."@,
        Tile::Ice => "An ice tile, which causes the player to slide."@,
        Tile::Wall => "A wall tile, which blocks movement."@,
        Tile::StartSpace => "The starting space for the player."@,
        Tile::EndSpace => "The end space for the puzzle completion."@,
    }
}

impl Tile {
    pub fn file_name(&self) -> (r: &'static str)
        ensures
            r@ == tile_file_name(*self),
    {
        match self {
            Tile::Empty => "assets/empty.png",
            Tile::MoveCardinal(_) => "assets/move_cardinal.png",
            Tile::MoveDiagonal(_) => "assets/move_diagonal.png",
            Tile::Cloud(_) => "assets/cloud.png",
            Tile::Bounce(_) => "assets/bounce.png",
            Tile::Portal(..) => "assets/portal.png",
            Tile::Ice => "assets/ice.png",
            Tile::Door => "assets/door.png",
            Tile::Wall => "assets/wall.png",
            Tile::StartSpace => "assets/start_space.png",
            Tile::EndSpace => "assets/end_space.png",
        }
    }

    pub fn explanation(&self) -> (r: &'static str)
        ensures
            r@ == tile_explanation(*self),
    {
        match self {
            Tile::Empty => "An empty tile, no special properties.",
            Tile::MoveCardinal(_) => "A tile that allows moving up, down, left, right. Use arrow keys to toggle directions.",
            Tile::MoveDiagonal(_) => "A tile that allows moving up-right, down-right, down-left, up-left. Use arrow keys to toggle directions.",
            Tile::Cloud(_) => "A cloud tile that disappears after one use. Use arrow keys to toggle directions.",
            Tile::Bounce(_) => "A tile that bounces the player a certain distance. Use up and down to set the bounce modifier.",
            Tile::Portal(..) => "A portal tile that teleports the player to another location. Type a letter to identify the portal.",
            Tile::Door => "A door tile, which requires a key to pass. Type a letter to identify the door.",
            Tile::Ice => "An ice tile, which causes the player to slide.",
            Tile::Wall => "A wall tile, which blocks movement.",
            Tile::StartSpace => "The starting space for the player.",
            Tile::EndSpace => "The end space for the puzzle completion.",
        }
    }

    /// Checks the tile against the game rules; an invalid tile keeps a
    /// board from being played.
    pub fn is_valid(&self) -> (r: bool)
        ensures
            r == tile_valid(*self),
            (*self matches Tile::MoveCardinal(d) && !d.up && !d.right && !d.down && !d.left) ==> !r,
            (*self matches Tile::Cloud(d) && !d.up && !d.right && !d.down && !d.left) ==> !r,
            (*self matches Tile::Bounce(u) && (u < -1 || u > 1)) ==> !r,
            (*self matches Tile::MoveCardinal(d) && (d.up || d.right || d.down || d.left)) ==> r,
            (*self matches Tile::Cloud(d) && (d.up || d.right || d.down || d.left)) ==> r,
            (*self matches Tile::Bounce(u) && -1 <= u <= 1) ==> r,
    {
        match self {
            Tile::MoveCardinal(directions) | Tile::Cloud(directions) => {
                directions.up || directions.down || directions.left || directions.right
            },
            Tile::MoveDiagonal(directions) => {
                directions.up_right || directions.down_right || directions.down_left
                    || directions.up_left
            },
            Tile::Bounce(u) => -1 <= *u && *u <= 1,
            Tile::Empty
            | Tile::Portal(..)
            | Tile::Ice
            | Tile::Door
            | Tile::Wall
            | Tile::StartSpace
            | Tile::EndSpace => true,
        }
    }

    /// Whether a player standing on this tile may leave it in `direction`.
    /// Restriction is a property of the tile being left, not of the one
    /// being entered.
    pub fn can_move_in_direction(&self, direction: &DirectionKey) -> (r: bool)
        ensures
            r == tile_allows(*self, *direction),
    {
        match self {
            Tile::MoveCardinal(directions) => directions.allows(direction),
            Tile::Cloud(directions) => directions.allows(direction),
            Tile::MoveDiagonal(directions) => directions.allows(direction),
            Tile::Portal(..) => direction.is_cardinal() || direction.is_none(),
            _ => direction.is_cardinal(),
        }
    }
}

/// The content of one board cell: a tile and the key item lying on it.
#[derive(Debug, Clone, Copy, Eq, Hash)]
pub struct TileData {
    pub tile: Tile,
    pub key: KeyItem,
}

impl PartialEq for TileData {
    fn eq(&self, other: &TileData) -> (r: bool) {
        self.tile == other.tile && self.key == other.key
    }
}

impl vstd::std_specs::cmp::PartialEqSpecImpl for TileData {
    open spec fn obeys_eq_spec() -> bool {
        true
    }

    open spec fn eq_spec(&self, other: &TileData) -> bool {
        *self == *other
    }
}

impl TileData {
    pub fn empty() -> (r: Self)
        ensures
            r.tile is Empty,
            r.key is NoKey,
    {
        TileData { tile: Tile::Empty, key: KeyItem::NoKey }
    }
}

impl Default for TileData {
    fn default() -> (r: Self)
        ensures
            r.tile is Empty,
            r.key is NoKey,
    {
        TileData::empty()
    }
}

/// Every direction of a cardinal movement tile enabled.
pub open spec fn all_cardinal() -> CardinalDirectionsAllowed {
    CardinalDirectionsAllowed { up: true, right: true, down: true, left: true }
}

/// Every direction of a diagonal movement tile enabled.
pub open spec fn all_diagonal() -> DiagonalDirectionsAllowed {
    DiagonalDirectionsAllowed { up_right: true, down_right: true, down_left: true, up_left: true }
}

/// The tiles offered by the editor's palette, in palette order.
pub fn all_tiles() -> (r: Vec<Tile>)
    ensures
        r@ == seq![
            Tile::MoveCardinal(all_cardinal()),
            Tile::MoveDiagonal(all_diagonal()),
            Tile::Cloud(all_cardinal()),
            Tile::Bounce(0),
            Tile::Portal('A', (0usize, 0usize)),
            Tile::Ice,
            Tile::Door,
            Tile::Wall,
            Tile::StartSpace,
            Tile::EndSpace,
            Tile::Empty,
        ],
{
    let all = CardinalDirectionsAllowed { up: true, right: true, down: true, left: true };
    let diagonals = DiagonalDirectionsAllowed {
        up_right: true,
        down_right: true,
        down_left: true,
        up_left: true,
    };
    let r = vec![
        Tile::MoveCardinal(all),
        Tile::MoveDiagonal(diagonals),
        Tile::Cloud(all),
        Tile::Bounce(0),
        Tile::Portal('A', (0, 0)),
        Tile::Ice,
        Tile::Door,
        Tile::Wall,
        Tile::StartSpace,
        Tile::EndSpace,
        Tile::Empty,
    ];
    assert(r@ =~= seq![
        Tile::MoveCardinal(all_cardinal()),
        Tile::MoveDiagonal(all_diagonal()),
        Tile::Cloud(all_cardinal()),
        Tile::Bounce(0),
        Tile::Portal('A', (0usize, 0usize)),
        Tile::Ice,
        Tile::Door,
        Tile::Wall,
        Tile::StartSpace,
        Tile::EndSpace,
        Tile::Empty,
    ]);
    r
}

} // verus!
