//! Key items: single-use items that a board cell may carry. They have no
//! effect on movement.

use vstd::prelude::*;

verus! {

/// Keys that activate on receiving them.
#[derive(Debug, Clone, Copy, PartialEq, Eq, Hash, Structural)]
pub enum KeyOnGet {
    /// Must be collected before going to the finish.
    FinishKey,
}

/// Keys that activate on use.
#[derive(Debug, Clone, Copy, PartialEq, Eq, Hash, Structural)]
pub enum KeyOnUse {
    /// Teleports to a portal.
    TeleportKey(char),
}

/// Keys that activate on movement.
#[derive(Debug, Clone, Copy, PartialEq, Eq, Hash, Structural)]
pub enum KeyOnMovement {
    /// Move in a disallowed cardinal direction.
    Cardinal,
    /// Move in a diagonal direction.
    Diagonal,
}

/// Keys that activate on hitting a wall.
#[derive(Debug, Clone, Copy, PartialEq, Eq, Hash, Structural)]
pub enum KeyOnWall {
    /// Opens a door.
    DoorKey(char),
    /// Jumps over a wall.
    Wall,
}

/// Keys that activate mid-bounce.
#[derive(Debug, Clone, Copy, PartialEq, Eq, Hash, Structural)]
pub enum KeyOnBounce {
    BounceLess,
    BounceMore,
    BounceChange,
}

/// Keys that activate on landing on an empty tile.
#[derive(Debug, Clone, Copy, PartialEq, Eq, Hash, Structural)]
pub enum KeyOnEmpty {
    /// Jump on air.
    CloudKey,
}

/// Keys that are equipped.
#[derive(Debug, Clone, Copy, PartialEq, Eq, Hash, Structural)]
pub enum KeyOnEquip {
    OnMovement(KeyOnMovement),
    OnWall(KeyOnWall),
    OnBounce(KeyOnBounce),
    OnEmpty(KeyOnEmpty),
}

#[derive(Debug, Clone, Copy, PartialEq, Eq, Hash, Structural)]
pub enum KeyItem {
    /// The cell carries no key item.
    NoKey,
    OnGet(KeyOnGet),
    OnUse(KeyOnUse),
    OnEquip(KeyOnEquip),
}

/// Path of the image drawn for a key item.
pub open spec fn key_file_name(key: KeyItem) -> Seq<char> {
    match key {
        KeyItem::NoKey => "assets/keys/none.png"@,
        KeyItem::OnGet(KeyOnGet::FinishKey) => "assets/keys/finish.png"@,
        KeyItem::OnUse(KeyOnUse::TeleportKey(_)) => "assets/keys/teleport.png"@,
        KeyItem::OnEquip(KeyOnEquip::OnMovement(KeyOnMovement::Cardinal)) => "assets/keys/cardinal.png"@,
        KeyItem::OnEquip(KeyOnEquip::OnMovement(KeyOnMovement::Diagonal)) => "assets/keys/diagonal.png"@,
        KeyItem::OnEquip(KeyOnEquip::OnWall(KeyOnWall::DoorKey(_))) => "assets/keys/door.png"@,
        KeyItem::OnEquip(KeyOnEquip::OnWall(KeyOnWall::Wall)) => "assets/keys/wall.png"@,
        KeyItem::OnEquip(KeyOnEquip::OnBounce(KeyOnBounce::BounceLess)) => "assets/keys/bounce_less.png"@,
        KeyItem::OnEquip(KeyOnEquip::OnBounce(KeyOnBounce::BounceMore)) => "assets/keys/bounce_more.png"@,
        KeyItem::OnEquip(KeyOnEquip::OnBounce(KeyOnBounce::BounceChange)) => "assets/keys/bounce_change.png"@,
        KeyItem::OnEquip(KeyOnEquip::OnEmpty(KeyOnEmpty::CloudKey)) => "assets/keys/cloud.png"@,
    }
}

/// One-line description of a key item shown to the user.
pub open spec fn key_explanation(key: KeyItem) -> Seq<char> {
    match key {
        KeyItem::NoKey => "No key item."@,
        KeyItem::OnGet(KeyOnGet::FinishKey) => "A key that must be collected before reaching the end."@,
        KeyItem::OnUse(KeyOnUse::TeleportKey(_)) => "A key that teleports you to a portal with the same letter."@,
        KeyItem::OnEquip(KeyOnEquip::OnMovement(KeyOnMovement::Cardinal)) => "A key that allows you to move in a disallowed cardinal direction."@,
        KeyItem::OnEquip(KeyOnEquip::OnMovement(KeyOnMovement::Diagonal)) => "A key that allows you to move in a disallowed diagonal direction."@,
        KeyItem::OnEquip(KeyOnEquip::OnWall(KeyOnWall::DoorKey(_))) => "A key that opens a door with the same letter."@,
        KeyItem::OnEquip(KeyOnEquip::OnWall(KeyOnWall::Wall)) => "A key that allows you to jump over walls."@,
        KeyItem::OnEquip(KeyOnEquip::OnBounce(KeyOnBounce::BounceLess)) => "A key that reduces your bounce by 1."@,
        KeyItem::OnEquip(KeyOnEquip::OnBounce(KeyOnBounce::BounceMore)) => "A key that increases your bounce by 1."@,
        KeyItem::OnEquip(KeyOnEquip::OnBounce(KeyOnBounce::BounceChange)) => "A key that changes your bounce direction."@,
        KeyItem::OnEquip(KeyOnEquip::OnEmpty(KeyOnEmpty::CloudKey)) => "A key that allows you to jump on empty tiles."@,
    }
}

impl KeyItem {
    pub fn file_name(&self) -> (r: &'static str)
        ensures
            r@ == key_file_name(*self),
    {
        match self {
            KeyItem::NoKey => "assets/keys/none.png",
            KeyItem::OnGet(KeyOnGet::FinishKey) => "assets/keys/finish.png",
            KeyItem::OnUse(KeyOnUse::TeleportKey(_)) => "assets/keys/teleport.png",
            KeyItem::OnEquip(KeyOnEquip::OnMovement(KeyOnMovement::Cardinal)) => "assets/keys/cardinal.png",
            KeyItem::OnEquip(KeyOnEquip::OnMovement(KeyOnMovement::Diagonal)) => "assets/keys/diagonal.png",
            KeyItem::OnEquip(KeyOnEquip::OnWall(KeyOnWall::DoorKey(_))) => "assets/keys/door.png",
            KeyItem::OnEquip(KeyOnEquip::OnWall(KeyOnWall::Wall)) => "assets/keys/wall.png",
            KeyItem::OnEquip(KeyOnEquip::OnBounce(KeyOnBounce::BounceLess)) => "assets/keys/bounce_less.png",
            KeyItem::OnEquip(KeyOnEquip::OnBounce(KeyOnBounce::BounceMore)) => "assets/keys/bounce_more.png",
            KeyItem::OnEquip(KeyOnEquip::OnBounce(KeyOnBounce::BounceChange)) => "assets/keys/bounce_change.png",
            KeyItem::OnEquip(KeyOnEquip::OnEmpty(KeyOnEmpty::CloudKey)) => "assets/keys/cloud.png",
        }
    }

    /// The letter drawn over the key's image, for keys that carry one.
    pub fn overlay(&self) -> (r: Option<char>)
        ensures
            r == (match *self {
                KeyItem::OnUse(KeyOnUse::TeleportKey(c)) => Some(c),
                KeyItem::OnEquip(KeyOnEquip::OnWall(KeyOnWall::DoorKey(c))) => Some(c),
                _ => None::<char>,
            }),
    {
        match self {
            KeyItem::OnUse(KeyOnUse::TeleportKey(c)) => Some(*c),
            KeyItem::OnEquip(KeyOnEquip::OnWall(KeyOnWall::DoorKey(c))) => Some(*c),
            _ => None,
        }
    }

    pub fn explanation(&self) -> (r: &'static str)
        ensures
            r@ == key_explanation(*self),
    {
        match self {
            KeyItem::NoKey => "No key item.",
            KeyItem::OnGet(KeyOnGet::FinishKey) => "A key that must be collected before reaching the end.",
            KeyItem::OnUse(KeyOnUse::TeleportKey(_)) => "A key that teleports you to a portal with the same letter.",
            KeyItem::OnEquip(KeyOnEquip::OnMovement(KeyOnMovement::Cardinal)) => "A key that allows you to move in a disallowed cardinal direction.",
            KeyItem::OnEquip(KeyOnEquip::OnMovement(KeyOnMovement::Diagonal)) => "A key that allows you to move in a disallowed diagonal direction.",
            KeyItem::OnEquip(KeyOnEquip::OnWall(KeyOnWall::DoorKey(_))) => "A key that opens a door with the same letter.",
            KeyItem::OnEquip(KeyOnEquip::OnWall(KeyOnWall::Wall)) => "A key that allows you to jump over walls.",
            KeyItem::OnEquip(KeyOnEquip::OnBounce(KeyOnBounce::BounceLess)) => "A key that reduces your bounce by 1.",
            KeyItem::OnEquip(KeyOnEquip::OnBounce(KeyOnBounce::BounceMore)) => "A key that increases your bounce by 1.",
            KeyItem::OnEquip(KeyOnEquip::OnBounce(KeyOnBounce::BounceChange)) => "A key that changes your bounce direction.",
            KeyItem::OnEquip(KeyOnEquip::OnEmpty(KeyOnEmpty::CloudKey)) => "A key that allows you to jump on empty tiles.",
        }
    }
}

/// The key items offered by the editor's palette, in palette order.
pub fn all_keys() -> (r: Vec<KeyItem>)
    ensures
        r@ == seq![
            KeyItem::OnGet(KeyOnGet::FinishKey),
            KeyItem::OnUse(KeyOnUse::TeleportKey('A')),
            KeyItem::OnEquip(KeyOnEquip::OnMovement(KeyOnMovement::Cardinal)),
            KeyItem::OnEquip(KeyOnEquip::OnMovement(KeyOnMovement::Diagonal)),
            KeyItem::OnEquip(KeyOnEquip::OnWall(KeyOnWall::DoorKey('A'))),
            KeyItem::OnEquip(KeyOnEquip::OnWall(KeyOnWall::Wall)),
            KeyItem::OnEquip(KeyOnEquip::OnBounce(KeyOnBounce::BounceLess)),
            KeyItem::OnEquip(KeyOnEquip::OnBounce(KeyOnBounce::BounceMore)),
            KeyItem::OnEquip(KeyOnEquip::OnBounce(KeyOnBounce::BounceChange)),
            KeyItem::OnEquip(KeyOnEquip::OnEmpty(KeyOnEmpty::CloudKey)),
        ],
{
    let r = vec![
        KeyItem::OnGet(KeyOnGet::FinishKey),
        KeyItem::OnUse(KeyOnUse::TeleportKey('A')),
        KeyItem::OnEquip(KeyOnEquip::OnMovement(KeyOnMovement::Cardinal)),
        KeyItem::OnEquip(KeyOnEquip::OnMovement(KeyOnMovement::Diagonal)),
        KeyItem::OnEquip(KeyOnEquip::OnWall(KeyOnWall::DoorKey('A'))),
        KeyItem::OnEquip(KeyOnEquip::OnWall(KeyOnWall::Wall)),
        KeyItem::OnEquip(KeyOnEquip::OnBounce(KeyOnBounce::BounceLess)),
        KeyItem::OnEquip(KeyOnEquip::OnBounce(KeyOnBounce::BounceMore)),
        KeyItem::OnEquip(KeyOnEquip::OnBounce(KeyOnBounce::BounceChange)),
        KeyItem::OnEquip(KeyOnEquip::OnEmpty(KeyOnEmpty::CloudKey)),
    ];
    assert(r@ =~= seq![
        KeyItem::OnGet(KeyOnGet::FinishKey),
        KeyItem::OnUse(KeyOnUse::TeleportKey('A')),
        KeyItem::OnEquip(KeyOnEquip::OnMovement(KeyOnMovement::Cardinal)),
        KeyItem::OnEquip(KeyOnEquip::OnMovement(KeyOnMovement::Diagonal)),
        KeyItem::OnEquip(KeyOnEquip::OnWall(KeyOnWall::DoorKey('A'))),
        KeyItem::OnEquip(KeyOnEquip::OnWall(KeyOnWall::Wall)),
        KeyItem::OnEquip(KeyOnEquip::OnBounce(KeyOnBounce::BounceLess)),
        KeyItem::OnEquip(KeyOnEquip::OnBounce(KeyOnBounce::BounceMore)),
        KeyItem::OnEquip(KeyOnEquip::OnBounce(KeyOnBounce::BounceChange)),
        KeyItem::OnEquip(KeyOnEquip::OnEmpty(KeyOnEmpty::CloudKey)),
    ]);
    r
}

} // verus!
