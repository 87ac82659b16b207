//! The board being edited: a rectangular grid of cells with a unique start
//! and end cell, and the check that makes it playable.

use vstd::prelude::*;

use crate::direction::{PlayerMovementData, direction_key_into_bools, keys_of_direction};
use crate::grid::{
    cell_at, filled_board, grid_of, in_bounds, is_rect, lemma_with_tile_at, lemma_with_tile_rect, tile_at,
    with_key, with_tile, write_key, write_tile,
};
use crate::item::KeyItem;
use crate::tile::{CardinalDirectionsAllowed, DiagonalDirectionsAllowed, Tile, TileData, tile_valid};

verus! {

/// The cell every new board is filled with.
pub open spec fn empty_cell() -> TileData {
    TileData { tile: Tile::Empty, key: KeyItem::NoKey }
}

/// `start` records the one cell holding the start space, if any.
pub open spec fn start_ok(g: Seq<Seq<TileData>>, start: Option<(usize, usize)>) -> bool {
    &&& (start matches Some(p) ==> in_bounds(g, p))
    &&& forall|p: (usize, usize)|
        in_bounds(g, p) ==> ((#[trigger] tile_at(g, p) is StartSpace) <==> start == Some(p))
}

/// `end` records the one cell holding the end space, if any.
pub open spec fn end_ok(g: Seq<Seq<TileData>>, end: Option<(usize, usize)>) -> bool {
    &&& (end matches Some(p) ==> in_bounds(g, p))
    &&& forall|p: (usize, usize)|
        in_bounds(g, p) ==> ((#[trigger] tile_at(g, p) is EndSpace) <==> end == Some(p))
}

pub open spec fn board_wf(
    g: Seq<Seq<TileData>>,
    size: (usize, usize),
    start: Option<(usize, usize)>,
    end: Option<(usize, usize)>,
) -> bool {
    &&& is_rect(g, size.0 as int, size.1 as int)
    &&& start_ok(g, start)
    &&& end_ok(g, end)
}

/// Board, start and end after placing `tile` at `pos`. A start or end space
/// first clears the previous one to `Empty`; overwriting the start or end
/// cell with another tile forgets it. Positions off the board and invalid
/// tiles are ignored.
pub open spec fn placed(
    g: Seq<Seq<TileData>>,
    start: Option<(usize, usize)>,
    end: Option<(usize, usize)>,
    pos: (usize, usize),
    tile: Tile,
) -> (Seq<Seq<TileData>>, Option<(usize, usize)>, Option<(usize, usize)>) {
    if !in_bounds(g, pos) || !tile_valid(tile) {
        (g, start, end)
    } else {
        let g1 = match (tile, start, end) {
            (Tile::StartSpace, Some(s), _) => with_tile(g, s, Tile::Empty),
            (Tile::EndSpace, _, Some(e)) => with_tile(g, e, Tile::Empty),
            _ => g,
        };
        let start2 = if tile is StartSpace {
            Some(pos)
        } else if start == Some(pos) {
            None
        } else {
            start
        };
        let end2 = if tile is EndSpace {
            Some(pos)
        } else if end == Some(pos) {
            None
        } else {
            end
        };
        (with_tile(g1, pos, tile), start2, end2)
    }
}

pub open spec fn portal_letter(t: Tile) -> Option<char> {
    match t {
        Tile::Portal(c, _) => Some(c),
        _ => None,
    }
}

/// The cells `p` and `q` are two different cells holding portals with the
/// same letter.
pub open spec fn partners(g: Seq<Seq<TileData>>, p: (usize, usize), q: (usize, usize)) -> bool {
    &&& in_bounds(g, p)
    &&& in_bounds(g, q)
    &&& p != q
    &&& tile_at(g, p) is Portal
    &&& portal_letter(tile_at(g, q)) == portal_letter(tile_at(g, p))
}

/// Exactly one other cell holds a portal with the letter of the portal at
/// `p`: the letter appears on exactly two cells.
pub open spec fn paired(g: Seq<Seq<TileData>>, p: (usize, usize)) -> bool {
    exists|q: (usize, usize)|
        #[trigger] partners(g, p, q) && forall|q2: (usize, usize)| #[trigger] partners(g, p, q2) ==> q2 == q
}

/// Every portal letter that appears on the board appears on exactly two cells.
pub open spec fn all_paired(g: Seq<Seq<TileData>>) -> bool {
    forall|p: (usize, usize)| in_bounds(g, p) && tile_at(g, p) is Portal ==> #[trigger] paired(g, p)
}

pub open spec fn all_valid(g: Seq<Seq<TileData>>) -> bool {
    forall|p: (usize, usize)| in_bounds(g, p) ==> tile_valid(#[trigger] tile_at(g, p))
}

/// A board can be played when it has a start and an end, every tile is
/// valid and every portal letter is paired.
pub open spec fn playable(g: Seq<Seq<TileData>>, start: Option<(usize, usize)>, end: Option<(usize, usize)>) -> bool {
    &&& start is Some
    &&& end is Some
    &&& all_valid(g)
    &&& all_paired(g)
}

/// The other cell holding the letter of the portal at `p`.
pub open spec fn partner_of(g: Seq<Seq<TileData>>, p: (usize, usize)) -> (usize, usize) {
    choose|q: (usize, usize)| partners(g, p, q)
}

/// The cell at `p` once portals are linked: a portal stores the position of
/// its partner; other cells stay as they are.
pub open spec fn linked_cell(g: Seq<Seq<TileData>>, p: (usize, usize)) -> TileData {
    match tile_at(g, p) {
        Tile::Portal(c, _) => TileData { tile: Tile::Portal(c, partner_of(g, p)), key: cell_at(g, p).key },
        _ => cell_at(g, p),
    }
}

/// Every portal stores the position of a portal with the same letter,
/// which stores the first one's position in turn.
pub open spec fn portals_linked(g: Seq<Seq<TileData>>) -> bool {
    forall|p: (usize, usize)|
        in_bounds(g, p) ==> (#[trigger] tile_at(g, p) matches Tile::Portal(c, q) ==> {
            &&& in_bounds(g, q)
            &&& q != p
            &&& tile_at(g, q) == Tile::Portal(c, p)
        })
}

pub open spec fn scanned(q: (usize, usize), i: usize, j: usize) -> bool {
    q.0 < i || (q.0 == i && q.1 < j)
}

/// The partner of `p` is the one cell with which it is paired.
pub proof fn lemma_partner_of_unique(g: Seq<Seq<TileData>>, p: (usize, usize), q: (usize, usize))
    requires
        partners(g, p, q),
        paired(g, p),
    ensures
        partner_of(g, p) == q,
{
    let q0 = choose|q0: (usize, usize)|
        #[trigger] partners(g, p, q0) && forall|q2: (usize, usize)| #[trigger] partners(g, p, q2) ==> q2 == q0;
    assert(partners(g, p, partner_of(g, p)));
}

/// Linking the portals of a board whose letters are all paired leaves each
/// portal pointing at its partner, and the partner pointing back.
pub proof fn lemma_linking_is_symmetric(g: Seq<Seq<TileData>>, h: Seq<Seq<TileData>>, rows: int, cols: int)
    requires
        is_rect(g, rows, cols),
        is_rect(h, rows, cols),
        all_paired(g),
        forall|p: (usize, usize)| in_bounds(g, p) ==> #[trigger] cell_at(h, p) == linked_cell(g, p),
    ensures
        portals_linked(h),
{
    assert forall|p: (usize, usize)| in_bounds(h, p) implies (#[trigger] tile_at(h, p) matches Tile::Portal(c, q) ==> {
        &&& in_bounds(h, q)
        &&& q != p
        &&& tile_at(h, q) == Tile::Portal(c, p)
    }) by {
        assert(g[p.0 as int].len() == cols);
        assert(in_bounds(g, p));
        assert(cell_at(h, p) == linked_cell(g, p));
        if let Tile::Portal(c, _) = tile_at(g, p) {
            assert(paired(g, p));
            let q = partner_of(g, p);
            assert(partners(g, p, q));
            assert(partners(g, q, p));
            assert(paired(g, q));
            lemma_partner_of_unique(g, q, p);
            assert(cell_at(h, q) == linked_cell(g, q));
            assert(h[q.0 as int].len() == cols);
        }
    }
}

/// Linking the portals of a board that has just been linked changes
/// nothing: the playability check may run again on a board it linked.
pub proof fn lemma_linking_idempotent(g: Seq<Seq<TileData>>, h: Seq<Seq<TileData>>, rows: int, cols: int)
    requires
        is_rect(g, rows, cols),
        is_rect(h, rows, cols),
        all_paired(g),
        forall|p: (usize, usize)| in_bounds(g, p) ==> #[trigger] cell_at(h, p) == linked_cell(g, p),
    ensures
        all_paired(h),
        forall|p: (usize, usize)| in_bounds(h, p) ==> #[trigger] linked_cell(h, p) == cell_at(h, p),
{
    assert forall|q: (usize, usize)| in_bounds(g, q) implies portal_letter(#[trigger] tile_at(h, q)) == portal_letter(
        tile_at(g, q),
    ) by {
        assert(cell_at(h, q) == linked_cell(g, q));
    }
    lemma_partners_same_letters(g, h, rows, cols);
    assert forall|p: (usize, usize)| in_bounds(h, p) && tile_at(h, p) is Portal implies #[trigger] paired(h, p) by {
        assert(h[p.0 as int].len() == cols);
        assert(g[p.0 as int].len() == cols);
        assert(cell_at(h, p) == linked_cell(g, p));
        assert(paired(g, p));
    }
    assert forall|p: (usize, usize)| in_bounds(h, p) implies #[trigger] linked_cell(h, p) == cell_at(h, p) by {
        assert(h[p.0 as int].len() == cols);
        assert(g[p.0 as int].len() == cols);
        assert(cell_at(h, p) == linked_cell(g, p));
        if tile_at(h, p) is Portal {
            assert(paired(h, p));
            let q = partner_of(h, p);
            assert(partners(h, p, q));
            assert(partners(g, p, q));
            lemma_partner_of_unique(g, p, q);
        }
    }
}

/// Two boards of one shape with the same portal letters pair the same cells.
pub proof fn lemma_partners_same_letters(g: Seq<Seq<TileData>>, h: Seq<Seq<TileData>>, rows: int, cols: int)
    requires
        is_rect(g, rows, cols),
        is_rect(h, rows, cols),
        forall|q: (usize, usize)| in_bounds(g, q) ==> portal_letter(#[trigger] tile_at(h, q)) == portal_letter(tile_at(g, q)),
    ensures
        forall|p: (usize, usize), q: (usize, usize)|
            #![trigger partners(h, p, q)]
            #![trigger partners(g, p, q)]
            partners(h, p, q) == partners(g, p, q),
        forall|p: (usize, usize)| #[trigger] paired(h, p) == paired(g, p),
{
    assert forall|q: (usize, usize)| #[trigger] in_bounds(h, q) == in_bounds(g, q) by {
        if q.0 < rows {
            assert(h[q.0 as int].len() == cols);
            assert(g[q.0 as int].len() == cols);
        }
    }
    assert forall|p: (usize, usize), q: (usize, usize)|
        #![trigger partners(h, p, q)]
        #![trigger partners(g, p, q)]
        partners(h, p, q) == partners(g, p, q) by {
        assert(in_bounds(h, p) == in_bounds(g, p));
        assert(in_bounds(h, q) == in_bounds(g, q));
        if in_bounds(g, p) && in_bounds(g, q) {
            assert(portal_letter(tile_at(h, q)) == portal_letter(tile_at(g, q)));
            assert(portal_letter(tile_at(h, p)) == portal_letter(tile_at(g, p)));
        }
    }
    assert forall|p: (usize, usize)| #[trigger] paired(h, p) == paired(g, p) by {
        if paired(h, p) {
            let q = choose|q: (usize, usize)|
                #[trigger] partners(h, p, q) && forall|q2: (usize, usize)| #[trigger] partners(h, p, q2) ==> q2 == q;
            assert(partners(g, p, q));
        }
        if paired(g, p) {
            let q = choose|q: (usize, usize)|
                #[trigger] partners(g, p, q) && forall|q2: (usize, usize)| #[trigger] partners(g, p, q2) ==> q2 == q;
            assert(partners(h, p, q));
        }
    }
}

/// Looks for the one other cell holding a portal with `letter`, the letter
/// of the portal at `p`. `None` when there is no such cell or more than one.
fn find_partner(board: &Vec<Vec<TileData>>, rows: usize, cols: usize, p: (usize, usize), letter: char) -> (r: Option<(usize, usize)>)
    requires
        is_rect(grid_of(board@), rows as int, cols as int),
        in_bounds(grid_of(board@), p),
        portal_letter(tile_at(grid_of(board@), p)) == Some(letter),
    ensures
        r matches Some(q) ==> partners(grid_of(board@), p, q) && forall|q2: (usize, usize)|
            #[trigger] partners(grid_of(board@), p, q2) ==> q2 == q,
        r is None ==> !paired(grid_of(board@), p),
{
    let ghost g = grid_of(board@);
    let mut first: Option<(usize, usize)> = None;
    let mut i: usize = 0;
    while i < rows
        invariant
            g == grid_of(board@),
            is_rect(g, rows as int, cols as int),
            in_bounds(g, p),
            portal_letter(tile_at(g, p)) == Some(letter),
            i <= rows,
            first matches Some(a) ==> partners(g, p, a) && scanned(a, i, 0),
            forall|q: (usize, usize)| #[trigger] partners(g, p, q) && scanned(q, i, 0) ==> first == Some(q),
        decreases rows - i,
    {
        let mut j: usize = 0;
        assert(g[i as int].len() == cols);
        while j < cols
            invariant
                g == grid_of(board@),
                is_rect(g, rows as int, cols as int),
                in_bounds(g, p),
                portal_letter(tile_at(g, p)) == Some(letter),
                i < rows,
                j <= cols,
                first matches Some(a) ==> partners(g, p, a) && scanned(a, i, j),
                forall|q: (usize, usize)| #[trigger] partners(g, p, q) && scanned(q, i, j) ==> first == Some(q),
            decreases cols - j,
        {
            assert(g[i as int].len() == cols);
            let same = match board[i][j].tile {
                Tile::Portal(d, _) => d == letter && !(i == p.0 && j == p.1),
                _ => false,
            };
            let ghost q = (i, j);
            assert(same == partners(g, p, q));
            if same {
                if let Some(a) = first {
                    proof {
                        if paired(g, p) {
                            let q0 = choose|q0: (usize, usize)|
                                #[trigger] partners(g, p, q0) && forall|q2: (usize, usize)|
                                    #[trigger] partners(g, p, q2) ==> q2 == q0;
                            assert(partners(g, p, a));
                            assert(partners(g, p, q));
                        }
                    }
                    return None;
                }
                first = Some((i, j));
            }
            j += 1;
        }
        i += 1;
    }
    proof {
        assert forall|q: (usize, usize)| #[trigger] partners(g, p, q) implies first == Some(q) by {
            assert(in_bounds(g, q));
            assert(scanned(q, i, 0));
        }
    }
    first
}

/// Checks every cell once: each tile is valid and each portal letter is
/// paired.
fn cells_ok(board: &Vec<Vec<TileData>>, rows: usize, cols: usize) -> (r: bool)
    requires
        is_rect(grid_of(board@), rows as int, cols as int),
    ensures
        r == (all_valid(grid_of(board@)) && all_paired(grid_of(board@))),
{
    let ghost g = grid_of(board@);
    let mut i: usize = 0;
    while i < rows
        invariant
            g == grid_of(board@),
            is_rect(g, rows as int, cols as int),
            i <= rows,
            forall|q: (usize, usize)|
                in_bounds(g, q) && scanned(q, i, 0) ==> tile_valid(#[trigger] tile_at(g, q)) && (tile_at(g, q) is Portal
                    ==> paired(g, q)),
        decreases rows - i,
    {
        let mut j: usize = 0;
        assert(g[i as int].len() == cols);
        while j < cols
            invariant
                g == grid_of(board@),
                is_rect(g, rows as int, cols as int),
                i < rows,
                j <= cols,
                forall|q: (usize, usize)|
                    in_bounds(g, q) && scanned(q, i, j) ==> tile_valid(#[trigger] tile_at(g, q)) && (tile_at(g, q) is Portal
                        ==> paired(g, q)),
            decreases cols - j,
        {
            assert(g[i as int].len() == cols);
            let ghost p = (i, j);
            let tile = board[i][j].tile;
            if !tile.is_valid() {
                assert(!tile_valid(tile_at(g, p)));
                return false;
            }
            if let Tile::Portal(letter, _) = tile {
                if find_partner(board, rows, cols, (i, j), letter).is_none() {
                    assert(!paired(g, p));
                    return false;
                }
            }
            j += 1;
        }
        i += 1;
    }
    assert forall|q: (usize, usize)| in_bounds(g, q) implies tile_valid(#[trigger] tile_at(g, q)) by {
        assert(scanned(q, i, 0));
    }
    assert forall|q: (usize, usize)| in_bounds(g, q) && tile_at(g, q) is Portal implies #[trigger] paired(g, q) by {
        assert(scanned(q, i, 0));
    }
    true
}

/// Writes into each portal the position of its partner.
fn link_portals(board: &mut Vec<Vec<TileData>>, rows: usize, cols: usize)
    requires
        is_rect(grid_of(old(board)@), rows as int, cols as int),
        all_paired(grid_of(old(board)@)),
    ensures
        is_rect(grid_of(final(board)@), rows as int, cols as int),
        forall|p: (usize, usize)|
            in_bounds(grid_of(old(board)@), p) ==> #[trigger] cell_at(grid_of(final(board)@), p) == linked_cell(
                grid_of(old(board)@),
                p,
            ),
{
    let ghost g = grid_of(board@);
    let mut i: usize = 0;
    while i < rows
        invariant
            g == grid_of(old(board)@),
            is_rect(g, rows as int, cols as int),
            is_rect(grid_of(board@), rows as int, cols as int),
            all_paired(g),
            i <= rows,
            forall|q: (usize, usize)|
                in_bounds(g, q) ==> #[trigger] cell_at(grid_of(board@), q) == if scanned(q, i, 0) {
                    linked_cell(g, q)
                } else {
                    cell_at(g, q)
                },
        decreases rows - i,
    {
        let mut j: usize = 0;
        assert(g[i as int].len() == cols);
        while j < cols
            invariant
                g == grid_of(old(board)@),
                is_rect(g, rows as int, cols as int),
                is_rect(grid_of(board@), rows as int, cols as int),
                all_paired(g),
                i < rows,
                j <= cols,
                forall|q: (usize, usize)|
                    in_bounds(g, q) ==> #[trigger] cell_at(grid_of(board@), q) == if scanned(q, i, j) {
                        linked_cell(g, q)
                    } else {
                        cell_at(g, q)
                    },
            decreases cols - j,
        {
            let ghost h = grid_of(board@);
            let ghost p = (i, j);
            assert(g[i as int].len() == cols);
            assert(h[i as int].len() == cols);
            assert(cell_at(h, p) == cell_at(g, p));
            if let Tile::Portal(letter, _) = board[i][j].tile {
                proof {
                    assert forall|q: (usize, usize)| in_bounds(g, q) implies portal_letter(#[trigger] tile_at(h, q))
                        == portal_letter(tile_at(g, q)) by {
                        assert(cell_at(h, q) == if scanned(q, i, j) {
                            linked_cell(g, q)
                        } else {
                            cell_at(g, q)
                        });
                    }
                    lemma_partners_same_letters(g, h, rows as int, cols as int);
                    assert(paired(g, p));
                }
                let found = find_partner(board, rows, cols, (i, j), letter);
                if let Some(q) = found {
                    proof {
                        lemma_partner_of_unique(g, p, q);
                    }
                    write_tile(board, (i, j), Tile::Portal(letter, q));
                    proof {
                        lemma_with_tile_rect(h, p, Tile::Portal(letter, q), rows as int, cols as int);
                        assert forall|q2: (usize, usize)| in_bounds(g, q2) implies #[trigger] cell_at(grid_of(board@), q2)
                            == if scanned(q2, i, (j + 1) as usize) {
                            linked_cell(g, q2)
                        } else {
                            cell_at(g, q2)
                        } by {
                            assert(h[q2.0 as int].len() == cols);
                            lemma_with_tile_at(h, p, Tile::Portal(letter, q), q2);
                            assert(cell_at(h, q2) == if scanned(q2, i, j) {
                                linked_cell(g, q2)
                            } else {
                                cell_at(g, q2)
                            });
                        }
                    }
                }
            } else {
                assert forall|q2: (usize, usize)| in_bounds(g, q2) implies #[trigger] cell_at(grid_of(board@), q2)
                    == if scanned(q2, i, (j + 1) as usize) {
                    linked_cell(g, q2)
                } else {
                    cell_at(g, q2)
                } by {
                    assert(cell_at(h, q2) == if scanned(q2, i, j) {
                        linked_cell(g, q2)
                    } else {
                        cell_at(g, q2)
                    });
                }
            }
            j += 1;
        }
        i += 1;
    }
    assert forall|q: (usize, usize)| in_bounds(g, q) implies #[trigger] cell_at(grid_of(board@), q) == linked_cell(g, q) by {
        assert(scanned(q, i, 0));
    }
}

/// The letter after `c`, wrapping from 'Z' to 'A'; anything but 'A' to 'Y'
/// moves to 'A'.
pub open spec fn next_letter(c: char) -> char {
    if 'A' <= c && c <= 'Y' {
        ((c as u32) + 1) as char
    } else {
        'A'
    }
}

/// The letter before `c`, wrapping from 'A' to 'Z'; anything but 'B' to 'Z'
/// moves to 'Z'.
pub open spec fn prev_letter(c: char) -> char {
    if 'B' <= c && c <= 'Z' {
        ((c as u32) - 1) as char
    } else {
        'Z'
    }
}

/// Flips each direction whose key (up, right, down, left) is pressed.
pub open spec fn toggled_cardinal(d: CardinalDirectionsAllowed, keys: (bool, bool, bool, bool)) -> CardinalDirectionsAllowed {
    CardinalDirectionsAllowed {
        up: d.up != keys.0,
        right: d.right != keys.1,
        down: d.down != keys.2,
        left: d.left != keys.3,
    }
}

/// Flips the diagonal that two pressed keys name, if any.
pub open spec fn toggled_diagonal(d: DiagonalDirectionsAllowed, keys: (bool, bool, bool, bool)) -> Option<
    DiagonalDirectionsAllowed,
> {
    let (up, right, down, left) = keys;
    if up && right {
        Some(DiagonalDirectionsAllowed { up_right: !d.up_right, ..d })
    } else if down && right {
        Some(DiagonalDirectionsAllowed { down_right: !d.down_right, ..d })
    } else if down && left {
        Some(DiagonalDirectionsAllowed { down_left: !d.down_left, ..d })
    } else if up && left {
        Some(DiagonalDirectionsAllowed { up_left: !d.up_left, ..d })
    } else {
        None
    }
}

/// The tile after an edit with the pressed keys (up, right, down, left). A
/// change that would leave a movement tile with no direction, or a bounce
/// amount outside [-1, 1], is not made.
pub open spec fn edited(t: Tile, keys: (bool, bool, bool, bool)) -> Tile {
    match t {
        Tile::MoveCardinal(d) => if toggled_cardinal(d, keys).any() {
            Tile::MoveCardinal(toggled_cardinal(d, keys))
        } else {
            t
        },
        Tile::Cloud(d) => if toggled_cardinal(d, keys).any() {
            Tile::Cloud(toggled_cardinal(d, keys))
        } else {
            t
        },
        Tile::MoveDiagonal(d) => match toggled_diagonal(d, keys) {
            Some(n) => if n.any() {
                Tile::MoveDiagonal(n)
            } else {
                t
            },
            None => t,
        },
        Tile::Bounce(v) => if keys.0 && v < 1 {
            Tile::Bounce((v + 1) as isize)
        } else if keys.2 && v > -1 {
            Tile::Bounce((v - 1) as isize)
        } else {
            t
        },
        Tile::Portal(c, link) => if keys.0 {
            Tile::Portal(next_letter(c), link)
        } else if keys.2 {
            Tile::Portal(prev_letter(c), link)
        } else {
            t
        },
        _ => t,
    }
}

fn edit(t: Tile, keys: (bool, bool, bool, bool)) -> (r: Tile)
    ensures
        r == edited(t, keys),
{
    let (key_up, key_right, key_down, key_left) = keys;
    match t {
        Tile::MoveCardinal(d) | Tile::Cloud(d) => {
            let n = CardinalDirectionsAllowed {
                up: d.up != key_up,
                right: d.right != key_right,
                down: d.down != key_down,
                left: d.left != key_left,
            };
            let test_tile = match t {
                Tile::Cloud(_) => Tile::Cloud(n),
                _ => Tile::MoveCardinal(n),
            };
            if test_tile.is_valid() {
                test_tile
            } else {
                t
            }
        },
        Tile::MoveDiagonal(d) => {
            let mut n = d;
            if key_up && key_right {
                n.up_right = !n.up_right;
            } else if key_down && key_right {
                n.down_right = !n.down_right;
            } else if key_down && key_left {
                n.down_left = !n.down_left;
            } else if key_up && key_left {
                n.up_left = !n.up_left;
            } else {
                return t;
            }
            let test_tile = Tile::MoveDiagonal(n);
            if test_tile.is_valid() {
                test_tile
            } else {
                t
            }
        },
        Tile::Bounce(v) => {
            if key_up && v < 1 {
                Tile::Bounce(v + 1)
            } else if key_down && v > -1 {
                Tile::Bounce(v - 1)
            } else {
                t
            }
        },
        Tile::Portal(c, link) => {
            if key_up {
                let n = if 'A' <= c && c <= 'Y' {
                    ((c as u8) + 1) as char
                } else {
                    'A'
                };
                Tile::Portal(n, link)
            } else if key_down {
                let n = if 'B' <= c && c <= 'Z' {
                    ((c as u8) - 1) as char
                } else {
                    'Z'
                };
                Tile::Portal(n, link)
            } else {
                t
            }
        },
        _ => t,
    }
}

/// The board being edited. Rows come first, then columns.
#[derive(Debug)]
pub struct EditingModel {
    board: Vec<Vec<TileData>>,
    board_size: (usize, usize),
    start_pos: Option<(usize, usize)>,
    end_pos: Option<(usize, usize)>,
}

impl EditingModel {
    /// The cells, row by row.
    pub closed spec fn grid(&self) -> Seq<Seq<TileData>> {
        grid_of(self.board@)
    }

    /// (rows, columns).
    pub closed spec fn size(&self) -> (usize, usize) {
        self.board_size
    }

    pub closed spec fn start(&self) -> Option<(usize, usize)> {
        self.start_pos
    }

    pub closed spec fn end(&self) -> Option<(usize, usize)> {
        self.end_pos
    }

    pub open spec fn wf(&self) -> bool {
        board_wf(self.grid(), self.size(), self.start(), self.end())
    }

    /// An empty board of `board_size.0` rows and `board_size.1` columns.
    pub fn new(board_size: (usize, usize)) -> (r: Self)
        ensures
            r.wf(),
            r.size() == board_size,
            r.start() is None,
            r.end() is None,
            forall|i: int, j: int|
                0 <= i < board_size.0 && 0 <= j < board_size.1 ==> #[trigger] r.grid()[i][j] == empty_cell(),
    {
        let board = filled_board(board_size.0, board_size.1, TileData::empty());
        let r = EditingModel { board, board_size, start_pos: None, end_pos: None };
        assert forall|p: (usize, usize)| in_bounds(r.grid(), p) implies !(#[trigger] tile_at(r.grid(), p) is StartSpace)
            && !(tile_at(r.grid(), p) is EndSpace) by {
            assert(r.grid()[p.0 as int][p.1 as int] == empty_cell());
        }
        r
    }

    /// Builds a board from stored parts, if they describe a well-formed
    /// board: `board_size.0` rows of `board_size.1` cells, and start and end
    /// positions that record exactly the cells holding those spaces.
    pub fn from_parts(
        board: Vec<Vec<TileData>>,
        board_size: (usize, usize),
        start_pos: Option<(usize, usize)>,
        end_pos: Option<(usize, usize)>,
    ) -> (r: Option<Self>)
        ensures
            r is Some <==> board_wf(grid_of(board@), board_size, start_pos, end_pos),
            r matches Some(m) ==> m.grid() == grid_of(board@) && m.size() == board_size && m.start()
                == start_pos && m.end() == end_pos,
    {
        let ghost g = grid_of(board@);
        if board.len() != board_size.0 {
            return None;
        }
        let mut i: usize = 0;
        while i < board.len()
            invariant
                g == grid_of(board@),
                board@.len() == board_size.0,
                i <= board@.len(),
                forall|k: int| 0 <= k < i ==> (#[trigger] g[k]).len() == board_size.1,
            decreases board@.len() - i,
        {
            if board[i].len() != board_size.1 {
                assert(g[i as int].len() != board_size.1);
                return None;
            }
            i += 1;
        }
        assert(is_rect(g, board_size.0 as int, board_size.1 as int));
        if let Some(s) = start_pos {
            if !(s.0 < board_size.0 && s.1 < board_size.1) {
                return None;
            }
            assert(g[s.0 as int].len() == board_size.1);
        }
        if let Some(e) = end_pos {
            if !(e.0 < board_size.0 && e.1 < board_size.1) {
                return None;
            }
            assert(g[e.0 as int].len() == board_size.1);
        }
        let mut i: usize = 0;
        while i < board_size.0
            invariant
                g == grid_of(board@),
                is_rect(g, board_size.0 as int, board_size.1 as int),
                start_pos matches Some(s) ==> in_bounds(g, s),
                end_pos matches Some(e) ==> in_bounds(g, e),
                i <= board_size.0,
                forall|p: (usize, usize)|
                    in_bounds(g, p) && p.0 < i ==> ((#[trigger] tile_at(g, p) is StartSpace) <==> start_pos
                        == Some(p)),
                forall|p: (usize, usize)|
                    in_bounds(g, p) && p.0 < i ==> ((#[trigger] tile_at(g, p) is EndSpace) <==> end_pos == Some(
                        p,
                    )),
            decreases board_size.0 - i,
        {
            let mut j: usize = 0;
            assert(g[i as int].len() == board_size.1);
            while j < board_size.1
                invariant
                    g == grid_of(board@),
                    is_rect(g, board_size.0 as int, board_size.1 as int),
                    start_pos matches Some(s) ==> in_bounds(g, s),
                    end_pos matches Some(e) ==> in_bounds(g, e),
                    i < board_size.0,
                    j <= board_size.1,
                    forall|p: (usize, usize)|
                        in_bounds(g, p) && (p.0 < i || (p.0 == i && p.1 < j)) ==> ((#[trigger] tile_at(
                            g,
                            p,
                        ) is StartSpace) <==> start_pos == Some(p)),
                    forall|p: (usize, usize)|
                        in_bounds(g, p) && (p.0 < i || (p.0 == i && p.1 < j)) ==> ((#[trigger] tile_at(
                            g,
                            p,
                        ) is EndSpace) <==> end_pos == Some(p)),
                decreases board_size.1 - j,
            {
                let ghost p = (i, j);
                assert(g[i as int].len() == board_size.1);
                let t = board[i][j].tile;
                let is_start = match start_pos {
                    Some(s) => s.0 == i && s.1 == j,
                    None => false,
                };
                let is_end = match end_pos {
                    Some(e) => e.0 == i && e.1 == j,
                    None => false,
                };
                match t {
                    Tile::StartSpace => {
                        if !is_start {
                            assert(tile_at(g, p) is StartSpace);
                            return None;
                        }
                    },
                    _ => {
                        if is_start {
                            assert(!(tile_at(g, p) is StartSpace));
                            return None;
                        }
                    },
                }
                match t {
                    Tile::EndSpace => {
                        if !is_end {
                            assert(tile_at(g, p) is EndSpace);
                            return None;
                        }
                    },
                    _ => {
                        if is_end {
                            assert(!(tile_at(g, p) is EndSpace));
                            return None;
                        }
                    },
                }
                assert((tile_at(g, p) is StartSpace) <==> start_pos == Some(p));
                assert((tile_at(g, p) is EndSpace) <==> end_pos == Some(p));
                j += 1;
            }
            i += 1;
        }
        Some(EditingModel { board, board_size, start_pos, end_pos })
    }

    /// Decides whether the board can be played: it has a start and an end,
    /// every tile is valid and every portal letter appears on exactly two
    /// cells. When it can, each portal is linked to its partner (it stores
    /// the partner's position); otherwise the board is left unchanged.
    /// Running it again on a linked board links the same pairs.
    pub fn board_is_playable(&mut self) -> (r: bool)
        requires
            old(self).wf(),
        ensures
            final(self).wf(),
            r == playable(old(self).grid(), old(self).start(), old(self).end()),
            !all_paired(old(self).grid()) ==> !r,
            final(self).size() == old(self).size(),
            final(self).start() == old(self).start(),
            final(self).end() == old(self).end(),
            !r ==> final(self).grid() == old(self).grid(),
            r ==> forall|p: (usize, usize)|
                in_bounds(old(self).grid(), p) ==> #[trigger] cell_at(final(self).grid(), p) == linked_cell(
                    old(self).grid(),
                    p,
                ),
            r ==> portals_linked(final(self).grid()),
    {
        if self.start_pos.is_none() || self.end_pos.is_none() {
            return false;
        }
        let rows = self.board_size.0;
        let cols = self.board_size.1;
        if !cells_ok(&self.board, rows, cols) {
            return false;
        }
        let ghost g = self.grid();
        link_portals(&mut self.board, rows, cols);
        proof {
            let h = self.grid();
            lemma_linking_is_symmetric(g, h, rows as int, cols as int);
            assert forall|q: (usize, usize)| in_bounds(h, q) implies in_bounds(g, q) && (#[trigger] tile_at(h, q) is StartSpace
                <==> tile_at(g, q) is StartSpace) && (tile_at(h, q) is EndSpace <==> tile_at(g, q) is EndSpace) by {
                assert(h[q.0 as int].len() == cols);
                assert(g[q.0 as int].len() == cols);
                assert(cell_at(h, q) == linked_cell(g, q));
            }
            if let Some(s) = self.start_pos {
                assert(g[s.0 as int].len() == cols);
                assert(h[s.0 as int].len() == cols);
            }
            if let Some(e) = self.end_pos {
                assert(g[e.0 as int].len() == cols);
                assert(h[e.0 as int].len() == cols);
            }
        }
        true
    }

    /// Adjusts the tile at `pos` with the keys of `keypress`: arrow keys
    /// flip the directions of a movement tile, up and down raise and lower a
    /// bounce amount or move a portal's letter through the alphabet. An
    /// edit that would make the tile invalid is not made; a position off
    /// the board is ignored.
    pub fn edit_tile(&mut self, pos: (usize, usize), keypress: &PlayerMovementData)
        requires
            old(self).wf(),
        ensures
            final(self).wf(),
            final(self).size() == old(self).size(),
            final(self).start() == old(self).start(),
            final(self).end() == old(self).end(),
            final(self).grid() == (if in_bounds(old(self).grid(), pos) {
                with_tile(
                    old(self).grid(),
                    pos,
                    edited(tile_at(old(self).grid(), pos), keys_of_direction(keypress.direction)),
                )
            } else {
                old(self).grid()
            }),
    {
        let keys = direction_key_into_bools(&keypress.direction);
        if pos.0 < self.board.len() && pos.1 < self.board[pos.0].len() {
            let ghost g = self.grid();
            let t = edit(self.board[pos.0][pos.1].tile, keys);
            write_tile(&mut self.board, pos, t);
            proof {
                let h = self.grid();
                lemma_with_tile_rect(g, pos, t, self.board_size.0 as int, self.board_size.1 as int);
                assert forall|q: (usize, usize)| in_bounds(h, q) implies in_bounds(g, q) && (#[trigger] tile_at(h, q) is StartSpace
                    <==> tile_at(g, q) is StartSpace) && (tile_at(h, q) is EndSpace <==> tile_at(g, q) is EndSpace) by {
                    lemma_with_tile_at(g, pos, t, q);
                }
                if let Some(s) = self.start_pos {
                    lemma_with_tile_at(g, pos, t, s);
                }
                if let Some(e) = self.end_pos {
                    lemma_with_tile_at(g, pos, t, e);
                }
            }
        }
    }

    pub fn get_board_size(&self) -> (r: (usize, usize))
        ensures
            r == self.size(),
    {
        self.board_size
    }

    pub fn get_board(&self) -> (r: &Vec<Vec<TileData>>)
        ensures
            grid_of(r@) == self.grid(),
    {
        &self.board
    }

    pub fn get_start_pos(&self) -> (r: Option<(usize, usize)>)
        ensures
            r == self.start(),
    {
        self.start_pos
    }

    pub fn get_end_pos(&self) -> (r: Option<(usize, usize)>)
        ensures
            r == self.end(),
    {
        self.end_pos
    }

    /// Places `tile` at `pos`; see `placed`.
    pub fn set_tile(&mut self, pos: (usize, usize), tile: Tile)
        requires
            old(self).wf(),
        ensures
            final(self).wf(),
            final(self).size() == old(self).size(),
            (final(self).grid(), final(self).start(), final(self).end()) == placed(
                old(self).grid(),
                old(self).start(),
                old(self).end(),
                pos,
                tile,
            ),
    {
        let ghost g = self.grid();
        let ghost rows = self.board_size.0 as int;
        let ghost cols = self.board_size.1 as int;
        if !(pos.0 < self.board.len() && pos.1 < self.board[pos.0].len()) || !tile.is_valid() {
            return;
        }
        let ghost start0 = self.start_pos;
        let ghost end0 = self.end_pos;
        match tile {
            Tile::StartSpace => {
                if let Some(s) = self.start_pos {
                    write_tile(&mut self.board, s, Tile::Empty);
                    proof {
                        lemma_with_tile_rect(g, s, Tile::Empty, rows, cols);
                    }
                }
                if let Some(e) = self.end_pos {
                    if e.0 == pos.0 && e.1 == pos.1 {
                        self.end_pos = None;
                    }
                }
                self.start_pos = Some(pos);
            },
            Tile::EndSpace => {
                if let Some(e) = self.end_pos {
                    write_tile(&mut self.board, e, Tile::Empty);
                    proof {
                        lemma_with_tile_rect(g, e, Tile::Empty, rows, cols);
                    }
                }
                if let Some(s) = self.start_pos {
                    if s.0 == pos.0 && s.1 == pos.1 {
                        self.start_pos = None;
                    }
                }
                self.end_pos = Some(pos);
            },
            _ => {
                if let Some(s) = self.start_pos {
                    if s.0 == pos.0 && s.1 == pos.1 {
                        self.start_pos = None;
                    }
                }
                if let Some(e) = self.end_pos {
                    if e.0 == pos.0 && e.1 == pos.1 {
                        self.end_pos = None;
                    }
                }
            },
        }
        let ghost g1 = self.grid();
        assert(in_bounds(g1, pos));
        write_tile(&mut self.board, pos, tile);
        proof {
            lemma_with_tile_rect(g1, pos, tile, rows, cols);
            let g2 = self.grid();
            assert forall|q: (usize, usize)| in_bounds(g2, q) implies ((#[trigger] tile_at(g2, q) is StartSpace)
                <==> self.start_pos == Some(q)) && ((tile_at(g2, q) is EndSpace) <==> self.end_pos == Some(q)) by {
                lemma_with_tile_at(g1, pos, tile, q);
                match (tile, start0, end0) {
                    (Tile::StartSpace, Some(s), _) => {
                        lemma_with_tile_at(g, s, Tile::Empty, q);
                    },
                    (Tile::EndSpace, _, Some(e)) => {
                        lemma_with_tile_at(g, e, Tile::Empty, q);
                    },
                    _ => {},
                }
                assert(tile_at(g, q) is StartSpace <==> start0 == Some(q));
                assert(tile_at(g, q) is EndSpace <==> end0 == Some(q));
            }
            if let Some(s) = self.start_pos {
                lemma_with_tile_at(g1, pos, tile, s);
            }
            if let Some(e) = self.end_pos {
                lemma_with_tile_at(g1, pos, tile, e);
            }
        }
    }

    /// Puts `key` on the cell at `pos`, unless the position is off the board
    /// or the cell's tile is `Empty`.
    pub fn set_key(&mut self, pos: (usize, usize), key: KeyItem)
        requires
            old(self).wf(),
        ensures
            final(self).wf(),
            final(self).size() == old(self).size(),
            final(self).start() == old(self).start(),
            final(self).end() == old(self).end(),
            final(self).grid() == (if in_bounds(old(self).grid(), pos) && !(tile_at(old(self).grid(), pos) is Empty) {
                with_key(old(self).grid(), pos, key)
            } else {
                old(self).grid()
            }),
    {
        let ghost g = self.grid();
        if pos.0 < self.board.len() && pos.1 < self.board[pos.0].len() {
            if let Tile::Empty = self.board[pos.0][pos.1].tile {
                return;
            }
            write_key(&mut self.board, pos, key);
            proof {
                let g2 = self.grid();
                assert forall|r: int| 0 <= r < self.board_size.0 implies (#[trigger] g2[r]).len() == self.board_size.1 by {
                    if r != pos.0 as int {
                        assert(g2[r] == g[r]);
                    }
                }
                assert forall|q: (usize, usize)| in_bounds(g2, q) implies in_bounds(g, q) && #[trigger] tile_at(g2, q)
                    == tile_at(g, q) by {
                    if q.0 != pos.0 {
                        assert(g2[q.0 as int] == g[q.0 as int]);
                    }
                }
                assert(start_ok(g2, self.start_pos));
                assert(end_ok(g2, self.end_pos));
                if let Some(s) = self.start_pos {
                    assert(in_bounds(g, s));
                }
                if let Some(e) = self.end_pos {
                    assert(in_bounds(g, e));
                }
            }
        }
    }
}

impl Default for EditingModel {
    fn default() -> (r: Self)
        ensures
            r.wf(),
            r.size() == (0usize, 0usize),
            r.start() is None,
            r.end() is None,
    {
        EditingModel::new((0, 0))
    }
}

} // verus!
