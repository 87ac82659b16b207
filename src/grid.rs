//! Rectangular grids of cells, as nested vectors, and their model as nested
//! sequences.

use vstd::prelude::*;

use crate::item::KeyItem;
use crate::tile::{Tile, TileData};

verus! {

/// The cells of a board, row by row.
pub open spec fn grid_of(board: Seq<Vec<TileData>>) -> Seq<Seq<TileData>> {
    Seq::new(board.len(), |i: int| board[i]@)
}

/// `rows` rows of `cols` cells each.
pub open spec fn is_rect(g: Seq<Seq<TileData>>, rows: int, cols: int) -> bool {
    &&& g.len() == rows
    &&& forall|r: int| 0 <= r < rows ==> (#[trigger] g[r]).len() == cols
}

/// A non-empty rectangular grid.
pub open spec fn grid_ok(g: Seq<Seq<TileData>>) -> bool {
    &&& 1 <= g.len() <= usize::MAX
    &&& 1 <= g[0].len() <= usize::MAX
    &&& is_rect(g, g.len() as int, g[0].len() as int)
}

pub open spec fn in_bounds(g: Seq<Seq<TileData>>, p: (usize, usize)) -> bool {
    p.0 < g.len() && p.1 < g[p.0 as int].len()
}

pub open spec fn cell_at(g: Seq<Seq<TileData>>, p: (usize, usize)) -> TileData {
    g[p.0 as int][p.1 as int]
}

pub open spec fn tile_at(g: Seq<Seq<TileData>>, p: (usize, usize)) -> Tile {
    g[p.0 as int][p.1 as int].tile
}

/// `g` with the tile at `p` replaced by `t`; the key item stays.
pub open spec fn with_tile(g: Seq<Seq<TileData>>, p: (usize, usize), t: Tile) -> Seq<Seq<TileData>> {
    g.update(p.0 as int, g[p.0 as int].update(p.1 as int, TileData { tile: t, key: g[p.0 as int][p.1 as int].key }))
}

/// `g` with the key item at `p` replaced by `k`.
pub open spec fn with_key(g: Seq<Seq<TileData>>, p: (usize, usize), k: KeyItem) -> Seq<Seq<TileData>> {
    g.update(p.0 as int, g[p.0 as int].update(p.1 as int, TileData { tile: g[p.0 as int][p.1 as int].tile, key: k }))
}

pub proof fn lemma_with_tile_rect(g: Seq<Seq<TileData>>, p: (usize, usize), t: Tile, rows: int, cols: int)
    requires
        is_rect(g, rows, cols),
        in_bounds(g, p),
    ensures
        is_rect(with_tile(g, p, t), rows, cols),
{
    let h = with_tile(g, p, t);
    assert forall|r: int| 0 <= r < rows implies (#[trigger] h[r]).len() == cols by {
        if r != p.0 as int {
            assert(h[r] == g[r]);
        }
    }
}

pub proof fn lemma_with_tile_at(g: Seq<Seq<TileData>>, p: (usize, usize), t: Tile, q: (usize, usize))
    requires
        in_bounds(g, p),
    ensures
        in_bounds(with_tile(g, p, t), q) == in_bounds(g, q),
        in_bounds(g, q) ==> cell_at(with_tile(g, p, t), q) == (if q == p {
            TileData { tile: t, key: cell_at(g, p).key }
        } else {
            cell_at(g, q)
        }),
{
}

/// Replaces the tile at `p`, keeping the cell's key item.
pub fn write_tile(board: &mut Vec<Vec<TileData>>, p: (usize, usize), t: Tile)
    requires
        in_bounds(grid_of(old(board)@), p),
    ensures
        grid_of(final(board)@) == with_tile(grid_of(old(board)@), p, t),
{
    board[p.0][p.1].tile = t;
    assert(grid_of(board@) =~= with_tile(grid_of(old(board)@), p, t));
}

/// Replaces the key item at `p`, keeping the cell's tile.
pub fn write_key(board: &mut Vec<Vec<TileData>>, p: (usize, usize), k: KeyItem)
    requires
        in_bounds(grid_of(old(board)@), p),
    ensures
        grid_of(final(board)@) == with_key(grid_of(old(board)@), p, k),
{
    board[p.0][p.1].key = k;
    assert(grid_of(board@) =~= with_key(grid_of(old(board)@), p, k));
}

/// Replaces the whole cell at `p`.
pub fn write_cell(board: &mut Vec<Vec<TileData>>, p: (usize, usize), v: TileData)
    requires
        in_bounds(grid_of(old(board)@), p),
    ensures
        grid_of(final(board)@) == grid_of(old(board)@).update(
            p.0 as int,
            grid_of(old(board)@)[p.0 as int].update(p.1 as int, v),
        ),
{
    board[p.0][p.1] = v;
    assert(grid_of(board@) =~= grid_of(old(board)@).update(
        p.0 as int,
        grid_of(old(board)@)[p.0 as int].update(p.1 as int, v),
    ));
}

/// A board of `rows` rows of `cols` cells, each holding `cell`.
pub fn filled_board(rows: usize, cols: usize, cell: TileData) -> (r: Vec<Vec<TileData>>)
    ensures
        is_rect(grid_of(r@), rows as int, cols as int),
        forall|i: int, j: int| 0 <= i < rows && 0 <= j < cols ==> #[trigger] grid_of(r@)[i][j] == cell,
{
    let mut board: Vec<Vec<TileData>> = Vec::new();
    let mut i: usize = 0;
    while i < rows
        invariant
            i <= rows,
            board@.len() == i,
            forall|k: int| 0 <= k < i ==> (#[trigger] board@[k])@.len() == cols,
            forall|k: int, j: int| 0 <= k < i && 0 <= j < cols ==> #[trigger] board@[k]@[j] == cell,
        decreases rows - i,
    {
        let mut row: Vec<TileData> = Vec::new();
        let mut j: usize = 0;
        while j < cols
            invariant
                j <= cols,
                row@.len() == j,
                forall|k: int| 0 <= k < j ==> #[trigger] row@[k] == cell,
            decreases cols - j,
        {
            row.push(cell);
            j += 1;
        }
        board.push(row);
        i += 1;
    }
    board
}

} // verus!
