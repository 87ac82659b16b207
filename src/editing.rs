//! A simpler editing board that holds bare tiles, with a selected tile type
//! and a selected cell.

use vstd::prelude::*;

use crate::tile::Tile;

verus! {

/// The tiles of a board of bare tiles, row by row.
pub open spec fn tiles_of(board: Seq<Vec<Tile>>) -> Seq<Seq<Tile>> {
    Seq::new(board.len(), |i: int| board[i]@)
}

pub open spec fn tile_in_bounds(t: Seq<Seq<Tile>>, x: usize, y: usize) -> bool {
    x < t.len() && y < t[x as int].len()
}

/// Some cell holds `tile`.
pub open spec fn holds_tile(t: Seq<Seq<Tile>>, tile: Tile) -> bool {
    exists|i: int, j: int| 0 <= i < t.len() && 0 <= j < t[i].len() && #[trigger] t[i][j] == tile
}

/// `rows` rows of `cols` copies of `tile`.
pub fn tile_rows(rows: usize, cols: usize, tile: Tile) -> (r: Vec<Vec<Tile>>)
    ensures
        tiles_of(r@).len() == rows,
        forall|i: int| 0 <= i < rows ==> (#[trigger] tiles_of(r@)[i]).len() == cols,
        forall|i: int, j: int| 0 <= i < rows && 0 <= j < cols ==> #[trigger] tiles_of(r@)[i][j] == tile,
{
    let mut board: Vec<Vec<Tile>> = Vec::new();
    let mut i: usize = 0;
    while i < rows
        invariant
            i <= rows,
            board@.len() == i,
            forall|k: int| 0 <= k < i ==> (#[trigger] board@[k])@.len() == cols,
            forall|k: int, j: int| 0 <= k < i && 0 <= j < cols ==> #[trigger] board@[k]@[j] == tile,
        decreases rows - i,
    {
        let mut row: Vec<Tile> = Vec::new();
        let mut j: usize = 0;
        while j < cols
            invariant
                j <= cols,
                row@.len() == j,
                forall|k: int| 0 <= k < j ==> #[trigger] row@[k] == tile,
            decreases cols - j,
        {
            row.push(tile);
            j += 1;
        }
        board.push(row);
        i += 1;
    }
    board
}

/// Whether some cell of `board` holds `tile`.
fn contains_tile(board: &Vec<Vec<Tile>>, tile: Tile) -> (r: bool)
    ensures
        r == holds_tile(tiles_of(board@), tile),
{
    let ghost t = tiles_of(board@);
    let mut i: usize = 0;
    while i < board.len()
        invariant
            t == tiles_of(board@),
            i <= board@.len(),
            forall|a: int, b: int| 0 <= a < i && 0 <= b < t[a].len() ==> #[trigger] t[a][b] != tile,
        decreases board@.len() - i,
    {
        let mut j: usize = 0;
        while j < board[i].len()
            invariant
                t == tiles_of(board@),
                i < board@.len(),
                j <= t[i as int].len(),
                forall|a: int, b: int| 0 <= a < i && 0 <= b < t[a].len() ==> #[trigger] t[a][b] != tile,
                forall|b: int| 0 <= b < j ==> #[trigger] t[i as int][b] != tile,
            decreases t[i as int].len() - j,
        {
            if board[i][j] == tile {
                assert(t[i as int][j as int] == tile);
                return true;
            }
            j += 1;
        }
        i += 1;
    }
    false
}

#[derive(Debug)]
pub struct EditingBoard {
    selected_type: Tile,
    /// The cell selected for editing.
    selected_tile_pos: Option<(usize, usize)>,
    editing_board: Vec<Vec<Tile>>,
    /// Position of the unique start tile.
    start_pos: Option<(usize, usize)>,
    /// Position of the unique end tile.
    end_pos: Option<(usize, usize)>,
}

impl EditingBoard {
    pub closed spec fn tiles(&self) -> Seq<Seq<Tile>> {
        tiles_of(self.editing_board@)
    }

    pub closed spec fn selected_type_spec(&self) -> Tile {
        self.selected_type
    }

    pub closed spec fn selected_pos(&self) -> Option<(usize, usize)> {
        self.selected_tile_pos
    }

    pub closed spec fn start(&self) -> Option<(usize, usize)> {
        self.start_pos
    }

    pub closed spec fn end(&self) -> Option<(usize, usize)> {
        self.end_pos
    }

    fn has_start(&self) -> (r: bool)
        ensures
            r == holds_tile(self.tiles(), Tile::StartSpace),
    {
        contains_tile(&self.editing_board, Tile::StartSpace)
    }

    fn has_end(&self) -> (r: bool)
        ensures
            r == holds_tile(self.tiles(), Tile::EndSpace),
    {
        contains_tile(&self.editing_board, Tile::EndSpace)
    }

    /// The board has a start tile and an end tile.
    pub fn is_playable_board(&self) -> (r: bool)
        ensures
            r == (holds_tile(self.tiles(), Tile::StartSpace) && holds_tile(self.tiles(), Tile::EndSpace)),
    {
        self.has_start() && self.has_end()
    }

    /// Replaces the board with `height` rows of `width` empty tiles and
    /// forgets the start and end.
    pub fn set_size(&mut self, width: usize, height: usize)
        ensures
            final(self).tiles().len() == height,
            forall|i: int| 0 <= i < height ==> (#[trigger] final(self).tiles()[i]).len() == width,
            forall|i: int, j: int| 0 <= i < height && 0 <= j < width ==> #[trigger] final(self).tiles()[i][j] == Tile::Empty,
            final(self).start() is None,
            final(self).end() is None,
            final(self).selected_type_spec() == old(self).selected_type_spec(),
            final(self).selected_pos() == old(self).selected_pos(),
    {
        self.editing_board = tile_rows(height, width, Tile::Empty);
        self.start_pos = None;
        self.end_pos = None;
    }

    /// Selects the cell (x, y) when it is on the board, and clears the
    /// selection otherwise.
    pub fn select_tile_position(&mut self, x: usize, y: usize)
        ensures
            final(self).selected_pos() == (if tile_in_bounds(old(self).tiles(), x, y) {
                Some((x, y))
            } else {
                None
            }),
            final(self).tiles() == old(self).tiles(),
            final(self).selected_type_spec() == old(self).selected_type_spec(),
            final(self).start() == old(self).start(),
            final(self).end() == old(self).end(),
    {
        if x < self.editing_board.len() && y < self.editing_board[x].len() {
            self.selected_tile_pos = Some((x, y));
        } else {
            self.selected_tile_pos = None;
        }
    }

    pub fn select_type(&mut self, tile: Tile)
        ensures
            final(self).selected_type_spec() == tile,
            final(self).tiles() == old(self).tiles(),
            final(self).selected_pos() == old(self).selected_pos(),
            final(self).start() == old(self).start(),
            final(self).end() == old(self).end(),
    {
        self.selected_type = tile;
    }

    pub fn has_selected_tile(&self) -> (r: bool)
        ensures
            r == (self.selected_pos() is Some),
    {
        self.selected_tile_pos.is_some()
    }

    pub fn get_selected_type(&self) -> (r: &Tile)
        ensures
            *r == self.selected_type_spec(),
    {
        &self.selected_type
    }

    pub fn get_tile(&self, x: usize, y: usize) -> (r: Option<&Tile>)
        ensures
            match r {
                Some(t) => tile_in_bounds(self.tiles(), x, y) && *t == self.tiles()[x as int][y as int],
                None => !tile_in_bounds(self.tiles(), x, y),
            },
    {
        if x < self.editing_board.len() && y < self.editing_board[x].len() {
            Some(&self.editing_board[x][y])
        } else {
            None
        }
    }

    /// The tile of the selected cell, if a cell on the board is selected.
    pub fn get_selected_tile(&self) -> (r: Option<&Tile>)
        ensures
            match r {
                Some(t) => self.selected_pos() matches Some(p) && tile_in_bounds(self.tiles(), p.0, p.1) && *t
                    == self.tiles()[p.0 as int][p.1 as int],
                None => !(self.selected_pos() matches Some(p) && tile_in_bounds(self.tiles(), p.0, p.1)),
            },
    {
        match self.selected_tile_pos {
            Some((x, y)) => self.get_tile(x, y),
            None => None,
        }
    }

    pub fn get_start_pos(&self) -> (r: Option<(usize, usize)>)
        ensures
            r == self.start(),
    {
        self.start_pos
    }

    pub fn set_start_pos(&mut self, x: usize, y: usize)
        ensures
            final(self).start() == Some((x, y)),
            final(self).tiles() == old(self).tiles(),
            final(self).selected_type_spec() == old(self).selected_type_spec(),
            final(self).selected_pos() == old(self).selected_pos(),
            final(self).end() == old(self).end(),
    {
        self.start_pos = Some((x, y));
    }

    pub fn get_end_pos(&self) -> (r: Option<(usize, usize)>)
        ensures
            r == self.end(),
    {
        self.end_pos
    }

    pub fn set_end_pos(&mut self, x: usize, y: usize)
        ensures
            final(self).end() == Some((x, y)),
            final(self).tiles() == old(self).tiles(),
            final(self).selected_type_spec() == old(self).selected_type_spec(),
            final(self).selected_pos() == old(self).selected_pos(),
            final(self).start() == old(self).start(),
    {
        self.end_pos = Some((x, y));
    }

    /// Mutable access to the tile at (x, y), when it is on the board.
    pub fn get_tile_mut(&mut self, x: usize, y: usize) -> (r: Option<&mut Tile>)
        ensures
            match r {
                Some(t) => {
                    &&& tile_in_bounds(old(self).tiles(), x, y)
                    &&& *t == old(self).tiles()[x as int][y as int]
                    &&& final(self).tiles() == old(self).tiles().update(
                        x as int,
                        old(self).tiles()[x as int].update(y as int, *final(t)),
                    )
                    &&& final(self).selected_type_spec() == old(self).selected_type_spec()
                    &&& final(self).selected_pos() == old(self).selected_pos()
                    &&& final(self).start() == old(self).start()
                    &&& final(self).end() == old(self).end()
                },
                None => !tile_in_bounds(old(self).tiles(), x, y) && *final(self) == *old(self),
            },
    {
        if x < self.editing_board.len() && y < self.editing_board[x].len() {
            Some(&mut self.editing_board[x][y])
        } else {
            None
        }
    }

    /// Mutable access to the tile of the selected cell, if a cell on the
    /// board is selected.
    pub fn get_selected_tile_mut(&mut self) -> (r: Option<&mut Tile>)
        ensures
            match r {
                Some(t) => {
                    &&& old(self).selected_pos() matches Some(p)
                    &&& tile_in_bounds(old(self).tiles(), p.0, p.1)
                    &&& *t == old(self).tiles()[p.0 as int][p.1 as int]
                    &&& final(self).tiles() == old(self).tiles().update(
                        p.0 as int,
                        old(self).tiles()[p.0 as int].update(p.1 as int, *final(t)),
                    )
                    &&& final(self).selected_type_spec() == old(self).selected_type_spec()
                    &&& final(self).selected_pos() == old(self).selected_pos()
                    &&& final(self).start() == old(self).start()
                    &&& final(self).end() == old(self).end()
                },
                None => !(old(self).selected_pos() matches Some(p) && tile_in_bounds(old(self).tiles(), p.0, p.1))
                    && *final(self) == *old(self),
            },
    {
        match self.selected_tile_pos {
            Some((x, y)) => self.get_tile_mut(x, y),
            None => None,
        }
    }

    pub fn get_board(&self) -> (r: &Vec<Vec<Tile>>)
        ensures
            tiles_of(r@) == self.tiles(),
    {
        &self.editing_board
    }
}

impl Default for EditingBoard {
    fn default() -> (r: Self)
        ensures
            r.tiles().len() == 0,
            r.selected_type_spec() is Empty,
            r.selected_pos() is None,
            r.start() is None,
            r.end() is None,
    {
        EditingBoard {
            selected_type: Tile::Empty,
            selected_tile_pos: None,
            editing_board: Vec::new(),
            start_pos: None,
            end_pos: None,
        }
    }
}

} // verus!
