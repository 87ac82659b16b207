//! A simpler play board over bare tiles, which remembers the player's
//! previous position.

use vstd::prelude::*;

use crate::editing::{EditingBoard, tiles_of};
use crate::tile::Tile;

verus! {

/// `t` has `rows` rows of `cols` tiles.
pub open spec fn tiles_rect(t: Seq<Seq<Tile>>, rows: int, cols: int) -> bool {
    &&& t.len() == rows
    &&& forall|i: int| 0 <= i < rows ==> (#[trigger] t[i]).len() == cols
}

pub open spec fn on_board(size: (usize, usize), p: (usize, usize)) -> bool {
    p.0 < size.0 && p.1 < size.1
}

/// Copies a board of bare tiles, checking that it is a non-empty rectangle.
fn copy_rect(board: &Vec<Vec<Tile>>) -> (r: Option<Vec<Vec<Tile>>>)
    ensures
        r matches Some(b) ==> tiles_of(b@) == tiles_of(board@) && board@.len() > 0 && tiles_rect(
            tiles_of(board@),
            board@.len() as int,
            board@[0]@.len() as int,
        ),
        r is None ==> !(board@.len() > 0 && tiles_rect(tiles_of(board@), board@.len() as int, board@[0]@.len() as int)),
{
    let ghost t = tiles_of(board@);
    if board.len() == 0 {
        return None;
    }
    let cols = board[0].len();
    let mut out: Vec<Vec<Tile>> = Vec::new();
    let mut i: usize = 0;
    while i < board.len()
        invariant
            t == tiles_of(board@),
            board@.len() > 0,
            cols == t[0].len(),
            i <= board@.len(),
            out@.len() == i,
            forall|k: int| 0 <= k < i ==> (#[trigger] out@[k])@ == t[k] && t[k].len() == cols,
        decreases board@.len() - i,
    {
        if board[i].len() != cols {
            assert(t[i as int].len() != cols);
            return None;
        }
        let mut row: Vec<Tile> = Vec::new();
        let mut j: usize = 0;
        while j < cols
            invariant
                t == tiles_of(board@),
                i < board@.len(),
                t[i as int].len() == cols,
                j <= cols,
                row@ == t[i as int].subrange(0, j as int),
            decreases cols - j,
        {
            row.push(board[i][j]);
            j += 1;
        }
        assert(row@ =~= t[i as int]);
        out.push(row);
        i += 1;
    }
    assert(tiles_of(out@) =~= t);
    Some(out)
}

#[derive(Debug)]
pub struct PlayingBoard {
    playing_board: Vec<Vec<Tile>>,
    /// Position of the unique start tile.
    start_pos: (usize, usize),
    /// Position of the unique end tile.
    end_pos: (usize, usize),
    board_size: (usize, usize),
    player_pos: (usize, usize),
    /// The player's position before the last move.
    previous_player_pos: (usize, usize),
}

impl PlayingBoard {
    pub closed spec fn tiles(&self) -> Seq<Seq<Tile>> {
        tiles_of(self.playing_board@)
    }

    pub closed spec fn size(&self) -> (usize, usize) {
        self.board_size
    }

    pub closed spec fn start(&self) -> (usize, usize) {
        self.start_pos
    }

    pub closed spec fn end(&self) -> (usize, usize) {
        self.end_pos
    }

    pub closed spec fn pos(&self) -> (usize, usize) {
        self.player_pos
    }

    pub closed spec fn previous_pos(&self) -> (usize, usize) {
        self.previous_player_pos
    }

    /// The board is a rectangle of `size()`. The player's positions may lie
    /// off it; reading the tile under the player needs them on it.
    pub open spec fn wf(&self) -> bool {
        tiles_rect(self.tiles(), self.size().0 as int, self.size().1 as int)
    }

    /// A play board on a copy of `editing_board`, the player on its start.
    /// `None` exactly when the board has no start or no end, or is empty or
    /// not rectangular.
    pub fn new(editing_board: &EditingBoard) -> (r: Option<Self>)
        ensures
            r matches Some(b) ==> {
                &&& b.wf()
                &&& b.tiles() == editing_board.tiles()
                &&& editing_board.start() == Some(b.start())
                &&& editing_board.end() == Some(b.end())
                &&& b.pos() == b.start()
                &&& b.previous_pos() == b.start()
                &&& b.size() == (b.tiles().len() as usize, b.tiles()[0].len() as usize)
            },
            r is None <==> {
                ||| editing_board.start() is None
                ||| editing_board.end() is None
                ||| editing_board.tiles().len() == 0
                ||| !tiles_rect(
                    editing_board.tiles(),
                    editing_board.tiles().len() as int,
                    editing_board.tiles()[0].len() as int,
                )
            },
    {
        let source = editing_board.get_board();
        let playing_board = match copy_rect(source) {
            Some(b) => b,
            None => return None,
        };
        let start_pos = match editing_board.get_start_pos() {
            Some(p) => p,
            None => return None,
        };
        let end_pos = match editing_board.get_end_pos() {
            Some(p) => p,
            None => return None,
        };
        let board_size = (playing_board.len(), playing_board[0].len());
        assert(tiles_of(playing_board@)[0] == playing_board@[0]@);
        Some(
            PlayingBoard {
                playing_board,
                start_pos,
                end_pos,
                board_size,
                player_pos: start_pos,
                previous_player_pos: start_pos,
            },
        )
    }

    pub fn get_player_position(&self) -> (r: (usize, usize))
        ensures
            r == self.pos(),
    {
        self.player_pos
    }

    pub fn get_player_position_isize(&self) -> (r: (isize, isize))
        ensures
            r == (self.pos().0 as isize, self.pos().1 as isize),
    {
        (self.player_pos.0 as isize, self.player_pos.1 as isize)
    }

    pub fn get_tile(&self, x: usize, y: usize) -> (r: Option<&Tile>)
        requires
            self.wf(),
        ensures
            match r {
                Some(t) => on_board(self.size(), (x, y)) && *t == self.tiles()[x as int][y as int],
                None => !on_board(self.size(), (x, y)),
            },
    {
        if x < self.board_size.0 && y < self.board_size.1 {
            assert(self.tiles()[x as int] == self.playing_board@[x as int]@);
            Some(&self.playing_board[x][y])
        } else {
            None
        }
    }

    pub fn current_tile(&self) -> (r: &Tile)
        requires
            self.wf(),
            on_board(self.size(), self.pos()),
        ensures
            *r == self.tiles()[self.pos().0 as int][self.pos().1 as int],
    {
        assert(self.tiles()[self.player_pos.0 as int] == self.playing_board@[self.player_pos.0 as int]@);
        &self.playing_board[self.player_pos.0][self.player_pos.1]
    }

    pub fn previous_tile(&self) -> (r: &Tile)
        requires
            self.wf(),
            on_board(self.size(), self.previous_pos()),
        ensures
            *r == self.tiles()[self.previous_pos().0 as int][self.previous_pos().1 as int],
    {
        let p = self.previous_player_pos;
        assert(self.tiles()[p.0 as int] == self.playing_board@[p.0 as int]@);
        &self.playing_board[p.0][p.1]
    }

    /// The last move changed the player's position.
    pub fn position_is_new(&self) -> (r: bool)
        ensures
            r == (self.pos() != self.previous_pos()),
    {
        !(self.player_pos.0 == self.previous_player_pos.0 && self.player_pos.1 == self.previous_player_pos.1)
    }

    /// Replaces the tile at the player's previous position.
    pub fn set_previous_tile(&mut self, tile: Tile)
        requires
            old(self).wf(),
            on_board(old(self).size(), old(self).previous_pos()),
        ensures
            final(self).wf(),
            final(self).tiles() == old(self).tiles().update(
                old(self).previous_pos().0 as int,
                old(self).tiles()[old(self).previous_pos().0 as int].update(old(self).previous_pos().1 as int, tile),
            ),
            final(self).size() == old(self).size(),
            final(self).start() == old(self).start(),
            final(self).end() == old(self).end(),
            final(self).pos() == old(self).pos(),
            final(self).previous_pos() == old(self).previous_pos(),
    {
        let p = self.previous_player_pos;
        let ghost t = self.tiles();
        assert(t[p.0 as int] == self.playing_board@[p.0 as int]@);
        self.playing_board[p.0][p.1] = tile;
        assert(self.tiles() =~= t.update(p.0 as int, t[p.0 as int].update(p.1 as int, tile)));
        assert forall|i: int| 0 <= i < self.board_size.0 implies (#[trigger] self.tiles()[i]).len() == self.board_size.1 by {
            if i != p.0 as int {
                assert(self.tiles()[i] == t[i]);
            }
        }
    }

    /// Whether (x, y) lies before the board's far edges.
    pub fn pos_is_valid(&self, x: isize, y: isize) -> (r: bool)
        ensures
            r == (x < self.size().0 as isize && y < self.size().1 as isize),
    {
        x < self.board_size.0 as isize && y < self.board_size.1 as isize
    }

    pub fn pos_is_end_square(&self, x: isize, y: isize) -> (r: bool)
        ensures
            r == (x == self.end().0 as isize && y == self.end().1 as isize),
    {
        x == self.end_pos.0 as isize && y == self.end_pos.1 as isize
    }

    /// Moves the player to `new_pos`, remembering where it was. The
    /// position is stored as given; it need not lie on the board.
    pub fn advance_player_position(&mut self, new_pos: (isize, isize))
        ensures
            final(self).wf() == old(self).wf(),
            final(self).pos() == (new_pos.0 as usize, new_pos.1 as usize),
            final(self).previous_pos() == old(self).pos(),
            final(self).tiles() == old(self).tiles(),
            final(self).size() == old(self).size(),
            final(self).start() == old(self).start(),
            final(self).end() == old(self).end(),
    {
        self.previous_player_pos = self.player_pos;
        self.player_pos = (new_pos.0 as usize, new_pos.1 as usize);
    }
}

} // verus!
