//! A play session: the runtime board (the edited board padded with a ring
//! of empty cells), the player's position, and the animation that plays an
//! input back one tile edge per tick.

use vstd::prelude::*;

use crate::direction::{DirectionKey, PlayerMovementData};
use crate::editing_model::{EditingModel, empty_cell};
use crate::grid::{cell_at, filled_board, grid_of, grid_ok, in_bounds, is_rect, tile_at, write_cell};
use crate::movement::{
    StepModel, StepOutcome, lemma_cloud_used_up_by_resolution, resolves_to, resolve_step, step_once, step_spec,
};
use crate::tile::{Tile, TileData};

verus! {

pub open spec fn inc_sat(x: usize) -> usize {
    if x < usize::MAX {
        (x + 1) as usize
    } else {
        x
    }
}

/// A cell of the edited board as it stands on the runtime board: portal
/// links move with the padding.
pub open spec fn shifted(cell: TileData) -> TileData {
    match cell.tile {
        Tile::Portal(c, link) => TileData { tile: Tile::Portal(c, (inc_sat(link.0), inc_sat(link.1))), key: cell.key },
        _ => cell,
    }
}

/// The cell at (i, j) of the runtime board built from the edited grid `g`
/// of `size.0` rows and `size.1` columns.
pub open spec fn padded_cell(g: Seq<Seq<TileData>>, size: (usize, usize), i: int, j: int) -> TileData {
    if 1 <= i <= size.0 && 1 <= j <= size.1 {
        shifted(g[i - 1][j - 1])
    } else {
        empty_cell()
    }
}

fn shift_cell(cell: TileData) -> (r: TileData)
    ensures
        r == shifted(cell),
{
    match cell.tile {
        Tile::Portal(c, link) => {
            let a = if link.0 < usize::MAX {
                link.0 + 1
            } else {
                link.0
            };
            let b = if link.1 < usize::MAX {
                link.1 + 1
            } else {
                link.1
            };
            TileData { tile: Tile::Portal(c, (a, b)), key: cell.key }
        },
        _ => cell,
    }
}

/// An input being played back one tile edge at a time.
#[derive(Debug, Clone, Copy)]
pub struct MovementAnimation {
    /// The tile the player occupies.
    pub current_tile: Tile,
    /// The position before the last step.
    pub old_pos: (usize, usize),
    /// The travel speed in flight.
    pub movement_speed: usize,
    pub direction: DirectionKey,
    pub use_tile: bool,
    pub finished: bool,
}

impl MovementAnimation {
    /// Starts playing `movement` back from `pos`.
    pub fn new(board: &Vec<Vec<TileData>>, pos: (usize, usize), movement: PlayerMovementData) -> (r: Self)
        requires
            in_bounds(grid_of(board@), pos),
        ensures
            r == (MovementAnimation {
                current_tile: tile_at(grid_of(board@), pos),
                old_pos: pos,
                movement_speed: movement.move_speed,
                direction: movement.direction,
                use_tile: movement.use_tile,
                finished: false,
            }),
    {
        assert(grid_of(board@)[pos.0 as int] == board@[pos.0 as int]@);
        MovementAnimation {
            current_tile: board[pos.0][pos.1].tile,
            old_pos: pos,
            movement_speed: movement.move_speed,
            direction: movement.direction,
            use_tile: movement.use_tile,
            finished: false,
        }
    }

    /// Advances by one tile edge, moving the player at `*pos`. The animation
    /// finishes with any outcome but `Continue`; a finished animation does
    /// not move and reports `NoMovement`.
    pub fn step(&mut self, board: &mut Vec<Vec<TileData>>, pos: &mut (usize, usize)) -> (r: StepOutcome)
        requires
            grid_ok(grid_of(old(board)@)),
            in_bounds(grid_of(old(board)@), *old(pos)),
        ensures
            is_rect(grid_of(final(board)@), old(board)@.len() as int, old(board)@[0]@.len() as int),
            in_bounds(grid_of(final(board)@), *final(pos)),
            old(self).finished ==> {
                &&& *final(self) == *old(self)
                &&& grid_of(final(board)@) == grid_of(old(board)@)
                &&& *final(pos) == *old(pos)
                &&& r is NoMovement
            },
            !old(self).finished ==> {
                let s = step_spec(
                    grid_of(old(board)@),
                    *old(pos),
                    old(self).direction,
                    old(self).movement_speed,
                    old(self).use_tile,
                );
                &&& grid_of(final(board)@) == s.board
                &&& *final(pos) == s.pos
                &&& r == s.outcome
                &&& *final(self) == (MovementAnimation {
                    current_tile: tile_at(s.board, s.pos),
                    old_pos: *old(pos),
                    movement_speed: s.speed,
                    direction: old(self).direction,
                    use_tile: old(self).use_tile,
                    finished: !(s.outcome is Continue),
                })
            },
    {
        if self.finished {
            return StepOutcome::NoMovement;
        }
        let from = *pos;
        let (np, ns, outcome) = step_once(board, from, self.direction, self.movement_speed, self.use_tile);
        assert(grid_of(board@)[np.0 as int] == board@[np.0 as int]@);
        self.current_tile = board[np.0][np.1].tile;
        self.old_pos = from;
        self.movement_speed = ns;
        self.finished = match outcome {
            StepOutcome::Continue => false,
            _ => true,
        };
        *pos = np;
        outcome
    }
}

/// A play session on a runtime board.
#[derive(Debug)]
pub struct PlayingModel {
    board: Vec<Vec<TileData>>,
    /// Size of the board, padding included.
    board_size: (usize, usize),
    player_pos: (usize, usize),
    animation_state: Option<MovementAnimation>,
}

impl PlayingModel {
    pub closed spec fn grid(&self) -> Seq<Seq<TileData>> {
        grid_of(self.board@)
    }

    pub closed spec fn size(&self) -> (usize, usize) {
        self.board_size
    }

    pub closed spec fn pos(&self) -> (usize, usize) {
        self.player_pos
    }

    pub closed spec fn animation(&self) -> Option<MovementAnimation> {
        self.animation_state
    }

    pub open spec fn wf(&self) -> bool {
        &&& grid_ok(self.grid())
        &&& is_rect(self.grid(), self.size().0 as int, self.size().1 as int)
        &&& in_bounds(self.grid(), self.pos())
    }

    /// Starts a session on `editing_model`: its board padded with one ring of
    /// empty cells, the player on the start cell.
    pub fn new(editing_model: &EditingModel) -> (r: Self)
        requires
            editing_model.wf(),
            editing_model.start() is Some,
            editing_model.size().0 + 2 <= usize::MAX,
            editing_model.size().1 + 2 <= usize::MAX,
        ensures
            r.wf(),
            r.size() == ((editing_model.size().0 + 2) as usize, (editing_model.size().1 + 2) as usize),
            r.pos() == ({
                let s = editing_model.start()->0;
                ((s.0 + 1) as usize, (s.1 + 1) as usize)
            }),
            r.animation() is None,
            forall|i: int, j: int|
                0 <= i < r.size().0 && 0 <= j < r.size().1 ==> #[trigger] r.grid()[i][j] == padded_cell(
                    editing_model.grid(),
                    editing_model.size(),
                    i,
                    j,
                ),
    {
        let size = editing_model.get_board_size();
        let source = editing_model.get_board();
        let ghost g = editing_model.grid();
        let rows = size.0 + 2;
        let cols = size.1 + 2;
        let mut board = filled_board(rows, cols, TileData::empty());
        let mut i: usize = 0;
        while i < size.0
            invariant
                g == grid_of(source@),
                is_rect(g, size.0 as int, size.1 as int),
                rows == size.0 + 2,
                cols == size.1 + 2,
                i <= size.0,
                is_rect(grid_of(board@), rows as int, cols as int),
                forall|a: int, b: int|
                    0 <= a < rows && 0 <= b < cols ==> #[trigger] grid_of(board@)[a][b] == if 1 <= a <= i {
                        padded_cell(g, size, a, b)
                    } else {
                        empty_cell()
                    },
            decreases size.0 - i,
        {
            let mut j: usize = 0;
            assert(g[i as int].len() == size.1);
            while j < size.1
                invariant
                    g == grid_of(source@),
                    is_rect(g, size.0 as int, size.1 as int),
                    rows == size.0 + 2,
                    cols == size.1 + 2,
                    i < size.0,
                    j <= size.1,
                    is_rect(grid_of(board@), rows as int, cols as int),
                    forall|a: int, b: int|
                        0 <= a < rows && 0 <= b < cols ==> #[trigger] grid_of(board@)[a][b] == if 1 <= a <= i || (a
                            == i + 1 && 1 <= b <= j) {
                            padded_cell(g, size, a, b)
                        } else {
                            empty_cell()
                        },
                decreases size.1 - j,
            {
                assert(g[i as int].len() == size.1);
                assert(grid_of(source@)[i as int] == source@[i as int]@);
                let cell = shift_cell(source[i][j]);
                let ghost h = grid_of(board@);
                assert(h[(i + 1) as int].len() == cols);
                write_cell(&mut board, (i + 1, j + 1), cell);
                proof {
                    let h2 = grid_of(board@);
                    assert forall|a: int| 0 <= a < rows implies (#[trigger] h2[a]).len() == cols by {
                        if a != i + 1 {
                            assert(h2[a] == h[a]);
                        }
                    }
                    assert forall|a: int, b: int| 0 <= a < rows && 0 <= b < cols implies #[trigger] h2[a][b] == if 1 <= a
                        <= i || (a == i + 1 && 1 <= b <= j + 1) {
                        padded_cell(g, size, a, b)
                    } else {
                        empty_cell()
                    } by {
                        if a != i + 1 {
                            assert(h2[a] == h[a]);
                        }
                        assert(h[a][b] == if 1 <= a <= i || (a == i + 1 && 1 <= b <= j) {
                            padded_cell(g, size, a, b)
                        } else {
                            empty_cell()
                        });
                    }
                }
                j += 1;
            }
            i += 1;
        }
        let start = match editing_model.get_start_pos() {
            Some(s) => s,
            None => (0, 0),
        };
        let player_pos = (start.0 + 1, start.1 + 1);
        let r = PlayingModel { board, board_size: (rows, cols), player_pos, animation_state: None };
        proof {
            assert(g[start.0 as int].len() == size.1);
            assert(r.grid()[player_pos.0 as int].len() == cols);
            assert forall|a: int, b: int| 0 <= a < rows && 0 <= b < cols implies #[trigger] r.grid()[a][b]
                == padded_cell(g, size, a, b) by {
                assert(grid_of(board@)[a][b] == if 1 <= a <= i {
                    padded_cell(g, size, a, b)
                } else {
                    empty_cell()
                });
            }
        }
        r
    }

    pub fn get_board(&self) -> (r: &Vec<Vec<TileData>>)
        ensures
            grid_of(r@) == self.grid(),
    {
        &self.board
    }

    pub fn get_board_size(&self) -> (r: (usize, usize))
        ensures
            r == self.size(),
    {
        self.board_size
    }

    pub fn get_player_pos(&self) -> (r: (usize, usize))
        ensures
            r == self.pos(),
    {
        self.player_pos
    }

    /// The cell at (x, y), when it is on the board.
    pub fn get_tile(&self, x: usize, y: usize) -> (r: Option<TileData>)
        requires
            self.wf(),
        ensures
            match r {
                Some(c) => in_bounds(self.grid(), (x, y)) && c == cell_at(self.grid(), (x, y)),
                None => !in_bounds(self.grid(), (x, y)),
            },
    {
        if x < self.board.len() && y < self.board[x].len() {
            Some(self.board[x][y])
        } else {
            None
        }
    }

    /// The tile the player stands on.
    pub fn current_tile(&self) -> (r: Tile)
        requires
            self.wf(),
        ensures
            r == tile_at(self.grid(), self.pos()),
    {
        assert(self.grid()[self.player_pos.0 as int] == self.board@[self.player_pos.0 as int]@);
        self.board[self.player_pos.0][self.player_pos.1].tile
    }

    /// Moves the player for one input, resolving the whole chain of tile
    /// effects at once. `movement.move_speed` is left at the final travel
    /// speed. Returns true when the player reached the end space.
    pub fn handle_player_movement(&mut self, movement: &mut PlayerMovementData) -> (r: bool)
        requires
            old(self).wf(),
        ensures
            final(self).wf(),
            final(self).size() == old(self).size(),
            final(self).animation() == old(self).animation(),
            final(movement).direction == old(movement).direction,
            final(movement).use_tile == old(movement).use_tile,
            exists|o: StepOutcome|
                {
                    &&& resolves_to(
                        old(self).grid(),
                        old(self).pos(),
                        *old(movement),
                        StepModel {
                            board: final(self).grid(),
                            pos: final(self).pos(),
                            speed: final(movement).move_speed,
                            outcome: o,
                        },
                    )
                    &&& (r <==> o is Success)
                },
            tile_at(old(self).grid(), old(self).pos()) is Cloud ==> {
                &&& final(self).pos() != old(self).pos() ==> tile_at(final(self).grid(), old(self).pos()) is Empty
                &&& final(self).pos() == old(self).pos() ==> final(self).grid() == old(self).grid()
            },
    {
        let ghost g0 = self.grid();
        let ghost p0 = self.pos();
        let ghost m0 = *movement;
        let (pos, speed, outcome) = resolve_step(&mut self.board, self.player_pos, *movement);
        self.player_pos = pos;
        movement.move_speed = speed;
        let r = match outcome {
            StepOutcome::Success => true,
            _ => false,
        };
        assert(resolves_to(
            g0,
            p0,
            m0,
            StepModel { board: self.grid(), pos: self.pos(), speed: movement.move_speed, outcome },
        ) && (r <==> outcome is Success));
        proof {
            if tile_at(g0, p0) is Cloud {
                lemma_cloud_used_up_by_resolution(
                    g0,
                    p0,
                    m0,
                    StepModel { board: self.grid(), pos: self.pos(), speed: movement.move_speed, outcome },
                );
            }
        }
        r
    }

    /// Whether an input is being played back.
    pub fn is_animating(&self) -> (r: bool)
        ensures
            r == (self.animation() is Some),
    {
        self.animation_state.is_some()
    }

    /// Starts playing `movement` back one tile edge per tick, replacing any
    /// animation under way.
    pub fn start_movement_animation(&mut self, movement: PlayerMovementData)
        requires
            old(self).wf(),
        ensures
            final(self).wf(),
            final(self).grid() == old(self).grid(),
            final(self).size() == old(self).size(),
            final(self).pos() == old(self).pos(),
            final(self).animation() == Some(
                MovementAnimation {
                    current_tile: tile_at(old(self).grid(), old(self).pos()),
                    old_pos: old(self).pos(),
                    movement_speed: movement.move_speed,
                    direction: movement.direction,
                    use_tile: movement.use_tile,
                    finished: false,
                },
            ),
    {
        let animation = MovementAnimation::new(&self.board, self.player_pos, movement);
        self.animation_state = Some(animation);
    }

    /// One tick of the animation: advances the player by one tile edge. A
    /// finished animation is dropped, so the session goes back to idle;
    /// without an animation nothing moves and the outcome is `NoMovement`.
    pub fn step_animation(&mut self) -> (r: StepOutcome)
        requires
            old(self).wf(),
        ensures
            final(self).wf(),
            final(self).size() == old(self).size(),
            match old(self).animation() {
                None => {
                    &&& final(self).grid() == old(self).grid()
                    &&& final(self).pos() == old(self).pos()
                    &&& final(self).animation() is None
                    &&& r is NoMovement
                },
                Some(a) => {
                    let s = step_spec(old(self).grid(), old(self).pos(), a.direction, a.movement_speed, a.use_tile);
                    &&& a.finished ==> final(self).grid() == old(self).grid() && final(self).pos() == old(self).pos()
                        && r is NoMovement
                    &&& !a.finished ==> final(self).grid() == s.board && final(self).pos() == s.pos && r == s.outcome
                    &&& final(self).animation() == if a.finished || !(s.outcome is Continue) {
                        None
                    } else {
                        Some(
                            MovementAnimation {
                                current_tile: tile_at(s.board, s.pos),
                                old_pos: old(self).pos(),
                                movement_speed: s.speed,
                                direction: a.direction,
                                use_tile: a.use_tile,
                                finished: false,
                            },
                        )
                    }
                },
            },
    {
        match self.animation_state {
            None => StepOutcome::NoMovement,
            Some(a) => {
                let mut animation = a;
                let outcome = animation.step(&mut self.board, &mut self.player_pos);
                if animation.finished {
                    self.animation_state = None;
                } else {
                    self.animation_state = Some(animation);
                }
                outcome
            },
        }
    }
}

} // verus!
