//! The movement resolution engine: advances the player over the board one
//! tile edge at a time, applying the effect of each tile landed on until the
//! chain of effects settles.

use vstd::prelude::*;

use crate::direction::{DirectionKey, PlayerMovementData};
use crate::grid::{
    cell_at, grid_of, grid_ok, in_bounds, is_rect, lemma_with_tile_at, lemma_with_tile_rect, tile_at, with_tile, write_tile,
};
use crate::tile::{Tile, TileData, tile_allows};

verus! {

/// How a step of movement ended.
#[derive(Debug, Clone, Copy, PartialEq, Eq, Hash, Structural)]
pub enum StepOutcome {
    /// The player moved and the chain goes on with the next step.
    Continue,
    /// A wall stopped the player short of the target cell.
    Blocked,
    /// The player did not move (or was teleported in place of moving).
    NoMovement,
    /// The player moved and the chain ended.
    Completed,
    /// The player landed on the end space: the puzzle is solved.
    Success,
}

/// Board, position, speed and outcome after a step of movement.
pub struct StepModel {
    pub board: Seq<Seq<TileData>>,
    pub pos: (usize, usize),
    pub speed: usize,
    pub outcome: StepOutcome,
}

/// Moves coordinate `p` by `k` cells in the sign of `d`.
pub open spec fn offset(p: int, d: int, k: int) -> int {
    if d > 0 {
        p + k
    } else if d < 0 {
        p - k
    } else {
        p
    }
}

/// Coordinate `p` moved `speed` cells in the sign of `d`, clamped to
/// `[0, dim - 1]`.
pub open spec fn axis_target(p: int, d: int, speed: int, dim: int) -> int {
    if d > 0 {
        if p + speed <= dim - 1 {
            p + speed
        } else {
            dim - 1
        }
    } else if d < 0 {
        if p >= speed {
            p - speed
        } else {
            0
        }
    } else {
        p
    }
}

/// The cell `speed` cells away from `pos` in `direction`, clamped to the board.
pub open spec fn candidate(g: Seq<Seq<TileData>>, pos: (usize, usize), direction: DirectionKey, speed: usize) -> (usize, usize) {
    (
        axis_target(pos.0 as int, direction.delta().0, speed as int, g.len() as int) as usize,
        axis_target(pos.1 as int, direction.delta().1, speed as int, g[0].len() as int) as usize,
    )
}

pub open spec fn dist(a: usize, b: usize) -> int {
    if a >= b {
        a - b
    } else {
        b - a
    }
}

/// The cell `i` rows and `j` columns away from `pos`, towards `direction`.
pub open spec fn scan_cell(pos: (usize, usize), direction: DirectionKey, i: int, j: int) -> (usize, usize) {
    (offset(pos.0 as int, direction.delta().0, i) as usize, offset(pos.1 as int, direction.delta().1, j) as usize)
}

pub open spec fn wall_in_scan(g: Seq<Seq<TileData>>, pos: (usize, usize), direction: DirectionKey, i: int, j: int) -> bool {
    tile_at(g, scan_cell(pos, direction, i, j)) is Wall
}

pub open spec fn scanned_before(i2: int, j2: int, i: int, j: int) -> bool {
    i2 < i || (i2 == i && j2 < j)
}

/// The rectangle between the player and the target cell is scanned outwards
/// from the player, row offset first; (i, j) holds the first wall met.
pub open spec fn is_first_wall(
    g: Seq<Seq<TileData>>,
    pos: (usize, usize),
    direction: DirectionKey,
    ni: int,
    nj: int,
    i: int,
    j: int,
) -> bool {
    &&& 0 <= i <= ni
    &&& 0 <= j <= nj
    &&& wall_in_scan(g, pos, direction, i, j)
    &&& forall|i2: int, j2: int|
        0 <= i2 <= ni && 0 <= j2 <= nj && scanned_before(i2, j2, i, j)
            ==> !#[trigger] wall_in_scan(g, pos, direction, i2, j2)
}

pub open spec fn has_wall(g: Seq<Seq<TileData>>, pos: (usize, usize), direction: DirectionKey, ni: int, nj: int) -> bool {
    exists|i: int, j: int| 0 <= i <= ni && 0 <= j <= nj && #[trigger] wall_in_scan(g, pos, direction, i, j)
}

/// Where a player stopped by the wall at scan offset (i, j) ends: one cell
/// short of the wall, on the side the player came from.
pub open spec fn blocked_pos(pos: (usize, usize), direction: DirectionKey, i: int, j: int) -> (usize, usize) {
    scan_cell(pos, direction, if i > 0 { i - 1 } else { 0 }, if j > 0 { j - 1 } else { 0 })
}

/// Travel speed after landing on a bounce tile: `speed + delta`, never
/// below zero (and never past the largest `usize`).
pub open spec fn bounce_speed(speed: usize, delta: isize) -> usize {
    if speed + delta < 0 {
        0
    } else if speed + delta > usize::MAX {
        usize::MAX
    } else {
        (speed + delta) as usize
    }
}

/// A cloud tile is used up once the player's position changes away from it.
pub open spec fn consume_cloud(g: Seq<Seq<TileData>>, from: (usize, usize), to: (usize, usize)) -> Seq<Seq<TileData>> {
    if tile_at(g, from) is Cloud && to != from {
        with_tile(g, from, Tile::Empty)
    } else {
        g
    }
}

/// The effect of landing on the tile at `to`.
pub open spec fn land(g: Seq<Seq<TileData>>, to: (usize, usize), speed: usize) -> StepModel {
    match tile_at(g, to) {
        Tile::EndSpace => StepModel { board: g, pos: to, speed, outcome: StepOutcome::Success },
        Tile::Empty => StepModel { board: g, pos: to, speed, outcome: StepOutcome::Completed },
        Tile::Bounce(delta) => {
            let s = bounce_speed(speed, delta);
            StepModel {
                board: g,
                pos: to,
                speed: s,
                outcome: if s == 0 { StepOutcome::Completed } else { StepOutcome::Continue },
            }
        },
        Tile::Ice => StepModel { board: g, pos: to, speed: 1, outcome: StepOutcome::Continue },
        _ => StepModel { board: g, pos: to, speed: 0, outcome: StepOutcome::Completed },
    }
}

/// One tile edge of movement from `pos`.
pub open spec fn step_spec(
    g: Seq<Seq<TileData>>,
    pos: (usize, usize),
    direction: DirectionKey,
    speed: usize,
    use_tile: bool,
) -> StepModel {
    let here = tile_at(g, pos);
    let stay = StepModel { board: g, pos, speed, outcome: StepOutcome::NoMovement };
    if direction is NoDirection {
        match here {
            Tile::Portal(_, link) => if use_tile && in_bounds(g, link) {
                StepModel { board: g, pos: link, speed, outcome: StepOutcome::NoMovement }
            } else {
                stay
            },
            _ => stay,
        }
    } else if !tile_allows(here, direction) {
        stay
    } else {
        let cand = candidate(g, pos, direction, speed);
        let ni = dist(cand.0, pos.0);
        let nj = dist(cand.1, pos.1);
        if cand == pos {
            stay
        } else if has_wall(g, pos, direction, ni, nj) {
            let ij = choose|ij: (int, int)| is_first_wall(g, pos, direction, ni, nj, ij.0, ij.1);
            let stop = blocked_pos(pos, direction, ij.0, ij.1);
            StepModel {
                board: consume_cloud(g, pos, stop),
                pos: stop,
                speed,
                outcome: StepOutcome::Blocked,
            }
        } else {
            land(consume_cloud(g, pos, cand), cand, speed)
        }
    }
}

/// Steps applied one after another while the outcome is `Continue`, at
/// most `fuel` of them; `None` when the fuel runs out first.
pub open spec fn chain(
    g: Seq<Seq<TileData>>,
    pos: (usize, usize),
    direction: DirectionKey,
    speed: usize,
    use_tile: bool,
    fuel: nat,
) -> Option<StepModel>
    decreases fuel,
{
    if fuel == 0 {
        None
    } else {
        let s = step_spec(g, pos, direction, speed, use_tile);
        if s.outcome is Continue {
            chain(s.board, s.pos, direction, s.speed, use_tile, (fuel - 1) as nat)
        } else {
            Some(s)
        }
    }
}

/// Resolving `input` from `pos` on board `g` settles in `r`.
pub open spec fn resolves_to(g: Seq<Seq<TileData>>, pos: (usize, usize), input: PlayerMovementData, r: StepModel) -> bool {
    exists|fuel: nat| chain(g, pos, input.direction, input.move_speed, input.use_tile, fuel) == Some(r)
}

/// How far the player can still travel in `direction` before the edge of
/// the board, summed over both axes.
pub open spec fn room(g: Seq<Seq<TileData>>, pos: (usize, usize), direction: DirectionKey) -> int {
    let d = direction.delta();
    (if d.0 > 0 {
        g.len() - 1 - pos.0
    } else if d.0 < 0 {
        pos.0 as int
    } else {
        0
    }) + (if d.1 > 0 {
        g[0].len() - 1 - pos.1
    } else if d.1 < 0 {
        pos.1 as int
    } else {
        0
    })
}

/// A step that continues the chain moves the player strictly towards the
/// edge of the board, so every chain ends.
pub proof fn lemma_continue_makes_progress(
    g: Seq<Seq<TileData>>,
    pos: (usize, usize),
    direction: DirectionKey,
    speed: usize,
    use_tile: bool,
)
    requires
        grid_ok(g),
        in_bounds(g, pos),
        step_spec(g, pos, direction, speed, use_tile).outcome is Continue,
    ensures
        ({
            let s = step_spec(g, pos, direction, speed, use_tile);
            &&& s.board.len() == g.len()
            &&& s.board[0].len() == g[0].len()
            &&& grid_ok(s.board)
            &&& in_bounds(s.board, s.pos)
            &&& 0 <= room(s.board, s.pos, direction) < room(g, pos, direction)
        }),
{
    let s = step_spec(g, pos, direction, speed, use_tile);
    let cand = candidate(g, pos, direction, speed);
    assert(g[pos.0 as int].len() == g[0].len());
    lemma_axis_target_range(pos.0 as int, direction.delta().0, speed as int, g.len() as int);
    lemma_axis_target_range(pos.1 as int, direction.delta().1, speed as int, g[0].len() as int);
    assert(s.pos == cand);
    if tile_at(g, pos) is Cloud {
        lemma_with_tile_rect(g, pos, Tile::Empty, g.len() as int, g[0].len() as int);
    }
    assert(s.board[cand.0 as int].len() == g[0].len());
}

/// When the scanned rectangle holds a wall, it holds a first one; the scan
/// has passed every offset before (i, j) without meeting a wall.
pub proof fn lemma_first_wall_exists(
    g: Seq<Seq<TileData>>,
    pos: (usize, usize),
    direction: DirectionKey,
    ni: int,
    nj: int,
    i: int,
    j: int,
)
    requires
        0 <= ni,
        0 <= nj,
        0 <= i <= ni + 1,
        0 <= j <= nj,
        has_wall(g, pos, direction, ni, nj),
        forall|i2: int, j2: int|
            0 <= i2 <= ni && 0 <= j2 <= nj && scanned_before(i2, j2, i, j)
                ==> !#[trigger] wall_in_scan(g, pos, direction, i2, j2),
    ensures
        exists|a: int, b: int| is_first_wall(g, pos, direction, ni, nj, a, b),
    decreases ni + 1 - i, nj - j,
{
    if i > ni {
        let (a, b) = choose|a: int, b: int|
            0 <= a <= ni && 0 <= b <= nj && #[trigger] wall_in_scan(g, pos, direction, a, b);
        assert(scanned_before(a, b, i, j));
    } else if wall_in_scan(g, pos, direction, i, j) {
        assert(is_first_wall(g, pos, direction, ni, nj, i, j));
    } else if j < nj {
        lemma_first_wall_exists(g, pos, direction, ni, nj, i, j + 1);
    } else {
        lemma_first_wall_exists(g, pos, direction, ni, nj, i + 1, 0);
    }
}

/// A step from `pos` leaves alone every cell `q` farther back than `pos`
/// along `direction`, and never ends there.
pub proof fn lemma_step_leaves_behind(
    g: Seq<Seq<TileData>>,
    pos: (usize, usize),
    direction: DirectionKey,
    speed: usize,
    use_tile: bool,
    q: (usize, usize),
)
    requires
        grid_ok(g),
        in_bounds(g, pos),
        in_bounds(g, q),
        room(g, q, direction) > room(g, pos, direction),
    ensures
        ({
            let s = step_spec(g, pos, direction, speed, use_tile);
            &&& cell_at(s.board, q) == cell_at(g, q)
            &&& s.pos != q
            &&& room(s.board, q, direction) == room(g, q, direction)
        }),
{
    let s = step_spec(g, pos, direction, speed, use_tile);
    let cand = candidate(g, pos, direction, speed);
    let ni = dist(cand.0, pos.0);
    let nj = dist(cand.1, pos.1);
    assert(pos != q);
    assert(g[pos.0 as int].len() == g[0].len());
    lemma_axis_target_range(pos.0 as int, direction.delta().0, speed as int, g.len() as int);
    lemma_axis_target_range(pos.1 as int, direction.delta().1, speed as int, g[0].len() as int);
    lemma_with_tile_at(g, pos, Tile::Empty, q);
    lemma_with_tile_rect(g, pos, Tile::Empty, g.len() as int, g[0].len() as int);
    if !(direction is NoDirection) && tile_allows(tile_at(g, pos), direction) && cand != pos {
        if has_wall(g, pos, direction, ni, nj) {
            lemma_scan_in_bounds(g, pos, direction, speed);
            lemma_first_wall_exists(g, pos, direction, ni, nj, 0, 0);
            let (a, b) = choose|a: int, b: int| is_first_wall(g, pos, direction, ni, nj, a, b);
            lemma_first_wall_unique(g, pos, direction, ni, nj, a, b);
            let ij = choose|ij: (int, int)| is_first_wall(g, pos, direction, ni, nj, ij.0, ij.1);
            let bi = if ij.0 > 0 { ij.0 - 1 } else { 0 };
            let bj = if ij.1 > 0 { ij.1 - 1 } else { 0 };
            assert(0 <= offset(pos.0 as int, direction.delta().0, bi) < g.len());
            assert(0 <= offset(pos.1 as int, direction.delta().1, bj) < g[0].len());
            assert(room(g, s.pos, direction) <= room(g, pos, direction));
        } else {
            assert(room(g, cand, direction) <= room(g, pos, direction));
        }
    }
}

/// Over a whole chain from `pos`, every cell `q` farther back than `pos`
/// along `direction` is left alone, and the chain never ends there.
pub proof fn lemma_chain_leaves_behind(
    g: Seq<Seq<TileData>>,
    pos: (usize, usize),
    direction: DirectionKey,
    speed: usize,
    use_tile: bool,
    fuel: nat,
    q: (usize, usize),
)
    requires
        grid_ok(g),
        in_bounds(g, pos),
        in_bounds(g, q),
        room(g, q, direction) > room(g, pos, direction),
        chain(g, pos, direction, speed, use_tile, fuel) is Some,
    ensures
        ({
            let r = chain(g, pos, direction, speed, use_tile, fuel)->0;
            cell_at(r.board, q) == cell_at(g, q) && r.pos != q
        }),
    decreases fuel,
{
    let s = step_spec(g, pos, direction, speed, use_tile);
    lemma_step_leaves_behind(g, pos, direction, speed, use_tile, q);
    if s.outcome is Continue {
        lemma_continue_makes_progress(g, pos, direction, speed, use_tile);
        assert(s.board[q.0 as int].len() == g[q.0 as int].len()) by {
            assert(cell_at(s.board, q) == cell_at(g, q));
            assert(g[q.0 as int].len() == g[0].len());
            assert(s.board[q.0 as int].len() == s.board[0].len());
        }
        lemma_chain_leaves_behind(s.board, s.pos, direction, s.speed, use_tile, (fuel - 1) as nat, q);
    }
}

/// Over a whole resolution, a cloud the player started on is used up when
/// the player ends elsewhere, and the board is unchanged when the player
/// ends where it started.
pub proof fn lemma_cloud_used_up_by_resolution(
    g: Seq<Seq<TileData>>,
    pos: (usize, usize),
    input: PlayerMovementData,
    r: StepModel,
)
    requires
        grid_ok(g),
        in_bounds(g, pos),
        tile_at(g, pos) is Cloud,
        resolves_to(g, pos, input, r),
    ensures
        r.pos != pos ==> tile_at(r.board, pos) is Empty,
        r.pos == pos ==> r.board == g,
{
    let fuel = choose|fuel: nat| chain(g, pos, input.direction, input.move_speed, input.use_tile, fuel) == Some(r);
    let s = step_spec(g, pos, input.direction, input.move_speed, input.use_tile);
    lemma_cloud_used_up_on_leaving(g, pos, input.direction, input.move_speed, input.use_tile);
    if s.outcome is Continue {
        lemma_continue_makes_progress(g, pos, input.direction, input.move_speed, input.use_tile);
        assert(pos != s.pos);
        assert(in_bounds(s.board, pos)) by {
            assert(g[pos.0 as int].len() == g[0].len());
            assert(s.board[pos.0 as int].len() == s.board[0].len());
        }
        assert(room(s.board, pos, input.direction) == room(g, pos, input.direction));
        lemma_chain_leaves_behind(
            s.board,
            s.pos,
            input.direction,
            s.speed,
            input.use_tile,
            (fuel - 1) as nat,
            pos,
        );
    }
}

/// Fuel beyond what a chain needs changes nothing.
pub proof fn lemma_chain_more_fuel(
    g: Seq<Seq<TileData>>,
    pos: (usize, usize),
    direction: DirectionKey,
    speed: usize,
    use_tile: bool,
    f1: nat,
    f2: nat,
)
    requires
        chain(g, pos, direction, speed, use_tile, f1) is Some,
        f1 <= f2,
    ensures
        chain(g, pos, direction, speed, use_tile, f2) == chain(g, pos, direction, speed, use_tile, f1),
    decreases f1,
{
    let s = step_spec(g, pos, direction, speed, use_tile);
    if s.outcome is Continue {
        lemma_chain_more_fuel(s.board, s.pos, direction, s.speed, use_tile, (f1 - 1) as nat, (f2 - 1) as nat);
    }
}

/// Resolution is deterministic: the same board, position and input always
/// settle in the same board, position, speed and outcome.
pub proof fn lemma_resolution_deterministic(
    g: Seq<Seq<TileData>>,
    pos: (usize, usize),
    input: PlayerMovementData,
    r1: StepModel,
    r2: StepModel,
)
    requires
        resolves_to(g, pos, input, r1),
        resolves_to(g, pos, input, r2),
    ensures
        r1 == r2,
{
    let f1 = choose|fuel: nat| chain(g, pos, input.direction, input.move_speed, input.use_tile, fuel) == Some(r1);
    let f2 = choose|fuel: nat| chain(g, pos, input.direction, input.move_speed, input.use_tile, fuel) == Some(r2);
    if f1 <= f2 {
        lemma_chain_more_fuel(g, pos, input.direction, input.move_speed, input.use_tile, f1, f2);
    } else {
        lemma_chain_more_fuel(g, pos, input.direction, input.move_speed, input.use_tile, f2, f1);
    }
}

/// A cloud the player stands on is used up exactly when a step takes the
/// player away from it; a step that leaves the player in place changes
/// nothing on the board.
pub proof fn lemma_cloud_used_up_on_leaving(
    g: Seq<Seq<TileData>>,
    pos: (usize, usize),
    direction: DirectionKey,
    speed: usize,
    use_tile: bool,
)
    requires
        grid_ok(g),
        in_bounds(g, pos),
        tile_at(g, pos) is Cloud,
    ensures
        ({
            let s = step_spec(g, pos, direction, speed, use_tile);
            &&& s.pos != pos ==> tile_at(s.board, pos) is Empty
            &&& s.pos == pos ==> s.board == g
        }),
{
}

/// A player moving right at speed 3 towards a wall two columns away stops
/// on the column just before the wall, blocked, whatever lies beyond it.
pub proof fn lemma_wall_interposition(g: Seq<Seq<TileData>>, pos: (usize, usize), use_tile: bool)
    requires
        grid_ok(g),
        in_bounds(g, pos),
        pos.1 + 2 < g[0].len(),
        tile_allows(tile_at(g, pos), DirectionKey::Right),
        !(tile_at(g, pos) is Wall),
        !(tile_at(g, (pos.0, (pos.1 + 1) as usize)) is Wall),
        tile_at(g, (pos.0, (pos.1 + 2) as usize)) is Wall,
    ensures
        ({
            let input = PlayerMovementData { direction: DirectionKey::Right, move_speed: 3, use_tile };
            let s = step_spec(g, pos, DirectionKey::Right, 3, use_tile);
            &&& s.pos == (pos.0, (pos.1 + 1) as usize)
            &&& s.outcome is Blocked
            &&& resolves_to(g, pos, input, s)
        }),
{
    let d = DirectionKey::Right;
    let cand = candidate(g, pos, d, 3);
    let ni = dist(cand.0, pos.0);
    let nj = dist(cand.1, pos.1);
    assert(ni == 0);
    assert(nj >= 2);
    assert(scan_cell(pos, d, 0, 0) == pos);
    assert(scan_cell(pos, d, 0, 1) == (pos.0, (pos.1 + 1) as usize));
    assert(scan_cell(pos, d, 0, 2) == (pos.0, (pos.1 + 2) as usize));
    assert(wall_in_scan(g, pos, d, 0, 2));
    assert(has_wall(g, pos, d, ni, nj));
    assert(is_first_wall(g, pos, d, ni, nj, 0, 2));
    lemma_first_wall_unique(g, pos, d, ni, nj, 0, 2);
    let s = step_spec(g, pos, d, 3, use_tile);
    assert(chain(g, pos, d, 3, use_tile, 1) == Some(s));
}

pub proof fn lemma_first_wall_unique(
    g: Seq<Seq<TileData>>,
    pos: (usize, usize),
    direction: DirectionKey,
    ni: int,
    nj: int,
    i: int,
    j: int,
)
    requires
        is_first_wall(g, pos, direction, ni, nj, i, j),
    ensures
        ({
            let ij = choose|ij: (int, int)| is_first_wall(g, pos, direction, ni, nj, ij.0, ij.1);
            ij == (i, j)
        }),
{
    assert(is_first_wall(g, pos, direction, ni, nj, (i, j).0, (i, j).1));
    let ij = choose|ij: (int, int)| is_first_wall(g, pos, direction, ni, nj, ij.0, ij.1);
    if scanned_before(ij.0, ij.1, i, j) {
        assert(wall_in_scan(g, pos, direction, ij.0, ij.1));
    } else if scanned_before(i, j, ij.0, ij.1) {
        assert(wall_in_scan(g, pos, direction, i, j));
    }
}

/// The unit step of `direction`, as machine integers.
fn direction_steps(direction: DirectionKey) -> (r: (isize, isize))
    ensures
        r.0 as int == direction.delta().0,
        r.1 as int == direction.delta().1,
{
    match direction {
        DirectionKey::Up => (-1, 0),
        DirectionKey::Right => (0, 1),
        DirectionKey::Down => (1, 0),
        DirectionKey::Left => (0, -1),
        DirectionKey::UpRight => (-1, 1),
        DirectionKey::DownRight => (1, 1),
        DirectionKey::DownLeft => (1, -1),
        DirectionKey::UpLeft => (-1, -1),
        DirectionKey::NoDirection => (0, 0),
    }
}

fn exec_axis_target(p: usize, d: isize, speed: usize, dim: usize) -> (r: usize)
    requires
        p < dim,
    ensures
        r as int == axis_target(p as int, d as int, speed as int, dim as int),
{
    if d > 0 {
        if speed <= dim - 1 - p {
            p + speed
        } else {
            dim - 1
        }
    } else if d < 0 {
        if p >= speed {
            p - speed
        } else {
            0
        }
    } else {
        p
    }
}

fn exec_offset(p: usize, d: isize, k: usize) -> (r: usize)
    requires
        0 <= offset(p as int, d as int, k as int) <= usize::MAX,
    ensures
        r as int == offset(p as int, d as int, k as int),
{
    if d > 0 {
        p + k
    } else if d < 0 {
        p - k
    } else {
        p
    }
}

fn exec_dist(a: usize, b: usize) -> (r: usize)
    ensures
        r as int == dist(a, b),
{
    if a >= b {
        a - b
    } else {
        b - a
    }
}

/// Applies a bounce amount to the travel speed.
fn apply_bounce(speed: usize, delta: isize) -> (r: usize)
    ensures
        r == bounce_speed(speed, delta),
{
    if delta >= 0 {
        let d = delta as usize;
        if speed > usize::MAX - d {
            usize::MAX
        } else {
            speed + d
        }
    } else {
        let d = (-(delta + 1)) as usize + 1;
        if speed < d {
            0
        } else {
            speed - d
        }
    }
}

/// Every cell of the rectangle spanned by `ni` rows and `nj` columns from
/// `pos` towards `direction` lies on the board.
pub open spec fn scan_fits(g: Seq<Seq<TileData>>, pos: (usize, usize), direction: DirectionKey, ni: int, nj: int) -> bool {
    forall|i: int, j: int|
        0 <= i <= ni && 0 <= j <= nj ==> {
            &&& 0 <= offset(pos.0 as int, direction.delta().0, i) < g.len()
            &&& 0 <= offset(pos.1 as int, direction.delta().1, j) < g[0].len()
            &&& in_bounds(g, #[trigger] scan_cell(pos, direction, i, j))
        }
}

/// Every cell of the rectangle between `pos` and the target cell lies on
/// the board.
pub proof fn lemma_scan_in_bounds(g: Seq<Seq<TileData>>, pos: (usize, usize), direction: DirectionKey, speed: usize)
    requires
        grid_ok(g),
        in_bounds(g, pos),
    ensures
        scan_fits(
            g,
            pos,
            direction,
            dist(candidate(g, pos, direction, speed).0, pos.0),
            dist(candidate(g, pos, direction, speed).1, pos.1),
        ),
{
    let cand = candidate(g, pos, direction, speed);
    assert(g[pos.0 as int].len() == g[0].len());
    lemma_axis_target_range(pos.0 as int, direction.delta().0, speed as int, g.len() as int);
    lemma_axis_target_range(pos.1 as int, direction.delta().1, speed as int, g[0].len() as int);
    assert(cand.0 as int == axis_target(pos.0 as int, direction.delta().0, speed as int, g.len() as int));
    assert(cand.1 as int == axis_target(pos.1 as int, direction.delta().1, speed as int, g[0].len() as int));
    assert forall|i: int, j: int|
        0 <= i <= dist(cand.0, pos.0) && 0 <= j <= dist(cand.1, pos.1) implies {
            &&& 0 <= offset(pos.0 as int, direction.delta().0, i) < g.len()
            &&& 0 <= offset(pos.1 as int, direction.delta().1, j) < g[0].len()
            &&& in_bounds(g, #[trigger] scan_cell(pos, direction, i, j))
        } by {
        assert(0 <= offset(pos.0 as int, direction.delta().0, i) < g.len());
        assert(0 <= offset(pos.1 as int, direction.delta().1, j) < g[0].len());
        let c = scan_cell(pos, direction, i, j);
        assert(g[c.0 as int].len() == g[0].len());
    }
}

/// A clamped target stays on the axis, on the side of `p` that `d` points to.
pub proof fn lemma_axis_target_range(p: int, d: int, speed: int, dim: int)
    requires
        0 <= p < dim,
        speed >= 0,
    ensures
        0 <= axis_target(p, d, speed, dim) < dim,
        d > 0 ==> axis_target(p, d, speed, dim) >= p,
        d < 0 ==> axis_target(p, d, speed, dim) <= p,
        d == 0 ==> axis_target(p, d, speed, dim) == p,
        forall|k: int|
            0 <= k <= (if axis_target(p, d, speed, dim) >= p {
                axis_target(p, d, speed, dim) - p
            } else {
                p - axis_target(p, d, speed, dim)
            }) ==> 0 <= #[trigger] offset(p, d, k) < dim,
{
}

/// Scans the rectangle between `pos` and the cell `ni` rows and `nj` columns
/// away in `direction`, outwards from `pos` and row offset first, and returns
/// the offsets of the first wall met.
fn find_first_wall(
    board: &Vec<Vec<TileData>>,
    pos: (usize, usize),
    direction: DirectionKey,
    dr: isize,
    dc: isize,
    ni: usize,
    nj: usize,
) -> (r: Option<(usize, usize)>)
    requires
        dr as int == direction.delta().0,
        dc as int == direction.delta().1,
        ni < usize::MAX,
        nj < usize::MAX,
        grid_of(board@).len() <= usize::MAX,
        grid_of(board@)[0].len() <= usize::MAX,
        scan_fits(grid_of(board@), pos, direction, ni as int, nj as int),
    ensures
        r matches Some(ij) ==> is_first_wall(grid_of(board@), pos, direction, ni as int, nj as int, ij.0 as int, ij.1 as int),
        r is None ==> !has_wall(grid_of(board@), pos, direction, ni as int, nj as int),
{
    let ghost g = grid_of(board@);
    let mut i: usize = 0;
    while i <= ni
        invariant
            g == grid_of(board@),
            dr as int == direction.delta().0,
            dc as int == direction.delta().1,
            ni < usize::MAX,
            nj < usize::MAX,
            grid_of(board@).len() <= usize::MAX,
            grid_of(board@)[0].len() <= usize::MAX,
            scan_fits(grid_of(board@), pos, direction, ni as int, nj as int),
            0 <= i <= ni + 1,
            forall|i2: int, j2: int|
                0 <= i2 < i && 0 <= j2 <= nj ==> !#[trigger] wall_in_scan(g, pos, direction, i2, j2),
        decreases ni + 1 - i,
    {
        let mut j: usize = 0;
        while j <= nj
            invariant
                g == grid_of(board@),
                dr as int == direction.delta().0,
                dc as int == direction.delta().1,
                ni < usize::MAX,
                nj < usize::MAX,
                grid_of(board@).len() <= usize::MAX,
                grid_of(board@)[0].len() <= usize::MAX,
                scan_fits(grid_of(board@), pos, direction, ni as int, nj as int),
                0 <= i <= ni,
                0 <= j <= nj + 1,
                forall|i2: int, j2: int|
                    0 <= i2 < i && 0 <= j2 <= nj ==> !#[trigger] wall_in_scan(g, pos, direction, i2, j2),
                forall|j2: int| 0 <= j2 < j ==> !#[trigger] wall_in_scan(g, pos, direction, i as int, j2),
            decreases nj + 1 - j,
        {
            let ghost c = scan_cell(pos, direction, i as int, j as int);
            assert(in_bounds(g, c));
            assert(0 <= offset(pos.0 as int, direction.delta().0, i as int) < g.len());
            assert(0 <= offset(pos.1 as int, direction.delta().1, j as int) < g[0].len());
            let cell = (exec_offset(pos.0, dr, i), exec_offset(pos.1, dc, j));
            if let Tile::Wall = board[cell.0][cell.1].tile {
                assert(wall_in_scan(g, pos, direction, i as int, j as int));
                return Some((i, j));
            }
            j += 1;
        }
        i += 1;
    }
    None
}

/// Performs one tile edge of movement: checks that the occupied tile may be
/// left in `direction`, moves up to `speed` cells (stopping short of a wall),
/// uses up a cloud that was left, and applies the landing tile's effect.
/// Returns the new position, the new travel speed and the outcome.
pub fn step_once(
    board: &mut Vec<Vec<TileData>>,
    pos: (usize, usize),
    direction: DirectionKey,
    speed: usize,
    use_tile: bool,
) -> (r: ((usize, usize), usize, StepOutcome))
    requires
        grid_ok(grid_of(old(board)@)),
        in_bounds(grid_of(old(board)@), pos),
    ensures
        step_spec(grid_of(old(board)@), pos, direction, speed, use_tile) == (StepModel {
            board: grid_of(final(board)@),
            pos: r.0,
            speed: r.1,
            outcome: r.2,
        }),
        is_rect(grid_of(final(board)@), old(board)@.len() as int, old(board)@[0]@.len() as int),
        in_bounds(grid_of(final(board)@), r.0),
{
    let ghost g = grid_of(board@);
    let rows = board.len();
    let cols = board[0].len();
    assert(g[0].len() == cols);
    assert(g[pos.0 as int].len() == cols);
    let here = board[pos.0][pos.1].tile;
    if direction.is_none() {
        if let Tile::Portal(_, link) = here {
            if use_tile && link.0 < rows && link.1 < cols {
                assert(g[link.0 as int].len() == cols);
                return (link, speed, StepOutcome::NoMovement);
            }
        }
        return (pos, speed, StepOutcome::NoMovement);
    }
    if !here.can_move_in_direction(&direction) {
        return (pos, speed, StepOutcome::NoMovement);
    }
    let (dr, dc) = direction_steps(direction);
    let cand = (exec_axis_target(pos.0, dr, speed, rows), exec_axis_target(pos.1, dc, speed, cols));
    assert(cand == candidate(g, pos, direction, speed));
    if cand.0 == pos.0 && cand.1 == pos.1 {
        return (pos, speed, StepOutcome::NoMovement);
    }
    let ni = exec_dist(cand.0, pos.0);
    let nj = exec_dist(cand.1, pos.1);
    proof {
        lemma_scan_in_bounds(g, pos, direction, speed);
    }
    if let Some((i, j)) = find_first_wall(board, pos, direction, dr, dc, ni, nj) {
        proof {
            lemma_first_wall_unique(g, pos, direction, ni as int, nj as int, i as int, j as int);
        }
        let bi: usize = if i > 0 { i - 1 } else { 0 };
        let bj: usize = if j > 0 { j - 1 } else { 0 };
        let stop = (exec_offset(pos.0, dr, bi), exec_offset(pos.1, dc, bj));
        assert(stop == blocked_pos(pos, direction, i as int, j as int));
        assert(g[stop.0 as int].len() == cols);
        if let Tile::Cloud(_) = here {
            if stop.0 != pos.0 || stop.1 != pos.1 {
                write_tile(board, pos, Tile::Empty);
                proof {
                    lemma_with_tile_rect(g, pos, Tile::Empty, rows as int, cols as int);
                }
            }
        }
        return (stop, speed, StepOutcome::Blocked);
    }
    assert(!has_wall(g, pos, direction, ni as int, nj as int));
    assert(g[cand.0 as int].len() == cols);
    if let Tile::Cloud(_) = here {
        write_tile(board, pos, Tile::Empty);
        proof {
            lemma_with_tile_rect(g, pos, Tile::Empty, rows as int, cols as int);
        }
    }
    let ghost g2 = grid_of(board@);
    assert(g2 == consume_cloud(g, pos, cand));
    assert(tile_at(g2, cand) == tile_at(g, cand));
    match board[cand.0][cand.1].tile {
        Tile::EndSpace => (cand, speed, StepOutcome::Success),
        Tile::Empty => (cand, speed, StepOutcome::Completed),
        Tile::Bounce(delta) => {
            let s = apply_bounce(speed, delta);
            if s == 0 {
                (cand, s, StepOutcome::Completed)
            } else {
                (cand, s, StepOutcome::Continue)
            }
        },
        Tile::Ice => (cand, 1, StepOutcome::Continue),
        _ => (cand, 0, StepOutcome::Completed),
    }
}

/// Resolves one input completely: repeats single steps from `pos` while
/// they continue the chain. Returns the final position, the final travel
/// speed and the outcome of the last step, which is never `Continue`; the
/// board is updated in place (clouds used up).
pub fn resolve_step(
    board: &mut Vec<Vec<TileData>>,
    pos: (usize, usize),
    input: PlayerMovementData,
) -> (r: ((usize, usize), usize, StepOutcome))
    requires
        grid_ok(grid_of(old(board)@)),
        in_bounds(grid_of(old(board)@), pos),
    ensures
        resolves_to(
            grid_of(old(board)@),
            pos,
            input,
            StepModel { board: grid_of(final(board)@), pos: r.0, speed: r.1, outcome: r.2 },
        ),
        !(r.2 is Continue),
        is_rect(grid_of(final(board)@), old(board)@.len() as int, old(board)@[0]@.len() as int),
        in_bounds(grid_of(final(board)@), r.0),
{
    let ghost g0 = grid_of(board@);
    let ghost rows = board@.len() as int;
    let ghost cols = board@[0]@.len() as int;
    let mut p = pos;
    let mut speed = input.move_speed;
    let ghost mut steps: nat = 0;
    loop
        invariant
            grid_ok(grid_of(board@)),
            in_bounds(grid_of(board@), p),
            g0 == grid_of(old(board)@),
            rows == g0.len(),
            cols == g0[0].len(),
            is_rect(grid_of(board@), rows, cols),
            forall|f: nat|
                chain(g0, pos, input.direction, input.move_speed, input.use_tile, steps + f)
                    == #[trigger] chain(grid_of(board@), p, input.direction, speed, input.use_tile, f),
        decreases room(grid_of(board@), p, input.direction),
    {
        let ghost g = grid_of(board@);
        let ghost before = room(g, p, input.direction);
        let (np, ns, outcome) = step_once(board, p, input.direction, speed, input.use_tile);
        assert(chain(g, p, input.direction, speed, input.use_tile, 1) == if outcome is Continue {
            chain(grid_of(board@), np, input.direction, ns, input.use_tile, 0)
        } else {
            Some(StepModel { board: grid_of(board@), pos: np, speed: ns, outcome })
        });
        if outcome != StepOutcome::Continue {
            assert(chain(g0, pos, input.direction, input.move_speed, input.use_tile, steps + 1) == Some(
                StepModel { board: grid_of(board@), pos: np, speed: ns, outcome },
            ));
            return (np, ns, outcome);
        }
        proof {
            lemma_continue_makes_progress(g, p, input.direction, speed, input.use_tile);
            assert forall|f: nat|
                chain(g0, pos, input.direction, input.move_speed, input.use_tile, (steps + 1) + f)
                    == #[trigger] chain(grid_of(board@), np, input.direction, ns, input.use_tile, f) by {
                assert(chain(g, p, input.direction, speed, input.use_tile, f + 1)
                    == chain(grid_of(board@), np, input.direction, ns, input.use_tile, f));
                assert(chain(g0, pos, input.direction, input.move_speed, input.use_tile, steps + (f + 1))
                    == chain(g, p, input.direction, speed, input.use_tile, f + 1));
                assert(steps + (f + 1) == (steps + 1) + f);
            }
            steps = steps + 1;
        }
        p = np;
        speed = ns;
    }
}

} // verus!
