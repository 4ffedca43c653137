//! The terrain: one tile per cell of a rectangular grid.

use vstd::prelude::*;
use crate::components::Position;

verus! {

/// The terrain of one cell, as the sprite it is drawn with.
#[derive(Clone, Copy, Debug, PartialEq, Eq, Structural)]
pub struct WorldTile {
    pub atlas_index: usize,
}

/// A grid of `width` by `height` tiles, stored row by row, and the tile that
/// a destroyed tile turns into.
#[derive(Debug)]
pub struct TileMap {
    pub width: usize,
    pub height: usize,
    pub tiles: Vec<WorldTile>,
    pub ground: WorldTile,
}

/// Whether the position lies on a grid of the given size.
pub open spec fn on_grid(pos: Position, width: int, height: int) -> bool {
    pos.x < width && pos.y < height
}

/// The linear index of an on-grid position is below the number of tiles.
pub proof fn lemma_idx_on_grid(pos: Position, width: int, height: int)
    requires
        on_grid(pos, width, height),
    ensures
        0 <= pos.idx(width) < width * height,
{
    let x: int = pos.x as int;
    let y: int = pos.y as int;
    assert(y * width + x < width * height) by (nonlinear_arith)
        requires
            0 <= x < width,
            0 <= y < height,
    ;
    assert(0 <= y * width) by (nonlinear_arith)
        requires
            0 <= y,
            0 <= width,
    ;
}

/// Two on-grid positions with the same linear index are the same position.
pub proof fn lemma_idx_injective(p: Position, q: Position, width: int)
    requires
        p.x < width,
        q.x < width,
        p.idx(width) == q.idx(width),
    ensures
        p == q,
{
    vstd::arithmetic::div_mod::lemma_fundamental_div_mod_converse(
        p.idx(width),
        width,
        p.y as int,
        p.x as int,
    );
    vstd::arithmetic::div_mod::lemma_fundamental_div_mod_converse(
        q.idx(width),
        width,
        q.y as int,
        q.x as int,
    );
}

/// The linear index of the tile at `pos`, if `pos` lies on the grid.
pub open spec fn tile_at(pos: Position, width: int, height: int) -> Option<int> {
    if on_grid(pos, width, height) {
        Some(pos.idx(width))
    } else {
        None
    }
}

/// The linear index of the tile at `pos` on a grid of the given size, or
/// nothing where `pos` lies off the grid.
pub fn tile_index(pos: &Position, width: usize, height: usize) -> (r: Option<usize>)
    requires
        width * height <= usize::MAX,
    ensures
        match r {
            Some(idx) => tile_at(*pos, width as int, height as int) == Some(idx as int) && idx
                < width * height,
            None => tile_at(*pos, width as int, height as int).is_none(),
        },
{
    if pos.x < width && pos.y < height {
        proof {
            lemma_idx_on_grid(*pos, width as int, height as int);
            assert(0 <= pos.y * width <= pos.y * width + pos.x) by (nonlinear_arith)
                requires
                    0 <= pos.y,
                    0 <= width,
                    0 <= pos.x,
            ;
        }
        Some(pos.y * width + pos.x)
    } else {
        None
    }
}

impl TileMap {
    /// The grid is as large as it says.
    pub open spec fn wf(&self) -> bool {
        &&& self.width * self.height <= usize::MAX
        &&& self.tiles@.len() == self.width * self.height
    }

    /// A grid of the given size, every tile of which is `ground`.
    pub fn new(width: usize, height: usize, ground: WorldTile) -> (r: Self)
        requires
            width * height <= usize::MAX,
        ensures
            r.wf(),
            r.width == width,
            r.height == height,
            r.ground == ground,
            forall|i: int| 0 <= i < width * height ==> r.tiles@[i] == ground,
    {
        let count: usize = width * height;
        let mut tiles: Vec<WorldTile> = Vec::new();
        let mut i: usize = 0;
        while i < count
            invariant
                i <= count,
                tiles@.len() == i,
                forall|j: int| 0 <= j < i ==> tiles@[j] == ground,
            decreases count - i,
        {
            tiles.push(ground);
            i = i + 1;
        }
        TileMap { width, height, tiles, ground }
    }

    /// Whether the position lies on the grid.
    pub fn in_bounds(&self, pos: &Position) -> (r: bool)
        ensures
            r == on_grid(*pos, self.width as int, self.height as int),
    {
        pos.x < self.width && pos.y < self.height
    }

    /// The linear index of the tile in column `x` of row `y`.
    pub fn xy_to_idx(&self, x: usize, y: usize) -> (r: usize)
        requires
            self.wf(),
            x < self.width,
            y < self.height,
        ensures
            r == y * self.width + x,
            r < self.tiles@.len(),
    {
        proof {
            let pos = Position { x, y };
            lemma_idx_on_grid(pos, self.width as int, self.height as int);
            assert(pos.idx(self.width as int) == y * self.width + x);
            assert(0 <= y * self.width <= y * self.width + x) by (nonlinear_arith)
                requires
                    0 <= y,
                    0 <= self.width,
                    0 <= x,
            ;
        }
        y * self.width + x
    }

    /// Turns the tile at `pos` into ground. A position off the grid names no
    /// tile, and nothing changes.
    pub fn clear_tile(&mut self, pos: &Position)
        requires
            old(self).wf(),
        ensures
            final(self).wf(),
            final(self).width == old(self).width,
            final(self).height == old(self).height,
            final(self).ground == old(self).ground,
            final(self).tiles@ == cleared(
                old(self).tiles@,
                *pos,
                old(self).width as int,
                old(self).height as int,
                old(self).ground,
            ),
    {
        if pos.x < self.width && pos.y < self.height {
            let idx: usize = self.xy_to_idx(pos.x, pos.y);
            let ground: WorldTile = self.ground;
            self.tiles.set(idx, ground);
        }
    }
}

/// The tiles after the one at `pos` was turned into `ground`.
pub open spec fn cleared(
    tiles: Seq<WorldTile>,
    pos: Position,
    width: int,
    height: int,
    ground: WorldTile,
) -> Seq<WorldTile> {
    if on_grid(pos, width, height) {
        tiles.update(pos.idx(width), ground)
    } else {
        tiles
    }
}

} // verus!
