use vstd::prelude::*;

use crate::components::{Entity, Point};

verus! {

#[derive(Clone, Copy, Debug, PartialEq, Eq, Structural)]
pub enum TileType {
    Wall,
    Floor,
}

/// The grid: per-cell tile, explored and visible masks, and occupant lists, row-major.
pub struct GameMap {
    pub width: i32,
    pub height: i32,
    pub tiles: Vec<TileType>,
    pub revealed_tiles: Vec<bool>,
    pub visible_tiles: Vec<bool>,
    pub tile_content: Vec<Vec<Entity>>,
}

/// Largest number of cells a map may hold.
pub const MAX_CELLS: i32 = 0x4000_0000;

pub open spec fn cell_index(width: int, x: int, y: int) -> int {
    y * width + x
}

impl GameMap {
    pub open spec fn cells(&self) -> int {
        self.width * self.height
    }

    pub open spec fn in_bounds_spec(&self, p: Point) -> bool {
        0 <= p.x < self.width && 0 <= p.y < self.height
    }

    pub open spec fn idx(&self, p: Point) -> int {
        cell_index(self.width as int, p.x as int, p.y as int)
    }

    /// Every cell array spans the grid and a visible cell is always explored.
    pub open spec fn wf(&self) -> bool {
        &&& 0 <= self.width
        &&& 0 <= self.height
        &&& self.width * self.height <= MAX_CELLS
        &&& self.tiles@.len() == self.cells()
        &&& self.revealed_tiles@.len() == self.cells()
        &&& self.visible_tiles@.len() == self.cells()
        &&& self.tile_content@.len() == self.cells()
        &&& forall|i: int| 0 <= i < self.cells() && #[trigger] self.visible_tiles@[i] ==> self.revealed_tiles@[i]
    }

    /// A width by height grid of `fill`, nothing explored, nothing visible, no occupants.
    pub fn new(width: i32, height: i32, fill: TileType) -> (r: GameMap)
        requires
            0 <= width,
            0 <= height,
            width * height <= MAX_CELLS,
        ensures
            r.wf(),
            r.width == width,
            r.height == height,
            forall|i: int| 0 <= i < r.cells() ==> #[trigger] r.tiles@[i] == fill,
            forall|i: int| 0 <= i < r.cells() ==> !#[trigger] r.revealed_tiles@[i],
            forall|i: int| 0 <= i < r.cells() ==> #[trigger] r.tile_content@[i]@.len() == 0,
    {
        let n: usize = (width * height) as usize;
        let mut tiles: Vec<TileType> = Vec::new();
        let mut revealed_tiles: Vec<bool> = Vec::new();
        let mut visible_tiles: Vec<bool> = Vec::new();
        let mut tile_content: Vec<Vec<Entity>> = Vec::new();
        let mut i: usize = 0;
        while i < n
            invariant
                i <= n,
                tiles@.len() == i,
                revealed_tiles@.len() == i,
                visible_tiles@.len() == i,
                tile_content@.len() == i,
                forall|j: int| 0 <= j < i ==> #[trigger] tiles@[j] == fill,
                forall|j: int| 0 <= j < i ==> !#[trigger] revealed_tiles@[j],
                forall|j: int| 0 <= j < i ==> !#[trigger] visible_tiles@[j],
                forall|j: int| 0 <= j < i ==> #[trigger] tile_content@[j]@.len() == 0,
            decreases n - i,
        {
            tiles.push(fill);
            revealed_tiles.push(false);
            visible_tiles.push(false);
            tile_content.push(Vec::new());
            i += 1;
        }
        GameMap { width, height, tiles, revealed_tiles, visible_tiles, tile_content }
    }

    pub fn in_bounds(&self, p: Point) -> (r: bool)
        ensures
            r == self.in_bounds_spec(p),
    {
        0 <= p.x && p.x < self.width && 0 <= p.y && p.y < self.height
    }

    /// Row-major index of an in-bounds cell.
    pub fn xy_idx(&self, x: i32, y: i32) -> (r: usize)
        requires
            self.wf(),
            self.in_bounds_spec(Point { x, y }),
        ensures
            r == cell_index(self.width as int, x as int, y as int),
            r < self.cells(),
    {
        proof { lemma_index_in_range(self.width as int, self.height as int, x as int, y as int); }
        (y * self.width + x) as usize
    }

    pub fn is_revealed(&self, x: i32, y: i32) -> (r: bool)
        requires
            self.wf(),
            self.in_bounds_spec(Point { x, y }),
        ensures
            r == self.revealed_tiles@[cell_index(self.width as int, x as int, y as int)],
    {
        let idx = self.xy_idx(x, y);
        self.revealed_tiles[idx]
    }

    pub fn is_visible(&self, x: i32, y: i32) -> (r: bool)
        requires
            self.wf(),
            self.in_bounds_spec(Point { x, y }),
        ensures
            r == self.visible_tiles@[cell_index(self.width as int, x as int, y as int)],
    {
        let idx = self.xy_idx(x, y);
        self.visible_tiles[idx]
    }

    /// Records `e` as an occupant of the in-bounds cell `p`.
    pub fn add_occupant(&mut self, p: Point, e: Entity)
        requires
            old(self).wf(),
            old(self).in_bounds_spec(p),
        ensures
            final(self).wf(),
            final(self).width == old(self).width,
            final(self).height == old(self).height,
            final(self).tiles@ == old(self).tiles@,
            final(self).revealed_tiles@ == old(self).revealed_tiles@,
            final(self).visible_tiles@ == old(self).visible_tiles@,
            final(self).tile_content@.len() == old(self).tile_content@.len(),
            final(self).tile_content@[old(self).idx(p)]@ == old(self).tile_content@[old(self).idx(p)]@.push(e),
            forall|i: int| 0 <= i < old(self).cells() && i != old(self).idx(p) ==> #[trigger] final(self).tile_content@[i] == old(self).tile_content@[i],
    {
        let idx = self.xy_idx(p.x, p.y);
        let mut cell: Vec<Entity> = Vec::new();
        std::mem::swap(&mut cell, &mut self.tile_content[idx]);
        cell.push(e);
        self.tile_content.set(idx, cell);
    }
}

pub proof fn lemma_index_in_range(w: int, h: int, x: int, y: int)
    requires
        0 <= x < w,
        0 <= y < h,
    ensures
        0 <= cell_index(w, x, y) < w * h,
{
    assert(0 <= y * w) by (nonlinear_arith) requires 0 <= y, 0 <= w;
    assert(y * w + w <= w * h) by (nonlinear_arith) requires y + 1 <= h, 0 <= w;
}

} // verus!
