//! The resources are the passive things that the game interacts with:
//! above all the tile map, with its grid arithmetic.
use vstd::prelude::*;
use crate::components::Position;

verus! {

/// A cell of the map: a wall blocks movement, a floor does not.
#[derive(Debug, Clone, Copy, PartialEq, Eq, Structural)]
pub enum TileType {
    Wall,
    Floor,
}

/// A point of the plane in signed coordinates: steps that leave the map to the
/// left or to the top stay representable.
#[derive(Debug, Clone, Copy, PartialEq, Eq, Structural)]
pub struct Point {
    pub x: i32,
    pub y: i32,
}

/// A rectangular grid of tiles, stored row after row.
#[derive(Debug, Clone)]
pub struct GameMap {
    pub width: usize,
    pub height: usize,
    pub tiles: Vec<TileType>,
}

/// The row-major index of the cell `(x, y)` on a grid of the given width.
pub open spec fn cell_index(width: int, x: int, y: int) -> int {
    y * width + x
}

/// Cells of a grid map one to one onto row-major indexes.
pub proof fn lemma_cell_index_bounds(width: int, height: int, x: int, y: int)
    requires
        0 <= x < width,
        0 <= y < height,
    ensures
        0 <= cell_index(width, x, y) < width * height,
        0 <= y * width <= cell_index(width, x, y),
        cell_index(width, x, y) / width == y,
        cell_index(width, x, y) % width == x,
{
    assert(0 <= y * width && y * width + x < width * height) by (nonlinear_arith)
        requires
            0 <= x < width,
            0 <= y < height,
    ;
    vstd::arithmetic::div_mod::lemma_fundamental_div_mod_converse(
        y * width + x,
        width,
        y,
        x,
    );
}

/// A row-major index below `width * height` names the cell of its quotient and
/// remainder.
pub proof fn lemma_index_cell(width: int, height: int, idx: int)
    requires
        0 < width,
        0 <= idx < width * height,
    ensures
        0 <= idx % width < width,
        0 <= idx / width < height,
        cell_index(width, idx % width, idx / width) == idx,
{
    vstd::arithmetic::div_mod::lemma_fundamental_div_mod(idx, width);
    vstd::arithmetic::div_mod::lemma_mod_bound(idx, width);
    vstd::arithmetic::div_mod::lemma_div_pos_is_pos(idx, width);
    let q = idx / width;
    let r = idx % width;
    assert(q < height) by (nonlinear_arith)
        requires
            idx == width * q + r,
            0 <= r,
            idx < width * height,
            0 < width,
    ;
    assert(q * width + r == idx) by (nonlinear_arith)
        requires
            idx == width * q + r,
    ;
}

impl GameMap {
    /// The tiles are exactly one per cell, and the sides fit signed 32-bit
    /// coordinates.
    pub open spec fn wf(&self) -> bool {
        &&& self.tiles@.len() == self.width * self.height
        &&& self.width * self.height <= usize::MAX
        &&& self.width <= i32::MAX
        &&& self.height <= i32::MAX
    }

    /// True iff `(x, y)` is a cell of the map.
    pub open spec fn spec_in_bounds(&self, x: int, y: int) -> bool {
        0 <= x < self.width && 0 <= y < self.height
    }

    /// The tile at a cell of the map.
    pub open spec fn tile(&self, x: int, y: int) -> TileType {
        self.tiles@[cell_index(self.width as int, x, y)]
    }

    /// True iff a moving entity may stand on `(x, y)`: a floor cell of the map.
    pub open spec fn enterable(&self, x: int, y: int) -> bool {
        self.spec_in_bounds(x, y) && self.tile(x, y) == TileType::Floor
    }

    /// A map of the given size covered with floor.
    pub fn new(width: usize, height: usize) -> (m: GameMap)
        requires
            width * height <= usize::MAX,
            width <= i32::MAX,
            height <= i32::MAX,
        ensures
            m.wf(),
            m.width == width,
            m.height == height,
            forall|i: int| 0 <= i < m.tiles@.len() ==> m.tiles@[i] == TileType::Floor,
    {
        let n: usize = width * height;
        let mut tiles: Vec<TileType> = Vec::with_capacity(n);
        let mut i: usize = 0;
        while i < n
            invariant
                i <= n,
                tiles@.len() == i,
                forall|j: int| 0 <= j < i ==> tiles@[j] == TileType::Floor,
            decreases n - i,
        {
            tiles.push(TileType::Floor);
            i = i + 1;
        }
        GameMap { width, height, tiles }
    }

    /// The size of the map, as a point.
    pub fn dimensions(&self) -> (r: Point)
        requires
            self.wf(),
        ensures
            r.x == self.width,
            r.y == self.height,
    {
        Point { x: self.width as i32, y: self.height as i32 }
    }

    /// True iff the point is a cell of the map.
    pub fn in_bounds(&self, p: Point) -> (r: bool)
        requires
            self.wf(),
        ensures
            r == self.spec_in_bounds(p.x as int, p.y as int),
    {
        p.x >= 0 && (p.x as usize) < self.width && p.y >= 0 && (p.y as usize) < self.height
    }

    /// The row-major index of a cell of the map.
    pub fn point2d_to_index(&self, p: Point) -> (r: usize)
        requires
            self.wf(),
            self.spec_in_bounds(p.x as int, p.y as int),
        ensures
            r == cell_index(self.width as int, p.x as int, p.y as int),
            r < self.tiles@.len(),
    {
        proof {
            lemma_cell_index_bounds(self.width as int, self.height as int, p.x as int, p.y as int);
        }
        (p.y as usize) * self.width + (p.x as usize)
    }

    /// The cell that a row-major index names.
    pub fn index_to_point2d(&self, idx: usize) -> (r: Point)
        requires
            self.wf(),
            idx < self.tiles@.len(),
        ensures
            r.x == idx % self.width,
            r.y == idx / self.width,
            self.spec_in_bounds(r.x as int, r.y as int),
            cell_index(self.width as int, r.x as int, r.y as int) == idx,
    {
        proof {
            lemma_index_cell(self.width as int, self.height as int, idx as int);
        }
        let x = idx % self.width;
        let y = idx / self.width;
        Point { x: x as i32, y: y as i32 }
    }

    /// The tile at a position of the map.
    pub fn tile_at(&self, pos: Position) -> (r: TileType)
        requires
            self.wf(),
            self.spec_in_bounds(pos.x as int, pos.y as int),
        ensures
            r == self.tile(pos.x as int, pos.y as int),
    {
        proof {
            lemma_cell_index_bounds(self.width as int, self.height as int, pos.x as int, pos.y as int);
        }
        self.tiles[pos.y * self.width + pos.x]
    }

    /// True iff an entity is allowed to move onto `dest`: a floor cell of the map.
    pub fn can_enter(&self, dest: Point) -> (r: bool)
        requires
            self.wf(),
        ensures
            r == self.enterable(dest.x as int, dest.y as int),
    {
        if self.in_bounds(dest) {
            let idx = self.point2d_to_index(dest);
            matches!(self.tiles[idx], TileType::Floor)
        } else {
            false
        }
    }

    /// True iff the cell of the given index is a wall.
    pub fn is_opaque(&self, idx: usize) -> (r: bool)
        requires
            idx < self.tiles@.len(),
        ensures
            r == (self.tiles@[idx as int] == TileType::Wall),
    {
        matches!(self.tiles[idx], TileType::Wall)
    }

    /// The indexes of the floor cells next to `(x, y)`, in the order up,
    /// down, left, right.
    pub open spec fn exits(&self, x: int, y: int) -> Seq<usize> {
        (if self.enterable(x, y - 1) {
            seq![cell_index(self.width as int, x, y - 1) as usize]
        } else {
            Seq::empty()
        }) + (if self.enterable(x, y + 1) {
            seq![cell_index(self.width as int, x, y + 1) as usize]
        } else {
            Seq::empty()
        }) + (if self.enterable(x - 1, y) {
            seq![cell_index(self.width as int, x - 1, y) as usize]
        } else {
            Seq::empty()
        }) + (if self.enterable(x + 1, y) {
            seq![cell_index(self.width as int, x + 1, y) as usize]
        } else {
            Seq::empty()
        })
    }

    /// The indexes of the floor cells next to the cell of index `idx`, in the
    /// order up, down, left, right; each step costs one.
    pub fn get_available_exits(&self, idx: usize) -> (r: Vec<usize>)
        requires
            self.wf(),
            idx < self.tiles@.len(),
        ensures
            r@ == self.exits(idx as int % self.width as int, idx as int / self.width as int),
    {
        let p = self.index_to_point2d(idx);
        let mut list: Vec<usize> = Vec::new();
        let up = Point { x: p.x, y: p.y - 1 };
        let down = Point { x: p.x, y: p.y + 1 };
        let left = Point { x: p.x - 1, y: p.y };
        let right = Point { x: p.x + 1, y: p.y };
        if self.can_enter(up) {
            list.push(self.point2d_to_index(up));
        }
        let ghost l1 = list@;
        if self.can_enter(down) {
            list.push(self.point2d_to_index(down));
        }
        let ghost l2 = list@;
        if self.can_enter(left) {
            list.push(self.point2d_to_index(left));
        }
        let ghost l3 = list@;
        if self.can_enter(right) {
            list.push(self.point2d_to_index(right));
        }
        proof {
            let x = p.x as int;
            let y = p.y as int;
            let e = self.exits(x, y);
            assert(list@ =~= e);
        }
        list
    }

    /// The squared straight-line distance between the cells of two indexes.
    pub open spec fn spec_pathing_distance(&self, start: int, end: int) -> int {
        let w = self.width as int;
        let dx = start % w - end % w;
        let dy = start / w - end / w;
        dx * dx + dy * dy
    }

    /// The squared straight-line distance between the cells of two indexes:
    /// an admissible estimate of the length of a path between them.
    pub fn get_pathing_distance(&self, start: usize, end: usize) -> (r: u64)
        requires
            self.wf(),
            start < self.tiles@.len(),
            end < self.tiles@.len(),
        ensures
            r == self.spec_pathing_distance(start as int, end as int),
    {
        let a = self.index_to_point2d(start);
        let b = self.index_to_point2d(end);
        let dx: u64 = if a.x >= b.x { (a.x - b.x) as u64 } else { (b.x - a.x) as u64 };
        let dy: u64 = if a.y >= b.y { (a.y - b.y) as u64 } else { (b.y - a.y) as u64 };
        assert(dx * dx <= 0x4000_0000_0000_0000 && dy * dy <= 0x4000_0000_0000_0000) by (nonlinear_arith)
            requires
                dx <= 0x8000_0000,
                dy <= 0x8000_0000,
        ;
        proof {
            let w = self.width as int;
            let ex = start as int % w - end as int % w;
            let ey = start as int / w - end as int / w;
            assert(dx * dx == ex * ex) by (nonlinear_arith)
                requires
                    dx == ex || dx == -ex,
            ;
            assert(dy * dy == ey * ey) by (nonlinear_arith)
                requires
                    dy == ey || dy == -ey,
            ;
        }
        dx * dx + dy * dy
    }

    /// Changes the tile at a cell of the map.
    pub fn set_tile(&mut self, pos: Position, tile: TileType)
        requires
            old(self).wf(),
            old(self).spec_in_bounds(pos.x as int, pos.y as int),
        ensures
            final(self).wf(),
            final(self).width == old(self).width,
            final(self).height == old(self).height,
            final(self).tiles@ == old(self).tiles@.update(
                cell_index(old(self).width as int, pos.x as int, pos.y as int),
                tile,
            ),
    {
        proof {
            lemma_cell_index_bounds(self.width as int, self.height as int, pos.x as int, pos.y as int);
        }
        let idx = pos.y * self.width + pos.x;
        self.tiles.set(idx, tile);
    }
}

} // verus!
