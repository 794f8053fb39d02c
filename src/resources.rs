use crate::components::{Position, Tile, TileType};
use vstd::prelude::*;

verus! {

/// Tick counter and the fixed rate at which ticks advance game time.
#[derive(Clone, Copy, Debug, PartialEq, Eq, Structural)]
pub struct GameTick {
    pub current: u64,
    pub target_tps: u32,
}

impl Default for GameTick {
    fn default() -> (r: Self)
        ensures
            r.current == 0,
            r.target_tps == 20,
    {
        GameTick { current: 0, target_tps: 20 }
    }
}

impl GameTick {
    pub fn new(target_tps: u32) -> (r: Self)
        ensures
            r.current == 0,
            r.target_tps == target_tps,
    {
        GameTick { current: 0, target_tps }
    }

    pub fn tick(&mut self)
        requires
            old(self).current < u64::MAX,
        ensures
            final(self).current == old(self).current + 1,
            final(self).target_tps == old(self).target_tps,
    {
        self.current = self.current + 1;
    }

    /// Number of ticks that make up `seconds` of game time.
    pub fn ticks_for(&self, seconds: u32) -> (r: u64)
        ensures
            r == seconds as nat * self.target_tps as nat,
    {
        let s = seconds as u64;
        let t = self.target_tps as u64;
        assert(s * t <= 0xffff_ffffu64 * 0xffff_ffffu64) by (nonlinear_arith)
            requires
                s <= 0xffff_ffffu64,
                t <= 0xffff_ffffu64,
        ;
        s * t
    }
}

/// The tile grid, stored row by row.
#[derive(Clone, Debug)]
pub struct MapData {
    pub width: u32,
    pub height: u32,
    pub tiles: Vec<Vec<Tile>>,
}

impl MapData {
    /// One row per line of the map, each as wide as the map.
    pub open spec fn wf(&self) -> bool {
        &&& self.tiles@.len() == self.height
        &&& forall|y: int| 0 <= y < self.height ==> #[trigger] self.tiles@[y]@.len() == self.width
    }

    pub open spec fn in_bounds(&self, x: int, y: int) -> bool {
        0 <= x < self.width && 0 <= y < self.height
    }

    /// The tile at (x, y), if the map has one there.
    pub open spec fn tile(&self, x: int, y: int) -> Option<Tile> {
        if self.in_bounds(x, y) {
            Some(self.tiles@[y]@[x])
        } else {
            None
        }
    }

    /// An all-grass map of the given size.
    pub fn new(width: u32, height: u32) -> (r: Self)
        ensures
            r.wf(),
            r.width == width,
            r.height == height,
            forall|x: int, y: int|
                r.in_bounds(x, y) ==> r.tile(x, y) == Some(
                    Tile { tile_type: TileType::Grass, elevation: 0 },
                ),
    {
        let grass = Tile { tile_type: TileType::Grass, elevation: 0 };
        let mut tiles: Vec<Vec<Tile>> = Vec::new();
        let mut y: u32 = 0;
        while y < height
            invariant
                y <= height,
                tiles@.len() == y,
                forall|j: int| 0 <= j < y ==> #[trigger] tiles@[j]@.len() == width,
                forall|j: int, i: int| 0 <= j < y && 0 <= i < width ==> #[trigger] tiles@[j]@[i] == grass,
            decreases height - y,
        {
            let mut row: Vec<Tile> = Vec::new();
            let mut x: u32 = 0;
            while x < width
                invariant
                    x <= width,
                    row@.len() == x,
                    forall|i: int| 0 <= i < x ==> #[trigger] row@[i] == grass,
                decreases width - x,
            {
                row.push(grass);
                x = x + 1;
            }
            tiles.push(row);
            y = y + 1;
        }
        MapData { width, height, tiles }
    }

    /// Whether the rows match the map's size, as they must when read back from storage.
    pub fn is_well_formed(&self) -> (r: bool)
        ensures
            r == self.wf(),
    {
        if self.tiles.len() != self.height as usize {
            return false;
        }
        let mut y: usize = 0;
        while y < self.tiles.len()
            invariant
                self.tiles@.len() == self.height,
                y <= self.tiles@.len(),
                forall|j: int| 0 <= j < y ==> #[trigger] self.tiles@[j]@.len() == self.width,
            decreases self.tiles@.len() - y,
        {
            if self.tiles[y].len() != self.width as usize {
                return false;
            }
            y = y + 1;
        }
        true
    }

    pub fn is_valid_position(&self, x: i32, y: i32) -> (r: bool)
        ensures
            r == self.in_bounds(x as int, y as int),
    {
        x >= 0 && y >= 0 && (x as u32) < self.width && (y as u32) < self.height
    }

    pub fn get_tile(&self, x: i32, y: i32) -> (r: Option<&Tile>)
        requires
            self.wf(),
        ensures
            r matches Some(t) ==> self.tile(x as int, y as int) == Some(*t),
            r is None ==> self.tile(x as int, y as int) is None,
    {
        if self.is_valid_position(x, y) {
            Some(&self.tiles[y as usize][x as usize])
        } else {
            None
        }
    }

    /// Replaces the tile at (x, y); returns false and changes nothing outside the map.
    pub fn set_tile(&mut self, x: i32, y: i32, tile: Tile) -> (r: bool)
        requires
            old(self).wf(),
        ensures
            final(self).wf(),
            r == old(self).in_bounds(x as int, y as int),
            !r ==> *final(self) == *old(self),
            final(self).width == old(self).width,
            final(self).height == old(self).height,
            forall|i: int, j: int|
                final(self).tile(i, j) == if r && i == x && j == y {
                    Some(tile)
                } else {
                    old(self).tile(i, j)
                },
    {
        if self.is_valid_position(x, y) {
            let ghost before = self.tiles@;
            let yy = y as usize;
            self.tiles[yy].set(x as usize, tile);
            assert forall|i: int, j: int| #![auto] self.in_bounds(i, j) implies self.tiles@[j]@[i] == (if i == x && j == y {
                tile
            } else {
                before[j]@[i]
            }) by {}
            true
        } else {
            false
        }
    }
}

} // verus!
