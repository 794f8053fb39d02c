use crate::components::TileType;
use crate::resources::MapData;
use vstd::prelude::*;

verus! {

/// A building may stand on the cell at (x, y): it has grid coordinates, is on the map, and is
/// neither water nor forest.
pub open spec fn buildable(map: MapData, x: int, y: int) -> bool {
    x <= i32::MAX && y <= i32::MAX && match map.tile(x, y) {
        Some(t) => t.tile_type != TileType::Water && t.tile_type != TileType::Forest,
        None => false,
    }
}

/// Every cell of a footprint of `size` with its corner at (x, y) is buildable.
pub open spec fn suitable(map: MapData, x: int, y: int, size: (u32, u32)) -> bool {
    forall|dx: int, dy: int| 0 <= dx < size.0 && 0 <= dy < size.1 ==> #[trigger] buildable(map, x + dx, y + dy)
}

/// Whether every cell of a footprint of `size` with its corner at (x, y) is buildable.
pub fn is_suitable_for_building(map: &MapData, x: i32, y: i32, size: (u32, u32)) -> (r: bool)
    requires
        map.wf(),
    ensures
        r == suitable(*map, x as int, y as int, size),
{
    let mut dy: u32 = 0;
    while dy < size.1
        invariant
            map.wf(),
            dy <= size.1,
            forall|i: int, j: int| 0 <= i < size.0 && 0 <= j < dy ==> #[trigger] buildable(*map, x + i, y + j),
        decreases size.1 - dy,
    {
        let mut dx: u32 = 0;
        while dx < size.0
            invariant
                map.wf(),
                dy < size.1,
                dx <= size.0,
                forall|i: int, j: int| 0 <= i < size.0 && 0 <= j < dy ==> #[trigger] buildable(*map, x + i, y + j),
                forall|i: int| 0 <= i < dx ==> #[trigger] buildable(*map, x + i, y + dy),
            decreases size.0 - dx,
        {
            let cx: i64 = x as i64 + dx as i64;
            let cy: i64 = y as i64 + dy as i64;
            if cx > i32::MAX as i64 || cy > i32::MAX as i64 {
                assert(!buildable(*map, x + dx as int, y + dy as int));
                return false;
            }
            match map.get_tile(cx as i32, cy as i32) {
                Some(tile) => {
                    match tile.tile_type {
                        TileType::Water => {
                            assert(!buildable(*map, x + dx as int, y + dy as int));
                            return false;
                        },
                        TileType::Forest => {
                            assert(!buildable(*map, x + dx as int, y + dy as int));
                            return false;
                        },
                        _ => {},
                    }
                },
                None => {
                    assert(!buildable(*map, x + dx as int, y + dy as int));
                    return false;
                },
            }
            dx = dx + 1;
        }
        dy = dy + 1;
    }
    true
}

} // verus!
