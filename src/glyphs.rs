use vstd::prelude::*;

use crate::components::Point;
use crate::map::{cell_index, GameMap, TileType};

verus! {

/// Cell `(x, y)` is on the map, a wall, and explored.
pub open spec fn revealed_wall(map: &GameMap, x: int, y: int) -> bool {
    &&& 0 <= x < map.width
    &&& 0 <= y < map.height
    &&& map.tiles@[cell_index(map.width as int, x, y)] == TileType::Wall
    &&& map.revealed_tiles@[cell_index(map.width as int, x, y)]
}

/// Which neighbours of `(x, y)` are explored walls: north 1, south 2, west 4, east 8.
pub open spec fn wall_mask(map: &GameMap, x: int, y: int) -> int {
    (if revealed_wall(map, x, y - 1) { 1int } else { 0 })
    + (if revealed_wall(map, x, y + 1) { 2int } else { 0 })
    + (if revealed_wall(map, x - 1, y) { 4int } else { 0 })
    + (if revealed_wall(map, x + 1, y) { 8int } else { 0 })
}

/// The line-drawing glyph joining a wall to the neighbours in `mask`.
pub open spec fn wall_glyph_of(mask: int) -> char {
    if mask == 0 { '•' }
    else if mask == 1 || mask == 2 || mask == 3 { '║' }
    else if mask == 4 || mask == 8 || mask == 12 { '═' }
    else if mask == 5 { '╝' }
    else if mask == 6 { '╗' }
    else if mask == 7 { '╣' }
    else if mask == 9 { '╚' }
    else if mask == 10 { '╔' }
    else if mask == 11 { '╠' }
    else if mask == 13 { '╩' }
    else if mask == 14 { '╦' }
    else if mask == 15 { '╬' }
    else { '#' }
}

pub fn is_revealed_wall(map: &GameMap, x: i32, y: i32) -> (r: bool)
    requires
        map.wf(),
    ensures
        r == revealed_wall(map, x as int, y as int),
{
    if !map.in_bounds(Point { x, y }) {
        return false;
    }
    let idx = map.xy_idx(x, y);
    map.tiles[idx] == TileType::Wall && map.revealed_tiles[idx]
}

/// Glyph of the wall at `(x, y)`, joined to its explored wall neighbours; `#` off the map.
pub fn get_wall_glyph(map: &GameMap, x: i32, y: i32) -> (r: char)
    requires
        map.wf(),
    ensures
        r == if map.in_bounds_spec(Point { x, y }) { wall_glyph_of(wall_mask(map, x as int, y as int)) } else { '#' },
{
    if !map.in_bounds(Point { x, y }) {
        return '#';
    }
    let mut mask: u8 = 0;
    if y > i32::MIN && is_revealed_wall(map, x, y - 1) {
        mask += 1;
    }
    if y < i32::MAX && is_revealed_wall(map, x, y + 1) {
        mask += 2;
    }
    if x > i32::MIN && is_revealed_wall(map, x - 1, y) {
        mask += 4;
    }
    if x < i32::MAX && is_revealed_wall(map, x + 1, y) {
        mask += 8;
    }
    match mask {
        0 => '•',
        1 | 2 | 3 => '║',
        4 | 8 | 12 => '═',
        5 => '╝',
        6 => '╗',
        7 => '╣',
        9 => '╚',
        10 => '╔',
        11 => '╠',
        13 => '╩',
        14 => '╦',
        15 => '╬',
        _ => '#',
    }
}

} // verus!
