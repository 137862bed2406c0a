use vstd::prelude::*;

use crate::components::Entity;
use crate::map::GameMap;
use crate::world::World;

verus! {

/// The live entities among ids `0..upto` standing on cell `k`, in id order.
pub open spec fn standing_on(world: &World, map: &GameMap, k: int, upto: int) -> Seq<Entity>
    decreases upto,
{
    if upto <= 0 {
        Seq::empty()
    } else {
        let rest = standing_on(world, map, k, upto - 1);
        let i = upto - 1;
        if world.alive@[i] && (world.positions@[i] matches Some(p) && map.in_bounds_spec(p) && map.idx(p) == k) {
            rest.push(Entity { id: i as usize })
        } else {
            rest
        }
    }
}

/// What rebuilding the occupant lists does.
pub open spec fn index_post(world: &World, m0: &GameMap, m1: &GameMap) -> bool {
    &&& m1.wf()
    &&& m1.width == m0.width
    &&& m1.height == m0.height
    &&& m1.tiles@ == m0.tiles@
    &&& m1.revealed_tiles@ == m0.revealed_tiles@
    &&& m1.visible_tiles@ == m0.visible_tiles@
    &&& forall|k: int| 0 <= k < m0.cells() ==> #[trigger] m1.tile_content@[k]@
        == standing_on(world, m0, k, world.len() as int)
}

pub struct MapIndexingSystem;

impl MapIndexingSystem {
    /// Rebuilds every cell's occupant list from the positions of the live entities.
    pub fn run(world: &World, map: &mut GameMap)
        requires
            world.wf(),
            old(map).wf(),
        ensures
            index_post(world, old(map), final(map)),
    {
        let ghost m0 = *map;
        let cells = map.tile_content.len();
        let mut k: usize = 0;
        while k < cells
            invariant
                k <= cells,
                cells == m0.cells(),
                m0.wf(),
                map.width == m0.width,
                map.height == m0.height,
                map.tiles@ == m0.tiles@,
                map.revealed_tiles@ == m0.revealed_tiles@,
                map.visible_tiles@ == m0.visible_tiles@,
                map.tile_content@.len() == cells,
                forall|j: int| 0 <= j < k ==> #[trigger] map.tile_content@[j]@.len() == 0,
            decreases cells - k,
        {
            map.tile_content.set(k, Vec::new());
            k += 1;
        }
        let n = world.alive.len();
        let mut i: usize = 0;
        while i < n
            invariant
                i <= n,
                n == world.len(),
                world.wf(),
                map.wf(),
                map.width == m0.width,
                map.height == m0.height,
                map.tiles@ == m0.tiles@,
                map.revealed_tiles@ == m0.revealed_tiles@,
                map.visible_tiles@ == m0.visible_tiles@,
                forall|j: int| 0 <= j < m0.cells() ==> #[trigger] map.tile_content@[j]@ == standing_on(world, &m0, j, i as int),
            decreases n - i,
        {
            let ghost prev = *map;
            if world.alive[i] {
                if let Some(p) = world.positions[i] {
                    if map.in_bounds(p) {
                        map.add_occupant(p, Entity { id: i });
                    }
                }
            }
            assert forall|j: int| 0 <= j < m0.cells() implies #[trigger] map.tile_content@[j]@ == standing_on(world, &m0, j, i as int + 1) by {
                assert(prev.tile_content@[j]@ == standing_on(world, &m0, j, i as int));
            }
            i += 1;
        }
    }
}

} // verus!
