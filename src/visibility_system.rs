use vstd::prelude::*;

use crate::components::{Entity, Point, Viewshed};
use crate::map::GameMap;
use crate::world::World;

verus! {

/// The cells of `sweep` that lie on a width by height map, in sweep order.
pub open spec fn clip(width: int, height: int, sweep: Seq<Point>) -> Seq<Point>
    decreases sweep.len(),
{
    if sweep.len() == 0 {
        Seq::empty()
    } else {
        let rest = clip(width, height, sweep.drop_last());
        let p = sweep.last();
        if 0 <= p.x < width && 0 <= p.y < height {
            rest.push(p)
        } else {
            rest
        }
    }
}

/// Cell index `k` is the index of one of `cells`.
pub open spec fn covers(width: int, cells: Seq<Point>, k: int) -> bool {
    exists|j: int| 0 <= j < cells.len() && #[trigger] crate::map::cell_index(width, cells[j].x as int, cells[j].y as int) == k
}

/// No explored cell of `before` is unexplored in `after`.
pub open spec fn reveal_kept(before: Seq<bool>, after: Seq<bool>) -> bool {
    &&& before.len() == after.len()
    &&& forall|k: int| 0 <= k < before.len() && #[trigger] before[k] ==> after[k]
}

/// Explored cells are never forgotten: across any run of visibility passes, each of
/// which keeps explored cells explored, a cell explored at pass `i` is still explored
/// at every later pass `j`.
pub proof fn lemma_reveal_monotonic(masks: Seq<Seq<bool>>, i: int, j: int)
    requires
        forall|k: int| 0 <= k < masks.len() - 1 ==> reveal_kept(#[trigger] masks[k], masks[k + 1]),
        0 <= i <= j < masks.len(),
    ensures
        reveal_kept(masks[i], masks[j]),
    decreases j - i,
{
    if i < j {
        lemma_reveal_monotonic(masks, i, j - 1);
        assert(reveal_kept(masks[j - 1], masks[j]));
        assert forall|k: int| 0 <= k < masks[i].len() && #[trigger] masks[i][k] implies masks[j][k] by {
            assert(masks[j - 1][k]);
        }
    }
}

pub proof fn lemma_clip_in_bounds(width: int, height: int, sweep: Seq<Point>)
    ensures
        forall|j: int| 0 <= j < clip(width, height, sweep).len() ==> {
            let p = #[trigger] clip(width, height, sweep)[j];
            0 <= p.x < width && 0 <= p.y < height
        },
    decreases sweep.len(),
{
    if sweep.len() > 0 {
        let rest = clip(width, height, sweep.drop_last());
        lemma_clip_in_bounds(width, height, sweep.drop_last());
        assert forall|j: int| 0 <= j < clip(width, height, sweep).len() implies {
            let p = #[trigger] clip(width, height, sweep)[j];
            0 <= p.x < width && 0 <= p.y < height
        } by {
            if j < rest.len() {
                assert(clip(width, height, sweep)[j] == rest[j]);
            }
        }
    }
}

/// The in-bounds cells of a field-of-view sweep.
pub fn clip_to_map(map: &GameMap, sweep: &Vec<Point>) -> (r: Vec<Point>)
    ensures
        r@ == clip(map.width as int, map.height as int, sweep@),
{
    let mut r: Vec<Point> = Vec::new();
    let mut i: usize = 0;
    while i < sweep.len()
        invariant
            i <= sweep@.len(),
            r@ == clip(map.width as int, map.height as int, sweep@.take(i as int)),
        decreases sweep@.len() - i,
    {
        let p = sweep[i];
        assert(sweep@.take(i as int + 1).drop_last() =~= sweep@.take(i as int));
        if map.in_bounds(p) {
            r.push(p);
        }
        i += 1;
    }
    assert(sweep@.take(sweep@.len() as int) =~= sweep@);
    r
}

/// Makes exactly `cells` visible and marks each of them explored.
pub fn reveal_for_player(map: &mut GameMap, cells: &Vec<Point>)
    requires
        old(map).wf(),
        forall|j: int| 0 <= j < cells@.len() ==> old(map).in_bounds_spec(#[trigger] cells@[j]),
    ensures
        final(map).wf(),
        final(map).width == old(map).width,
        final(map).height == old(map).height,
        final(map).tiles@ == old(map).tiles@,
        final(map).tile_content@ == old(map).tile_content@,
        forall|k: int| 0 <= k < old(map).cells() ==> #[trigger] final(map).visible_tiles@[k]
            == covers(old(map).width as int, cells@, k),
        forall|k: int| 0 <= k < old(map).cells() ==> #[trigger] final(map).revealed_tiles@[k]
            == (old(map).revealed_tiles@[k] || covers(old(map).width as int, cells@, k)),
{
    let ghost w = map.width as int;
    let n = map.visible_tiles.len();
    let mut k: usize = 0;
    while k < n
        invariant
            k <= n,
            n == old(map).cells(),
            map.width == old(map).width,
            map.height == old(map).height,
            map.tiles@ == old(map).tiles@,
            map.tile_content@ == old(map).tile_content@,
            map.revealed_tiles@ == old(map).revealed_tiles@,
            map.visible_tiles@.len() == n,
            forall|j: int| 0 <= j < k ==> !#[trigger] map.visible_tiles@[j],
            forall|j: int| k <= j < n ==> #[trigger] map.visible_tiles@[j] == old(map).visible_tiles@[j],
            old(map).wf(),
        decreases n - k,
    {
        map.visible_tiles.set(k, false);
        k += 1;
    }
    let mut i: usize = 0;
    while i < cells.len()
        invariant
            i <= cells@.len(),
            n == old(map).cells(),
            map.width == old(map).width,
            map.height == old(map).height,
            map.tiles@ == old(map).tiles@,
            map.tile_content@ == old(map).tile_content@,
            map.revealed_tiles@.len() == n,
            map.visible_tiles@.len() == n,
            forall|k: int| 0 <= k < n ==> #[trigger] map.visible_tiles@[k] == covers(w, cells@.take(i as int), k),
            forall|k: int| 0 <= k < n ==> #[trigger] map.revealed_tiles@[k]
                == (old(map).revealed_tiles@[k] || covers(w, cells@.take(i as int), k)),
            forall|j: int| 0 <= j < cells@.len() ==> old(map).in_bounds_spec(#[trigger] cells@[j]),
            old(map).wf(),
            w == map.width,
        decreases cells@.len() - i,
    {
        let p = cells[i];
        let ghost vis0 = map.visible_tiles@;
        let ghost rev0 = map.revealed_tiles@;
        let idx = map.xy_idx(p.x, p.y);
        map.revealed_tiles.set(idx, true);
        map.visible_tiles.set(idx, true);
        assert forall|k: int| 0 <= k < n implies covers(w, cells@.take(i as int + 1), k)
            == (covers(w, cells@.take(i as int), k) || k == idx) by {
            let t0 = cells@.take(i as int);
            let t1 = cells@.take(i as int + 1);
            if covers(w, t0, k) {
                let j = choose|j: int| 0 <= j < t0.len() && #[trigger] crate::map::cell_index(w, t0[j].x as int, t0[j].y as int) == k;
                assert(t1[j] == t0[j]);
            }
            if k == idx {
                assert(t1[i as int] == p);
            }
            if covers(w, t1, k) {
                let j = choose|j: int| 0 <= j < t1.len() && #[trigger] crate::map::cell_index(w, t1[j].x as int, t1[j].y as int) == k;
                if j < i {
                    assert(t0[j] == t1[j]);
                }
            }
        }
        assert forall|k: int| 0 <= k < n implies #[trigger] map.visible_tiles@[k] == covers(w, cells@.take(i as int + 1), k) by {
            assert(vis0[k] == covers(w, cells@.take(i as int), k));
        }
        assert forall|k: int| 0 <= k < n implies #[trigger] map.revealed_tiles@[k]
            == (old(map).revealed_tiles@[k] || covers(w, cells@.take(i as int + 1), k)) by {
            assert(rev0[k] == (old(map).revealed_tiles@[k] || covers(w, cells@.take(i as int), k)));
        }
        i += 1;
    }
    assert(cells@.take(cells@.len() as int) =~= cells@);
}

/// What one visibility pass does, given the field-of-view sweep of each viewer.
pub open spec fn visibility_post(before: &World, after: &World, m0: &GameMap, m1: &GameMap, sweeps: Seq<Option<Vec<Point>>>) -> bool {
    &&& after.wf()
    &&& m1.wf()
    &&& m1.width == m0.width
    &&& m1.height == m0.height
    &&& m1.tiles@ == m0.tiles@
    &&& m1.tile_content@ == m0.tile_content@
    &&& reveal_kept(m0.revealed_tiles@, m1.revealed_tiles@)
    &&& after.alive@ == before.alive@
    &&& after.pending_delete@ == before.pending_delete@
    &&& after.player == before.player
    &&& after.log@ == before.log@
    &&& after.positions@ == before.positions@
    &&& after.combat_stats@ == before.combat_stats@
    &&& after.items@ == before.items@
    &&& after.wants_to_use@ == before.wants_to_use@
    &&& after.suffer_damage@ == before.suffer_damage@
    &&& after.names@ == before.names@
    &&& after.confusion@ == before.confusion@
    &&& after.wants_to_drop@ == before.wants_to_drop@
    &&& forall|i: int| 0 <= i < before.len() ==> {
        if VisibilitySystem::refreshes(before, sweeps, i) {
            &&& #[trigger] after.viewsheds@[i] matches Some(v)
            &&& !v.dirty
            &&& v.range == before.viewsheds@[i]->Some_0.range
            &&& v.visible_tiles@ == clip(m0.width as int, m0.height as int, sweeps[i]->Some_0@)
        } else {
            after.viewsheds@[i] == before.viewsheds@[i]
        }
    }
    &&& match before.player {
        Some(p) if VisibilitySystem::refreshes(before, sweeps, p.id as int) => {
            let cells = clip(m0.width as int, m0.height as int, sweeps[p.id as int]->Some_0@);
            &&& forall|k: int| 0 <= k < m0.cells() ==> #[trigger] m1.visible_tiles@[k]
                == covers(m0.width as int, cells, k)
            &&& forall|k: int| 0 <= k < m0.cells() ==> #[trigger] m1.revealed_tiles@[k]
                == (m0.revealed_tiles@[k] || covers(m0.width as int, cells, k))
        },
        _ => {
            &&& m1.visible_tiles@ == m0.visible_tiles@
            &&& m1.revealed_tiles@ == m0.revealed_tiles@
        }
    }
}

pub struct VisibilitySystem;

impl VisibilitySystem {
    /// Viewer `i` gets its sweep applied in this pass.
    pub open spec fn refreshes(world: &World, sweeps: Seq<Option<Vec<Point>>>, i: int) -> bool {
        &&& world.alive@[i]
        &&& world.viewsheds@[i] matches Some(v) && v.dirty
        &&& world.positions@[i] is Some
        &&& sweeps[i] is Some
    }

    /// For each live viewer with a dirty viewshed and a position: the origin and range
    /// of the field-of-view sweep it needs.
    pub fn sweep_requests(world: &World) -> (r: Vec<Option<(Point, i32)>>)
        requires
            world.wf(),
        ensures
            r@.len() == world.len(),
            forall|i: int| 0 <= i < world.len() ==> (#[trigger] r@[i] is Some <==> {
                &&& world.alive@[i]
                &&& world.viewsheds@[i] matches Some(v) && v.dirty
                &&& world.positions@[i] is Some
            }),
            forall|i: int| 0 <= i < world.len() && #[trigger] r@[i] is Some ==> r@[i]->Some_0 == (
                world.positions@[i]->Some_0,
                world.viewsheds@[i]->Some_0.range,
            ),
    {
        let mut r: Vec<Option<(Point, i32)>> = Vec::new();
        let n = world.alive.len();
        let mut i: usize = 0;
        while i < n
            invariant
                i <= n,
                n == world.len(),
                world.wf(),
                r@.len() == i,
                forall|j: int| 0 <= j < i ==> (#[trigger] r@[j] is Some <==> {
                    &&& world.alive@[j]
                    &&& world.viewsheds@[j] matches Some(v) && v.dirty
                    &&& world.positions@[j] is Some
                }),
                forall|j: int| 0 <= j < i && #[trigger] r@[j] is Some ==> r@[j]->Some_0 == (
                    world.positions@[j]->Some_0,
                    world.viewsheds@[j]->Some_0.range,
                ),
            decreases n - i,
        {
            let mut req: Option<(Point, i32)> = None;
            if world.alive[i] {
                match (&world.viewsheds[i], world.positions[i]) {
                    (Some(v), Some(pos)) => {
                        if v.dirty {
                            req = Some((pos, v.range));
                        }
                    },
                    _ => {},
                }
            }
            r.push(req);
            i += 1;
        }
        r
    }

    /// Applies each dirty viewer's sweep: the viewshed keeps the sweep's in-bounds cells
    /// and is no longer dirty. When the viewer is the player, the map's visible cells
    /// become exactly those cells, and each of them is marked explored.
    pub fn run(world: &mut World, map: &mut GameMap, sweeps: &Vec<Option<Vec<Point>>>)
        requires
            old(world).wf(),
            old(map).wf(),
            sweeps@.len() == old(world).len(),
        ensures
            visibility_post(old(world), final(world), old(map), final(map), sweeps@),
    {
        let n = world.alive.len();
        let mut i: usize = 0;
        while i < n
            invariant
                i <= n,
                n == old(world).len(),
                world.wf(),
                map.wf(),
                sweeps@.len() == n,
                map.width == old(map).width,
                map.height == old(map).height,
                map.tiles@ == old(map).tiles@,
                map.tile_content@ == old(map).tile_content@,
                reveal_kept(old(map).revealed_tiles@, map.revealed_tiles@),
                world.alive@ == old(world).alive@,
                world.pending_delete@ == old(world).pending_delete@,
                world.player == old(world).player,
                world.log@ == old(world).log@,
                world.positions@ == old(world).positions@,
                world.combat_stats@ == old(world).combat_stats@,
                world.items@ == old(world).items@,
                world.wants_to_use@ == old(world).wants_to_use@,
                world.suffer_damage@ == old(world).suffer_damage@,
                world.names@ == old(world).names@,
                world.confusion@ == old(world).confusion@,
                world.wants_to_drop@ == old(world).wants_to_drop@,
                world.viewsheds@.len() == n,
                forall|j: int| 0 <= j < n ==> {
                    if j < i && Self::refreshes(old(world), sweeps@, j) {
                        &&& #[trigger] world.viewsheds@[j] matches Some(v)
                        &&& !v.dirty
                        &&& v.range == old(world).viewsheds@[j]->Some_0.range
                        &&& v.visible_tiles@ == clip(old(map).width as int, old(map).height as int, sweeps@[j]->Some_0@)
                    } else {
                        world.viewsheds@[j] == old(world).viewsheds@[j]
                    }
                },
                match old(world).player {
                    Some(p) if p.id < i && Self::refreshes(old(world), sweeps@, p.id as int) => {
                        let cells = clip(old(map).width as int, old(map).height as int, sweeps@[p.id as int]->Some_0@);
                        &&& forall|k: int| 0 <= k < old(map).cells() ==> #[trigger] map.visible_tiles@[k]
                            == covers(old(map).width as int, cells, k)
                        &&& forall|k: int| 0 <= k < old(map).cells() ==> #[trigger] map.revealed_tiles@[k]
                            == (old(map).revealed_tiles@[k] || covers(old(map).width as int, cells, k))
                    },
                    _ => {
                        &&& map.visible_tiles@ == old(map).visible_tiles@
                        &&& map.revealed_tiles@ == old(map).revealed_tiles@
                    },
                },
            decreases n - i,
        {
            let ghost before = map.revealed_tiles@;
            let refresh = world.alive[i] && world.positions[i].is_some() && sweeps[i].is_some() && match &world.viewsheds[i] {
                Some(v) => v.dirty,
                None => false,
            };
            if refresh {
                let range = match &world.viewsheds[i] {
                    Some(v) => v.range,
                    None => 0,
                };
                let cells = match &sweeps[i] {
                    Some(s) => clip_to_map(map, s),
                    None => Vec::new(),
                };
                proof { lemma_clip_in_bounds(map.width as int, map.height as int, sweeps@[i as int]->Some_0@); }
                let is_player = match world.player {
                    Some(p) => p.id == i,
                    None => false,
                };
                if is_player {
                    reveal_for_player(map, &cells);
                }
                world.viewsheds.set(i, Some(Viewshed { visible_tiles: cells, range, dirty: false }));
            }
            i += 1;
        }
    }
}

} // verus!
