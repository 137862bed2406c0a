use vstd::prelude::*;

use crate::world::World;

verus! {

/// Entity `i`, standing at `pos[i]`, drops a live item.
pub open spec fn drops(world: &World, pos: Seq<Option<crate::components::Point>>, i: int) -> bool {
    &&& world.alive@[i]
    &&& pos[i] is Some
    &&& world.wants_to_drop@[i] matches Some(d) && d.item.id < world.len() && world.alive@[d.item.id as int]
}

/// Positions after the drops of entities `0..upto`, in id order: each dropped item
/// lands where its dropper stands at that moment.
pub open spec fn positions_after_drops(world: &World, upto: int) -> Seq<Option<crate::components::Point>>
    decreases upto,
{
    if upto <= 0 {
        world.positions@
    } else {
        let rest = positions_after_drops(world, upto - 1);
        let i = upto - 1;
        if drops(world, rest, i) {
            rest.update(world.wants_to_drop@[i]->Some_0.item.id as int, rest[i])
        } else {
            rest
        }
    }
}

/// What one drop pass does: items land at their droppers' cells, and every drop intent
/// is cleared.
pub open spec fn drop_post(before: &World, after: &World) -> bool {
    &&& after.wf()
    &&& after.len() == before.len()
    &&& after.alive@ == before.alive@
    &&& after.pending_delete@ == before.pending_delete@
    &&& after.player == before.player
    &&& after.log@ == before.log@
    &&& after.viewsheds@ == before.viewsheds@
    &&& after.combat_stats@ == before.combat_stats@
    &&& after.names@ == before.names@
    &&& after.items@ == before.items@
    &&& after.confusion@ == before.confusion@
    &&& after.suffer_damage@ == before.suffer_damage@
    &&& after.wants_to_use@ == before.wants_to_use@
    &&& after.positions@ == positions_after_drops(before, before.len() as int)
    &&& forall|i: int| 0 <= i < before.len() ==> #[trigger] after.wants_to_drop@[i] is None
}

/// A drop only ever sets a position, so a held position stays held.
pub proof fn lemma_positions_after_drops_keep(world: &World, upto: int, i: int)
    requires
        world.wf(),
        0 <= i < world.len(),
        world.positions@[i] is Some,
    ensures
        positions_after_drops(world, upto)[i] is Some,
    decreases upto,
{
    lemma_positions_after_drops_len(world, upto);
    if upto > 0 {
        lemma_positions_after_drops_keep(world, upto - 1, i);
        lemma_positions_after_drops_len(world, upto - 1);
    }
}

pub proof fn lemma_positions_after_drops_len(world: &World, upto: int)
    requires
        world.wf(),
    ensures
        positions_after_drops(world, upto).len() == world.positions@.len(),
    decreases upto,
{
    if upto > 0 {
        lemma_positions_after_drops_len(world, upto - 1);
    }
}

pub struct ItemDropSystem;

impl ItemDropSystem {
    /// Resolves every drop intent, entity by entity in id order, then clears them all.
    pub fn run(world: &mut World)
        requires
            old(world).wf(),
        ensures
            drop_post(old(world), final(world)),
    {
        let n = world.alive.len();
        let mut i: usize = 0;
        while i < n
            invariant
                i <= n,
                n == old(world).len(),
                world.wf(),
                world.len() == n,
                world.alive@ == old(world).alive@,
                world.pending_delete@ == old(world).pending_delete@,
                world.player == old(world).player,
                world.log@ == old(world).log@,
                world.viewsheds@ == old(world).viewsheds@,
                world.combat_stats@ == old(world).combat_stats@,
                world.names@ == old(world).names@,
                world.items@ == old(world).items@,
                world.confusion@ == old(world).confusion@,
                world.suffer_damage@ == old(world).suffer_damage@,
                world.wants_to_use@ == old(world).wants_to_use@,
                world.wants_to_drop@ == old(world).wants_to_drop@,
                world.positions@ == positions_after_drops(old(world), i as int),
                old(world).wf(),
            decreases n - i,
        {
            proof { lemma_positions_after_drops_len(old(world), i as int); }
            let ghost rest = world.positions@;
            if world.alive[i] {
                if let (Some(p), Some(d)) = (world.positions[i], world.wants_to_drop[i]) {
                    if d.item.id < n && world.alive[d.item.id] {
                        world.positions.set(d.item.id, Some(p));
                    }
                }
            }
            assert(positions_after_drops(old(world), i as int + 1) == if drops(old(world), rest, i as int) {
                rest.update(old(world).wants_to_drop@[i as int]->Some_0.item.id as int, rest[i as int])
            } else {
                rest
            });
            i += 1;
        }
        let mut j: usize = 0;
        while j < n
            invariant
                j <= n,
                n == old(world).len(),
                world.wf(),
                world.len() == n,
                world.alive@ == old(world).alive@,
                world.pending_delete@ == old(world).pending_delete@,
                world.player == old(world).player,
                world.log@ == old(world).log@,
                world.viewsheds@ == old(world).viewsheds@,
                world.combat_stats@ == old(world).combat_stats@,
                world.names@ == old(world).names@,
                world.items@ == old(world).items@,
                world.confusion@ == old(world).confusion@,
                world.suffer_damage@ == old(world).suffer_damage@,
                world.wants_to_use@ == old(world).wants_to_use@,
                world.positions@ == positions_after_drops(old(world), n as int),
                old(world).wf(),
                forall|k: int| 0 <= k < j ==> #[trigger] world.wants_to_drop@[k] is None,
            decreases n - j,
        {
            world.wants_to_drop.set(j, None);
            j += 1;
        }
    }
}

} // verus!
