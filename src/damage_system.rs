use vstd::prelude::*;

use crate::components::CombatStats;
use crate::world::World;

verus! {

/// `v` held to the range of `i32`.
pub open spec fn clamp_i32(v: int) -> i32 {
    if v < i32::MIN as int {
        i32::MIN
    } else if v > i32::MAX as int {
        i32::MAX
    } else {
        v as i32
    }
}

/// Hit points after taking each of `amounts` in turn, each step held to `i32`.
pub open spec fn after_damage(hp: i32, amounts: Seq<i32>) -> i32
    decreases amounts.len(),
{
    if amounts.len() == 0 {
        hp
    } else {
        clamp_i32(after_damage(hp, amounts.drop_last()) as int - amounts.last() as int)
    }
}

/// What applying the queued damage does.
pub open spec fn damage_post(before: &World, after: &World) -> bool {
    &&& after.wf()
    &&& after.len() == before.len()
    &&& after.alive@ == before.alive@
    &&& after.pending_delete@ == before.pending_delete@
    &&& after.player == before.player
    &&& after.log@ == before.log@
    &&& after.positions@ == before.positions@
    &&& after.viewsheds@ == before.viewsheds@
    &&& after.names@ == before.names@
    &&& after.items@ == before.items@
    &&& after.confusion@ == before.confusion@
    &&& after.wants_to_use@ == before.wants_to_use@
    &&& after.wants_to_drop@ == before.wants_to_drop@
    &&& forall|i: int| 0 <= i < before.len() ==> {
        &&& #[trigger] after.combat_stats@[i] == match before.combat_stats@[i] {
            Some(s) => Some(CombatStats { hp: after_damage(s.hp, before.suffer_damage@[i]@), ..s }),
            None => None,
        }
        &&& after.suffer_damage@[i]@.len() == 0
    }
}

pub struct DamageSystem;

impl DamageSystem {
    pub fn apply(hp: i32, amounts: &Vec<i32>) -> (r: i32)
        ensures
            r == after_damage(hp, amounts@),
    {
        let mut cur = hp;
        let mut k: usize = 0;
        while k < amounts.len()
            invariant
                k <= amounts@.len(),
                cur == after_damage(hp, amounts@.take(k as int)),
            decreases amounts@.len() - k,
        {
            assert(amounts@.take(k as int + 1).drop_last() =~= amounts@.take(k as int));
            let v: i64 = cur as i64 - amounts[k] as i64;
            cur = if v < i32::MIN as i64 {
                i32::MIN
            } else if v > i32::MAX as i64 {
                i32::MAX
            } else {
                v as i32
            };
            k += 1;
        }
        assert(amounts@.take(amounts@.len() as int) =~= amounts@);
        cur
    }

    /// Applies all damage queued in this pass: every entity with combat stats loses the
    /// queued amounts, and every queue is emptied.
    pub fn run(world: &mut World)
        requires
            old(world).wf(),
        ensures
            damage_post(old(world), final(world)),
    {
        let n = world.alive.len();
        let mut i: usize = 0;
        while i < n
            invariant
                i <= n,
                n == old(world).len(),
                world.wf(),
                world.len() == n,
                world.alive@ == old(world).alive@,
                world.pending_delete@ == old(world).pending_delete@,
                world.player == old(world).player,
                world.log@ == old(world).log@,
                world.positions@ == old(world).positions@,
                world.viewsheds@ == old(world).viewsheds@,
                world.names@ == old(world).names@,
                world.items@ == old(world).items@,
                world.confusion@ == old(world).confusion@,
                world.wants_to_use@ == old(world).wants_to_use@,
                world.wants_to_drop@ == old(world).wants_to_drop@,
                forall|j: int| 0 <= j < n ==> {
                    &&& #[trigger] world.combat_stats@[j] == if j < i {
                        match old(world).combat_stats@[j] {
                            Some(s) => Some(CombatStats { hp: after_damage(s.hp, old(world).suffer_damage@[j]@), ..s }),
                            None => None,
                        }
                    } else {
                        old(world).combat_stats@[j]
                    }
                    &&& world.suffer_damage@[j]@ == if j < i { Seq::empty() } else { old(world).suffer_damage@[j]@ }
                },
            decreases n - i,
        {
            let ghost prev = *world;
            if let Some(s) = world.combat_stats[i] {
                let hp = Self::apply(s.hp, &world.suffer_damage[i]);
                world.combat_stats.set(i, Some(CombatStats { hp, ..s }));
            }
            world.suffer_damage.set(i, Vec::new());
            assert forall|j: int| 0 <= j < n && j != i implies #[trigger] world.combat_stats@[j] == prev.combat_stats@[j]
                && world.suffer_damage@[j] == prev.suffer_damage@[j] by {}
            i += 1;
        }
    }
}

/// Whether entity slot `i` is dead: it holds combat stats with no hit points left, and
/// is not the player (what a dead player means is the caller's to decide).
pub open spec fn is_dead(world: &World, i: int) -> bool {
    &&& world.combat_stats@[i] matches Some(s) && s.hp <= 0
    &&& !(world.player matches Some(p) && p.id == i)
}

/// `after` is `before` with its dead and its queued deletions removed.
pub open spec fn dead_purged(before: &World, after: &World) -> bool {
    &&& after.wf()
    &&& after.len() == before.len()
    &&& after.player == before.player
    &&& after.log@ == before.log@
    &&& forall|i: int| 0 <= i < before.len() ==> {
        let gone = before.pending_delete@[i] || (before.alive@[i] && is_dead(before, i));
        &&& #[trigger] after.alive@[i] == (before.alive@[i] && !gone)
        &&& !after.pending_delete@[i]
        &&& if gone { after.slot_clear(i) } else { after.same_slot(before, i) }
    }
}

/// Queues every live dead entity for deletion, then runs the maintenance barrier.
pub fn delete_the_dead(world: &mut World)
    requires
        old(world).wf(),
    ensures
        dead_purged(old(world), final(world)),
{
    let n = world.alive.len();
    let mut i: usize = 0;
    while i < n
        invariant
            i <= n,
            n == old(world).len(),
            world.wf(),
            world.len() == n,
            world.alive@ == old(world).alive@,
            world.same_components(old(world)),
            world.player == old(world).player,
            world.log@ == old(world).log@,
            forall|j: int| 0 <= j < n ==> #[trigger] world.pending_delete@[j] == (old(world).pending_delete@[j]
                || (j < i && old(world).alive@[j] && is_dead(old(world), j))),
        decreases n - i,
    {
        let dead = match world.combat_stats[i] {
            Some(s) => s.hp <= 0,
            None => false,
        };
        let is_player = match world.player {
            Some(p) => p.id == i,
            None => false,
        };
        if world.alive[i] && dead && !is_player {
            world.delete(crate::components::Entity { id: i });
        }
        i += 1;
    }
    let ghost marked = *world;
    world.maintain();
    assert forall|j: int| 0 <= j < n implies #[trigger] world.alive@[j] == (old(world).alive@[j]
        && !(old(world).pending_delete@[j] || (old(world).alive@[j] && is_dead(old(world), j)))) by {
        assert(marked.pending_delete@[j] == (old(world).pending_delete@[j] || (old(world).alive@[j] && is_dead(old(world), j))));
    }
}

} // verus!
