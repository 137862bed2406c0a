use vstd::prelude::*;

use crate::components::{CombatStats, Entity, Item, Point, Viewshed, WantsToDrop, WantsToUseItem};

verus! {

/// The component store: one slot per entity id in every storage.
///
/// Deleting an entity only queues it; its components stay readable until `maintain`
/// applies every queued deletion at once.
pub struct World {
    pub alive: Vec<bool>,
    pub pending_delete: Vec<bool>,
    pub player: Option<Entity>,
    pub positions: Vec<Option<Point>>,
    pub viewsheds: Vec<Option<Viewshed>>,
    pub combat_stats: Vec<Option<CombatStats>>,
    pub names: Vec<Option<String>>,
    pub items: Vec<Option<Item>>,
    pub confusion: Vec<Option<i32>>,
    /// Damage queued on each entity in this pass, one amount per hit.
    pub suffer_damage: Vec<Vec<i32>>,
    pub wants_to_use: Vec<Option<WantsToUseItem>>,
    pub wants_to_drop: Vec<Option<WantsToDrop>>,
    /// Game log, oldest message first.
    pub log: Vec<String>,
}

impl World {
    pub open spec fn len(&self) -> nat {
        self.alive@.len()
    }

    pub open spec fn is_alive(&self, e: Entity) -> bool {
        e.id < self.alive@.len() && self.alive@[e.id as int]
    }

    pub open spec fn is_player(&self, e: Entity) -> bool {
        self.player == Some(e)
    }

    /// Slot `i` holds no component at all.
    pub open spec fn slot_clear(&self, i: int) -> bool {
        &&& self.positions@[i] is None
        &&& self.viewsheds@[i] is None
        &&& self.combat_stats@[i] is None
        &&& self.names@[i] is None
        &&& self.items@[i] is None
        &&& self.confusion@[i] is None
        &&& self.suffer_damage@[i]@.len() == 0
        &&& self.wants_to_use@[i] is None
        &&& self.wants_to_drop@[i] is None
    }

    /// Slot `i` of `self` and of `other` hold the same components.
    pub open spec fn same_slot(&self, other: &World, i: int) -> bool {
        &&& self.positions@[i] == other.positions@[i]
        &&& self.viewsheds@[i] == other.viewsheds@[i]
        &&& self.combat_stats@[i] == other.combat_stats@[i]
        &&& self.names@[i] == other.names@[i]
        &&& self.items@[i] == other.items@[i]
        &&& self.confusion@[i] == other.confusion@[i]
        &&& self.suffer_damage@[i] == other.suffer_damage@[i]
        &&& self.wants_to_use@[i] == other.wants_to_use@[i]
        &&& self.wants_to_drop@[i] == other.wants_to_drop@[i]
    }

    /// Every component storage of `self` equals that of `other`.
    pub open spec fn same_components(&self, other: &World) -> bool {
        &&& self.positions@ == other.positions@
        &&& self.viewsheds@ == other.viewsheds@
        &&& self.combat_stats@ == other.combat_stats@
        &&& self.names@ == other.names@
        &&& self.items@ == other.items@
        &&& self.confusion@ == other.confusion@
        &&& self.suffer_damage@ == other.suffer_damage@
        &&& self.wants_to_use@ == other.wants_to_use@
        &&& self.wants_to_drop@ == other.wants_to_drop@
    }

    /// Every component slot `i` holds in `self` is still held in `later`.
    pub open spec fn keeps_components(&self, later: &World, i: int) -> bool {
        &&& self.positions@[i] is Some ==> later.positions@[i] is Some
        &&& self.viewsheds@[i] is Some ==> later.viewsheds@[i] is Some
        &&& self.combat_stats@[i] is Some ==> later.combat_stats@[i] is Some
        &&& self.names@[i] is Some ==> later.names@[i] is Some
        &&& self.items@[i] is Some ==> later.items@[i] is Some
        &&& self.confusion@[i] is Some ==> later.confusion@[i] is Some
    }

    pub open spec fn storages_len(&self, n: nat) -> bool {
        &&& self.alive@.len() == n
        &&& self.pending_delete@.len() == n
        &&& self.positions@.len() == n
        &&& self.viewsheds@.len() == n
        &&& self.combat_stats@.len() == n
        &&& self.names@.len() == n
        &&& self.items@.len() == n
        &&& self.confusion@.len() == n
        &&& self.suffer_damage@.len() == n
        &&& self.wants_to_use@.len() == n
        &&& self.wants_to_drop@.len() == n
    }

    /// Storages span every entity, the player (if any) is a slot, and a dead
    /// slot holds nothing and awaits no deletion.
    pub open spec fn wf(&self) -> bool {
        &&& self.storages_len(self.len())
        &&& self.player matches Some(p) ==> p.id < self.len()
        &&& forall|i: int| 0 <= i < self.len() && !#[trigger] self.alive@[i]
            ==> self.slot_clear(i) && !self.pending_delete@[i]
    }

    pub fn new() -> (r: World)
        ensures
            r.wf(),
            r.len() == 0,
            r.player is None,
            r.log@.len() == 0,
    {
        World {
            alive: Vec::new(),
            pending_delete: Vec::new(),
            player: None,
            positions: Vec::new(),
            viewsheds: Vec::new(),
            combat_stats: Vec::new(),
            names: Vec::new(),
            items: Vec::new(),
            confusion: Vec::new(),
            suffer_damage: Vec::new(),
            wants_to_use: Vec::new(),
            wants_to_drop: Vec::new(),
            log: Vec::new(),
        }
    }

    /// A fresh live entity with no components.
    pub fn create_entity(&mut self) -> (e: Entity)
        requires
            old(self).wf(),
            old(self).len() < usize::MAX,
        ensures
            final(self).wf(),
            e.id == old(self).len(),
            final(self).len() == old(self).len() + 1,
            final(self).is_alive(e),
            !final(self).pending_delete@[e.id as int],
            final(self).slot_clear(e.id as int),
            final(self).player == old(self).player,
            final(self).log@ == old(self).log@,
            forall|i: int| 0 <= i < old(self).len() ==> #[trigger] final(self).alive@[i] == old(self).alive@[i]
                && final(self).pending_delete@[i] == old(self).pending_delete@[i]
                && final(self).same_slot(old(self), i),
    {
        let e = Entity { id: self.alive.len() };
        self.alive.push(true);
        self.pending_delete.push(false);
        self.positions.push(None);
        self.viewsheds.push(None);
        self.combat_stats.push(None);
        self.names.push(None);
        self.items.push(None);
        self.confusion.push(None);
        self.suffer_damage.push(Vec::new());
        self.wants_to_use.push(None);
        self.wants_to_drop.push(None);
        e
    }

    /// Gives a live entity its position component, replacing any it had.
    pub fn insert_position(&mut self, e: Entity, value: Point)
        requires
            old(self).wf(),
            old(self).is_alive(e),
        ensures
            final(self).wf(),
            final(self).alive@ == old(self).alive@,
            final(self).pending_delete@ == old(self).pending_delete@,
            final(self).player == old(self).player,
            final(self).log@ == old(self).log@,
            final(self).positions@ == old(self).positions@.update(e.id as int, Some(value)),
            final(self).viewsheds@ == old(self).viewsheds@,
            final(self).combat_stats@ == old(self).combat_stats@,
            final(self).names@ == old(self).names@,
            final(self).items@ == old(self).items@,
            final(self).confusion@ == old(self).confusion@,
            final(self).suffer_damage@ == old(self).suffer_damage@,
            final(self).wants_to_use@ == old(self).wants_to_use@,
            final(self).wants_to_drop@ == old(self).wants_to_drop@,
    {
        self.positions.set(e.id, Some(value));
    }

    /// Gives a live entity its combat stats component, replacing any it had.
    pub fn insert_combat_stats(&mut self, e: Entity, value: CombatStats)
        requires
            old(self).wf(),
            old(self).is_alive(e),
        ensures
            final(self).wf(),
            final(self).alive@ == old(self).alive@,
            final(self).pending_delete@ == old(self).pending_delete@,
            final(self).player == old(self).player,
            final(self).log@ == old(self).log@,
            final(self).combat_stats@ == old(self).combat_stats@.update(e.id as int, Some(value)),
            final(self).positions@ == old(self).positions@,
            final(self).viewsheds@ == old(self).viewsheds@,
            final(self).names@ == old(self).names@,
            final(self).items@ == old(self).items@,
            final(self).confusion@ == old(self).confusion@,
            final(self).suffer_damage@ == old(self).suffer_damage@,
            final(self).wants_to_use@ == old(self).wants_to_use@,
            final(self).wants_to_drop@ == old(self).wants_to_drop@,
    {
        self.combat_stats.set(e.id, Some(value));
    }

    /// Gives a live entity its name component, replacing any it had.
    pub fn insert_name(&mut self, e: Entity, value: String)
        requires
            old(self).wf(),
            old(self).is_alive(e),
        ensures
            final(self).wf(),
            final(self).alive@ == old(self).alive@,
            final(self).pending_delete@ == old(self).pending_delete@,
            final(self).player == old(self).player,
            final(self).log@ == old(self).log@,
            final(self).names@.len() == old(self).names@.len(),
            final(self).names@[e.id as int] == Some(value),
            forall|i: int| 0 <= i < old(self).len() && i != e.id ==> #[trigger] final(self).names@[i] == old(self).names@[i],
            final(self).positions@ == old(self).positions@,
            final(self).viewsheds@ == old(self).viewsheds@,
            final(self).combat_stats@ == old(self).combat_stats@,
            final(self).items@ == old(self).items@,
            final(self).confusion@ == old(self).confusion@,
            final(self).suffer_damage@ == old(self).suffer_damage@,
            final(self).wants_to_use@ == old(self).wants_to_use@,
            final(self).wants_to_drop@ == old(self).wants_to_drop@,
    {
        self.names.set(e.id, Some(value));
    }

    /// Gives a live entity its item component, replacing any it had.
    pub fn insert_item(&mut self, e: Entity, value: Item)
        requires
            old(self).wf(),
            old(self).is_alive(e),
        ensures
            final(self).wf(),
            final(self).alive@ == old(self).alive@,
            final(self).pending_delete@ == old(self).pending_delete@,
            final(self).player == old(self).player,
            final(self).log@ == old(self).log@,
            final(self).items@ == old(self).items@.update(e.id as int, Some(value)),
            final(self).positions@ == old(self).positions@,
            final(self).viewsheds@ == old(self).viewsheds@,
            final(self).combat_stats@ == old(self).combat_stats@,
            final(self).names@ == old(self).names@,
            final(self).confusion@ == old(self).confusion@,
            final(self).suffer_damage@ == old(self).suffer_damage@,
            final(self).wants_to_use@ == old(self).wants_to_use@,
            final(self).wants_to_drop@ == old(self).wants_to_drop@,
    {
        self.items.set(e.id, Some(value));
    }

    /// Gives a live entity its viewshed component, replacing any it had.
    pub fn insert_viewshed(&mut self, e: Entity, value: Viewshed)
        requires
            old(self).wf(),
            old(self).is_alive(e),
        ensures
            final(self).wf(),
            final(self).alive@ == old(self).alive@,
            final(self).pending_delete@ == old(self).pending_delete@,
            final(self).player == old(self).player,
            final(self).log@ == old(self).log@,
            final(self).viewsheds@.len() == old(self).viewsheds@.len(),
            final(self).viewsheds@[e.id as int] == Some(value),
            forall|i: int| 0 <= i < old(self).len() && i != e.id ==> #[trigger] final(self).viewsheds@[i] == old(self).viewsheds@[i],
            final(self).positions@ == old(self).positions@,
            final(self).combat_stats@ == old(self).combat_stats@,
            final(self).names@ == old(self).names@,
            final(self).items@ == old(self).items@,
            final(self).confusion@ == old(self).confusion@,
            final(self).suffer_damage@ == old(self).suffer_damage@,
            final(self).wants_to_use@ == old(self).wants_to_use@,
            final(self).wants_to_drop@ == old(self).wants_to_drop@,
    {
        self.viewsheds.set(e.id, Some(value));
    }

    /// Marks a live entity as the player.
    pub fn set_player(&mut self, e: Entity)
        requires
            old(self).wf(),
            old(self).is_alive(e),
        ensures
            final(self).wf(),
            final(self).player == Some(e),
            final(self).alive@ == old(self).alive@,
            final(self).pending_delete@ == old(self).pending_delete@,
            final(self).log@ == old(self).log@,
            final(self).same_components(old(self)),
    {
        self.player = Some(e);
    }

    /// Deleted entities stay whole for the rest of the pass and are gone after the
    /// barrier: once `e` is queued for deletion its components are all still there,
    /// and after the maintenance barrier it is dead and holds no component.
    pub proof fn lemma_barrier_atomicity(w0: World, w1: World, w2: World, e: Entity)
        requires
            w0.wf(),
            w0.is_alive(e),
            Self::delete_post(w0, w1, e),
            Self::maintain_post(w1, w2),
        ensures
            w1.is_alive(e),
            w1.same_components(&w0),
            !w2.is_alive(e),
            w2.slot_clear(e.id as int),
    {
        assert(w1.pending_delete@[e.id as int]);
        assert(w2.alive@[e.id as int] == (w1.alive@[e.id as int] && !w1.pending_delete@[e.id as int]));
    }

    pub open spec fn delete_post(before: World, after: World, e: Entity) -> bool {
        &&& after.wf()
        &&& after.pending_delete@ == before.pending_delete@.update(e.id as int, true)
        &&& after.alive@ == before.alive@
        &&& after.player == before.player
        &&& after.log@ == before.log@
        &&& after.same_components(&before)
    }

    pub open spec fn maintain_post(before: World, after: World) -> bool {
        &&& after.wf()
        &&& after.len() == before.len()
        &&& after.player == before.player
        &&& after.log@ == before.log@
        &&& forall|i: int| 0 <= i < before.len() ==> {
            &&& #[trigger] after.alive@[i] == (before.alive@[i] && !before.pending_delete@[i])
            &&& !after.pending_delete@[i]
            &&& if before.pending_delete@[i] {
                after.slot_clear(i)
            } else {
                after.same_slot(&before, i)
            }
        }
    }

    /// Queues a live entity for deletion at the next `maintain`; nothing else changes.
    pub fn delete(&mut self, e: Entity)
        requires
            old(self).wf(),
            old(self).is_alive(e),
        ensures
            Self::delete_post(*old(self), *final(self), e),
    {
        self.pending_delete.set(e.id, true);
    }

    /// The maintenance barrier: every queued deletion takes effect, all at once.
    pub fn maintain(&mut self)
        requires
            old(self).wf(),
        ensures
            Self::maintain_post(*old(self), *final(self)),
    {
        let n = self.alive.len();
        let mut i: usize = 0;
        while i < n
            invariant
                i <= n,
                n == old(self).len(),
                self.storages_len(n as nat),
                self.player == old(self).player,
                self.log@ == old(self).log@,
                forall|j: int| 0 <= j < n ==> {
                    &&& #[trigger] self.alive@[j] == if j < i {
                        old(self).alive@[j] && !old(self).pending_delete@[j]
                    } else {
                        old(self).alive@[j]
                    }
                    &&& self.pending_delete@[j] == (j >= i && old(self).pending_delete@[j])
                    &&& if j < i && old(self).pending_delete@[j] {
                        self.slot_clear(j)
                    } else {
                        self.same_slot(old(self), j)
                    }
                },
                old(self).wf(),
            decreases n - i,
        {
            let ghost prev = *self;
            if self.pending_delete[i] {
                self.alive.set(i, false);
                self.pending_delete.set(i, false);
                self.positions.set(i, None);
                self.viewsheds.set(i, None);
                self.combat_stats.set(i, None);
                self.names.set(i, None);
                self.items.set(i, None);
                self.confusion.set(i, None);
                self.suffer_damage.set(i, Vec::new());
                self.wants_to_use.set(i, None);
                self.wants_to_drop.set(i, None);
            }
            assert forall|j: int| 0 <= j < n && j != i implies #[trigger] self.alive@[j] == prev.alive@[j]
                && self.pending_delete@[j] == prev.pending_delete@[j] && self.same_slot(&prev, j) by {}
            assert(prev.alive@[i as int] == old(self).alive@[i as int]);
            assert(self.alive@[i as int] == (old(self).alive@[i as int] && !old(self).pending_delete@[i as int]));
            assert(!self.pending_delete@[i as int]);
            assert(old(self).pending_delete@[i as int] ==> self.slot_clear(i as int));
            assert(!old(self).pending_delete@[i as int] ==> self.same_slot(old(self), i as int));
            i += 1;
        }
    }
}

} // verus!
