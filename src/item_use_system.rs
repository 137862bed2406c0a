use vstd::prelude::*;
use vstd::string::StringExecFns;

use crate::components::{CombatStats, Entity, Item, Point, WantsToUseItem};
use crate::map::GameMap;
use crate::text::{append_decimal, decimal_text};
use crate::visibility_system::{clip, clip_to_map, lemma_clip_in_bounds};
use crate::world::World;

verus! {

/// Occupants of `cells`, cell by cell, in the map's occupant order.
pub open spec fn occupants_of(map: &GameMap, cells: Seq<Point>) -> Seq<Entity>
    decreases cells.len(),
{
    if cells.len() == 0 {
        Seq::empty()
    } else {
        occupants_of(map, cells.drop_last()) + map.tile_content@[map.idx(cells.last())]@
    }
}

/// `hp` raised by `amount`, but never above `max_hp` (nor below the smallest `i32`).
pub open spec fn healed(hp: i32, max_hp: i32, amount: i32) -> i32 {
    let s = hp as int + amount as int;
    if max_hp as int <= s {
        max_hp
    } else if s < i32::MIN as int {
        i32::MIN
    } else {
        s as i32
    }
}

pub open spec fn heal_message(item: Seq<char>, amount: i32) -> Seq<char> {
    "You use "@ + item + ", healing "@ + decimal_text(amount as int) + " hp."@
}

pub open spec fn damage_message(item: Seq<char>, target: Seq<char>, amount: i32) -> Seq<char> {
    "You use "@ + item + " on "@ + target + ", inflicting "@ + decimal_text(amount as int) + " hp."@
}

pub open spec fn confusion_message(item: Seq<char>, target: Seq<char>) -> Seq<char> {
    "You use "@ + item + " on "@ + target + ", confusing them."@
}

pub open spec fn log_view(world: &World) -> Seq<Seq<char>> {
    world.log@.map_values(|s: String| s@)
}

pub open spec fn has_stats(world: &World, e: Entity) -> bool {
    e.id < world.len() && world.combat_stats@[e.id as int] is Some
}

/// The candidates that carry combat stats, each once, in order of first appearance.
pub open spec fn stat_targets(world: &World, cands: Seq<Entity>) -> Seq<Entity>
    decreases cands.len(),
{
    if cands.len() == 0 {
        Seq::empty()
    } else {
        let r = stat_targets(world, cands.drop_last());
        let e = cands.last();
        if has_stats(world, e) && !r.contains(e) {
            r.push(e)
        } else {
            r
        }
    }
}

/// One healing line per target.
pub open spec fn heal_lines(count: nat, item: Seq<char>, amount: i32) -> Seq<Seq<char>>
    decreases count,
{
    if count == 0 {
        Seq::empty()
    } else {
        heal_lines((count - 1) as nat, item, amount).push(heal_message(item, amount))
    }
}

/// One damage line per named target.
pub open spec fn damage_lines(world: &World, targets: Seq<Entity>, item: Seq<char>, amount: i32) -> Seq<Seq<char>>
    decreases targets.len(),
{
    if targets.len() == 0 {
        Seq::empty()
    } else {
        let rest = damage_lines(world, targets.drop_last(), item, amount);
        match world.names@[targets.last().id as int] {
            Some(n) => rest.push(damage_message(item, n@, amount)),
            None => rest,
        }
    }
}

/// One confusion line per named target.
pub open spec fn confusion_lines(world: &World, targets: Seq<Entity>, item: Seq<char>) -> Seq<Seq<char>>
    decreases targets.len(),
{
    if targets.len() == 0 {
        Seq::empty()
    } else {
        let rest = confusion_lines(world, targets.drop_last(), item);
        match world.names@[targets.last().id as int] {
            Some(n) => rest.push(confusion_message(item, n@)),
            None => rest,
        }
    }
}

/// The intent names a live item entity.
pub open spec fn usable(world: &World, intent: WantsToUseItem) -> bool {
    &&& intent.item.id < world.len()
    &&& world.alive@[intent.item.id as int]
    &&& world.items@[intent.item.id as int] is Some
}

pub open spec fn item_spec(world: &World, intent: WantsToUseItem) -> Item {
    world.items@[intent.item.id as int]->Some_0
}

/// Entities the use reaches: the user itself without a target; the occupants of the
/// target cell without an area of effect; else the occupants of every in-bounds cell
/// of the blast sweep.
pub open spec fn candidates(world: &World, map: &GameMap, user: Entity, intent: WantsToUseItem, blast: Option<Seq<Point>>) -> Seq<Entity> {
    match intent.target {
        None => seq![user],
        Some(t) => {
            if item_spec(world, intent).area_of_effect is Some {
                let sweep = match blast { Some(b) => b, None => Seq::empty() };
                occupants_of(map, clip(map.width as int, map.height as int, sweep))
            } else if map.in_bounds_spec(t) {
                map.tile_content@[map.idx(t)]@
            } else {
                Seq::empty()
            }
        },
    }
}

pub open spec fn targets(world: &World, map: &GameMap, user: Entity, intent: WantsToUseItem, blast: Option<Seq<Point>>) -> Seq<Entity> {
    stat_targets(world, candidates(world, map, user, intent, blast))
}

/// Whether using the item applies an effect: it has one, and reaches a target with stats.
pub open spec fn applies(world: &World, map: &GameMap, user: Entity, intent: WantsToUseItem, blast: Option<Seq<Point>>) -> bool {
    let it = item_spec(world, intent);
    &&& usable(world, intent)
    &&& targets(world, map, user, intent, blast).len() > 0
    &&& (it.healing is Some || it.damage is Some || it.confusion is Some)
}

/// Log lines of one use: healing, then damage, then confusion, only when the player
/// used a named item.
pub open spec fn use_lines(world: &World, map: &GameMap, user: Entity, intent: WantsToUseItem, blast: Option<Seq<Point>>) -> Seq<Seq<char>> {
    let it = item_spec(world, intent);
    let ts = targets(world, map, user, intent, blast);
    if usable(world, intent) && world.is_player(user) && world.names@[intent.item.id as int] is Some {
        let name = world.names@[intent.item.id as int]->Some_0@;
        let heal = match it.healing {
            Some(h) => heal_lines(ts.len(), name, h),
            None => Seq::empty(),
        };
        let damage = match it.damage {
            Some(d) => damage_lines(world, ts, name, d),
            None => Seq::empty(),
        };
        let confuse = match it.confusion {
            Some(_) => confusion_lines(world, ts, name),
            None => Seq::empty(),
        };
        heal + damage + confuse
    } else {
        Seq::empty()
    }
}

/// The slot of `e` after one use: when the use is valid (`ok`) and `e` is among `ts`, each effect of `it` applied to it;
/// otherwise as it was.
pub open spec fn entity_applied(before: &World, after: &World, it: Item, ok: bool, ts: Seq<Entity>, e: Entity) -> bool {
    let i = e.id as int;
    let hit = ok && ts.contains(e);
    &&& after.combat_stats@[i] == match (it.healing, before.combat_stats@[i]) {
        (Some(h), Some(s)) if hit => Some(CombatStats { hp: healed(s.hp, s.max_hp, h), ..s }),
        _ => before.combat_stats@[i],
    }
    &&& after.suffer_damage@[i]@ == match it.damage {
        Some(d) if hit => before.suffer_damage@[i]@.push(d),
        _ => before.suffer_damage@[i]@,
    }
    &&& after.confusion@[i] == match it.confusion {
        Some(c) if hit => Some(c),
        _ => before.confusion@[i],
    }
}

/// `after` is `before` with one use of `intent` by `user` applied; `used` tells
/// whether an effect was applied.
pub open spec fn use_applied(
    before: &World,
    after: &World,
    map: &GameMap,
    user: Entity,
    intent: WantsToUseItem,
    blast: Option<Seq<Point>>,
    used: bool,
) -> bool {
    let it = item_spec(before, intent);
    let ts = targets(before, map, user, intent, blast);
    let ok = usable(before, intent);
    &&& after.wf()
    &&& after.len() == before.len()
    &&& after.alive@ == before.alive@
    &&& after.player == before.player
    &&& after.positions@ == before.positions@
    &&& after.viewsheds@ == before.viewsheds@
    &&& after.names@ == before.names@
    &&& after.items@ == before.items@
    &&& after.wants_to_drop@ == before.wants_to_drop@
    &&& used == applies(before, map, user, intent, blast)
    &&& after.pending_delete@ == if used && it.consumable {
        before.pending_delete@.update(intent.item.id as int, true)
    } else {
        before.pending_delete@
    }
    &&& forall|e: Entity| e.id < before.len() ==> #[trigger] entity_applied(before, after, it, ok, ts, e)
    &&& log_view(after) == log_view(before) + use_lines(before, map, user, intent, blast)
}

pub open spec fn blast_view(blast: Option<Vec<Point>>) -> Option<Seq<Point>> {
    match blast {
        Some(b) => Some(b@),
        None => None,
    }
}

pub proof fn lemma_stat_targets(world: &World, cands: Seq<Entity>)
    ensures
        stat_targets(world, cands).no_duplicates(),
        forall|j: int| 0 <= j < stat_targets(world, cands).len() ==> has_stats(world, #[trigger] stat_targets(world, cands)[j]),
    decreases cands.len(),
{
    if cands.len() > 0 {
        lemma_stat_targets(world, cands.drop_last());
        let r = stat_targets(world, cands.drop_last());
        let e = cands.last();
        if has_stats(world, e) && !r.contains(e) {
            let r2 = r.push(e);
            assert forall|a: int, b: int| 0 <= a < r2.len() && 0 <= b < r2.len() && a != b implies r2[a] != r2[b] by {
                if a < r.len() && b < r.len() {
                } else if a == r.len() {
                    assert(r2[b] == r[b]);
                } else {
                    assert(r2[a] == r[a]);
                }
            }
            assert forall|j: int| 0 <= j < r2.len() implies has_stats(world, #[trigger] r2[j]) by {
                if j < r.len() {
                    assert(r2[j] == r[j]);
                }
            }
        }
    }
}

/// An entity is a target exactly when it is a candidate and carries combat stats.
pub proof fn lemma_stat_targets_members(world: &World, cands: Seq<Entity>, e: Entity)
    ensures
        stat_targets(world, cands).contains(e) <==> (has_stats(world, e) && cands.contains(e)),
    decreases cands.len(),
{
    if cands.len() > 0 {
        let init = cands.drop_last();
        lemma_stat_targets_members(world, init, e);
        let r = stat_targets(world, init);
        let last = cands.last();
        if cands.contains(e) && !init.contains(e) {
            let k = choose|k: int| 0 <= k < cands.len() && cands[k] == e;
            if k < init.len() {
                assert(init[k] == e);
            }
            assert(last == e);
        }
        if init.contains(e) {
            let k = choose|k: int| 0 <= k < init.len() && init[k] == e;
            assert(cands[k] == e);
        }
        if last == e {
            assert(cands[cands.len() - 1] == e);
        }
        if has_stats(world, last) && !r.contains(last) {
            let r2 = r.push(last);
            if r.contains(e) {
                let k = choose|k: int| 0 <= k < r.len() && r[k] == e;
                assert(r2[k] == e);
            }
            if r2.contains(e) {
                let k = choose|k: int| 0 <= k < r2.len() && r2[k] == e;
                if k < r.len() {
                    assert(r[k] == e);
                }
            }
            assert(r2[r.len() as int] == last);
        }
    }
}

/// Area of effect: with a blast sweep from the target cell, the entities affected are
/// exactly those with combat stats that occupy a cell of the sweep lying on the map.
pub proof fn lemma_area_targets(
    world: &World,
    map: &GameMap,
    user: Entity,
    intent: WantsToUseItem,
    blast: Seq<Point>,
    e: Entity,
)
    requires
        intent.target is Some,
        item_spec(world, intent).area_of_effect is Some,
    ensures
        targets(world, map, user, intent, Some(blast)).contains(e) <==> (
            has_stats(world, e) && occupants_of(map, clip(map.width as int, map.height as int, blast)).contains(e)
        ),
{
    lemma_stat_targets_members(world, candidates(world, map, user, intent, Some(blast)), e);
}

pub proof fn lemma_take_contains(s: Seq<Entity>, j: int, e: Entity)
    requires
        0 <= j < s.len(),
    ensures
        s.take(j + 1).contains(e) == (s.take(j).contains(e) || s[j] == e),
{
    let t0 = s.take(j);
    let t1 = s.take(j + 1);
    if t0.contains(e) {
        let k = choose|k: int| 0 <= k < t0.len() && t0[k] == e;
        assert(t1[k] == e);
    }
    if s[j] == e {
        assert(t1[j] == e);
    }
    if t1.contains(e) {
        let k = choose|k: int| 0 <= k < t1.len() && t1[k] == e;
        if k < j {
            assert(t0[k] == e);
        }
    }
}

fn heal_msg(item: &String, amount: i32) -> (r: String)
    ensures
        r@ == heal_message(item@, amount),
{
    let mut s = String::new();
    s.append("You use ");
    s.append(item.as_str());
    s.append(", healing ");
    append_decimal(&mut s, amount);
    s.append(" hp.");
    s
}

fn damage_msg(item: &String, target: &String, amount: i32) -> (r: String)
    ensures
        r@ == damage_message(item@, target@, amount),
{
    let mut s = String::new();
    s.append("You use ");
    s.append(item.as_str());
    s.append(" on ");
    s.append(target.as_str());
    s.append(", inflicting ");
    append_decimal(&mut s, amount);
    s.append(" hp.");
    s
}

fn confusion_msg(item: &String, target: &String) -> (r: String)
    ensures
        r@ == confusion_message(item@, target@),
{
    let mut s = String::new();
    s.append("You use ");
    s.append(item.as_str());
    s.append(" on ");
    s.append(target.as_str());
    s.append(", confusing them.");
    s
}

/// Occupants of in-bounds `cells`, cell by cell.
pub fn collect_occupants(map: &GameMap, cells: &Vec<Point>) -> (r: Vec<Entity>)
    requires
        map.wf(),
        forall|j: int| 0 <= j < cells@.len() ==> map.in_bounds_spec(#[trigger] cells@[j]),
    ensures
        r@ == occupants_of(map, cells@),
{
    let mut r: Vec<Entity> = Vec::new();
    let mut i: usize = 0;
    while i < cells.len()
        invariant
            i <= cells@.len(),
            map.wf(),
            forall|j: int| 0 <= j < cells@.len() ==> map.in_bounds_spec(#[trigger] cells@[j]),
            r@ == occupants_of(map, cells@.take(i as int)),
        decreases cells@.len() - i,
    {
        let p = cells[i];
        let idx = map.xy_idx(p.x, p.y);
        let cell = &map.tile_content[idx];
        let ghost r0 = r@;
        let mut k: usize = 0;
        while k < cell.len()
            invariant
                k <= cell@.len(),
                r@ == r0 + cell@.take(k as int),
            decreases cell@.len() - k,
        {
            r.push(cell[k]);
            assert(cell@.take(k as int + 1) =~= cell@.take(k as int).push(cell@[k as int]));
            k += 1;
        }
        assert(cell@.take(cell@.len() as int) =~= cell@);
        assert(cells@.take(i as int + 1).drop_last() =~= cells@.take(i as int));
        i += 1;
    }
    assert(cells@.take(cells@.len() as int) =~= cells@);
    r
}

fn contains_entity(v: &Vec<Entity>, e: Entity) -> (r: bool)
    ensures
        r == v@.contains(e),
{
    let mut i: usize = 0;
    while i < v.len()
        invariant
            i <= v@.len(),
            forall|j: int| 0 <= j < i ==> v@[j] != e,
        decreases v@.len() - i,
    {
        if v[i] == e {
            return true;
        }
        i += 1;
    }
    false
}

/// The candidates that carry combat stats, each once, in order.
pub fn select_targets(world: &World, cands: &Vec<Entity>) -> (r: Vec<Entity>)
    requires
        world.wf(),
    ensures
        r@ == stat_targets(world, cands@),
{
    let mut r: Vec<Entity> = Vec::new();
    let mut i: usize = 0;
    while i < cands.len()
        invariant
            i <= cands@.len(),
            world.wf(),
            r@ == stat_targets(world, cands@.take(i as int)),
        decreases cands@.len() - i,
    {
        let e = cands[i];
        assert(cands@.take(i as int + 1).drop_last() =~= cands@.take(i as int));
        let has = e.id < world.combat_stats.len() && world.combat_stats[e.id].is_some();
        if has && !contains_entity(&r, e) {
            r.push(e);
        }
        i += 1;
    }
    assert(cands@.take(cands@.len() as int) =~= cands@);
    r
}

/// The entities a use reaches, before filtering on combat stats.
pub fn candidate_list(world: &World, map: &GameMap, user: Entity, intent: WantsToUseItem, blast: &Option<Vec<Point>>) -> (r: Vec<Entity>)
    requires
        world.wf(),
        map.wf(),
        usable(world, intent),
    ensures
        r@ == candidates(world, map, user, intent, blast_view(*blast)),
{
    match intent.target {
        None => {
            let mut r: Vec<Entity> = Vec::new();
            r.push(user);
            assert(r@ =~= seq![user]);
            r
        },
        Some(t) => {
            let aoe = match world.items[intent.item.id] {
                Some(it) => it.area_of_effect.is_some(),
                None => false,
            };
            if aoe {
                let empty: Vec<Point> = Vec::new();
                let cells = match blast {
                    Some(b) => clip_to_map(map, b),
                    None => clip_to_map(map, &empty),
                };
                proof {
                    let sweep = match blast_view(*blast) { Some(b) => b, None => Seq::empty() };
                    assert(empty@ =~= Seq::<Point>::empty());
                    lemma_clip_in_bounds(map.width as int, map.height as int, sweep);
                }
                collect_occupants(map, &cells)
            } else if map.in_bounds(t) {
                let idx = map.xy_idx(t.x, t.y);
                let cell = &map.tile_content[idx];
                let mut r: Vec<Entity> = Vec::new();
                let mut k: usize = 0;
                while k < cell.len()
                    invariant
                        k <= cell@.len(),
                        r@ == cell@.take(k as int),
                    decreases cell@.len() - k,
                {
                    r.push(cell[k]);
                    assert(cell@.take(k as int + 1) =~= cell@.take(k as int).push(cell@[k as int]));
                    k += 1;
                }
                assert(cell@.take(cell@.len() as int) =~= cell@);
                r
            } else {
                Vec::new()
            }
        },
    }
}

/// Steps `0..upto` of `ws`: step `k` applies the use intent of entity `k`, if it is
/// alive and has one, and leaves the world as it is otherwise.
pub open spec fn use_steps(ws: Seq<World>, map: &GameMap, blasts: Seq<Option<Vec<Point>>>, upto: int) -> bool {
    forall|k: int| 0 <= k < upto ==> {
        let w = #[trigger] ws[k];
        let next = ws[k + 1];
        if w.alive@[k] && w.wants_to_use@[k] is Some {
            &&& next.wants_to_use@ == w.wants_to_use@
            &&& exists|used: bool| #[trigger] use_applied(&w, &next, map, Entity { id: k as usize }, w.wants_to_use@[k]->Some_0, blast_view(blasts[k]), used)
        } else {
            next == w
        }
    }
}

/// Healing never lifts hit points above the maximum and never lowers them: for every
/// entity whose hit points were within its maximum, a use of an item whose healing (if
/// any) is not negative leaves them within the maximum and no lower than before.
pub proof fn lemma_heal_clamp(
    before: &World,
    after: &World,
    map: &GameMap,
    user: Entity,
    intent: WantsToUseItem,
    blast: Option<Seq<Point>>,
    used: bool,
    e: Entity,
)
    requires
        before.wf(),
        use_applied(before, after, map, user, intent, blast, used),
        e.id < before.len(),
        before.combat_stats@[e.id as int] matches Some(s) && s.hp <= s.max_hp,
        usable(before, intent) ==> (item_spec(before, intent).healing matches Some(h) ==> h >= 0),
    ensures
        after.combat_stats@[e.id as int] matches Some(s2) && {
            let s = before.combat_stats@[e.id as int]->Some_0;
            &&& s2.max_hp == s.max_hp
            &&& s2.hp <= s2.max_hp
            &&& s.hp <= s2.hp
        },
{
    let ts = targets(before, map, user, intent, blast);
    let it = item_spec(before, intent);
    let hit = usable(before, intent) && ts.contains(e);
    let s = before.combat_stats@[e.id as int]->Some_0;
    assert(entity_applied(before, after, it, usable(before, intent), ts, e));
    if hit && it.healing is Some {
        let h = it.healing->Some_0;
        assert(s.hp <= healed(s.hp, s.max_hp, h) <= s.max_hp);
    }
}

/// A consumable healing potion drunk at full health is still used up: the heal
/// applies (changing nothing) and the potion is queued for deletion.
pub proof fn lemma_full_health_potion_consumed(
    before: &World,
    after: &World,
    map: &GameMap,
    user: Entity,
    intent: WantsToUseItem,
    blast: Option<Seq<Point>>,
    used: bool,
)
    requires
        before.wf(),
        use_applied(before, after, map, user, intent, blast, used),
        usable(before, intent),
        intent.target is None,
        item_spec(before, intent).consumable,
        item_spec(before, intent).healing matches Some(h) && h >= 0,
        user.id < before.len(),
        before.combat_stats@[user.id as int] matches Some(s) && s.hp == s.max_hp,
    ensures
        used,
        after.pending_delete@[intent.item.id as int],
        after.combat_stats@[user.id as int] == before.combat_stats@[user.id as int],
{
    let cands = candidates(before, map, user, intent, blast);
    assert(cands == seq![user]);
    assert(cands.drop_last() =~= Seq::<Entity>::empty());
    let ts = stat_targets(before, cands);
    assert(stat_targets(before, cands.drop_last()) == Seq::<Entity>::empty());
    assert(ts == seq![user]);
    assert(ts[0] == user);
    assert(ts.contains(user));
    assert(entity_applied(before, after, item_spec(before, intent), true, ts, user));
}

/// What one item-use pass does: the intents resolved entity by entity, then all cleared.
pub open spec fn use_pass_post(before: &World, after: &World, map: &GameMap, blasts: Seq<Option<Vec<Point>>>) -> bool {
    &&& after.wf()
    &&& forall|i: int| 0 <= i < after.len() ==> #[trigger] after.wants_to_use@[i] is None
    &&& exists|ws: Seq<World>| {
        &&& ws.len() == before.len() + 1
        &&& ws[0] == *before
        &&& use_steps(ws, map, blasts, before.len() as int)
        &&& after.len() == ws.last().len()
        &&& after.alive@ == ws.last().alive@
        &&& after.pending_delete@ == ws.last().pending_delete@
        &&& after.player == ws.last().player
        &&& after.log@ == ws.last().log@
        &&& after.positions@ == ws.last().positions@
        &&& after.viewsheds@ == ws.last().viewsheds@
        &&& after.combat_stats@ == ws.last().combat_stats@
        &&& after.names@ == ws.last().names@
        &&& after.items@ == ws.last().items@
        &&& after.confusion@ == ws.last().confusion@
        &&& after.suffer_damage@ == ws.last().suffer_damage@
        &&& after.wants_to_drop@ == ws.last().wants_to_drop@
    }
}

/// Every item of `world` that heals, heals a non-negative amount.
pub open spec fn heals_non_negative(world: &World) -> bool {
    forall|i: int| 0 <= i < world.len() && #[trigger] world.items@[i] is Some && world.items@[i]->Some_0.healing is Some
        ==> world.items@[i]->Some_0.healing->Some_0 >= 0
}

/// The first `n` steps of an item-use pass keep the hit points of `e` within its
/// maximum and never lower them.
#[verifier::spinoff_prover]
pub proof fn lemma_heal_clamp_steps(ws: Seq<World>, map: &GameMap, blasts: Seq<Option<Vec<Point>>>, n: int, e: Entity)
    requires
        0 <= n < ws.len(),
        ws[0].wf(),
        heals_non_negative(&ws[0]),
        use_steps(ws, map, blasts, n),
        e.id < ws[0].len(),
        ws[0].combat_stats@[e.id as int] matches Some(s) && s.hp <= s.max_hp,
    ensures
        ws[n].wf(),
        ws[n].len() == ws[0].len(),
        ws[n].items@ == ws[0].items@,
        ws[n].combat_stats@[e.id as int] matches Some(s2) && {
            let s = ws[0].combat_stats@[e.id as int]->Some_0;
            &&& s2.max_hp == s.max_hp
            &&& s2.hp <= s2.max_hp
            &&& s.hp <= s2.hp
        },
    decreases n,
{
    if n > 0 {
        let k = n - 1;
        lemma_heal_clamp_steps(ws, map, blasts, k, e);
        let w = ws[k];
        let next = ws[k + 1];
        if w.alive@[k] && w.wants_to_use@[k] is Some {
            let u = w.wants_to_use@[k]->Some_0;
            let used = choose|used: bool| #[trigger] use_applied(&w, &next, map, Entity { id: k as usize }, u, blast_view(blasts[k]), used);
            if usable(&w, u) {
                assert(w.items@[u.item.id as int] is Some);
            }
            lemma_heal_clamp(&w, &next, map, Entity { id: k as usize }, u, blast_view(blasts[k]), used, e);
        }
    }
}

/// Healing over a whole item-use pass: when every healing item heals a non-negative
/// amount, an entity whose hit points were within its maximum ends the pass within it,
/// with its maximum unchanged, and with no fewer hit points than before.
pub proof fn lemma_heal_clamp_pass(before: &World, after: &World, map: &GameMap, blasts: Seq<Option<Vec<Point>>>, e: Entity)
    requires
        before.wf(),
        heals_non_negative(before),
        use_pass_post(before, after, map, blasts),
        e.id < before.len(),
        before.combat_stats@[e.id as int] matches Some(s) && s.hp <= s.max_hp,
    ensures
        after.combat_stats@[e.id as int] matches Some(s2) && {
            let s = before.combat_stats@[e.id as int]->Some_0;
            &&& s2.max_hp == s.max_hp
            &&& s2.hp <= s2.max_hp
            &&& s.hp <= s2.hp
        },
{
    let ws = choose|ws: Seq<World>| {
        &&& ws.len() == before.len() + 1
        &&& ws[0] == *before
        &&& use_steps(ws, map, blasts, before.len() as int)
        &&& after.combat_stats@ == ws.last().combat_stats@
    };
    lemma_heal_clamp_steps(ws, map, blasts, before.len() as int, e);
}

pub struct ItemUseSystem;

impl ItemUseSystem {
    /// Resolves one use of an item by `user`: every target with combat stats gets each
    /// effect the item carries, and a consumable item is queued for deletion when an
    /// effect was applied. `blast` is the field-of-view sweep from the target cell with
    /// the item's blast radius, used only for an area-of-effect item. A single-cell
    /// target off the map is checked before any cell is read and reaches no one, so
    /// such a use applies nothing and consumes nothing; likewise an intent naming a
    /// dead or non-item entity.
    pub fn use_item(world: &mut World, map: &GameMap, user: Entity, intent: WantsToUseItem, blast: &Option<Vec<Point>>) -> (used: bool)
        requires
            old(world).wf(),
            map.wf(),
        ensures
            use_applied(old(world), final(world), map, user, intent, blast_view(*blast), used),
            final(world).wants_to_use@ == old(world).wants_to_use@,
    {
        let n = world.alive.len();
        if !(intent.item.id < n && world.alive[intent.item.id] && world.items[intent.item.id].is_some()) {
            assert(log_view(world) =~= log_view(world) + Seq::<Seq<char>>::empty());
            return false;
        }
        let it = match world.items[intent.item.id] {
            Some(it) => it,
            None => Item { consumable: false, healing: None, damage: None, confusion: None, area_of_effect: None, ranged: None },
        };
        let cands = candidate_list(world, map, user, intent, blast);
        let ts = select_targets(world, &cands);
        let ghost w0 = *world;
        proof { lemma_stat_targets(&w0, cands@); }
        let by_player = match world.player {
            Some(p) => p == user,
            None => false,
        };
        let item_name: Option<String> = match &world.names[intent.item.id] {
            Some(nm) => Some(nm.clone()),
            None => None,
        };
        let speak = by_player && item_name.is_some();
        let ghost name = match &item_name { Some(s) => s@, None => Seq::<char>::empty() };

        // healing
        let ghost heal_log = match it.healing {
            Some(h) => if speak { heal_lines(ts@.len(), name, h) } else { Seq::empty() },
            None => Seq::empty(),
        };
        if let Some(h) = it.healing {
            let mut j: usize = 0;
            while j < ts.len()
                invariant
                    j <= ts@.len(),
                    world.wf(),
                    w0.wf(),
                    world.len() == w0.len(),
                    world.alive@ == w0.alive@,
                    world.pending_delete@ == w0.pending_delete@,
                    world.player == w0.player,
                    world.positions@ == w0.positions@,
                    world.viewsheds@ == w0.viewsheds@,
                    world.names@ == w0.names@,
                    world.items@ == w0.items@,
                    world.wants_to_use@ == w0.wants_to_use@,
                    world.wants_to_drop@ == w0.wants_to_drop@,
                    world.confusion@ == w0.confusion@,
                    world.suffer_damage@ == w0.suffer_damage@,
                    ts@.no_duplicates(),
                    forall|k: int| 0 <= k < ts@.len() ==> has_stats(&w0, #[trigger] ts@[k]),
                    item_name matches Some(s) ==> s@ == name,
                    speak ==> item_name is Some,
                    forall|e: Entity| e.id < w0.len() ==> #[trigger] world.combat_stats@[e.id as int] == if ts@.take(j as int).contains(e) {
                        let s = w0.combat_stats@[e.id as int]->Some_0;
                        Some(CombatStats { hp: healed(s.hp, s.max_hp, h), ..s })
                    } else {
                        w0.combat_stats@[e.id as int]
                    },
                    log_view(world) == log_view(&w0) + (if speak { heal_lines(j as nat, name, h) } else { Seq::empty() }),
                decreases ts@.len() - j,
            {
                let t = ts[j];
                let ghost prev = *world;
                let st = match world.combat_stats[t.id] {
                    Some(st) => st,
                    None => CombatStats { max_hp: 0, hp: 0, defense: 0, power: 0 },
                };
                let sum: i64 = st.hp as i64 + h as i64;
                let hp: i32 = if (st.max_hp as i64) <= sum {
                    st.max_hp
                } else if sum < i32::MIN as i64 {
                    i32::MIN
                } else {
                    sum as i32
                };
                world.combat_stats.set(t.id, Some(CombatStats { hp, ..st }));
                if speak {
                    match &item_name {
                        Some(nm) => {
                            let msg = heal_msg(nm, h);
                            world.log.push(msg);
                            assert(log_view(world) =~= log_view(&prev).push(msg@));
                            assert(heal_lines((j + 1) as nat, name, h) == heal_lines(j as nat, name, h).push(heal_message(name, h)));
                            assert(log_view(world) =~= log_view(&w0) + heal_lines((j + 1) as nat, name, h));
                        },
                        None => {},
                    }
                }
                proof {
                    assert forall|e: Entity| e.id < w0.len() implies #[trigger] ts@.take(j as int + 1).contains(e)
                        == (ts@.take(j as int).contains(e) || e == t) by {
                        lemma_take_contains(ts@, j as int, e);
                    }
                    assert(heal_lines((j + 1) as nat, name, h) == heal_lines(j as nat, name, h).push(heal_message(name, h)));
                    if j > 0 {
                        // t is not among the earlier targets
                        if ts@.take(j as int).contains(t) {
                            let k = choose|k: int| 0 <= k < j && ts@.take(j as int)[k] == t;
                            assert(ts@[k] == ts@[j as int]);
                        }
                    }
                }
                j += 1;
            }
        }
        assert(ts@.take(ts@.len() as int) =~= ts@);
        let ghost wa = *world;

        // damage
        if let Some(d) = it.damage {
            let mut j: usize = 0;
            while j < ts.len()
                invariant
                    j <= ts@.len(),
                    world.wf(),
                    w0.wf(),
                    world.len() == w0.len(),
                    world.alive@ == w0.alive@,
                    world.pending_delete@ == w0.pending_delete@,
                    world.player == w0.player,
                    world.positions@ == w0.positions@,
                    world.viewsheds@ == w0.viewsheds@,
                    world.names@ == w0.names@,
                    world.items@ == w0.items@,
                    world.wants_to_use@ == w0.wants_to_use@,
                    world.wants_to_drop@ == w0.wants_to_drop@,
                    ts@.no_duplicates(),
                    forall|k: int| 0 <= k < ts@.len() ==> has_stats(&w0, #[trigger] ts@[k]),
                    item_name matches Some(s) ==> s@ == name,
                    speak ==> item_name is Some,
                    world.combat_stats@ == wa.combat_stats@,
                    world.confusion@ == wa.confusion@,
                    forall|e: Entity| e.id < w0.len() ==> #[trigger] world.suffer_damage@[e.id as int]@ == if ts@.take(j as int).contains(e) {
                        wa.suffer_damage@[e.id as int]@.push(d)
                    } else {
                        wa.suffer_damage@[e.id as int]@
                    },
                    log_view(world) == log_view(&wa) + (if speak { damage_lines(&w0, ts@.take(j as int), name, d) } else { Seq::empty() }),
                decreases ts@.len() - j,
            {
                let t = ts[j];
                let ghost prev = *world;
                assert(has_stats(&w0, ts@[j as int]));
                assert(world.alive@[t.id as int]);
                let mut queued: Vec<i32> = Vec::new();
                std::mem::swap(&mut queued, &mut world.suffer_damage[t.id]);
                queued.push(d);
                world.suffer_damage.set(t.id, queued);
                assert(ts@.take(j as int + 1).drop_last() =~= ts@.take(j as int));
                if speak {
                    match (&item_name, &world.names[t.id]) {
                        (Some(nm), Some(target_name)) => {
                            let msg = damage_msg(nm, target_name, d);
                            world.log.push(msg);
                            assert(log_view(world) =~= log_view(&prev).push(msg@));
                            assert(log_view(world) =~= log_view(&wa) + damage_lines(&w0, ts@.take(j as int + 1), name, d));
                        },
                        _ => {},
                    }
                }
                proof {
                    assert forall|e: Entity| e.id < w0.len() implies #[trigger] ts@.take(j as int + 1).contains(e)
                        == (ts@.take(j as int).contains(e) || e == t) by {
                        lemma_take_contains(ts@, j as int, e);
                    }
                    if ts@.take(j as int).contains(t) {
                        let k = choose|k: int| 0 <= k < j && ts@.take(j as int)[k] == t;
                        assert(ts@[k] == ts@[j as int]);
                    }
                }
                j += 1;
            }
        }
        let ghost wb = *world;

        // confusion
        if let Some(c) = it.confusion {
            let mut j: usize = 0;
            while j < ts.len()
                invariant
                    j <= ts@.len(),
                    world.wf(),
                    w0.wf(),
                    world.len() == w0.len(),
                    world.alive@ == w0.alive@,
                    world.pending_delete@ == w0.pending_delete@,
                    world.player == w0.player,
                    world.positions@ == w0.positions@,
                    world.viewsheds@ == w0.viewsheds@,
                    world.names@ == w0.names@,
                    world.items@ == w0.items@,
                    world.wants_to_use@ == w0.wants_to_use@,
                    world.wants_to_drop@ == w0.wants_to_drop@,
                    ts@.no_duplicates(),
                    forall|k: int| 0 <= k < ts@.len() ==> has_stats(&w0, #[trigger] ts@[k]),
                    item_name matches Some(s) ==> s@ == name,
                    speak ==> item_name is Some,
                    world.combat_stats@ == wb.combat_stats@,
                    world.suffer_damage@ == wb.suffer_damage@,
                    forall|e: Entity| e.id < w0.len() ==> #[trigger] world.confusion@[e.id as int] == if ts@.take(j as int).contains(e) {
                        Some(c)
                    } else {
                        wb.confusion@[e.id as int]
                    },
                    log_view(world) == log_view(&wb) + (if speak { confusion_lines(&w0, ts@.take(j as int), name) } else { Seq::empty() }),
                decreases ts@.len() - j,
            {
                let t = ts[j];
                let ghost prev = *world;
                assert(has_stats(&w0, ts@[j as int]));
                assert(world.alive@[t.id as int]);
                world.confusion.set(t.id, Some(c));
                assert(ts@.take(j as int + 1).drop_last() =~= ts@.take(j as int));
                if speak {
                    match (&item_name, &world.names[t.id]) {
                        (Some(nm), Some(target_name)) => {
                            let msg = confusion_msg(nm, target_name);
                            world.log.push(msg);
                            assert(log_view(world) =~= log_view(&prev).push(msg@));
                            assert(log_view(world) =~= log_view(&wb) + confusion_lines(&w0, ts@.take(j as int + 1), name));
                        },
                        _ => {},
                    }
                }
                proof {
                    assert forall|e: Entity| e.id < w0.len() implies #[trigger] ts@.take(j as int + 1).contains(e)
                        == (ts@.take(j as int).contains(e) || e == t) by {
                        lemma_take_contains(ts@, j as int, e);
                    }
                }
                j += 1;
            }
        }
        let ghost wc = *world;

        let used = ts.len() > 0 && (it.healing.is_some() || it.damage.is_some() || it.confusion.is_some());
        if used && it.consumable {
            world.delete(intent.item);
        }
        proof {
            assert(world.same_components(&wc));
            let sp = usable(&w0, intent) && w0.is_player(user) && w0.names@[intent.item.id as int] is Some;
            assert(sp == speak);
            assert(log_view(world) =~= log_view(&w0) + use_lines(&w0, map, user, intent, blast_view(*blast)));
        }
        used
    }

    /// For each live entity with a use intent on a target cell with an area-of-effect
    /// item: the cell and the blast radius whose field-of-view sweep the use needs.
    pub fn blast_requests(world: &World) -> (r: Vec<Option<(Point, i32)>>)
        requires
            world.wf(),
        ensures
            r@.len() == world.len(),
            forall|i: int| 0 <= i < world.len() ==> (#[trigger] r@[i] is Some <==> {
                &&& world.alive@[i]
                &&& world.wants_to_use@[i] matches Some(u)
                &&& u.target is Some
                &&& usable(world, u)
                &&& item_spec(world, u).area_of_effect is Some
            }),
            forall|i: int| 0 <= i < world.len() && #[trigger] r@[i] is Some ==> r@[i]->Some_0 == (
                world.wants_to_use@[i]->Some_0.target->Some_0,
                item_spec(world, world.wants_to_use@[i]->Some_0).area_of_effect->Some_0,
            ),
    {
        let mut r: Vec<Option<(Point, i32)>> = Vec::new();
        let n = world.alive.len();
        let mut i: usize = 0;
        while i < n
            invariant
                i <= n,
                n == world.len(),
                world.wf(),
                r@.len() == i,
                forall|j: int| 0 <= j < i ==> (#[trigger] r@[j] is Some <==> {
                    &&& world.alive@[j]
                    &&& world.wants_to_use@[j] matches Some(u)
                    &&& u.target is Some
                    &&& usable(world, u)
                    &&& item_spec(world, u).area_of_effect is Some
                }),
                forall|j: int| 0 <= j < i && #[trigger] r@[j] is Some ==> r@[j]->Some_0 == (
                    world.wants_to_use@[j]->Some_0.target->Some_0,
                    item_spec(world, world.wants_to_use@[j]->Some_0).area_of_effect->Some_0,
                ),
            decreases n - i,
        {
            let mut req: Option<(Point, i32)> = None;
            if world.alive[i] {
                if let Some(u) = world.wants_to_use[i] {
                    if let Some(t) = u.target {
                        if u.item.id < n && world.alive[u.item.id] {
                            if let Some(it) = world.items[u.item.id] {
                                if let Some(radius) = it.area_of_effect {
                                    req = Some((t, radius));
                                }
                            }
                        }
                    }
                }
            }
            r.push(req);
            i += 1;
        }
        r
    }

    /// Resolves every pending use intent, entity by entity in id order, then clears all
    /// use intents, whatever came of them. `blasts[i]` is the blast sweep for entity `i`.
    pub fn run(world: &mut World, map: &GameMap, blasts: &Vec<Option<Vec<Point>>>)
        requires
            old(world).wf(),
            map.wf(),
            blasts@.len() == old(world).len(),
        ensures
            use_pass_post(old(world), final(world), map, blasts@),
    {
        let n = world.alive.len();
        let ghost ws: Seq<World> = seq![*world];
        let mut i: usize = 0;
        while i < n
            invariant
                i <= n,
                n == old(world).len(),
                world.wf(),
                world.len() == n,
                world.wants_to_use@ == old(world).wants_to_use@,
                blasts@.len() == n,
                map.wf(),
                ws.len() == i + 1,
                ws[0] == *old(world),
                ws.last() == *world,
                use_steps(ws, map, blasts@, i as int),
            decreases n - i,
        {
            let ghost prev = *world;
            let ghost ws0 = ws;
            let ghost mut stepped_used = false;
            if world.alive[i] {
                if let Some(u) = world.wants_to_use[i] {
                    let used = Self::use_item(world, map, Entity { id: i }, u, &blasts[i]);
                    proof { stepped_used = used; }
                    assert(use_applied(&prev, world, map, Entity { id: i }, u, blast_view(blasts@[i as int]), stepped_used));
                }
            }
            proof {
                ws = ws.push(*world);
                assert forall|k: int| 0 <= k < i + 1 implies {
                    let w = #[trigger] ws[k];
                    let next = ws[k + 1];
                    if w.alive@[k] && w.wants_to_use@[k] is Some {
                        &&& next.wants_to_use@ == w.wants_to_use@
                        &&& exists|used: bool| #[trigger] use_applied(&w, &next, map, Entity { id: k as usize }, w.wants_to_use@[k]->Some_0, blast_view(blasts@[k]), used)
                    } else {
                        next == w
                    }
                } by {
                    assert(ws[k] == ws0[k]);
                    if k < i {
                        assert(ws[k + 1] == ws0[k + 1]);
                    } else {
                        assert(ws[k] == prev);
                        assert(ws[k + 1] == *world);
                        if prev.alive@[k] && prev.wants_to_use@[k] is Some {
                            let u = prev.wants_to_use@[k]->Some_0;
                            assert(Entity { id: k as usize } == Entity { id: i });
                            assert(use_applied(&prev, world, map, Entity { id: k as usize }, u, blast_view(blasts@[k]), stepped_used));
                        }
                    }
                }
            }
            i += 1;
        }
        let ghost last = *world;
        let mut j: usize = 0;
        while j < n
            invariant
                j <= n,
                n == last.len(),
                world.wf(),
                world.len() == n,
                world.alive@ == last.alive@,
                world.pending_delete@ == last.pending_delete@,
                world.player == last.player,
                world.log@ == last.log@,
                world.positions@ == last.positions@,
                world.viewsheds@ == last.viewsheds@,
                world.combat_stats@ == last.combat_stats@,
                world.names@ == last.names@,
                world.items@ == last.items@,
                world.confusion@ == last.confusion@,
                world.suffer_damage@ == last.suffer_damage@,
                world.wants_to_drop@ == last.wants_to_drop@,
                forall|k: int| 0 <= k < j ==> #[trigger] world.wants_to_use@[k] is None,
            decreases n - j,
        {
            world.wants_to_use.set(j, None);
            j += 1;
        }
        assert(ws.last() == last);
    }
}

} // verus!
