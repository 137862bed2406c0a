use vstd::prelude::*;

use crate::components::{Entity, Point, WantsToDrop, WantsToUseItem};
use crate::damage_system::{damage_post, dead_purged, delete_the_dead, DamageSystem};
use crate::item_use_system::{use_pass_post, use_steps, ItemUseSystem};
use crate::map_indexing_system::{index_post, MapIndexingSystem};
use crate::map::GameMap;
use crate::scheduler::{SysRunner, SystemId};
use crate::visibility_system::{reveal_kept, visibility_post, VisibilitySystem};
use crate::drop_system::{drop_post, ItemDropSystem};
use crate::world::World;

verus! {

#[derive(Clone, Copy, Debug, PartialEq, Eq, Structural)]
pub enum MainMenuSelection {
    NewGame,
    LoadGame,
    Quit,
}

/// The phase of a turn.
#[derive(Clone, Copy, Debug, PartialEq, Eq, Structural)]
pub enum RunState {
    AwaitingInput,
    PreRun,
    DecideTurn,
    WorldTurn,
    PlayerTurn,
    ShowInventory,
    ShowDropItem,
    ShowTargeting { range: i32, item: Entity, radius: Option<i32> },
    MainMenu { menu_selection: MainMenuSelection },
    SaveGame,
}

impl RunState {
    pub open spec fn is_turn_spec(&self) -> bool {
        self is PlayerTurn || self is WorldTurn
    }

    /// Whether the phase runs the systems as someone's turn.
    pub fn is_turn(&self) -> (r: bool)
        ensures
            r == self.is_turn_spec(),
    {
        match self {
            RunState::PlayerTurn | RunState::WorldTurn => true,
            _ => false,
        }
    }
}

/// Outcome of an item menu (inventory or drop).
#[derive(Clone, Copy, Debug, PartialEq, Eq, Structural)]
pub enum ItemMenuResult {
    Cancel,
    NoResponse,
    Selected(Entity),
}

/// Outcome of picking a target cell.
#[derive(Clone, Copy, Debug, PartialEq, Eq, Structural)]
pub enum RangedTargetResult {
    Cancel,
    NoResponse,
    Selected(Point),
}

/// Outcome of the main menu.
#[derive(Clone, Copy, Debug, PartialEq, Eq, Structural)]
pub enum MainMenuResult {
    NoSelection { selected: MainMenuSelection },
    Selected { selected: MainMenuSelection },
}

/// What the outside world reports for this tick.
#[derive(Clone, Copy, Debug, PartialEq, Eq, Structural)]
pub enum TickInput {
    /// Nothing was reported.
    Nothing,
    /// The phase chosen by the input handler (awaiting input) or by the turn-order
    /// decision (deciding the turn).
    Decided(RunState),
    /// The inventory or drop menu's outcome.
    ItemMenu(ItemMenuResult),
    /// The targeting outcome.
    Target(RangedTargetResult),
    /// The main menu's outcome.
    MainMenu(MainMenuResult),
}

/// Outside work the tick asks for.
#[derive(Clone, Copy, Debug, PartialEq, Eq, Structural)]
pub enum TickAction {
    Nothing,
    NewGame,
    LoadGame,
    SaveGame,
    Quit,
}

pub struct RunStateHolder {
    pub run_state: RunState,
}

pub struct GlobalTurnTimeScore {
    pub time_score: u32,
}

/// An intent a transition records on the player.
#[derive(Clone, Copy, Debug, PartialEq, Eq, Structural)]
pub enum Intent {
    Nothing,
    Use(WantsToUseItem),
    Drop(WantsToDrop),
}

/// Range of `item` when it must be aimed before use.
pub open spec fn ranged_of(world: &World, item: Entity) -> Option<i32> {
    if item.id < world.len() && world.items@[item.id as int] is Some {
        world.items@[item.id as int]->Some_0.ranged
    } else {
        None
    }
}

/// The live player, if any.
pub open spec fn live_player(world: &World) -> bool {
    world.player matches Some(p) && world.is_alive(p)
}

/// The transition of the turn-state machine: next phase, outside action, and the
/// intent recorded on the player. Phases that run the systems are not covered here.
pub open spec fn transition(world: &World, state: RunState, input: TickInput) -> (RunState, TickAction, Intent) {
    match (state, input) {
        (RunState::AwaitingInput, TickInput::Decided(next)) => (next, TickAction::Nothing, Intent::Nothing),
        (RunState::DecideTurn, TickInput::Decided(next)) => (next, TickAction::Nothing, Intent::Nothing),
        (RunState::ShowInventory, TickInput::ItemMenu(ItemMenuResult::Cancel)) => (RunState::AwaitingInput, TickAction::Nothing, Intent::Nothing),
        (RunState::ShowInventory, TickInput::ItemMenu(ItemMenuResult::Selected(item))) => {
            match ranged_of(world, item) {
                Some(range) => (RunState::ShowTargeting { range, item, radius: None }, TickAction::Nothing, Intent::Nothing),
                None => if live_player(world) {
                    (RunState::PlayerTurn, TickAction::Nothing, Intent::Use(WantsToUseItem { item, target: None }))
                } else {
                    (state, TickAction::Nothing, Intent::Nothing)
                },
            }
        },
        (RunState::ShowDropItem, TickInput::ItemMenu(ItemMenuResult::Cancel)) => (RunState::AwaitingInput, TickAction::Nothing, Intent::Nothing),
        (RunState::ShowDropItem, TickInput::ItemMenu(ItemMenuResult::Selected(item))) => {
            if live_player(world) {
                (RunState::PlayerTurn, TickAction::Nothing, Intent::Drop(WantsToDrop { item }))
            } else {
                (state, TickAction::Nothing, Intent::Nothing)
            }
        },
        (RunState::ShowTargeting { .. }, TickInput::Target(RangedTargetResult::Cancel)) => (RunState::AwaitingInput, TickAction::Nothing, Intent::Nothing),
        (RunState::ShowTargeting { range, item, radius }, TickInput::Target(RangedTargetResult::Selected(p))) => {
            if live_player(world) {
                (RunState::PlayerTurn, TickAction::Nothing, Intent::Use(WantsToUseItem { item, target: Some(p) }))
            } else {
                (state, TickAction::Nothing, Intent::Nothing)
            }
        },
        (RunState::MainMenu { .. }, TickInput::MainMenu(MainMenuResult::NoSelection { selected })) =>
            (RunState::MainMenu { menu_selection: selected }, TickAction::Nothing, Intent::Nothing),
        (RunState::MainMenu { .. }, TickInput::MainMenu(MainMenuResult::Selected { selected })) => {
            match selected {
                MainMenuSelection::NewGame => (RunState::PreRun, TickAction::NewGame, Intent::Nothing),
                MainMenuSelection::LoadGame => (RunState::PreRun, TickAction::LoadGame, Intent::Nothing),
                MainMenuSelection::Quit => (state, TickAction::Quit, Intent::Nothing),
            }
        },
        (RunState::SaveGame, _) => (RunState::MainMenu { menu_selection: MainMenuSelection::LoadGame }, TickAction::SaveGame, Intent::Nothing),
        _ => (state, TickAction::Nothing, Intent::Nothing),
    }
}

/// Explored cells stay explored from `a` through `c`.
pub proof fn lemma_reveal_kept_trans(a: Seq<bool>, b: Seq<bool>, c: Seq<bool>)
    requires
        reveal_kept(a, b),
        reveal_kept(b, c),
    ensures
        reveal_kept(a, c),
{
    assert forall|k: int| 0 <= k < a.len() && #[trigger] a[k] implies c[k] by {
        assert(b[k]);
    }
}

/// What system `s` does in a pass, from world `w0` and map `m0` to `w1` and `m1`.
/// Systems whose logic lies outside this crate change nothing here.
pub open spec fn step_post(
    s: SystemId,
    w0: World,
    w1: World,
    m0: GameMap,
    m1: GameMap,
    sweeps: Seq<Option<Vec<Point>>>,
    blasts: Seq<Option<Vec<Point>>>,
) -> bool {
    match s {
        SystemId::MapIndexing => w1 == w0 && index_post(&w0, &m0, &m1),
        SystemId::Visibility => visibility_post(&w0, &w1, &m0, &m1, sweeps),
        SystemId::UseItem => m1 == m0 && use_pass_post(&w0, &w1, &m0, blasts),
        SystemId::Drop => m1 == m0 && drop_post(&w0, &w1),
        SystemId::Damage => m1 == m0 && damage_post(&w0, &w1),
        _ => w1 == w0 && m1 == m0,
    }
}

/// `ws` and `ms` walk a pass: step `k` is system `systems[k]`, run on what the steps
/// before it left, so each system sees every write of the systems before it.
pub open spec fn pass_steps(
    systems: Seq<SystemId>,
    ws: Seq<World>,
    ms: Seq<GameMap>,
    sweeps: Seq<Option<Vec<Point>>>,
    blasts: Seq<Option<Vec<Point>>>,
) -> bool {
    &&& ws.len() == systems.len() + 1
    &&& ms.len() == systems.len() + 1
    &&& forall|k: int| 0 <= k < systems.len() ==> #[trigger] step_post(systems[k], ws[k], ws[k + 1], ms[k], ms[k + 1], sweeps, blasts)
}

/// A whole pass: the systems in order, then the maintenance barrier.
pub open spec fn pass_post(
    systems: Seq<SystemId>,
    w0: World,
    m0: GameMap,
    w1: World,
    m1: GameMap,
    sweeps: Seq<Option<Vec<Point>>>,
    blasts: Seq<Option<Vec<Point>>>,
) -> bool {
    exists|ws: Seq<World>, ms: Seq<GameMap>| {
        &&& ws.len() > 0
        &&& ws[0] == w0
        &&& ms[0] == m0
        &&& #[trigger] pass_steps(systems, ws, ms, sweeps, blasts)
        &&& World::maintain_post(ws.last(), w1)
        &&& m1 == ms.last()
    }
}

/// Deletions wait for the barrier: at every step of a pass, each entity alive at the
/// start is still alive, every deletion queued so far is still queued, and every
/// component the entity held is still there to read, for the systems before and after
/// the one that deleted it. Only `maintain`, after the last step, removes them.
pub proof fn lemma_pass_keeps_entities(
    systems: Seq<SystemId>,
    ws: Seq<World>,
    ms: Seq<GameMap>,
    sweeps: Seq<Option<Vec<Point>>>,
    blasts: Seq<Option<Vec<Point>>>,
    k: int,
)
    requires
        pass_steps(systems, ws, ms, sweeps, blasts),
        ws[0].wf(),
        0 <= k < ws.len(),
    ensures
        ws[k].wf(),
        ws[k].alive@ == ws[0].alive@,
        ws[k].pending_delete@.len() == ws[0].pending_delete@.len(),
        forall|i: int| 0 <= i < ws[0].pending_delete@.len() && #[trigger] ws[0].pending_delete@[i] ==> ws[k].pending_delete@[i],
        forall|i: int| 0 <= i < ws[0].len() ==> #[trigger] ws[0].keeps_components(&ws[k], i),
    decreases k,
{
    if k > 0 {
        let j = k - 1;
        lemma_pass_keeps_entities(systems, ws, ms, sweeps, blasts, j);
        assert(step_post(systems[j], ws[j], ws[j + 1], ms[j], ms[j + 1], sweeps, blasts));
        lemma_step_keeps_entities(systems[j], ws[j], ws[j + 1], ms[j], ms[j + 1], sweeps, blasts);
        assert forall|i: int| 0 <= i < ws[0].pending_delete@.len() && #[trigger] ws[0].pending_delete@[i] implies ws[k].pending_delete@[i] by {
            assert(ws[j].pending_delete@[i]);
        }
        assert forall|i: int| 0 <= i < ws[0].len() implies #[trigger] ws[0].keeps_components(&ws[k], i) by {
            assert(ws[0].keeps_components(&ws[j], i));
            assert(ws[j].keeps_components(&ws[k], i));
        }
    } else {
        assert forall|i: int| 0 <= i < ws[0].len() implies #[trigger] ws[0].keeps_components(&ws[k], i) by {}
    }
}

#[verifier::spinoff_prover]
proof fn lemma_step_keeps_entities(
    s: SystemId,
    w0: World,
    w1: World,
    m0: GameMap,
    m1: GameMap,
    sweeps: Seq<Option<Vec<Point>>>,
    blasts: Seq<Option<Vec<Point>>>,
)
    requires
        w0.wf(),
        step_post(s, w0, w1, m0, m1, sweeps, blasts),
    ensures
        w1.wf(),
        w1.alive@ == w0.alive@,
        w1.pending_delete@.len() == w0.pending_delete@.len(),
        forall|i: int| 0 <= i < w0.pending_delete@.len() && #[trigger] w0.pending_delete@[i] ==> w1.pending_delete@[i],
        forall|i: int| 0 <= i < w0.len() ==> #[trigger] w0.keeps_components(&w1, i),
{
    if s == SystemId::UseItem {
        lemma_use_pass_keeps_entities(&w0, &w1, &m0, blasts);
    } else if s == SystemId::Drop {
        assert forall|i: int| 0 <= i < w0.len() implies #[trigger] w0.keeps_components(&w1, i) by {
            if w0.positions@[i] is Some {
                crate::drop_system::lemma_positions_after_drops_keep(&w0, w0.len() as int, i);
            }
        }
    } else if s == SystemId::Visibility {
        assert forall|i: int| 0 <= i < w0.len() implies #[trigger] w0.keeps_components(&w1, i) by {
            assert(w1.viewsheds@[i] == w1.viewsheds@[i]);
        }
    } else if s == SystemId::Damage {
        assert forall|i: int| 0 <= i < w0.len() implies #[trigger] w0.keeps_components(&w1, i) by {
            assert(w1.combat_stats@[i] == w1.combat_stats@[i]);
        }
    } else {
        assert forall|i: int| 0 <= i < w0.len() implies #[trigger] w0.keeps_components(&w1, i) by {}
    }
}

#[verifier::spinoff_prover]
proof fn lemma_use_pass_keeps_entities(w0: &World, w1: &World, map: &GameMap, blasts: Seq<Option<Vec<Point>>>)
    requires
        w0.wf(),
        use_pass_post(w0, w1, map, blasts),
    ensures
        w1.alive@ == w0.alive@,
        w1.pending_delete@.len() == w0.pending_delete@.len(),
        forall|i: int| 0 <= i < w0.pending_delete@.len() && #[trigger] w0.pending_delete@[i] ==> w1.pending_delete@[i],
        forall|i: int| 0 <= i < w0.len() ==> #[trigger] w0.keeps_components(&w1, i),
{
    let ws = choose|ws: Seq<World>| {
        &&& ws.len() == w0.len() + 1
        &&& ws[0] == *w0
        &&& use_steps(ws, map, blasts, w0.len() as int)
        &&& w1.len() == ws.last().len()
        &&& w1.alive@ == ws.last().alive@
        &&& w1.pending_delete@ == ws.last().pending_delete@
        &&& w1.player == ws.last().player
        &&& w1.positions@ == ws.last().positions@
        &&& w1.viewsheds@ == ws.last().viewsheds@
        &&& w1.combat_stats@ == ws.last().combat_stats@
        &&& w1.names@ == ws.last().names@
        &&& w1.items@ == ws.last().items@
        &&& w1.confusion@ == ws.last().confusion@
    };
    lemma_use_steps_frame(ws, map, blasts, w0.len() as int);
    assert forall|i: int| 0 <= i < w0.len() implies #[trigger] w0.keeps_components(w1, i) by {
        assert(w0.keeps_components(&ws.last(), i));
    }
}

/// Runs system `s` on the world and map.
fn run_system(s: SystemId, world: &mut World, map: &mut GameMap, sweeps: &Vec<Option<Vec<Point>>>, blasts: &Vec<Option<Vec<Point>>>)
    requires
        old(world).wf(),
        old(map).wf(),
        sweeps@.len() == old(world).len(),
        blasts@.len() == old(world).len(),
    ensures
        step_post(s, *old(world), *final(world), *old(map), *final(map), sweeps@, blasts@),
        final(world).wf(),
        final(map).wf(),
        final(world).len() == old(world).len(),
        final(world).player == old(world).player,
        final(map).width == old(map).width,
        final(map).height == old(map).height,
        final(map).tiles@ == old(map).tiles@,
        reveal_kept(old(map).revealed_tiles@, final(map).revealed_tiles@),
{
    match s {
        SystemId::MapIndexing => {
            MapIndexingSystem::run(world, map);
        },
        SystemId::Visibility => {
            VisibilitySystem::run(world, map, sweeps);
        },
        SystemId::UseItem => {
            ItemUseSystem::run(world, map, blasts);
            proof {
                let ws = choose|ws: Seq<World>| {
                    &&& ws.len() == old(world).len() + 1
                    &&& ws[0] == *old(world)
                    &&& use_steps(ws, map, blasts@, old(world).len() as int)
                    &&& final(world).len() == ws.last().len()
                    &&& final(world).player == ws.last().player
                };
                lemma_use_steps_frame(ws, map, blasts@, old(world).len() as int);
            }
        },
        SystemId::Drop => {
            ItemDropSystem::run(world);
        },
        SystemId::Damage => {
            DamageSystem::run(world);
        },
        _ => {},
    }
}

#[verifier::spinoff_prover]
proof fn lemma_use_applied_keeps(
    w: &World,
    next: &World,
    map: &GameMap,
    user: Entity,
    intent: WantsToUseItem,
    blast: Option<Seq<Point>>,
    used: bool,
)
    requires
        w.wf(),
        crate::item_use_system::use_applied(w, next, map, user, intent, blast, used),
    ensures
        next.wf(),
        next.len() == w.len(),
        next.player == w.player,
        next.alive@ == w.alive@,
        next.pending_delete@.len() == w.pending_delete@.len(),
        forall|i: int| 0 <= i < w.pending_delete@.len() && #[trigger] w.pending_delete@[i] ==> next.pending_delete@[i],
        forall|i: int| 0 <= i < w.len() ==> #[trigger] w.keeps_components(&*next, i),
{
    let it = crate::item_use_system::item_spec(w, intent);
    let ts = crate::item_use_system::targets(w, map, user, intent, blast);
    let ok = crate::item_use_system::usable(w, intent);
    assert forall|i: int| 0 <= i < w.len() implies #[trigger] w.keeps_components(next, i) by {
        assert(w.alive@.len() == w.alive.len());
        assert(crate::item_use_system::entity_applied(w, next, it, ok, ts, Entity { id: i as usize }));
    }
}

#[verifier::spinoff_prover]
proof fn lemma_use_steps_frame(ws: Seq<World>, map: &GameMap, blasts: Seq<Option<Vec<Point>>>, n: int)
    requires
        0 <= n,
        ws.len() == n + 1,
        ws[0].wf(),
        crate::item_use_system::use_steps(ws, map, blasts, n),
    ensures
        ws.last().wf(),
        ws.last().len() == ws[0].len(),
        ws.last().player == ws[0].player,
        ws.last().alive@ == ws[0].alive@,
        ws.last().pending_delete@.len() == ws[0].pending_delete@.len(),
        forall|i: int| 0 <= i < ws[0].pending_delete@.len() && #[trigger] ws[0].pending_delete@[i] ==> ws.last().pending_delete@[i],
        forall|i: int| 0 <= i < ws[0].len() ==> #[trigger] ws[0].keeps_components(&ws.last(), i),
    decreases n,
{
    if n > 0 {
        let prefix = ws.take(n);
        assert forall|k: int| 0 <= k < n - 1 implies {
            let w = #[trigger] prefix[k];
            let next = prefix[k + 1];
            if w.alive@[k] && w.wants_to_use@[k] is Some {
                &&& next.wants_to_use@ == w.wants_to_use@
                &&& exists|used: bool| #[trigger] crate::item_use_system::use_applied(&w, &next, map, Entity { id: k as usize }, w.wants_to_use@[k]->Some_0, crate::item_use_system::blast_view(blasts[k]), used)
            } else {
                next == w
            }
        } by {
            assert(prefix[k] == ws[k]);
            assert(prefix[k + 1] == ws[k + 1]);
        }
        lemma_use_steps_frame(prefix, map, blasts, n - 1);
        let k = n - 1;
        assert(prefix.last() == ws[k]);
        let w = ws[k];
        let next = ws[k + 1];
        if w.alive@[k] && w.wants_to_use@[k] is Some {
            let used = choose|used: bool| #[trigger] crate::item_use_system::use_applied(&w, &next, map, Entity { id: k as usize }, w.wants_to_use@[k]->Some_0, crate::item_use_system::blast_view(blasts[k]), used);
            lemma_use_applied_keeps(&w, &next, map, Entity { id: k as usize }, w.wants_to_use@[k]->Some_0, crate::item_use_system::blast_view(blasts[k]), used);
        }
        assert(prefix[0] == ws[0]);
        assert forall|i: int| 0 <= i < ws[0].pending_delete@.len() && #[trigger] ws[0].pending_delete@[i] implies ws.last().pending_delete@[i] by {
            assert(w.pending_delete@[i]);
        }
        assert forall|i: int| 0 <= i < ws[0].len() implies #[trigger] ws[0].keeps_components(&ws.last(), i) by {
            assert(ws[0].keeps_components(&w, i));
            assert(w.keeps_components(&next, i));
        }
    } else {
        assert forall|i: int| 0 <= i < ws[0].len() implies #[trigger] ws[0].keeps_components(&ws.last(), i) by {}
    }
}

impl SysRunner {
    /// One pass: each registered system in registration order, each working on what the
    /// ones before it left, then the maintenance barrier applies every queued deletion.
    pub fn run(&self, world: &mut World, map: &mut GameMap, sweeps: &Vec<Option<Vec<Point>>>, blasts: &Vec<Option<Vec<Point>>>)
        requires
            old(world).wf(),
            old(map).wf(),
            sweeps@.len() == old(world).len(),
            blasts@.len() == old(world).len(),
        ensures
            pass_post(self.systems@, *old(world), *old(map), *final(world), *final(map), sweeps@, blasts@),
            final(world).wf(),
            final(map).wf(),
            final(map).width == old(map).width,
            final(map).height == old(map).height,
            final(map).tiles@ == old(map).tiles@,
            reveal_kept(old(map).revealed_tiles@, final(map).revealed_tiles@),
            final(world).len() == old(world).len(),
            final(world).player == old(world).player,
            forall|i: int| 0 <= i < final(world).len() ==> !#[trigger] final(world).pending_delete@[i],
    {
        let n = world.alive.len();
        let ghost ws: Seq<World> = seq![*world];
        let ghost ms: Seq<GameMap> = seq![*map];
        let mut i: usize = 0;
        while i < self.systems.len()
            invariant
                i <= self.systems@.len(),
                world.wf(),
                map.wf(),
                world.len() == n,
                n == old(world).len(),
                sweeps@.len() == n,
                blasts@.len() == n,
                world.player == old(world).player,
                map.width == old(map).width,
                map.height == old(map).height,
                map.tiles@ == old(map).tiles@,
                reveal_kept(old(map).revealed_tiles@, map.revealed_tiles@),
                ws.len() == i + 1,
                ms.len() == i + 1,
                ws[0] == *old(world),
                ms[0] == *old(map),
                ws.last() == *world,
                ms.last() == *map,
                forall|k: int| 0 <= k < i ==> #[trigger] step_post(self.systems@[k], ws[k], ws[k + 1], ms[k], ms[k + 1], sweeps@, blasts@),
            decreases self.systems@.len() - i,
        {
            let ghost rev0 = map.revealed_tiles@;
            let ghost (ws0, ms0) = (ws, ms);
            run_system(self.systems[i], world, map, sweeps, blasts);
            proof {
                lemma_reveal_kept_trans(old(map).revealed_tiles@, rev0, map.revealed_tiles@);
                ws = ws.push(*world);
                ms = ms.push(*map);
                assert forall|k: int| 0 <= k < i + 1 implies #[trigger] step_post(self.systems@[k], ws[k], ws[k + 1], ms[k], ms[k + 1], sweeps@, blasts@) by {
                    assert(ws[k] == ws0[k]);
                    assert(ms[k] == ms0[k]);
                    if k < i {
                        assert(ws[k + 1] == ws0[k + 1]);
                        assert(ms[k + 1] == ms0[k + 1]);
                    }
                }
            }
            i += 1;
        }
        let ghost before = *world;
        world.maintain();
        proof {
            assert(pass_steps(self.systems@, ws, ms, sweeps@, blasts@));
            assert(World::maintain_post(ws.last(), *world));
        }
        assert forall|j: int| 0 <= j < n implies !#[trigger] world.pending_delete@[j] by {
            assert(world.alive@[j] == (before.alive@[j] && !before.pending_delete@[j]));
        }
    }
}

/// `after` is `before` with the intent of a transition recorded on the player.
pub open spec fn intent_recorded(before: &World, after: &World, intent: Intent) -> bool {
    &&& after.wf()
    &&& after.len() == before.len()
    &&& after.player == before.player
    &&& after.alive@ == before.alive@
    &&& after.pending_delete@ == before.pending_delete@
    &&& after.positions@ == before.positions@
    &&& after.viewsheds@ == before.viewsheds@
    &&& after.combat_stats@ == before.combat_stats@
    &&& after.names@ == before.names@
    &&& after.items@ == before.items@
    &&& after.confusion@ == before.confusion@
    &&& after.suffer_damage@ == before.suffer_damage@
    &&& after.log@ == before.log@
    &&& after.wants_to_use@ == match intent {
        Intent::Use(u) => before.wants_to_use@.update(before.player->Some_0.id as int, Some(u)),
        _ => before.wants_to_use@,
    }
    &&& after.wants_to_drop@ == match intent {
        Intent::Drop(d) => before.wants_to_drop@.update(before.player->Some_0.id as int, Some(d)),
        _ => before.wants_to_drop@,
    }
}

/// The session: the world, its map, the system pass and the current phase.
pub struct State {
    pub ecs: World,
    pub map: GameMap,
    pub systems: SysRunner,
    pub run_state: RunStateHolder,
}

impl State {
    pub open spec fn wf(&self) -> bool {
        &&& self.ecs.wf()
        &&& self.map.wf()
        &&& self.systems.wf()
    }

    pub fn get_run_state(&mut self) -> (r: RunState)
        ensures
            r == old(self).run_state.run_state,
            *final(self) == *old(self),
    {
        self.run_state.run_state
    }

    pub fn set_run_state(&mut self, new_run_state: RunState)
        ensures
            final(self).run_state.run_state == new_run_state,
            final(self).ecs == old(self).ecs,
            final(self).map == old(self).map,
            final(self).systems == old(self).systems,
    {
        self.run_state.run_state = new_run_state;
    }

    /// Advances one tick. A turn phase (pre-run, player turn, world turn) runs the system
    /// pass and moves to deciding the turn; every other phase follows `transition`,
    /// recording the intent it names on the player. Either way the dead are purged at
    /// the end. `sweeps` and `blasts` are the field-of-view sweeps asked for by
    /// `VisibilitySystem::sweep_requests` and `ItemUseSystem::blast_requests`.
    pub fn tick(&mut self, input: TickInput, sweeps: &Vec<Option<Vec<Point>>>, blasts: &Vec<Option<Vec<Point>>>) -> (action: TickAction)
        requires
            old(self).wf(),
            sweeps@.len() == old(self).ecs.len(),
            blasts@.len() == old(self).ecs.len(),
        ensures
            final(self).wf(),
            final(self).systems == old(self).systems,
            final(self).ecs.player == old(self).ecs.player,
            final(self).ecs.len() == old(self).ecs.len(),
            reveal_kept(old(self).map.revealed_tiles@, final(self).map.revealed_tiles@),
            forall|i: int| 0 <= i < final(self).ecs.len() ==> !#[trigger] final(self).ecs.pending_delete@[i],
            ({
                let state = old(self).run_state.run_state;
                if state is PreRun || state is PlayerTurn || state is WorldTurn {
                    &&& final(self).run_state.run_state == RunState::DecideTurn
                    &&& action == TickAction::Nothing
                    &&& exists|w: World| pass_post(old(self).systems.systems@, old(self).ecs, old(self).map, w, final(self).map, sweeps@, blasts@)
                        && #[trigger] dead_purged(&w, &final(self).ecs)
                } else {
                    let (next, act, intent) = transition(&old(self).ecs, state, input);
                    &&& final(self).run_state.run_state == next
                    &&& action == act
                    &&& final(self).map == old(self).map
                    &&& exists|w: World| intent_recorded(&old(self).ecs, &w, intent) && #[trigger] dead_purged(&w, &final(self).ecs)
                }
            }),
    {
        let state = self.run_state.run_state;
        let action = match state {
            RunState::PreRun | RunState::PlayerTurn | RunState::WorldTurn => {
                self.systems.run(&mut self.ecs, &mut self.map, sweeps, blasts);
                self.run_state.run_state = RunState::DecideTurn;
                TickAction::Nothing
            },
            _ => self.decide(input),
        };
        let ghost w = self.ecs;
        delete_the_dead(&mut self.ecs);
        proof {
            assert(dead_purged(&w, &self.ecs));
            if state is PreRun || state is PlayerTurn || state is WorldTurn {
                assert(pass_post(old(self).systems.systems@, old(self).ecs, old(self).map, w, self.map, sweeps@, blasts@));
            }
            assert forall|i: int| 0 <= i < self.ecs.len() implies !#[trigger] self.ecs.pending_delete@[i] by {
                let gone = w.pending_delete@[i] || (w.alive@[i] && crate::damage_system::is_dead(&w, i));
                assert(self.ecs.alive@[i] == (w.alive@[i] && !gone));
            }
        }
        action
    }

    /// The phase change of a tick outside a turn phase, as `transition` gives it.
    fn decide(&mut self, input: TickInput) -> (action: TickAction)
        requires
            old(self).wf(),
            !(old(self).run_state.run_state is PreRun || old(self).run_state.run_state is PlayerTurn
                || old(self).run_state.run_state is WorldTurn),
        ensures
            final(self).wf(),
            final(self).systems == old(self).systems,
            final(self).map == old(self).map,
            ({
                let (next, act, intent) = transition(&old(self).ecs, old(self).run_state.run_state, input);
                &&& final(self).run_state.run_state == next
                &&& action == act
                &&& intent_recorded(&old(self).ecs, &final(self).ecs, intent)
            }),
    {
        let state = self.run_state.run_state;
        let player: Option<Entity> = match self.ecs.player {
            Some(p) => if self.ecs.alive[p.id] { Some(p) } else { None },
            None => None,
        };
        let mut next = state;
        let mut action = TickAction::Nothing;
        match (state, input) {
            (RunState::AwaitingInput, TickInput::Decided(s)) => { next = s; },
            (RunState::DecideTurn, TickInput::Decided(s)) => { next = s; },
            (RunState::ShowInventory, TickInput::ItemMenu(ItemMenuResult::Cancel)) => { next = RunState::AwaitingInput; },
            (RunState::ShowInventory, TickInput::ItemMenu(ItemMenuResult::Selected(item))) => {
                let ranged: Option<i32> = if item.id < self.ecs.items.len() {
                    match self.ecs.items[item.id] {
                        Some(it) => it.ranged,
                        None => None,
                    }
                } else {
                    None
                };
                match ranged {
                    Some(range) => { next = RunState::ShowTargeting { range, item, radius: None }; },
                    None => {
                        if let Some(p) = player {
                            self.ecs.wants_to_use.set(p.id, Some(WantsToUseItem { item, target: None }));
                            next = RunState::PlayerTurn;
                        }
                    },
                }
            },
            (RunState::ShowDropItem, TickInput::ItemMenu(ItemMenuResult::Cancel)) => { next = RunState::AwaitingInput; },
            (RunState::ShowDropItem, TickInput::ItemMenu(ItemMenuResult::Selected(item))) => {
                if let Some(p) = player {
                    self.ecs.wants_to_drop.set(p.id, Some(WantsToDrop { item }));
                    next = RunState::PlayerTurn;
                }
            },
            (RunState::ShowTargeting { .. }, TickInput::Target(RangedTargetResult::Cancel)) => { next = RunState::AwaitingInput; },
            (RunState::ShowTargeting { range, item, radius }, TickInput::Target(RangedTargetResult::Selected(target))) => {
                if let Some(p) = player {
                    self.ecs.wants_to_use.set(p.id, Some(WantsToUseItem { item, target: Some(target) }));
                    next = RunState::PlayerTurn;
                }
            },
            (RunState::MainMenu { .. }, TickInput::MainMenu(MainMenuResult::NoSelection { selected })) => {
                next = RunState::MainMenu { menu_selection: selected };
            },
            (RunState::MainMenu { .. }, TickInput::MainMenu(MainMenuResult::Selected { selected })) => {
                match selected {
                    MainMenuSelection::NewGame => { next = RunState::PreRun; action = TickAction::NewGame; },
                    MainMenuSelection::LoadGame => { next = RunState::PreRun; action = TickAction::LoadGame; },
                    MainMenuSelection::Quit => { action = TickAction::Quit; },
                }
            },
            (RunState::SaveGame, _) => {
                next = RunState::MainMenu { menu_selection: MainMenuSelection::LoadGame };
                action = TickAction::SaveGame;
            },
            _ => {},
        }
        self.run_state.run_state = next;
        action
    }
}

} // verus!
