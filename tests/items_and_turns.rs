use goblin_war_party::components::{CombatStats, Entity, Item, Point, WantsToDrop, WantsToUseItem};
use goblin_war_party::damage_system::{delete_the_dead, DamageSystem};
use goblin_war_party::drop_system::ItemDropSystem;
use goblin_war_party::item_use_system::ItemUseSystem;
use goblin_war_party::map_indexing_system::MapIndexingSystem;
use goblin_war_party::map::{GameMap, TileType};
use goblin_war_party::scheduler::SysRunner;
use goblin_war_party::state::{
    ItemMenuResult, MainMenuResult, MainMenuSelection, RangedTargetResult, RunState, RunStateHolder, State, TickAction,
    TickInput,
};
use goblin_war_party::world::World;

fn stats(hp: i32, max_hp: i32) -> CombatStats {
    CombatStats { max_hp, hp, defense: 1, power: 4 }
}

fn plain_item() -> Item {
    Item { consumable: true, healing: None, damage: None, confusion: None, area_of_effect: None, ranged: None }
}

fn spawn(w: &mut World, m: &mut GameMap, name: &str, x: i32, y: i32, hp: i32, max_hp: i32) -> Entity {
    let e = w.create_entity();
    w.insert_position(e, Point::new(x, y));
    w.insert_combat_stats(e, stats(hp, max_hp));
    w.insert_name(e, name.to_string());
    m.add_occupant(Point::new(x, y), e);
    e
}

fn item(w: &mut World, name: &str, it: Item) -> Entity {
    let e = w.create_entity();
    w.insert_item(e, it);
    w.insert_name(e, name.to_string());
    e
}

/// Cells within Euclidean distance `r` of `(cx, cy)`: what a sweep sees on an open map.
fn open_sweep(cx: i32, cy: i32, r: i32) -> Vec<Point> {
    let mut v = Vec::new();
    for y in cy - r..=cy + r {
        for x in cx - r..=cx + r {
            let (dx, dy) = (x - cx, y - cy);
            if dx * dx + dy * dy <= r * r {
                v.push(Point::new(x, y));
            }
        }
    }
    v
}

#[test]
fn healing_is_clamped_to_max() {
    let mut w = World::new();
    let mut m = GameMap::new(10, 10, TileType::Floor);
    let p = spawn(&mut w, &mut m, "Player", 2, 2, 5, 10);
    w.set_player(p);
    let potion = item(&mut w, "Health Potion", Item { healing: Some(8), ..plain_item() });
    let used = ItemUseSystem::use_item(&mut w, &m, p, WantsToUseItem { item: potion, target: None }, &None);
    assert!(used);
    assert_eq!(w.combat_stats[p.id].unwrap().hp, 10);
    assert_eq!(w.log, vec!["You use Health Potion, healing 8 hp.".to_string()]);
    assert!(w.pending_delete[potion.id]);
}

#[test]
fn potion_at_full_health_is_still_consumed() {
    let mut w = World::new();
    let mut m = GameMap::new(10, 10, TileType::Floor);
    let p = spawn(&mut w, &mut m, "Player", 2, 2, 10, 10);
    w.set_player(p);
    let potion = item(&mut w, "Health Potion", Item { healing: Some(8), ..plain_item() });
    let used = ItemUseSystem::use_item(&mut w, &m, p, WantsToUseItem { item: potion, target: None }, &None);
    assert!(used);
    assert_eq!(w.combat_stats[p.id].unwrap().hp, 10);
    w.maintain();
    assert!(!w.alive[potion.id]);
}

#[test]
fn area_blast_hits_exactly_the_swept_cells() {
    let mut w = World::new();
    let mut m = GameMap::new(20, 20, TileType::Floor);
    let p = spawn(&mut w, &mut m, "Player", 1, 1, 10, 10);
    w.set_player(p);
    let near = spawn(&mut w, &mut m, "Orc", 11, 10, 10, 10);
    let far = spawn(&mut w, &mut m, "Goblin", 10, 14, 10, 10);
    let ball = item(&mut w, "Fireball Scroll", Item { damage: Some(20), area_of_effect: Some(2), ranged: Some(6), ..plain_item() });
    w.wants_to_use[p.id] = Some(WantsToUseItem { item: ball, target: Some(Point::new(10, 10)) });
    let requests = ItemUseSystem::blast_requests(&w);
    assert_eq!(requests[p.id], Some((Point::new(10, 10), 2)));
    let mut blasts = vec![None; w.alive.len()];
    blasts[p.id] = Some(open_sweep(10, 10, 2));
    ItemUseSystem::run(&mut w, &m, &blasts);
    assert_eq!(w.suffer_damage[near.id], vec![20]);
    assert!(w.suffer_damage[far.id].is_empty());
    assert!(w.suffer_damage[p.id].is_empty());
    assert!(w.wants_to_use.iter().all(|u| u.is_none()));
    assert_eq!(w.log, vec!["You use Fireball Scroll on Orc, inflicting 20 hp.".to_string()]);
}

#[test]
fn damage_from_two_sources_accumulates() {
    let mut w = World::new();
    let mut m = GameMap::new(10, 10, TileType::Floor);
    let p = spawn(&mut w, &mut m, "Player", 1, 1, 10, 10);
    w.set_player(p);
    let orc = spawn(&mut w, &mut m, "Orc", 4, 4, 10, 10);
    let mob = spawn(&mut w, &mut m, "Goblin", 6, 6, 10, 10);
    let bolt = item(&mut w, "Magic Missile Scroll", Item { damage: Some(8), ranged: Some(6), ..plain_item() });
    let dart = item(&mut w, "Dart", Item { damage: Some(3), ranged: Some(6), consumable: false, ..plain_item() });
    w.wants_to_use[p.id] = Some(WantsToUseItem { item: bolt, target: Some(Point::new(4, 4)) });
    w.wants_to_use[mob.id] = Some(WantsToUseItem { item: dart, target: Some(Point::new(4, 4)) });
    let blasts = vec![None; w.alive.len()];
    ItemUseSystem::run(&mut w, &m, &blasts);
    assert_eq!(w.suffer_damage[orc.id], vec![8, 3]);
    assert!(w.pending_delete[bolt.id]);
    assert!(!w.pending_delete[dart.id]);
    assert_eq!(w.log.len(), 1);
}

#[test]
fn confusion_is_given_and_logged() {
    let mut w = World::new();
    let mut m = GameMap::new(10, 10, TileType::Floor);
    let p = spawn(&mut w, &mut m, "Player", 1, 1, 10, 10);
    w.set_player(p);
    let orc = spawn(&mut w, &mut m, "Orc", 3, 3, 10, 10);
    let scroll = item(&mut w, "Confusion Scroll", Item { confusion: Some(4), ranged: Some(6), ..plain_item() });
    let used = ItemUseSystem::use_item(&mut w, &m, p, WantsToUseItem { item: scroll, target: Some(Point::new(3, 3)) }, &None);
    assert!(used);
    assert_eq!(w.confusion[orc.id], Some(4));
    assert_eq!(w.log, vec!["You use Confusion Scroll on Orc, confusing them.".to_string()]);
}

#[test]
fn missed_target_does_not_consume() {
    let mut w = World::new();
    let mut m = GameMap::new(10, 10, TileType::Floor);
    let p = spawn(&mut w, &mut m, "Player", 1, 1, 10, 10);
    w.set_player(p);
    let bolt = item(&mut w, "Magic Missile Scroll", Item { damage: Some(8), ranged: Some(6), ..plain_item() });
    let used = ItemUseSystem::use_item(&mut w, &m, p, WantsToUseItem { item: bolt, target: Some(Point::new(7, 7)) }, &None);
    assert!(!used);
    assert!(!w.pending_delete[bolt.id]);
    assert!(w.log.is_empty());
    let used = ItemUseSystem::use_item(&mut w, &m, p, WantsToUseItem { item: bolt, target: Some(Point::new(70, 7)) }, &None);
    assert!(!used);
}

#[test]
fn negative_damage_is_written_with_a_sign() {
    let mut w = World::new();
    let mut m = GameMap::new(10, 10, TileType::Floor);
    let p = spawn(&mut w, &mut m, "Player", 1, 1, 10, 10);
    w.set_player(p);
    spawn(&mut w, &mut m, "Orc", 3, 3, 10, 10);
    let odd = item(&mut w, "Odd Scroll", Item { damage: Some(-1207), ..plain_item() });
    ItemUseSystem::use_item(&mut w, &m, p, WantsToUseItem { item: odd, target: Some(Point::new(3, 3)) }, &None);
    assert_eq!(w.log, vec!["You use Odd Scroll on Orc, inflicting -1207 hp.".to_string()]);
}

fn session(w: World, m: GameMap, phase: RunState) -> State {
    State { ecs: w, map: m, systems: SysRunner::new(), run_state: RunStateHolder { run_state: phase } }
}

fn nothing(s: &State) -> Vec<Option<Vec<Point>>> {
    vec![None; s.ecs.alive.len()]
}

#[test]
fn damage_scroll_scenario() {
    let mut w = World::new();
    let mut m = GameMap::new(20, 20, TileType::Floor);
    let p = spawn(&mut w, &mut m, "Player", 5, 5, 30, 30);
    w.set_player(p);
    let goblin = spawn(&mut w, &mut m, "Goblin", 7, 5, 10, 10);
    let scroll = item(&mut w, "Scroll of Fireball", Item { damage: Some(4), area_of_effect: Some(2), ranged: Some(6), ..plain_item() });
    let mut s = session(w, m, RunState::ShowInventory);

    let none = nothing(&s);
    assert_eq!(s.tick(TickInput::ItemMenu(ItemMenuResult::Selected(scroll)), &none, &none), TickAction::Nothing);
    assert_eq!(s.get_run_state(), RunState::ShowTargeting { range: 6, item: scroll, radius: None });

    s.tick(TickInput::Target(RangedTargetResult::Selected(Point::new(7, 5))), &none, &none);
    assert_eq!(s.get_run_state(), RunState::PlayerTurn);
    assert_eq!(s.ecs.wants_to_use[p.id], Some(WantsToUseItem { item: scroll, target: Some(Point::new(7, 5)) }));

    let mut blasts = nothing(&s);
    blasts[p.id] = Some(open_sweep(7, 5, 2));
    ItemUseSystem::run(&mut s.ecs, &s.map, &blasts);
    assert_eq!(s.ecs.suffer_damage[goblin.id], vec![4]);
    assert!(s.ecs.log.contains(&"You use Scroll of Fireball on Goblin, inflicting 4 hp.".to_string()));
    assert!(s.ecs.pending_delete[scroll.id]);
    s.ecs.maintain();
    assert!(!s.ecs.alive[scroll.id]);
    assert_eq!(s.get_run_state(), RunState::PlayerTurn);
}

#[test]
fn player_turn_runs_the_whole_pass() {
    let mut w = World::new();
    let mut m = GameMap::new(20, 20, TileType::Floor);
    let p = spawn(&mut w, &mut m, "Player", 5, 5, 30, 30);
    w.set_player(p);
    let goblin = spawn(&mut w, &mut m, "Goblin", 7, 5, 10, 10);
    let weak = spawn(&mut w, &mut m, "Rat", 8, 5, 3, 3);
    let scroll = item(&mut w, "Scroll of Fireball", Item { damage: Some(4), area_of_effect: Some(1), ranged: Some(6), ..plain_item() });
    w.wants_to_use[p.id] = Some(WantsToUseItem { item: scroll, target: Some(Point::new(7, 5)) });
    let mut s = session(w, m, RunState::PlayerTurn);
    let none = nothing(&s);
    let mut blasts = nothing(&s);
    blasts[p.id] = Some(open_sweep(7, 5, 1));
    assert_eq!(s.tick(TickInput::Nothing, &none, &blasts), TickAction::Nothing);
    assert_eq!(s.get_run_state(), RunState::DecideTurn);
    assert_eq!(s.ecs.combat_stats[goblin.id].unwrap().hp, 6);
    assert_eq!(s.ecs.combat_stats[p.id].unwrap().hp, 30);
    assert!(s.ecs.suffer_damage.iter().all(|q| q.is_empty()));
    assert!(!s.ecs.alive[scroll.id]);
    assert!(!s.ecs.alive[weak.id]);
    assert!(s.ecs.alive[goblin.id]);
    assert!(s.ecs.wants_to_use.iter().all(|u| u.is_none()));
}

#[test]
fn menus_cancel_and_wait() {
    let mut w = World::new();
    let mut m = GameMap::new(5, 5, TileType::Floor);
    let p = spawn(&mut w, &mut m, "Player", 1, 1, 10, 10);
    w.set_player(p);
    let mut s = session(w, m, RunState::ShowInventory);
    let none = nothing(&s);
    s.tick(TickInput::ItemMenu(ItemMenuResult::NoResponse), &none, &none);
    assert_eq!(s.get_run_state(), RunState::ShowInventory);
    s.tick(TickInput::ItemMenu(ItemMenuResult::Cancel), &none, &none);
    assert_eq!(s.get_run_state(), RunState::AwaitingInput);
    s.tick(TickInput::Nothing, &none, &none);
    assert_eq!(s.get_run_state(), RunState::AwaitingInput);
    s.tick(TickInput::Decided(RunState::ShowDropItem), &none, &none);
    assert_eq!(s.get_run_state(), RunState::ShowDropItem);
    s.tick(TickInput::ItemMenu(ItemMenuResult::Cancel), &none, &none);
    assert_eq!(s.get_run_state(), RunState::AwaitingInput);
    s.set_run_state(RunState::ShowTargeting { range: 3, item: p, radius: None });
    s.tick(TickInput::Target(RangedTargetResult::Cancel), &none, &none);
    assert_eq!(s.get_run_state(), RunState::AwaitingInput);
    assert!(s.ecs.wants_to_use.iter().all(|u| u.is_none()));
}

#[test]
fn unaimed_item_and_drop_record_intents() {
    let mut w = World::new();
    let mut m = GameMap::new(5, 5, TileType::Floor);
    let p = spawn(&mut w, &mut m, "Player", 1, 1, 10, 10);
    w.set_player(p);
    let potion = item(&mut w, "Health Potion", Item { healing: Some(8), ..plain_item() });
    let mut s = session(w, m, RunState::ShowInventory);
    let none = nothing(&s);
    s.tick(TickInput::ItemMenu(ItemMenuResult::Selected(potion)), &none, &none);
    assert_eq!(s.get_run_state(), RunState::PlayerTurn);
    assert_eq!(s.ecs.wants_to_use[p.id], Some(WantsToUseItem { item: potion, target: None }));
    s.set_run_state(RunState::ShowDropItem);
    s.tick(TickInput::ItemMenu(ItemMenuResult::Selected(potion)), &none, &none);
    assert_eq!(s.get_run_state(), RunState::PlayerTurn);
    assert_eq!(s.ecs.wants_to_drop[p.id], Some(WantsToDrop { item: potion }));
}

#[test]
fn main_menu_and_save() {
    let w = World::new();
    let m = GameMap::new(5, 5, TileType::Floor);
    let mut s = session(w, m, RunState::MainMenu { menu_selection: MainMenuSelection::NewGame });
    let none = nothing(&s);
    let sel = |selected| TickInput::MainMenu(MainMenuResult::NoSelection { selected });
    assert_eq!(s.tick(sel(MainMenuSelection::Quit), &none, &none), TickAction::Nothing);
    assert_eq!(s.get_run_state(), RunState::MainMenu { menu_selection: MainMenuSelection::Quit });
    let pick = |selected| TickInput::MainMenu(MainMenuResult::Selected { selected });
    assert_eq!(s.tick(pick(MainMenuSelection::Quit), &none, &none), TickAction::Quit);
    assert_eq!(s.tick(pick(MainMenuSelection::LoadGame), &none, &none), TickAction::LoadGame);
    assert_eq!(s.get_run_state(), RunState::PreRun);
    s.set_run_state(RunState::MainMenu { menu_selection: MainMenuSelection::NewGame });
    assert_eq!(s.tick(pick(MainMenuSelection::NewGame), &none, &none), TickAction::NewGame);
    assert_eq!(s.get_run_state(), RunState::PreRun);
    s.tick(TickInput::Nothing, &none, &none);
    assert_eq!(s.get_run_state(), RunState::DecideTurn);
    s.set_run_state(RunState::SaveGame);
    assert_eq!(s.tick(TickInput::Nothing, &none, &none), TickAction::SaveGame);
    assert_eq!(s.get_run_state(), RunState::MainMenu { menu_selection: MainMenuSelection::LoadGame });
}

#[test]
fn only_player_and_world_turns_are_turns() {
    assert!(RunState::PlayerTurn.is_turn());
    assert!(RunState::WorldTurn.is_turn());
    assert!(!RunState::PreRun.is_turn());
    assert!(!RunState::AwaitingInput.is_turn());
    assert!(!RunState::SaveGame.is_turn());
}

#[test]
fn queued_damage_is_applied_and_cleared() {
    let mut w = World::new();
    let mut m = GameMap::new(5, 5, TileType::Floor);
    let orc = spawn(&mut w, &mut m, "Orc", 1, 1, 10, 10);
    w.suffer_damage[orc.id] = vec![3, 4];
    DamageSystem::run(&mut w);
    assert_eq!(w.combat_stats[orc.id].unwrap().hp, 3);
    assert!(w.suffer_damage[orc.id].is_empty());
    assert_eq!(DamageSystem::apply(i32::MIN + 1, &vec![5]), i32::MIN);
}

#[test]
fn dead_are_purged_but_not_the_player() {
    let mut w = World::new();
    let mut m = GameMap::new(5, 5, TileType::Floor);
    let p = spawn(&mut w, &mut m, "Player", 1, 1, 0, 10);
    w.set_player(p);
    let orc = spawn(&mut w, &mut m, "Orc", 2, 2, 0, 10);
    let rat = spawn(&mut w, &mut m, "Rat", 3, 3, 1, 10);
    delete_the_dead(&mut w);
    assert!(w.alive[p.id]);
    assert!(!w.alive[orc.id]);
    assert_eq!(w.combat_stats[orc.id], None);
    assert!(w.alive[rat.id]);
}

#[test]
fn occupancy_index_is_rebuilt_from_positions() {
    let mut w = World::new();
    let mut m = GameMap::new(5, 5, TileType::Floor);
    let a = spawn(&mut w, &mut m, "A", 1, 1, 5, 5);
    let b = spawn(&mut w, &mut m, "B", 1, 1, 5, 5);
    let c = spawn(&mut w, &mut m, "C", 2, 3, 5, 5);
    w.positions[a.id] = Some(Point::new(4, 4));
    w.positions[c.id] = Some(Point::new(9, 9));
    MapIndexingSystem::run(&w, &mut m);
    assert_eq!(m.tile_content[m.xy_idx(4, 4)], vec![a]);
    assert_eq!(m.tile_content[m.xy_idx(1, 1)], vec![b]);
    assert!(m.tile_content[m.xy_idx(2, 3)].is_empty());
    assert_eq!(m.tile_content.iter().map(|v| v.len()).sum::<usize>(), 2);
}

#[test]
fn drop_places_item_and_clears_intent() {
    let mut w = World::new();
    let mut m = GameMap::new(5, 5, TileType::Floor);
    let p = spawn(&mut w, &mut m, "Player", 2, 3, 10, 10);
    w.set_player(p);
    let potion = item(&mut w, "Health Potion", Item { healing: Some(8), ..plain_item() });
    w.wants_to_drop[p.id] = Some(WantsToDrop { item: potion });
    ItemDropSystem::run(&mut w);
    assert_eq!(w.positions[potion.id], Some(Point::new(2, 3)));
    assert!(w.wants_to_drop.iter().all(|d| d.is_none()));
}

#[test]
fn drop_intent_from_menu_is_resolved_by_the_pass() {
    let mut w = World::new();
    let mut m = GameMap::new(5, 5, TileType::Floor);
    let p = spawn(&mut w, &mut m, "Player", 1, 4, 10, 10);
    w.set_player(p);
    let potion = item(&mut w, "Health Potion", Item { healing: Some(8), ..plain_item() });
    let mut s = session(w, m, RunState::ShowDropItem);
    let none = nothing(&s);
    s.tick(TickInput::ItemMenu(ItemMenuResult::Selected(potion)), &none, &none);
    assert_eq!(s.get_run_state(), RunState::PlayerTurn);
    s.tick(TickInput::Nothing, &none, &none);
    assert_eq!(s.ecs.positions[potion.id], Some(Point::new(1, 4)));
    assert!(s.ecs.wants_to_drop[p.id].is_none());
    assert!(s.ecs.alive[potion.id]);
}
