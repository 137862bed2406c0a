use goblin_war_party::components::{CombatStats, Entity, Point, Viewshed};
use goblin_war_party::map::{GameMap, TileType};
use goblin_war_party::visibility_system::{clip_to_map, VisibilitySystem};
use goblin_war_party::world::World;

fn stats(hp: i32, max_hp: i32) -> CombatStats {
    CombatStats { max_hp, hp, defense: 0, power: 0 }
}

#[test]
fn deleted_entity_stays_whole_until_maintain() {
    let mut w = World::new();
    let a = w.create_entity();
    let b = w.create_entity();
    w.positions[a.id] = Some(Point::new(1, 2));
    w.combat_stats[a.id] = Some(stats(3, 5));
    w.delete(a);
    assert!(w.alive[a.id]);
    assert_eq!(w.positions[a.id], Some(Point::new(1, 2)));
    assert_eq!(w.combat_stats[a.id], Some(stats(3, 5)));
    w.maintain();
    assert!(!w.alive[a.id]);
    assert!(!w.pending_delete[a.id]);
    assert_eq!(w.positions[a.id], None);
    assert_eq!(w.combat_stats[a.id], None);
    assert!(w.alive[b.id]);
}

#[test]
fn map_indexing_is_row_major() {
    let m = GameMap::new(10, 4, TileType::Floor);
    assert_eq!(m.tiles.len(), 40);
    assert_eq!(m.xy_idx(3, 2), 23);
    assert!(m.in_bounds(Point::new(9, 3)));
    assert!(!m.in_bounds(Point::new(10, 0)));
    assert!(!m.in_bounds(Point::new(0, -1)));
}

#[test]
fn sweep_is_clipped_to_the_map() {
    let m = GameMap::new(5, 5, TileType::Floor);
    let sweep = vec![Point::new(-1, 0), Point::new(0, 0), Point::new(4, 4), Point::new(5, 1)];
    assert_eq!(clip_to_map(&m, &sweep), vec![Point::new(0, 0), Point::new(4, 4)]);
}

fn viewer(w: &mut World, x: i32, y: i32) -> Entity {
    let e = w.create_entity();
    w.insert_position(e, Point::new(x, y));
    w.insert_viewshed(e, Viewshed { visible_tiles: vec![], range: 8, dirty: true });
    e
}

#[test]
fn player_sight_reveals_and_stays_revealed() {
    let mut w = World::new();
    let mut m = GameMap::new(8, 8, TileType::Floor);
    let p = viewer(&mut w, 1, 1);
    w.set_player(p);
    let requests = VisibilitySystem::sweep_requests(&w);
    assert_eq!(requests[p.id], Some((Point::new(1, 1), 8)));
    let first = vec![Point::new(1, 1), Point::new(2, 1), Point::new(-3, 1)];
    VisibilitySystem::run(&mut w, &mut m, &vec![Some(first)]);
    let v = w.viewsheds[p.id].as_ref().unwrap();
    assert!(!v.dirty);
    assert_eq!(v.visible_tiles, vec![Point::new(1, 1), Point::new(2, 1)]);
    assert!(m.is_visible(2, 1) && m.is_revealed(2, 1));
    assert!(!m.is_revealed(3, 3));

    w.viewsheds[p.id].as_mut().unwrap().dirty = true;
    VisibilitySystem::run(&mut w, &mut m, &vec![Some(vec![Point::new(3, 3)])]);
    assert!(m.is_visible(3, 3) && m.is_revealed(3, 3));
    assert!(!m.is_visible(2, 1));
    assert!(m.is_revealed(2, 1));
    for i in 0..m.visible_tiles.len() {
        assert!(!m.visible_tiles[i] || m.revealed_tiles[i]);
    }
}

#[test]
fn monster_sight_leaves_the_map_alone() {
    let mut w = World::new();
    let mut m = GameMap::new(8, 8, TileType::Floor);
    let p = viewer(&mut w, 1, 1);
    w.set_player(p);
    w.viewsheds[p.id].as_mut().unwrap().dirty = false;
    let mob = viewer(&mut w, 5, 5);
    VisibilitySystem::run(&mut w, &mut m, &vec![None, Some(vec![Point::new(5, 5), Point::new(6, 5)])]);
    assert_eq!(w.viewsheds[mob.id].as_ref().unwrap().visible_tiles, vec![Point::new(5, 5), Point::new(6, 5)]);
    assert!(m.revealed_tiles.iter().all(|r| !*r));
    assert!(m.visible_tiles.iter().all(|r| !*r));
    assert!(w.viewsheds[p.id].as_ref().unwrap().visible_tiles.is_empty());
}

#[test]
fn wall_glyphs_join_explored_neighbours() {
    let mut m = GameMap::new(3, 3, TileType::Floor);
    for (x, y) in [(1, 0), (1, 1), (0, 1), (2, 1)] {
        let idx = m.xy_idx(x, y);
        m.tiles[idx] = TileType::Wall;
    }
    assert_eq!(goblin_war_party::glyphs::get_wall_glyph(&m, 1, 1), '•');
    for i in 0..9 {
        m.revealed_tiles[i] = true;
    }
    assert_eq!(goblin_war_party::glyphs::get_wall_glyph(&m, 1, 1), '╩');
    assert_eq!(goblin_war_party::glyphs::get_wall_glyph(&m, 1, 0), '║');
    assert_eq!(goblin_war_party::glyphs::get_wall_glyph(&m, 0, 1), '═');
    assert_eq!(goblin_war_party::glyphs::get_wall_glyph(&m, 5, 1), '#');
    assert!(goblin_war_party::glyphs::is_revealed_wall(&m, 2, 1));
    assert!(!goblin_war_party::glyphs::is_revealed_wall(&m, 0, 0));
    assert!(!goblin_war_party::glyphs::is_revealed_wall(&m, -1, 0));
}
