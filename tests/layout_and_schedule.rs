use goblin_war_party::console_index::{check_console_index, ConsoleIndex};
use goblin_war_party::scheduler::{ScheduleError, SysRunner, SystemId};

#[test]
fn all_indices_run_base_layers_ui() {
    let idx = ConsoleIndex::standard();
    assert_eq!(idx.get_all_indices(), vec![0, 1, 2, 3, 4]);
}

#[test]
fn world_indices_with_and_without_base() {
    let idx = ConsoleIndex::standard();
    assert_eq!(idx.get_world_indices(true), vec![0, 1, 2, 3]);
    assert_eq!(idx.get_world_indices(false), vec![1, 2, 3]);
}

#[test]
fn console_index_check_accepts_planned_slots() {
    let idx = ConsoleIndex::standard();
    for (slot, planned) in idx.get_all_indices().into_iter().enumerate() {
        check_console_index(planned, slot);
    }
}

fn position(r: &SysRunner, s: SystemId) -> usize {
    r.systems.iter().position(|x| *x == s).unwrap()
}

#[test]
fn standard_pass_orders_dependencies_first() {
    let r = SysRunner::new();
    assert_eq!(r.systems.len(), 12);
    for (i, deps) in r.deps.iter().enumerate() {
        for d in deps {
            assert!(*d < i);
        }
    }
    assert!(position(&r, SystemId::MapIndexing) < position(&r, SystemId::Visibility));
    assert!(position(&r, SystemId::MonsterAi) < position(&r, SystemId::UseItem));
    assert!(position(&r, SystemId::UseItem) < position(&r, SystemId::Damage));
    assert!(position(&r, SystemId::MeleeCombat) < position(&r, SystemId::Damage));
    assert!(position(&r, SystemId::Damage) < position(&r, SystemId::Particle));
}

#[test]
fn registering_needs_known_dependencies() {
    let mut r = SysRunner::empty();
    assert_eq!(r.with(SystemId::Visibility, &vec![SystemId::MapIndexing]), Err(ScheduleError::UnknownDependency(SystemId::MapIndexing)));
    assert!(r.systems.is_empty());
    assert_eq!(r.with(SystemId::MapIndexing, &vec![]), Ok(()));
    assert_eq!(r.with(SystemId::Visibility, &vec![SystemId::MapIndexing]), Ok(()));
    assert_eq!(r.deps[1], vec![0]);
    assert_eq!(r.with(SystemId::MapIndexing, &vec![]), Err(ScheduleError::Duplicate(SystemId::MapIndexing)));
    assert_eq!(r.systems, vec![SystemId::MapIndexing, SystemId::Visibility]);
}

#[test]
fn writer_value_seen_by_later_reader_in_same_pass() {
    // A reader declared after a writer runs after it in the pass order; running the
    // pass in that order, the reader sees the value written in this pass.
    let mut r = SysRunner::empty();
    r.with(SystemId::MeleeCombat, &vec![]).unwrap();
    r.with(SystemId::Damage, &vec![SystemId::MeleeCombat]).unwrap();
    let mut shared = 0;
    let mut seen = -1;
    for pass in 1..4 {
        for s in r.systems.iter() {
            match s {
                SystemId::MeleeCombat => shared = pass,
                SystemId::Damage => seen = shared,
                _ => {}
            }
        }
        assert_eq!(seen, pass);
    }
}
