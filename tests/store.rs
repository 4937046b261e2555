use std::cmp::Ordering;

use colstore::column::{Column, Row};
use colstore::entity::{AttachError, Entity};
use colstore::refs::COMPONENT_LIMIT;
use colstore::world::{World, QUERY_LIMIT};

const A: u128 = 0xA0;
const B: u128 = 0xB0;

fn windows(world: &World, key: &Vec<u128>) -> Option<Vec<Vec<usize>>> {
    let cursor = world.query(key)?;
    let mut out = Vec::new();
    for i in 0..cursor.len() {
        out.push(cursor.window(i));
    }
    Some(out)
}

#[test]
fn row_identity_is_entity_only() {
    let a = Row::new(5, "x");
    let b = Row::new(5, "y");
    let c = Row::new(6, "x");
    assert!(a == b);
    assert!(a != c);
    assert_eq!(a.entity, 5);
    assert_eq!(a.inner, "x");
}

#[test]
fn column_starts_empty_and_push_returns_slot() {
    let mut col: Column<u32> = Column::new(9);
    assert_eq!(col.id(), 9);
    assert_eq!(col.read().unwrap().len(), 0);
    {
        let mut g = col.write().unwrap();
        assert_eq!(g.id, 9);
        assert_eq!(g.push(Row::new(1, 10)), 0);
        assert_eq!(g.push(Row::new(2, 20)), 1);
        assert_eq!(g.push(Row::new(3, 30)), 2);
    }
    let r = col.read().unwrap();
    assert_eq!(r.id, 9);
    assert_eq!(r.len(), 3);
    assert_eq!(r.get(1).entity, 2);
    assert_eq!(r.get(1).inner, 20);
}

#[test]
fn columns_compare_by_id() {
    let a: Column<u8> = Column::new(1);
    let b: Column<u8> = Column::new(1);
    let c: Column<u8> = Column::new(2);
    assert!(a == b);
    assert!(a != c);
}

#[test]
fn attach_then_read_round_trip() {
    let mut world = World::new();
    let mut col: Column<u64> = world.new_component(A);
    let mut g = col.write().unwrap();
    let mut slots = Vec::new();
    for n in 0..5u64 {
        let e = world.new_entity(100 + n as u128);
        slots.push(e.add_component(&mut g, n * 11).unwrap());
    }
    drop(g);
    let r = col.read().unwrap();
    for (n, e) in world.entities.iter().enumerate() {
        let slot = e.slot_of(A).unwrap();
        assert_eq!(slot, slots[n]);
        assert_eq!(r.get(slot).entity, e.id);
        assert_eq!(r.get(slot).inner, n as u64 * 11);
    }
}

#[test]
fn attach_twice_is_refused_and_changes_nothing() {
    let mut col: Column<i32> = Column::new(A);
    let mut e = Entity::new(1);
    let mut g = col.write().unwrap();
    assert_eq!(e.add_component(&mut g, 7), Ok(0));
    assert_eq!(e.add_component(&mut g, 8), Err(AttachError::Duplicate));
    drop(g);
    assert_eq!(e.component_count(), 1);
    assert_eq!(e.component_ref(0), (A, 0));
    let r = col.read().unwrap();
    assert_eq!(r.len(), 1);
    assert_eq!(r.get(0).inner, 7);
}

#[test]
fn capacity_boundary() {
    let mut cols: Vec<Column<u8>> = (0..(COMPONENT_LIMIT as u128 + 1)).map(|i| Column::new(1000 + i)).collect();
    let mut e = Entity::new(1);
    for i in 0..COMPONENT_LIMIT {
        let mut g = cols[i].write().unwrap();
        assert_eq!(e.add_component(&mut g, i as u8), Ok(0));
    }
    assert_eq!(e.component_count(), COMPONENT_LIMIT);
    let mut g = cols[COMPONENT_LIMIT].write().unwrap();
    assert_eq!(e.add_component(&mut g, 99), Err(AttachError::CapacityExceeded));
    drop(g);
    assert_eq!(e.component_count(), COMPONENT_LIMIT);
    assert_eq!(cols[COMPONENT_LIMIT].read().unwrap().len(), 0);
}

#[test]
fn duplicate_wins_over_capacity() {
    let mut cols: Vec<Column<u8>> = (0..(COMPONENT_LIMIT as u128)).map(|i| Column::new(1000 + i)).collect();
    let mut e = Entity::new(1);
    for i in 0..COMPONENT_LIMIT {
        let mut g = cols[i].write().unwrap();
        e.add_component(&mut g, 0).unwrap();
    }
    let mut g = cols[3].write().unwrap();
    assert_eq!(e.add_component(&mut g, 1), Err(AttachError::Duplicate));
}

#[test]
fn slots_stay_put() {
    let mut world = World::new();
    let mut ca: Column<u8> = world.new_component(A);
    let mut cb: Column<u8> = world.new_component(B);
    let mut ga = ca.write().unwrap();
    let mut gb = cb.write().unwrap();
    let first = world.new_entity(1);
    first.add_component(&mut ga, 1).unwrap();
    let before = first.slot_of(A);
    first.add_component(&mut gb, 2).unwrap();
    for id in 2..6u128 {
        let e = world.new_entity(id);
        e.add_component(&mut ga, id as u8).unwrap();
    }
    world.new_query(&vec![A]);
    assert_eq!(world.entities[0].slot_of(A), before);
    assert_eq!(before, Some(0));
    assert_eq!(world.entities[0].slot_of(B), Some(0));
    assert_eq!(world.entities[0].component_ref(0), (A, 0));
    assert_eq!(world.entities[0].component_ref(1), (B, 0));
    drop(ga);
    assert_eq!(ca.read().unwrap().get(0).inner, 1);
}

fn scenario() -> World {
    let mut world = World::new();
    let mut ca: Column<&'static str> = world.new_component(A);
    let mut cb: Column<&'static str> = world.new_component(B);
    let mut ga = ca.write().unwrap();
    let mut gb = cb.write().unwrap();
    let e1 = world.new_entity(1);
    e1.add_component(&mut ga, "a1").unwrap();
    let e2 = world.new_entity(2);
    e2.add_component(&mut ga, "a2").unwrap();
    e2.add_component(&mut gb, "b2").unwrap();
    let e3 = world.new_entity(3);
    e3.add_component(&mut gb, "b3").unwrap();
    world
}

#[test]
fn concrete_scenario_three_entities() {
    let mut world = scenario();
    let ab = vec![A, B];
    world.new_query(&ab);
    assert_eq!(windows(&world, &ab), Some(vec![vec![1, 0]]));
    let a = vec![A];
    world.new_query(&a);
    assert_eq!(windows(&world, &a), Some(vec![vec![0], vec![1]]));
    let b = vec![B];
    world.new_query(&b);
    assert_eq!(windows(&world, &b), Some(vec![vec![0], vec![1]]));
}

#[test]
fn window_follows_key_order() {
    let mut world = scenario();
    let ba = vec![B, A];
    world.new_query(&ba);
    assert_eq!(windows(&world, &ba), Some(vec![vec![0, 1]]));
    // the key is matched exactly: the other order was never built
    assert_eq!(windows(&world, &vec![A, B]), None);
}

#[test]
fn query_before_build_is_a_miss() {
    let world = scenario();
    assert!(world.query(&vec![A]).is_none());
}

#[test]
fn query_on_unknown_column_is_empty() {
    let mut world = scenario();
    let key = vec![0xFF];
    world.new_query(&key);
    assert_eq!(windows(&world, &key), Some(vec![]));
    let empty = world.query(&key).unwrap();
    assert_eq!(empty.len(), 0);
    assert_eq!(empty.width, 1);
}

#[test]
fn built_query_is_a_snapshot() {
    let mut world = scenario();
    let a = vec![A];
    world.new_query(&a);
    let mut late: Column<u8> = Column::new(A);
    let mut g = late.write().unwrap();
    let e4 = world.new_entity(4);
    e4.add_component(&mut g, 4).unwrap();
    drop(g);
    world.new_query(&a);
    assert_eq!(windows(&world, &a), Some(vec![vec![0], vec![1]]));
    assert_eq!(world.entities.len(), 4);
}

#[test]
fn building_twice_changes_nothing() {
    let mut world = scenario();
    let ab = vec![A, B];
    world.new_query(&ab);
    let first = windows(&world, &ab);
    let cached = world.queries.len();
    world.new_query(&ab);
    assert_eq!(windows(&world, &ab), first);
    assert_eq!(world.queries.len(), cached);
    assert_eq!(world.queries.len(), 1);
}

#[test]
fn query_over_many_entities() {
    let mut world = World::new();
    let mut ca: Column<u32> = world.new_component(A);
    let mut cb: Column<u32> = world.new_component(B);
    let mut ga = ca.write().unwrap();
    let mut gb = cb.write().unwrap();
    for id in 0..10u128 {
        let e = world.new_entity(id);
        if id % 2 == 0 {
            e.add_component(&mut ga, id as u32).unwrap();
        }
        if id % 3 == 0 {
            e.add_component(&mut gb, id as u32).unwrap();
        }
    }
    let ab = vec![A, B];
    world.new_query(&ab);
    // entities 0 and 6 hold both: A slots 0 and 3, B slots 0 and 2
    assert_eq!(windows(&world, &ab), Some(vec![vec![0, 0], vec![3, 2]]));
}

#[test]
fn registry_tracks_columns() {
    let mut world = World::new();
    assert!(!world.has_component(A));
    let col: Column<u8> = world.new_component(A);
    assert_eq!(col.id(), A);
    assert!(world.has_component(A));
    assert!(!world.has_component(B));
    assert_eq!(world.components, vec![A]);
}

#[test]
fn new_entity_has_no_components() {
    let mut world = World::new();
    let e = world.new_entity(42);
    assert_eq!(e.id, 42);
    assert_eq!(e.component_count(), 0);
    assert_eq!(e.slot_of(A), None);
    assert!(Entity::new(42) == Entity::new(42));
    assert!(Entity::new(42) != Entity::new(43));
}

#[test]
fn query_key_bound() {
    let mut world = scenario();
    let key: Vec<u128> = (0..QUERY_LIMIT as u128).collect();
    world.new_query(&key);
    assert_eq!(windows(&world, &key), Some(vec![]));
}

#[test]
fn ordering_follows_ids() {
    assert_eq!(Row::new(1, 9).partial_cmp(&Row::new(2, 0)), Some(Ordering::Less));
    assert_eq!(Row::new(3, 0).partial_cmp(&Row::new(3, 9)), Some(Ordering::Equal));
    assert!(Row::new(4, 0) > Row::new(3, 9));
    assert!(Entity::new(1) < Entity::new(2));
    let a: Column<u8> = Column::new(7);
    let b: Column<u8> = Column::new(5);
    assert_eq!(a.partial_cmp(&b), Some(Ordering::Greater));
    assert_eq!(colstore::ids::compare_ids(2, 2), Ordering::Equal);
}
