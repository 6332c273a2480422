use micro3d::ecs::{Component, ComponentKind, World};

#[derive(Debug, Clone, PartialEq)]
enum Part {
    Position(i32, i32),
    Health(u32),
}

const POSITION: ComponentKind = 0;
const HEALTH: ComponentKind = 1;

impl Component for Part {
    fn kind_of(&self) -> ComponentKind {
        self.kind()
    }

    fn kind(&self) -> ComponentKind {
        match self {
            Part::Position(..) => POSITION,
            Part::Health(_) => HEALTH,
        }
    }
}

#[test]
fn new_world_is_empty() {
    let world: World<Part> = World::new();
    assert!(world.entities().is_empty());
    assert_eq!(world.get_component(0, POSITION), None);
    let default_world: World<Part> = World::default();
    assert!(default_world.entities().is_empty());
}

#[test]
fn create_entity_hands_out_increasing_ids() {
    let mut world: World<Part> = World::new();
    assert_eq!(world.create_entity(), 0);
    assert_eq!(world.create_entity(), 1);
    assert_eq!(world.create_entity(), 2);
    assert_eq!(world.entities(), &[0, 1, 2]);
}

#[test]
fn component_reads_back_after_add() {
    let mut world: World<Part> = World::new();
    let e = world.create_entity();
    world.add_component(e, Part::Position(1, 2));
    world.add_component(e, Part::Health(7));
    assert_eq!(world.get_component(e, POSITION), Some(&Part::Position(1, 2)));
    assert_eq!(world.get_component(e, HEALTH), Some(&Part::Health(7)));
}

#[test]
fn add_replaces_component_of_same_kind() {
    let mut world: World<Part> = World::new();
    let e = world.create_entity();
    world.add_component(e, Part::Health(7));
    world.add_component(e, Part::Health(9));
    assert_eq!(world.get_component(e, HEALTH), Some(&Part::Health(9)));
    assert_eq!(world.query(HEALTH).len(), 1);
}

#[test]
fn add_leaves_other_entities_alone() {
    let mut world: World<Part> = World::new();
    let a = world.create_entity();
    let b = world.create_entity();
    world.add_component(a, Part::Health(1));
    world.add_component(b, Part::Health(2));
    assert_eq!(world.get_component(a, HEALTH), Some(&Part::Health(1)));
    assert_eq!(world.get_component(b, HEALTH), Some(&Part::Health(2)));
    assert_eq!(world.get_component(a, POSITION), None);
}

#[test]
fn get_component_mut_writes_through() {
    let mut world: World<Part> = World::new();
    let e = world.create_entity();
    world.add_component(e, Part::Health(3));
    if let Some(Part::Health(h)) = world.get_component_mut(e, HEALTH) {
        *h += 10;
    }
    assert_eq!(world.get_component(e, HEALTH), Some(&Part::Health(13)));
    assert!(world.get_component_mut(e, POSITION).is_none());
}

#[test]
fn remove_component_returns_it_and_forgets_it() {
    let mut world: World<Part> = World::new();
    let e = world.create_entity();
    world.add_component(e, Part::Position(4, 5));
    assert_eq!(world.remove_component(e, POSITION), Some(Part::Position(4, 5)));
    assert_eq!(world.get_component(e, POSITION), None);
    assert!(!world.has_component(e, POSITION));
    assert_eq!(world.remove_component(e, POSITION), None);
}

#[test]
fn has_component_matches_get() {
    let mut world: World<Part> = World::new();
    let e = world.create_entity();
    assert!(!world.has_component(e, HEALTH));
    world.add_component(e, Part::Health(1));
    assert!(world.has_component(e, HEALTH));
    assert!(!world.has_component(e, POSITION));
}

#[test]
fn query_lists_each_holder_once() {
    let mut world: World<Part> = World::new();
    let a = world.create_entity();
    let b = world.create_entity();
    let c = world.create_entity();
    world.add_component(a, Part::Health(1));
    world.add_component(b, Part::Position(0, 0));
    world.add_component(c, Part::Health(3));
    world.add_component(a, Part::Health(2));
    let mut found: Vec<(u32, Part)> = world
        .query(HEALTH)
        .into_iter()
        .map(|(e, p)| (e, p.clone()))
        .collect();
    found.sort_by_key(|(e, _)| *e);
    assert_eq!(found, vec![(a, Part::Health(2)), (c, Part::Health(3))]);
    assert!(world.query(7).is_empty());
}

#[test]
fn query_mut_writes_through() {
    let mut world: World<Part> = World::new();
    let a = world.create_entity();
    let b = world.create_entity();
    world.add_component(a, Part::Health(1));
    world.add_component(b, Part::Health(2));
    world.add_component(b, Part::Position(9, 9));
    for (_, part) in world.query_mut(HEALTH) {
        if let Part::Health(h) = part {
            *h *= 10;
        }
    }
    assert_eq!(world.get_component(a, HEALTH), Some(&Part::Health(10)));
    assert_eq!(world.get_component(b, HEALTH), Some(&Part::Health(20)));
    assert_eq!(world.get_component(b, POSITION), Some(&Part::Position(9, 9)));
}

#[test]
fn despawn_removes_entity_and_its_components() {
    let mut world: World<Part> = World::new();
    let a = world.create_entity();
    let b = world.create_entity();
    world.add_component(a, Part::Health(1));
    world.add_component(a, Part::Position(1, 1));
    world.add_component(b, Part::Health(2));
    world.despawn(a);
    assert_eq!(world.entities(), &[b]);
    assert!(!world.has_component(a, HEALTH));
    assert!(!world.has_component(a, POSITION));
    assert_eq!(world.get_component(b, HEALTH), Some(&Part::Health(2)));
    world.despawn(a);
    assert_eq!(world.entities(), &[b]);
}

#[test]
fn despawned_ids_are_not_reused() {
    let mut world: World<Part> = World::new();
    let a = world.create_entity();
    world.despawn(a);
    assert_eq!(world.create_entity(), 1);
}

#[test]
fn spawn_builds_entity_with_components() {
    let mut world: World<Part> = World::new();
    let builder = world.spawn().with(Part::Position(1, 2)).with(Part::Health(5));
    assert_eq!(builder.id(), 0);
    let id = builder.build();
    assert_eq!(id, 0);
    assert_eq!(world.entities(), &[0]);
    assert_eq!(world.get_component(id, POSITION), Some(&Part::Position(1, 2)));
    assert_eq!(world.get_component(id, HEALTH), Some(&Part::Health(5)));
    let second = world.spawn().build();
    assert_eq!(second, 1);
}

#[test]
fn remove_after_add_leaves_no_trace() {
    let mut world: World<Part> = World::new();
    let e = world.create_entity();
    world.add_component(e, Part::Position(1, 1));
    world.add_component(e, Part::Health(4));
    world.remove_component(e, HEALTH);
    assert_eq!(world.get_component(e, HEALTH), None);
    assert_eq!(world.get_component(e, POSITION), Some(&Part::Position(1, 1)));
    assert_eq!(world.query(HEALTH).len(), 0);
    assert_eq!(world.query(POSITION).len(), 1);
}

#[test]
fn next_entity_id_tracks_creation() {
    let mut world: World<Part> = World::new();
    assert_eq!(world.next_entity_id(), 0);
    let e = world.create_entity();
    assert_eq!(world.next_entity_id(), e + 1);
}

#[test]
fn query_count_grows_only_for_new_holders() {
    let mut world: World<Part> = World::new();
    let a = world.create_entity();
    let b = world.create_entity();
    world.add_component(a, Part::Health(1));
    assert_eq!(world.query(HEALTH).len(), 1);
    world.add_component(b, Part::Health(2));
    assert_eq!(world.query(HEALTH).len(), 2);
    world.add_component(a, Part::Health(3));
    assert_eq!(world.query(HEALTH).len(), 2);
    world.add_component(a, Part::Position(0, 0));
    assert_eq!(world.query(HEALTH).len(), 2);
    assert_eq!(world.query(POSITION).len(), 1);
}
