use bevytor::hierarchy::{move_entity, Hierarchy, MoveEntity};
use bevytor::store::{
    EntityStore, TypeRegistry, FIXED_WIREFRAME_KEY, ORIGINAL_ID_KEY, WIREFRAME_KEY,
};
use bevytor::tree::{HoverEntity, NodeAction, TreeAction};

#[test]
fn spawn_assigns_increasing_indices() {
    let mut store = EntityStore::new();
    let a = store.spawn(None);
    let b = store.spawn(None);
    assert_eq!(a.index, 0);
    assert_eq!(b.index, 1);
    assert_eq!(a.generation, 0);
    assert!(store.is_valid(a));
    assert!(store.is_valid(b));
}

#[test]
fn despawn_then_spawn_reuses_slot_with_new_generation() {
    let mut store = EntityStore::new();
    let a = store.spawn(None);
    let _b = store.spawn(None);
    store.despawn_recursive(a);
    assert!(!store.is_valid(a));
    let c = store.spawn(None);
    assert_eq!(c.index, a.index);
    assert_eq!(c.generation, a.generation + 1);
    assert!(!store.is_valid(a));
    assert!(store.is_valid(c));
}

#[test]
fn selection_is_exclusive() {
    let mut store = EntityStore::new();
    let a = store.spawn(None);
    let b = store.spawn(None);
    let c = store.spawn(None);
    store.apply_select(a);
    store.apply_select(b);
    assert!(!store.is_selected(a));
    assert!(store.is_selected(b));
    assert!(!store.is_selected(c));
    let sel = store.selected_entity();
    assert!(matches!(sel, Some(e) if e == b));
}

#[test]
fn selection_moves_wireframe_unless_pinned() {
    let mut store = EntityStore::new();
    let a = store.spawn(None);
    let b = store.spawn(None);
    let pinned = store.spawn(None);
    store.slots[pinned.index as usize].components.push(FIXED_WIREFRAME_KEY);
    store.apply_select(a);
    assert!(store.has_component(a, WIREFRAME_KEY));
    store.apply_select(b);
    assert!(!store.has_component(a, WIREFRAME_KEY));
    assert!(store.has_component(b, WIREFRAME_KEY));
    store.apply_select(pinned);
    store.apply_select(a);
    assert!(store.has_component(pinned, WIREFRAME_KEY));
}

#[test]
fn move_reparents_and_detaches() {
    let mut store = EntityStore::new();
    let a = store.spawn(None);
    let b = store.spawn(None);
    move_entity(&mut store, MoveEntity(a, Some(b)));
    assert!(matches!(store.parent_of(a), Some(p) if p == b));
    move_entity(&mut store, MoveEntity(a, None));
    assert!(store.parent_of(a).is_none());
}

#[test]
fn move_action_through_hierarchy_dispatch() {
    let mut store = EntityStore::new();
    let registry = TypeRegistry::new();
    let a = store.spawn(None);
    let b = store.spawn(None);
    Hierarchy::apply_action(&mut store, &registry, TreeAction::Move(a, HoverEntity::Node(b)));
    assert!(matches!(store.parent_of(a), Some(p) if p == b));
    Hierarchy::apply_action(&mut store, &registry, TreeAction::Move(a, HoverEntity::Root));
    assert!(store.parent_of(a).is_none());
}

#[test]
fn remove_cascades_to_descendants() {
    let mut store = EntityStore::new();
    let a = store.spawn(None);
    let b = store.spawn(None);
    let c = store.spawn(None);
    let d = store.spawn(None);
    store.set_parent(b, a);
    store.set_parent(c, b);
    store.despawn_recursive(a);
    assert!(!store.is_valid(a));
    assert!(!store.is_valid(b));
    assert!(!store.is_valid(c));
    assert!(store.is_valid(d));
    // no orphaned parent links remain on live entities
    for slot in &store.slots {
        if slot.live {
            if let Some(p) = slot.parent {
                assert!(store.slots[p as usize].live);
            }
        }
    }
}

#[test]
fn clone_copies_registered_component_types_only() {
    let mut store = EntityStore::new();
    let mut registry = TypeRegistry::new();
    registry.register(10);
    registry.register(11);
    let e = store.spawn(Some(String::from("Cube")));
    store.slots[e.index as usize].components.push(10);
    store.slots[e.index as usize].components.push(11);
    let d = store.duplicate(&registry, e);
    assert!(store.has_component(d, 10));
    assert!(store.has_component(d, 11));
    assert_eq!(store.name_of(d).clone(), Some(String::from("Cube")));

    // a third, unregistered type is silently omitted from the clone
    let e2 = store.spawn(None);
    store.slots[e2.index as usize].components.push(10);
    store.slots[e2.index as usize].components.push(12);
    let d2 = store.duplicate(&registry, e2);
    assert!(store.has_component(d2, 10));
    assert!(!store.has_component(d2, 12));
}

#[test]
fn clone_action_selects_the_clone() {
    let mut store = EntityStore::new();
    let mut registry = TypeRegistry::new();
    registry.register(10);
    let e = store.spawn(None);
    store.slots[e.index as usize].components.push(10);
    store.apply_select(e);
    let cloned = Hierarchy::apply_action(
        &mut store,
        &registry,
        TreeAction::Node(NodeAction::Clone(e)),
    );
    let d = cloned.expect("clone action must report the new entity");
    assert!(store.is_selected(d));
    assert!(!store.is_selected(e));
    assert!(store.has_component(d, 10));
}

#[test]
fn remove_action_through_dispatch() {
    let mut store = EntityStore::new();
    let registry = TypeRegistry::new();
    let e = store.spawn(None);
    Hierarchy::apply_action(&mut store, &registry, TreeAction::Node(NodeAction::Remove(e)));
    assert!(!store.is_valid(e));
}

#[test]
fn stamp_marks_live_entities() {
    let mut store = EntityStore::new();
    let a = store.spawn(None);
    let b = store.spawn(None);
    store.stamp_original_ids();
    assert!(store.has_component(a, ORIGINAL_ID_KEY));
    assert!(store.has_component(b, ORIGINAL_ID_KEY));
}
