use layer_ecs::driver::{run_tick, standard_schedule};
use layer_ecs::query::{AccessMode, AccessRequest, query};
use layer_ecs::schedule::{ComputationKind, Discipline, Stage};
use layer_ecs::store::{AttributeKind, AttributeValue, EcsError, EntityId, Store};
use layer_ecs::systems::{apply_rotation, recompute_stack_index, render_layers};

fn add_layer(store: &mut Store, name: &str, parent: Option<EntityId>) -> EntityId {
    let e = store.create_entity();
    store.attach(e, AttributeValue::LayerName(name.to_owned()));
    store.attach(e, AttributeValue::ParentRef(parent));
    store.attach(e, AttributeValue::StackIndex(0));
    store.attach(e, AttributeValue::RotationAngle(0));
    e
}

fn add_operation(store: &mut Store, delta: i64, target: EntityId) -> EntityId {
    let e = store.create_entity();
    store.attach(e, AttributeValue::RotationDelta(delta));
    store.attach(e, AttributeValue::TargetLayer(target));
    e
}

fn stack_index_of(store: &Store, e: EntityId) -> u64 {
    match store.get(e, AttributeKind::StackIndex) {
        Some(AttributeValue::StackIndex(z)) => z,
        other => panic!("expected a stack index, got {:?}", other),
    }
}

fn rotation_angle_of(store: &Store, e: EntityId) -> i64 {
    match store.get(e, AttributeKind::RotationAngle) {
        Some(AttributeValue::RotationAngle(a)) => a,
        other => panic!("expected a rotation angle, got {:?}", other),
    }
}

#[test]
fn concrete_scenario_two_ticks() {
    // One root with two children; one operation rotating the root by 0.5
    // units (500 thousandths) per tick.
    let mut store = Store::new();
    let parent = add_layer(&mut store, "parent", None);
    let first_child = add_layer(&mut store, "first_child", Some(parent));
    let second_child = add_layer(&mut store, "second_child", Some(parent));
    add_operation(&mut store, 500, parent);
    let schedule = standard_schedule();

    let out = run_tick(&mut store, &schedule).expect("first tick");
    assert_eq!(stack_index_of(&store, parent), 1);
    assert_eq!(stack_index_of(&store, first_child), 0);
    assert_eq!(stack_index_of(&store, second_child), 1);
    assert_eq!(rotation_angle_of(&store, parent), 500);
    assert_eq!(rotation_angle_of(&store, first_child), 0);
    assert_eq!(rotation_angle_of(&store, second_child), 0);
    assert_eq!(out.len(), 3);
    assert_eq!(out[0].name, "parent");
    assert_eq!(out[0].stack_index, 1);
    assert_eq!(out[0].rotation_angle, 500);
    assert_eq!(out[1].name, "first_child");
    assert_eq!(out[2].name, "second_child");

    run_tick(&mut store, &schedule).expect("second tick");
    assert_eq!(rotation_angle_of(&store, parent), 1000);
    // The hierarchy is static, so the orders are recomputed identically.
    assert_eq!(stack_index_of(&store, parent), 1);
    assert_eq!(stack_index_of(&store, first_child), 0);
    assert_eq!(stack_index_of(&store, second_child), 1);
}

#[test]
fn roots_numbered_from_one() {
    let mut store = Store::new();
    let a = add_layer(&mut store, "a", None);
    let b = add_layer(&mut store, "b", None);
    let c = add_layer(&mut store, "c", None);
    recompute_stack_index(&mut store);
    assert_eq!(stack_index_of(&store, a), 1);
    assert_eq!(stack_index_of(&store, b), 2);
    assert_eq!(stack_index_of(&store, c), 3);
}

#[test]
fn children_numbered_from_zero() {
    let mut store = Store::new();
    let root = add_layer(&mut store, "root", None);
    let other = add_layer(&mut store, "other", None);
    let c0 = add_layer(&mut store, "c0", Some(root));
    let d0 = add_layer(&mut store, "d0", Some(other));
    let c1 = add_layer(&mut store, "c1", Some(root));
    let c2 = add_layer(&mut store, "c2", Some(root));
    recompute_stack_index(&mut store);
    // Each parent counts its own children, interleaving does not matter.
    assert_eq!(stack_index_of(&store, c0), 0);
    assert_eq!(stack_index_of(&store, c1), 1);
    assert_eq!(stack_index_of(&store, c2), 2);
    assert_eq!(stack_index_of(&store, d0), 0);
    assert_eq!(stack_index_of(&store, root), 1);
    assert_eq!(stack_index_of(&store, other), 2);
}

#[test]
fn rotation_accumulates_across_ticks() {
    let mut store = Store::new();
    let layer = add_layer(&mut store, "spinner", None);
    add_operation(&mut store, 250, layer);
    add_operation(&mut store, -50, layer);
    let schedule = standard_schedule();
    run_tick(&mut store, &schedule).expect("tick");
    assert_eq!(rotation_angle_of(&store, layer), 200);
    run_tick(&mut store, &schedule).expect("tick");
    assert_eq!(rotation_angle_of(&store, layer), 400);
    run_tick(&mut store, &schedule).expect("tick");
    assert_eq!(rotation_angle_of(&store, layer), 600);
}

#[test]
fn dangling_target_fails_without_partial_update() {
    let mut store = Store::new();
    let layer = add_layer(&mut store, "layer", None);
    // A valid operation first, a dangling one after it: neither may apply.
    add_operation(&mut store, 100, layer);
    add_operation(&mut store, 100, 999);
    let schedule = standard_schedule();
    let r = run_tick(&mut store, &schedule);
    assert_eq!(r, Err(EcsError::DanglingReference));
    // All-or-nothing for the rotation computation: nothing was applied.
    assert_eq!(rotation_angle_of(&store, layer), 0);
    // The stacking computation ran before it and keeps its effect.
    assert_eq!(stack_index_of(&store, layer), 1);
}

#[test]
fn target_without_angle_is_dangling() {
    let mut store = Store::new();
    let bare = {
        let e = store.create_entity();
        store.attach(e, AttributeValue::LayerName("bare".to_owned()));
        e
    };
    add_operation(&mut store, 100, bare);
    let mut direct = store;
    let r = apply_rotation(&mut direct);
    assert_eq!(r, Err(EcsError::DanglingReference));
}

#[test]
fn conflicting_concurrent_stage_is_rejected() {
    // Two computations that both write the stacking order may not share a
    // concurrent stage.
    let r = Stage::new(
        "update".to_owned(),
        Discipline::Concurrent,
        vec![ComputationKind::RecomputeStackIndex, ComputationKind::RecomputeStackIndex],
    );
    assert!(matches!(r, Err(EcsError::AccessConflict)));
    // A reader of a written attribute conflicts too.
    let r = Stage::new(
        "mixed".to_owned(),
        Discipline::Concurrent,
        vec![ComputationKind::RecomputeStackIndex, ComputationKind::RenderLayers],
    );
    assert!(matches!(r, Err(EcsError::AccessConflict)));
    // The same pair is fine sequentially: conflicts are serialized there.
    let r = Stage::new(
        "sequential".to_owned(),
        Discipline::Sequential,
        vec![ComputationKind::RecomputeStackIndex, ComputationKind::RecomputeStackIndex],
    );
    assert!(r.is_ok());
    // The two update computations have disjoint access sets.
    let r = Stage::new(
        "update".to_owned(),
        Discipline::Concurrent,
        vec![ComputationKind::RecomputeStackIndex, ComputationKind::ApplyRotation],
    );
    assert!(r.is_ok());
}

#[test]
fn absent_attribute_is_reported_not_fatal() {
    let mut store = Store::new();
    let e = store.create_entity();
    assert_eq!(store.get(e, AttributeKind::LayerName), None);
    assert_eq!(store.fetch(e, AttributeKind::LayerName), Err(EcsError::MissingAttribute));
    // A lookup past the entities is a plain absence as well.
    assert_eq!(store.get(42, AttributeKind::StackIndex), None);
    store.attach(e, AttributeValue::LayerName("named".to_owned()));
    assert_eq!(
        store.fetch(e, AttributeKind::LayerName),
        Ok(AttributeValue::LayerName("named".to_owned())),
    );
}

#[test]
fn attach_overwrites_only_its_own_type() {
    let mut store = Store::new();
    let e = store.create_entity();
    store.attach(e, AttributeValue::StackIndex(3));
    store.attach(e, AttributeValue::RotationAngle(70));
    store.attach(e, AttributeValue::StackIndex(9));
    assert_eq!(store.get(e, AttributeKind::StackIndex), Some(AttributeValue::StackIndex(9)));
    assert_eq!(
        store.get(e, AttributeKind::RotationAngle),
        Some(AttributeValue::RotationAngle(70)),
    );
}

#[test]
fn query_selects_exactly_the_matching_entities() {
    let mut store = Store::new();
    let layer = add_layer(&mut store, "layer", None);
    let op = add_operation(&mut store, 10, layer);
    let half = store.create_entity();
    store.attach(half, AttributeValue::ParentRef(None));
    let shape = vec![
        AccessRequest { kind: AttributeKind::ParentRef, mode: AccessMode::Read },
        AccessRequest { kind: AttributeKind::StackIndex, mode: AccessMode::Write },
    ];
    // Only the full layer carries both requested attributes.
    assert_eq!(query(&store, &shape), vec![layer]);
    let op_shape = vec![
        AccessRequest { kind: AttributeKind::TargetLayer, mode: AccessMode::Read },
        AccessRequest { kind: AttributeKind::RotationDelta, mode: AccessMode::Read },
    ];
    assert_eq!(query(&store, &op_shape), vec![op]);
    // An empty shape matches every entity, in store-insertion order.
    assert_eq!(query(&store, &vec![]), vec![layer, op, half]);
}

#[test]
fn entity_without_stack_slot_is_not_a_sibling() {
    let mut store = Store::new();
    let root = add_layer(&mut store, "root", None);
    // Carries a parent but no stacking slot: the stacking query skips it.
    let half = store.create_entity();
    store.attach(half, AttributeValue::ParentRef(Some(root)));
    let child = add_layer(&mut store, "child", Some(root));
    recompute_stack_index(&mut store);
    assert_eq!(store.get(half, AttributeKind::StackIndex), None);
    // The skipped entity is not counted: the real child is still first.
    assert_eq!(stack_index_of(&store, child), 0);
}

#[test]
fn render_observes_only_full_layers_in_order() {
    let mut store = Store::new();
    let a = add_layer(&mut store, "a", None);
    add_operation(&mut store, 10, a);
    let b = add_layer(&mut store, "b", Some(a));
    store.attach(a, AttributeValue::RotationAngle(123));
    store.attach(a, AttributeValue::StackIndex(7));
    store.attach(b, AttributeValue::StackIndex(4));
    let out = render_layers(&store);
    assert_eq!(out.len(), 2);
    assert_eq!(out[0].name, "a");
    assert_eq!(out[0].stack_index, 7);
    assert_eq!(out[0].rotation_angle, 123);
    assert_eq!(out[1].name, "b");
    assert_eq!(out[1].stack_index, 4);
    assert_eq!(out[1].rotation_angle, 0);
}

#[test]
fn empty_store_ticks_cleanly() {
    let mut store = Store::new();
    let schedule = standard_schedule();
    let out = run_tick(&mut store, &schedule).expect("tick");
    assert!(out.is_empty());
}
