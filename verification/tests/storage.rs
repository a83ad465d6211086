use ecs_core::component::ComponentVec;
use ecs_core::demo::DemoComponent;
use ecs_core::demo::MARKER_TOKEN;
use ecs_core::demo::POSITION_TOKEN;
use ecs_core::entity::EcsError;
use ecs_core::entity::Entity;
use ecs_core::storage::ComponentStorage;

#[test]
fn entity_ids_strictly_increase_without_reuse() {
    let mut s: ComponentStorage<DemoComponent> = ComponentStorage::new();
    let e0 = s.create_entity();
    let e1 = s.create_entity();
    let e2 = s.create_entity();
    assert_eq!(e0.0, 0);
    assert_eq!(e1.0, 1);
    assert_eq!(e2.0, 2);
    assert_eq!(s.remove_entity(&e1), Ok(()));
    let e3 = s.create_entity();
    assert_eq!(e3.0, 3);
}

#[test]
fn registered_component_is_returned_and_other_type_is_absent() {
    let mut s: ComponentStorage<DemoComponent> = ComponentStorage::new();
    let e0 = s.create_entity();
    let id = s.register_component(&e0, DemoComponent::Position { x: 5 });
    assert_eq!(id, Ok(0));
    assert_eq!(
        s.get_entity_component(&e0, POSITION_TOKEN),
        Ok(Some(DemoComponent::Position { x: 5 }))
    );
    assert_eq!(s.release_entity_component(&e0, POSITION_TOKEN), Ok(()));
    assert_eq!(s.get_entity_component(&e0, MARKER_TOKEN), Ok(None));
}

#[test]
fn second_registration_shadows_and_orphan_stays_at_its_index() {
    let mut s: ComponentStorage<DemoComponent> = ComponentStorage::new();
    let e0 = s.create_entity();
    let id1 = s.register_component(&e0, DemoComponent::Position { x: 1 }).unwrap();
    let id2 = s.register_component(&e0, DemoComponent::Position { x: 2 }).unwrap();
    assert_eq!(id1, 0);
    assert_eq!(id2, 1);
    assert_eq!(
        s.get_entity_component(&e0, POSITION_TOKEN),
        Ok(Some(DemoComponent::Position { x: 2 }))
    );
    assert_eq!(s.release_entity_component(&e0, POSITION_TOKEN), Ok(()));
    let vec = s.get_component_vec(POSITION_TOKEN).unwrap();
    assert_eq!(vec.len(), 2);
    assert_eq!(vec.get(id1), Some(&DemoComponent::Position { x: 1 }));
    assert_eq!(vec.get(id2), Some(&DemoComponent::Position { x: 2 }));
    assert_eq!(vec.get(2), None);
}

#[test]
fn unknown_entity_is_absent_for_every_type() {
    let mut s: ComponentStorage<DemoComponent> = ComponentStorage::new();
    let e0 = s.create_entity();
    s.register_component(&e0, DemoComponent::Position { x: 9 }).unwrap();
    let never_created = Entity(7);
    assert_eq!(s.get_entity_component(&never_created, POSITION_TOKEN), Ok(None));
    assert_eq!(s.get_entity_component(&never_created, MARKER_TOKEN), Ok(None));
    assert_eq!(s.remove_entity(&e0), Ok(()));
    assert_eq!(s.get_entity_component(&e0, POSITION_TOKEN), Ok(None));
    assert_eq!(s.get_entity_component(&e0, MARKER_TOKEN), Ok(None));
}

#[test]
fn register_on_unknown_entity_is_rejected() {
    let mut s: ComponentStorage<DemoComponent> = ComponentStorage::new();
    let never_created = Entity(3);
    assert_eq!(
        s.register_component(&never_created, DemoComponent::Position { x: 1 }),
        Err(EcsError::UnknownEntity)
    );
    let e0 = s.create_entity();
    assert_eq!(s.remove_entity(&e0), Ok(()));
    assert_eq!(
        s.register_component(&e0, DemoComponent::Position { x: 1 }),
        Err(EcsError::UnknownEntity)
    );
    assert_eq!(s.remove_entity(&e0), Err(EcsError::UnknownEntity));
}

#[test]
fn exclusive_borrow_conflicts_with_outstanding_borrows() {
    let mut s: ComponentStorage<DemoComponent> = ComponentStorage::new();
    let e0 = s.create_entity();
    s.register_component(&e0, DemoComponent::Position { x: 4 }).unwrap();
    // one shared borrow outstanding: exclusive conflicts, another shared is fine
    assert_eq!(
        s.get_entity_component(&e0, POSITION_TOKEN),
        Ok(Some(DemoComponent::Position { x: 4 }))
    );
    assert_eq!(
        s.get_entity_component_mut(&e0, POSITION_TOKEN),
        Err(EcsError::BorrowConflict)
    );
    assert_eq!(
        s.get_entity_component(&e0, POSITION_TOKEN),
        Ok(Some(DemoComponent::Position { x: 4 }))
    );
    assert_eq!(s.release_entity_component(&e0, POSITION_TOKEN), Ok(()));
    assert_eq!(s.release_entity_component(&e0, POSITION_TOKEN), Ok(()));
    // exclusive borrow outstanding: both kinds of acquisition conflict
    assert_eq!(
        s.get_entity_component_mut(&e0, POSITION_TOKEN),
        Ok(Some(DemoComponent::Position { x: 4 }))
    );
    assert_eq!(
        s.get_entity_component(&e0, POSITION_TOKEN),
        Err(EcsError::BorrowConflict)
    );
    assert_eq!(
        s.get_entity_component_mut(&e0, POSITION_TOKEN),
        Err(EcsError::BorrowConflict)
    );
    assert_eq!(s.peek_entity_component(&e0, POSITION_TOKEN), Err(EcsError::BorrowConflict));
    assert_eq!(
        s.release_entity_component_mut(&e0, POSITION_TOKEN, DemoComponent::Position { x: 40 }),
        Ok(())
    );
    assert_eq!(
        s.peek_entity_component(&e0, POSITION_TOKEN),
        Ok(Some(DemoComponent::Position { x: 40 }))
    );
}

#[test]
fn releasing_without_an_outstanding_borrow_is_a_conflict() {
    let mut s: ComponentStorage<DemoComponent> = ComponentStorage::new();
    let e0 = s.create_entity();
    s.register_component(&e0, DemoComponent::Marker { stage: 0 }).unwrap();
    assert_eq!(
        s.release_entity_component(&e0, MARKER_TOKEN),
        Err(EcsError::BorrowConflict)
    );
    assert_eq!(
        s.release_entity_component_mut(&e0, MARKER_TOKEN, DemoComponent::Marker { stage: 1 }),
        Err(EcsError::BorrowConflict)
    );
    assert_eq!(
        s.release_entity_component(&e0, POSITION_TOKEN),
        Err(EcsError::BorrowConflict)
    );
}

#[test]
fn duplicate_collection_registration_is_rejected() {
    let mut s: ComponentStorage<DemoComponent> = ComponentStorage::new();
    assert_eq!(s.add_component_vec(ComponentVec::new(POSITION_TOKEN)), Ok(()));
    assert_eq!(
        s.add_component_vec(ComponentVec::new(POSITION_TOKEN)),
        Err(EcsError::DuplicateRegistration)
    );
    assert_eq!(s.add_component_vec(ComponentVec::new(MARKER_TOKEN)), Ok(()));
}

#[test]
fn removal_leaves_other_entities_untouched() {
    let mut s: ComponentStorage<DemoComponent> = ComponentStorage::new();
    let e0 = s.create_entity();
    let e1 = s.create_entity();
    s.register_component(&e0, DemoComponent::Position { x: 10 }).unwrap();
    s.register_component(&e1, DemoComponent::Position { x: 20 }).unwrap();
    assert_eq!(s.remove_entity(&e0), Ok(()));
    assert_eq!(s.get_entity_component(&e0, POSITION_TOKEN), Ok(None));
    assert_eq!(
        s.get_entity_component(&e1, POSITION_TOKEN),
        Ok(Some(DemoComponent::Position { x: 20 }))
    );
    assert_eq!(s.release_entity_component(&e1, POSITION_TOKEN), Ok(()));
}

#[test]
fn get_entities_tracks_creation_and_removal() {
    let mut s: ComponentStorage<DemoComponent> = ComponentStorage::new();
    let e0 = s.create_entity();
    let e1 = s.create_entity();
    let e2 = s.create_entity();
    assert_eq!(s.get_entities(), vec![Entity(0), Entity(1), Entity(2)]);
    assert_eq!(s.remove_entity(&e1), Ok(()));
    assert_eq!(s.get_entities(), vec![Entity(0), Entity(2)]);
    let _ = (e0, e2);
}
