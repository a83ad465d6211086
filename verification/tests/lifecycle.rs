use ecs_core::demo::DemoComponent;
use ecs_core::demo::MARKER_TOKEN;
use ecs_core::demo::POSITION_TOKEN;
use ecs_core::entity::EcsError;
use ecs_core::world::GameWorld;

#[test]
fn ninety_update_ticks_advance_a_position_by_ninety() {
    let mut world: GameWorld<DemoComponent> = GameWorld::new();
    let e0 = world.component_storage.create_entity();
    world
        .component_storage
        .register_component(&e0, DemoComponent::Position { x: 0 })
        .unwrap();
    assert_eq!(world.component_storage.update_components(), Ok(()));
    assert_eq!(
        world.component_storage.peek_entity_component(&e0, POSITION_TOKEN),
        Ok(Some(DemoComponent::Position { x: 1 }))
    );
    for _ in 1..90 {
        assert_eq!(world.component_storage.update_components(), Ok(()));
    }
    assert_eq!(
        world.component_storage.peek_entity_component(&e0, POSITION_TOKEN),
        Ok(Some(DemoComponent::Position { x: 90 }))
    );
}

#[test]
fn setup_pass_runs_each_setup_hook_once() {
    let mut world: GameWorld<DemoComponent> = GameWorld::new();
    let e0 = world.component_storage.create_entity();
    world
        .component_storage
        .register_component(&e0, DemoComponent::Marker { stage: 0 })
        .unwrap();
    world
        .component_storage
        .register_component(&e0, DemoComponent::Position { x: 3 })
        .unwrap();
    assert_eq!(world.component_storage.setup_components(), Ok(()));
    assert_eq!(
        world.component_storage.peek_entity_component(&e0, MARKER_TOKEN),
        Ok(Some(DemoComponent::Marker { stage: 1 }))
    );
    // setup leaves a position alone, update leaves a marker alone
    assert_eq!(
        world.component_storage.peek_entity_component(&e0, POSITION_TOKEN),
        Ok(Some(DemoComponent::Position { x: 3 }))
    );
    assert_eq!(world.component_storage.update_components(), Ok(()));
    assert_eq!(
        world.component_storage.peek_entity_component(&e0, MARKER_TOKEN),
        Ok(Some(DemoComponent::Marker { stage: 1 }))
    );
    assert_eq!(
        world.component_storage.peek_entity_component(&e0, POSITION_TOKEN),
        Ok(Some(DemoComponent::Position { x: 4 }))
    );
}

#[test]
fn a_pass_conflicts_with_an_outstanding_borrow() {
    let mut world: GameWorld<DemoComponent> = GameWorld::new();
    let e0 = world.component_storage.create_entity();
    world
        .component_storage
        .register_component(&e0, DemoComponent::Position { x: 0 })
        .unwrap();
    assert_eq!(
        world.component_storage.get_entity_component(&e0, POSITION_TOKEN),
        Ok(Some(DemoComponent::Position { x: 0 }))
    );
    assert_eq!(
        world.component_storage.update_components(),
        Err(EcsError::BorrowConflict)
    );
    assert_eq!(
        world.component_storage.setup_components(),
        Err(EcsError::BorrowConflict)
    );
    assert_eq!(
        world.component_storage.release_entity_component(&e0, POSITION_TOKEN),
        Ok(())
    );
    assert_eq!(world.component_storage.update_components(), Ok(()));
    assert_eq!(
        world.component_storage.peek_entity_component(&e0, POSITION_TOKEN),
        Ok(Some(DemoComponent::Position { x: 1 }))
    );
}

#[test]
fn update_pass_covers_every_entity_of_a_type() {
    let mut world: GameWorld<DemoComponent> = GameWorld::new();
    let e0 = world.component_storage.create_entity();
    let e1 = world.component_storage.create_entity();
    world
        .component_storage
        .register_component(&e0, DemoComponent::Position { x: 100 })
        .unwrap();
    world
        .component_storage
        .register_component(&e1, DemoComponent::Position { x: 200 })
        .unwrap();
    assert_eq!(world.component_storage.update_components(), Ok(()));
    assert_eq!(
        world.component_storage.peek_entity_component(&e0, POSITION_TOKEN),
        Ok(Some(DemoComponent::Position { x: 101 }))
    );
    assert_eq!(
        world.component_storage.peek_entity_component(&e1, POSITION_TOKEN),
        Ok(Some(DemoComponent::Position { x: 201 }))
    );
}
