//! The composition layer: one world owning one component storage.

use vstd::prelude::*;

use crate::component::Component;
use crate::storage::ComponentStorage;

verus! {

/// A world: the single public surface collaborators use. It owns exactly one
/// [`ComponentStorage`], through which every entity and component operation
/// is routed.
pub struct GameWorld<C> {
    /// The storage holding all component data and the entity registry.
    pub component_storage: ComponentStorage<C>,
}

impl<C: Component> GameWorld<C> {
    /// A world with an empty storage.
    pub fn new() -> (r: GameWorld<C>)
        ensures
            r.component_storage@.wf(),
            r.component_storage@.vecs.len() == 0,
            r.component_storage@.rows.len() == 0,
            r.component_storage@.next == 0,
            r.component_storage@.alive.len() == 0,
    {
        GameWorld { component_storage: ComponentStorage::new() }
    }
}

} // verus!
