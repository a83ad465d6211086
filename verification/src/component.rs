//! Component capability and the per-type component collections.

use vstd::prelude::*;

use crate::storage::ComponentStorage;
use crate::storage::StorageView;

verus! {

/// One stored component instance together with its runtime borrow state: a
/// count of outstanding shared borrows and a flag for an outstanding
/// exclusive borrow.
pub struct Slot<C> {
    /// The component instance itself. While `taken` is set the stored value
    /// is stale: the current value is out with the exclusive borrower.
    pub value: C,
    /// How many shared borrows are outstanding on this instance.
    pub readers: usize,
    /// Whether an exclusive borrow is outstanding on this instance.
    pub taken: bool,
}

impl<C> Slot<C> {
    /// No borrow of any kind is outstanding on this instance.
    pub open spec fn free(self) -> bool {
        self.readers == 0 && !self.taken
    }
}

/// The capability a value needs to be stored in the system: a stable
/// type-identity token, and the two lifecycle hooks, `setup` (run once,
/// before the first update pass) and `update` (run once per tick), each given
/// read access to the rest of the world.
pub trait Component: Sized {
    /// The type-identity token of this value. All values of one logical
    /// component type carry the same token, and values of distinct component
    /// types carry distinct tokens.
    spec fn token(&self) -> u64;

    /// What `setup` turns this value into, given the world it observes.
    spec fn setup_spec(self, w: StorageView<Self>) -> Self;

    /// What `update` turns this value into, given the world it observes.
    spec fn update_spec(self, w: StorageView<Self>) -> Self;

    /// The type-identity token, computed at runtime.
    fn type_token(&self) -> (t: u64)
        ensures
            t == self.token(),
    ;

    /// An exact copy of this value. Shared borrows hand the caller a copy
    /// while the stored instance stays in place.
    fn dup(&self) -> (r: Self)
        ensures
            r == *self,
    ;

    /// The one-time lifecycle hook. `world` grants read access to the rest of
    /// the world; this value's own slot is marked exclusively borrowed there.
    fn setup(&mut self, world: &ComponentStorage<Self>)
        ensures
            *final(self) == old(self).setup_spec(world@),
            final(self).token() == old(self).token(),
    ;

    /// The per-tick lifecycle hook. `world` grants read access to the rest of
    /// the world; this value's own slot is marked exclusively borrowed there.
    fn update(&mut self, world: &ComponentStorage<Self>)
        ensures
            *final(self) == old(self).update_spec(world@),
            final(self).token() == old(self).token(),
    ;
}

/// A homogeneous, insertion-ordered, append-only collection of the instances
/// of exactly one component type, identified by that type's token. Once
/// inserted, an instance's position (its component id) never changes.
pub struct ComponentVec<C> {
    /// The type-identity token of the component type this collection holds.
    pub token: u64,
    /// The stored instances, in insertion order, each individually lockable.
    pub slots: Vec<Slot<C>>,
}

/// The mathematical content of a [`ComponentVec`].
#[verifier::ext_equal]
pub struct ComponentVecView<C> {
    pub token: u64,
    pub slots: Seq<Slot<C>>,
}

impl<C> View for ComponentVec<C> {
    type V = ComponentVecView<C>;

    open spec fn view(&self) -> ComponentVecView<C> {
        ComponentVecView { token: self.token, slots: self.slots@ }
    }
}

impl<C> ComponentVecView<C> {
    /// Every stored instance of this collection is free of borrows.
    pub open spec fn all_free(self) -> bool {
        forall|j: int| 0 <= j < self.slots.len() ==> (#[trigger] self.slots[j]).free()
    }
}

impl<C> ComponentVec<C> {
    /// An empty collection for the component type identified by `token`.
    pub fn new(token: u64) -> (r: ComponentVec<C>)
        ensures
            r@.token == token,
            r@.slots.len() == 0,
    {
        ComponentVec { token, slots: Vec::new() }
    }

    /// How many instances this collection holds.
    pub fn len(&self) -> (n: usize)
        ensures
            n == self@.slots.len(),
    {
        self.slots.len()
    }

    /// Appends an instance as a fresh, borrow-free slot. Only values of this
    /// collection's own type can enter it.
    pub fn push(&mut self, value: C) -> (id: usize)
        where C: Component
        requires
            value.token() == old(self)@.token,
        ensures
            id == old(self)@.slots.len(),
            final(self)@.token == old(self)@.token,
            final(self)@.slots == old(self)@.slots.push(
                Slot { value, readers: 0, taken: false },
            ),
    {
        let id = self.slots.len();
        self.slots.push(Slot { value, readers: 0, taken: false });
        id
    }

    /// Direct, index-based retrieval of a stored instance, ignoring the
    /// entity registry: this is how an orphaned instance stays reachable.
    pub fn get(&self, component_id: usize) -> (r: Option<&C>)
        ensures
            match r {
                Some(c) => component_id < self@.slots.len() && *c == self@.slots[
                    component_id as int
                ].value,
                None => component_id >= self@.slots.len(),
            },
    {
        if component_id < self.slots.len() {
            Some(&self.slots[component_id].value)
        } else {
            None
        }
    }
}

} // verus!
