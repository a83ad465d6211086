//! The component storage: per-type collections, the entity registry, and the
//! lifecycle dispatch passes.

use vstd::hash_map::HashMapWithView;
use vstd::prelude::*;

use crate::component::Component;
use crate::component::ComponentVec;
use crate::component::ComponentVecView;
use crate::component::Slot;
use crate::entity::EcsError;
use crate::entity::Entity;

verus! {

broadcast use vstd::std_specs::hash::group_hash_axioms, vstd::prelude::Seq::lemma_filter_push;

/// Keeps every entity whose identifier differs from `eid`.
pub open spec fn keep_others(eid: int) -> spec_fn(Entity) -> bool {
    |x: Entity| x.0 as int != eid
}

/// The mathematical content of a [`ComponentStorage`]: the per-type
/// collections in registration order, the per-entity rows mapping a type
/// token to a component id (`None` for a removed entity), the next entity
/// identifier, and the live entities in creation order.
#[verifier::ext_equal]
pub struct StorageView<C> {
    pub vecs: Seq<ComponentVecView<C>>,
    pub rows: Seq<Option<Map<u64, usize>>>,
    pub next: nat,
    pub alive: Seq<Entity>,
}

/// The single owner of all component data and of the entity registry.
pub struct ComponentStorage<C> {
    /// One collection per distinct component type ever registered, in
    /// registration order.
    pub component_vectors: Vec<ComponentVec<C>>,
    /// Per entity, the mapping from type token to that entity's component id
    /// inside the type's collection; `None` once the entity is removed.
    pub component_table: Vec<Option<HashMapWithView<u64, usize>>>,
    /// The identifier the next created entity receives.
    pub entities: u32,
    /// The live entities, in creation order.
    pub alive_entities: Vec<Entity>,
}

impl<C> View for ComponentStorage<C> {
    type V = StorageView<C>;

    open spec fn view(&self) -> StorageView<C> {
        StorageView {
            vecs: self.component_vectors@.map_values(|cv: ComponentVec<C>| cv@),
            rows: self.component_table@.map_values(
                |r: Option<HashMapWithView<u64, usize>>|
                    match r {
                        Some(m) => Some(m@),
                        None => None,
                    },
            ),
            next: self.entities as nat,
            alive: self.alive_entities@,
        }
    }
}

impl<C: Component> StorageView<C> {
    /// Some collection holds the component type identified by `token`.
    pub open spec fn has_vec(self, token: u64) -> bool {
        exists|i: int| 0 <= i < self.vecs.len() && self.vecs[i].token == token
    }

    /// The index of the collection holding the component type identified by
    /// `token`. Well-formedness makes this index unique.
    pub open spec fn vec_at(self, token: u64) -> int {
        choose|i: int| 0 <= i < self.vecs.len() && self.vecs[i].token == token
    }

    /// The registry row of entity `eid`: `None` when the entity was never
    /// created or was removed.
    pub open spec fn row_of(self, eid: int) -> Option<Map<u64, usize>> {
        if 0 <= eid < self.rows.len() {
            self.rows[eid]
        } else {
            None
        }
    }

    /// The component id recorded for entity `eid` and type token `token`.
    pub open spec fn component_id_of(self, eid: int, token: u64) -> Option<usize> {
        match self.row_of(eid) {
            Some(row) => if row.contains_key(token) {
                Some(row[token])
            } else {
                None
            },
            None => None,
        }
    }

    /// The slot the registry currently associates with entity `eid` and type
    /// token `token`, as a pair of collection index and component id.
    pub open spec fn slot_index_of(self, eid: int, token: u64) -> Option<(int, int)> {
        if self.has_vec(token) {
            match self.component_id_of(eid, token) {
                Some(id) => if id < self.vecs[self.vec_at(token)].slots.len() {
                    Some((self.vec_at(token), id as int))
                } else {
                    None
                },
                None => None,
            }
        } else {
            None
        }
    }

    /// The component value the registry currently associates with entity
    /// `eid` and type token `token`: the "current" component of that type,
    /// regardless of any borrow outstanding on it.
    pub open spec fn lookup(self, eid: int, token: u64) -> Option<C> {
        match self.slot_index_of(eid, token) {
            Some((vi, ci)) => Some(self.vecs[vi].slots[ci].value),
            None => None,
        }
    }

    /// The borrow state of the slot the registry associates with `eid` and
    /// `token`, when there is one.
    pub open spec fn slot_of(self, eid: int, token: u64) -> Option<Slot<C>> {
        match self.slot_index_of(eid, token) {
            Some((vi, ci)) => Some(self.vecs[vi].slots[ci]),
            None => None,
        }
    }

    /// Every stored instance is free of borrows.
    pub open spec fn all_free(self) -> bool {
        forall|i: int| 0 <= i < self.vecs.len() ==> (#[trigger] self.vecs[i]).all_free()
    }

    /// The storage after creating one entity: a fresh, empty registry row and
    /// the next identifier handed out.
    pub open spec fn spec_create(self) -> StorageView<C> {
        StorageView {
            vecs: self.vecs,
            rows: self.rows.push(Some(Map::empty())),
            next: self.next + 1,
            alive: self.alive.push(Entity(self.next as u32)),
        }
    }

    /// The storage after appending a whole collection.
    pub open spec fn spec_add_vec(self, cv: ComponentVecView<C>) -> StorageView<C> {
        StorageView { vecs: self.vecs.push(cv), rows: self.rows, next: self.next, alive: self.alive }
    }

    /// The storage after appending one instance to its type's collection
    /// (creating that collection when the type is new), paired with the
    /// instance's component id.
    pub open spec fn spec_add_component(self, c: C) -> (StorageView<C>, usize) {
        if self.has_vec(c.token()) {
            let vi = self.vec_at(c.token());
            let cv = self.vecs[vi];
            let cv2 = ComponentVecView {
                token: cv.token,
                slots: cv.slots.push(Slot { value: c, readers: 0, taken: false }),
            };
            (
                StorageView {
                    vecs: self.vecs.update(vi, cv2),
                    rows: self.rows,
                    next: self.next,
                    alive: self.alive,
                },
                cv.slots.len() as usize,
            )
        } else {
            let cv = ComponentVecView {
                token: c.token(),
                slots: seq![Slot { value: c, readers: 0, taken: false }],
            };
            (self.spec_add_vec(cv), 0)
        }
    }

    /// The storage after registering `c` against entity `eid`: the instance
    /// appended to its type's collection and the entity's row overwritten at
    /// the type's token, paired with the new component id. Meaningful only
    /// when the row exists.
    pub open spec fn spec_register(self, eid: int, c: C) -> (StorageView<C>, usize) {
        let (w1, id) = self.spec_add_component(c);
        let row = self.row_of(eid)->Some_0;
        (
            StorageView {
                vecs: w1.vecs,
                rows: w1.rows.update(eid, Some(row.insert(c.token(), id))),
                next: w1.next,
                alive: w1.alive,
            },
            id,
        )
    }

    /// The storage after removing entity `eid`: its registry row is gone (not
    /// merely a liveness marker), so every later lookup for it is absent, and
    /// it leaves the live list. Component instances it pointed at stay in
    /// their collections, orphaned.
    pub open spec fn spec_remove(self, eid: int) -> StorageView<C> {
        StorageView {
            vecs: self.vecs,
            rows: self.rows.update(eid, None),
            next: self.next,
            alive: self.alive.filter(keep_others(eid)),
        }
    }

    /// The storage with the slot at collection `vi`, position `ci` replaced.
    pub open spec fn with_slot(self, vi: int, ci: int, s: Slot<C>) -> StorageView<C> {
        StorageView {
            vecs: self.vecs.update(
                vi,
                ComponentVecView { token: self.vecs[vi].token, slots: self.vecs[vi].slots.update(ci, s) },
            ),
            rows: self.rows,
            next: self.next,
            alive: self.alive,
        }
    }

    /// A shared borrow on the slot of `eid` and `token` can be acquired: the
    /// slot exists, no exclusive borrow is out, and the reader count has room.
    pub open spec fn can_read(self, eid: int, token: u64) -> bool {
        match self.slot_of(eid, token) {
            Some(s) => !s.taken && s.readers < usize::MAX,
            None => false,
        }
    }

    /// The slot of `eid` and `token` exists but refuses a shared borrow.
    pub open spec fn read_blocked(self, eid: int, token: u64) -> bool {
        match self.slot_of(eid, token) {
            Some(s) => s.taken || s.readers == usize::MAX,
            None => false,
        }
    }

    /// An exclusive borrow on the slot of `eid` and `token` can be acquired:
    /// the slot exists and no borrow of any kind is out.
    pub open spec fn can_write(self, eid: int, token: u64) -> bool {
        match self.slot_of(eid, token) {
            Some(s) => s.free(),
            None => false,
        }
    }

    /// The slot of `eid` and `token` exists but a borrow is outstanding.
    pub open spec fn write_blocked(self, eid: int, token: u64) -> bool {
        match self.slot_of(eid, token) {
            Some(s) => !s.free(),
            None => false,
        }
    }

    /// The storage after acquiring one more shared borrow on the slot of
    /// `eid` and `token`. Meaningful only when `can_read` holds.
    pub open spec fn spec_acquire_shared(self, eid: int, token: u64) -> StorageView<C> {
        let (vi, ci) = self.slot_index_of(eid, token)->Some_0;
        let s = self.vecs[vi].slots[ci];
        self.with_slot(vi, ci, Slot { value: s.value, readers: (s.readers + 1) as usize, taken: s.taken })
    }

    /// The storage after returning one shared borrow on the slot of `eid` and
    /// `token`. Meaningful only when that slot has readers outstanding.
    pub open spec fn spec_release_shared(self, eid: int, token: u64) -> StorageView<C> {
        let (vi, ci) = self.slot_index_of(eid, token)->Some_0;
        let s = self.vecs[vi].slots[ci];
        self.with_slot(vi, ci, Slot { value: s.value, readers: (s.readers - 1) as usize, taken: s.taken })
    }

    /// The storage after acquiring the exclusive borrow on the slot of `eid`
    /// and `token`. Meaningful only when `can_write` holds.
    pub open spec fn spec_acquire_mut(self, eid: int, token: u64) -> StorageView<C> {
        let (vi, ci) = self.slot_index_of(eid, token)->Some_0;
        let s = self.vecs[vi].slots[ci];
        self.with_slot(vi, ci, Slot { value: s.value, readers: s.readers, taken: true })
    }

    /// The storage after the exclusive borrower of the slot of `eid` and
    /// `token` hands the instance back as `value`.
    pub open spec fn spec_release_mut(self, eid: int, token: u64, value: C) -> StorageView<C> {
        let (vi, ci) = self.slot_index_of(eid, token)->Some_0;
        self.with_slot(vi, ci, Slot { value, readers: 0, taken: false })
    }

    /// Well-formedness of the storage:
    /// - one registry row per ever-created entity;
    /// - at most one collection per type token;
    /// - each collection holds only values of its own type;
    /// - an exclusively borrowed instance has no outstanding shared borrows;
    /// - live entities have rows, and stand in strictly increasing order.
    pub open spec fn wf(self) -> bool {
        &&& self.rows.len() == self.next
        &&& forall|i: int, k: int|
            0 <= i < k < self.vecs.len() ==> (#[trigger] self.vecs[i]).token != (
            #[trigger] self.vecs[k]).token
        &&& forall|i: int, j: int|
            0 <= i < self.vecs.len() && 0 <= j < self.vecs[i].slots.len() ==> (
            #[trigger] self.vecs[i].slots[j]).value.token() == self.vecs[i].token
        &&& forall|i: int, j: int|
            0 <= i < self.vecs.len() && 0 <= j < self.vecs[i].slots.len() && (
            #[trigger] self.vecs[i].slots[j]).taken ==> self.vecs[i].slots[j].readers == 0
        &&& forall|k: int|
            0 <= k < self.alive.len() ==> (#[trigger] self.alive[k]).0 < self.next && self.row_of(
                self.alive[k].0 as int,
            ) is Some
        &&& forall|k1: int, k2: int|
            0 <= k1 < k2 < self.alive.len() ==> (#[trigger] self.alive[k1]).0 < (
            #[trigger] self.alive[k2]).0
    }
}

impl<C: Component> ComponentStorage<C> {
    /// An empty storage: no collections, no entities.
    pub fn new() -> (r: ComponentStorage<C>)
        ensures
            r@.wf(),
            r@.vecs.len() == 0,
            r@.rows.len() == 0,
            r@.next == 0,
            r@.alive.len() == 0,
    {
        ComponentStorage {
            component_vectors: Vec::new(),
            component_table: Vec::new(),
            entities: 0,
            alive_entities: Vec::new(),
        }
    }

    /// Allocates the next entity identifier, inserts an empty registry row
    /// for it, and returns the handle.
    pub fn create_entity(&mut self) -> (e: Entity)
        requires
            old(self)@.wf(),
            old(self)@.next < u32::MAX,
        ensures
            final(self)@.wf(),
            e.0 == old(self)@.next,
            final(self)@ == old(self)@.spec_create(),
    {
        let entity = Entity(self.entities);
        self.component_table.push(Some(HashMapWithView::new()));
        self.entities = self.entities + 1;
        self.alive_entities.push(entity);
        proof {
            assert(self@.rows =~= old(self)@.spec_create().rows);
            assert(self@ =~= old(self)@.spec_create());
        }
        entity
    }

    /// The live entities, in creation order.
    pub fn get_entities(&self) -> (r: Vec<Entity>)
        ensures
            r@ == self@.alive,
    {
        let mut out: Vec<Entity> = Vec::new();
        let mut k: usize = 0;
        while k < self.alive_entities.len()
            invariant
                k <= self.alive_entities.len(),
                out@ == self.alive_entities@.subrange(0, k as int),
            decreases self.alive_entities.len() - k,
        {
            out.push(self.alive_entities[k]);
            k = k + 1;
            proof {
                assert(out@ =~= self.alive_entities@.subrange(0, k as int));
            }
        }
        proof {
            assert(out@ =~= self.alive_entities@);
        }
        out
    }

    /// The index of the collection holding type `token`, by a linear scan
    /// over all registered collections.
    fn find_vec_index(&self, token: u64) -> (r: Option<usize>)
        requires
            self@.wf(),
        ensures
            match r {
                Some(i) => self@.has_vec(token) && self@.vec_at(token) == i as int,
                None => !self@.has_vec(token),
            },
    {
        let mut i: usize = 0;
        while i < self.component_vectors.len()
            invariant
                self@.wf(),
                i <= self@.vecs.len(),
                forall|k: int| 0 <= k < i ==> (#[trigger] self@.vecs[k]).token != token,
            decreases self@.vecs.len() - i,
        {
            if self.component_vectors[i].token == token {
                proof {
                    assert(self@.vecs[i as int].token == token);
                    assert(self@.has_vec(token));
                    let j = self@.vec_at(token);
                    assert(self@.vecs[j].token == token);
                    assert(j == i as int);
                }
                return Some(i);
            }
            i = i + 1;
        }
        None
    }

    /// A shared reference to the collection holding type `token`, found by a
    /// linear scan; `None` when that type was never registered.
    pub fn get_component_vec(&self, token: u64) -> (r: Option<&ComponentVec<C>>)
        requires
            self@.wf(),
        ensures
            match r {
                Some(cv) => self@.has_vec(token) && cv@ == self@.vecs[self@.vec_at(token)],
                None => !self@.has_vec(token),
            },
    {
        match self.find_vec_index(token) {
            Some(i) => Some(&self.component_vectors[i]),
            None => None,
        }
    }

    /// Appends a whole collection for a type no collection exists for yet;
    /// adding a second collection for one type is rejected.
    pub fn add_component_vec(&mut self, component_vec: ComponentVec<C>) -> (r: Result<
        (),
        EcsError,
    >)
        requires
            old(self)@.wf(),
            forall|j: int|
                0 <= j < component_vec@.slots.len() ==> (
                #[trigger] component_vec@.slots[j]).value.token() == component_vec@.token,
            forall|j: int|
                0 <= j < component_vec@.slots.len() ==> (#[trigger] component_vec@.slots[j]).free(),
        ensures
            final(self)@.wf(),
            match r {
                Ok(u) => !old(self)@.has_vec(component_vec@.token) && final(self)@ == old(
                    self,
                )@.spec_add_vec(component_vec@),
                Err(e) => e == EcsError::DuplicateRegistration && old(self)@.has_vec(
                    component_vec@.token,
                ) && final(self)@ == old(self)@,
            },
    {
        match self.find_vec_index(component_vec.token) {
            Some(_) => Err(EcsError::DuplicateRegistration),
            None => {
                self.component_vectors.push(component_vec);
                proof {
                    assert(self@.vecs =~= old(self)@.spec_add_vec(component_vec@).vecs);
                    assert(self@ =~= old(self)@.spec_add_vec(component_vec@));
                }
                Ok(())
            },
        }
    }

    /// Appends an instance to its type's collection and returns its new
    /// component id; when the type is new, a single-element collection is
    /// created for it first. This lazy creation is what lets arbitrary
    /// component types arrive without a registration phase.
    pub fn add_component(&mut self, component: C) -> (id: usize)
        requires
            old(self)@.wf(),
        ensures
            final(self)@.wf(),
            final(self)@ == old(self)@.spec_add_component(component).0,
            id == old(self)@.spec_add_component(component).1,
    {
        let token = component.type_token();
        match self.find_vec_index(token) {
            Some(i) => {
                let ghost pre = self@;
                let cv = &mut self.component_vectors[i];
                let id = cv.push(component);
                proof {
                    assert(self@.vecs =~= pre.spec_add_component(component).0.vecs);
                    assert(self@ =~= pre.spec_add_component(component).0);
                }
                id
            },
            None => {
                let mut cv = ComponentVec::new(token);
                cv.push(component);
                self.component_vectors.push(cv);
                proof {
                    assert(cv@.slots =~= seq![
                        Slot { value: component, readers: 0, taken: false },
                    ]);
                    assert(self@.vecs =~= old(self)@.spec_add_component(component).0.vecs);
                    assert(self@ =~= old(self)@.spec_add_component(component).0);
                }
                0
            },
        }
    }

    /// The component id recorded in the registry for `entity` and the type
    /// identified by `token`; `None` when the entity has no row (never
    /// created, or removed) or its row has no entry for the type.
    pub fn get_entity_component_id(&self, entity: &Entity, token: u64) -> (r: Option<usize>)
        ensures
            r == self@.component_id_of(entity.0 as int, token),
    {
        let eid = entity.0 as usize;
        if eid >= self.component_table.len() {
            return None;
        }
        match &self.component_table[eid] {
            Some(row) => match row.get(&token) {
                Some(id) => Some(*id),
                None => None,
            },
            None => None,
        }
    }

    /// Appends `component` to its type's collection, then records the new
    /// component id in the entity's registry row, overwriting any earlier
    /// entry for that type. An entity without a row is rejected, and the
    /// storage is left untouched.
    pub fn register_component(&mut self, entity: &Entity, component: C) -> (r: Result<
        usize,
        EcsError,
    >)
        requires
            old(self)@.wf(),
        ensures
            final(self)@.wf(),
            match r {
                Ok(id) => old(self)@.row_of(entity.0 as int) is Some && final(self)@ == old(
                    self,
                )@.spec_register(entity.0 as int, component).0 && id == old(self)@.spec_register(
                    entity.0 as int,
                    component,
                ).1,
                Err(e) => e == EcsError::UnknownEntity && old(self)@.row_of(
                    entity.0 as int,
                ) is None && final(self)@ == old(self)@,
            },
    {
        let eid = entity.0 as usize;
        if eid >= self.component_table.len() {
            return Err(EcsError::UnknownEntity);
        }
        if self.component_table[eid].is_none() {
            return Err(EcsError::UnknownEntity);
        }
        let token = component.type_token();
        let id = self.add_component(component);
        proof {
            assert(self@.rows == old(self)@.rows);
        }
        match &mut self.component_table[eid] {
            Some(row) => {
                row.insert(token, id);
            },
            None => {},
        }
        proof {
            assert(self@.rows =~= old(self)@.spec_register(entity.0 as int, component).0.rows);
            assert(self@ =~= old(self)@.spec_register(entity.0 as int, component).0);
        }
        Ok(id)
    }

    /// The collection index and component id the registry currently
    /// associates with `entity` and `token`, found by the row lookup and the
    /// collection scan; the two must agree for a slot to be named.
    fn locate(&self, entity: &Entity, token: u64) -> (r: Option<(usize, usize)>)
        requires
            self@.wf(),
        ensures
            match r {
                Some(p) => self@.slot_index_of(entity.0 as int, token) == Some(
                    (p.0 as int, p.1 as int),
                ),
                None => self@.slot_index_of(entity.0 as int, token) is None,
            },
    {
        match self.get_entity_component_id(entity, token) {
            Some(id) => match self.find_vec_index(token) {
                Some(vi) => if id < self.component_vectors[vi].slots.len() {
                    Some((vi, id))
                } else {
                    None
                },
                None => None,
            },
            None => None,
        }
    }

    /// Removes `entity` from the registry: its component-id row is dropped,
    /// so subsequent lookups for it return nothing rather than stale data,
    /// and it leaves the live list. Its component instances stay in their
    /// collections (compaction would invalidate every other entity's ids).
    /// An entity without a row is rejected.
    pub fn remove_entity(&mut self, entity: &Entity) -> (r: Result<(), EcsError>)
        requires
            old(self)@.wf(),
        ensures
            final(self)@.wf(),
            match r {
                Ok(u) => old(self)@.row_of(entity.0 as int) is Some && final(self)@ == old(
                    self,
                )@.spec_remove(entity.0 as int),
                Err(e) => e == EcsError::UnknownEntity && old(self)@.row_of(
                    entity.0 as int,
                ) is None && final(self)@ == old(self)@,
            },
    {
        let eid = entity.0 as usize;
        if eid >= self.component_table.len() {
            return Err(EcsError::UnknownEntity);
        }
        if self.component_table[eid].is_none() {
            return Err(EcsError::UnknownEntity);
        }
        let row = &mut self.component_table[eid];
        *row = None;
        let ghost mid = self@;
        let ghost pred = keep_others(entity.0 as int);
        let mut kept: Vec<Entity> = Vec::new();
        let mut k: usize = 0;
        while k < self.alive_entities.len()
            invariant
                k <= self.alive_entities.len(),
                self@ == mid,
                (entity.0 as int) < old(self)@.rows.len(),
                old(self)@.row_of(entity.0 as int) is Some,
                mid.rows == old(self)@.rows.update(entity.0 as int, None),
                old(self)@.wf(),
                mid.vecs == old(self)@.vecs,
                mid.next == old(self)@.next,
                mid.alive == old(self)@.alive,
                pred == keep_others(entity.0 as int),
                kept@ == mid.alive.subrange(0, k as int).filter(pred),
                forall|i: int|
                    0 <= i < kept@.len() ==> (#[trigger] kept@[i]).0 < mid.next && kept@[i].0
                        as int != entity.0 as int && mid.rows[kept@[i].0 as int] is Some,
                forall|i: int|
                    0 <= i < kept@.len() && k < mid.alive.len() ==> (#[trigger] kept@[i]).0
                        < mid.alive[k as int].0,
                forall|i1: int, i2: int|
                    0 <= i1 < i2 < kept@.len() ==> (#[trigger] kept@[i1]).0 < (
                    #[trigger] kept@[i2]).0,
            decreases self.alive_entities.len() - k,
        {
            let e = self.alive_entities[k];
            proof {
                assert(mid.alive.subrange(0, k as int + 1) =~= mid.alive.subrange(
                    0,
                    k as int,
                ).push(e));
                assert(old(self)@.alive[k as int] == e);
                assert(e.0 < old(self)@.next);
                assert(old(self)@.row_of(e.0 as int) is Some);
            }
            if e.0 != entity.0 {
                kept.push(e);
                proof {
                    assert((e.0 as int) < old(self)@.rows.len());
                    assert((entity.0 as int) < old(self)@.rows.len());
                    assert(e.0 as int != entity.0 as int);
                    assert(old(self)@.rows.update(entity.0 as int, None)[e.0 as int] == old(
                        self,
                    )@.rows[e.0 as int]);
                    assert(mid.rows[e.0 as int] is Some);
                }
            }
            k = k + 1;
        }
        proof {
            assert(mid.alive.subrange(0, mid.alive.len() as int) =~= mid.alive);
        }
        self.alive_entities = kept;
        proof {
            assert(self@ =~~= old(self)@.spec_remove(entity.0 as int));
        }
        Ok(())
    }

    /// Acquires a shared borrow on `entity`'s component of the type
    /// identified by `token` and returns a copy of the instance; the borrow
    /// stays outstanding until [`Self::release_entity_component`]. Absence of
    /// entity, type or slot is `Ok(None)`; an outstanding exclusive borrow
    /// (or an exhausted reader count) is a borrow conflict.
    pub fn get_entity_component(&mut self, entity: &Entity, token: u64) -> (r: Result<
        Option<C>,
        EcsError,
    >)
        requires
            old(self)@.wf(),
        ensures
            final(self)@.wf(),
            match r {
                Ok(opt) => match opt {
                    Some(c) => old(self)@.can_read(entity.0 as int, token) && Some(c) == old(
                        self,
                    )@.lookup(entity.0 as int, token) && final(self)@ == old(
                        self,
                    )@.spec_acquire_shared(entity.0 as int, token),
                    None => old(self)@.slot_of(entity.0 as int, token) is None && final(self)@
                        == old(self)@,
                },
                Err(e) => e == EcsError::BorrowConflict && old(self)@.read_blocked(
                    entity.0 as int,
                    token,
                ) && final(self)@ == old(self)@,
            },
    {
        match self.locate(entity, token) {
            None => Ok(None),
            Some((vi, ci)) => {
                let ghost pre = self@;
                let cv = &mut self.component_vectors[vi];
                let s = &mut cv.slots[ci];
                if s.taken || s.readers == usize::MAX {
                    let r = Err(EcsError::BorrowConflict);
                    proof {
                        assert(self@ =~~= pre);
                    }
                    r
                } else {
                    let c = s.value.dup();
                    s.readers = s.readers + 1;
                    let r = Ok(Some(c));
                    proof {
                        assert(self@ =~= pre.spec_acquire_shared(entity.0 as int, token));
                    }
                    r
                }
            },
        }
    }

    /// Returns one outstanding shared borrow on `entity`'s component of the
    /// type identified by `token`. Returning a borrow that is not outstanding
    /// — or naming a slot that does not exist — is a discipline violation and
    /// a borrow conflict.
    pub fn release_entity_component(&mut self, entity: &Entity, token: u64) -> (r: Result<
        (),
        EcsError,
    >)
        requires
            old(self)@.wf(),
        ensures
            final(self)@.wf(),
            match r {
                Ok(u) => old(self)@.slot_of(entity.0 as int, token) is Some && old(self)@.slot_of(
                    entity.0 as int,
                    token,
                )->Some_0.readers > 0 && final(self)@ == old(self)@.spec_release_shared(
                    entity.0 as int,
                    token,
                ),
                Err(e) => e == EcsError::BorrowConflict && final(self)@ == old(self)@ && match old(
                    self,
                )@.slot_of(entity.0 as int, token) {
                    Some(s) => s.readers == 0,
                    None => true,
                },
            },
    {
        match self.locate(entity, token) {
            None => Err(EcsError::BorrowConflict),
            Some((vi, ci)) => {
                let ghost pre = self@;
                let cv = &mut self.component_vectors[vi];
                let s = &mut cv.slots[ci];
                if s.readers == 0 {
                    let r = Err(EcsError::BorrowConflict);
                    proof {
                        assert(self@ =~~= pre);
                    }
                    r
                } else {
                    s.readers = s.readers - 1;
                    proof {
                        assert(self@ =~= pre.spec_release_shared(entity.0 as int, token));
                    }
                    Ok(())
                }
            },
        }
    }

    /// Acquires the exclusive borrow on `entity`'s component of the type
    /// identified by `token` and returns a copy to mutate; the stored
    /// instance counts as out until the caller hands a value back through
    /// [`Self::release_entity_component_mut`]. Absence is `Ok(None)`; any
    /// outstanding borrow, shared or exclusive, is a borrow conflict.
    pub fn get_entity_component_mut(&mut self, entity: &Entity, token: u64) -> (r: Result<
        Option<C>,
        EcsError,
    >)
        requires
            old(self)@.wf(),
        ensures
            final(self)@.wf(),
            match r {
                Ok(opt) => match opt {
                    Some(c) => old(self)@.can_write(entity.0 as int, token) && Some(c) == old(
                        self,
                    )@.lookup(entity.0 as int, token) && final(self)@ == old(self)@.spec_acquire_mut(
                        entity.0 as int,
                        token,
                    ),
                    None => old(self)@.slot_of(entity.0 as int, token) is None && final(self)@
                        == old(self)@,
                },
                Err(e) => e == EcsError::BorrowConflict && old(self)@.write_blocked(
                    entity.0 as int,
                    token,
                ) && final(self)@ == old(self)@,
            },
    {
        match self.locate(entity, token) {
            None => Ok(None),
            Some((vi, ci)) => {
                let ghost pre = self@;
                let cv = &mut self.component_vectors[vi];
                let s = &mut cv.slots[ci];
                if s.taken || s.readers > 0 {
                    let r = Err(EcsError::BorrowConflict);
                    proof {
                        assert(self@ =~~= pre);
                    }
                    r
                } else {
                    let c = s.value.dup();
                    s.taken = true;
                    let r = Ok(Some(c));
                    proof {
                        assert(self@ =~= pre.spec_acquire_mut(entity.0 as int, token));
                    }
                    r
                }
            },
        }
    }

    /// Hands `value` back as the new instance behind the exclusive borrow on
    /// `entity`'s component of the type identified by `token`, ending that
    /// borrow. Handing back to a slot whose exclusive borrow is not
    /// outstanding — or to no slot at all — is a discipline violation and a
    /// borrow conflict.
    pub fn release_entity_component_mut(&mut self, entity: &Entity, token: u64, value: C) -> (r:
        Result<(), EcsError>)
        requires
            old(self)@.wf(),
            value.token() == token,
        ensures
            final(self)@.wf(),
            match r {
                Ok(u) => old(self)@.slot_of(entity.0 as int, token) is Some && old(self)@.slot_of(
                    entity.0 as int,
                    token,
                )->Some_0.taken && final(self)@ == old(self)@.spec_release_mut(
                    entity.0 as int,
                    token,
                    value,
                ),
                Err(e) => e == EcsError::BorrowConflict && final(self)@ == old(self)@ && match old(
                    self,
                )@.slot_of(entity.0 as int, token) {
                    Some(s) => !s.taken,
                    None => true,
                },
            },
    {
        match self.locate(entity, token) {
            None => Err(EcsError::BorrowConflict),
            Some((vi, ci)) => {
                let ghost pre = self@;
                let cv = &mut self.component_vectors[vi];
                let s = &mut cv.slots[ci];
                if !s.taken {
                    let r = Err(EcsError::BorrowConflict);
                    proof {
                        assert(self@ =~~= pre);
                    }
                    r
                } else {
                    s.value = value;
                    s.readers = 0;
                    s.taken = false;
                    proof {
                        assert(self@ =~= pre.spec_release_mut(entity.0 as int, token, value));
                    }
                    Ok(())
                }
            },
        }
    }

    /// A momentary shared read of `entity`'s component of the type identified
    /// by `token`: a copy of the current instance, with no borrow left
    /// outstanding. This is the read a component's lifecycle hook uses on its
    /// siblings through the shared world. Absence is `Ok(None)`; an
    /// outstanding exclusive borrow is a borrow conflict.
    pub fn peek_entity_component(&self, entity: &Entity, token: u64) -> (r: Result<
        Option<C>,
        EcsError,
    >)
        requires
            self@.wf(),
        ensures
            match r {
                Ok(opt) => match opt {
                    Some(c) => self@.slot_of(entity.0 as int, token) is Some && !self@.slot_of(
                        entity.0 as int,
                        token,
                    )->Some_0.taken && Some(c) == self@.lookup(entity.0 as int, token),
                    None => self@.slot_of(entity.0 as int, token) is None,
                },
                Err(e) => e == EcsError::BorrowConflict && self@.slot_of(
                    entity.0 as int,
                    token,
                ) is Some && self@.slot_of(entity.0 as int, token)->Some_0.taken,
            },
    {
        match self.locate(entity, token) {
            None => Ok(None),
            Some((vi, ci)) => {
                let s = &self.component_vectors[vi].slots[ci];
                if s.taken {
                    Err(EcsError::BorrowConflict)
                } else {
                    Ok(Some(s.value.dup()))
                }
            },
        }
    }
}

} // verus!
