//! The lifecycle dispatch passes: one global setup pass, then repeated global
//! update passes, all instances of one type processed together, in insertion
//! order, collection by collection in registration order.

use vstd::prelude::*;

use crate::component::Component;
use crate::component::Slot;
use crate::entity::EcsError;
use crate::storage::ComponentStorage;
use crate::storage::StorageView;

verus! {

impl<C: Component> StorageView<C> {
    /// The world as it looks to the lifecycle hook running on the instance at
    /// collection `i`, slot `j`: that slot is exclusively borrowed.
    pub open spec fn masked_at(self, i: int, j: int) -> StorageView<C> {
        let s = self.vecs[i].slots[j];
        self.with_slot(i, j, Slot { value: s.value, readers: s.readers, taken: true })
    }

    /// One dispatch step: the hook runs on the instance at collection `i`,
    /// slot `j`, observing the world with that slot exclusively borrowed, and
    /// the result is stored back with the borrow ended.
    pub open spec fn tick_slot(self, i: int, j: int, is_setup: bool) -> StorageView<C> {
        let s = self.vecs[i].slots[j];
        let masked = self.masked_at(i, j);
        let v2 = if is_setup {
            s.value.setup_spec(masked)
        } else {
            s.value.update_spec(masked)
        };
        self.with_slot(i, j, Slot { value: v2, readers: s.readers, taken: false })
    }

    /// The dispatch pass continued from collection `i`, slot `j`: every slot
    /// from there on, one step at a time.
    pub open spec fn run_pass_from(self, i: int, j: int, is_setup: bool) -> StorageView<C>
        decreases self.vecs.len() - i, self.vecs[i].slots.len() - j,
        when 0 <= i && 0 <= j
    {
        if i >= self.vecs.len() {
            self
        } else if j >= self.vecs[i].slots.len() {
            self.run_pass_from(i + 1, 0, is_setup)
        } else {
            self.tick_slot(i, j, is_setup).run_pass_from(i, j + 1, is_setup)
        }
    }

    /// A full dispatch pass over the whole storage: `setup` hooks when
    /// `is_setup` holds, `update` hooks otherwise.
    pub open spec fn spec_pass(self, is_setup: bool) -> StorageView<C> {
        self.run_pass_from(0, 0, is_setup)
    }

    /// Same collections (by token and length) as `other`; only slot contents
    /// may differ.
    pub open spec fn same_shape(self, other: StorageView<C>) -> bool {
        &&& self.vecs.len() == other.vecs.len()
        &&& forall|a: int|
            0 <= a < self.vecs.len() ==> (#[trigger] self.vecs[a]).token == other.vecs[a].token
                && self.vecs[a].slots.len() == other.vecs[a].slots.len()
    }

    /// Every slot strictly before collection `i`, slot `j` (in pass order) is
    /// free of borrows.
    pub open spec fn free_before(self, i: int, j: int) -> bool {
        forall|a: int, b: int|
            0 <= a < self.vecs.len() && 0 <= b < self.vecs[a].slots.len() && (a < i || (a == i && b
                < j)) ==> (#[trigger] self.vecs[a].slots[b]).free()
    }
}

impl<C: Component> ComponentStorage<C> {
    /// Runs one lifecycle hook over every stored instance: each slot is
    /// exclusively borrowed in turn, its hook runs with read access to the
    /// rest of the world, and the result is stored back. The pass stops with
    /// a borrow conflict at the first slot it finds already borrowed; it
    /// completes exactly when no borrow was outstanding anywhere.
    fn run_pass(&mut self, is_setup: bool) -> (r: Result<(), EcsError>)
        requires
            old(self)@.wf(),
        ensures
            final(self)@.wf(),
            final(self)@.same_shape(old(self)@),
            final(self)@.rows == old(self)@.rows,
            final(self)@.next == old(self)@.next,
            final(self)@.alive == old(self)@.alive,
            r is Ok <==> old(self)@.all_free(),
            r is Ok ==> final(self)@ == old(self)@.spec_pass(is_setup),
            r is Err ==> r->Err_0 == EcsError::BorrowConflict,
    {
        let mut i: usize = 0;
        while i < self.component_vectors.len()
            invariant
                old(self)@.wf(),
                self@.wf(),
                i <= self@.vecs.len(),
                self@.same_shape(old(self)@),
                self@.rows == old(self)@.rows,
                self@.next == old(self)@.next,
                self@.alive == old(self)@.alive,
                old(self)@.free_before(i as int, 0),
                self@.free_before(i as int, 0),
                forall|a: int|
                    i <= a < self@.vecs.len() ==> (#[trigger] self@.vecs[a]) == old(self)@.vecs[a],
                self@.run_pass_from(i as int, 0, is_setup) == old(self)@.spec_pass(is_setup),
            decreases self@.vecs.len() - i,
        {
            let mut j: usize = 0;
            while j < self.component_vectors[i].slots.len()
                invariant
                    old(self)@.wf(),
                    self@.wf(),
                    i < self@.vecs.len(),
                    j <= self@.vecs[i as int].slots.len(),
                    self@.same_shape(old(self)@),
                    self@.rows == old(self)@.rows,
                    self@.next == old(self)@.next,
                    self@.alive == old(self)@.alive,
                    old(self)@.free_before(i as int, j as int),
                    self@.free_before(i as int, j as int),
                    forall|a: int|
                        i < a < self@.vecs.len() ==> (#[trigger] self@.vecs[a]) == old(
                            self,
                        )@.vecs[a],
                    self@.vecs[i as int].token == old(self)@.vecs[i as int].token,
                    forall|b: int|
                        j <= b < self@.vecs[i as int].slots.len() ==> (#[trigger] self@.vecs[
                            i as int
                        ].slots[b]) == old(self)@.vecs[i as int].slots[b],
                    self@.run_pass_from(i as int, j as int, is_setup) == old(self)@.spec_pass(
                        is_setup,
                    ),
                decreases self@.vecs[i as int].slots.len() - j,
            {
                let taken = self.component_vectors[i].slots[j].taken;
                let readers = self.component_vectors[i].slots[j].readers;
                if taken || readers > 0 {
                    proof {
                        let oldw = old(self)@;
                        assert(self@.vecs[i as int].slots[j as int] == oldw.vecs[i as int].slots[
                            j as int
                        ]);
                        assert(!oldw.vecs[i as int].slots[j as int].free());
                        assert(!oldw.vecs[i as int].all_free());
                        assert(!oldw.all_free());
                    }
                    return Err(EcsError::BorrowConflict);
                }
                let ghost pre = self@;
                let cv = &mut self.component_vectors[i];
                let s = &mut cv.slots[j];
                let mut v = s.value.dup();
                s.taken = true;
                proof {
                    assert(self@ =~~= pre.masked_at(i as int, j as int));
                }
                if is_setup {
                    v.setup(&*self);
                } else {
                    v.update(&*self);
                }
                let cv = &mut self.component_vectors[i];
                let s = &mut cv.slots[j];
                s.value = v;
                s.taken = false;
                proof {
                    assert(self@ =~~= pre.tick_slot(i as int, j as int, is_setup));
                    assert(pre.tick_slot(i as int, j as int, is_setup).run_pass_from(
                        i as int,
                        j as int + 1,
                        is_setup,
                    ) == pre.run_pass_from(i as int, j as int, is_setup));
                }
                j = j + 1;
            }
            proof {
                assert(self@.run_pass_from(i as int, j as int, is_setup) == self@.run_pass_from(
                    i as int + 1,
                    0,
                    is_setup,
                ));
            }
            i = i + 1;
        }
        proof {
            assert(self@.run_pass_from(i as int, 0, is_setup) == self@);
        }
        Ok(())
    }

    /// Acquires the exclusive borrow on each stored instance in turn, in pass
    /// order, and invokes its one-time `setup` hook with read access to the
    /// rest of the world. The caller drives this at most once, before the
    /// first update pass; the storage itself does not enforce that.
    pub fn setup_components(&mut self) -> (r: Result<(), EcsError>)
        requires
            old(self)@.wf(),
        ensures
            final(self)@.wf(),
            final(self)@.same_shape(old(self)@),
            final(self)@.rows == old(self)@.rows,
            final(self)@.next == old(self)@.next,
            final(self)@.alive == old(self)@.alive,
            r is Ok <==> old(self)@.all_free(),
            r is Ok ==> final(self)@ == old(self)@.spec_pass(true),
            r is Err ==> r->Err_0 == EcsError::BorrowConflict,
    {
        self.run_pass(true)
    }

    /// Acquires the exclusive borrow on each stored instance in turn, in pass
    /// order, and invokes its per-tick `update` hook with read access to the
    /// rest of the world: one simulation tick.
    pub fn update_components(&mut self) -> (r: Result<(), EcsError>)
        requires
            old(self)@.wf(),
        ensures
            final(self)@.wf(),
            final(self)@.same_shape(old(self)@),
            final(self)@.rows == old(self)@.rows,
            final(self)@.next == old(self)@.next,
            final(self)@.alive == old(self)@.alive,
            r is Ok <==> old(self)@.all_free(),
            r is Ok ==> final(self)@ == old(self)@.spec_pass(false),
            r is Err ==> r->Err_0 == EcsError::BorrowConflict,
    {
        self.run_pass(false)
    }
}

} // verus!
