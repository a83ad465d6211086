//! The general properties of the storage core, stated over the spec
//! transforms its operations are specified with, and proved once for every
//! input.

use vstd::prelude::*;

use crate::component::Component;
use crate::component::ComponentVecView;
use crate::component::Slot;
use crate::storage::StorageView;

verus! {

broadcast use vstd::map::group_map_axioms;

/// A mutating operation of the storage, as its effect on the storage's
/// mathematical content. Any run of the storage is some sequence of these.
pub enum StorageOp<C> {
    CreateEntity,
    RemoveEntity { eid: int },
    RegisterComponent { eid: int, value: C },
    AddComponent { value: C },
    AddComponentVec { cv: ComponentVecView<C> },
    AcquireShared { eid: int, token: u64 },
    ReleaseShared { eid: int, token: u64 },
    AcquireExclusive { eid: int, token: u64 },
    ReleaseExclusive { eid: int, token: u64, value: C },
    SetupPass,
    UpdatePass,
}

/// The storage after one operation.
pub open spec fn apply_op<C: Component>(w: StorageView<C>, op: StorageOp<C>) -> StorageView<C> {
    match op {
        StorageOp::CreateEntity => w.spec_create(),
        StorageOp::RemoveEntity { eid } => w.spec_remove(eid),
        StorageOp::RegisterComponent { eid, value } => w.spec_register(eid, value).0,
        StorageOp::AddComponent { value } => w.spec_add_component(value).0,
        StorageOp::AddComponentVec { cv } => w.spec_add_vec(cv),
        StorageOp::AcquireShared { eid, token } => w.spec_acquire_shared(eid, token),
        StorageOp::ReleaseShared { eid, token } => w.spec_release_shared(eid, token),
        StorageOp::AcquireExclusive { eid, token } => w.spec_acquire_mut(eid, token),
        StorageOp::ReleaseExclusive { eid, token, value } => w.spec_release_mut(eid, token, value),
        StorageOp::SetupPass => w.spec_pass(true),
        StorageOp::UpdatePass => w.spec_pass(false),
    }
}

/// The storage after a sequence of operations, applied left to right.
pub open spec fn apply_ops<C: Component>(w: StorageView<C>, ops: Seq<StorageOp<C>>) -> StorageView<
    C,
>
    decreases ops.len(),
{
    if ops.len() == 0 {
        w
    } else {
        apply_ops(apply_op(w, ops[0]), ops.drop_first())
    }
}

/// A dispatch pass rewrites stored instances but never touches the entity
/// registry: rows, the identifier counter and the live list are unchanged.
pub proof fn lemma_pass_preserves_registry<C: Component>(
    w: StorageView<C>,
    i: int,
    j: int,
    is_setup: bool,
)
    requires
        0 <= i,
        0 <= j,
    ensures
        w.run_pass_from(i, j, is_setup).next == w.next,
        w.run_pass_from(i, j, is_setup).rows == w.rows,
        w.run_pass_from(i, j, is_setup).alive == w.alive,
    decreases w.vecs.len() - i, w.vecs[i].slots.len() - j,
{
    if i >= w.vecs.len() {
    } else if j >= w.vecs[i].slots.len() {
        lemma_pass_preserves_registry(w, i + 1, 0, is_setup);
    } else {
        lemma_pass_preserves_registry(w.tick_slot(i, j, is_setup), i, j + 1, is_setup);
    }
}

/// No operation ever lowers the entity identifier counter.
pub proof fn lemma_op_monotone<C: Component>(w: StorageView<C>, op: StorageOp<C>)
    ensures
        apply_op(w, op).next >= w.next,
{
    match op {
        StorageOp::SetupPass => lemma_pass_preserves_registry(w, 0, 0, true),
        StorageOp::UpdatePass => lemma_pass_preserves_registry(w, 0, 0, false),
        _ => {},
    }
}

/// No sequence of operations ever lowers the entity identifier counter.
pub proof fn lemma_ops_monotone<C: Component>(w: StorageView<C>, ops: Seq<StorageOp<C>>)
    ensures
        apply_ops(w, ops).next >= w.next,
    decreases ops.len(),
{
    if ops.len() > 0 {
        lemma_op_monotone(w, ops[0]);
        lemma_ops_monotone(apply_op(w, ops[0]), ops.drop_first());
    }
}

/// Entity identifiers are strictly increasing and never reused: the entity
/// created in state `w` carries identifier `w.next`; whatever operations
/// follow — removals included — the counter never falls back, so the entity
/// created afterwards carries a strictly larger identifier.
pub proof fn lemma_entity_ids_strictly_increasing<C: Component>(
    w: StorageView<C>,
    ops: Seq<StorageOp<C>>,
)
    ensures
        apply_ops(w.spec_create(), ops).next > w.next,
        apply_ops(w.spec_create(), ops).spec_create() == apply_ops(
            w.spec_create(),
            ops.push(StorageOp::CreateEntity),
        ),
{
    lemma_ops_monotone(w.spec_create(), ops);
    let w1 = w.spec_create();
    let ops2 = ops.push(StorageOp::CreateEntity);
    lemma_ops_push(w1, ops, StorageOp::CreateEntity);
}

/// Applying one more operation after a sequence is the same as applying the
/// extended sequence.
pub proof fn lemma_ops_push<C: Component>(
    w: StorageView<C>,
    ops: Seq<StorageOp<C>>,
    op: StorageOp<C>,
)
    ensures
        apply_ops(w, ops.push(op)) == apply_op(apply_ops(w, ops), op),
    decreases ops.len(),
{
    let extended = ops.push(op);
    if ops.len() == 0 {
        assert(extended[0] == op);
        assert(extended.drop_first() =~= Seq::<StorageOp<C>>::empty());
        assert(apply_ops(apply_op(w, op), Seq::<StorageOp<C>>::empty()) == apply_op(w, op));
        assert(apply_ops(w, extended) == apply_op(w, op));
    } else {
        assert(extended[0] == ops[0]);
        assert(extended.drop_first() =~= ops.drop_first().push(op));
        lemma_ops_push(apply_op(w, ops[0]), ops.drop_first(), op);
        assert(apply_ops(w, extended) == apply_ops(apply_op(w, ops[0]), extended.drop_first()));
    }
}

/// Replacing one slot's content moves nothing: the registry resolves every
/// entity and token to the same place afterwards.
pub proof fn lemma_with_slot_same_index<C: Component>(
    w: StorageView<C>,
    vi: int,
    ci: int,
    s: Slot<C>,
    eid: int,
    token: u64,
)
    requires
        w.wf(),
        0 <= vi < w.vecs.len(),
        0 <= ci < w.vecs[vi].slots.len(),
    ensures
        w.with_slot(vi, ci, s).slot_index_of(eid, token) == w.slot_index_of(eid, token),
{
    let w2 = w.with_slot(vi, ci, s);
    assert(forall|a: int|
        0 <= a < w.vecs.len() ==> (#[trigger] w2.vecs[a]).token == w.vecs[a].token
            && w2.vecs[a].slots.len() == w.vecs[a].slots.len());
    if w.has_vec(token) {
        let i = w.vec_at(token);
        assert(w.vecs[i].token == token);
        assert(w2.vecs[i].token == token);
        assert(w2.has_vec(token));
        let i2 = w2.vec_at(token);
        assert(w2.vecs[i2].token == token);
        assert(w.vecs[i2].token == token);
        assert(i2 == i);
    } else {
        if w2.has_vec(token) {
            let i2 = w2.vec_at(token);
            assert(w.vecs[i2].token == token);
            assert(false);
        }
    }
}

/// Two storages with identically laid out collections (same count, same
/// tokens) resolve every token to the same collection index.
pub proof fn lemma_same_tokens_same_vec_at<C: Component>(
    w: StorageView<C>,
    w2: StorageView<C>,
    token: u64,
)
    requires
        w.wf(),
        w2.vecs.len() == w.vecs.len(),
        forall|a: int| 0 <= a < w.vecs.len() ==> (#[trigger] w2.vecs[a]).token == w.vecs[a].token,
    ensures
        w2.has_vec(token) == w.has_vec(token),
        w.has_vec(token) ==> w2.vec_at(token) == w.vec_at(token),
{
    if w.has_vec(token) {
        let i = w.vec_at(token);
        assert(w.vecs[i].token == token);
        assert(w2.vecs[i].token == token);
        assert(w2.has_vec(token));
        let i2 = w2.vec_at(token);
        assert(w2.vecs[i2].token == token);
        assert(w.vecs[i2].token == token);
        assert(i2 == i);
    } else {
        if w2.has_vec(token) {
            let i2 = w2.vec_at(token);
            assert(w.vecs[i2].token == token);
            assert(false);
        }
    }
}

/// Appending a collection for a new token resolves every other token as
/// before, and resolves the new token to the appended collection.
pub proof fn lemma_push_vec_resolution<C: Component>(
    w: StorageView<C>,
    cv: ComponentVecView<C>,
    u: u64,
)
    requires
        w.wf(),
        !w.has_vec(cv.token),
    ensures
        u != cv.token ==> w.spec_add_vec(cv).has_vec(u) == w.has_vec(u),
        u != cv.token && w.has_vec(u) ==> w.spec_add_vec(cv).vec_at(u) == w.vec_at(u),
        u == cv.token ==> w.spec_add_vec(cv).has_vec(u) && w.spec_add_vec(cv).vec_at(u)
            == w.vecs.len(),
{
    let w2 = w.spec_add_vec(cv);
    assert(w2.vecs[w.vecs.len() as int].token == cv.token);
    if u == cv.token {
        assert(w2.has_vec(u));
        let i2 = w2.vec_at(u);
        assert(w2.vecs[i2].token == u);
        if i2 < w.vecs.len() {
            assert(w.vecs[i2].token == u);
            assert(false);
        }
    } else {
        if w.has_vec(u) {
            let i = w.vec_at(u);
            assert(w.vecs[i].token == u);
            assert(w2.vecs[i].token == u);
            assert(w2.has_vec(u));
            let i2 = w2.vec_at(u);
            assert(w2.vecs[i2].token == u);
            if i2 < w.vecs.len() {
                assert(w.vecs[i2].token == u);
                assert(i2 == i);
            } else {
                assert(w2.vecs[i2].token == cv.token);
                assert(false);
            }
        } else {
            if w2.has_vec(u) {
                let i2 = w2.vec_at(u);
                assert(w2.vecs[i2].token == u);
                if i2 < w.vecs.len() {
                    assert(w.vecs[i2].token == u);
                }
                assert(false);
            }
        }
    }
}

/// What registering `v` against an entity does, in full: the entity's row
/// maps `v`'s type to the fresh component id; looking that type up on the
/// entity returns exactly `v`; every older instance of the type keeps its
/// place in the collection; every other type on the entity, every lookup
/// that succeeded elsewhere, and every absence elsewhere, is as before.
pub proof fn lemma_register_effect<C: Component>(w: StorageView<C>, eid: int, v: C)
    requires
        w.wf(),
        0 <= eid < w.rows.len(),
        w.row_of(eid) is Some,
        w.has_vec(v.token()) ==> w.vecs[w.vec_at(v.token())].slots.len() < usize::MAX,
    ensures
        ({
            let (w2, id) = w.spec_register(eid, v);
            &&& w2.wf()
            &&& w2.rows.len() == w.rows.len()
            &&& w2.row_of(eid) is Some
            &&& w2.next == w.next
            &&& w2.alive == w.alive
            &&& w2.component_id_of(eid, v.token()) == Some(id)
            &&& w2.lookup(eid, v.token()) == Some(v)
            &&& w2.has_vec(v.token())
            &&& (w.has_vec(v.token()) ==> id == w.vecs[w.vec_at(v.token())].slots.len()
                && w2.vec_at(v.token()) == w.vec_at(v.token()) && w2.vecs[w2.vec_at(
                v.token(),
            )].slots.len() == w.vecs[w.vec_at(v.token())].slots.len() + 1 && (forall|b: int|
                0 <= b < w.vecs[w.vec_at(v.token())].slots.len() ==> (#[trigger] w2.vecs[w2.vec_at(
                    v.token(),
                )].slots[b]) == w.vecs[w.vec_at(v.token())].slots[b]))
            &&& (!w.has_vec(v.token()) ==> id == 0)
            &&& (forall|u: u64| u != v.token() ==> #[trigger] w2.lookup(eid, u) == w.lookup(eid, u))
            &&& (forall|e2: int, u: u64|
                e2 != eid && #[trigger] w.lookup(e2, u) is Some ==> w2.lookup(e2, u) == w.lookup(
                    e2,
                    u,
                ))
            &&& (forall|e2: int, u: u64|
                e2 != eid && #[trigger] w.component_id_of(e2, u) is None ==> w2.lookup(
                    e2,
                    u,
                ) is None)
        }),
{
    let token = v.token();
    let (w2, id) = w.spec_register(eid, v);
    let row = w.row_of(eid)->Some_0;
    let fresh = Slot { value: v, readers: 0usize, taken: false };
    if w.has_vec(token) {
        let vi = w.vec_at(token);
        assert(w.vecs[vi].token == token);
        assert(0 <= vi < w.vecs.len());
        assert(forall|a: int|
            0 <= a < w.vecs.len() ==> (#[trigger] w2.vecs[a]).token == w.vecs[a].token);
        lemma_same_tokens_same_vec_at(w, w2, token);
        assert(w2.vecs[vi].slots == w.vecs[vi].slots.push(fresh));
        assert(w2.component_id_of(eid, token) == Some(id));
        assert(w2.lookup(eid, token) == Some(v));
        assert forall|u: u64| u != token implies #[trigger] w2.lookup(eid, u) == w.lookup(
            eid,
            u,
        ) by {
            lemma_same_tokens_same_vec_at(w, w2, u);
            if w.has_vec(u) {
                assert(w.vecs[w.vec_at(u)].token == u);
                assert(w.vec_at(u) != vi);
                assert(w2.vecs[w.vec_at(u)] == w.vecs[w.vec_at(u)]);
            }
        }
        assert forall|e2: int, u: u64|
            e2 != eid && #[trigger] w.lookup(e2, u) is Some implies w2.lookup(e2, u) == w.lookup(
            e2,
            u,
        ) by {
            lemma_same_tokens_same_vec_at(w, w2, u);
            assert(w2.row_of(e2) == w.row_of(e2));
            if w.vec_at(u) != vi {
                assert(w2.vecs[w.vec_at(u)] == w.vecs[w.vec_at(u)]);
            }
        }
        assert forall|e2: int, u: u64|
            e2 != eid && #[trigger] w.component_id_of(e2, u) is None implies w2.lookup(
            e2,
            u,
        ) is None by {
            assert(w2.row_of(e2) == w.row_of(e2));
        }
        assert(w2.wf());
    } else {
        let cv = ComponentVecView { token, slots: seq![fresh] };
        assert(w2.vecs == w.vecs.push(cv));
        lemma_push_vec_resolution(w, cv, token);
        assert(w2.vec_at(token) == w.vecs.len());
        assert(w2.vecs[w.vecs.len() as int] == cv);
        assert(cv.slots[0] == fresh);
        assert(w2.component_id_of(eid, token) == Some(id));
        assert(w2.lookup(eid, token) == Some(v));
        assert forall|u: u64| u != token implies #[trigger] w2.lookup(eid, u) == w.lookup(
            eid,
            u,
        ) by {
            lemma_push_vec_resolution(w, cv, u);
            if w.has_vec(u) {
                assert(w2.vecs[w.vec_at(u)] == w.vecs[w.vec_at(u)]);
            }
        }
        assert forall|e2: int, u: u64|
            e2 != eid && #[trigger] w.lookup(e2, u) is Some implies w2.lookup(e2, u) == w.lookup(
            e2,
            u,
        ) by {
            lemma_push_vec_resolution(w, cv, u);
            assert(w2.row_of(e2) == w.row_of(e2));
            if u != token && w.has_vec(u) {
                assert(w2.vecs[w.vec_at(u)] == w.vecs[w.vec_at(u)]);
            }
        }
        assert forall|e2: int, u: u64|
            e2 != eid && #[trigger] w.component_id_of(e2, u) is None implies w2.lookup(
            e2,
            u,
        ) is None by {
            lemma_push_vec_resolution(w, cv, u);
            assert(w2.row_of(e2) == w.row_of(e2));
        }
        assert(w2.wf());
    }
}

/// Registering a second instance of one type on one entity shadows the
/// first: lookups through the entity return only the newer value, under a
/// fresh component id, while the older instance keeps its old component id
/// in the collection, reachable only by direct index.
pub proof fn lemma_second_registration_shadows<C: Component>(
    w: StorageView<C>,
    eid: int,
    v1: C,
    v2: C,
)
    requires
        w.wf(),
        0 <= eid < w.rows.len(),
        w.row_of(eid) is Some,
        v2.token() == v1.token(),
        w.has_vec(v1.token()) ==> w.vecs[w.vec_at(v1.token())].slots.len() + 1 < usize::MAX,
    ensures
        ({
            let (w1, id1) = w.spec_register(eid, v1);
            let (w2, id2) = w1.spec_register(eid, v2);
            &&& w2.lookup(eid, v1.token()) == Some(v2)
            &&& w2.component_id_of(eid, v1.token()) == Some(id2)
            &&& id2 != id1
            &&& w2.has_vec(v1.token())
            &&& w2.vecs[w2.vec_at(v1.token())].slots[id1 as int].value == v1
        }),
{
    let token = v1.token();
    lemma_register_effect(w, eid, v1);
    let (w1, id1) = w.spec_register(eid, v1);
    let (w2, id2) = w1.spec_register(eid, v2);
    lemma_register_effect(w1, eid, v2);
    assert(w1.lookup(eid, token) == Some(v1));
    assert(w1.component_id_of(eid, token) == Some(id1));
    let vi1 = w1.vec_at(token);
    assert(id1 < w1.vecs[vi1].slots.len());
    assert(w1.vecs[vi1].slots[id1 as int].value == v1);
    assert(id2 == w1.vecs[vi1].slots.len());
    assert(w2.vec_at(token) == vi1);
    assert(w2.vecs[w2.vec_at(token)].slots[id1 as int] == w1.vecs[vi1].slots[id1 as int]);
}

/// A lookup for an entity identifier never produced by entity creation, or
/// for one whose entity was removed, is absent for every type token; and
/// removing one entity leaves every other entity's lookups untouched.
pub proof fn lemma_unknown_entity_absent<C: Component>(w: StorageView<C>, eid: int, token: u64)
    requires
        w.wf(),
    ensures
        eid < 0 || eid >= w.next ==> w.lookup(eid, token) is None,
        0 <= eid < w.next ==> w.spec_remove(eid).lookup(eid, token) is None,
        0 <= eid < w.next ==> forall|e2: int, u: u64|
            e2 != eid ==> #[trigger] w.spec_remove(eid).lookup(e2, u) == w.lookup(e2, u),
{
    if eid < 0 || eid >= w.next {
        assert(w.row_of(eid) is None);
    } else {
        let w2 = w.spec_remove(eid);
        assert(w2.rows[eid] is None);
        assert(w2.row_of(eid) is None);
        assert forall|e2: int, u: u64| e2 != eid implies #[trigger] w2.lookup(e2, u) == w.lookup(
            e2,
            u,
        ) by {
            assert(w2.row_of(e2) == w.row_of(e2));
            assert(w2.vecs == w.vecs);
        }
    }
}

/// Borrow discipline on one slot: while a shared borrow is outstanding,
/// another shared borrow still succeeds but the exclusive borrow conflicts;
/// while the exclusive borrow is outstanding, every further acquisition,
/// shared or exclusive, conflicts.
pub proof fn lemma_borrow_discipline<C: Component>(w: StorageView<C>, eid: int, token: u64)
    requires
        w.wf(),
    ensures
        w.can_read(eid, token) ==> ({
            let w1 = w.spec_acquire_shared(eid, token);
            &&& w1.write_blocked(eid, token)
            &&& !w1.can_write(eid, token)
            &&& (w1.slot_of(eid, token)->Some_0.readers < usize::MAX ==> w1.can_read(eid, token))
        }),
        w.can_write(eid, token) ==> ({
            let w2 = w.spec_acquire_mut(eid, token);
            &&& w2.read_blocked(eid, token)
            &&& !w2.can_read(eid, token)
            &&& w2.write_blocked(eid, token)
            &&& !w2.can_write(eid, token)
        }),
{
    if w.slot_of(eid, token) is Some {
        let (vi, ci) = w.slot_index_of(eid, token)->Some_0;
        assert(vi == w.vec_at(token));
        assert(0 <= vi < w.vecs.len());
        assert(0 <= ci < w.vecs[vi].slots.len());
        let s = w.vecs[vi].slots[ci];
        if w.can_read(eid, token) {
            let s1 = Slot { value: s.value, readers: (s.readers + 1) as usize, taken: s.taken };
            lemma_with_slot_same_index(w, vi, ci, s1, eid, token);
            let w1 = w.spec_acquire_shared(eid, token);
            assert(w1.slot_of(eid, token) == Some(s1));
        }
        if w.can_write(eid, token) {
            let s2 = Slot { value: s.value, readers: s.readers, taken: true };
            lemma_with_slot_same_index(w, vi, ci, s2, eid, token);
            let w2 = w.spec_acquire_mut(eid, token);
            assert(w2.slot_of(eid, token) == Some(s2));
        }
    }
}

} // verus!
