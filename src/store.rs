use vstd::prelude::*;

use std::collections::HashMap;

use crate::dfut::DFutData;
use crate::refcount::{
    apply_delta, counters_positive, delta_valid, initial_instances, lemma_delta_conserves,
    lemma_initial_total, total, update_instances,
};
use crate::types::{DFutId, InstanceId, NIL_INSTANCE};

verus! {

broadcast use vstd::std_specs::hash::group_hash_axioms;

/// What can go wrong in the task store. Each is a bug in the caller, not in
/// user data, and is fatal to the node.
#[derive(PartialEq, Eq, Structural, Debug, Clone, Copy)]
pub enum StoreError {
    /// A second creation of a slot that was already created.
    AlreadyCreated,
    /// A ref-delta that would drive a counter below zero or out of range.
    InvalidDelta,
}

/// The state of a slot's value: still being computed, with the handle that
/// waiters subscribe through, or ready.
pub enum SlotValue<V, W> {
    Pending(W),
    Ready(V),
}

/// What a consumer gets from the store: a handle to wait on, or the value.
pub enum PendingValue<V, W> {
    Pending(W),
    Value(V),
}

/// A slot as the contracts see it.
pub struct SlotModel<V, W> {
    pub value: SlotValue<V, W>,
    /// Whether the task that computes the value has been put in the store.
    pub created: bool,
    pub instances: Map<InstanceId, i32>,
}

/// A slot of the store.
struct Entry<V, W> {
    value: SlotValue<V, W>,
    created: bool,
    instances: HashMap<InstanceId, i32>,
}

impl<V, W> View for Entry<V, W> {
    type V = SlotModel<V, W>;

    closed spec fn view(&self) -> SlotModel<V, W> {
        SlotModel { value: self.value, created: self.created, instances: self.instances@ }
    }
}

/// A slot is well formed when its counters are positive and a slot whose
/// task was never put is still pending.
pub open spec fn slot_wf<V, W>(s: SlotModel<V, W>) -> bool {
    &&& counters_positive(s.instances)
    &&& s.instances.dom().finite()
    &&& !s.created ==> s.value is Pending
}

/// A slot that a consumer or a ref-delta reached before its task was put.
pub open spec fn new_slot<V, W>(waiter: W) -> SlotModel<V, W> {
    SlotModel { value: SlotValue::Pending(waiter), created: false, instances: initial_instances() }
}

/// The slot `id` of `m`, or a new one where there is none yet.
pub open spec fn slot_or_new<V, W>(m: Map<DFutId, SlotModel<V, W>>, id: DFutId, waiter: W) -> SlotModel<
    V,
    W,
> {
    if m.contains_key(id) {
        m[id]
    } else {
        new_slot(waiter)
    }
}

/// A task may be put for `id` unless one was put already.
pub open spec fn put_allowed<V, W>(m: Map<DFutId, SlotModel<V, W>>, id: DFutId) -> bool {
    !(m.contains_key(id) && m[id].created)
}

/// The store after a task was put for `id`.
pub open spec fn store_after_put<V, W>(m: Map<DFutId, SlotModel<V, W>>, id: DFutId, waiter: W) -> Map<
    DFutId,
    SlotModel<V, W>,
> {
    m.insert(id, SlotModel { created: true, ..slot_or_new(m, id, waiter) })
}

/// A consumer's ref-delta is accepted by the slot it names.
pub open spec fn get_allowed<V, W>(m: Map<DFutId, SlotModel<V, W>>, d: DFutData, waiter: W) -> bool {
    delta_valid(slot_or_new(m, d.id, waiter).instances, d)
}

/// The store after a consumer's ref-delta: the slot goes once no reference
/// to it is left.
pub open spec fn store_after_get<V, W>(m: Map<DFutId, SlotModel<V, W>>, d: DFutData, waiter: W) -> Map<
    DFutId,
    SlotModel<V, W>,
> {
    let s = slot_or_new(m, d.id, waiter);
    let left = apply_delta(s.instances, d);
    if left.is_empty() {
        m.remove(d.id)
    } else {
        m.insert(d.id, SlotModel { instances: left, ..s })
    }
}

/// What a consumer observes: the state of the slot's value when it asked.
pub open spec fn observed<V, W>(m: Map<DFutId, SlotModel<V, W>>, d: DFutData, waiter: W) -> SlotValue<
    V,
    W,
> {
    slot_or_new(m, d.id, waiter).value
}

/// `r` hands out `v`: the ready value, or the handle to wait on.
pub open spec fn hands_out<V: Clone, W: Clone>(v: SlotValue<V, W>, r: PendingValue<V, W>) -> bool {
    match (v, r) {
        (SlotValue::Pending(w), PendingValue::Pending(w2)) => cloned(w, w2),
        (SlotValue::Ready(x), PendingValue::Value(x2)) => cloned(x, x2),
        _ => false,
    }
}

/// A slot's task is put at most once: after a put, a second put for the same
/// slot fails, and so does one after any consumer's ref-delta that leaves the
/// slot in the store.
pub proof fn lemma_put_once<V, W>(
    m: Map<DFutId, SlotModel<V, W>>,
    id: DFutId,
    waiter: W,
    d: DFutData,
    other: W,
)
    requires
        put_allowed(m, id),
    ensures
        !put_allowed(store_after_put(m, id, waiter), id),
        store_after_get(store_after_put(m, id, waiter), d, other).contains_key(id) ==> !put_allowed(
            store_after_get(store_after_put(m, id, waiter), d, other),
            id,
        ),
{
}

/// A ready value is observed by every consumer: two consumers of the same
/// slot, one after the other, both observe the value the slot holds, and the
/// first leaves it in place for the second.
pub proof fn lemma_observe_many<V, W>(
    m: Map<DFutId, SlotModel<V, W>>,
    v: V,
    d1: DFutData,
    w1: W,
    d2: DFutData,
    w2: W,
)
    requires
        m.contains_key(d1.id),
        m[d1.id].value == SlotValue::<V, W>::Ready(v),
        d2.id == d1.id,
        store_after_get(m, d1, w1).contains_key(d1.id),
    ensures
        observed(m, d1, w1) == SlotValue::<V, W>::Ready(v),
        store_after_get(m, d1, w1)[d1.id].value == SlotValue::<V, W>::Ready(v),
        observed(store_after_get(m, d1, w1), d2, w2) == SlotValue::<V, W>::Ready(v),
{
}

/// Reference-count conservation at the store: a consumer's ref-delta takes
/// one reference from its slot and adds the clones taken from it, and the
/// slot leaves the store exactly when no reference to it is left. A slot
/// that a delta reaches before its task was put starts with the one
/// reference of the spawn's caller.
pub proof fn lemma_slot_conserves<V, W>(m: Map<DFutId, SlotModel<V, W>>, d: DFutData, waiter: W)
    requires
        m.contains_key(d.id) ==> slot_wf(m[d.id]),
        get_allowed(m, d, waiter),
    ensures
        total(slot_or_new(m, d.id, waiter).instances) >= 1,
        !m.contains_key(d.id) ==> total(slot_or_new(m, d.id, waiter).instances) == 1,
        !store_after_get(m, d, waiter).contains_key(d.id) <==> total(
            apply_delta(slot_or_new(m, d.id, waiter).instances, d),
        ) == 0,
        store_after_get(m, d, waiter).contains_key(d.id) ==> total(
            store_after_get(m, d, waiter)[d.id].instances,
        ) == total(slot_or_new(m, d.id, waiter).instances) - 1 + d.children,
{
    let s = slot_or_new(m, d.id, waiter);
    lemma_initial_total();
    assert(initial_instances().dom() =~= set![NIL_INSTANCE]);
    lemma_delta_conserves(s.instances, d);
    crate::refcount::lemma_total_zero_iff_empty(s.instances);
    if !s.instances.is_empty() {
        assert(total(s.instances) != 0);
    }
}

impl<V: Clone, W: Clone> Entry<V, W> {
    fn new(waiter: W) -> (r: Self)
        ensures
            r@ == new_slot::<V, W>(waiter),
    {
        let mut instances = HashMap::new();
        instances.insert(NIL_INSTANCE, 1i32);
        assert(instances@ =~= initial_instances());
        Entry { value: SlotValue::Pending(waiter), created: false, instances }
    }

    fn get(&self) -> (r: PendingValue<V, W>)
        ensures
            hands_out(self@.value, r),
    {
        match &self.value {
            SlotValue::Pending(w) => PendingValue::Pending(w.clone()),
            SlotValue::Ready(v) => PendingValue::Value(v.clone()),
        }
    }

    fn take(self) -> (r: PendingValue<V, W>)
        ensures
            hands_out(self@.value, r),
    {
        match self.value {
            SlotValue::Pending(w) => PendingValue::Pending(w),
            SlotValue::Ready(v) => PendingValue::Value(v),
        }
    }
}

/// The slots of one node, indexed by future id.
pub struct TaskStore<V, W> {
    map: HashMap<DFutId, Entry<V, W>>,
}

impl<V, W> View for TaskStore<V, W> {
    type V = Map<DFutId, SlotModel<V, W>>;

    closed spec fn view(&self) -> Map<DFutId, SlotModel<V, W>> {
        self.map@.map_values(|e: Entry<V, W>| e@)
    }
}

impl<V: Clone, W: Clone> TaskStore<V, W> {
    /// Every slot of the store is well formed.
    pub open spec fn wf(&self) -> bool {
        forall|id: DFutId| #[trigger] self@.contains_key(id) ==> slot_wf(self@[id])
    }

    pub fn new() -> (r: Self)
        ensures
            r.wf(),
            r@ == Map::<DFutId, SlotModel<V, W>>::empty(),
    {
        let r = TaskStore { map: HashMap::new() };
        assert(r@ =~= Map::<DFutId, SlotModel<V, W>>::empty());
        r
    }

    /// Records that the task computing slot `id` has started. `waiter` is
    /// the handle for the slot if it does not exist yet. Returns the handle
    /// through which the task's result must be sent.
    pub fn put(&mut self, id: DFutId, waiter: W) -> (r: Result<W, StoreError>)
        requires
            old(self).wf(),
        ensures
            final(self).wf(),
            match r {
                Ok(w) => {
                    &&& put_allowed(old(self)@, id)
                    &&& final(self)@ == store_after_put(old(self)@, id, waiter)
                    &&& slot_or_new(old(self)@, id, waiter).value matches SlotValue::Pending(pw)
                        && cloned(pw, w)
                },
                Err(e) => {
                    &&& !put_allowed(old(self)@, id)
                    &&& e == StoreError::AlreadyCreated
                    &&& final(self)@ == old(self)@
                },
            },
    {
        let ghost m = self@;
        let mut entry = match self.map.remove(&id) {
            Some(e) => e,
            None => Entry::new(waiter),
        };
        assert(entry@ == slot_or_new(m, id, waiter));
        if entry.created {
            self.map.insert(id, entry);
            assert(self@ =~= m);
            return Err(StoreError::AlreadyCreated);
        }
        entry.created = true;
        let w = match &entry.value {
            SlotValue::Pending(pw) => pw.clone(),
            SlotValue::Ready(_) => {
                assert(false);
                return Err(StoreError::AlreadyCreated);
            },
        };
        self.map.insert(id, entry);
        assert(self@ =~= store_after_put(m, id, waiter));
        Ok(w)
    }

    /// Applies a consumer's ref-delta to its slot and hands out what the
    /// consumer waits for. `waiter` is the handle for the slot if it does
    /// not exist yet. The slot leaves the store once no reference is left.
    pub fn get(&mut self, data: &DFutData, waiter: W) -> (r: Result<PendingValue<V, W>, StoreError>)
        requires
            old(self).wf(),
        ensures
            final(self).wf(),
            match r {
                Ok(p) => {
                    &&& get_allowed(old(self)@, *data, waiter)
                    &&& final(self)@ == store_after_get(old(self)@, *data, waiter)
                    &&& hands_out(observed(old(self)@, *data, waiter), p)
                },
                Err(e) => {
                    &&& !get_allowed(old(self)@, *data, waiter)
                    &&& e == StoreError::InvalidDelta
                    &&& final(self)@ == old(self)@
                },
            },
    {
        let ghost m = self@;
        let (mut entry, existed) = match self.map.remove(&data.id) {
            Some(e) => (e, true),
            None => (Entry::new(waiter), false),
        };
        assert(entry@ == slot_or_new(m, data.id, waiter));
        match update_instances(&mut entry.instances, data) {
            Err(e) => {
                if existed {
                    self.map.insert(data.id, entry);
                }
                assert(self@ =~= m);
                Err(e)
            },
            Ok(empty) => {
                if empty {
                    assert(self@ =~= store_after_get(m, *data, waiter));
                    Ok(entry.take())
                } else {
                    let p = entry.get();
                    self.map.insert(data.id, entry);
                    assert(self@ =~= store_after_get(m, *data, waiter));
                    Ok(p)
                }
            },
        }
    }

    /// Records the value computed for slot `id`. Returns false when the slot
    /// has already left the store (its waiters hold the handle) or was
    /// already ready; the store is then unchanged.
    pub fn complete(&mut self, id: DFutId, value: V) -> (r: bool)
        requires
            old(self).wf(),
        ensures
            final(self).wf(),
            r == (old(self)@.contains_key(id) && old(self)@[id].value is Pending && old(
                self,
            )@[id].created),
            r ==> final(self)@ == old(self)@.insert(
                id,
                SlotModel { value: SlotValue::Ready(value), ..old(self)@[id] },
            ),
            !r ==> final(self)@ == old(self)@,
    {
        let ghost m = self@;
        match self.map.remove(&id) {
            None => {
                assert(self@ =~= m);
                false
            },
            Some(mut entry) => {
                let pending = match &entry.value {
                    SlotValue::Pending(_) => true,
                    SlotValue::Ready(_) => false,
                };
                if pending && entry.created {
                    entry.value = SlotValue::Ready(value);
                    self.map.insert(id, entry);
                    assert(self@ =~= m.insert(
                        id,
                        SlotModel { value: SlotValue::Ready(value), ..m[id] },
                    ));
                    true
                } else {
                    self.map.insert(id, entry);
                    assert(self@ =~= m);
                    false
                }
            },
        }
    }
}

} // verus!
