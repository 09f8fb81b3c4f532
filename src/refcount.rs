use vstd::prelude::*;
use vstd::set::fold::{is_fun_commutative, lemma_fold_empty, lemma_fold_insert};

use std::collections::HashMap;

use crate::dfut::DFutData;
use crate::store::StoreError;
use crate::types::{InstanceId, NIL_INSTANCE};

verus! {

broadcast use vstd::std_specs::hash::group_hash_axioms;

/// The counter of instance `k`; an instance that is not in the map counts 0.
pub open spec fn count(m: Map<InstanceId, i32>, k: InstanceId) -> int {
    if m.contains_key(k) {
        m[k] as int
    } else {
        0
    }
}

/// Sets the counter of `k` to `v`, dropping the key when `v` is 0.
pub open spec fn set_count(m: Map<InstanceId, i32>, k: InstanceId, v: int) -> Map<InstanceId, i32> {
    if v == 0 {
        m.remove(k)
    } else {
        m.insert(k, v as i32)
    }
}

/// Every counter in the map is positive: a counter that reaches 0 is dropped.
pub open spec fn counters_positive(m: Map<InstanceId, i32>) -> bool {
    forall|k: InstanceId| m.contains_key(k) ==> m[k] > 0
}

/// The map after the first step of a ref-delta: the parent loses one.
pub open spec fn after_parent(m: Map<InstanceId, i32>, d: DFutData) -> Map<InstanceId, i32> {
    set_count(m, d.parent, count(m, d.parent) - 1)
}

/// A ref-delta may be applied when no counter goes below 0 and the new
/// counter of the instance fits an `i32`.
pub open spec fn delta_valid(m: Map<InstanceId, i32>, d: DFutData) -> bool {
    &&& count(m, d.parent) >= 1
    &&& 0 <= count(after_parent(m, d), d.instance_id) + d.children <= i32::MAX
}

/// The map after a ref-delta: the parent loses the reference that is gone,
/// and the instance gains the clones that were taken from it.
pub open spec fn apply_delta(m: Map<InstanceId, i32>, d: DFutData) -> Map<InstanceId, i32> {
    let m1 = after_parent(m, d);
    set_count(m1, d.instance_id, count(m1, d.instance_id) + d.children)
}

/// The instance map of a slot that was just created: the one reference held
/// by the caller of the spawn.
pub open spec fn initial_instances() -> Map<InstanceId, i32> {
    map![NIL_INSTANCE => 1i32]
}

/// The number of references that an instance map stands for: the sum of
/// its counters.
pub open spec fn total(m: Map<InstanceId, i32>) -> int {
    m.dom().fold(0int, adder(m))
}

/// The step of `total`'s sum: adds the counter of one instance.
pub open spec fn adder(m: Map<InstanceId, i32>) -> spec_fn(int, InstanceId) -> int {
    |acc: int, k: InstanceId| acc + count(m, k)
}

proof fn lemma_adder_commutative(m: Map<InstanceId, i32>)
    ensures
        is_fun_commutative(adder(m)),
{
    assert forall|a1: InstanceId, a2: InstanceId, b: int|
        #[trigger] adder(m)(adder(m)(b, a1), a2) == adder(m)(adder(m)(b, a2), a1) by {}
}

/// Taking one key out of a sum.
proof fn lemma_fold_split(s: Set<InstanceId>, m: Map<InstanceId, i32>, k: InstanceId)
    requires
        s.finite(),
        s.contains(k),
    ensures
        s.fold(0int, adder(m)) == s.remove(k).fold(0int, adder(m)) + count(m, k),
{
    lemma_adder_commutative(m);
    lemma_fold_insert(s.remove(k), 0int, adder(m), k);
    assert(s.remove(k).insert(k) =~= s);
}

/// Two maps whose counters agree on `s` have the same sum over `s`.
proof fn lemma_fold_agree(s: Set<InstanceId>, m1: Map<InstanceId, i32>, m2: Map<InstanceId, i32>)
    requires
        s.finite(),
        forall|k: InstanceId| s.contains(k) ==> count(m1, k) == count(m2, k),
    ensures
        s.fold(0int, adder(m1)) == s.fold(0int, adder(m2)),
    decreases s.len(),
{
    if s.is_empty() {
        assert(s =~= Set::<InstanceId>::empty());
        lemma_fold_empty(0int, adder(m1));
        lemma_fold_empty(0int, adder(m2));
    } else {
        let k = s.choose();
        lemma_fold_agree(s.remove(k), m1, m2);
        lemma_fold_split(s, m1, k);
        lemma_fold_split(s, m2, k);
    }
}

/// Over keys with positive counters, the sum is at least the number of keys.
proof fn lemma_fold_positive(s: Set<InstanceId>, m: Map<InstanceId, i32>)
    requires
        s.finite(),
        counters_positive(m),
        s.subset_of(m.dom()),
    ensures
        s.fold(0int, adder(m)) >= s.len(),
    decreases s.len(),
{
    if s.is_empty() {
        assert(s =~= Set::<InstanceId>::empty());
        lemma_fold_empty(0int, adder(m));
    } else {
        let k = s.choose();
        lemma_fold_positive(s.remove(k), m);
        lemma_fold_split(s, m, k);
    }
}

/// Setting one counter changes the sum by the difference.
proof fn lemma_total_set_count(m: Map<InstanceId, i32>, k: InstanceId, v: int)
    requires
        m.dom().finite(),
        0 <= v <= i32::MAX,
    ensures
        total(set_count(m, k, v)) == total(m) - count(m, k) + v,
{
    let m2 = set_count(m, k, v);
    let rest = m.dom().remove(k);
    assert forall|j: InstanceId| rest.contains(j) implies count(m, j) == count(m2, j) by {}
    lemma_fold_agree(rest, m, m2);
    if m.dom().contains(k) {
        lemma_fold_split(m.dom(), m, k);
    } else {
        assert(rest =~= m.dom());
    }
    if v == 0 {
        assert(m2.dom() =~= rest);
    } else {
        assert(m2.dom().remove(k) =~= rest);
        lemma_fold_split(m2.dom(), m2, k);
    }
}

/// With positive counters, the sum is zero exactly when the map is empty.
pub proof fn lemma_total_zero_iff_empty(m: Map<InstanceId, i32>)
    requires
        m.dom().finite(),
        counters_positive(m),
    ensures
        total(m) >= 0,
        total(m) == 0 <==> m.is_empty(),
{
    lemma_fold_positive(m.dom(), m);
    if m.is_empty() {
        assert(m.dom() =~= Set::<InstanceId>::empty());
        lemma_fold_empty(0int, adder(m));
    } else {
        assert(m.dom().len() > 0) by {
            let k = m.dom().choose();
            assert(m.dom().contains(k));
        }
    }
}

/// A slot that was just created stands for exactly one reference.
pub proof fn lemma_initial_total()
    ensures
        total(initial_instances()) == 1,
        counters_positive(initial_instances()),
{
    let m = initial_instances();
    lemma_total_set_count(Map::<InstanceId, i32>::empty(), NIL_INSTANCE, 1);
    assert(Map::<InstanceId, i32>::empty().dom() =~= Set::<InstanceId>::empty());
    lemma_fold_empty(0int, adder(Map::<InstanceId, i32>::empty()));
    assert(set_count(Map::<InstanceId, i32>::empty(), NIL_INSTANCE, 1) =~= m);
}

/// Conservation of references under a ref-delta: the reference that is gone
/// leaves the sum, the clones taken from it join it, and the map becomes
/// empty exactly when no reference is left.
pub proof fn lemma_delta_conserves(m: Map<InstanceId, i32>, d: DFutData)
    requires
        m.dom().finite(),
        counters_positive(m),
        delta_valid(m, d),
    ensures
        counters_positive(apply_delta(m, d)),
        apply_delta(m, d).dom().finite(),
        total(apply_delta(m, d)) == total(m) - 1 + d.children,
        total(apply_delta(m, d)) == 0 <==> apply_delta(m, d).is_empty(),
{
    let m1 = after_parent(m, d);
    lemma_total_set_count(m, d.parent, count(m, d.parent) - 1);
    lemma_total_set_count(m1, d.instance_id, count(m1, d.instance_id) + d.children);
    lemma_total_zero_iff_empty(apply_delta(m, d));
}

/// Applies a ref-delta to an instance map, in place. Returns whether the
/// map is now empty; on an invalid delta the map is left as it was.
pub fn update_instances(instances: &mut HashMap<InstanceId, i32>, data: &DFutData) -> (r: Result<
    bool,
    StoreError,
>)
    requires
        counters_positive(old(instances)@),
    ensures
        counters_positive(final(instances)@),
        match r {
            Ok(empty) => {
                &&& delta_valid(old(instances)@, *data)
                &&& final(instances)@ == apply_delta(old(instances)@, *data)
                &&& empty == final(instances)@.is_empty()
            },
            Err(e) => {
                &&& !delta_valid(old(instances)@, *data)
                &&& e == StoreError::InvalidDelta
                &&& final(instances)@ == old(instances)@
            },
        },
{
    let parent_count: i32 = match instances.get(&data.parent) {
        Some(c) => *c,
        None => 0,
    };
    if parent_count < 1 {
        return Err(StoreError::InvalidDelta);
    }
    let left: i32 = parent_count - 1;
    let ghost m1 = after_parent(instances@, *data);
    let curr_count: i64 = if data.instance_id == data.parent {
        left as i64
    } else {
        match instances.get(&data.instance_id) {
            Some(c) => *c as i64,
            None => 0,
        }
    };
    assert(curr_count == count(m1, data.instance_id));
    let curr: i64 = curr_count + data.children as i64;
    if curr < 0 || curr > i32::MAX as i64 {
        return Err(StoreError::InvalidDelta);
    }
    if left == 0 {
        instances.remove(&data.parent);
    } else {
        instances.insert(data.parent, left);
    }
    assert(instances@ == m1);
    if curr == 0 {
        instances.remove(&data.instance_id);
    } else {
        instances.insert(data.instance_id, curr as i32);
    }
    Ok(instances.is_empty())
}

} // verus!
