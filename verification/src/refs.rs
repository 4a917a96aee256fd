//! The reference-count model: how often a property value, an entity, or
//! the whole store references a given entity, and how those sums change
//! under point updates.  The directory's invariant states that every
//! entity's stored `reference_count` equals `store_refs` of the store.

use vstd::prelude::*;

use crate::ids::EntityId;
use crate::schema::PropertyValueView;
use crate::state::EntityView;

verus! {

/// How often one optional property value references the target.
pub open spec fn slot_refs(slot: Option<PropertyValueView>, target: EntityId) -> nat {
    match slot {
        Some(v) => v.refs_to(target),
        None => 0,
    }
}

/// How often an entity's value list references the target.
pub open spec fn values_refs(vals: Seq<Option<PropertyValueView>>, target: EntityId) -> nat
    decreases vals.len(),
{
    if vals.len() == 0 {
        0
    } else {
        values_refs(vals.drop_last(), target) + slot_refs(vals.last(), target)
    }
}

/// How often one optional entity references the target.
pub open spec fn entity_refs(slot: Option<EntityView>, target: EntityId) -> nat {
    match slot {
        Some(e) => values_refs(e.values, target),
        None => 0,
    }
}

/// How often the whole store references the target.
pub open spec fn store_refs(entities: Seq<Option<EntityView>>, target: EntityId) -> nat
    decreases entities.len(),
{
    if entities.len() == 0 {
        0
    } else {
        store_refs(entities.drop_last(), target) + entity_refs(entities.last(), target)
    }
}

/// Appending a value list slot adds its references.
pub proof fn lemma_values_refs_push(
    vals: Seq<Option<PropertyValueView>>,
    x: Option<PropertyValueView>,
    target: EntityId,
)
    ensures
        values_refs(vals.push(x), target) == values_refs(vals, target) + slot_refs(x, target),
{
    assert(vals.push(x).drop_last() =~= vals);
    assert(vals.push(x).last() == x);
}

/// Replacing one value list slot shifts the sum by the difference of the
/// old and the new slot.
pub proof fn lemma_values_refs_update(
    vals: Seq<Option<PropertyValueView>>,
    i: int,
    x: Option<PropertyValueView>,
    target: EntityId,
)
    requires
        0 <= i < vals.len(),
    ensures
        values_refs(vals.update(i, x), target) + slot_refs(vals[i], target) == values_refs(
            vals,
            target,
        ) + slot_refs(x, target),
    decreases vals.len(),
{
    if i == vals.len() - 1 {
        assert(vals.update(i, x).drop_last() =~= vals.drop_last());
        assert(vals.update(i, x).last() == x);
    } else {
        assert(vals.update(i, x).drop_last() =~= vals.drop_last().update(i, x));
        assert(vals.update(i, x).last() == vals.last());
        lemma_values_refs_update(vals.drop_last(), i, x, target);
        assert(vals.drop_last()[i] == vals[i]);
    }
}

/// One slot's references never exceed the list's sum.
pub proof fn lemma_values_refs_le(
    vals: Seq<Option<PropertyValueView>>,
    i: int,
    target: EntityId,
)
    requires
        0 <= i < vals.len(),
    ensures
        slot_refs(vals[i], target) <= values_refs(vals, target),
    decreases vals.len(),
{
    if i == vals.len() - 1 {
        assert(vals.last() == vals[i]);
    } else {
        lemma_values_refs_le(vals.drop_last(), i, target);
        assert(vals.drop_last()[i] == vals[i]);
    }
}

/// Appending an entity slot adds its references.
pub proof fn lemma_store_refs_push(
    entities: Seq<Option<EntityView>>,
    x: Option<EntityView>,
    target: EntityId,
)
    ensures
        store_refs(entities.push(x), target) == store_refs(entities, target) + entity_refs(
            x,
            target,
        ),
{
    assert(entities.push(x).drop_last() =~= entities);
    assert(entities.push(x).last() == x);
}

/// Replacing one entity slot shifts the sum by the difference of the old
/// and the new slot.
pub proof fn lemma_store_refs_update(
    entities: Seq<Option<EntityView>>,
    i: int,
    x: Option<EntityView>,
    target: EntityId,
)
    requires
        0 <= i < entities.len(),
    ensures
        store_refs(entities.update(i, x), target) + entity_refs(entities[i], target) == store_refs(
            entities,
            target,
        ) + entity_refs(x, target),
    decreases entities.len(),
{
    if i == entities.len() - 1 {
        assert(entities.update(i, x).drop_last() =~= entities.drop_last());
        assert(entities.update(i, x).last() == x);
    } else {
        assert(entities.update(i, x).drop_last() =~= entities.drop_last().update(i, x));
        assert(entities.update(i, x).last() == entities.last());
        lemma_store_refs_update(entities.drop_last(), i, x, target);
        assert(entities.drop_last()[i] == entities[i]);
    }
}

/// How often an entity id occurs in a list of ids.
pub open spec fn count_ids(s: Seq<EntityId>, target: EntityId) -> nat {
    s.to_multiset().count(target)
}

/// An entity slot with its reference count shifted and everything else
/// kept.
pub open spec fn rc_adjusted(slot: Option<EntityView>, delta: int) -> Option<EntityView> {
    match slot {
        Some(e) => Some(
            EntityView { reference_count: (e.reference_count + delta) as u32, ..e },
        ),
        None => None,
    }
}

/// Stores whose slots hold the same values reference every target equally,
/// whatever their reference counts say.
pub proof fn lemma_store_refs_congruence(
    dv1: Seq<Option<EntityView>>,
    dv2: Seq<Option<EntityView>>,
    target: EntityId,
)
    requires
        dv1.len() == dv2.len(),
        forall|i: int| 0 <= i < dv1.len() ==> entity_refs(#[trigger] dv1[i], target) == entity_refs(
            dv2[i],
            target,
        ),
    ensures
        store_refs(dv1, target) == store_refs(dv2, target),
    decreases dv1.len(),
{
    if dv1.len() > 0 {
        assert(entity_refs(dv1.last(), target) == entity_refs(dv2.last(), target));
        lemma_store_refs_congruence(dv1.drop_last(), dv2.drop_last(), target);
    }
}

/// Counting in a one-longer prefix adds the next element's occurrence.
pub proof fn lemma_count_take_step(s: Seq<EntityId>, j: int, target: EntityId)
    requires
        0 <= j < s.len(),
    ensures
        count_ids(s.take(j + 1), target) == count_ids(s.take(j), target) + (if s[j] == target {
            1int
        } else {
            0
        }),
{
    broadcast use vstd::seq_lib::to_multiset_build;

    assert(s.take(j + 1) =~= s.take(j).push(s[j]));
}

/// A prefix never holds more occurrences than the whole list.
pub proof fn lemma_count_take_le(s: Seq<EntityId>, j: int, target: EntityId)
    requires
        0 <= j <= s.len(),
    ensures
        count_ids(s.take(j), target) <= count_ids(s, target),
    decreases s.len() - j,
{
    if j == s.len() {
        assert(s.take(j) =~= s);
    } else {
        lemma_count_take_step(s, j, target);
        lemma_count_take_le(s, j + 1, target);
    }
}

/// Counting one more value list slot adds that slot's references.
pub proof fn lemma_values_refs_take_step(
    vals: Seq<Option<PropertyValueView>>,
    i: int,
    target: EntityId,
)
    requires
        0 <= i < vals.len(),
    ensures
        values_refs(vals.take(i + 1), target) == values_refs(vals.take(i), target) + slot_refs(
            vals[i],
            target,
        ),
{
    assert(vals.take(i + 1).drop_last() =~= vals.take(i));
    assert(vals.take(i + 1).last() == vals[i]);
}

/// A prefix of a value list never references more than the whole list.
pub proof fn lemma_values_refs_take_le(
    vals: Seq<Option<PropertyValueView>>,
    i: int,
    target: EntityId,
)
    requires
        0 <= i <= vals.len(),
    ensures
        values_refs(vals.take(i), target) <= values_refs(vals, target),
    decreases vals.len() - i,
{
    if i == vals.len() {
        assert(vals.take(i) =~= vals);
    } else {
        lemma_values_refs_take_step(vals, i, target);
        lemma_values_refs_take_le(vals, i + 1, target);
    }
}

/// Counting one more entity slot adds that entity's references.
pub proof fn lemma_store_refs_take_step(
    entities: Seq<Option<EntityView>>,
    i: int,
    target: EntityId,
)
    requires
        0 <= i < entities.len(),
    ensures
        store_refs(entities.take(i + 1), target) == store_refs(entities.take(i), target)
            + entity_refs(entities[i], target),
{
    assert(entities.take(i + 1).drop_last() =~= entities.take(i));
    assert(entities.take(i + 1).last() == entities[i]);
}

/// A prefix of the store never references more than the whole store.
pub proof fn lemma_store_refs_take_le(
    entities: Seq<Option<EntityView>>,
    i: int,
    target: EntityId,
)
    requires
        0 <= i <= entities.len(),
    ensures
        store_refs(entities.take(i), target) <= store_refs(entities, target),
    decreases entities.len() - i,
{
    if i == entities.len() {
        assert(entities.take(i) =~= entities);
    } else {
        lemma_store_refs_take_step(entities, i, target);
        lemma_store_refs_take_le(entities, i + 1, target);
    }
}

/// A slot adjusted by nothing is the slot itself.
pub proof fn lemma_rc_adjusted_zero(slot: Option<EntityView>)
    ensures
        rc_adjusted(slot, 0) == slot,
{
    match slot {
        Some(e) => {
            assert(rc_adjusted(slot, 0) == Some(
                EntityView { reference_count: (e.reference_count + 0) as u32, ..e },
            ));
        },
        None => {},
    }
}

/// The empty list holds no occurrences.
pub proof fn lemma_count_empty(x: EntityId)
    ensures
        count_ids(Seq::<EntityId>::empty(), x) == 0,
{
    let s = Seq::<EntityId>::empty();
    s.to_multiset_ensures();
    if count_ids(s, x) > 0 {
        assert(s.contains(x));
    }
}

/// A one-element list holds exactly one occurrence of its element.
pub proof fn lemma_count_singleton(t: EntityId, x: EntityId)
    ensures
        count_ids(seq![t], x) == (if x == t {
            1int
        } else {
            0
        }),
{
    broadcast use vstd::seq_lib::to_multiset_build;
    broadcast use vstd::multiset::group_multiset_axioms;

    lemma_count_empty(x);
    assert(seq![t] =~= Seq::<EntityId>::empty().push(t));
}

/// One entity's references never exceed the store's sum.
pub proof fn lemma_store_refs_le(entities: Seq<Option<EntityView>>, i: int, target: EntityId)
    requires
        0 <= i < entities.len(),
    ensures
        entity_refs(entities[i], target) <= store_refs(entities, target),
    decreases entities.len(),
{
    if i == entities.len() - 1 {
        assert(entities.last() == entities[i]);
    } else {
        lemma_store_refs_le(entities.drop_last(), i, target);
        assert(entities.drop_last()[i] == entities[i]);
    }
}

} // verus!
