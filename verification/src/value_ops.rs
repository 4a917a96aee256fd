//! The entity property engine: positional vector edits guarded by the
//! per-value nonce, vector clearing, scalar and vector value updates, and
//! schema adoption.

use vstd::prelude::*;

use crate::access::spec_permission_gate;
use crate::credentials::CredentialChecker;
use crate::errors::DirectoryError;
use crate::ids::{Credential, EntityId, Nonce, PropertyId, VecMaxLength};
use crate::lifecycle::{lemma_inv_value_commit, slot_replaced};
use crate::permissions::{PermissionRule, RawOrigin};
use crate::refs::{count_ids, lemma_count_empty, lemma_count_singleton, lemma_values_refs_le,
    lemma_values_refs_update, lemma_store_refs_le, rc_adjusted, slot_refs, store_refs,
    values_refs};
use crate::schema::{PropertyType, PropertyValue, PropertyValueView, ScalarValue, ScalarValueView,
    VecValueView};
use crate::state::{EntityView, Module};

verus! {

/// The value stored at one property slot of a live entity.
pub open spec fn slot_of(m: Module, e: EntityId, prop: PropertyId) -> Option<PropertyValueView> {
    m.entity_at(e).values[prop as int]
}

/// Whether a live entity has a value at a property slot.
pub open spec fn has_value_slot(m: Module, e: EntityId, prop: PropertyId) -> bool {
    prop < m.entity_at(e).values.len() && slot_of(m, e, prop) is Some
}

/// Removing a vector element removes one occurrence of the entity it
/// referenced, if any, and nothing else.
proof fn lemma_vec_removed_refs(vv: VecValueView, i: int, t: EntityId)
    requires
        0 <= i < vv.len(),
    ensures
        vv.removed_at(i).ref_seq().to_multiset().count(t) + (if vv.elem_ref(i) == Some(t) {
            1int
        } else {
            0
        }) == vv.ref_seq().to_multiset().count(t),
{
    broadcast use vstd::multiset::group_multiset_axioms;

    match vv {
        VecValueView::Reference(ids) => {
            vstd::seq_lib::to_multiset_remove(ids, i);
            ids.to_multiset_ensures();
            assert(ids.contains(ids[i]));
            assert(ids.to_multiset().count(ids[i]) >= 1);
            assert(vv.removed_at(i).ref_seq() == ids.remove(i));
            assert(vv.elem_ref(i) == Some(ids[i]));
        },
        _ => {
            assert(vv.removed_at(i).ref_seq() == Seq::<EntityId>::empty());
            assert(vv.ref_seq() == Seq::<EntityId>::empty());
        },
    }
}

/// Inserting a vector element adds one occurrence of the entity it
/// references, if any, and nothing else.
proof fn lemma_vec_inserted_refs(vv: VecValueView, i: int, x: ScalarValueView, t: EntityId)
    requires
        0 <= i <= vv.len(),
        vv.accepts_elem_kind(x),
    ensures
        vv.inserted_at(i, x).ref_seq().to_multiset().count(t) == vv.ref_seq().to_multiset().count(
            t,
        ) + (if x.ref_target() == Some(t) {
            1int
        } else {
            0
        }),
{
    broadcast use vstd::multiset::group_multiset_axioms;

    match (vv, x) {
        (VecValueView::Reference(ids), ScalarValueView::Reference(target)) => {
            vstd::seq_lib::to_multiset_insert(ids, i, target);
        },
        _ => {
            assert(vv.inserted_at(i, x).ref_seq() == vv.ref_seq());
        },
    }
}

/// A cleared vector references nothing.
proof fn lemma_vec_cleared_refs(vv: VecValueView, t: EntityId)
    ensures
        vv.cleared().ref_seq().to_multiset().count(t) == 0,
{
    assert(vv.cleared().ref_seq() == Seq::<EntityId>::empty());
    lemma_count_empty(t);
}

/// What `complete_remove_at_entity_property_vector` checks, in order: the
/// entity must be live, the slot must hold a value, the value must be a
/// vector, the supplied nonce must equal the stored one, the index must be
/// in range, and the nonce must still have room to advance.
pub open spec fn spec_remove_at_check(
    m: Module,
    e: EntityId,
    prop: PropertyId,
    index: VecMaxLength,
    nonce: Nonce,
) -> Result<(), DirectoryError> {
    if !m.entity_live(e) {
        Err(DirectoryError::EntityNotFound)
    } else if !has_value_slot(m, e, prop) {
        Err(DirectoryError::UnknownEntityPropertyId)
    } else {
        match slot_of(m, e, prop)->Some_0 {
            PropertyValueView::Single(_) => Err(DirectoryError::PropertyValueNotAVector),
            PropertyValueView::Vector(vv, n) => if n != nonce {
                Err(DirectoryError::VectorNonceMismatch)
            } else if index >= vv.len() {
                Err(DirectoryError::VectorIndexOutOfRange)
            } else if n == u64::MAX {
                Err(DirectoryError::NonceOverflow)
            } else {
                Ok(())
            },
        }
    }
}

/// How a successful positional removal changes the store: the vector loses
/// the element at the index and its nonce advances, and if the element was
/// a reference its target's count drops by one.
pub open spec fn remove_at_post(
    pre: Module,
    post: Module,
    e: EntityId,
    prop: PropertyId,
    index: int,
) -> bool {
    let vv = slot_of(pre, e, prop)->Some_0->Vector_0;
    let n = slot_of(pre, e, prop)->Some_0->Vector_1;
    let nv = pre.entity_at(e).values.update(
        prop as int,
        Some(PropertyValueView::Vector(vv.removed_at(index), (n + 1) as u64)),
    );
    let ev = EntityView { values: nv, ..pre.entity_at(e) };
    &&& post.entities@.len() == pre.entities@.len()
    &&& forall|i: int|
        0 <= i < post.entities@.len() ==> post.entities_dv()[i] == rc_adjusted(
            slot_replaced(pre, e, Some(ev))[i],
            -(match vv.elem_ref(index) {
                Some(t) => if i == t {
                    1int
                } else {
                    0
                },
                None => 0,
            }),
        )
    &&& post == (Module { entities: post.entities, ..pre })
}

impl Module {
    /// Removes the element at an index of a vector property value,
    /// shifting later elements left and advancing the nonce; a removed
    /// reference releases its target.
    pub fn complete_remove_at_entity_property_vector(
        &mut self,
        entity_id: EntityId,
        in_class_schema_property_id: PropertyId,
        index_in_property_vec: VecMaxLength,
        nonce: Nonce,
    ) -> (r: Result<(), DirectoryError>)
        requires
            old(self).inv(),
        ensures
            final(self).inv(),
            r is Ok <==> spec_remove_at_check(
                *old(self),
                entity_id,
                in_class_schema_property_id,
                index_in_property_vec,
                nonce,
            ) is Ok,
            r is Err ==> *final(self) == *old(self) && Err::<(), DirectoryError>(r->Err_0)
                == spec_remove_at_check(
                *old(self),
                entity_id,
                in_class_schema_property_id,
                index_in_property_vec,
                nonce,
            ),
            r is Ok ==> remove_at_post(
                *old(self),
                *final(self),
                entity_id,
                in_class_schema_property_id,
                index_in_property_vec as int,
            ),
    {
        self.ensure_known_entity_id(entity_id)?;
        let i = self.entity_index(entity_id);
        let prop = in_class_schema_property_id;
        let index = index_in_property_vec;

        // Validate against the stored vector and build its replacement.
        let (new_value, target) = {
            let entity = self.entity_ref(entity_id);
            if prop >= entity.values.len() as u64 {
                return Err(DirectoryError::UnknownEntityPropertyId);
            }
            let pidx = prop as usize;
            match &entity.values[pidx] {
                None => {
                    return Err(DirectoryError::UnknownEntityPropertyId);
                },
                Some(PropertyValue::Single(_)) => {
                    return Err(DirectoryError::PropertyValueNotAVector);
                },
                Some(PropertyValue::Vector(vv, stored_nonce)) => {
                    if *stored_nonce != nonce {
                        return Err(DirectoryError::VectorNonceMismatch);
                    }
                    if index as usize >= vv.length() {
                        return Err(DirectoryError::VectorIndexOutOfRange);
                    }
                    if *stored_nonce == u64::MAX {
                        return Err(DirectoryError::NonceOverflow);
                    }
                    let target = vv.reference_at(index as usize);
                    let mut nv = vv.duplicate();
                    nv.remove_at(index as usize);
                    (PropertyValue::Vector(nv, *stored_nonce + 1), target)
                },
            }
        };

        let ghost pre = *self;
        let ghost vals = pre.entity_at(entity_id).values;
        let ghost vv = slot_of(pre, entity_id, prop)->Some_0->Vector_0;
        let ghost newslot = new_value@;
        let ghost nv = vals.update(prop as int, Some(newslot));
        let ghost ev = EntityView { values: nv, ..pre.entity_at(entity_id) };
        let pidx = prop as usize;
        {
            let entity = self.entity_mut(i);
            entity.values.set(pidx, Some(new_value));
        }
        let ghost mid = *self;
        proof {
            assert(mid.entities_dv() =~= slot_replaced(pre, entity_id, Some(ev))) by {
                assert(self.entities@[entity_id as int]->Some_0@.values =~= nv);
                assert(self.entities@[entity_id as int]->Some_0@ =~= ev);
            }
        }
        let ghost dec: Seq<EntityId> = match target {
            Some(t) => seq![t],
            None => Seq::empty(),
        };
        if let Some(t) = target {
            proof {
                assert(vv.elem_ref(index as int) == Some(t));
                assert(slot_refs(vals[prop as int], t) >= 1) by {
                    lemma_vec_removed_refs(vv, index as int, t);
                }
                lemma_values_refs_le(vals, prop as int, t);
                crate::refs::lemma_store_refs_le(pre.entities_dv(), entity_id as int, t);
                assert(store_refs(pre.entities_dv(), t) >= 1);
                assert(pre.entity_live(t));
                assert(pre.entity_at(t).reference_count >= 1);
                assert(self.entities@[t as int] is Some) by {
                    assert(self.entities_dv()[t as int] is Some);
                }
            }
            self.entity_rc_sub(t);
            proof {
                assert(self.entities_dv() == mid.entities_dv().update(
                    t as int,
                    rc_adjusted(mid.entities_dv()[t as int], -1),
                ));
            }
        }
        let n_entities = self.entities.len();
        proof {
            assert forall|x: int|
                0 <= x < self.entities@.len() implies self.entities_dv()[x] == rc_adjusted(
                slot_replaced(pre, entity_id, Some(ev))[x],
                count_ids(Seq::<EntityId>::empty(), x as EntityId) as int - count_ids(
                    dec,
                    x as EntityId,
                ) as int,
            ) by {
                lemma_count_empty(x as EntityId);
                match target {
                    Some(t) => {
                        lemma_count_singleton(t, x as EntityId);
                        if x != t as int {
                            assert(self.entities_dv()[x] == mid.entities_dv()[x]);
                            crate::refs::lemma_rc_adjusted_zero(slot_replaced(pre, entity_id, Some(ev))[x]);
                        } else {
                            assert(self.entities_dv()[x] == rc_adjusted(
                                mid.entities_dv()[x],
                                -1,
                            ));
                        }
                    },
                    None => {
                        assert(self.entities_dv()[x] == mid.entities_dv()[x]);
                        crate::refs::lemma_rc_adjusted_zero(slot_replaced(pre, entity_id, Some(ev))[x]);
                    },
                }
            }
            assert forall|t2: EntityId|
                #![trigger values_refs(ev.values, t2)]
                values_refs(ev.values, t2) + count_ids(dec, t2) == values_refs(vals, t2)
                    + count_ids(Seq::<EntityId>::empty(), t2) by {
                lemma_count_empty(t2);
                lemma_values_refs_update(vals, prop as int, Some(newslot), t2);
                lemma_vec_removed_refs(vv, index as int, t2);
                match target {
                    Some(t) => {
                        lemma_count_singleton(t, t2);
                    },
                    None => {},
                }
            }
            assert forall|t2: EntityId|
                #![trigger count_ids(Seq::<EntityId>::empty(), t2)]
                pre.entity_live(t2) ==> pre.entity_at(t2).reference_count + count_ids(
                    Seq::<EntityId>::empty(),
                    t2,
                ) - count_ids(dec, t2) <= u32::MAX by {
                lemma_count_empty(t2);
            }
            assert(pre.entity_wf(pre.entities_dv()[entity_id as int]->Some_0));
            lemma_inv_value_commit(pre, *self, entity_id, ev, Seq::empty(), dec);
        }
        Ok(())
    }
}


/// What `complete_entity_property_vector_cleaning` checks: the entity must
/// be live, the slot must hold a value, and the value must be a vector.
pub open spec fn spec_clear_check(m: Module, e: EntityId, prop: PropertyId) -> Result<
    (),
    DirectoryError,
> {
    if !m.entity_live(e) {
        Err(DirectoryError::EntityNotFound)
    } else if !has_value_slot(m, e, prop) {
        Err(DirectoryError::UnknownEntityPropertyId)
    } else if !(slot_of(m, e, prop)->Some_0 is Vector) {
        Err(DirectoryError::PropertyValueNotAVector)
    } else {
        Ok(())
    }
}

/// How a successful clearing changes the store: the vector becomes the
/// empty vector of its kind, its nonce stays (clearing is not a positional
/// edit), and every entity it referenced has its count decremented once
/// per occurrence.
pub open spec fn clear_post(pre: Module, post: Module, e: EntityId, prop: PropertyId) -> bool {
    let vv = slot_of(pre, e, prop)->Some_0->Vector_0;
    let n = slot_of(pre, e, prop)->Some_0->Vector_1;
    let nv = pre.entity_at(e).values.update(
        prop as int,
        Some(PropertyValueView::Vector(vv.cleared(), n)),
    );
    let ev = EntityView { values: nv, ..pre.entity_at(e) };
    &&& post.entities@.len() == pre.entities@.len()
    &&& forall|i: int|
        0 <= i < post.entities@.len() ==> post.entities_dv()[i] == rc_adjusted(
            slot_replaced(pre, e, Some(ev))[i],
            -(count_ids(vv.ref_seq(), i as EntityId) as int),
        )
    &&& post == (Module { entities: post.entities, ..pre })
}

/// What `complete_insert_at_entity_property_vector` checks, in order: the
/// entity must be live, the property and its value slot must exist, the
/// stored value must be a vector with the supplied nonce, the class must
/// type the property as a vector, the new element must match the element
/// type and the stored vector's kind, the index must be at most the
/// length, the vector must have room, the nonce must have room to advance,
/// and a reference element must point at a live entity whose count has
/// room.
pub open spec fn spec_insert_at_check(
    m: Module,
    e: EntityId,
    prop: PropertyId,
    index: VecMaxLength,
    value: ScalarValueView,
    nonce: Nonce,
) -> Result<(), DirectoryError> {
    if !m.entity_live(e) {
        Err(DirectoryError::EntityNotFound)
    } else if prop >= m.class_at(m.entity_at(e).class_id).properties.len() {
        Err(DirectoryError::UnknownEntityPropertyId)
    } else if !has_value_slot(m, e, prop) {
        Err(DirectoryError::UnknownEntityPropertyId)
    } else {
        match slot_of(m, e, prop)->Some_0 {
            PropertyValueView::Single(_) => Err(DirectoryError::PropertyValueNotAVector),
            PropertyValueView::Vector(vv, n) => if n != nonce {
                Err(DirectoryError::VectorNonceMismatch)
            } else {
                match m.class_at(m.entity_at(e).class_id).properties[prop as int].prop_type {
                    PropertyType::Single(_) => Err(DirectoryError::PropertyValueNotAVector),
                    PropertyType::Vector(st, max) => if !value.kind_matches(st) {
                        Err(DirectoryError::PropertyValueDoNotMatchType)
                    } else if !value.size_ok(st) {
                        Err(DirectoryError::TextPropertyTooLong)
                    } else if !vv.accepts_elem_kind(value) {
                        Err(DirectoryError::PropertyValueDoNotMatchType)
                    } else if index > vv.len() {
                        Err(DirectoryError::VectorIndexOutOfRange)
                    } else if vv.len() >= max {
                        Err(DirectoryError::VectorPropertyTooLong)
                    } else if n == u64::MAX {
                        Err(DirectoryError::NonceOverflow)
                    } else {
                        match value.ref_target() {
                            Some(t) => if !m.entity_live(t) {
                                Err(DirectoryError::ReferencedEntityNotFound)
                            } else if m.entity_at(t).reference_count == u32::MAX {
                                Err(DirectoryError::TooManyReferencesToEntity)
                            } else {
                                Ok(())
                            },
                            None => Ok(()),
                        }
                    },
                }
            },
        }
    }
}

/// How a successful positional insertion changes the store: the vector
/// gains the element at the index and its nonce advances, and a reference
/// element charges its target's count by one.
pub open spec fn insert_at_post(
    pre: Module,
    post: Module,
    e: EntityId,
    prop: PropertyId,
    index: int,
    value: ScalarValueView,
) -> bool {
    let vv = slot_of(pre, e, prop)->Some_0->Vector_0;
    let n = slot_of(pre, e, prop)->Some_0->Vector_1;
    let nv = pre.entity_at(e).values.update(
        prop as int,
        Some(PropertyValueView::Vector(vv.inserted_at(index, value), (n + 1) as u64)),
    );
    let ev = EntityView { values: nv, ..pre.entity_at(e) };
    &&& post.entities@.len() == pre.entities@.len()
    &&& forall|i: int|
        0 <= i < post.entities@.len() ==> post.entities_dv()[i] == rc_adjusted(
            slot_replaced(pre, e, Some(ev))[i],
            (match value.ref_target() {
                Some(t) => if i == t {
                    1int
                } else {
                    0
                },
                None => 0,
            }),
        )
    &&& post == (Module { entities: post.entities, ..pre })
}

impl Module {
    /// Replaces a vector property value with the empty vector of its kind,
    /// releasing every reference it held.  The nonce is left unchanged:
    /// clearing is not a positional edit and is not fenced by the nonce.
    pub fn complete_entity_property_vector_cleaning(
        &mut self,
        entity_id: EntityId,
        in_class_schema_property_id: PropertyId,
    ) -> (r: Result<(), DirectoryError>)
        requires
            old(self).inv(),
        ensures
            final(self).inv(),
            r is Ok <==> spec_clear_check(*old(self), entity_id, in_class_schema_property_id) is Ok,
            r is Err ==> *final(self) == *old(self) && Err::<(), DirectoryError>(r->Err_0)
                == spec_clear_check(*old(self), entity_id, in_class_schema_property_id),
            r is Ok ==> clear_post(*old(self), *final(self), entity_id, in_class_schema_property_id),
    {
        self.ensure_known_entity_id(entity_id)?;
        let i = self.entity_index(entity_id);
        let prop = in_class_schema_property_id;

        let (new_value, targets) = {
            let entity = self.entity_ref(entity_id);
            if prop >= entity.values.len() as u64 {
                return Err(DirectoryError::UnknownEntityPropertyId);
            }
            let pidx = prop as usize;
            match &entity.values[pidx] {
                None => {
                    return Err(DirectoryError::UnknownEntityPropertyId);
                },
                Some(PropertyValue::Single(_)) => {
                    return Err(DirectoryError::PropertyValueNotAVector);
                },
                Some(PropertyValue::Vector(vv, stored_nonce)) => {
                    let targets = vv.involved_entities();
                    let mut nv = vv.duplicate();
                    nv.clear_all();
                    (PropertyValue::Vector(nv, *stored_nonce), targets)
                },
            }
        };

        let ghost pre = *self;
        let ghost vals = pre.entity_at(entity_id).values;
        let ghost vv = slot_of(pre, entity_id, prop)->Some_0->Vector_0;
        let ghost newslot = new_value@;
        let ghost nv = vals.update(prop as int, Some(newslot));
        let ghost ev = EntityView { values: nv, ..pre.entity_at(entity_id) };
        let pidx = prop as usize;
        {
            let entity = self.entity_mut(i);
            entity.values.set(pidx, Some(new_value));
        }
        let ghost mid = *self;
        proof {
            assert(mid.entities_dv() =~= slot_replaced(pre, entity_id, Some(ev))) by {
                assert(self.entities@[entity_id as int]->Some_0@.values =~= nv);
                assert(self.entities@[entity_id as int]->Some_0@ =~= ev);
            }
            assert(targets@ == vv.ref_seq());
            assert forall|k: int|
                0 <= k < targets@.len() implies mid.entity_live(#[trigger] targets@[k])
                    && count_ids(targets@, targets@[k]) <= mid.entity_at(
                    targets@[k],
                ).reference_count by {
                let t = targets@[k];
                targets@.to_multiset_ensures();
                assert(targets@.contains(t));
                assert(count_ids(targets@, t) > 0);
                assert(slot_refs(vals[prop as int], t) == count_ids(targets@, t));
                lemma_values_refs_le(vals, prop as int, t);
                lemma_store_refs_le(pre.entities_dv(), entity_id as int, t);
                assert(store_refs(pre.entities_dv(), t) >= count_ids(targets@, t));
                assert(pre.entity_live(t));
                assert(pre.entity_at(t).reference_count == store_refs(pre.entities_dv(), t));
                assert(mid.entities_dv()[t as int] is Some);
                assert(mid.entity_at(t).reference_count == pre.entity_at(t).reference_count);
            }
        }
        self.decrement_entities_rc(&targets);
        let n_entities = self.entities.len();
        proof {
            assert forall|x: int|
                0 <= x < self.entities@.len() implies self.entities_dv()[x] == rc_adjusted(
                slot_replaced(pre, entity_id, Some(ev))[x],
                count_ids(Seq::<EntityId>::empty(), x as EntityId) as int - count_ids(
                    vv.ref_seq(),
                    x as EntityId,
                ) as int,
            ) by {
                lemma_count_empty(x as EntityId);
                assert(self.entities_dv()[x] == rc_adjusted(
                    mid.entities_dv()[x],
                    -(count_ids(targets@, x as EntityId) as int),
                ));
            }
            assert forall|t2: EntityId|
                #![trigger values_refs(ev.values, t2)]
                values_refs(ev.values, t2) + count_ids(vv.ref_seq(), t2) == values_refs(vals, t2)
                    + count_ids(Seq::<EntityId>::empty(), t2) by {
                lemma_count_empty(t2);
                lemma_values_refs_update(vals, prop as int, Some(newslot), t2);
                lemma_vec_cleared_refs(vv, t2);
            }
            assert forall|t2: EntityId|
                #![trigger count_ids(Seq::<EntityId>::empty(), t2)]
                pre.entity_live(t2) ==> pre.entity_at(t2).reference_count + count_ids(
                    Seq::<EntityId>::empty(),
                    t2,
                ) - count_ids(vv.ref_seq(), t2) <= u32::MAX by {
                lemma_count_empty(t2);
            }
            assert(pre.entity_wf(pre.entities_dv()[entity_id as int]->Some_0));
            lemma_inv_value_commit(pre, *self, entity_id, ev, Seq::empty(), vv.ref_seq());
        }
        Ok(())
    }

    /// Inserts an element at an index of a vector property value, shifting
    /// later elements right and advancing the nonce; a reference element
    /// charges its target.
    pub fn complete_insert_at_entity_property_vector(
        &mut self,
        entity_id: EntityId,
        in_class_schema_property_id: PropertyId,
        index_in_property_vec: VecMaxLength,
        property_value: ScalarValue,
        nonce: Nonce,
    ) -> (r: Result<(), DirectoryError>)
        requires
            old(self).inv(),
        ensures
            final(self).inv(),
            r is Ok <==> spec_insert_at_check(
                *old(self),
                entity_id,
                in_class_schema_property_id,
                index_in_property_vec,
                property_value@,
                nonce,
            ) is Ok,
            r is Err ==> *final(self) == *old(self) && Err::<(), DirectoryError>(r->Err_0)
                == spec_insert_at_check(
                *old(self),
                entity_id,
                in_class_schema_property_id,
                index_in_property_vec,
                property_value@,
                nonce,
            ),
            r is Ok ==> insert_at_post(
                *old(self),
                *final(self),
                entity_id,
                in_class_schema_property_id,
                index_in_property_vec as int,
                property_value@,
            ),
    {
        self.ensure_known_entity_id(entity_id)?;
        let i = self.entity_index(entity_id);
        let prop = in_class_schema_property_id;
        let index = index_in_property_vec;
        let ghost valv = property_value@;

        let (new_value, target) = {
            let (entity, class) = self.get_entity_and_class(entity_id);
            if prop >= class.properties.len() as u64 {
                return Err(DirectoryError::UnknownEntityPropertyId);
            }
            if prop >= entity.values.len() as u64 {
                return Err(DirectoryError::UnknownEntityPropertyId);
            }
            let pidx = prop as usize;
            match &entity.values[pidx] {
                None => {
                    return Err(DirectoryError::UnknownEntityPropertyId);
                },
                Some(PropertyValue::Single(_)) => {
                    return Err(DirectoryError::PropertyValueNotAVector);
                },
                Some(PropertyValue::Vector(vv, stored_nonce)) => {
                    if *stored_nonce != nonce {
                        return Err(DirectoryError::VectorNonceMismatch);
                    }
                    let (st, max) = match &class.properties[pidx].prop_type {
                        PropertyType::Single(_) => {
                            return Err(DirectoryError::PropertyValueNotAVector);
                        },
                        PropertyType::Vector(st, max) => (*st, *max),
                    };
                    if let Err(e) = crate::schema::check_scalar_value(&st, &property_value) {
                        return Err(e);
                    }
                    if !vv.accepts_elem_kind(&property_value) {
                        return Err(DirectoryError::PropertyValueDoNotMatchType);
                    }
                    if index as usize > vv.length() {
                        return Err(DirectoryError::VectorIndexOutOfRange);
                    }
                    if vv.length() >= max as usize {
                        return Err(DirectoryError::VectorPropertyTooLong);
                    }
                    if *stored_nonce == u64::MAX {
                        return Err(DirectoryError::NonceOverflow);
                    }
                    let target = match &property_value {
                        ScalarValue::Reference(t) => Some(*t),
                        _ => None,
                    };
                    if let Some(t) = target {
                        if self.ensure_known_entity_id(t).is_err() {
                            return Err(DirectoryError::ReferencedEntityNotFound);
                        }
                        if self.entity_ref(t).reference_count == u32::MAX {
                            return Err(DirectoryError::TooManyReferencesToEntity);
                        }
                    }
                    let mut nv = vv.duplicate();
                    nv.insert_at(index as usize, property_value);
                    (PropertyValue::Vector(nv, *stored_nonce + 1), target)
                },
            }
        };

        let ghost pre = *self;
        let ghost vals = pre.entity_at(entity_id).values;
        let ghost vv = slot_of(pre, entity_id, prop)->Some_0->Vector_0;
        let ghost newslot = new_value@;
        let ghost nv = vals.update(prop as int, Some(newslot));
        let ghost ev = EntityView { values: nv, ..pre.entity_at(entity_id) };
        let pidx = prop as usize;
        {
            let entity = self.entity_mut(i);
            entity.values.set(pidx, Some(new_value));
        }
        let ghost mid = *self;
        proof {
            assert(mid.entities_dv() =~= slot_replaced(pre, entity_id, Some(ev))) by {
                assert(self.entities@[entity_id as int]->Some_0@.values =~= nv);
                assert(self.entities@[entity_id as int]->Some_0@ =~= ev);
            }
        }
        let ghost inc: Seq<EntityId> = match target {
            Some(t) => seq![t],
            None => Seq::empty(),
        };
        if let Some(t) = target {
            proof {
                assert(mid.entities@[t as int] is Some) by {
                    assert(mid.entities_dv()[t as int] is Some);
                }
                assert(mid.entities_dv()[t as int]->Some_0.reference_count == pre.entity_at(
                    t,
                ).reference_count);
            }
            self.entity_rc_add(t);
            proof {
                assert(self.entities_dv() == mid.entities_dv().update(
                    t as int,
                    rc_adjusted(mid.entities_dv()[t as int], 1),
                ));
            }
        }
        let n_entities = self.entities.len();
        proof {
            assert forall|x: int|
                0 <= x < self.entities@.len() implies self.entities_dv()[x] == rc_adjusted(
                slot_replaced(pre, entity_id, Some(ev))[x],
                count_ids(inc, x as EntityId) as int - count_ids(
                    Seq::<EntityId>::empty(),
                    x as EntityId,
                ) as int,
            ) by {
                lemma_count_empty(x as EntityId);
                match target {
                    Some(t) => {
                        lemma_count_singleton(t, x as EntityId);
                        if x != t as int {
                            assert(self.entities_dv()[x] == mid.entities_dv()[x]);
                            crate::refs::lemma_rc_adjusted_zero(slot_replaced(pre, entity_id, Some(ev))[x]);
                        } else {
                            assert(self.entities_dv()[x] == rc_adjusted(mid.entities_dv()[x], 1));
                        }
                    },
                    None => {
                        assert(self.entities_dv()[x] == mid.entities_dv()[x]);
                        crate::refs::lemma_rc_adjusted_zero(slot_replaced(pre, entity_id, Some(ev))[x]);
                    },
                }
            }
            assert forall|t2: EntityId|
                #![trigger values_refs(ev.values, t2)]
                values_refs(ev.values, t2) + count_ids(Seq::<EntityId>::empty(), t2) == values_refs(
                    vals,
                    t2,
                ) + count_ids(inc, t2) by {
                lemma_count_empty(t2);
                lemma_values_refs_update(vals, prop as int, Some(newslot), t2);
                lemma_vec_inserted_refs(vv, index as int, valv, t2);
                match target {
                    Some(t) => {
                        lemma_count_singleton(t, t2);
                        assert(valv.ref_target() == Some(t));
                    },
                    None => {
                        assert(valv.ref_target() is None);
                    },
                }
            }
            assert forall|k: int| 0 <= k < inc.len() implies pre.entity_live(#[trigger] inc[k]) by {
                match target {
                    Some(t) => {
                        assert(inc[k] == t);
                    },
                    None => {},
                }
            }
            assert forall|t2: EntityId|
                #![trigger count_ids(inc, t2)]
                pre.entity_live(t2) ==> pre.entity_at(t2).reference_count + count_ids(inc, t2)
                    - count_ids(Seq::<EntityId>::empty(), t2) <= u32::MAX by {
                lemma_count_empty(t2);
                match target {
                    Some(t) => {
                        lemma_count_singleton(t, t2);
                    },
                    None => {
                        lemma_count_empty(t2);
                        if count_ids(inc, t2) > 0 {
                            assert(inc == Seq::<EntityId>::empty());
                        }
                    },
                }
            }
            assert(pre.entity_wf(pre.entities_dv()[entity_id as int]->Some_0));
            lemma_inv_value_commit(pre, *self, entity_id, ev, inc, Seq::empty());
        }
        Ok(())
    }
}


/// Copies a value list.
fn copy_values(v: &Vec<Option<PropertyValue>>) -> (r: Vec<Option<PropertyValue>>)
    ensures
        r.deep_view() == v.deep_view(),
{
    let mut r: Vec<Option<PropertyValue>> = Vec::new();
    let mut i: usize = 0;
    while i < v.len()
        invariant
            i <= v.len(),
            r@.len() == i,
            forall|j: int| 0 <= j < i ==> #[trigger] r@[j].deep_view() == v@[j].deep_view(),
        decreases v.len() - i,
    {
        match &v[i] {
            Some(pv) => {
                let d = pv.duplicate();
                r.push(Some(d));
                proof {
                    assert(r@[i as int].deep_view() == Some(d@));
                    assert(v@[i as int].deep_view() == Some(pv@));
                }
            },
            None => {
                r.push(None);
                proof {
                    assert(r@[i as int].deep_view() is None);
                    assert(v@[i as int].deep_view() is None);
                }
            },
        }
        i += 1;
    }
    proof {
        assert(r.deep_view() =~= v.deep_view());
    }
    r
}

/// The staged value list after processing the update entries from
/// position `k` on, or the first validation error: an entry must name a
/// slot that holds a value; an entry whose value equals the current one is
/// skipped; any other entry must match the property's type and reference
/// only live entities, and replaces the slot.
pub open spec fn spec_update_step(
    m: Module,
    class: crate::state::ClassView,
    staged: Seq<Option<PropertyValueView>>,
    entries: Seq<(PropertyId, PropertyValueView)>,
    k: int,
) -> Result<Seq<Option<PropertyValueView>>, DirectoryError>
    decreases entries.len() - k,
{
    if k < 0 || k >= entries.len() {
        Ok(staged)
    } else {
        let (id, nv) = entries[k];
        if !(id < staged.len() && staged[id as int] is Some) {
            Err(DirectoryError::UnknownEntityPropertyId)
        } else if nv == staged[id as int]->Some_0 {
            spec_update_step(m, class, staged, entries, k + 1)
        } else {
            let t = class.properties[id as int].prop_type;
            if !nv.kind_matches(t) {
                Err(DirectoryError::PropertyValueDoNotMatchType)
            } else if nv.vec_len_exceeds(t) {
                Err(DirectoryError::VectorPropertyTooLong)
            } else if nv.text_len_exceeds(t) {
                Err(DirectoryError::TextPropertyTooLong)
            } else if exists|j: int|
                0 <= j < nv.ref_seq().len() && !m.entity_live(#[trigger] nv.ref_seq()[j]) {
                Err(DirectoryError::ReferencedEntityNotFound)
            } else {
                spec_update_step(m, class, staged.update(id as int, Some(nv)), entries, k + 1)
            }
        }
    }
}

/// Whether committing the staged value list would keep every reference
/// counter in range: each live entity's count, moved by the net change of
/// references to it, must not pass the counter's maximum.
pub open spec fn no_rc_overflow(
    m: Module,
    e: EntityId,
    staged: Seq<Option<PropertyValueView>>,
) -> bool {
    forall|t: EntityId|
        #![trigger values_refs(staged, t)]
        m.entity_live(t) ==> m.entity_at(t).reference_count + values_refs(staged, t) - values_refs(
            m.entity_at(e).values,
            t,
        ) <= u32::MAX
}

/// How a successful value update changes the store: the entity's value
/// list becomes the staged list, and every entity's reference count moves
/// by the net change of references to it.
pub open spec fn update_values_post(
    pre: Module,
    post: Module,
    e: EntityId,
    staged: Seq<Option<PropertyValueView>>,
) -> bool {
    let ev = EntityView { values: staged, ..pre.entity_at(e) };
    &&& post.entities@.len() == pre.entities@.len()
    &&& forall|i: int|
        0 <= i < post.entities@.len() ==> post.entities_dv()[i] == rc_adjusted(
            slot_replaced(pre, e, Some(ev))[i],
            values_refs(staged, i as EntityId) as int - values_refs(
                pre.entity_at(e).values,
                i as EntityId,
            ) as int,
        )
    &&& post == (Module { entities: post.entities, ..pre })
}

impl Module {
    /// Applies a batch of property value updates to one entity: every
    /// entry is validated against the entity's class before any change is
    /// committed, so a failing entry leaves the store untouched.
    /// Reference counts move by the net change per target, and success is
    /// owed exactly when every entry validates and no counter would pass
    /// its range under the net change.
    #[verifier::loop_isolation(false)]
    #[verifier::rlimit(40)]
    pub fn complete_entity_property_values_update(
        &mut self,
        entity_id: EntityId,
        new_property_values: Vec<(PropertyId, PropertyValue)>,
    ) -> (r: Result<(), DirectoryError>)
        requires
            old(self).inv(),
        ensures
            final(self).inv(),
            r is Err ==> *final(self) == *old(self),
            !old(self).entity_live(entity_id) ==> r == Err::<(), DirectoryError>(
                DirectoryError::EntityNotFound,
            ),
            old(self).entity_live(entity_id) ==> {
                let step = spec_update_step(
                    *old(self),
                    old(self).class_at(old(self).entity_at(entity_id).class_id),
                    old(self).entity_at(entity_id).values,
                    new_property_values.deep_view(),
                    0,
                );
                &&& step is Err ==> r == Err::<(), DirectoryError>(step->Err_0)
                &&& step is Ok ==> {
                    &&& r is Ok <==> no_rc_overflow(*old(self), entity_id, step->Ok_0)
                    &&& r is Err ==> r->Err_0 == DirectoryError::TooManyReferencesToEntity
                    &&& r is Ok ==> update_values_post(
                        *old(self),
                        *final(self),
                        entity_id,
                        step->Ok_0,
                    )
                }
            },
    {
        self.ensure_known_entity_id(entity_id)?;
        let i = self.entity_index(entity_id);
        let ghost m0 = *old(self);
        let ghost vals0 = m0.entity_at(entity_id).values;
        let ghost cv = m0.class_at(m0.entity_at(entity_id).class_id);
        let ghost entries = new_property_values.deep_view();

        let mut staged = copy_values(&self.entity_ref(entity_id).values);
        let mut inc: Vec<EntityId> = Vec::new();
        let mut dec: Vec<EntityId> = Vec::new();
        let mut k: usize = 0;
        proof {
            assert(pre_refs_live(m0, entity_id, vals0)) by {
                assert forall|j: int, t: EntityId|
                    0 <= j < vals0.len() && #[trigger] slot_refs(vals0[j], t) > 0 implies m0.entity_live(
                    t,
                ) by {
                    lemma_values_refs_le(vals0, j, t);
                    lemma_store_refs_le(m0.entities_dv(), entity_id as int, t);
                }
            }
            lemma_count_empty(0);
            assert forall|t: EntityId|
                #![trigger values_refs(staged.deep_view(), t)]
                values_refs(staged.deep_view(), t) + count_ids(dec@, t) == values_refs(vals0, t)
                    + count_ids(inc@, t) by {
                lemma_count_empty(t);
            }
        }
        while k < new_property_values.len()
            invariant
                k <= new_property_values@.len(),
                *self == *old(self),
                staged.deep_view().len() == vals0.len(),
                spec_update_step(m0, cv, vals0, entries, 0) == spec_update_step(
                    m0,
                    cv,
                    staged.deep_view(),
                    entries,
                    k as int,
                ),
                forall|t: EntityId|
                    #![trigger values_refs(staged.deep_view(), t)]
                    values_refs(staged.deep_view(), t) + count_ids(dec@, t) == values_refs(
                        vals0,
                        t,
                    ) + count_ids(inc@, t),
                forall|k2: int| 0 <= k2 < inc@.len() ==> m0.entity_live(#[trigger] inc@[k2]),
                forall|k2: int| 0 <= k2 < dec@.len() ==> m0.entity_live(#[trigger] dec@[k2]),
                pre_refs_live(m0, entity_id, staged.deep_view()),
            decreases new_property_values@.len() - k,
        {
            let id = new_property_values[k].0;
            proof {
                assert(entries[k as int] == (id, new_property_values@[k as int].1@));
            }
            if id >= staged.len() as u64 {
                return Err(DirectoryError::UnknownEntityPropertyId);
            }
            let pidx = id as usize;
            let current = match &staged[pidx] {
                Some(c) => c,
                None => {
                    return Err(DirectoryError::UnknownEntityPropertyId);
                },
            };
            let new_value = &new_property_values[k].1;
            let ghost nvv = new_value@;
            if new_value.same_as(current) {
                k += 1;
                continue;
            }
            proof {
                assert(pre_refs_live(m0, entity_id, staged.deep_view()));
                assert(m0.entity_wf(m0.entities_dv()[entity_id as int]->Some_0));
                assert(id < cv.properties.len());
            }
            let class = self.class_ref(self.entity_ref(entity_id).class_id);
            if let Err(e) = class.properties[pidx].ensure_property_value_to_update_is_valid(
                new_value,
            ) {
                return Err(e);
            }
            // Every referenced entity must be live.
            let new_refs = new_value.involved_entities();
            let mut j: usize = 0;
            while j < new_refs.len()
                invariant
                    j <= new_refs@.len(),
                    *self == *old(self),
                    new_refs@ == nvv.ref_seq(),
                    forall|j2: int| 0 <= j2 < j ==> m0.entity_live(#[trigger] new_refs@[j2]),
                decreases new_refs@.len() - j,
            {
                if self.ensure_known_entity_id(new_refs[j]).is_err() {
                    return Err(DirectoryError::ReferencedEntityNotFound);
                }
                j += 1;
            }
            let old_refs = current.involved_entities();
            let ghost curv = staged.deep_view()[id as int]->Some_0;
            let ghost staged_pre = staged.deep_view();
            let ghost inc_pre = inc@;
            let ghost dec_pre = dec@;
            let mut new_refs2 = new_refs;
            let mut old_refs2 = old_refs;
            inc.append(&mut new_refs2);
            dec.append(&mut old_refs2);
            staged.set(pidx, Some(new_value.duplicate()));
            k += 1;
            proof {
                broadcast use vstd::multiset::group_multiset_axioms;

                assert(staged.deep_view() =~= staged_pre.update(id as int, Some(nvv)));
                assert(inc@ == inc_pre + nvv.ref_seq());
                assert(dec@ == dec_pre + curv.ref_seq());
                assert forall|t: EntityId|
                    #![trigger values_refs(staged.deep_view(), t)]
                    values_refs(staged.deep_view(), t) + count_ids(dec@, t) == values_refs(
                        vals0,
                        t,
                    ) + count_ids(inc@, t) by {
                    lemma_values_refs_update(staged_pre, id as int, Some(nvv), t);
                    vstd::seq_lib::lemma_multiset_commutative(inc_pre, nvv.ref_seq());
                    vstd::seq_lib::lemma_multiset_commutative(dec_pre, curv.ref_seq());
                }
                assert forall|k2: int|
                    0 <= k2 < dec@.len() implies m0.entity_live(#[trigger] dec@[k2]) by {
                    if k2 >= dec_pre.len() {
                        let t = dec@[k2];
                        assert(curv.ref_seq()[k2 - dec_pre.len()] == t);
                        curv.ref_seq().to_multiset_ensures();
                        assert(curv.ref_seq().contains(t));
                        assert(slot_refs(staged_pre[id as int], t) > 0);
                    }
                }
                assert forall|k2: int|
                    0 <= k2 < inc@.len() implies m0.entity_live(#[trigger] inc@[k2]) by {
                    if k2 >= inc_pre.len() {
                        assert(nvv.ref_seq()[k2 - inc_pre.len()] == inc@[k2]);
                    }
                }
                assert(pre_refs_live(m0, entity_id, staged.deep_view())) by {
                    assert forall|j2: int, t: EntityId|
                        0 <= j2 < staged.deep_view().len() && #[trigger] slot_refs(
                            staged.deep_view()[j2],
                            t,
                        ) > 0 implies m0.entity_live(t) by {
                        if j2 == id as int {
                            nvv.ref_seq().to_multiset_ensures();
                            assert(nvv.ref_seq().contains(t));
                            let w = choose|w: int|
                                0 <= w < nvv.ref_seq().len() && nvv.ref_seq()[w] == t;
                        } else {
                            assert(slot_refs(staged_pre[j2], t) > 0);
                        }
                    }
                }
            }
        }
        proof {
            assert(spec_update_step(m0, cv, vals0, entries, 0) == Ok::<_, DirectoryError>(
                staged.deep_view(),
            ));
        }

        // The net reference additions must keep every counter in range:
        // this check is exactly `no_rc_overflow` of the staged result.
        let mut k2: usize = 0;
        while k2 < inc.len()
            invariant
                k2 <= inc@.len(),
                *self == *old(self),
                forall|j2: int|
                    0 <= j2 < k2 ==> m0.entity_at(#[trigger] inc@[j2]).reference_count + count_ids(
                        inc@,
                        inc@[j2],
                    ) - count_ids(dec@, inc@[j2]) <= u32::MAX,
                forall|j2: int| 0 <= j2 < inc@.len() ==> m0.entity_live(#[trigger] inc@[j2]),
            decreases inc@.len() - k2,
        {
            let t = inc[k2];
            let c_inc = crate::rc_ops::count_occurrences(&inc, t);
            let c_dec = crate::rc_ops::count_occurrences(&dec, t);
            let rc = self.entity_ref(t).reference_count;
            if rc as u128 + c_inc as u128 > u32::MAX as u128 + c_dec as u128 {
                proof {
                    assert(values_refs(staged.deep_view(), t) + count_ids(dec@, t) == values_refs(
                        vals0,
                        t,
                    ) + count_ids(inc@, t));
                    assert(!no_rc_overflow(m0, entity_id, staged.deep_view()));
                }
                return Err(DirectoryError::TooManyReferencesToEntity);
            }
            k2 += 1;
        }
        proof {
            assert(no_rc_overflow(m0, entity_id, staged.deep_view())) by {
                assert forall|t: EntityId|
                    m0.entity_live(t) implies m0.entity_at(t).reference_count + values_refs(
                    staged.deep_view(),
                    t,
                ) - values_refs(vals0, t) <= u32::MAX by {
                    assert(values_refs(staged.deep_view(), t) + count_ids(dec@, t) == values_refs(
                        vals0,
                        t,
                    ) + count_ids(inc@, t));
                    if count_ids(inc@, t) > 0 {
                        inc@.to_multiset_ensures();
                        assert(inc@.contains(t));
                        let w = choose|w: int| 0 <= w < inc@.len() && inc@[w] == t;
                        assert(m0.entity_at(inc@[w]).reference_count + count_ids(inc@, inc@[w])
                            - count_ids(dec@, inc@[w]) <= u32::MAX);
                    }
                }
            }
        }

        // Commit: write the staged values, then move every counter by its
        // net change, one write per target.
        let ghost pre = *self;
        let ghost staged_dv = staged.deep_view();
        let ghost ev = EntityView { values: staged_dv, ..pre.entity_at(entity_id) };
        proof {
            assert(pre == m0);
            assert forall|t: EntityId|
                #![trigger values_refs(staged_dv, t)]
                values_refs(staged_dv, t) + count_ids(dec@, t) == values_refs(vals0, t)
                    + count_ids(inc@, t) by {
                assert(values_refs(staged.deep_view(), t) + count_ids(dec@, t) == values_refs(
                    vals0,
                    t,
                ) + count_ids(inc@, t));
            }
        }
        {
            let entity = self.entity_mut(i);
            entity.values = staged;
        }
        let ghost mid = *self;
        proof {
            assert(mid.entities_dv() =~= slot_replaced(pre, entity_id, Some(ev))) by {
                assert(self.entities@[entity_id as int]->Some_0@.values =~= staged_dv);
                assert(self.entities@[entity_id as int]->Some_0@ =~= ev);
            }
            assert forall|k3: int|
                0 <= k3 < inc@.len() implies mid.entity_live(#[trigger] inc@[k3]) by {
                assert(mid.entities_dv()[inc@[k3] as int] is Some);
            }
            assert forall|k3: int|
                0 <= k3 < dec@.len() implies mid.entity_live(#[trigger] dec@[k3]) by {
                assert(mid.entities_dv()[dec@[k3] as int] is Some);
            }
            assert forall|t: EntityId|
                #![trigger count_ids(inc@, t)]
                mid.entity_live(t) implies count_ids(dec@, t) <= mid.entity_at(
                t,
            ).reference_count + count_ids(inc@, t) && mid.entity_at(t).reference_count + count_ids(
                inc@,
                t,
            ) - count_ids(dec@, t) <= u32::MAX by {
                assert(mid.entities_dv()[t as int] is Some);
                assert(m0.entities_dv()[t as int] is Some);
                assert(mid.entity_at(t).reference_count == m0.entity_at(t).reference_count);
                assert(values_refs(staged_dv, t) + count_ids(dec@, t) == values_refs(vals0, t)
                    + count_ids(inc@, t));
                assert(m0.entity_at(t).reference_count == store_refs(m0.entities_dv(), t));
                assert(values_refs(vals0, t) <= store_refs(m0.entities_dv(), t)) by {
                    assert(crate::refs::entity_refs(m0.entities_dv()[entity_id as int], t)
                        == values_refs(vals0, t));
                    lemma_store_refs_le(m0.entities_dv(), entity_id as int, t);
                }
                assert(m0.entity_at(t).reference_count + values_refs(staged_dv, t) - values_refs(
                    vals0,
                    t,
                ) <= u32::MAX);
            }
        }
        self.apply_net_rc(&inc, &dec);
        let n_entities = self.entities.len();
        proof {
            assert forall|x: int|
                0 <= x < self.entities@.len() implies self.entities_dv()[x] == rc_adjusted(
                slot_replaced(pre, entity_id, Some(ev))[x],
                count_ids(inc@, x as EntityId) as int - count_ids(dec@, x as EntityId) as int,
            ) by {
                assert(self.entities_dv()[x] == rc_adjusted(
                    mid.entities_dv()[x],
                    count_ids(inc@, x as EntityId) as int - count_ids(dec@, x as EntityId) as int,
                ));
            }
            assert forall|t2: EntityId|
                #![trigger count_ids(inc@, t2)]
                pre.entity_live(t2) implies pre.entity_at(t2).reference_count + count_ids(inc@, t2)
                    - count_ids(dec@, t2) <= u32::MAX by {
                assert(mid.entity_live(t2) && mid.entity_at(t2).reference_count == pre.entity_at(
                    t2,
                ).reference_count) by {
                    assert(mid.entities_dv()[t2 as int] is Some);
                }
            }
            assert(pre.entity_wf(pre.entities_dv()[entity_id as int]->Some_0));
            assert forall|t: EntityId|
                #![trigger values_refs(ev.values, t)]
                values_refs(ev.values, t) + count_ids(dec@, t) == values_refs(
                    pre.entity_at(entity_id).values,
                    t,
                ) + count_ids(inc@, t) by {
                assert(ev.values == staged_dv);
                assert(values_refs(staged_dv, t) + count_ids(dec@, t) == values_refs(vals0, t)
                    + count_ids(inc@, t));
            }
            lemma_inv_value_commit(pre, *self, entity_id, ev, inc@, dec@);
            assert forall|x: int|
                0 <= x < self.entities@.len() implies self.entities_dv()[x] == rc_adjusted(
                slot_replaced(pre, entity_id, Some(ev))[x],
                values_refs(staged_dv, x as EntityId) as int - values_refs(
                    vals0,
                    x as EntityId,
                ) as int,
            ) by {
                let t = x as EntityId;
                assert(values_refs(staged_dv, t) + count_ids(dec@, t) == values_refs(vals0, t)
                    + count_ids(inc@, t));
                assert(self.entities_dv()[x] == rc_adjusted(
                    slot_replaced(pre, entity_id, Some(ev))[x],
                    count_ids(inc@, x as EntityId) as int - count_ids(dec@, x as EntityId) as int,
                ));
            }
        }
        Ok(())
    }
}

/// Every reference held by a value list points at a live entity.
pub open spec fn pre_refs_live(
    m: Module,
    e: EntityId,
    vals: Seq<Option<PropertyValueView>>,
) -> bool {
    forall|j: int, t: EntityId|
        0 <= j < vals.len() && #[trigger] slot_refs(vals[j], t) > 0 ==> m.entity_live(t)
}


/// A value list with a slot set, growing the list with empty slots if the
/// slot lies beyond its end.
pub open spec fn grow_set(
    vals: Seq<Option<PropertyValueView>>,
    id: int,
    x: PropertyValueView,
) -> Seq<Option<PropertyValueView>>
    decreases (if id + 1 > vals.len() {
        id + 1 - vals.len()
    } else {
        0
    }),
{
    if id < vals.len() {
        vals.update(id, Some(x))
    } else {
        grow_set(vals.push(None), id, x)
    }
}

/// Setting an empty or missing slot adds exactly the new value's
/// references, and the list grows to cover the slot.
proof fn lemma_values_refs_grow(
    vals: Seq<Option<PropertyValueView>>,
    id: int,
    x: PropertyValueView,
    t: EntityId,
)
    requires
        0 <= id,
        id < vals.len() ==> vals[id] is None,
    ensures
        values_refs(grow_set(vals, id, x), t) == values_refs(vals, t) + slot_refs(Some(x), t),
        grow_set(vals, id, x).len() == (if id + 1 > vals.len() {
            id + 1
        } else {
            vals.len() as int
        }),
    decreases (if id + 1 > vals.len() {
        id + 1 - vals.len()
    } else {
        0
    }),
{
    if id < vals.len() {
        lemma_values_refs_update(vals, id, Some(x), t);
    } else {
        crate::refs::lemma_values_refs_push(vals, None, t);
        lemma_values_refs_grow(vals.push(None), id, x, t);
    }
}

/// The first supplied value for a property id, if one was supplied.
pub open spec fn first_supplied(
    supplied: Seq<(PropertyId, PropertyValueView)>,
    id: PropertyId,
) -> Option<PropertyValueView>
    decreases supplied.len(),
{
    if supplied.len() == 0 {
        None
    } else if supplied[0].0 == id {
        Some(supplied[0].1)
    } else {
        first_supplied(supplied.drop_first(), id)
    }
}

/// The staged value list after adopting the schema properties from
/// position `k` on, or the first validation error: a property the entity
/// already values is skipped; a supplied value must match the property's
/// type and reference only live entities; an unsupplied required property
/// fails; an unsupplied optional property defaults to the boolean-false
/// placeholder.
pub open spec fn spec_adopt_step(
    m: Module,
    class: crate::state::ClassView,
    supplied: Seq<(PropertyId, PropertyValueView)>,
    staged: Seq<Option<PropertyValueView>>,
    props: Seq<PropertyId>,
    k: int,
) -> Result<Seq<Option<PropertyValueView>>, DirectoryError>
    decreases props.len() - k,
{
    if k < 0 || k >= props.len() {
        Ok(staged)
    } else {
        let id = props[k];
        if id < staged.len() && staged[id as int] is Some {
            spec_adopt_step(m, class, supplied, staged, props, k + 1)
        } else {
            match first_supplied(supplied, id) {
                Some(nv) => {
                    let t = class.properties[id as int].prop_type;
                    if !nv.kind_matches(t) {
                        Err(DirectoryError::PropertyValueDoNotMatchType)
                    } else if nv.vec_len_exceeds(t) {
                        Err(DirectoryError::VectorPropertyTooLong)
                    } else if nv.text_len_exceeds(t) {
                        Err(DirectoryError::TextPropertyTooLong)
                    } else if exists|j: int|
                        0 <= j < nv.ref_seq().len() && !m.entity_live(#[trigger] nv.ref_seq()[j]) {
                        Err(DirectoryError::ReferencedEntityNotFound)
                    } else {
                        spec_adopt_step(
                            m,
                            class,
                            supplied,
                            grow_set(staged, id as int, nv),
                            props,
                            k + 1,
                        )
                    }
                },
                None => {
                    if class.properties[id as int].required {
                        Err(DirectoryError::MissingRequiredProperty)
                    } else {
                        spec_adopt_step(
                            m,
                            class,
                            supplied,
                            grow_set(
                                staged,
                                id as int,
                                PropertyValueView::Single(ScalarValueView::Bool(false)),
                            ),
                            props,
                            k + 1,
                        )
                    }
                },
            }
        }
    }
}

/// What `add_entity_schema_support` checks before adopting properties.
pub open spec fn spec_adopt_check(m: Module, e: EntityId, schema_id: crate::ids::SchemaId) -> Result<
    (),
    DirectoryError,
> {
    if !m.entity_live(e) {
        Err(DirectoryError::EntityNotFound)
    } else if schema_id >= m.class_at(m.entity_at(e).class_id).schemas.len() {
        Err(DirectoryError::UnknownClassSchemaId)
    } else if !m.class_at(m.entity_at(e).class_id).schemas[schema_id as int].is_active {
        Err(DirectoryError::ClassSchemaNotActive)
    } else if m.entity_at(e).supported_schemas.contains(schema_id) {
        Err(DirectoryError::SchemaAlreadyAddedToEntity)
    } else {
        Ok(())
    }
}

/// How a successful schema adoption changes the store: the entity supports
/// the schema, its value list becomes the staged list, and each referenced
/// entity's count grows by the net change.
pub open spec fn adopt_post(
    pre: Module,
    post: Module,
    e: EntityId,
    schema_id: crate::ids::SchemaId,
    staged: Seq<Option<PropertyValueView>>,
) -> bool {
    let ev = EntityView {
        values: staged,
        supported_schemas: pre.entity_at(e).supported_schemas.push(schema_id),
        ..pre.entity_at(e)
    };
    &&& post.entities@.len() == pre.entities@.len()
    &&& forall|i: int|
        0 <= i < post.entities@.len() ==> post.entities_dv()[i] == rc_adjusted(
            slot_replaced(pre, e, Some(ev))[i],
            values_refs(staged, i as EntityId) as int - values_refs(
                pre.entity_at(e).values,
                i as EntityId,
            ) as int,
        )
    &&& post == (Module { entities: post.entities, ..pre })
}

/// Sets a slot of a value list, growing the list with empty slots if the
/// slot lies beyond its end.
fn set_growing(staged: &mut Vec<Option<PropertyValue>>, id: usize, v: PropertyValue)
    ensures
        final(staged).deep_view() == grow_set(old(staged).deep_view(), id as int, v@),
{
    let ghost dv0 = staged.deep_view();
    while staged.len() <= id
        invariant
            grow_set(dv0, id as int, v@) == grow_set(staged.deep_view(), id as int, v@),
        decreases id + 1 - staged.len(),
    {
        let ghost dvp = staged.deep_view();
        staged.push(None);
        proof {
            assert(staged.deep_view() =~= dvp.push(None));
        }
    }
    let ghost dvq = staged.deep_view();
    staged.set(id, Some(v));
    proof {
        assert(staged.deep_view() =~= dvq.update(id as int, Some(v@)));
    }
}

/// Finds the first supplied value for a property id.
#[verifier::loop_isolation(false)]
fn find_supplied(supplied: &Vec<(PropertyId, PropertyValue)>, id: PropertyId) -> (r: Option<
    &PropertyValue,
>)
    ensures
        match r {
            Some(v) => first_supplied(supplied.deep_view(), id) == Some(v@),
            None => first_supplied(supplied.deep_view(), id) is None,
        },
{
    let ghost sv = supplied.deep_view();
    proof {
        assert(sv.skip(0) =~= sv);
    }
    let mut k: usize = 0;
    while k < supplied.len()
        invariant
            k <= supplied@.len(),
            first_supplied(sv, id) == first_supplied(sv.skip(k as int), id),
        decreases supplied@.len() - k,
    {
        proof {
            assert(sv.skip(k as int)[0] == sv[k as int]);
            assert(sv.skip(k as int).drop_first() =~= sv.skip(k as int + 1));
        }
        if supplied[k].0 == id {
            return Some(&supplied[k].1);
        }
        k += 1;
    }
    proof {
        assert(sv.skip(sv.len() as int).len() == 0);
    }
    None
}

impl Module {
    /// Adopts a schema on an entity: the schema must exist, be active, and
    /// not be supported yet.  Every property the schema names and the
    /// entity does not yet value is filled: from the supplied values after
    /// type validation, or with the boolean-false placeholder when the
    /// property is not required.  Everything is validated before anything
    /// is committed, and success is owed exactly when the adoption
    /// validates and no reference counter would pass its range.
    #[verifier::loop_isolation(false)]
    #[verifier::rlimit(40)]
    pub fn add_entity_schema_support(
        &mut self,
        entity_id: EntityId,
        schema_id: crate::ids::SchemaId,
        property_values: Vec<(PropertyId, PropertyValue)>,
    ) -> (r: Result<(), DirectoryError>)
        requires
            old(self).inv(),
        ensures
            final(self).inv(),
            r is Err ==> *final(self) == *old(self),
            spec_adopt_check(*old(self), entity_id, schema_id) is Err ==> r == Err::<
                (),
                DirectoryError,
            >(spec_adopt_check(*old(self), entity_id, schema_id)->Err_0),
            spec_adopt_check(*old(self), entity_id, schema_id) is Ok ==> {
                let step = spec_adopt_step(
                    *old(self),
                    old(self).class_at(old(self).entity_at(entity_id).class_id),
                    property_values.deep_view(),
                    old(self).entity_at(entity_id).values,
                    old(self).class_at(
                        old(self).entity_at(entity_id).class_id,
                    ).schemas[schema_id as int].properties,
                    0,
                );
                &&& step is Err ==> r == Err::<(), DirectoryError>(step->Err_0)
                &&& step is Ok ==> {
                    &&& r is Ok <==> no_rc_overflow(*old(self), entity_id, step->Ok_0)
                    &&& r is Err ==> r->Err_0 == DirectoryError::TooManyReferencesToEntity
                    &&& r is Ok ==> adopt_post(
                        *old(self),
                        *final(self),
                        entity_id,
                        schema_id,
                        step->Ok_0,
                    )
                }
            },
    {
        self.ensure_known_entity_id(entity_id)?;
        let i = self.entity_index(entity_id);
        let ghost m0 = *old(self);
        let ghost vals0 = m0.entity_at(entity_id).values;
        let ghost cv = m0.class_at(m0.entity_at(entity_id).class_id);
        let ghost supplied = property_values.deep_view();

        {
            let (entity, class) = self.get_entity_and_class(entity_id);
            Module::ensure_class_schema_id_exists(class, schema_id)?;
            Module::ensure_class_schema_is_active(class, schema_id)?;
            Module::ensure_schema_id_is_not_added(entity, schema_id)?;
        }
        let ghost props = cv.schemas[schema_id as int].properties;
        proof {
            assert(m0.entity_wf(m0.entities_dv()[entity_id as int]->Some_0));
            assert(m0.class_wf(m0.classes_dv()[m0.entity_at(entity_id).class_id as int]));
            assert(m0.schema_wf(cv, cv.schemas[schema_id as int]));
            assert(pre_refs_live(m0, entity_id, vals0)) by {
                assert forall|j: int, t: EntityId|
                    0 <= j < vals0.len() && #[trigger] slot_refs(vals0[j], t) > 0 implies m0.entity_live(
                    t,
                ) by {
                    lemma_values_refs_le(vals0, j, t);
                    lemma_store_refs_le(m0.entities_dv(), entity_id as int, t);
                }
            }
        }

        let schema_props = {
            let class0 = self.class_ref(self.entity_ref(entity_id).class_id);
            let nsch = class0.schemas.len();
            crate::schema::copy_vec(&class0.schemas[schema_id as usize].properties)
        };
        proof {
            assert(schema_props@ == props);
        }
        let mut staged = copy_values(&self.entity_ref(entity_id).values);
        let mut inc: Vec<EntityId> = Vec::new();
        let mut k: usize = 0;
        proof {
            lemma_count_empty(0);
            assert forall|t: EntityId|
                #![trigger values_refs(staged.deep_view(), t)]
                values_refs(staged.deep_view(), t) == values_refs(vals0, t) + count_ids(
                    inc@,
                    t,
                ) by {
                lemma_count_empty(t);
            }
        }
        while k < schema_props.len()
            invariant
                k <= schema_props@.len(),
                schema_props@ == props,
                *self == *old(self),
                staged.deep_view().len() <= cv.properties.len(),
                spec_adopt_step(m0, cv, supplied, vals0, props, 0) == spec_adopt_step(
                    m0,
                    cv,
                    supplied,
                    staged.deep_view(),
                    props,
                    k as int,
                ),
                forall|t: EntityId|
                    #![trigger values_refs(staged.deep_view(), t)]
                    values_refs(staged.deep_view(), t) == values_refs(vals0, t) + count_ids(
                        inc@,
                        t,
                    ),
                forall|k2: int| 0 <= k2 < inc@.len() ==> m0.entity_live(#[trigger] inc@[k2]),
            decreases schema_props@.len() - k,
        {
            let id = schema_props[k];
            proof {
                assert(props[k as int] == id);
                assert(id < cv.properties.len());
            }
            let have = id < staged.len() as u64 && matches!(&staged[id as usize], Some(_));
            if !have {
                let class = self.class_ref(self.entity_ref(entity_id).class_id);
                let nprops = class.properties.len();
                proof {
                    assert(id < nprops as u64);
                }
                let pidx = id as usize;
                match find_supplied(&property_values, id) {
                    Some(new_value) => {
                        let ghost nvv = new_value@;
                        if let Err(e) = class.properties[pidx].ensure_property_value_to_update_is_valid(
                            new_value,
                        ) {
                            return Err(e);
                        }
                        let new_refs = new_value.involved_entities();
                        let mut j: usize = 0;
                        while j < new_refs.len()
                            invariant
                                j <= new_refs@.len(),
                                *self == *old(self),
                                new_refs@ == nvv.ref_seq(),
                                forall|j2: int|
                                    0 <= j2 < j ==> m0.entity_live(#[trigger] new_refs@[j2]),
                            decreases new_refs@.len() - j,
                        {
                            if self.ensure_known_entity_id(new_refs[j]).is_err() {
                                return Err(DirectoryError::ReferencedEntityNotFound);
                            }
                            j += 1;
                        }
                        let ghost staged_pre = staged.deep_view();
                        let ghost inc_pre = inc@;
                        let dup = new_value.duplicate();
                        let mut new_refs2 = new_refs;
                        inc.append(&mut new_refs2);
                        set_growing(&mut staged, pidx, dup);
                        proof {
                            broadcast use vstd::multiset::group_multiset_axioms;

                            assert(inc@ == inc_pre + nvv.ref_seq());
                            assert(staged_pre[id as int] is None || id >= staged_pre.len());
                            lemma_step_adopt_bounds(staged_pre, id as int, nvv, cv);
                            assert forall|t: EntityId|
                                #![trigger values_refs(staged.deep_view(), t)]
                                values_refs(staged.deep_view(), t) == values_refs(vals0, t)
                                    + count_ids(inc@, t) by {
                                lemma_values_refs_grow(staged_pre, id as int, nvv, t);
                                vstd::seq_lib::lemma_multiset_commutative(inc_pre, nvv.ref_seq());
                            }
                            assert forall|k2: int|
                                0 <= k2 < inc@.len() implies m0.entity_live(
                                #[trigger] inc@[k2],
                            ) by {
                                if k2 >= inc_pre.len() {
                                    assert(nvv.ref_seq()[k2 - inc_pre.len()] == inc@[k2]);
                                }
                            }
                        }
                    },
                    None => {
                        if class.properties[pidx].required {
                            return Err(DirectoryError::MissingRequiredProperty);
                        }
                        let ghost staged_pre = staged.deep_view();
                        let ghost ph = PropertyValueView::Single(ScalarValueView::Bool(false));
                        set_growing(&mut staged, pidx, PropertyValue::default_placeholder());
                        proof {
                            lemma_step_adopt_bounds(staged_pre, id as int, ph, cv);
                            assert forall|t: EntityId|
                                #![trigger values_refs(staged.deep_view(), t)]
                                values_refs(staged.deep_view(), t) == values_refs(vals0, t)
                                    + count_ids(inc@, t) by {
                                lemma_values_refs_grow(staged_pre, id as int, ph, t);
                                assert(slot_refs(Some(ph), t) == 0) by {
                                    lemma_count_empty(t);
                                }
                            }
                        }
                    },
                }
            }
            k += 1;
        }
        proof {
            assert(spec_adopt_step(m0, cv, supplied, vals0, props, 0) == Ok::<_, DirectoryError>(
                staged.deep_view(),
            ));
        }

        // The reference additions must keep every counter in range: this
        // check is exactly `no_rc_overflow` of the staged result, since an
        // adoption only adds references.
        let mut k2: usize = 0;
        while k2 < inc.len()
            invariant
                k2 <= inc@.len(),
                *self == *old(self),
                forall|j2: int|
                    0 <= j2 < k2 ==> m0.entity_at(#[trigger] inc@[j2]).reference_count + count_ids(
                        inc@,
                        inc@[j2],
                    ) <= u32::MAX,
                forall|j2: int| 0 <= j2 < inc@.len() ==> m0.entity_live(#[trigger] inc@[j2]),
            decreases inc@.len() - k2,
        {
            let t = inc[k2];
            let c = crate::rc_ops::count_occurrences(&inc, t);
            let rc = self.entity_ref(t).reference_count;
            if c as u64 > u32::MAX as u64 || rc as u64 + c as u64 > u32::MAX as u64 {
                proof {
                    assert(values_refs(staged.deep_view(), t) == values_refs(vals0, t) + count_ids(
                        inc@,
                        t,
                    ));
                    assert(!no_rc_overflow(m0, entity_id, staged.deep_view()));
                }
                return Err(DirectoryError::TooManyReferencesToEntity);
            }
            k2 += 1;
        }
        proof {
            assert(no_rc_overflow(m0, entity_id, staged.deep_view())) by {
                assert forall|t: EntityId|
                    m0.entity_live(t) implies m0.entity_at(t).reference_count + values_refs(
                    staged.deep_view(),
                    t,
                ) - values_refs(vals0, t) <= u32::MAX by {
                    assert(values_refs(staged.deep_view(), t) == values_refs(vals0, t) + count_ids(
                        inc@,
                        t,
                    ));
                    if count_ids(inc@, t) > 0 {
                        inc@.to_multiset_ensures();
                        assert(inc@.contains(t));
                        let w = choose|w: int| 0 <= w < inc@.len() && inc@[w] == t;
                        assert(m0.entity_at(inc@[w]).reference_count + count_ids(inc@, inc@[w])
                            <= u32::MAX);
                    }
                }
            }
        }

        // Commit: adopt the schema, write the staged values, charge
        // references.
        let ghost pre = *self;
        let ghost staged_dv = staged.deep_view();
        let ghost ev = EntityView {
            values: staged_dv,
            supported_schemas: pre.entity_at(entity_id).supported_schemas.push(schema_id),
            ..pre.entity_at(entity_id)
        };
        proof {
            assert(pre == m0);
            assert forall|t: EntityId|
                #![trigger values_refs(staged_dv, t)]
                values_refs(staged_dv, t) == values_refs(vals0, t) + count_ids(inc@, t) by {
                assert(values_refs(staged.deep_view(), t) == values_refs(vals0, t) + count_ids(
                    inc@,
                    t,
                ));
            }
        }
        {
            let entity = self.entity_mut(i);
            entity.values = staged;
            entity.supported_schemas.push(schema_id);
        }
        let ghost mid = *self;
        proof {
            assert(mid.entities_dv() =~= slot_replaced(pre, entity_id, Some(ev))) by {
                assert(self.entities@[entity_id as int]->Some_0@.values =~= staged_dv);
                assert(self.entities@[entity_id as int]->Some_0@ =~= ev);
            }
            assert forall|j2: int|
                0 <= j2 < inc@.len() implies mid.entity_live(#[trigger] inc@[j2]) && mid.entity_at(
                inc@[j2],
            ).reference_count + count_ids(inc@, inc@[j2]) <= u32::MAX by {
                let t = inc@[j2];
                inc@.to_multiset_ensures();
                assert(inc@.contains(t));
                assert(count_ids(inc@, t) > 0);
                assert(mid.entities_dv()[t as int] is Some);
                assert(mid.entity_at(t).reference_count == m0.entity_at(t).reference_count);
            }
        }
        self.increment_entities_rc(&inc);
        let n_entities = self.entities.len();
        let ghost dec: Seq<EntityId> = Seq::empty();
        proof {
            assert forall|x: int|
                0 <= x < self.entities@.len() implies self.entities_dv()[x] == rc_adjusted(
                slot_replaced(pre, entity_id, Some(ev))[x],
                count_ids(inc@, x as EntityId) as int - count_ids(dec, x as EntityId) as int,
            ) by {
                lemma_count_empty(x as EntityId);
                assert(self.entities_dv()[x] == rc_adjusted(
                    mid.entities_dv()[x],
                    count_ids(inc@, x as EntityId) as int,
                ));
            }
            assert forall|t2: EntityId|
                #![trigger values_refs(ev.values, t2)]
                values_refs(ev.values, t2) + count_ids(dec, t2) == values_refs(vals0, t2)
                    + count_ids(inc@, t2) by {
                lemma_count_empty(t2);
                assert(values_refs(staged_dv, t2) == values_refs(vals0, t2) + count_ids(inc@, t2));
            }
            assert forall|t2: EntityId|
                #![trigger count_ids(inc@, t2)]
                pre.entity_live(t2) ==> pre.entity_at(t2).reference_count + count_ids(inc@, t2)
                    - count_ids(dec, t2) <= u32::MAX by {
                lemma_count_empty(t2);
                if count_ids(inc@, t2) > 0 {
                    inc@.to_multiset_ensures();
                    assert(inc@.contains(t2));
                    let w = choose|w: int| 0 <= w < inc@.len() && inc@[w] == t2;
                }
            }
            assert(pre.entity_wf(pre.entities_dv()[entity_id as int]->Some_0));
            lemma_inv_value_commit(pre, *self, entity_id, ev, inc@, dec);
            assert forall|x: int|
                0 <= x < self.entities@.len() implies self.entities_dv()[x] == rc_adjusted(
                slot_replaced(pre, entity_id, Some(ev))[x],
                values_refs(staged_dv, x as EntityId) as int - values_refs(
                    vals0,
                    x as EntityId,
                ) as int,
            ) by {
                let t = x as EntityId;
                lemma_count_empty(t);
                assert(values_refs(staged_dv, t) == values_refs(vals0, t) + count_ids(inc@, t));
            }
        }
        Ok(())
    }
}

/// Growing a staged value list to a slot below the class's property count
/// keeps it below the class's property count.
proof fn lemma_step_adopt_bounds(
    staged: Seq<Option<PropertyValueView>>,
    id: int,
    x: PropertyValueView,
    cv: crate::state::ClassView,
)
    requires
        0 <= id < cv.properties.len(),
        staged.len() <= cv.properties.len(),
    ensures
        grow_set(staged, id, x).len() <= cv.properties.len(),
    decreases (if id + 1 > staged.len() {
        id + 1 - staged.len()
    } else {
        0
    }),
{
    if id < staged.len() {
    } else {
        lemma_step_adopt_bounds(staged.push(None), id, x, cv);
    }
}


/// The first reference in a list whose target is missing or whose
/// target's class forbids a reference from this (class, property) origin.
pub open spec fn first_ref_error(
    m: Module,
    source_class_id: crate::ids::ClassId,
    prop: PropertyId,
    refs: Seq<EntityId>,
    j: int,
) -> Option<DirectoryError>
    decreases refs.len() - j,
{
    if j < 0 || j >= refs.len() {
        None
    } else {
        let t = refs[j];
        if !m.entity_live(t) {
            Some(DirectoryError::EntityNotFound)
        } else if !m.class_at(
            m.entity_at(t).class_id,
        ).class_permissions.reference_constraint.allows(source_class_id, prop) {
            Some(DirectoryError::EntityCannotReferenceTargetEntity)
        } else {
            first_ref_error(m, source_class_id, prop, refs, j + 1)
        }
    }
}

/// What `ensure_internal_property_values_permitted` reports: for every
/// supplied value, every reference it holds must point at a live entity
/// whose class's constraint permits a reference from this class and
/// property.
pub open spec fn spec_refs_permitted(
    m: Module,
    source_class_id: crate::ids::ClassId,
    entries: Seq<(PropertyId, PropertyValueView)>,
    k: int,
) -> Result<(), DirectoryError>
    decreases entries.len() - k,
{
    if k < 0 || k >= entries.len() {
        Ok(())
    } else {
        let (id, v) = entries[k];
        match first_ref_error(m, source_class_id, id, v.ref_seq(), 0) {
            Some(e) => Err(e),
            None => spec_refs_permitted(m, source_class_id, entries, k + 1),
        }
    }
}

impl Module {
    /// Checks every reference among supplied property values against the
    /// reference constraint of the target's class.
    #[verifier::loop_isolation(false)]
    pub fn ensure_internal_property_values_permitted(
        &self,
        source_class_id: crate::ids::ClassId,
        property_values: &Vec<(PropertyId, PropertyValue)>,
    ) -> (r: Result<(), DirectoryError>)
        requires
            self.inv(),
        ensures
            r == spec_refs_permitted(*self, source_class_id, property_values.deep_view(), 0),
    {
        let ghost entries = property_values.deep_view();
        let mut k: usize = 0;
        while k < property_values.len()
            invariant
                k <= property_values@.len(),
                spec_refs_permitted(*self, source_class_id, entries, 0) == spec_refs_permitted(
                    *self,
                    source_class_id,
                    entries,
                    k as int,
                ),
            decreases property_values@.len() - k,
        {
            let id = property_values[k].0;
            let value = &property_values[k].1;
            let ghost vv = value@;
            proof {
                assert(entries[k as int] == (id, vv));
            }
            let refs = value.involved_entities();
            let mut j: usize = 0;
            while j < refs.len()
                invariant
                    j <= refs@.len(),
                    refs@ == vv.ref_seq(),
                    first_ref_error(*self, source_class_id, id, refs@, 0) == first_ref_error(
                        *self,
                        source_class_id,
                        id,
                        refs@,
                        j as int,
                    ),
                decreases refs@.len() - j,
            {
                let t = refs[j];
                if self.ensure_known_entity_id(t).is_err() {
                    return Err(DirectoryError::EntityNotFound);
                }
                proof {
                    assert(self.entity_wf(self.entities_dv()[t as int]->Some_0));
                }
                let target_class = self.class_ref(self.entity_ref(t).class_id);
                if !target_class.get_permissions().reference_constraint.allows(
                    source_class_id,
                    id,
                ) {
                    return Err(DirectoryError::EntityCannotReferenceTargetEntity);
                }
                j += 1;
            }
            k += 1;
        }
        Ok(())
    }

}

/// The full behavior of a credentialed value update, as one relation over
/// the store before and after the call: the entity must be live, its
/// references must be permitted, the entity-update permission rule must
/// pass, the staging must validate, and the reference counters must have
/// room; then success is owed and the staged result is committed, and any
/// failure leaves the store untouched and is pinned to its first failing
/// check.
pub open spec fn spec_update_rel<C: CredentialChecker>(
    pre: Module,
    post: Module,
    checker: C,
    origin: RawOrigin,
    with_credential: Option<Credential>,
    as_entity_maintainer: bool,
    entity_id: EntityId,
    entries: Seq<(PropertyId, PropertyValueView)>,
    r: Result<(), DirectoryError>,
) -> bool {
    if !pre.entity_live(entity_id) {
        r == Err::<(), DirectoryError>(DirectoryError::EntityNotFound) && post == pre
    } else {
        let class_id = pre.entity_at(entity_id).class_id;
        let refcheck = spec_refs_permitted(pre, class_id, entries, 0);
        let gate = spec_permission_gate(
            pre,
            checker,
            origin,
            with_credential,
            if as_entity_maintainer {
                Some(entity_id)
            } else {
                None
            },
            PermissionRule::CanUpdateEntity,
            class_id,
        );
        if refcheck is Err {
            r == Err::<(), DirectoryError>(refcheck->Err_0) && post == pre
        } else if gate is Err {
            r == Err::<(), DirectoryError>(gate->Err_0) && post == pre
        } else {
            match spec_update_step(
                pre,
                pre.class_at(class_id),
                pre.entity_at(entity_id).values,
                entries,
                0,
            ) {
                Err(e) => r == Err::<(), DirectoryError>(e) && post == pre,
                Ok(staged) => if no_rc_overflow(pre, entity_id, staged) {
                    r is Ok && update_values_post(pre, post, entity_id, staged)
                } else {
                    r == Err::<(), DirectoryError>(DirectoryError::TooManyReferencesToEntity)
                        && post == pre
                },
            }
        }
    }
}

/// The full behavior of a credentialed schema adoption, as one relation
/// over the store before and after the call, in the same style as
/// `spec_update_rel`.
pub open spec fn spec_adopt_rel<C: CredentialChecker>(
    pre: Module,
    post: Module,
    checker: C,
    origin: RawOrigin,
    with_credential: Option<Credential>,
    as_entity_maintainer: bool,
    entity_id: EntityId,
    schema_id: crate::ids::SchemaId,
    entries: Seq<(PropertyId, PropertyValueView)>,
    r: Result<(), DirectoryError>,
) -> bool {
    if !pre.entity_live(entity_id) {
        r == Err::<(), DirectoryError>(DirectoryError::EntityNotFound) && post == pre
    } else {
        let class_id = pre.entity_at(entity_id).class_id;
        let refcheck = spec_refs_permitted(pre, class_id, entries, 0);
        let gate = spec_permission_gate(
            pre,
            checker,
            origin,
            with_credential,
            if as_entity_maintainer {
                Some(entity_id)
            } else {
                None
            },
            PermissionRule::CanUpdateEntity,
            class_id,
        );
        if refcheck is Err {
            r == Err::<(), DirectoryError>(refcheck->Err_0) && post == pre
        } else if gate is Err {
            r == Err::<(), DirectoryError>(gate->Err_0) && post == pre
        } else if spec_adopt_check(pre, entity_id, schema_id) is Err {
            r == Err::<(), DirectoryError>(spec_adopt_check(pre, entity_id, schema_id)->Err_0)
                && post == pre
        } else {
            match spec_adopt_step(
                pre,
                pre.class_at(class_id),
                entries,
                pre.entity_at(entity_id).values,
                pre.class_at(class_id).schemas[schema_id as int].properties,
                0,
            ) {
                Err(e) => r == Err::<(), DirectoryError>(e) && post == pre,
                Ok(staged) => if no_rc_overflow(pre, entity_id, staged) {
                    r is Ok && adopt_post(pre, post, entity_id, schema_id, staged)
                } else {
                    r == Err::<(), DirectoryError>(DirectoryError::TooManyReferencesToEntity)
                        && post == pre
                },
            }
        }
    }
}

impl Module {
    /// Updates property values on behalf of a caller: the references must
    /// be permitted by the targets' classes, and the entity-update
    /// permission rule must pass.
    pub fn do_update_entity_property_values<C: CredentialChecker>(
        &mut self,
        checker: &C,
        raw_origin: &RawOrigin,
        with_credential: Option<Credential>,
        as_entity_maintainer: bool,
        entity_id: EntityId,
        property_values: Vec<(PropertyId, PropertyValue)>,
    ) -> (r: Result<(), DirectoryError>)
        requires
            old(self).inv(),
        ensures
            final(self).inv(),
            spec_update_rel(
                *old(self),
                *final(self),
                *checker,
                *raw_origin,
                with_credential,
                as_entity_maintainer,
                entity_id,
                property_values.deep_view(),
                r,
            ),
    {
        let class_id = self.get_class_id_by_entity_id(entity_id)?;
        self.ensure_internal_property_values_permitted(class_id, &property_values)?;
        let as_maintainer = if as_entity_maintainer {
            Some(entity_id)
        } else {
            None
        };
        self.if_class_permissions_satisfied(
            checker,
            raw_origin,
            with_credential,
            as_maintainer,
            PermissionRule::CanUpdateEntity,
            class_id,
        )?;
        self.complete_entity_property_values_update(entity_id, property_values)
    }

    /// Adopts a schema on an entity on behalf of a caller: the supplied
    /// references must be permitted, and the entity-update permission rule
    /// must pass.
    pub fn do_add_schema_support_to_entity<C: CredentialChecker>(
        &mut self,
        checker: &C,
        raw_origin: &RawOrigin,
        with_credential: Option<Credential>,
        as_entity_maintainer: bool,
        entity_id: EntityId,
        schema_id: crate::ids::SchemaId,
        property_values: Vec<(PropertyId, PropertyValue)>,
    ) -> (r: Result<(), DirectoryError>)
        requires
            old(self).inv(),
        ensures
            final(self).inv(),
            spec_adopt_rel(
                *old(self),
                *final(self),
                *checker,
                *raw_origin,
                with_credential,
                as_entity_maintainer,
                entity_id,
                schema_id,
                property_values.deep_view(),
                r,
            ),
    {
        let class_id = self.get_class_id_by_entity_id(entity_id)?;
        self.ensure_internal_property_values_permitted(class_id, &property_values)?;
        let as_maintainer = if as_entity_maintainer {
            Some(entity_id)
        } else {
            None
        };
        self.if_class_permissions_satisfied(
            checker,
            raw_origin,
            with_credential,
            as_maintainer,
            PermissionRule::CanUpdateEntity,
            class_id,
        )?;
        self.add_entity_schema_support(entity_id, schema_id, property_values)
    }

    /// Clears a vector property value on behalf of a caller.
    pub fn do_clear_entity_property_vector<C: CredentialChecker>(
        &mut self,
        checker: &C,
        raw_origin: &RawOrigin,
        with_credential: Option<Credential>,
        as_entity_maintainer: bool,
        entity_id: EntityId,
        in_class_schema_property_id: PropertyId,
    ) -> (r: Result<(), DirectoryError>)
        requires
            old(self).inv(),
        ensures
            final(self).inv(),
            r is Err ==> *final(self) == *old(self),
            !old(self).entity_live(entity_id) ==> r == Err::<(), DirectoryError>(
                DirectoryError::EntityNotFound,
            ),
            old(self).entity_live(entity_id) ==> {
                let gate = spec_permission_gate(
                    *old(self),
                    *checker,
                    *raw_origin,
                    with_credential,
                    if as_entity_maintainer {
                        Some(entity_id)
                    } else {
                        None
                    },
                    PermissionRule::CanUpdateEntity,
                    old(self).entity_at(entity_id).class_id,
                );
                &&& gate is Err ==> r == Err::<(), DirectoryError>(gate->Err_0)
                &&& gate is Ok ==> {
                    &&& r is Ok <==> spec_clear_check(
                        *old(self),
                        entity_id,
                        in_class_schema_property_id,
                    ) is Ok
                    &&& r is Err ==> Err::<(), DirectoryError>(r->Err_0) == spec_clear_check(
                        *old(self),
                        entity_id,
                        in_class_schema_property_id,
                    )
                    &&& r is Ok ==> clear_post(
                        *old(self),
                        *final(self),
                        entity_id,
                        in_class_schema_property_id,
                    )
                }
            },
    {
        let class_id = self.get_class_id_by_entity_id(entity_id)?;
        let as_maintainer = if as_entity_maintainer {
            Some(entity_id)
        } else {
            None
        };
        self.if_class_permissions_satisfied(
            checker,
            raw_origin,
            with_credential,
            as_maintainer,
            PermissionRule::CanUpdateEntity,
            class_id,
        )?;
        self.complete_entity_property_vector_cleaning(entity_id, in_class_schema_property_id)
    }

    /// Removes a vector element on behalf of a caller.
    pub fn do_remove_at_entity_property_vector<C: CredentialChecker>(
        &mut self,
        checker: &C,
        raw_origin: &RawOrigin,
        with_credential: Option<Credential>,
        as_entity_maintainer: bool,
        entity_id: EntityId,
        in_class_schema_property_id: PropertyId,
        index_in_property_vec: VecMaxLength,
        nonce: Nonce,
    ) -> (r: Result<(), DirectoryError>)
        requires
            old(self).inv(),
        ensures
            final(self).inv(),
            r is Err ==> *final(self) == *old(self),
            !old(self).entity_live(entity_id) ==> r == Err::<(), DirectoryError>(
                DirectoryError::EntityNotFound,
            ),
            old(self).entity_live(entity_id) ==> {
                let gate = spec_permission_gate(
                    *old(self),
                    *checker,
                    *raw_origin,
                    with_credential,
                    if as_entity_maintainer {
                        Some(entity_id)
                    } else {
                        None
                    },
                    PermissionRule::CanUpdateEntity,
                    old(self).entity_at(entity_id).class_id,
                );
                &&& gate is Err ==> r == Err::<(), DirectoryError>(gate->Err_0)
                &&& gate is Ok ==> {
                    &&& r is Ok <==> spec_remove_at_check(
                        *old(self),
                        entity_id,
                        in_class_schema_property_id,
                        index_in_property_vec,
                        nonce,
                    ) is Ok
                    &&& r is Err ==> Err::<(), DirectoryError>(r->Err_0) == spec_remove_at_check(
                        *old(self),
                        entity_id,
                        in_class_schema_property_id,
                        index_in_property_vec,
                        nonce,
                    )
                    &&& r is Ok ==> remove_at_post(
                        *old(self),
                        *final(self),
                        entity_id,
                        in_class_schema_property_id,
                        index_in_property_vec as int,
                    )
                }
            },
    {
        let class_id = self.get_class_id_by_entity_id(entity_id)?;
        let as_maintainer = if as_entity_maintainer {
            Some(entity_id)
        } else {
            None
        };
        self.if_class_permissions_satisfied(
            checker,
            raw_origin,
            with_credential,
            as_maintainer,
            PermissionRule::CanUpdateEntity,
            class_id,
        )?;
        self.complete_remove_at_entity_property_vector(
            entity_id,
            in_class_schema_property_id,
            index_in_property_vec,
            nonce,
        )
    }

    /// Inserts a vector element on behalf of a caller.
    pub fn do_insert_at_entity_property_vector<C: CredentialChecker>(
        &mut self,
        checker: &C,
        raw_origin: &RawOrigin,
        with_credential: Option<Credential>,
        as_entity_maintainer: bool,
        entity_id: EntityId,
        in_class_schema_property_id: PropertyId,
        index_in_property_vec: VecMaxLength,
        property_value: ScalarValue,
        nonce: Nonce,
    ) -> (r: Result<(), DirectoryError>)
        requires
            old(self).inv(),
        ensures
            final(self).inv(),
            r is Err ==> *final(self) == *old(self),
            !old(self).entity_live(entity_id) ==> r == Err::<(), DirectoryError>(
                DirectoryError::EntityNotFound,
            ),
            old(self).entity_live(entity_id) ==> {
                let gate = spec_permission_gate(
                    *old(self),
                    *checker,
                    *raw_origin,
                    with_credential,
                    if as_entity_maintainer {
                        Some(entity_id)
                    } else {
                        None
                    },
                    PermissionRule::CanUpdateEntity,
                    old(self).entity_at(entity_id).class_id,
                );
                &&& gate is Err ==> r == Err::<(), DirectoryError>(gate->Err_0)
                &&& gate is Ok ==> {
                    &&& r is Ok <==> spec_insert_at_check(
                        *old(self),
                        entity_id,
                        in_class_schema_property_id,
                        index_in_property_vec,
                        property_value@,
                        nonce,
                    ) is Ok
                    &&& r is Err ==> Err::<(), DirectoryError>(r->Err_0) == spec_insert_at_check(
                        *old(self),
                        entity_id,
                        in_class_schema_property_id,
                        index_in_property_vec,
                        property_value@,
                        nonce,
                    )
                    &&& r is Ok ==> insert_at_post(
                        *old(self),
                        *final(self),
                        entity_id,
                        in_class_schema_property_id,
                        index_in_property_vec as int,
                        property_value@,
                    )
                }
            },
    {
        let class_id = self.get_class_id_by_entity_id(entity_id)?;
        let as_maintainer = if as_entity_maintainer {
            Some(entity_id)
        } else {
            None
        };
        self.if_class_permissions_satisfied(
            checker,
            raw_origin,
            with_credential,
            as_maintainer,
            PermissionRule::CanUpdateEntity,
            class_id,
        )?;
        self.complete_insert_at_entity_property_vector(
            entity_id,
            in_class_schema_property_id,
            index_in_property_vec,
            property_value,
            nonce,
        )
    }
}

impl Module {
    /// The signed or system entry point: rejects unsigned callers and
    /// otherwise behaves as the corresponding credentialed operation.
    pub fn update_entity_property_values<C: CredentialChecker>(
        &mut self,
        checker: &C,
        raw_origin: &RawOrigin,
        with_credential: Option<Credential>,
        as_entity_maintainer: bool,
        entity_id: EntityId,
        property_values: Vec<(PropertyId, PropertyValue)>,
    ) -> (r: Result<(), DirectoryError>)
        requires
            old(self).inv(),
        ensures
            final(self).inv(),
            *raw_origin is Unsigned ==> r == Err::<(), DirectoryError>(
                DirectoryError::ExpectedRootOrSigned,
            ) && *final(self) == *old(self),
            !(*raw_origin is Unsigned) ==> spec_update_rel(
                *old(self),
                *final(self),
                *checker,
                *raw_origin,
                with_credential,
                as_entity_maintainer,
                entity_id,
                property_values.deep_view(),
                r,
            ),
    {
        Module::ensure_root_or_signed(raw_origin)?;
        self.do_update_entity_property_values(checker, raw_origin, with_credential, as_entity_maintainer, entity_id, property_values)
    }

    /// The signed or system entry point: rejects unsigned callers and
    /// otherwise behaves as the corresponding credentialed operation.
    pub fn add_schema_support_to_entity<C: CredentialChecker>(
        &mut self,
        checker: &C,
        raw_origin: &RawOrigin,
        with_credential: Option<Credential>,
        as_entity_maintainer: bool,
        entity_id: EntityId,
        schema_id: crate::ids::SchemaId,
        property_values: Vec<(PropertyId, PropertyValue)>,
    ) -> (r: Result<(), DirectoryError>)
        requires
            old(self).inv(),
        ensures
            final(self).inv(),
            *raw_origin is Unsigned ==> r == Err::<(), DirectoryError>(
                DirectoryError::ExpectedRootOrSigned,
            ) && *final(self) == *old(self),
            !(*raw_origin is Unsigned) ==> spec_adopt_rel(
                *old(self),
                *final(self),
                *checker,
                *raw_origin,
                with_credential,
                as_entity_maintainer,
                entity_id,
                schema_id,
                property_values.deep_view(),
                r,
            ),
    {
        Module::ensure_root_or_signed(raw_origin)?;
        self.do_add_schema_support_to_entity(checker, raw_origin, with_credential, as_entity_maintainer, entity_id, schema_id, property_values)
    }

    /// The signed or system entry point: rejects unsigned callers and
    /// otherwise behaves as the corresponding credentialed operation.
    pub fn clear_entity_property_vector<C: CredentialChecker>(
        &mut self,
        checker: &C,
        raw_origin: &RawOrigin,
        with_credential: Option<Credential>,
        as_entity_maintainer: bool,
        entity_id: EntityId,
        in_class_schema_property_id: PropertyId,
    ) -> (r: Result<(), DirectoryError>)
        requires
            old(self).inv(),
        ensures
            final(self).inv(),
            r is Err ==> *final(self) == *old(self),
            *raw_origin is Unsigned ==> r == Err::<(), DirectoryError>(
                DirectoryError::ExpectedRootOrSigned,
            ),
            !(*raw_origin is Unsigned) && !old(self).entity_live(entity_id) ==> r == Err::<
                (),
                DirectoryError,
            >(DirectoryError::EntityNotFound),
            !(*raw_origin is Unsigned) && old(self).entity_live(entity_id) ==> {
                let gate = spec_permission_gate(
                    *old(self),
                    *checker,
                    *raw_origin,
                    with_credential,
                    if as_entity_maintainer {
                        Some(entity_id)
                    } else {
                        None
                    },
                    PermissionRule::CanUpdateEntity,
                    old(self).entity_at(entity_id).class_id,
                );
                &&& gate is Err ==> r == Err::<(), DirectoryError>(gate->Err_0)
                &&& gate is Ok ==> {
                    &&& r is Ok <==> spec_clear_check(
                        *old(self),
                        entity_id,
                        in_class_schema_property_id,
                    ) is Ok
                    &&& r is Err ==> Err::<(), DirectoryError>(r->Err_0) == spec_clear_check(
                        *old(self),
                        entity_id,
                        in_class_schema_property_id,
                    )
                    &&& r is Ok ==> clear_post(
                        *old(self),
                        *final(self),
                        entity_id,
                        in_class_schema_property_id,
                    )
                }
            },
    {
        Module::ensure_root_or_signed(raw_origin)?;
        self.do_clear_entity_property_vector(checker, raw_origin, with_credential, as_entity_maintainer, entity_id, in_class_schema_property_id)
    }

    /// The signed or system entry point: rejects unsigned callers and
    /// otherwise behaves as the corresponding credentialed operation.
    pub fn remove_at_entity_property_vector<C: CredentialChecker>(
        &mut self,
        checker: &C,
        raw_origin: &RawOrigin,
        with_credential: Option<Credential>,
        as_entity_maintainer: bool,
        entity_id: EntityId,
        in_class_schema_property_id: PropertyId,
        index_in_property_vec: VecMaxLength,
        nonce: Nonce,
    ) -> (r: Result<(), DirectoryError>)
        requires
            old(self).inv(),
        ensures
            final(self).inv(),
            r is Err ==> *final(self) == *old(self),
            *raw_origin is Unsigned ==> r == Err::<(), DirectoryError>(
                DirectoryError::ExpectedRootOrSigned,
            ),
            !(*raw_origin is Unsigned) && !old(self).entity_live(entity_id) ==> r == Err::<
                (),
                DirectoryError,
            >(DirectoryError::EntityNotFound),
            !(*raw_origin is Unsigned) && old(self).entity_live(entity_id) ==> {
                let gate = spec_permission_gate(
                    *old(self),
                    *checker,
                    *raw_origin,
                    with_credential,
                    if as_entity_maintainer {
                        Some(entity_id)
                    } else {
                        None
                    },
                    PermissionRule::CanUpdateEntity,
                    old(self).entity_at(entity_id).class_id,
                );
                &&& gate is Err ==> r == Err::<(), DirectoryError>(gate->Err_0)
                &&& gate is Ok ==> {
                    &&& r is Ok <==> spec_remove_at_check(
                        *old(self),
                        entity_id,
                        in_class_schema_property_id,
                        index_in_property_vec,
                        nonce,
                    ) is Ok
                    &&& r is Err ==> Err::<(), DirectoryError>(r->Err_0) == spec_remove_at_check(
                        *old(self),
                        entity_id,
                        in_class_schema_property_id,
                        index_in_property_vec,
                        nonce,
                    )
                    &&& r is Ok ==> remove_at_post(
                        *old(self),
                        *final(self),
                        entity_id,
                        in_class_schema_property_id,
                        index_in_property_vec as int,
                    )
                }
            },
    {
        Module::ensure_root_or_signed(raw_origin)?;
        self.do_remove_at_entity_property_vector(checker, raw_origin, with_credential, as_entity_maintainer, entity_id, in_class_schema_property_id, index_in_property_vec, nonce)
    }

    /// The signed or system entry point: rejects unsigned callers and
    /// otherwise behaves as the corresponding credentialed operation.
    pub fn insert_at_entity_property_vector<C: CredentialChecker>(
        &mut self,
        checker: &C,
        raw_origin: &RawOrigin,
        with_credential: Option<Credential>,
        as_entity_maintainer: bool,
        entity_id: EntityId,
        in_class_schema_property_id: PropertyId,
        index_in_property_vec: VecMaxLength,
        property_value: ScalarValue,
        nonce: Nonce,
    ) -> (r: Result<(), DirectoryError>)
        requires
            old(self).inv(),
        ensures
            final(self).inv(),
            r is Err ==> *final(self) == *old(self),
            *raw_origin is Unsigned ==> r == Err::<(), DirectoryError>(
                DirectoryError::ExpectedRootOrSigned,
            ),
            !(*raw_origin is Unsigned) && !old(self).entity_live(entity_id) ==> r == Err::<
                (),
                DirectoryError,
            >(DirectoryError::EntityNotFound),
            !(*raw_origin is Unsigned) && old(self).entity_live(entity_id) ==> {
                let gate = spec_permission_gate(
                    *old(self),
                    *checker,
                    *raw_origin,
                    with_credential,
                    if as_entity_maintainer {
                        Some(entity_id)
                    } else {
                        None
                    },
                    PermissionRule::CanUpdateEntity,
                    old(self).entity_at(entity_id).class_id,
                );
                &&& gate is Err ==> r == Err::<(), DirectoryError>(gate->Err_0)
                &&& gate is Ok ==> {
                    &&& r is Ok <==> spec_insert_at_check(
                        *old(self),
                        entity_id,
                        in_class_schema_property_id,
                        index_in_property_vec,
                        property_value@,
                        nonce,
                    ) is Ok
                    &&& r is Err ==> Err::<(), DirectoryError>(r->Err_0) == spec_insert_at_check(
                        *old(self),
                        entity_id,
                        in_class_schema_property_id,
                        index_in_property_vec,
                        property_value@,
                        nonce,
                    )
                    &&& r is Ok ==> insert_at_post(
                        *old(self),
                        *final(self),
                        entity_id,
                        in_class_schema_property_id,
                        index_in_property_vec as int,
                        property_value@,
                    )
                }
            },
    {
        Module::ensure_root_or_signed(raw_origin)?;
        self.do_insert_at_entity_property_vector(checker, raw_origin, with_credential, as_entity_maintainer, entity_id, in_class_schema_property_id, index_in_property_vec, property_value, nonce)
    }

}


/// Inserting an element and then removing it at the same index leaves the
/// vector as it was.
proof fn lemma_vec_insert_remove(vv: VecValueView, i: int, x: ScalarValueView)
    requires
        0 <= i <= vv.len(),
        vv.accepts_elem_kind(x),
    ensures
        vv.inserted_at(i, x).removed_at(i) == vv,
{
    match (vv, x) {
        (VecValueView::Bool(s), ScalarValueView::Bool(b)) => {
            assert(s.insert(i, b).remove(i) =~= s);
        },
        (VecValueView::Uint16(s), ScalarValueView::Uint16(v)) => {
            assert(s.insert(i, v).remove(i) =~= s);
        },
        (VecValueView::Uint32(s), ScalarValueView::Uint32(v)) => {
            assert(s.insert(i, v).remove(i) =~= s);
        },
        (VecValueView::Uint64(s), ScalarValueView::Uint64(v)) => {
            assert(s.insert(i, v).remove(i) =~= s);
        },
        (VecValueView::Int16(s), ScalarValueView::Int16(v)) => {
            assert(s.insert(i, v).remove(i) =~= s);
        },
        (VecValueView::Int32(s), ScalarValueView::Int32(v)) => {
            assert(s.insert(i, v).remove(i) =~= s);
        },
        (VecValueView::Int64(s), ScalarValueView::Int64(v)) => {
            assert(s.insert(i, v).remove(i) =~= s);
        },
        (VecValueView::Text(s), ScalarValueView::Text(t)) => {
            assert(s.insert(i, t).remove(i) =~= s);
        },
        (VecValueView::Reference(s), ScalarValueView::Reference(e)) => {
            assert(s.insert(i, e).remove(i) =~= s);
        },
        _ => {},
    }
}

/// A positional insertion followed by a positional removal at the same
/// index, issued with the advanced nonce, restores the vector's content
/// and length, while the nonce strictly increases through both edits and
/// is never reused.
pub proof fn lemma_insert_then_remove_roundtrip(
    m0: Module,
    m1: Module,
    m2: Module,
    e: EntityId,
    prop: PropertyId,
    index: VecMaxLength,
    value: ScalarValueView,
    nonce: Nonce,
)
    requires
        m0.entity_live(e),
        has_value_slot(m0, e, prop),
        spec_insert_at_check(m0, e, prop, index, value, nonce) is Ok,
        insert_at_post(m0, m1, e, prop, index as int, value),
        remove_at_post(m1, m2, e, prop, index as int),
        spec_remove_at_check(m1, e, prop, index, (nonce + 1) as u64) is Ok,
    ensures
        slot_of(m2, e, prop)->Some_0->Vector_0 == slot_of(m0, e, prop)->Some_0->Vector_0,
        slot_of(m2, e, prop)->Some_0->Vector_1 == nonce + 2,
        nonce + 1 > nonce && nonce + 2 > nonce + 1,
{
    let vv0 = slot_of(m0, e, prop)->Some_0->Vector_0;
    let ev0 = m0.entity_at(e);
    let nv1 = ev0.values.update(
        prop as int,
        Some(PropertyValueView::Vector(vv0.inserted_at(index as int, value), (nonce + 1) as u64)),
    );
    assert(m1.entities_dv()[e as int] is Some);
    assert(m1.entity_at(e).values == nv1);
    assert(slot_of(m1, e, prop) == Some(
        PropertyValueView::Vector(vv0.inserted_at(index as int, value), (nonce + 1) as u64),
    ));
    let vv1 = slot_of(m1, e, prop)->Some_0->Vector_0;
    assert(m2.entities_dv()[e as int] is Some);
    assert(slot_of(m2, e, prop) == Some(
        PropertyValueView::Vector(vv1.removed_at(index as int), (nonce + 2) as u64),
    ));
    lemma_vec_insert_remove(vv0, index as int, value);
}

} // verus!
