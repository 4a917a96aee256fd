//! Entity creation and removal, and entity permission updates, together
//! with the commit lemmas that carry the reference-count invariant through
//! a change of one entity's values.

use vstd::prelude::*;

use crate::access::spec_permission_gate;
use crate::credentials::{ActorAuthenticator, CredentialChecker};
use crate::errors::DirectoryError;
use crate::ids::{ClassId, Credential, EntityId, SchemaId};
use crate::permissions::{AccessLevel, ActorInGroupId, ClassPermissionsView, EntityController,
    EntityCreationVoucher, EntityPermission, InitialControllerPolicy, PermissionRule, RawOrigin};
use crate::refs::{count_ids, entity_refs, lemma_store_refs_congruence, lemma_store_refs_le,
    lemma_store_refs_push, lemma_store_refs_update, rc_adjusted, slot_refs, store_refs,
    values_refs};
use crate::schema::{PropertyValue, PropertyValueView};
use crate::state::{ClassView, Entity, EntityView, Module};

verus! {

/// The entity store with one live entity's slot replaced.
pub open spec fn slot_replaced(pre: Module, e: EntityId, slot: Option<EntityView>) -> Seq<
    Option<EntityView>,
> {
    pre.entities_dv().update(e as int, slot)
}

/// Replacing one live entity's values (and, freely, its supported schemas
/// and permission) while adjusting reference counts by one increment per
/// occurrence in `inc` and one decrement per occurrence in `dec` preserves
/// the store invariant, provided the adjustments account exactly for the
/// change of the entity's references, increment targets are live, and no
/// adjusted count leaves the counter's range.
pub proof fn lemma_inv_value_commit(
    pre: Module,
    post: Module,
    e: EntityId,
    ev: EntityView,
    inc: Seq<EntityId>,
    dec: Seq<EntityId>,
)
    requires
        pre.inv(),
        pre.entity_live(e),
        ev.class_id == pre.entity_at(e).class_id,
        ev.reference_count == pre.entity_at(e).reference_count,
        ev.values.len() <= pre.class_at(pre.entity_at(e).class_id).properties.len(),
        forall|t: EntityId|
            #![trigger values_refs(ev.values, t)]
            values_refs(ev.values, t) + count_ids(dec, t) == values_refs(
                pre.entity_at(e).values,
                t,
            ) + count_ids(inc, t),
        forall|k: int| 0 <= k < inc.len() ==> pre.entity_live(#[trigger] inc[k]),
        forall|t: EntityId|
            #![trigger count_ids(inc, t)]
            pre.entity_live(t) ==> pre.entity_at(t).reference_count + count_ids(inc, t) - count_ids(
                dec,
                t,
            ) <= u32::MAX,
        post.classes == pre.classes,
        post.entity_maintainer_by_entity_id == pre.entity_maintainer_by_entity_id,
        post.can_create_entities_of_class == pre.can_create_entities_of_class,
        post.entity_maintainers == pre.entity_maintainers,
        post.entity_creation_vouchers == pre.entity_creation_vouchers,
        post.entities@.len() == pre.entities@.len(),
        forall|i: int|
            0 <= i < post.entities@.len() ==> post.entities_dv()[i] == rc_adjusted(
                slot_replaced(pre, e, Some(ev))[i],
                count_ids(inc, i as EntityId) as int - count_ids(dec, i as EntityId) as int,
            ),
    ensures
        post.inv(),
{
    let mid = slot_replaced(pre, e, Some(ev));
    let predv = pre.entities_dv();
    let postdv = post.entities_dv();

    // References in the middle store: the old entity's values replaced.
    assert forall|t: EntityId| #[trigger] store_refs(mid, t) == store_refs(predv, t) + count_ids(
        inc,
        t,
    ) - count_ids(dec, t) by {
        lemma_store_refs_update(predv, e as int, Some(ev), t);
        assert(values_refs(ev.values, t) + count_ids(dec, t) == values_refs(
            pre.entity_at(e).values,
            t,
        ) + count_ids(inc, t));
    }

    // The final store references targets exactly as the middle one does.
    assert forall|t: EntityId| #[trigger] store_refs(postdv, t) == store_refs(mid, t) by {
        assert forall|i: int|
            0 <= i < postdv.len() implies entity_refs(#[trigger] postdv[i], t) == entity_refs(
            mid[i],
            t,
        ) by {
            assert(postdv[i] == rc_adjusted(
                mid[i],
                count_ids(inc, i as EntityId) as int - count_ids(dec, i as EntityId) as int,
            ));
        }
        lemma_store_refs_congruence(postdv, mid, t);
    }

    // Absent targets gain nothing: they are never incremented, so their
    // reference totals can only shrink, and they stay at zero.
    assert forall|t: EntityId|
        !(t < predv.len() && predv[t as int] is Some) implies count_ids(inc, t) == 0 by {
        if count_ids(inc, t) > 0 {
            inc.to_multiset_ensures();
            assert(inc.contains(t));
            let k = choose|k: int| 0 <= k < inc.len() && inc[k] == t;
            assert(pre.entity_live(inc[k]));
        }
    }

    // Reference counts in the final store are exact.
    assert forall|t: EntityId|
        t < postdv.len() && postdv[t as int] is Some implies post.entity_at(t).reference_count
        == #[trigger] store_refs(postdv, t) by {
        assert(predv[t as int] is Some);
        let base_rc = pre.entity_at(t).reference_count;
        let delta = count_ids(inc, t) as int - count_ids(dec, t) as int;
        assert(store_refs(predv, t) == base_rc);
        assert(store_refs(postdv, t) == base_rc + delta);
        assert(post.entity_at(t).reference_count == (base_rc + delta) as u32);
        assert(base_rc + delta >= 0);
        assert(base_rc + delta <= u32::MAX);
    }

    // Every referenced target is still live.
    assert forall|t: EntityId| #[trigger] store_refs(postdv, t) > 0 implies t < postdv.len()
        && postdv[t as int] is Some by {
        if t < predv.len() && predv[t as int] is Some {
        } else {
            assert(count_ids(inc, t) == 0);
            assert(store_refs(predv, t) == 0);
            assert(store_refs(postdv, t) <= 0);
        }
    }

    // Structural soundness of entities and classes carries over.
    assert forall|i: int|
        0 <= i < postdv.len() && postdv[i] is Some implies #[trigger] post.entity_wf(
        postdv[i]->Some_0,
    ) by {
        assert(pre.entity_wf(predv[i]->Some_0));
        if i == e as int {
            assert(postdv[i]->Some_0.values == ev.values);
        }
    }
    assert forall|c: int|
        0 <= c < post.classes@.len() implies post.class_wf(#[trigger] post.classes_dv()[c]) by {
        assert(pre.class_wf(pre.classes_dv()[c]));
        let pcv = post.classes_dv()[c];
        assert forall|s: int|
            0 <= s < pcv.schemas.len() implies #[trigger] post.schema_wf(pcv, pcv.schemas[s]) by {
            assert(pre.schema_wf(pre.classes_dv()[c], pre.classes_dv()[c].schemas[s]));
        }
    }
}

/// Removing an unreferenced entity and decrementing each entity it
/// referenced preserves the store invariant.
pub proof fn lemma_inv_removal_commit(pre: Module, post: Module, e: EntityId, dec: Seq<EntityId>)
    requires
        pre.inv(),
        pre.entity_live(e),
        pre.entity_at(e).reference_count == 0,
        forall|t: EntityId| #[trigger] count_ids(dec, t) == values_refs(
            pre.entity_at(e).values,
            t,
        ),
        post.classes == pre.classes,
        post.can_create_entities_of_class == pre.can_create_entities_of_class,
        post.entity_maintainers == pre.entity_maintainers,
        post.entity_creation_vouchers == pre.entity_creation_vouchers,
        post.entity_maintainer_by_entity_id@.len() == pre.entity_maintainer_by_entity_id@.len(),
        post.entities@.len() == pre.entities@.len(),
        forall|i: int|
            0 <= i < post.entities@.len() ==> post.entities_dv()[i] == rc_adjusted(
                slot_replaced(pre, e, None)[i],
                -(count_ids(dec, i as EntityId) as int),
            ),
    ensures
        post.inv(),
{
    let mid = slot_replaced(pre, e, None);
    let predv = pre.entities_dv();
    let postdv = post.entities_dv();

    assert forall|t: EntityId| #[trigger] store_refs(mid, t) + count_ids(dec, t) == store_refs(
        predv,
        t,
    ) by {
        lemma_store_refs_update(predv, e as int, None, t);
    }
    assert forall|t: EntityId| #[trigger] store_refs(postdv, t) == store_refs(mid, t) by {
        assert forall|i: int|
            0 <= i < postdv.len() implies entity_refs(#[trigger] postdv[i], t) == entity_refs(
            mid[i],
            t,
        ) by {
            assert(postdv[i] == rc_adjusted(mid[i], -(count_ids(dec, i as EntityId) as int)));
        }
        lemma_store_refs_congruence(postdv, mid, t);
    }
    assert forall|t: EntityId|
        t < postdv.len() && postdv[t as int] is Some implies post.entity_at(t).reference_count
        == #[trigger] store_refs(postdv, t) by {
        assert(t != e);
        assert(predv[t as int] is Some);
        let base_rc = pre.entity_at(t).reference_count;
        assert(store_refs(predv, t) == base_rc);
        assert(count_ids(dec, t) <= base_rc) by {
            lemma_store_refs_le(predv, e as int, t);
        }
        assert(store_refs(postdv, t) == base_rc - count_ids(dec, t));
        assert(post.entity_at(t).reference_count == (base_rc - count_ids(dec, t) as int) as u32);
    }
    assert forall|t: EntityId| #[trigger] store_refs(postdv, t) > 0 implies t < postdv.len()
        && postdv[t as int] is Some by {
        assert(store_refs(predv, t) > 0);
        if t == e {
            assert(store_refs(predv, e) == pre.entity_at(e).reference_count);
        }
    }
    assert forall|i: int|
        0 <= i < postdv.len() && postdv[i] is Some implies #[trigger] post.entity_wf(
        postdv[i]->Some_0,
    ) by {
        assert(pre.entity_wf(predv[i]->Some_0));
    }
    assert forall|c: int|
        0 <= c < post.classes@.len() implies post.class_wf(#[trigger] post.classes_dv()[c]) by {
        assert(pre.class_wf(pre.classes_dv()[c]));
        let pcv = post.classes_dv()[c];
        assert forall|s: int|
            0 <= s < pcv.schemas.len() implies #[trigger] post.schema_wf(pcv, pcv.schemas[s]) by {
            assert(pre.schema_wf(pre.classes_dv()[c], pre.classes_dv()[c].schemas[s]));
        }
    }
}

/// Collects every entity referenced by a value list, one occurrence per
/// reference.
#[verifier::loop_isolation(false)]
pub fn collect_value_refs(values: &Vec<Option<PropertyValue>>) -> (r: Vec<EntityId>)
    ensures
        forall|t: EntityId| #[trigger] count_ids(r@, t) == values_refs(values.deep_view(), t),
{
    let dvlen: usize = values.len();
    let mut r: Vec<EntityId> = Vec::new();
    let mut i: usize = 0;
    proof {
        assert forall|t: EntityId| #[trigger] count_ids(r@, t) == values_refs(
            values.deep_view().take(0),
            t,
        ) by {
            r@.to_multiset_ensures();
            assert(values.deep_view().take(0) =~= Seq::<Option<PropertyValueView>>::empty());
        }
    }
    while i < values.len()
        invariant
            i <= values@.len(),
            forall|t: EntityId| #[trigger] count_ids(r@, t) == values_refs(
                values.deep_view().take(i as int),
                t,
            ),
        decreases values@.len() - i,
    {
        let ghost pre = r@;
        let ghost dv = values.deep_view();
        proof {
            assert(dv.take(i as int + 1).drop_last() =~= dv.take(i as int));
            assert(dv.take(i as int + 1).last() == dv[i as int]);
        }
        match &values[i] {
            Some(v) => {
                let mut ids = v.involved_entities();
                let ghost idsv = ids@;
                r.append(&mut ids);
                proof {
                    broadcast use vstd::multiset::group_multiset_axioms;

                    assert(r@ == pre + idsv);
                    assert(dv[i as int] == Some(v@));
                    assert forall|t: EntityId| #[trigger] count_ids(r@, t) == values_refs(
                        dv.take(i as int + 1),
                        t,
                    ) by {
                        vstd::seq_lib::lemma_multiset_commutative(pre, idsv);
                        assert(count_ids(r@, t) == count_ids(pre, t) + count_ids(idsv, t));
                        assert(slot_refs(dv[i as int], t) == count_ids(idsv, t));
                        assert(values_refs(dv.take(i as int + 1), t) == values_refs(
                            dv.take(i as int),
                            t,
                        ) + slot_refs(dv[i as int], t));
                    }
                }
            },
            None => {
                proof {
                    assert(dv[i as int] is None);
                    assert forall|t: EntityId| #[trigger] count_ids(r@, t) == values_refs(
                        dv.take(i as int + 1),
                        t,
                    ) by {
                        assert(slot_refs(dv[i as int], t) == 0);
                        assert(values_refs(dv.take(i as int + 1), t) == values_refs(
                            dv.take(i as int),
                            t,
                        ) + slot_refs(dv[i as int], t));
                    }
                }
            },
        }
        i += 1;
    }
    proof {
        assert(values.deep_view().take(values@.len() as int) =~= values.deep_view());
    }
    r
}


/// The view of a freshly created entity of a class.
pub open spec fn spec_new_entity(class_id: ClassId) -> EntityView {
    EntityView {
        entity_permission: EntityPermission {
            controller: EntityController::Unspecified,
            frozen_for_controller: false,
        },
        class_id,
        supported_schemas: Seq::empty(),
        values: Seq::empty(),
        reference_count: 0,
    }
}

/// The controller of an entity created under a class by an actor in a
/// group, per the class's initial-controller policy.
pub open spec fn spec_initial_controller(
    c: ClassPermissionsView,
    actor_in_group: ActorInGroupId,
) -> EntityController {
    if c.initial_controller_of_created_entities is ActorInGroup {
        EntityController::ActorInGroup(actor_in_group.actor_id, actor_in_group.group_id)
    } else {
        EntityController::Group(actor_in_group.group_id)
    }
}

/// The voucher a creation is charged against: the recorded one, or a fresh
/// voucher with the class's per-controller limit.
pub open spec fn spec_effective_voucher(
    m: Module,
    class_id: ClassId,
    controller: EntityController,
) -> EntityCreationVoucher {
    match m.voucher_of(class_id, controller) {
        Some(v) => v,
        None => EntityCreationVoucher { maximum_entities_count: m.class_at(
            class_id,
        ).class_permissions.per_controller_entity_creation_limit, entities_created: 0 },
    }
}

impl Module {
    /// Appends a fresh entity of a class to the store and counts it
    /// against the class's entity cap.
    pub fn perform_entity_creation(&mut self, class_id: ClassId) -> (entity_id: EntityId)
        requires
            old(self).inv(),
            old(self).has_class(class_id),
            old(self).class_at(class_id).class_permissions.current_number_of_entities < old(
                self,
            ).class_at(class_id).class_permissions.maximum_entities_count,
        ensures
            final(self).inv(),
            entity_id == old(self).entities@.len(),
            final(self).entities_dv() == old(self).entities_dv().push(
                Some(spec_new_entity(class_id)),
            ),
            final(self).entity_maintainer_by_entity_id@ == old(
                self,
            ).entity_maintainer_by_entity_id@.push(None),
            final(self).classes_dv() == old(self).classes_dv().update(
                class_id as int,
                ClassView {
                    class_permissions: ClassPermissionsView {
                        current_number_of_entities: (old(self).class_at(
                            class_id,
                        ).class_permissions.current_number_of_entities + 1) as u64,
                        ..old(self).class_at(class_id).class_permissions
                    },
                    ..old(self).class_at(class_id)
                },
            ),
            *final(self) == (Module {
                entities: final(self).entities,
                entity_maintainer_by_entity_id: final(self).entity_maintainer_by_entity_id,
                classes: final(self).classes,
                ..*old(self)
            }),
    {
        let entity_id = self.entities.len() as u64;
        let new_entity = Entity::new(class_id, Vec::new(), Vec::new());
        let ghost nev = new_entity@;
        self.entities.push(Some(new_entity));
        self.entity_maintainer_by_entity_id.push(None);
        let i = self.class_index(class_id);
        let ghost pre_classes = self.classes_dv();
        let class = self.class_mut(i);
        class.class_permissions.current_number_of_entities =
            class.class_permissions.current_number_of_entities + 1;
        proof {
            let pre = *old(self);
            let predv = pre.entities_dv();
            let postdv = self.entities_dv();
            assert(nev.values =~= Seq::<Option<PropertyValueView>>::empty());
            assert(nev.supported_schemas =~= Seq::<SchemaId>::empty());
            assert(nev =~= spec_new_entity(class_id));
            assert(postdv =~= predv.push(Some(spec_new_entity(class_id))));
            let cv = self.classes@[class_id as int]@;
            assert(self.classes_dv() =~= pre.classes_dv().update(class_id as int, cv));
            assert(cv =~= (ClassView {
                class_permissions: ClassPermissionsView {
                    current_number_of_entities: (pre.class_at(
                        class_id,
                    ).class_permissions.current_number_of_entities + 1) as u64,
                    ..pre.class_at(class_id).class_permissions
                },
                ..pre.class_at(class_id)
            }));

            // References are untouched: the new entity holds no values.
            assert forall|t: EntityId| #[trigger] store_refs(postdv, t) == store_refs(predv, t) by {
                lemma_store_refs_push(predv, Some(spec_new_entity(class_id)), t);
                assert(values_refs(spec_new_entity(class_id).values, t) == 0);
            }
            assert forall|t: EntityId|
                t < postdv.len() && postdv[t as int] is Some implies self.entity_at(
                t,
            ).reference_count == #[trigger] store_refs(postdv, t) by {
                if t < predv.len() {
                    assert(postdv[t as int] == predv[t as int]);
                } else {
                    assert(t == predv.len());
                    if store_refs(predv, t) > 0 {
                        assert(t < predv.len());
                    }
                    assert(store_refs(postdv, t) == 0);
                }
            }
            assert forall|t: EntityId| #[trigger] store_refs(postdv, t) > 0 implies t
                < postdv.len() && postdv[t as int] is Some by {
                assert(store_refs(predv, t) > 0);
                assert(postdv[t as int] == predv[t as int]);
            }
            assert forall|x: int|
                0 <= x < postdv.len() && postdv[x] is Some implies #[trigger] self.entity_wf(
                postdv[x]->Some_0,
            ) by {
                if x < predv.len() {
                    assert(pre.entity_wf(predv[x]->Some_0));
                    assert(postdv[x] == predv[x]);
                }
            }
            assert forall|c: int|
                0 <= c < self.classes@.len() implies self.class_wf(
                #[trigger] self.classes_dv()[c],
            ) by {
                assert(pre.class_wf(pre.classes_dv()[c]));
                let pcv = self.classes_dv()[c];
                assert forall|s: int|
                    0 <= s < pcv.schemas.len() implies #[trigger] self.schema_wf(
                    pcv,
                    pcv.schemas[s],
                ) by {
                    assert(pre.schema_wf(pre.classes_dv()[c], pre.classes_dv()[c].schemas[s]));
                }
            }
        }
        entity_id
    }

}

/// The full behavior of a credentialed entity creation, as one relation
/// over the store before and after the call: the create-entity permission
/// rule must pass and the class must have room under its entity cap; then
/// success is owed, the new entity's id is the next slot, and the caller's
/// credential, if it acted with one, is recorded as maintainer.  Any
/// failure leaves the store untouched.
pub open spec fn spec_create_rel<C: CredentialChecker>(
    pre: Module,
    post: Module,
    checker: C,
    origin: RawOrigin,
    with_credential: Option<Credential>,
    class_id: ClassId,
    r: Result<EntityId, DirectoryError>,
) -> bool {
    let gate = spec_permission_gate(
        pre,
        checker,
        origin,
        with_credential,
        None,
        PermissionRule::CanCreateEntity,
        class_id,
    );
    match gate {
        Err(e) => r == Err::<EntityId, DirectoryError>(e) && post == pre,
        Ok(level) => {
            let cp = pre.class_at(class_id).class_permissions;
            if !(cp.current_number_of_entities < cp.maximum_entities_count) {
                r == Err::<EntityId, DirectoryError>(
                    DirectoryError::MaxNumberOfEntitiesPerClassLimitReached,
                ) && post == pre
            } else {
                &&& r == Ok::<EntityId, DirectoryError>(pre.entities@.len() as u64)
                &&& post.entities_dv() == pre.entities_dv().push(Some(spec_new_entity(class_id)))
                &&& post.entity_maintainer_by_entity_id@ == pre.entity_maintainer_by_entity_id@.push(
                    match level {
                        AccessLevel::Credential(c) => Some(c),
                        _ => None,
                    },
                )
                &&& post.classes_dv() == pre.classes_dv().update(
                    class_id as int,
                    ClassView {
                        class_permissions: ClassPermissionsView {
                            current_number_of_entities: (cp.current_number_of_entities + 1) as u64,
                            ..cp
                        },
                        ..pre.class_at(class_id)
                    },
                )
                &&& post == (Module {
                    entities: post.entities,
                    entity_maintainer_by_entity_id: post.entity_maintainer_by_entity_id,
                    classes: post.classes,
                    ..pre
                })
            }
        },
    }
}

impl Module {
    /// Creates an entity under a caller's credential after the
    /// create-entity permission rule passes, recording the credential as
    /// the entity's maintainer.  The class-wide entity cap is enforced.
    pub fn do_create_entity<C: CredentialChecker>(
        &mut self,
        checker: &C,
        raw_origin: &RawOrigin,
        with_credential: Option<Credential>,
        class_id: ClassId,
    ) -> (r: Result<EntityId, DirectoryError>)
        requires
            old(self).inv(),
        ensures
            final(self).inv(),
            spec_create_rel(
                *old(self),
                *final(self),
                *checker,
                *raw_origin,
                with_credential,
                class_id,
                r,
            ),
    {
        let level = self.if_class_permissions_satisfied(
            checker,
            raw_origin,
            with_credential,
            None,
            PermissionRule::CanCreateEntity,
            class_id,
        )?;
        Module::ensure_maximum_entities_count_limit_not_reached(self.class_ref(class_id))?;
        let ghost pre = *self;
        let entity_id = self.perform_entity_creation(class_id);
        let i = self.entity_index(entity_id);
        let maintainer = match level {
            AccessLevel::Credential(c) => Some(c),
            _ => None,
        };
        let ghost mid = *self;
        self.set_maintainer_slot(i, maintainer);
        proof {
            assert(self.entity_maintainer_by_entity_id@ =~= pre.entity_maintainer_by_entity_id@.push(
                maintainer,
            ));
            assert(self.entities_dv() == mid.entities_dv());
            assert(self.classes_dv() == mid.classes_dv());
            assert forall|t: EntityId|
                t < self.entities_dv().len() && self.entities_dv()[t as int] is Some implies self.entity_at(
                t,
            ).reference_count == #[trigger] store_refs(self.entities_dv(), t) by {
                assert(mid.entity_at(t).reference_count == store_refs(mid.entities_dv(), t));
            }
            assert forall|x: int|
                0 <= x < self.entities_dv().len() && self.entities_dv()[x] is Some implies #[trigger] self.entity_wf(
                self.entities_dv()[x]->Some_0,
            ) by {
                assert(mid.entity_wf(mid.entities_dv()[x]->Some_0));
            }
            assert forall|c: int|
                0 <= c < self.classes@.len() implies self.class_wf(
                #[trigger] self.classes_dv()[c],
            ) by {
                assert(mid.class_wf(mid.classes_dv()[c]));
                let pcv = self.classes_dv()[c];
                assert forall|s: int|
                    0 <= s < pcv.schemas.len() implies #[trigger] self.schema_wf(
                    pcv,
                    pcv.schemas[s],
                ) by {
                    assert(mid.schema_wf(mid.classes_dv()[c], mid.classes_dv()[c].schemas[s]));
                }
            }
        }
        Ok(entity_id)
    }

    /// Creates an entity as an actor in a group: the account must sign for
    /// the pair, the group must be a registered creator for the class, and
    /// both the class-wide cap and the controller's voucher must have
    /// room.  The voucher is created lazily with the class's
    /// per-controller limit and charged by one.
    pub fn create_entity<A: ActorAuthenticator>(
        &mut self,
        authenticator: &A,
        raw_origin: &RawOrigin,
        class_id: ClassId,
        actor_in_group: ActorInGroupId,
    ) -> (r: Result<EntityId, DirectoryError>)
        requires
            old(self).inv(),
        ensures
            final(self).inv(),
            r is Err ==> *final(self) == *old(self),
            !(*raw_origin is Signed) ==> r == Err::<EntityId, DirectoryError>(
                DirectoryError::ExpectedRootOrSigned,
            ),
            *raw_origin is Signed && !authenticator.spec_authenticates(
                raw_origin->Signed_0,
                actor_in_group.actor_id,
                actor_in_group.group_id,
            ) ==> r == Err::<EntityId, DirectoryError>(
                DirectoryError::ActorInGroupNotAuthenticated,
            ),
            *raw_origin is Signed && authenticator.spec_authenticates(
                raw_origin->Signed_0,
                actor_in_group.actor_id,
                actor_in_group.group_id,
            ) ==> {
                &&& !old(self).has_class(class_id) ==> r == Err::<EntityId, DirectoryError>(
                    DirectoryError::ClassNotFound,
                )
                &&& old(self).has_class(class_id) && !old(self).creator_registered(
                    class_id,
                    actor_in_group.group_id,
                ) ==> r == Err::<EntityId, DirectoryError>(DirectoryError::EntityCreatorDoesNotExist)
                &&& old(self).has_class(class_id) && old(self).creator_registered(
                    class_id,
                    actor_in_group.group_id,
                ) ==> {
                    let cperms = old(self).class_at(class_id).class_permissions;
                    let controller = spec_initial_controller(cperms, actor_in_group);
                    let voucher = spec_effective_voucher(*old(self), class_id, controller);
                    &&& !(cperms.current_number_of_entities < cperms.maximum_entities_count) ==> r
                        == Err::<EntityId, DirectoryError>(
                        DirectoryError::MaxNumberOfEntitiesPerClassLimitReached,
                    )
                    &&& cperms.current_number_of_entities < cperms.maximum_entities_count && !(
                    voucher.entities_created < voucher.maximum_entities_count) ==> r == Err::<
                        EntityId,
                        DirectoryError,
                    >(DirectoryError::VoucherLimitReached)
                    &&& cperms.current_number_of_entities < cperms.maximum_entities_count
                        && voucher.entities_created < voucher.maximum_entities_count ==> {
                        &&& r == Ok::<EntityId, DirectoryError>(old(self).entities@.len() as u64)
                        &&& final(self).entities_dv() == old(self).entities_dv().push(
                            Some(spec_new_entity(class_id)),
                        )
                        &&& final(self).entity_maintainer_by_entity_id@ == old(
                            self,
                        ).entity_maintainer_by_entity_id@.push(None)
                        &&& final(self).voucher_of(class_id, controller) == Some(
                            EntityCreationVoucher {
                                maximum_entities_count: voucher.maximum_entities_count,
                                entities_created: (voucher.entities_created + 1) as u64,
                            },
                        )
                        &&& forall|c2: ClassId, ctrl2: EntityController|
                            !(c2 == class_id && ctrl2 == controller)
                                ==> #[trigger] final(self).voucher_of(c2, ctrl2) == old(
                                self,
                            ).voucher_of(c2, ctrl2)
                        &&& final(self).classes_dv() == old(self).classes_dv().update(
                            class_id as int,
                            ClassView {
                                class_permissions: ClassPermissionsView {
                                    current_number_of_entities: (
                                    cperms.current_number_of_entities + 1) as u64,
                                    ..cperms
                                },
                                ..old(self).class_at(class_id)
                            },
                        )
                        &&& *final(self) == (Module {
                            entities: final(self).entities,
                            entity_maintainer_by_entity_id: final(self).entity_maintainer_by_entity_id,
                            classes: final(self).classes,
                            entity_creation_vouchers: final(self).entity_creation_vouchers,
                            ..*old(self)
                        })
                    }
                }
            },
    {
        let account = match raw_origin {
            RawOrigin::Signed(account) => *account,
            _ => {
                return Err(DirectoryError::ExpectedRootOrSigned);
            },
        };
        if !authenticator.authenticate_actor_in_group(
            account,
            actor_in_group.actor_id,
            actor_in_group.group_id,
        ) {
            return Err(DirectoryError::ActorInGroupNotAuthenticated);
        }
        self.ensure_known_class_id(class_id)?;
        self.ensure_entity_creator_exists(class_id, actor_in_group.group_id)?;
        Module::ensure_maximum_entities_count_limit_not_reached(self.class_ref(class_id))?;

        let class = self.class_ref(class_id);
        let controller = if matches!(
            class.get_permissions().initial_controller_of_created_entities,
            InitialControllerPolicy::ActorInGroup,
        ) {
            EntityController::from_actor_in_group(actor_in_group.actor_id, actor_in_group.group_id)
        } else {
            EntityController::from_group(actor_in_group.group_id)
        };
        let mut voucher = match self.find_voucher(class_id, controller) {
            Some(v) => v,
            None => EntityCreationVoucher::new(
                self.class_ref(class_id).get_permissions().per_controller_entity_creation_limit,
            ),
        };
        Module::ensure_voucher_limit_not_reached(&voucher)?;
        voucher.increment_created_entities_count();
        let ghost pre = *self;
        self.set_voucher(class_id, controller, voucher);
        proof {
            crate::entity_ops::lemma_inv_registrations_only(pre, *self);
        }
        let ghost mid = *self;
        let entity_id = self.perform_entity_creation(class_id);
        proof {
            assert forall|c2: ClassId, ctrl2: EntityController|
                !(c2 == class_id && ctrl2 == controller) implies #[trigger] self.voucher_of(
                c2,
                ctrl2,
            ) == pre.voucher_of(c2, ctrl2) by {
                assert(self.entity_creation_vouchers == mid.entity_creation_vouchers);
                assert(mid.voucher_of(c2, ctrl2) == pre.voucher_of(c2, ctrl2));
            }
            assert(self.voucher_of(class_id, controller) == mid.voucher_of(class_id, controller));
        }
        Ok(entity_id)
    }

}


/// In every store satisfying the invariant, an entity's stored reference
/// count equals the number of reference values across the whole store that
/// point at it.  Together with the invariant being preserved by every
/// operation, this holds of all reachable states.
pub proof fn lemma_reference_count_exact(m: Module, e: EntityId)
    requires
        m.inv(),
        m.entity_live(e),
    ensures
        m.entity_at(e).reference_count == store_refs(m.entities_dv(), e),
{
}

/// An entity can be removed exactly when nothing references it: its
/// reference count is positive exactly when some reference value in the
/// store points at it, and `complete_entity_removal` fails with the
/// integrity error exactly when the count is positive.
pub proof fn lemma_removal_blocked_iff_referenced(m: Module, e: EntityId)
    requires
        m.inv(),
        m.entity_live(e),
    ensures
        m.entity_at(e).reference_count > 0 <==> store_refs(m.entities_dv(), e) > 0,
{
}

impl Module {
    /// Removes an entity that nothing references, releasing its own
    /// references: every entity it referenced has its count decremented.
    /// Fails `Integrity` while the entity's reference count is positive.
    pub fn complete_entity_removal(&mut self, entity_id: EntityId) -> (r: Result<
        (),
        DirectoryError,
    >)
        requires
            old(self).inv(),
        ensures
            final(self).inv(),
            r is Ok <==> old(self).entity_live(entity_id) && old(self).entity_at(
                entity_id,
            ).reference_count == 0,
            !old(self).entity_live(entity_id) ==> r == Err::<(), DirectoryError>(
                DirectoryError::EntityNotFound,
            ),
            old(self).entity_live(entity_id) && old(self).entity_at(entity_id).reference_count != 0
                ==> r == Err::<(), DirectoryError>(DirectoryError::EntityReferenceCounterNotZero),
            r is Err ==> *final(self) == *old(self),
            r is Ok ==> {
                &&& final(self).entities@.len() == old(self).entities@.len()
                &&& forall|i: int|
                    0 <= i < old(self).entities@.len() ==> final(self).entities_dv()[i]
                        == rc_adjusted(
                        slot_replaced(*old(self), entity_id, None)[i],
                        -(values_refs(
                            old(self).entity_at(entity_id).values,
                            i as EntityId,
                        ) as int),
                    )
                &&& final(self).entity_maintainer_by_entity_id@ == old(
                    self,
                ).entity_maintainer_by_entity_id@.update(entity_id as int, None)
                &&& *final(self) == (Module {
                    entities: final(self).entities,
                    entity_maintainer_by_entity_id: final(self).entity_maintainer_by_entity_id,
                    ..*old(self)
                })
            },
    {
        self.ensure_rc_is_zero(entity_id)?;
        let i = self.entity_index(entity_id);
        let targets = collect_value_refs(&self.entity_ref(entity_id).values);
        let ghost pre = *self;
        let ghost vals = pre.entity_at(entity_id).values;
        self.entities.set(i, None);
        self.set_maintainer_slot(i, None);
        proof {
            assert(self.entities_dv() =~= slot_replaced(pre, entity_id, None));
            assert forall|k: int|
                0 <= k < targets@.len() implies self.entity_live(#[trigger] targets@[k]) by {
                let t = targets@[k];
                targets@.to_multiset_ensures();
                assert(targets@.contains(t));
                assert(count_ids(targets@, t) > 0);
                assert(values_refs(vals, t) > 0);
                assert(entity_refs(pre.entities_dv()[entity_id as int], t) == values_refs(vals, t));
                lemma_store_refs_le(pre.entities_dv(), entity_id as int, t);
                assert(store_refs(pre.entities_dv(), t) > 0);
                assert(pre.entity_live(t));
                assert(store_refs(pre.entities_dv(), entity_id) == 0);
                assert(t != entity_id);
            }
            assert forall|k: int|
                0 <= k < targets@.len() implies count_ids(targets@, #[trigger] targets@[k])
                <= self.entity_at(targets@[k]).reference_count by {
                let t = targets@[k];
                targets@.to_multiset_ensures();
                assert(targets@.contains(t));
                assert(count_ids(targets@, t) > 0);
                assert(count_ids(targets@, t) == values_refs(vals, t));
                assert(values_refs(vals, t) > 0);
                assert(entity_refs(pre.entities_dv()[entity_id as int], t) == values_refs(vals, t));
                lemma_store_refs_le(pre.entities_dv(), entity_id as int, t);
                assert(t != entity_id);
                assert(self.entity_at(t) == pre.entity_at(t));
                assert(pre.entity_at(t).reference_count == store_refs(pre.entities_dv(), t));
            }
        }
        let ghost mid = *self;
        self.decrement_entities_rc(&targets);
        proof {
            assert forall|i2: int|
                0 <= i2 < pre.entities@.len() implies self.entities_dv()[i2] == rc_adjusted(
                slot_replaced(pre, entity_id, None)[i2],
                -(values_refs(vals, i2 as EntityId) as int),
            ) by {
                assert(self.entities_dv()[i2] == rc_adjusted(
                    mid.entities_dv()[i2],
                    -(count_ids(targets@, i2 as EntityId) as int),
                ));
                assert(count_ids(targets@, i2 as EntityId) == values_refs(vals, i2 as EntityId));
            }
            lemma_inv_removal_commit(pre, *self, entity_id, targets@);
        }
        Ok(())
    }

    /// Removes an entity on behalf of a caller, after the remove-entity
    /// permission rule passes on the entity's class.
    pub fn do_remove_entity<C: CredentialChecker>(
        &mut self,
        checker: &C,
        raw_origin: &RawOrigin,
        with_credential: Option<Credential>,
        entity_id: EntityId,
    ) -> (r: Result<(), DirectoryError>)
        requires
            old(self).inv(),
        ensures
            final(self).inv(),
            r is Err ==> *final(self) == *old(self),
            !old(self).entity_live(entity_id) ==> r == Err::<(), DirectoryError>(
                DirectoryError::EntityNotFound,
            ),
            old(self).entity_live(entity_id) ==> {
                let gate = spec_permission_gate(
                    *old(self),
                    *checker,
                    *raw_origin,
                    with_credential,
                    None,
                    PermissionRule::CanRemoveEntity,
                    old(self).entity_at(entity_id).class_id,
                );
                &&& gate is Err ==> r == Err::<(), DirectoryError>(gate->Err_0)
                &&& gate is Ok ==> {
                    &&& r is Ok <==> old(self).entity_at(entity_id).reference_count == 0
                    &&& r is Err ==> r->Err_0 == DirectoryError::EntityReferenceCounterNotZero
                    &&& r is Ok ==> {
                        &&& final(self).entities@.len() == old(self).entities@.len()
                        &&& forall|i: int|
                            0 <= i < old(self).entities@.len() ==> final(self).entities_dv()[i]
                                == rc_adjusted(
                                slot_replaced(*old(self), entity_id, None)[i],
                                -(values_refs(
                                    old(self).entity_at(entity_id).values,
                                    i as EntityId,
                                ) as int),
                            )
                        &&& final(self).entity_maintainer_by_entity_id@ == old(
                            self,
                        ).entity_maintainer_by_entity_id@.update(entity_id as int, None)
                        &&& *final(self) == (Module {
                            entities: final(self).entities,
                            entity_maintainer_by_entity_id: final(self).entity_maintainer_by_entity_id,
                            ..*old(self)
                        })
                    }
                }
            },
    {
        let class_id = self.get_class_id_by_entity_id(entity_id)?;
        self.if_class_permissions_satisfied(
            checker,
            raw_origin,
            with_credential,
            None,
            PermissionRule::CanRemoveEntity,
            class_id,
        )?;
        self.complete_entity_removal(entity_id)
    }

    /// Removes an entity; the caller must be the system or a signed
    /// account, and must pass the remove-entity permission rule.
    pub fn remove_entity<C: CredentialChecker>(
        &mut self,
        checker: &C,
        raw_origin: &RawOrigin,
        with_credential: Option<Credential>,
        entity_id: EntityId,
    ) -> (r: Result<(), DirectoryError>)
        requires
            old(self).inv(),
        ensures
            final(self).inv(),
            r is Err ==> *final(self) == *old(self),
            *raw_origin is Unsigned ==> r == Err::<(), DirectoryError>(
                DirectoryError::ExpectedRootOrSigned,
            ),
            !(*raw_origin is Unsigned) && !old(self).entity_live(entity_id) ==> r == Err::<
                (),
                DirectoryError,
            >(DirectoryError::EntityNotFound),
            !(*raw_origin is Unsigned) && old(self).entity_live(entity_id) ==> {
                let gate = spec_permission_gate(
                    *old(self),
                    *checker,
                    *raw_origin,
                    with_credential,
                    None,
                    PermissionRule::CanRemoveEntity,
                    old(self).entity_at(entity_id).class_id,
                );
                &&& gate is Err ==> r == Err::<(), DirectoryError>(gate->Err_0)
                &&& gate is Ok ==> {
                    &&& r is Ok <==> old(self).entity_at(entity_id).reference_count == 0
                    &&& r is Err ==> r->Err_0 == DirectoryError::EntityReferenceCounterNotZero
                    &&& r is Ok ==> final(self).entities_dv()[entity_id as int] is None
                }
            },
    {
        Module::ensure_root_or_signed(raw_origin)?;
        self.do_remove_entity(checker, raw_origin, with_credential, entity_id)
    }

    /// Updates an entity's controller and freeze flag.  Only the system
    /// origin may call this.
    pub fn update_entity_permissions(
        &mut self,
        raw_origin: &RawOrigin,
        entity_id: EntityId,
        controller: Option<EntityController>,
        frozen_for_controller: Option<bool>,
    ) -> (r: Result<(), DirectoryError>)
        requires
            old(self).inv(),
        ensures
            final(self).inv(),
            r is Ok <==> *raw_origin is Root && old(self).entity_live(entity_id),
            !(*raw_origin is Root) ==> r == Err::<(), DirectoryError>(DirectoryError::NotRootOrigin),
            *raw_origin is Root && !old(self).entity_live(entity_id) ==> r == Err::<
                (),
                DirectoryError,
            >(DirectoryError::EntityNotFound),
            r is Err ==> *final(self) == *old(self),
            r is Ok ==> {
                &&& final(self).entities_dv() == old(self).entities_dv().update(
                    entity_id as int,
                    Some(
                        EntityView {
                            entity_permission: EntityPermission {
                                controller: (match controller {
                                    Some(c) => c,
                                    None => old(self).entity_at(
                                        entity_id,
                                    ).entity_permission.controller,
                                }),
                                frozen_for_controller: (match frozen_for_controller {
                                    Some(f) => f,
                                    None => old(self).entity_at(
                                        entity_id,
                                    ).entity_permission.frozen_for_controller,
                                }),
                            },
                            ..old(self).entity_at(entity_id)
                        },
                    ),
                )
                &&& *final(self) == (Module { entities: final(self).entities, ..*old(self) })
            },
    {
        if !matches!(raw_origin, RawOrigin::Root) {
            return Err(DirectoryError::NotRootOrigin);
        }
        self.ensure_known_entity_id(entity_id)?;
        let i = self.entity_index(entity_id);
        let ghost pre = *self;
        let entity = self.entity_mut(i);
        if let Some(c) = controller {
            entity.entity_permission.controller = c;
        }
        if let Some(f) = frozen_for_controller {
            entity.entity_permission.frozen_for_controller = f;
        }
        proof {
            let ev = self.entities@[entity_id as int]->Some_0@;
            assert(self.entities_dv() =~= pre.entities_dv().update(entity_id as int, Some(ev)));
            let empty = Seq::<EntityId>::empty();
            empty.to_multiset_ensures();
            assert forall|t: EntityId| #[trigger] count_ids(empty, t) == 0 by {
                if count_ids(empty, t) > 0 {
                    assert(empty.contains(t));
                }
            }
            assert forall|i2: int|
                0 <= i2 < self.entities@.len() implies self.entities_dv()[i2] == rc_adjusted(
                slot_replaced(pre, entity_id, Some(ev))[i2],
                count_ids(empty, i2 as EntityId) as int - count_ids(empty, i2 as EntityId) as int,
            ) by {
                match slot_replaced(pre, entity_id, Some(ev))[i2] {
                    Some(e2) => {
                        assert(rc_adjusted(slot_replaced(pre, entity_id, Some(ev))[i2], 0) == Some(
                            EntityView { reference_count: (e2.reference_count + 0) as u32, ..e2 },
                        ));
                    },
                    None => {},
                }
            }
            assert(pre.entity_wf(pre.entities_dv()[entity_id as int]->Some_0));
            lemma_inv_value_commit(pre, *self, entity_id, ev, empty, empty);
        }
        Ok(())
    }
}

} // verus!
