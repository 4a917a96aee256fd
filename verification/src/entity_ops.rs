//! Administration of creator registrations, maintainer registrations,
//! creation vouchers, and entity permissions.

use vstd::prelude::*;

use crate::errors::DirectoryError;
use crate::ids::{ClassId, EntityId, GroupId};
use crate::permissions::{EntityController, EntityCreationLimit, EntityCreationVoucher,
    RawOrigin};
use crate::state::{lemma_push_contains, lemma_remove_contains, spec_find_voucher, Module,
    VoucherEntry};

verus! {

/// A voucher list without a key holds no entry with that key.
pub proof fn lemma_find_voucher_none(
    s: Seq<VoucherEntry>,
    c: ClassId,
    ctrl: EntityController,
)
    ensures
        spec_find_voucher(s, c, ctrl) is None <==> forall|j: int|
            0 <= j < s.len() ==> !(#[trigger] s[j].class_id == c && s[j].controller == ctrl),
    decreases s.len(),
{
    if s.len() > 0 {
        lemma_find_voucher_none(s.drop_first(), c, ctrl);
        assert forall|j: int|
            1 <= j < s.len() implies s.drop_first()[j - 1] == s[j] by {}
    }
}

/// Appending a voucher entry decides lookups: keys found before stay
/// found, the new entry's key is found, and other keys stay absent.
pub proof fn lemma_find_voucher_push(
    s: Seq<VoucherEntry>,
    e: VoucherEntry,
    c: ClassId,
    ctrl: EntityController,
)
    ensures
        spec_find_voucher(s.push(e), c, ctrl) == (if spec_find_voucher(s, c, ctrl) is Some {
            spec_find_voucher(s, c, ctrl)
        } else if e.class_id == c && e.controller == ctrl {
            Some(e.voucher)
        } else {
            None
        }),
    decreases s.len(),
{
    if s.len() == 0 {
        assert(s.push(e)[0] == e);
        assert(s.push(e).drop_first() =~= Seq::<VoucherEntry>::empty());
        assert(spec_find_voucher(s, c, ctrl) is None);
        if e.class_id == c && e.controller == ctrl {
            assert(spec_find_voucher(s.push(e), c, ctrl) == Some(e.voucher));
        } else {
            assert(spec_find_voucher(s.push(e).drop_first(), c, ctrl) is None);
            assert(spec_find_voucher(s.push(e), c, ctrl) is None);
        }
    } else {
        assert(s.push(e)[0] == s[0]);
        assert(s.push(e).drop_first() =~= s.drop_first().push(e));
        lemma_find_voucher_push(s.drop_first(), e, c, ctrl);
        if s[0].class_id == c && s[0].controller == ctrl {
            assert(spec_find_voucher(s.push(e), c, ctrl) == Some(s[0].voucher));
            assert(spec_find_voucher(s, c, ctrl) == Some(s[0].voucher));
        } else {
            assert(spec_find_voucher(s.push(e), c, ctrl) == spec_find_voucher(
                s.drop_first().push(e),
                c,
                ctrl,
            ));
            assert(spec_find_voucher(s, c, ctrl) == spec_find_voucher(s.drop_first(), c, ctrl));
        }
    }
}

/// Replacing the first entry of a key with a new entry of the same key
/// redirects that key's lookup and leaves every other key's lookup alone.
pub proof fn lemma_find_voucher_update(
    s: Seq<VoucherEntry>,
    k: int,
    e: VoucherEntry,
    c: ClassId,
    ctrl: EntityController,
)
    requires
        0 <= k < s.len(),
        forall|j: int| 0 <= j < k ==> !(#[trigger] s[j].class_id == c && s[j].controller == ctrl),
        s[k].class_id == c && s[k].controller == ctrl,
        e.class_id == c && e.controller == ctrl,
    ensures
        spec_find_voucher(s.update(k, e), c, ctrl) == Some(e.voucher),
        forall|c2: ClassId, ctrl2: EntityController|
            !(c2 == c && ctrl2 == ctrl) ==> #[trigger] spec_find_voucher(s.update(k, e), c2, ctrl2)
                == spec_find_voucher(s, c2, ctrl2),
    decreases k,
{
    if k == 0 {
        assert(s.update(k, e)[0] == e);
        assert(s.update(k, e).drop_first() =~= s.drop_first());
        assert forall|c2: ClassId, ctrl2: EntityController|
            !(c2 == c && ctrl2 == ctrl) implies #[trigger] spec_find_voucher(
            s.update(k, e),
            c2,
            ctrl2,
        ) == spec_find_voucher(s, c2, ctrl2) by {
            assert(!(e.class_id == c2 && e.controller == ctrl2));
            assert(!(s[0].class_id == c2 && s[0].controller == ctrl2) ==> spec_find_voucher(
                s,
                c2,
                ctrl2,
            ) == spec_find_voucher(s.drop_first(), c2, ctrl2));
            if s[0].class_id == c2 && s[0].controller == ctrl2 {
                assert(s[0].class_id == c && s[0].controller == ctrl);
                assert(false);
            }
        }
    } else {
        assert(s.update(k, e)[0] == s[0]);
        assert(s.update(k, e).drop_first() =~= s.drop_first().update(k - 1, e));
        assert forall|j: int|
            0 <= j < k - 1 implies !(#[trigger] s.drop_first()[j].class_id == c
            && s.drop_first()[j].controller == ctrl) by {
            assert(s.drop_first()[j] == s[j + 1]);
        }
        lemma_find_voucher_update(s.drop_first(), k - 1, e, c, ctrl);
        assert(!(s[0].class_id == c && s[0].controller == ctrl));
        assert forall|c2: ClassId, ctrl2: EntityController|
            !(c2 == c && ctrl2 == ctrl) implies #[trigger] spec_find_voucher(
            s.update(k, e),
            c2,
            ctrl2,
        ) == spec_find_voucher(s, c2, ctrl2) by {
            if s[0].class_id == c2 && s[0].controller == ctrl2 {
                assert(spec_find_voucher(s.update(k, e), c2, ctrl2) == Some(s[0].voucher));
                assert(spec_find_voucher(s, c2, ctrl2) == Some(s[0].voucher));
            } else {
                assert(spec_find_voucher(s.update(k, e), c2, ctrl2) == spec_find_voucher(
                    s.drop_first().update(k - 1, e),
                    c2,
                    ctrl2,
                ));
                assert(spec_find_voucher(s, c2, ctrl2) == spec_find_voucher(
                    s.drop_first(),
                    c2,
                    ctrl2,
                ));
            }
        }
    }
}

/// A change that touches only the three registration lists preserves the
/// store invariant, provided the lists stay duplicate-free and voucher
/// counts stay within their limits.
pub proof fn lemma_inv_registrations_only(pre: Module, post: Module)
    requires
        pre.inv(),
        post.entities == pre.entities,
        post.entity_maintainer_by_entity_id == pre.entity_maintainer_by_entity_id,
        post.classes == pre.classes,
        forall|i: int|
            0 <= i < post.entity_creation_vouchers@.len()
                ==> #[trigger] post.entity_creation_vouchers@[i].voucher.entities_created
                <= post.entity_creation_vouchers@[i].voucher.maximum_entities_count,
        forall|i: int, j: int|
            0 <= i < j < post.entity_creation_vouchers@.len() ==> !(
            post.entity_creation_vouchers@[i].class_id == post.entity_creation_vouchers@[j].class_id
                && post.entity_creation_vouchers@[i].controller
                == post.entity_creation_vouchers@[j].controller),
        forall|i: int, j: int|
            0 <= i < j < post.can_create_entities_of_class@.len()
                ==> post.can_create_entities_of_class@[i] != post.can_create_entities_of_class@[j],
        forall|i: int, j: int|
            0 <= i < j < post.entity_maintainers@.len() ==> post.entity_maintainers@[i]
                != post.entity_maintainers@[j],
    ensures
        post.inv(),
{
    assert forall|i: int|
        0 <= i < post.entities_dv().len() && post.entities_dv()[i] is Some implies #[trigger] post.entity_wf(
        post.entities_dv()[i]->Some_0,
    ) by {
        assert(pre.entity_wf(pre.entities_dv()[i]->Some_0));
    }
    assert forall|c: int|
        0 <= c < post.classes@.len() implies post.class_wf(#[trigger] post.classes_dv()[c]) by {
        assert(pre.class_wf(pre.classes_dv()[c]));
        let pcv = post.classes_dv()[c];
        assert forall|s: int|
            0 <= s < pcv.schemas.len() implies #[trigger] post.schema_wf(pcv, pcv.schemas[s]) by {
            assert(pre.schema_wf(pre.classes_dv()[c], pre.classes_dv()[c].schemas[s]));
        }
    }
}

impl Module {
    /// The index of the first voucher entry for a key.
    fn find_voucher_index(&self, class_id: ClassId, controller: EntityController) -> (r: Option<
        usize,
    >)
        ensures
            r is Some ==> {
                &&& r->Some_0 < self.entity_creation_vouchers@.len()
                &&& self.entity_creation_vouchers@[r->Some_0 as int].class_id == class_id
                &&& self.entity_creation_vouchers@[r->Some_0 as int].controller == controller
                &&& forall|j: int|
                    0 <= j < r->Some_0 ==> !(
                    #[trigger] self.entity_creation_vouchers@[j].class_id == class_id
                        && self.entity_creation_vouchers@[j].controller == controller)
            },
            r is None ==> forall|j: int|
                0 <= j < self.entity_creation_vouchers@.len() ==> !(
                #[trigger] self.entity_creation_vouchers@[j].class_id == class_id
                    && self.entity_creation_vouchers@[j].controller == controller),
    {
        let entries = &self.entity_creation_vouchers;
        let mut i: usize = 0;
        while i < entries.len()
            invariant
                i <= entries.len(),
                entries == &self.entity_creation_vouchers,
                forall|j: int|
                    0 <= j < i ==> !(#[trigger] self.entity_creation_vouchers@[j].class_id
                        == class_id && self.entity_creation_vouchers@[j].controller == controller),
            decreases entries.len() - i,
        {
            if entries[i].class_id == class_id && entries[i].controller == controller {
                return Some(i);
            }
            i += 1;
        }
        None
    }

    /// Records a voucher for a key, replacing the key's entry if one
    /// exists.
    pub(crate) fn set_voucher(
        &mut self,
        class_id: ClassId,
        controller: EntityController,
        voucher: EntityCreationVoucher,
    )
        requires
            voucher.entities_created <= voucher.maximum_entities_count,
            forall|i: int|
                0 <= i < old(self).entity_creation_vouchers@.len()
                    ==> #[trigger] old(self).entity_creation_vouchers@[i].voucher.entities_created
                    <= old(self).entity_creation_vouchers@[i].voucher.maximum_entities_count,
            forall|i: int, j: int|
                0 <= i < j < old(self).entity_creation_vouchers@.len() ==> !(
                old(self).entity_creation_vouchers@[i].class_id
                    == old(self).entity_creation_vouchers@[j].class_id
                    && old(self).entity_creation_vouchers@[i].controller
                    == old(self).entity_creation_vouchers@[j].controller),
        ensures
            final(self).voucher_of(class_id, controller) == Some(voucher),
            forall|c2: ClassId, ctrl2: EntityController|
                !(c2 == class_id && ctrl2 == controller) ==> #[trigger] final(self).voucher_of(
                    c2,
                    ctrl2,
                ) == old(self).voucher_of(c2, ctrl2),
            forall|i: int|
                0 <= i < final(self).entity_creation_vouchers@.len()
                    ==> #[trigger] final(self).entity_creation_vouchers@[i].voucher.entities_created
                    <= final(self).entity_creation_vouchers@[i].voucher.maximum_entities_count,
            forall|i: int, j: int|
                0 <= i < j < final(self).entity_creation_vouchers@.len() ==> !(
                final(self).entity_creation_vouchers@[i].class_id
                    == final(self).entity_creation_vouchers@[j].class_id
                    && final(self).entity_creation_vouchers@[i].controller
                    == final(self).entity_creation_vouchers@[j].controller),
            *final(self) == (Module {
                entity_creation_vouchers: final(self).entity_creation_vouchers,
                ..*old(self)
            }),
    {
        let entry = VoucherEntry { class_id, controller, voucher };
        let ghost pre = self.entity_creation_vouchers@;
        match self.find_voucher_index(class_id, controller) {
            Some(k) => {
                self.entity_creation_vouchers.set(k, entry);
                proof {
                    lemma_find_voucher_update(pre, k as int, entry, class_id, controller);
                }
            },
            None => {
                self.entity_creation_vouchers.push(entry);
                proof {
                    lemma_find_voucher_none(pre, class_id, controller);
                    assert forall|c2: ClassId, ctrl2: EntityController|
                        !(c2 == class_id && ctrl2 == controller) implies #[trigger] spec_find_voucher(
                        self.entity_creation_vouchers@,
                        c2,
                        ctrl2,
                    ) == spec_find_voucher(pre, c2, ctrl2) by {
                        lemma_find_voucher_push(pre, entry, c2, ctrl2);
                        if spec_find_voucher(pre, c2, ctrl2) is None {
                        }
                    }
                    lemma_find_voucher_push(pre, entry, class_id, controller);
                }
            },
        }
    }

    /// Registers a group as entity creator for a class, recording a
    /// creation voucher with either the explicit limit or the class's
    /// per-controller default.  Only the system origin may call this.
    pub fn add_entities_creator(
        &mut self,
        raw_origin: &RawOrigin,
        class_id: ClassId,
        group_id: GroupId,
        limit: EntityCreationLimit,
    ) -> (r: Result<(), DirectoryError>)
        requires
            old(self).inv(),
        ensures
            final(self).inv(),
            r is Ok <==> *raw_origin is Root && old(self).has_class(class_id) && !old(
                self,
            ).creator_registered(class_id, group_id),
            !(*raw_origin is Root) ==> r == Err::<(), DirectoryError>(DirectoryError::NotRootOrigin),
            *raw_origin is Root && !old(self).has_class(class_id) ==> r == Err::<
                (),
                DirectoryError,
            >(DirectoryError::ClassNotFound),
            *raw_origin is Root && old(self).has_class(class_id) && old(self).creator_registered(
                class_id,
                group_id,
            ) ==> r == Err::<(), DirectoryError>(DirectoryError::EntityCreatorAlreadyExists),
            r is Err ==> *final(self) == *old(self),
            r is Ok ==> {
                &&& forall|c2: ClassId, g2: GroupId|
                    #[trigger] final(self).creator_registered(c2, g2) == (old(
                        self,
                    ).creator_registered(c2, g2) || (c2 == class_id && g2 == group_id))
                &&& final(self).voucher_of(class_id, EntityController::Group(group_id)) == Some(
                    EntityCreationVoucher {
                        maximum_entities_count: (match limit {
                            EntityCreationLimit::Individual(n) => n,
                            EntityCreationLimit::SameAsClass => old(self).class_at(
                                class_id,
                            ).class_permissions.per_controller_entity_creation_limit,
                        }),
                        entities_created: 0,
                    },
                )
                &&& forall|c2: ClassId, ctrl2: EntityController|
                    !(c2 == class_id && ctrl2 == EntityController::Group(group_id))
                        ==> #[trigger] final(self).voucher_of(c2, ctrl2) == old(self).voucher_of(
                        c2,
                        ctrl2,
                    )
                &&& *final(self) == (Module {
                    can_create_entities_of_class: final(self).can_create_entities_of_class,
                    entity_creation_vouchers: final(self).entity_creation_vouchers,
                    ..*old(self)
                })
            },
    {
        if !matches!(raw_origin, RawOrigin::Root) {
            return Err(DirectoryError::NotRootOrigin);
        }
        self.ensure_known_class_id(class_id)?;
        self.ensure_entity_creator_does_not_exist(class_id, group_id)?;

        let max = match limit {
            EntityCreationLimit::Individual(n) => n,
            EntityCreationLimit::SameAsClass => self.class_ref(
                class_id,
            ).get_permissions().per_controller_entity_creation_limit,
        };
        let ghost pre = *self;
        self.can_create_entities_of_class.push((class_id, group_id));
        proof {
            assert forall|i: int, j: int|
                0 <= i < j < self.can_create_entities_of_class@.len() implies self.can_create_entities_of_class@[i]
                != self.can_create_entities_of_class@[j] by {
                if j == self.can_create_entities_of_class@.len() - 1 {
                    assert(pre.can_create_entities_of_class@.contains(
                        pre.can_create_entities_of_class@[i],
                    ));
                }
            }
        }
        self.set_voucher(class_id, EntityController::Group(group_id), EntityCreationVoucher::new(max));
        proof {
            assert forall|c2: ClassId, g2: GroupId| #[trigger] self.creator_registered(c2, g2) == (
            pre.creator_registered(c2, g2) || (c2 == class_id && g2 == group_id)) by {
                lemma_push_contains(
                    pre.can_create_entities_of_class@,
                    (class_id, group_id),
                    (c2, g2),
                );
            }
            lemma_inv_registrations_only(pre, *self);
        }
        Ok(())
    }

    /// Removes a group's creator registration for a class; its voucher, if
    /// any, stays recorded.  Only the system origin may call this.
    pub fn remove_entities_creator(
        &mut self,
        raw_origin: &RawOrigin,
        class_id: ClassId,
        group_id: GroupId,
    ) -> (r: Result<(), DirectoryError>)
        requires
            old(self).inv(),
        ensures
            final(self).inv(),
            r is Ok <==> *raw_origin is Root && old(self).has_class(class_id) && old(
                self,
            ).creator_registered(class_id, group_id),
            !(*raw_origin is Root) ==> r == Err::<(), DirectoryError>(DirectoryError::NotRootOrigin),
            *raw_origin is Root && !old(self).has_class(class_id) ==> r == Err::<
                (),
                DirectoryError,
            >(DirectoryError::ClassNotFound),
            *raw_origin is Root && old(self).has_class(class_id) && !old(self).creator_registered(
                class_id,
                group_id,
            ) ==> r == Err::<(), DirectoryError>(DirectoryError::EntityCreatorDoesNotExist),
            r is Err ==> *final(self) == *old(self),
            r is Ok ==> {
                &&& forall|c2: ClassId, g2: GroupId|
                    #[trigger] final(self).creator_registered(c2, g2) == (old(
                        self,
                    ).creator_registered(c2, g2) && !(c2 == class_id && g2 == group_id))
                &&& *final(self) == (Module {
                    can_create_entities_of_class: final(self).can_create_entities_of_class,
                    ..*old(self)
                })
            },
    {
        if !matches!(raw_origin, RawOrigin::Root) {
            return Err(DirectoryError::NotRootOrigin);
        }
        self.ensure_known_class_id(class_id)?;
        self.ensure_entity_creator_exists(class_id, group_id)?;

        let ghost pre = *self;
        let k = match find_pair_index(&self.can_create_entities_of_class, class_id, group_id) {
            Some(k) => k,
            None => vstd::pervasive::unreached(),
        };
        self.can_create_entities_of_class.remove(k);
        proof {
            lemma_pair_removed(
                pre.can_create_entities_of_class@,
                self.can_create_entities_of_class@,
                k as int,
                (class_id, group_id),
            );
            lemma_inv_registrations_only(pre, *self);
        }
        Ok(())
    }

    /// Registers a group as maintainer group of an entity.  Only the
    /// system origin may call this.
    pub fn add_entity_maintainer(
        &mut self,
        raw_origin: &RawOrigin,
        entity_id: EntityId,
        group_id: GroupId,
    ) -> (r: Result<(), DirectoryError>)
        requires
            old(self).inv(),
        ensures
            final(self).inv(),
            r is Ok <==> *raw_origin is Root && old(self).entity_live(entity_id) && !old(
                self,
            ).group_maintainer_registered(entity_id, group_id),
            !(*raw_origin is Root) ==> r == Err::<(), DirectoryError>(DirectoryError::NotRootOrigin),
            *raw_origin is Root && !old(self).entity_live(entity_id) ==> r == Err::<
                (),
                DirectoryError,
            >(DirectoryError::EntityNotFound),
            *raw_origin is Root && old(self).entity_live(entity_id) && old(
                self,
            ).group_maintainer_registered(entity_id, group_id) ==> r == Err::<(), DirectoryError>(
                DirectoryError::EntityMaintainerAlreadyExists,
            ),
            r is Err ==> *final(self) == *old(self),
            r is Ok ==> {
                &&& forall|e2: EntityId, g2: GroupId|
                    #[trigger] final(self).group_maintainer_registered(e2, g2) == (old(
                        self,
                    ).group_maintainer_registered(e2, g2) || (e2 == entity_id && g2 == group_id))
                &&& *final(self) == (Module {
                    entity_maintainers: final(self).entity_maintainers,
                    ..*old(self)
                })
            },
    {
        if !matches!(raw_origin, RawOrigin::Root) {
            return Err(DirectoryError::NotRootOrigin);
        }
        self.ensure_known_entity_id(entity_id)?;
        self.ensure_entity_maintainer_does_not_exist(entity_id, group_id)?;

        let ghost pre = *self;
        self.entity_maintainers.push((entity_id, group_id));
        proof {
            assert forall|i: int, j: int|
                0 <= i < j < self.entity_maintainers@.len() implies self.entity_maintainers@[i]
                != self.entity_maintainers@[j] by {
                if j == self.entity_maintainers@.len() - 1 {
                    assert(pre.entity_maintainers@.contains(pre.entity_maintainers@[i]));
                }
            }
            assert forall|e2: EntityId, g2: GroupId| #[trigger] self.group_maintainer_registered(
                e2,
                g2,
            ) == (pre.group_maintainer_registered(e2, g2) || (e2 == entity_id && g2 == group_id)) by {
                lemma_push_contains(pre.entity_maintainers@, (entity_id, group_id), (e2, g2));
            }
            lemma_inv_registrations_only(pre, *self);
        }
        Ok(())
    }

    /// Removes a group's maintainer registration for an entity.  Only the
    /// system origin may call this.
    pub fn remove_entity_maintainer(
        &mut self,
        raw_origin: &RawOrigin,
        entity_id: EntityId,
        group_id: GroupId,
    ) -> (r: Result<(), DirectoryError>)
        requires
            old(self).inv(),
        ensures
            final(self).inv(),
            r is Ok <==> *raw_origin is Root && old(self).entity_live(entity_id) && old(
                self,
            ).group_maintainer_registered(entity_id, group_id),
            !(*raw_origin is Root) ==> r == Err::<(), DirectoryError>(DirectoryError::NotRootOrigin),
            *raw_origin is Root && !old(self).entity_live(entity_id) ==> r == Err::<
                (),
                DirectoryError,
            >(DirectoryError::EntityNotFound),
            *raw_origin is Root && old(self).entity_live(entity_id) && !old(
                self,
            ).group_maintainer_registered(entity_id, group_id) ==> r == Err::<(), DirectoryError>(
                DirectoryError::EntityMaintainerDoesNotExist,
            ),
            r is Err ==> *final(self) == *old(self),
            r is Ok ==> {
                &&& forall|e2: EntityId, g2: GroupId|
                    #[trigger] final(self).group_maintainer_registered(e2, g2) == (old(
                        self,
                    ).group_maintainer_registered(e2, g2) && !(e2 == entity_id && g2 == group_id))
                &&& *final(self) == (Module {
                    entity_maintainers: final(self).entity_maintainers,
                    ..*old(self)
                })
            },
    {
        if !matches!(raw_origin, RawOrigin::Root) {
            return Err(DirectoryError::NotRootOrigin);
        }
        self.ensure_known_entity_id(entity_id)?;
        self.ensure_entity_maintainer_exists(entity_id, group_id)?;

        let ghost pre = *self;
        let k = match find_pair_index(&self.entity_maintainers, entity_id, group_id) {
            Some(k) => k,
            None => vstd::pervasive::unreached(),
        };
        self.entity_maintainers.remove(k);
        proof {
            lemma_pair_removed(
                pre.entity_maintainers@,
                self.entity_maintainers@,
                k as int,
                (entity_id, group_id),
            );
            lemma_inv_registrations_only(pre, *self);
        }
        Ok(())
    }

    /// Replaces the creation limit of an existing voucher.  Only the
    /// system origin may call this, and the new limit must cover what the
    /// controller has already created.
    pub fn update_entity_creation_voucher(
        &mut self,
        raw_origin: &RawOrigin,
        class_id: ClassId,
        controller: EntityController,
        maximum_entities_count: u64,
    ) -> (r: Result<(), DirectoryError>)
        requires
            old(self).inv(),
        ensures
            final(self).inv(),
            r is Ok <==> *raw_origin is Root && old(self).has_class(class_id) && old(
                self,
            ).voucher_of(class_id, controller) is Some && old(self).voucher_of(
                class_id,
                controller,
            )->Some_0.entities_created <= maximum_entities_count,
            r is Err ==> *final(self) == *old(self),
            !(*raw_origin is Root) ==> r == Err::<(), DirectoryError>(DirectoryError::NotRootOrigin),
            *raw_origin is Root && !old(self).has_class(class_id) ==> r == Err::<
                (),
                DirectoryError,
            >(DirectoryError::ClassNotFound),
            *raw_origin is Root && old(self).has_class(class_id) && old(self).voucher_of(
                class_id,
                controller,
            ) is None ==> r == Err::<(), DirectoryError>(
                DirectoryError::EntityCreationVoucherDoesNotExist,
            ),
            *raw_origin is Root && old(self).has_class(class_id) && old(self).voucher_of(
                class_id,
                controller,
            ) is Some && old(self).voucher_of(class_id, controller)->Some_0.entities_created
                > maximum_entities_count ==> r == Err::<(), DirectoryError>(
                DirectoryError::VoucherLimitBelowCreatedCount,
            ),
            r is Ok ==> {
                &&& final(self).voucher_of(class_id, controller) == Some(
                    EntityCreationVoucher {
                        maximum_entities_count,
                        entities_created: old(self).voucher_of(
                            class_id,
                            controller,
                        )->Some_0.entities_created,
                    },
                )
                &&& forall|c2: ClassId, ctrl2: EntityController|
                    !(c2 == class_id && ctrl2 == controller) ==> #[trigger] final(self).voucher_of(
                        c2,
                        ctrl2,
                    ) == old(self).voucher_of(c2, ctrl2)
                &&& *final(self) == (Module {
                    entity_creation_vouchers: final(self).entity_creation_vouchers,
                    ..*old(self)
                })
            },
    {
        if !matches!(raw_origin, RawOrigin::Root) {
            return Err(DirectoryError::NotRootOrigin);
        }
        self.ensure_known_class_id(class_id)?;
        let mut voucher = self.ensure_entity_creation_voucher_exists(class_id, &controller)?;
        if voucher.entities_created > maximum_entities_count {
            return Err(DirectoryError::VoucherLimitBelowCreatedCount);
        }
        voucher.set_maximum_entities_count(maximum_entities_count);
        let ghost pre = *self;
        self.set_voucher(class_id, controller, voucher);
        proof {
            lemma_inv_registrations_only(pre, *self);
        }
        Ok(())
    }
}

/// The index of the first occurrence of a pair.
fn find_pair_index(entries: &Vec<(u64, u64)>, a: u64, b: u64) -> (r: Option<usize>)
    ensures
        r is Some ==> r->Some_0 < entries@.len() && entries@[r->Some_0 as int] == (a, b),
        r is None ==> !entries@.contains((a, b)),
{
    let mut i: usize = 0;
    while i < entries.len()
        invariant
            i <= entries.len(),
            forall|j: int| 0 <= j < i ==> entries@[j] != (a, b),
        decreases entries.len() - i,
    {
        if entries[i].0 == a && entries[i].1 == b {
            proof {
                assert(entries@[i as int] == (a, b));
            }
            return Some(i);
        }
        i += 1;
    }
    None
}

/// Removing the only occurrence of a pair from a duplicate-free list
/// leaves exactly the other pairs, still duplicate-free.
proof fn lemma_pair_removed(pre: Seq<(u64, u64)>, post: Seq<(u64, u64)>, k: int, p: (u64, u64))
    requires
        0 <= k < pre.len(),
        pre[k] == p,
        forall|i: int, j: int| 0 <= i < j < pre.len() ==> pre[i] != pre[j],
        post == pre.remove(k),
    ensures
        forall|q: (u64, u64)| post.contains(q) <==> (pre.contains(q) && q != p),
        forall|i: int, j: int| 0 <= i < j < post.len() ==> post[i] != post[j],
{
    pre.remove_ensures(k);
    assert forall|q: (u64, u64)| post.contains(q) <==> (pre.contains(q) && q != p) by {
        lemma_remove_contains(pre, k, q);
        if pre.contains(q) && q != p {
            let w = choose|w: int| 0 <= w < pre.len() && pre[w] == q;
            assert(w != k);
        }
        if post.contains(q) {
            if q == p {
                let w = choose|w: int| 0 <= w < pre.len() && w != k && pre[w] == q;
                assert(pre[w] == pre[k]);
            }
        }
    }
    assert forall|i: int, j: int| 0 <= i < j < post.len() implies post[i] != post[j] by {
        if j < k {
        } else if i < k {
            assert(post[i] == pre[i] && post[j] == pre[j + 1]);
        } else {
            assert(post[i] == pre[i + 1] && post[j] == pre[j + 1]);
        }
    }
}

} // verus!
