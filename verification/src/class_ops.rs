//! Class management: class creation, per-field permission updates, and
//! schema activation.

use vstd::prelude::*;

use crate::access::spec_permission_gate;
use crate::credentials::{CreateClassPermissionsChecker, CredentialChecker, CredentialSet};
use crate::constraint::ReferenceConstraint;
use crate::errors::DirectoryError;
use crate::ids::{ClassId, Credential, SchemaId};
use crate::permissions::{ClassPermissions, ClassPermissionsView, EntityPermissions,
    InitialControllerPolicy, PermissionRule, RawOrigin};
use crate::state::{Class, ClassView, Module};

verus! {

/// A change of one class that keeps every property, every schema, and the
/// entity caps preserves the store invariant.
pub proof fn lemma_inv_classes_only(pre: Module, post: Module)
    requires
        pre.inv(),
        post.entities == pre.entities,
        post.entity_maintainer_by_entity_id == pre.entity_maintainer_by_entity_id,
        post.can_create_entities_of_class == pre.can_create_entities_of_class,
        post.entity_maintainers == pre.entity_maintainers,
        post.entity_creation_vouchers == pre.entity_creation_vouchers,
        pre.classes@.len() <= post.classes@.len(),
        forall|c: int|
            0 <= c < pre.classes@.len() ==> pre.classes_dv()[c].properties.len()
                <= #[trigger] post.classes_dv()[c].properties.len(),
        forall|c: int|
            0 <= c < post.classes@.len() ==> post.class_wf(#[trigger] post.classes_dv()[c]),
    ensures
        post.inv(),
{
    assert forall|i: int|
        0 <= i < post.entities_dv().len() && post.entities_dv()[i] is Some implies #[trigger] post.entity_wf(
        post.entities_dv()[i]->Some_0,
    ) by {
        assert(pre.entity_wf(pre.entities_dv()[i]->Some_0));
    }
}


/// Replacing one class's permissions, keeping its properties, schemas and
/// entity caps, preserves the store invariant.
pub proof fn lemma_inv_class_perms_update(pre: Module, post: Module, class_id: ClassId, cv: ClassView)
    requires
        pre.inv(),
        class_id < pre.classes@.len(),
        post.entities == pre.entities,
        post.entity_maintainer_by_entity_id == pre.entity_maintainer_by_entity_id,
        post.can_create_entities_of_class == pre.can_create_entities_of_class,
        post.entity_maintainers == pre.entity_maintainers,
        post.entity_creation_vouchers == pre.entity_creation_vouchers,
        post.classes_dv() == pre.classes_dv().update(class_id as int, cv),
        post.classes@.len() == pre.classes@.len(),
        cv.properties == pre.class_at(class_id).properties,
        cv.schemas == pre.class_at(class_id).schemas,
        cv.class_permissions.current_number_of_entities == pre.class_at(
            class_id,
        ).class_permissions.current_number_of_entities,
        cv.class_permissions.maximum_entities_count == pre.class_at(
            class_id,
        ).class_permissions.maximum_entities_count,
    ensures
        post.inv(),
{
    assert forall|c: int|
        0 <= c < post.classes@.len() implies post.class_wf(#[trigger] post.classes_dv()[c]) by {
        assert(pre.class_wf(pre.classes_dv()[c]));
        let pcv = post.classes_dv()[c];
        assert forall|s: int|
            0 <= s < pcv.schemas.len() implies #[trigger] post.schema_wf(pcv, pcv.schemas[s]) by {
            assert(pre.schema_wf(pre.classes_dv()[c], pre.classes_dv()[c].schemas[s]));
        }
    }
    lemma_inv_classes_only(pre, post);
}

impl Module {
    /// A mutable borrow of one class slot.
    pub fn class_mut(&mut self, i: usize) -> (r: &mut Class)
        requires
            i < old(self).classes@.len(),
        ensures
            *r == old(self).classes@[i as int],
            final(self).classes@ == old(self).classes@.update(i as int, *final(r)),
            final(self).entities == old(self).entities,
            final(self).entity_maintainer_by_entity_id == old(self).entity_maintainer_by_entity_id,
            final(self).can_create_entities_of_class == old(self).can_create_entities_of_class,
            final(self).entity_maintainers == old(self).entity_maintainers,
            final(self).entity_creation_vouchers == old(self).entity_creation_vouchers,
            final(self).current_block == old(self).current_block,
            final(self).class_name_constraint == old(self).class_name_constraint,
            final(self).class_description_constraint == old(self).class_description_constraint,
            final(self).property_name_constraint == old(self).property_name_constraint,
            final(self).property_description_constraint == old(self).property_description_constraint,
    {
        &mut self.classes[i]
    }

    /// Whether the caller may create classes: the system may, and a signed
    /// account may when the checker says so.
    pub open spec fn spec_can_create_class<K: CreateClassPermissionsChecker>(
        checker: K,
        origin: RawOrigin,
    ) -> Result<(), DirectoryError> {
        match origin {
            RawOrigin::Root => Ok(()),
            RawOrigin::Signed(account) => if checker.spec_can_create_class(account) {
                Ok(())
            } else {
                Err(DirectoryError::NotPermittedToCreateClass)
            },
            RawOrigin::Unsigned => Err(DirectoryError::ExpectedRootOrSigned),
        }
    }

    /// Rejects callers that may not create classes.
    pub fn ensure_can_create_class<K: CreateClassPermissionsChecker>(
        checker: &K,
        raw_origin: &RawOrigin,
    ) -> (r: Result<(), DirectoryError>)
        ensures
            r == Module::spec_can_create_class(*checker, *raw_origin),
    {
        match raw_origin {
            RawOrigin::Root => Ok(()),
            RawOrigin::Signed(account) => {
                if checker.account_can_create_class_permissions(*account) {
                    Ok(())
                } else {
                    Err(DirectoryError::NotPermittedToCreateClass)
                }
            },
            RawOrigin::Unsigned => Err(DirectoryError::ExpectedRootOrSigned),
        }
    }

    /// The view of a class as `create_class` stores it: the caller's
    /// permissions with the entity counter cleared, and no properties or
    /// schemas yet.
    pub open spec fn spec_created_class(
        permissions: ClassPermissionsView,
        name: Seq<u8>,
        description: Seq<u8>,
    ) -> ClassView {
        ClassView {
            class_permissions: ClassPermissionsView {
                current_number_of_entities: 0,
                ..permissions
            },
            properties: Seq::empty(),
            schemas: Seq::empty(),
            name,
            description,
        }
    }

    /// Creates a class under the given permissions and returns its id.
    /// Fails `Permission` when the caller may not create classes, and
    /// `Validation` when the name or description length is not accepted.
    /// A fresh class holds no entities, so its entity counter starts at
    /// zero whatever the caller supplied.
    pub fn create_class<K: CreateClassPermissionsChecker>(
        &mut self,
        checker: &K,
        raw_origin: &RawOrigin,
        name: Vec<u8>,
        description: Vec<u8>,
        class_permissions: ClassPermissions,
    ) -> (r: Result<ClassId, DirectoryError>)
        requires
            old(self).inv(),
        ensures
            final(self).inv(),
            r is Ok <==> Module::spec_can_create_class(*checker, *raw_origin) is Ok && old(
                self,
            ).class_name_constraint.accepts(name@.len() as int) && old(
                self,
            ).class_description_constraint.accepts(description@.len() as int),
            r is Ok ==> {
                &&& r->Ok_0 == old(self).classes@.len()
                &&& final(self).classes_dv() == old(self).classes_dv().push(
                    Module::spec_created_class(class_permissions@, name@, description@),
                )
                &&& *final(self) == (Module { classes: final(self).classes, ..*old(self) })
            },
            r is Err ==> *final(self) == *old(self),
            Module::spec_can_create_class(*checker, *raw_origin) is Err ==> r == Err::<
                ClassId,
                DirectoryError,
            >(Module::spec_can_create_class(*checker, *raw_origin)->Err_0),
    {
        Module::ensure_can_create_class(checker, raw_origin)?;
        self.ensure_class_name_is_valid(&name)?;
        self.ensure_class_description_is_valid(&description)?;

        let class_id = self.classes.len() as u64;
        let mut permissions = class_permissions;
        permissions.current_number_of_entities = 0;
        let class = Class::new(permissions, name, description);
        let ghost pre = *self;
        let ghost cv = class@;
        self.classes.push(class);
        proof {
            assert(self.classes_dv() =~= pre.classes_dv().push(cv));
            assert forall|c: int|
                0 <= c < self.classes@.len() implies self.class_wf(
                #[trigger] self.classes_dv()[c],
            ) by {
                if c < pre.classes@.len() {
                    assert(pre.class_wf(pre.classes_dv()[c]));
                    assert(self.classes_dv()[c] == pre.classes_dv()[c]);
                    assert forall|s: int|
                        0 <= s < self.classes_dv()[c].schemas.len() implies #[trigger] self.schema_wf(
                        self.classes_dv()[c],
                        self.classes_dv()[c].schemas[s],
                    ) by {
                        assert(pre.schema_wf(pre.classes_dv()[c], pre.classes_dv()[c].schemas[s]));
                    }
                } else {
                    assert(self.classes_dv()[c] == cv);
                    assert(cv.schemas.len() == 0);
                    assert(cv.class_permissions.current_number_of_entities == 0);
                }
            }
            lemma_inv_classes_only(pre, *self);
        }
        Ok(class_id)
    }

    /// Creates a class under default permissions and returns its id.
    pub fn create_class_with_default_permissions<K: CreateClassPermissionsChecker>(
        &mut self,
        checker: &K,
        raw_origin: &RawOrigin,
        name: Vec<u8>,
        description: Vec<u8>,
    ) -> (r: Result<ClassId, DirectoryError>)
        requires
            old(self).inv(),
        ensures
            final(self).inv(),
            r is Ok <==> Module::spec_can_create_class(*checker, *raw_origin) is Ok && old(
                self,
            ).class_name_constraint.accepts(name@.len() as int) && old(
                self,
            ).class_description_constraint.accepts(description@.len() as int),
            r is Ok ==> {
                &&& r->Ok_0 == old(self).classes@.len()
                &&& final(self).classes_dv() == old(self).classes_dv().push(
                    Module::spec_created_class(ClassPermissions::spec_default(), name@, description@),
                )
                &&& *final(self) == (Module { classes: final(self).classes, ..*old(self) })
            },
            r is Err ==> *final(self) == *old(self),
    {
        self.create_class(checker, raw_origin, name, description, ClassPermissions::default())
    }

    /// Flips the activity flag of a schema; fails when the class or the
    /// schema index is unknown.
    pub fn complete_class_schema_status_update(
        &mut self,
        class_id: ClassId,
        schema_id: SchemaId,
        schema_status: bool,
    ) -> (r: Result<(), DirectoryError>)
        requires
            old(self).inv(),
        ensures
            final(self).inv(),
            r is Ok <==> old(self).has_class(class_id) && schema_id < old(self).class_at(
                class_id,
            ).schemas.len(),
            !old(self).has_class(class_id) ==> r == Err::<(), DirectoryError>(
                DirectoryError::ClassNotFound,
            ),
            old(self).has_class(class_id) && schema_id >= old(self).class_at(class_id).schemas.len()
                ==> r == Err::<(), DirectoryError>(DirectoryError::UnknownClassSchemaId),
            r is Ok ==> {
                &&& final(self).classes_dv() == old(self).classes_dv().update(
                    class_id as int,
                    ClassView {
                        schemas: old(self).class_at(class_id).schemas.update(
                            schema_id as int,
                            crate::schema::SchemaView {
                                properties: old(self).class_at(class_id).schemas[schema_id as int].properties,
                                is_active: schema_status,
                            },
                        ),
                        ..old(self).class_at(class_id)
                    },
                )
                &&& *final(self) == (Module { classes: final(self).classes, ..*old(self) })
            },
            r is Err ==> *final(self) == *old(self),
    {
        self.ensure_known_class_id(class_id)?;
        Module::ensure_class_schema_id_exists(self.class_ref(class_id), schema_id)?;
        let i = self.class_index(class_id);
        let ghost pre = *self;
        let class = self.class_mut(i);
        class.update_schema_status(schema_id, schema_status);
        proof {
            let cv = self.classes@[class_id as int]@;
            assert(self.classes_dv() =~= pre.classes_dv().update(class_id as int, cv));
            assert forall|c: int|
                0 <= c < self.classes@.len() implies self.class_wf(
                #[trigger] self.classes_dv()[c],
            ) by {
                assert(pre.class_wf(pre.classes_dv()[c]));
                if c == class_id as int {
                    assert forall|s: int|
                        0 <= s < cv.schemas.len() implies #[trigger] self.schema_wf(
                        cv,
                        cv.schemas[s],
                    ) by {
                        assert(pre.schema_wf(pre.classes_dv()[c], pre.classes_dv()[c].schemas[s]));
                    }
                } else {
                    assert(self.classes_dv()[c] == pre.classes_dv()[c]);
                    assert forall|s: int|
                        0 <= s < self.classes_dv()[c].schemas.len() implies #[trigger] self.schema_wf(
                        self.classes_dv()[c],
                        self.classes_dv()[c].schemas[s],
                    ) by {
                        assert(pre.schema_wf(pre.classes_dv()[c], pre.classes_dv()[c].schemas[s]));
                    }
                }
            }
            lemma_inv_classes_only(pre, *self);
        }
        Ok(())
    }

    /// Activates or deactivates a schema on behalf of a caller, after the
    /// schema-status permission rule passes.
    pub fn update_class_schema_status<C: CredentialChecker>(
        &mut self,
        checker: &C,
        raw_origin: &RawOrigin,
        with_credential: Option<Credential>,
        class_id: ClassId,
        schema_id: SchemaId,
        is_active: bool,
    ) -> (r: Result<(), DirectoryError>)
        requires
            old(self).inv(),
        ensures
            final(self).inv(),
            spec_permission_gate(
                *old(self),
                *checker,
                *raw_origin,
                with_credential,
                None,
                PermissionRule::CanUpdateSchemaStatus,
                class_id,
            ) is Err ==> r == Err::<(), DirectoryError>(
                spec_permission_gate(
                    *old(self),
                    *checker,
                    *raw_origin,
                    with_credential,
                    None,
                    PermissionRule::CanUpdateSchemaStatus,
                    class_id,
                )->Err_0,
            ) && *final(self) == *old(self),
            spec_permission_gate(
                *old(self),
                *checker,
                *raw_origin,
                with_credential,
                None,
                PermissionRule::CanUpdateSchemaStatus,
                class_id,
            ) is Ok ==> {
                &&& r is Ok <==> schema_id < old(self).class_at(class_id).schemas.len()
                &&& r is Err ==> r->Err_0 == DirectoryError::UnknownClassSchemaId && *final(self) == *old(self)
                &&& r is Ok ==> {
                    &&& final(self).classes_dv() == old(self).classes_dv().update(
                        class_id as int,
                        ClassView {
                            schemas: old(self).class_at(class_id).schemas.update(
                                schema_id as int,
                                crate::schema::SchemaView {
                                    properties: old(self).class_at(
                                        class_id,
                                    ).schemas[schema_id as int].properties,
                                    is_active,
                                },
                            ),
                            ..old(self).class_at(class_id)
                        },
                    )
                    &&& *final(self) == (Module { classes: final(self).classes, ..*old(self) })
                }
            },
    {
        Module::ensure_root_or_signed(raw_origin)?;
        self.if_class_permissions_satisfied(
            checker,
            raw_origin,
            with_credential,
            None,
            PermissionRule::CanUpdateSchemaStatus,
            class_id,
        )?;
        self.complete_class_schema_status_update(class_id, schema_id, is_active)
    }
}

impl Module {
    /// Sets the admins of a class; only the system passes this rule.
    pub fn set_class_admins<C: CredentialChecker>(
        &mut self,
        checker: &C,
        raw_origin: &RawOrigin,
        class_id: ClassId,
        admins: CredentialSet,
    ) -> (r: Result<(), DirectoryError>)
        requires
            old(self).inv(),
        ensures
            final(self).inv(),
            spec_permission_gate(
                *old(self),
                *checker,
                *raw_origin,
                None,
                None,
                PermissionRule::IsSystem,
                class_id,
            ) is Err ==> r == Err::<(), DirectoryError>(
                spec_permission_gate(
                    *old(self),
                    *checker,
                    *raw_origin,
                    None,
                    None,
                    PermissionRule::IsSystem,
                    class_id,
                )->Err_0,
            ) && *final(self) == *old(self),
            spec_permission_gate(
                *old(self),
                *checker,
                *raw_origin,
                None,
                None,
                PermissionRule::IsSystem,
                class_id,
            ) is Ok ==> r is Ok && final(self).classes_dv() == old(self).classes_dv().update(
                class_id as int,
                ClassView {
                    class_permissions: ClassPermissionsView {
                        admins: admins@,
                        last_permissions_update: old(self).current_block,
                        ..old(self).class_at(class_id).class_permissions
                    },
                    ..old(self).class_at(class_id)
                },
            ) && *final(self) == (Module { classes: final(self).classes, ..*old(self) }),
    {
        self.if_class_permissions_satisfied(
            checker,
            raw_origin,
            None,
            None,
            PermissionRule::IsSystem,
            class_id,
        )?;
        let now = self.current_block;
        let i = self.class_index(class_id);
        let ghost pre = *self;
        let class = self.class_mut(i);
        class.class_permissions.admins = admins;
        class.class_permissions.last_permissions_update = now;
        proof {
            let cv = self.classes@[class_id as int]@;
            assert(self.classes_dv() =~= pre.classes_dv().update(class_id as int, cv));
            lemma_inv_class_perms_update(pre, *self, class_id, cv);
        }
        Ok(())
    }

    /// Sets the entity permissions of a class.
    pub fn set_class_entity_permissions<C: CredentialChecker>(
        &mut self,
        checker: &C,
        raw_origin: &RawOrigin,
        with_credential: Option<Credential>,
        class_id: ClassId,
        entity_permissions: EntityPermissions,
    ) -> (r: Result<(), DirectoryError>)
        requires
            old(self).inv(),
        ensures
            final(self).inv(),
            spec_permission_gate(
                *old(self),
                *checker,
                *raw_origin,
                with_credential,
                None,
                PermissionRule::IsAdmin,
                class_id,
            ) is Err ==> r == Err::<(), DirectoryError>(
                spec_permission_gate(
                    *old(self),
                    *checker,
                    *raw_origin,
                    with_credential,
                    None,
                    PermissionRule::IsAdmin,
                    class_id,
                )->Err_0,
            ) && *final(self) == *old(self),
            spec_permission_gate(
                *old(self),
                *checker,
                *raw_origin,
                with_credential,
                None,
                PermissionRule::IsAdmin,
                class_id,
            ) is Ok ==> r is Ok && final(self).classes_dv() == old(self).classes_dv().update(
                class_id as int,
                ClassView {
                    class_permissions: ClassPermissionsView {
                        entity_permissions: entity_permissions@,
                        last_permissions_update: old(self).current_block,
                        ..old(self).class_at(class_id).class_permissions
                    },
                    ..old(self).class_at(class_id)
                },
            ) && *final(self) == (Module { classes: final(self).classes, ..*old(self) }),
    {
        self.if_class_permissions_satisfied(
            checker,
            raw_origin,
            with_credential,
            None,
            PermissionRule::IsAdmin,
            class_id,
        )?;
        let now = self.current_block;
        let i = self.class_index(class_id);
        let ghost pre = *self;
        let class = self.class_mut(i);
        class.class_permissions.entity_permissions = entity_permissions;
        class.class_permissions.last_permissions_update = now;
        proof {
            let cv = self.classes@[class_id as int]@;
            assert(self.classes_dv() =~= pre.classes_dv().update(class_id as int, cv));
            lemma_inv_class_perms_update(pre, *self, class_id, cv);
        }
        Ok(())
    }

    /// Sets the entity-creation-blocked flag of a class.
    pub fn set_class_entities_can_be_created<C: CredentialChecker>(
        &mut self,
        checker: &C,
        raw_origin: &RawOrigin,
        with_credential: Option<Credential>,
        class_id: ClassId,
        can_be_created: bool,
    ) -> (r: Result<(), DirectoryError>)
        requires
            old(self).inv(),
        ensures
            final(self).inv(),
            spec_permission_gate(
                *old(self),
                *checker,
                *raw_origin,
                with_credential,
                None,
                PermissionRule::IsAdmin,
                class_id,
            ) is Err ==> r == Err::<(), DirectoryError>(
                spec_permission_gate(
                    *old(self),
                    *checker,
                    *raw_origin,
                    with_credential,
                    None,
                    PermissionRule::IsAdmin,
                    class_id,
                )->Err_0,
            ) && *final(self) == *old(self),
            spec_permission_gate(
                *old(self),
                *checker,
                *raw_origin,
                with_credential,
                None,
                PermissionRule::IsAdmin,
                class_id,
            ) is Ok ==> r is Ok && final(self).classes_dv() == old(self).classes_dv().update(
                class_id as int,
                ClassView {
                    class_permissions: ClassPermissionsView {
                        entity_creation_blocked: can_be_created,
                        last_permissions_update: old(self).current_block,
                        ..old(self).class_at(class_id).class_permissions
                    },
                    ..old(self).class_at(class_id)
                },
            ) && *final(self) == (Module { classes: final(self).classes, ..*old(self) }),
    {
        self.if_class_permissions_satisfied(
            checker,
            raw_origin,
            with_credential,
            None,
            PermissionRule::IsAdmin,
            class_id,
        )?;
        let now = self.current_block;
        let i = self.class_index(class_id);
        let ghost pre = *self;
        let class = self.class_mut(i);
        class.class_permissions.entity_creation_blocked = can_be_created;
        class.class_permissions.last_permissions_update = now;
        proof {
            let cv = self.classes@[class_id as int]@;
            assert(self.classes_dv() =~= pre.classes_dv().update(class_id as int, cv));
            lemma_inv_class_perms_update(pre, *self, class_id, cv);
        }
        Ok(())
    }

    /// Sets the credentials that may add schemas to a class.
    pub fn set_class_add_schemas_set<C: CredentialChecker>(
        &mut self,
        checker: &C,
        raw_origin: &RawOrigin,
        with_credential: Option<Credential>,
        class_id: ClassId,
        credential_set: CredentialSet,
    ) -> (r: Result<(), DirectoryError>)
        requires
            old(self).inv(),
        ensures
            final(self).inv(),
            spec_permission_gate(
                *old(self),
                *checker,
                *raw_origin,
                with_credential,
                None,
                PermissionRule::IsAdmin,
                class_id,
            ) is Err ==> r == Err::<(), DirectoryError>(
                spec_permission_gate(
                    *old(self),
                    *checker,
                    *raw_origin,
                    with_credential,
                    None,
                    PermissionRule::IsAdmin,
                    class_id,
                )->Err_0,
            ) && *final(self) == *old(self),
            spec_permission_gate(
                *old(self),
                *checker,
                *raw_origin,
                with_credential,
                None,
                PermissionRule::IsAdmin,
                class_id,
            ) is Ok ==> r is Ok && final(self).classes_dv() == old(self).classes_dv().update(
                class_id as int,
                ClassView {
                    class_permissions: ClassPermissionsView {
                        add_schemas: credential_set@,
                        last_permissions_update: old(self).current_block,
                        ..old(self).class_at(class_id).class_permissions
                    },
                    ..old(self).class_at(class_id)
                },
            ) && *final(self) == (Module { classes: final(self).classes, ..*old(self) }),
    {
        self.if_class_permissions_satisfied(
            checker,
            raw_origin,
            with_credential,
            None,
            PermissionRule::IsAdmin,
            class_id,
        )?;
        let now = self.current_block;
        let i = self.class_index(class_id);
        let ghost pre = *self;
        let class = self.class_mut(i);
        class.class_permissions.add_schemas = credential_set;
        class.class_permissions.last_permissions_update = now;
        proof {
            let cv = self.classes@[class_id as int]@;
            assert(self.classes_dv() =~= pre.classes_dv().update(class_id as int, cv));
            lemma_inv_class_perms_update(pre, *self, class_id, cv);
        }
        Ok(())
    }

    /// Sets the credentials that may activate or deactivate schemas of a class.
    pub fn set_class_update_schemas_status_set<C: CredentialChecker>(
        &mut self,
        checker: &C,
        raw_origin: &RawOrigin,
        with_credential: Option<Credential>,
        class_id: ClassId,
        credential_set: CredentialSet,
    ) -> (r: Result<(), DirectoryError>)
        requires
            old(self).inv(),
        ensures
            final(self).inv(),
            spec_permission_gate(
                *old(self),
                *checker,
                *raw_origin,
                with_credential,
                None,
                PermissionRule::IsAdmin,
                class_id,
            ) is Err ==> r == Err::<(), DirectoryError>(
                spec_permission_gate(
                    *old(self),
                    *checker,
                    *raw_origin,
                    with_credential,
                    None,
                    PermissionRule::IsAdmin,
                    class_id,
                )->Err_0,
            ) && *final(self) == *old(self),
            spec_permission_gate(
                *old(self),
                *checker,
                *raw_origin,
                with_credential,
                None,
                PermissionRule::IsAdmin,
                class_id,
            ) is Ok ==> r is Ok && final(self).classes_dv() == old(self).classes_dv().update(
                class_id as int,
                ClassView {
                    class_permissions: ClassPermissionsView {
                        update_schemas_status: credential_set@,
                        last_permissions_update: old(self).current_block,
                        ..old(self).class_at(class_id).class_permissions
                    },
                    ..old(self).class_at(class_id)
                },
            ) && *final(self) == (Module { classes: final(self).classes, ..*old(self) }),
    {
        self.if_class_permissions_satisfied(
            checker,
            raw_origin,
            with_credential,
            None,
            PermissionRule::IsAdmin,
            class_id,
        )?;
        let now = self.current_block;
        let i = self.class_index(class_id);
        let ghost pre = *self;
        let class = self.class_mut(i);
        class.class_permissions.update_schemas_status = credential_set;
        class.class_permissions.last_permissions_update = now;
        proof {
            let cv = self.classes@[class_id as int]@;
            assert(self.classes_dv() =~= pre.classes_dv().update(class_id as int, cv));
            lemma_inv_class_perms_update(pre, *self, class_id, cv);
        }
        Ok(())
    }

    /// Sets the credentials that may create entities of a class.
    pub fn set_class_create_entities_set<C: CredentialChecker>(
        &mut self,
        checker: &C,
        raw_origin: &RawOrigin,
        with_credential: Option<Credential>,
        class_id: ClassId,
        credential_set: CredentialSet,
    ) -> (r: Result<(), DirectoryError>)
        requires
            old(self).inv(),
        ensures
            final(self).inv(),
            spec_permission_gate(
                *old(self),
                *checker,
                *raw_origin,
                with_credential,
                None,
                PermissionRule::IsAdmin,
                class_id,
            ) is Err ==> r == Err::<(), DirectoryError>(
                spec_permission_gate(
                    *old(self),
                    *checker,
                    *raw_origin,
                    with_credential,
                    None,
                    PermissionRule::IsAdmin,
                    class_id,
                )->Err_0,
            ) && *final(self) == *old(self),
            spec_permission_gate(
                *old(self),
                *checker,
                *raw_origin,
                with_credential,
                None,
                PermissionRule::IsAdmin,
                class_id,
            ) is Ok ==> r is Ok && final(self).classes_dv() == old(self).classes_dv().update(
                class_id as int,
                ClassView {
                    class_permissions: ClassPermissionsView {
                        create_entities: credential_set@,
                        last_permissions_update: old(self).current_block,
                        ..old(self).class_at(class_id).class_permissions
                    },
                    ..old(self).class_at(class_id)
                },
            ) && *final(self) == (Module { classes: final(self).classes, ..*old(self) }),
    {
        self.if_class_permissions_satisfied(
            checker,
            raw_origin,
            with_credential,
            None,
            PermissionRule::IsAdmin,
            class_id,
        )?;
        let now = self.current_block;
        let i = self.class_index(class_id);
        let ghost pre = *self;
        let class = self.class_mut(i);
        class.class_permissions.create_entities = credential_set;
        class.class_permissions.last_permissions_update = now;
        proof {
            let cv = self.classes@[class_id as int]@;
            assert(self.classes_dv() =~= pre.classes_dv().update(class_id as int, cv));
            lemma_inv_class_perms_update(pre, *self, class_id, cv);
        }
        Ok(())
    }

    /// Sets the reference constraint of a class.
    pub fn set_class_reference_constraint<C: CredentialChecker>(
        &mut self,
        checker: &C,
        raw_origin: &RawOrigin,
        with_credential: Option<Credential>,
        class_id: ClassId,
        constraint: ReferenceConstraint,
    ) -> (r: Result<(), DirectoryError>)
        requires
            old(self).inv(),
        ensures
            final(self).inv(),
            spec_permission_gate(
                *old(self),
                *checker,
                *raw_origin,
                with_credential,
                None,
                PermissionRule::IsAdmin,
                class_id,
            ) is Err ==> r == Err::<(), DirectoryError>(
                spec_permission_gate(
                    *old(self),
                    *checker,
                    *raw_origin,
                    with_credential,
                    None,
                    PermissionRule::IsAdmin,
                    class_id,
                )->Err_0,
            ) && *final(self) == *old(self),
            spec_permission_gate(
                *old(self),
                *checker,
                *raw_origin,
                with_credential,
                None,
                PermissionRule::IsAdmin,
                class_id,
            ) is Ok ==> r is Ok && final(self).classes_dv() == old(self).classes_dv().update(
                class_id as int,
                ClassView {
                    class_permissions: ClassPermissionsView {
                        reference_constraint: constraint@,
                        last_permissions_update: old(self).current_block,
                        ..old(self).class_at(class_id).class_permissions
                    },
                    ..old(self).class_at(class_id)
                },
            ) && *final(self) == (Module { classes: final(self).classes, ..*old(self) }),
    {
        self.if_class_permissions_satisfied(
            checker,
            raw_origin,
            with_credential,
            None,
            PermissionRule::IsAdmin,
            class_id,
        )?;
        let now = self.current_block;
        let i = self.class_index(class_id);
        let ghost pre = *self;
        let class = self.class_mut(i);
        class.class_permissions.reference_constraint = constraint;
        class.class_permissions.last_permissions_update = now;
        proof {
            let cv = self.classes@[class_id as int]@;
            assert(self.classes_dv() =~= pre.classes_dv().update(class_id as int, cv));
            lemma_inv_class_perms_update(pre, *self, class_id, cv);
        }
        Ok(())
    }
}

impl Module {
    /// Updates the creation-blocked flag and the initial-controller policy
    /// of a class; only the system origin may call this.
    pub fn update_class_permissions(
        &mut self,
        raw_origin: &RawOrigin,
        class_id: ClassId,
        entity_creation_blocked: Option<bool>,
        initial_controller_of_created_entities: Option<InitialControllerPolicy>,
    ) -> (r: Result<(), DirectoryError>)
        requires
            old(self).inv(),
        ensures
            final(self).inv(),
            r is Ok <==> *raw_origin is Root && old(self).has_class(class_id),
            !(*raw_origin is Root) ==> r == Err::<(), DirectoryError>(DirectoryError::NotRootOrigin)
                && *final(self) == *old(self),
            *raw_origin is Root && !old(self).has_class(class_id) ==> r == Err::<
                (),
                DirectoryError,
            >(DirectoryError::ClassNotFound) && *final(self) == *old(self),
            r is Ok ==> final(self).classes_dv() == old(self).classes_dv().update(
                class_id as int,
                ClassView {
                    class_permissions: ClassPermissionsView {
                        entity_creation_blocked: (match entity_creation_blocked {
                            Some(b) => b,
                            None => old(self).class_at(class_id).class_permissions.entity_creation_blocked,
                        }),
                        initial_controller_of_created_entities: (
                        match initial_controller_of_created_entities {
                            Some(p) => p,
                            None => old(self).class_at(
                                class_id,
                            ).class_permissions.initial_controller_of_created_entities,
                        }),
                        ..old(self).class_at(class_id).class_permissions
                    },
                    ..old(self).class_at(class_id)
                },
            ) && *final(self) == (Module { classes: final(self).classes, ..*old(self) }),
    {
        if !matches!(raw_origin, RawOrigin::Root) {
            return Err(DirectoryError::NotRootOrigin);
        }
        self.ensure_known_class_id(class_id)?;
        let i = self.class_index(class_id);
        let ghost pre = *self;
        let class = self.class_mut(i);
        if let Some(blocked) = entity_creation_blocked {
            class.class_permissions.entity_creation_blocked = blocked;
        }
        if let Some(policy) = initial_controller_of_created_entities {
            class.class_permissions.initial_controller_of_created_entities = policy;
        }
        proof {
            let cv = self.classes@[class_id as int]@;
            assert(self.classes_dv() =~= pre.classes_dv().update(class_id as int, cv));
            lemma_inv_class_perms_update(pre, *self, class_id, cv);
        }
        Ok(())
    }
}

} // verus!
