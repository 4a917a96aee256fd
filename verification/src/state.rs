//! The directory state: classes, entities, maintainers, creator
//! registrations and creation vouchers, together with the store invariant.

use vstd::prelude::*;

use crate::errors::DirectoryError;
use crate::ids::{
    BlockNumber, ClassId, Credential, EntityId, GroupId, InputValidationLengthConstraint,
    PropertyId, SchemaId,
};
use crate::permissions::{ClassPermissions, ClassPermissionsView, EntityController,
    EntityCreationVoucher, EntityPermission};
use crate::refs::store_refs;
use crate::schema::{Property, PropertyValue, PropertyValueView, PropertyView, Schema, SchemaView};

verus! {

/// A typed instance of a class.
#[derive(Clone, PartialEq, Eq, Debug)]
pub struct Entity {
    /// Controller and freeze flag of the entity.
    pub entity_permission: EntityPermission,
    /// The class the entity instantiates.
    pub class_id: ClassId,
    /// The schemas of the class the entity has adopted.
    pub supported_schemas: Vec<SchemaId>,
    /// The entity's property values, indexed by property id.
    pub values: Vec<Option<PropertyValue>>,
    /// How many reference values across the whole store point at the
    /// entity.
    pub reference_count: u32,
}

/// Mathematical model of an `Entity`.
pub struct EntityView {
    pub entity_permission: EntityPermission,
    pub class_id: ClassId,
    pub supported_schemas: Seq<SchemaId>,
    pub values: Seq<Option<PropertyValueView>>,
    pub reference_count: u32,
}

impl View for Entity {
    type V = EntityView;

    open spec fn view(&self) -> EntityView {
        EntityView {
            entity_permission: self.entity_permission,
            class_id: self.class_id,
            supported_schemas: self.supported_schemas@,
            values: self.values.deep_view(),
            reference_count: self.reference_count,
        }
    }
}

impl DeepView for Entity {
    type V = EntityView;

    open spec fn deep_view(&self) -> EntityView {
        self.view()
    }
}

impl Entity {
    /// A fresh entity of a class, with default permissions and no incoming
    /// references.
    pub fn new(
        class_id: ClassId,
        supported_schemas: Vec<SchemaId>,
        values: Vec<Option<PropertyValue>>,
    ) -> (r: Self)
        ensures
            r@.class_id == class_id,
            r@.supported_schemas == supported_schemas@,
            r@.values == values.deep_view(),
            r@.reference_count == 0,
            r@.entity_permission == (EntityPermission {
                controller: EntityController::Unspecified,
                frozen_for_controller: false,
            }),
    {
        Self {
            entity_permission: EntityPermission {
                controller: EntityController::Unspecified,
                frozen_for_controller: false,
            },
            class_id,
            supported_schemas,
            values,
            reference_count: 0,
        }
    }

    pub fn get_entity_permissions(&self) -> (r: &EntityPermission)
        ensures
            *r == self.entity_permission,
    {
        &self.entity_permission
    }

    pub fn get_entity_permissions_mut(&mut self) -> (r: &mut EntityPermission)
        ensures
            *r == old(self).entity_permission,
            *final(self) == (Entity { entity_permission: *final(r), ..*old(self) }),
    {
        &mut self.entity_permission
    }
}

/// A schema container: permissions, an append-only property list, an
/// append-only schema list, and a name and description.
#[derive(Clone, PartialEq, Eq, Debug)]
pub struct Class {
    /// Permissions for the class and its entities.
    pub class_permissions: ClassPermissions,
    /// All properties ever declared for the class; indices are permanent
    /// property ids.
    pub properties: Vec<Property>,
    /// All schemas of the class; indices are permanent schema ids.
    pub schemas: Vec<Schema>,
    pub name: Vec<u8>,
    pub description: Vec<u8>,
}

/// Mathematical model of a `Class`.
pub struct ClassView {
    pub class_permissions: ClassPermissionsView,
    pub properties: Seq<PropertyView>,
    pub schemas: Seq<SchemaView>,
    pub name: Seq<u8>,
    pub description: Seq<u8>,
}

impl View for Class {
    type V = ClassView;

    open spec fn view(&self) -> ClassView {
        ClassView {
            class_permissions: self.class_permissions@,
            properties: self.properties.deep_view(),
            schemas: self.schemas.deep_view(),
            name: self.name@,
            description: self.description@,
        }
    }
}

impl DeepView for Class {
    type V = ClassView;

    open spec fn deep_view(&self) -> ClassView {
        self.view()
    }
}

impl Class {
    /// A fresh class with no properties and no schemas.
    pub fn new(class_permissions: ClassPermissions, name: Vec<u8>, description: Vec<u8>) -> (r:
        Self)
        ensures
            r@.class_permissions == class_permissions@,
            r@.properties == Seq::<PropertyView>::empty(),
            r@.schemas == Seq::<SchemaView>::empty(),
            r@.name == name@,
            r@.description == description@,
    {
        let r = Self { class_permissions, properties: Vec::new(), schemas: Vec::new(), name,
            description };
        proof {
            assert(r.properties.deep_view() =~= Seq::<PropertyView>::empty());
            assert(r.schemas.deep_view() =~= Seq::<SchemaView>::empty());
        }
        r
    }

    /// Whether the schema at a valid index is active.
    pub fn is_active_schema(&self, schema_id: SchemaId) -> (r: bool)
        requires
            schema_id < self@.schemas.len(),
        ensures
            r == self@.schemas[schema_id as int].is_active,
    {
        let n = self.schemas.len();
        self.schemas[schema_id as usize].is_active
    }

    /// Flips the activity flag of the schema at a valid index.
    pub fn update_schema_status(&mut self, schema_id: SchemaId, schema_status: bool)
        requires
            schema_id < old(self)@.schemas.len(),
        ensures
            final(self)@ == (ClassView {
                schemas: old(self)@.schemas.update(
                    schema_id as int,
                    SchemaView {
                        properties: old(self)@.schemas[schema_id as int].properties,
                        is_active: schema_status,
                    },
                ),
                ..old(self)@
            }),
    {
        let n = self.schemas.len();
        let i = schema_id as usize;
        let ghost pre = self.schemas.deep_view();
        let updated = Schema {
            properties: crate::schema::copy_vec(&self.schemas[i].properties),
            is_active: schema_status,
        };
        self.schemas.set(i, updated);
        proof {
            assert(self.schemas.deep_view() =~= pre.update(
                schema_id as int,
                SchemaView { properties: pre[schema_id as int].properties, is_active: schema_status },
            ));
        }
    }

    pub fn get_permissions(&self) -> (r: &ClassPermissions)
        ensures
            *r == self.class_permissions,
    {
        &self.class_permissions
    }

    pub fn get_permissions_mut(&mut self) -> (r: &mut ClassPermissions)
        ensures
            *r == old(self).class_permissions,
            *final(self) == (Class { class_permissions: *final(r), ..*old(self) }),
    {
        &mut self.class_permissions
    }

    /// Stamps the permissions with the time of their last update.
    pub fn refresh_last_permissions_update(&mut self, now: BlockNumber)
        ensures
            *final(self) == (Class {
                class_permissions: ClassPermissions {
                    last_permissions_update: now,
                    ..old(self).class_permissions
                },
                ..*old(self)
            }),
    {
        self.class_permissions.last_permissions_update = now;
    }
}

impl Default for Class {
    /// A class with default permissions and empty name and description.
    fn default() -> (r: Self)
        ensures
            r@.class_permissions == ClassPermissions::spec_default(),
            r@.properties == Seq::<PropertyView>::empty(),
            r@.schemas == Seq::<SchemaView>::empty(),
            r@.name == Seq::<u8>::empty(),
            r@.description == Seq::<u8>::empty(),
    {
        Class::new(ClassPermissions::default(), Vec::new(), Vec::new())
    }
}

/// One creation voucher, keyed by class and controller.
#[derive(Clone, Copy, PartialEq, Eq, Structural, Debug)]
pub struct VoucherEntry {
    pub class_id: ClassId,
    pub controller: EntityController,
    pub voucher: EntityCreationVoucher,
}

/// The first voucher for a (class, controller) pair in a voucher list.
pub open spec fn spec_find_voucher(
    entries: Seq<VoucherEntry>,
    class_id: ClassId,
    controller: EntityController,
) -> Option<EntityCreationVoucher>
    decreases entries.len(),
{
    if entries.len() == 0 {
        None
    } else if entries[0].class_id == class_id && entries[0].controller == controller {
        Some(entries[0].voucher)
    } else {
        spec_find_voucher(entries.drop_first(), class_id, controller)
    }
}

/// The directory: the verified store of classes and entities together
/// with every registration the permission checks read.
pub struct Module {
    /// All classes; a class id is an index into this list.
    pub classes: Vec<Class>,
    /// All entity slots; an entity id is an index into this list, and a
    /// removed entity leaves an empty slot so ids are never reused.
    pub entities: Vec<Option<Entity>>,
    /// The maintainer credential of each entity slot, if one was recorded.
    pub entity_maintainer_by_entity_id: Vec<Option<Credential>>,
    /// Which groups may create entities of which class.
    pub can_create_entities_of_class: Vec<(ClassId, GroupId)>,
    /// Which groups may act as maintainers of which entity.
    pub entity_maintainers: Vec<(EntityId, GroupId)>,
    /// Per-(class, controller) creation vouchers.
    pub entity_creation_vouchers: Vec<VoucherEntry>,
    /// The block height stamped on permission updates.
    pub current_block: BlockNumber,
    /// Accepted lengths of class names.
    pub class_name_constraint: InputValidationLengthConstraint,
    /// Accepted lengths of class descriptions.
    pub class_description_constraint: InputValidationLengthConstraint,
    /// Accepted lengths of property names.
    pub property_name_constraint: InputValidationLengthConstraint,
    /// Accepted lengths of property descriptions.
    pub property_description_constraint: InputValidationLengthConstraint,
}

impl Module {
    /// The mathematical model of the entity store.
    pub open spec fn entities_dv(self) -> Seq<Option<EntityView>> {
        self.entities.deep_view()
    }

    /// The mathematical model of the class list.
    pub open spec fn classes_dv(self) -> Seq<ClassView> {
        self.classes.deep_view()
    }

    /// Whether a class id names a class.
    pub open spec fn has_class(self, class_id: ClassId) -> bool {
        class_id < self.classes@.len()
    }

    /// Whether an entity id names a live entity.
    pub open spec fn entity_live(self, entity_id: EntityId) -> bool {
        entity_id < self.entities@.len() && self.entities_dv()[entity_id as int] is Some
    }

    /// The model of a live entity.
    pub open spec fn entity_at(self, entity_id: EntityId) -> EntityView {
        self.entities_dv()[entity_id as int]->Some_0
    }

    /// The model of a class.
    pub open spec fn class_at(self, class_id: ClassId) -> ClassView {
        self.classes_dv()[class_id as int]
    }

    /// Whether a group is registered as entity creator for a class.
    pub open spec fn creator_registered(self, class_id: ClassId, group_id: GroupId) -> bool {
        self.can_create_entities_of_class@.contains((class_id, group_id))
    }

    /// Whether a group is registered as maintainer group of an entity.
    pub open spec fn group_maintainer_registered(self, entity_id: EntityId, group_id: GroupId) -> bool {
        self.entity_maintainers@.contains((entity_id, group_id))
    }

    /// The voucher recorded for a (class, controller) pair.
    pub open spec fn voucher_of(self, class_id: ClassId, controller: EntityController) -> Option<
        EntityCreationVoucher,
    > {
        spec_find_voucher(self.entity_creation_vouchers@, class_id, controller)
    }

    /// The maintainer credential recorded for an entity slot.
    pub open spec fn maintainer_of(self, entity_id: EntityId) -> Option<Credential> {
        self.entity_maintainer_by_entity_id@[entity_id as int]
    }

    /// Structural soundness of one entity against the class list.
    pub open spec fn entity_wf(self, e: EntityView) -> bool {
        &&& e.class_id < self.classes@.len()
        &&& e.values.len() <= self.class_at(e.class_id).properties.len()
    }

    /// Structural soundness of one class.
    pub open spec fn class_wf(self, c: ClassView) -> bool {
        &&& c.class_permissions.current_number_of_entities
            <= c.class_permissions.maximum_entities_count
        &&& forall|s: int|
            0 <= s < c.schemas.len() ==> #[trigger] self.schema_wf(c, c.schemas[s])
    }

    /// Structural soundness of one schema of a class: every property id it
    /// names exists, and none repeats.
    pub open spec fn schema_wf(self, c: ClassView, s: SchemaView) -> bool {
        &&& forall|k: int| 0 <= k < s.properties.len() ==> #[trigger] s.properties[k]
            < c.properties.len()
        &&& forall|k1: int, k2: int|
            0 <= k1 < k2 < s.properties.len() ==> s.properties[k1] != s.properties[k2]
    }

    /// The store invariant.  Its heart is exact reference counting: every
    /// live entity's `reference_count` equals the number of reference
    /// values across the whole store that point at it, and every reference
    /// value points at a live entity.
    pub open spec fn inv(self) -> bool {
        &&& self.entity_maintainer_by_entity_id@.len() == self.entities@.len()
        &&& forall|i: int|
            0 <= i < self.entities_dv().len() && self.entities_dv()[i] is Some
                ==> #[trigger] self.entity_wf(self.entities_dv()[i]->Some_0)
        &&& forall|t: EntityId|
            t < self.entities_dv().len() && self.entities_dv()[t as int] is Some
                ==> self.entity_at(t).reference_count == #[trigger] store_refs(
                self.entities_dv(),
                t,
            )
        &&& forall|t: EntityId|
            #[trigger] store_refs(self.entities_dv(), t) > 0 ==> t < self.entities_dv().len()
                && self.entities_dv()[t as int] is Some
        &&& forall|c: int|
            0 <= c < self.classes_dv().len() ==> #[trigger] self.class_wf(self.classes_dv()[c])
        &&& forall|i: int|
            0 <= i < self.entity_creation_vouchers@.len()
                ==> #[trigger] self.entity_creation_vouchers@[i].voucher.entities_created
                <= self.entity_creation_vouchers@[i].voucher.maximum_entities_count
        &&& forall|i: int, j: int|
            0 <= i < j < self.entity_creation_vouchers@.len() ==> !(
            self.entity_creation_vouchers@[i].class_id == self.entity_creation_vouchers@[j].class_id
                && self.entity_creation_vouchers@[i].controller
                == self.entity_creation_vouchers@[j].controller)
        &&& forall|i: int, j: int|
            0 <= i < j < self.can_create_entities_of_class@.len()
                ==> self.can_create_entities_of_class@[i] != self.can_create_entities_of_class@[j]
        &&& forall|i: int, j: int|
            0 <= i < j < self.entity_maintainers@.len() ==> self.entity_maintainers@[i]
                != self.entity_maintainers@[j]
    }

    /// An empty directory with the given input length constraints.
    pub fn new(
        class_name_constraint: InputValidationLengthConstraint,
        class_description_constraint: InputValidationLengthConstraint,
        property_name_constraint: InputValidationLengthConstraint,
        property_description_constraint: InputValidationLengthConstraint,
    ) -> (r: Self)
        ensures
            r.inv(),
            r.classes@.len() == 0,
            r.entities@.len() == 0,
            r.can_create_entities_of_class@.len() == 0,
            r.entity_maintainers@.len() == 0,
            r.entity_creation_vouchers@.len() == 0,
            r.current_block == 0,
            r.class_name_constraint == class_name_constraint,
            r.class_description_constraint == class_description_constraint,
            r.property_name_constraint == property_name_constraint,
            r.property_description_constraint == property_description_constraint,
    {
        let r = Self {
            classes: Vec::new(),
            entities: Vec::new(),
            entity_maintainer_by_entity_id: Vec::new(),
            can_create_entities_of_class: Vec::new(),
            entity_maintainers: Vec::new(),
            entity_creation_vouchers: Vec::new(),
            current_block: 0,
            class_name_constraint,
            class_description_constraint,
            property_name_constraint,
            property_description_constraint,
        };
        proof {
            assert(r.entities_dv() =~= Seq::<Option<EntityView>>::empty());
            assert(r.classes_dv() =~= Seq::<ClassView>::empty());
            assert forall|t: EntityId| #[trigger] store_refs(r.entities_dv(), t) == 0 by {}
        }
        r
    }

    /// Sets the block height stamped on later permission updates.
    pub fn set_current_block(&mut self, now: BlockNumber)
        ensures
            *final(self) == (Module { current_block: now, ..*old(self) }),
    {
        self.current_block = now;
    }

    /// The index of a known class.
    pub fn class_index(&self, class_id: ClassId) -> (i: usize)
        requires
            self.has_class(class_id),
        ensures
            i == class_id as int,
            i < self.classes@.len(),
    {
        let n = self.classes.len();
        class_id as usize
    }

    /// The index of a live entity.
    pub fn entity_index(&self, entity_id: EntityId) -> (i: usize)
        requires
            entity_id < self.entities@.len(),
        ensures
            i == entity_id as int,
            i < self.entities@.len(),
    {
        let n = self.entities.len();
        entity_id as usize
    }

    /// A known class.
    pub fn class_ref(&self, class_id: ClassId) -> (r: &Class)
        requires
            self.has_class(class_id),
        ensures
            r@ == self.class_at(class_id),
    {
        let i = self.class_index(class_id);
        &self.classes[i]
    }

    /// A live entity.
    pub fn entity_ref(&self, entity_id: EntityId) -> (r: &Entity)
        requires
            self.entity_live(entity_id),
        ensures
            r@ == self.entity_at(entity_id),
    {
        let i = self.entity_index(entity_id);
        match &self.entities[i] {
            Some(e) => e,
            None => vstd::pervasive::unreached(),
        }
    }

    /// A live entity together with its class.
    pub fn get_entity_and_class(&self, entity_id: EntityId) -> (r: (&Entity, &Class))
        requires
            self.inv(),
            self.entity_live(entity_id),
        ensures
            r.0@ == self.entity_at(entity_id),
            r.1@ == self.class_at(self.entity_at(entity_id).class_id),
    {
        let entity = self.entity_ref(entity_id);
        proof {
            assert(self.entity_wf(self.entities_dv()[entity_id as int]->Some_0));
        }
        let class = self.class_ref(entity.class_id);
        (entity, class)
    }

    /// Passes exactly when a class id names a class.
    pub fn ensure_known_class_id(&self, class_id: ClassId) -> (r: Result<(), DirectoryError>)
        ensures
            r is Ok <==> self.has_class(class_id),
            r is Err ==> r->Err_0 == DirectoryError::ClassNotFound,
    {
        if class_id < self.classes.len() as u64 {
            Ok(())
        } else {
            Err(DirectoryError::ClassNotFound)
        }
    }

    /// Passes exactly when an entity id names a live entity.
    pub fn ensure_known_entity_id(&self, entity_id: EntityId) -> (r: Result<(), DirectoryError>)
        ensures
            r is Ok <==> self.entity_live(entity_id),
            r is Err ==> r->Err_0 == DirectoryError::EntityNotFound,
    {
        if entity_id < self.entities.len() as u64 {
            let i = self.entity_index(entity_id);
            match &self.entities[i] {
                Some(_) => Ok(()),
                None => Err(DirectoryError::EntityNotFound),
            }
        } else {
            Err(DirectoryError::EntityNotFound)
        }
    }

    /// The class of a live entity.
    pub fn get_class_id_by_entity_id(&self, entity_id: EntityId) -> (r: Result<
        ClassId,
        DirectoryError,
    >)
        ensures
            r is Ok <==> self.entity_live(entity_id),
            r is Ok ==> r->Ok_0 == self.entity_at(entity_id).class_id,
            r is Err ==> r->Err_0 == DirectoryError::EntityNotFound,
    {
        self.ensure_known_entity_id(entity_id)?;
        Ok(self.entity_ref(entity_id).class_id)
    }

    /// Passes exactly when a live entity is referenced by nothing.
    pub fn ensure_rc_is_zero(&self, entity_id: EntityId) -> (r: Result<(), DirectoryError>)
        ensures
            r is Ok <==> self.entity_live(entity_id) && self.entity_at(entity_id).reference_count
                == 0,
            self.entity_live(entity_id) && self.entity_at(entity_id).reference_count != 0 ==> r
                == Err::<(), DirectoryError>(DirectoryError::EntityReferenceCounterNotZero),
            !self.entity_live(entity_id) ==> r == Err::<(), DirectoryError>(
                DirectoryError::EntityNotFound,
            ),
    {
        self.ensure_known_entity_id(entity_id)?;
        if self.entity_ref(entity_id).reference_count == 0 {
            Ok(())
        } else {
            Err(DirectoryError::EntityReferenceCounterNotZero)
        }
    }

    /// Passes exactly when a schema id names a schema of the class.
    pub fn ensure_class_schema_id_exists(class: &Class, schema_id: SchemaId) -> (r: Result<
        (),
        DirectoryError,
    >)
        ensures
            r is Ok <==> schema_id < class@.schemas.len(),
            r is Err ==> r->Err_0 == DirectoryError::UnknownClassSchemaId,
    {
        if schema_id < class.schemas.len() as u64 {
            Ok(())
        } else {
            Err(DirectoryError::UnknownClassSchemaId)
        }
    }

    /// Passes exactly when the schema at a valid index is active.
    pub fn ensure_class_schema_is_active(class: &Class, schema_id: SchemaId) -> (r: Result<
        (),
        DirectoryError,
    >)
        requires
            schema_id < class@.schemas.len(),
        ensures
            r is Ok <==> class@.schemas[schema_id as int].is_active,
            r is Err ==> r->Err_0 == DirectoryError::ClassSchemaNotActive,
    {
        if class.is_active_schema(schema_id) {
            Ok(())
        } else {
            Err(DirectoryError::ClassSchemaNotActive)
        }
    }

    /// Passes exactly when an entity does not support a schema yet.
    pub fn ensure_schema_id_is_not_added(entity: &Entity, schema_id: SchemaId) -> (r: Result<
        (),
        DirectoryError,
    >)
        ensures
            r is Ok <==> !entity@.supported_schemas.contains(schema_id),
            r is Err ==> r->Err_0 == DirectoryError::SchemaAlreadyAddedToEntity,
    {
        let mut i: usize = 0;
        while i < entity.supported_schemas.len()
            invariant
                i <= entity.supported_schemas.len(),
                forall|j: int| 0 <= j < i ==> entity.supported_schemas@[j] != schema_id,
            decreases entity.supported_schemas.len() - i,
        {
            if entity.supported_schemas[i] == schema_id {
                return Err(DirectoryError::SchemaAlreadyAddedToEntity);
            }
            i += 1;
        }
        Ok(())
    }

    /// Passes exactly when the class can hold one more entity.
    pub fn ensure_maximum_entities_count_limit_not_reached(class: &Class) -> (r: Result<
        (),
        DirectoryError,
    >)
        ensures
            r is Ok <==> class@.class_permissions.current_number_of_entities
                < class@.class_permissions.maximum_entities_count,
            r is Err ==> r->Err_0 == DirectoryError::MaxNumberOfEntitiesPerClassLimitReached,
    {
        let permissions = class.get_permissions();
        if permissions.current_number_of_entities < permissions.maximum_entities_count {
            Ok(())
        } else {
            Err(DirectoryError::MaxNumberOfEntitiesPerClassLimitReached)
        }
    }

    /// Passes exactly when the voucher can cover one more entity.
    pub fn ensure_voucher_limit_not_reached(voucher: &EntityCreationVoucher) -> (r: Result<
        (),
        DirectoryError,
    >)
        ensures
            r is Ok <==> voucher.entities_created < voucher.maximum_entities_count,
            r is Err ==> r->Err_0 == DirectoryError::VoucherLimitReached,
    {
        if voucher.limit_not_reached() {
            Ok(())
        } else {
            Err(DirectoryError::VoucherLimitReached)
        }
    }

    /// Whether a group is registered as entity creator for a class.
    pub fn creator_exists(&self, class_id: ClassId, group_id: GroupId) -> (r: bool)
        ensures
            r == self.creator_registered(class_id, group_id),
    {
        contains_pair(&self.can_create_entities_of_class, class_id, group_id)
    }

    /// Passes exactly when the creator registration exists.
    pub fn ensure_entity_creator_exists(&self, class_id: ClassId, group_id: GroupId) -> (r: Result<
        (),
        DirectoryError,
    >)
        ensures
            r is Ok <==> self.creator_registered(class_id, group_id),
            r is Err ==> r->Err_0 == DirectoryError::EntityCreatorDoesNotExist,
    {
        if self.creator_exists(class_id, group_id) {
            Ok(())
        } else {
            Err(DirectoryError::EntityCreatorDoesNotExist)
        }
    }

    /// Passes exactly when the creator registration does not exist.
    pub fn ensure_entity_creator_does_not_exist(&self, class_id: ClassId, group_id: GroupId) -> (r:
        Result<(), DirectoryError>)
        ensures
            r is Ok <==> !self.creator_registered(class_id, group_id),
            r is Err ==> r->Err_0 == DirectoryError::EntityCreatorAlreadyExists,
    {
        if self.creator_exists(class_id, group_id) {
            Err(DirectoryError::EntityCreatorAlreadyExists)
        } else {
            Ok(())
        }
    }

    /// Whether a group is registered as maintainer group of an entity.
    pub fn group_maintainer_exists(&self, entity_id: EntityId, group_id: GroupId) -> (r: bool)
        ensures
            r == self.group_maintainer_registered(entity_id, group_id),
    {
        contains_pair(&self.entity_maintainers, entity_id, group_id)
    }

    /// Passes exactly when the maintainer registration exists.
    pub fn ensure_entity_maintainer_exists(&self, entity_id: EntityId, group_id: GroupId) -> (r:
        Result<(), DirectoryError>)
        ensures
            r is Ok <==> self.group_maintainer_registered(entity_id, group_id),
            r is Err ==> r->Err_0 == DirectoryError::EntityMaintainerDoesNotExist,
    {
        if self.group_maintainer_exists(entity_id, group_id) {
            Ok(())
        } else {
            Err(DirectoryError::EntityMaintainerDoesNotExist)
        }
    }

    /// Passes exactly when the maintainer registration does not exist.
    pub fn ensure_entity_maintainer_does_not_exist(
        &self,
        entity_id: EntityId,
        group_id: GroupId,
    ) -> (r: Result<(), DirectoryError>)
        ensures
            r is Ok <==> !self.group_maintainer_registered(entity_id, group_id),
            r is Err ==> r->Err_0 == DirectoryError::EntityMaintainerAlreadyExists,
    {
        if self.group_maintainer_exists(entity_id, group_id) {
            Err(DirectoryError::EntityMaintainerAlreadyExists)
        } else {
            Ok(())
        }
    }

    /// The voucher recorded for a (class, controller) pair.
    pub fn find_voucher(&self, class_id: ClassId, controller: EntityController) -> (r: Option<
        EntityCreationVoucher,
    >)
        ensures
            r == self.voucher_of(class_id, controller),
    {
        let entries = &self.entity_creation_vouchers;
        let ghost all = entries@;
        proof {
            assert(all.skip(0) =~= all);
        }
        let mut i: usize = 0;
        while i < entries.len()
            invariant
                i <= entries.len(),
                all == entries@,
                all == self.entity_creation_vouchers@,
                spec_find_voucher(all, class_id, controller) == spec_find_voucher(
                    all.skip(i as int),
                    class_id,
                    controller,
                ),
        decreases entries.len() - i,
    {
            proof {
                assert(all.skip(i as int)[0] == all[i as int]);
            }
            if entries[i].class_id == class_id && entries[i].controller == controller {
                proof {
                    assert(all.skip(i as int).len() > 0);
                    assert(spec_find_voucher(all.skip(i as int), class_id, controller) == Some(
                        all[i as int].voucher,
                    ));
                }
                return Some(entries[i].voucher);
            }
            proof {
                assert(all.skip(i as int).drop_first() =~= all.skip(i as int + 1));
            }
            i += 1;
        }
        proof {
            assert(all.skip(entries@.len() as int).len() == 0);
        }
        None
    }

    /// Passes exactly when a voucher exists for the pair.
    pub fn ensure_entity_creation_voucher_exists(
        &self,
        class_id: ClassId,
        controller: &EntityController,
    ) -> (r: Result<EntityCreationVoucher, DirectoryError>)
        ensures
            r is Ok <==> self.voucher_of(class_id, *controller) is Some,
            r is Ok ==> Some(r->Ok_0) == self.voucher_of(class_id, *controller),
            r is Err ==> r->Err_0 == DirectoryError::EntityCreationVoucherDoesNotExist,
    {
        match self.find_voucher(class_id, *controller) {
            Some(v) => Ok(v),
            None => Err(DirectoryError::EntityCreationVoucherDoesNotExist),
        }
    }

    /// Passes exactly when a class name has an accepted length.
    pub fn ensure_class_name_is_valid(&self, text: &Vec<u8>) -> (r: Result<(), DirectoryError>)
        ensures
            r is Ok <==> self.class_name_constraint.accepts(text@.len() as int),
            r is Err ==> r->Err_0 == DirectoryError::ClassNameTooShort || r->Err_0
                == DirectoryError::ClassNameTooLong,
    {
        self.class_name_constraint.ensure_valid(
            text.len(),
            DirectoryError::ClassNameTooShort,
            DirectoryError::ClassNameTooLong,
        )
    }

    /// Passes exactly when a class description has an accepted length.
    pub fn ensure_class_description_is_valid(&self, text: &Vec<u8>) -> (r: Result<
        (),
        DirectoryError,
    >)
        ensures
            r is Ok <==> self.class_description_constraint.accepts(text@.len() as int),
            r is Err ==> r->Err_0 == DirectoryError::ClassDescriptionTooShort || r->Err_0
                == DirectoryError::ClassDescriptionTooLong,
    {
        self.class_description_constraint.ensure_valid(
            text.len(),
            DirectoryError::ClassDescriptionTooShort,
            DirectoryError::ClassDescriptionTooLong,
        )
    }
}

/// Whether a list of pairs holds a pair.
fn contains_pair(entries: &Vec<(u64, u64)>, a: u64, b: u64) -> (r: bool)
    ensures
        r == entries@.contains((a, b)),
{
    let mut i: usize = 0;
    while i < entries.len()
        invariant
            i <= entries.len(),
            forall|j: int| 0 <= j < i ==> entries@[j] != (a, b),
        decreases entries.len() - i,
    {
        if entries[i].0 == a && entries[i].1 == b {
            proof {
                assert(entries@[i as int] == (a, b));
            }
            return true;
        }
        i += 1;
    }
    false
}

/// What a pushed element does to membership.
pub proof fn lemma_push_contains<T>(s: Seq<T>, x: T, y: T)
    ensures
        s.push(x).contains(y) <==> (s.contains(y) || y == x),
{
    if s.contains(y) {
        let i = choose|i: int| 0 <= i < s.len() && s[i] == y;
        assert(s.push(x)[i] == y);
    }
    if y == x {
        assert(s.push(x)[s.len() as int] == y);
    }
    if s.push(x).contains(y) {
        let i = choose|i: int| 0 <= i < s.push(x).len() && s.push(x)[i] == y;
        if i < s.len() {
            assert(s[i] == y);
        }
    }
}

/// What removing one element does to membership.
pub proof fn lemma_remove_contains<T>(s: Seq<T>, k: int, y: T)
    requires
        0 <= k < s.len(),
    ensures
        s.remove(k).contains(y) <==> exists|i: int| 0 <= i < s.len() && i != k && s[i] == y,
{
    s.remove_ensures(k);
    if s.remove(k).contains(y) {
        let i = choose|i: int| 0 <= i < s.remove(k).len() && s.remove(k)[i] == y;
        if i < k {
            assert(s[i] == y && i != k);
        } else {
            assert(s[i + 1] == y && i + 1 != k);
        }
    }
    if exists|i: int| 0 <= i < s.len() && i != k && s[i] == y {
        let i = choose|i: int| 0 <= i < s.len() && i != k && s[i] == y;
        if i < k {
            assert(s.remove(k)[i] == y);
        } else {
            assert(s.remove(k)[i - 1] == y);
        }
    }
}

} // verus!
